//! The builder task's command loop, as a state machine: each inbound command
//! moves the task to its next state and names the one thing to do next.
//! The caller performs that action, so builds run one at a time and in the
//! order the commands came.
use vstd::prelude::*;

verus! {

/// External intent handed to a builder task.
#[derive(Debug, Clone, PartialEq, Eq)]
pub enum BuilderIncomingMessages {
    RequestBuild,
    CodeChanged,
    AssetChanged(String),
}

/// Build lifecycle events. A failed build is reported only by the absence of
/// the output events that a successful one sends.
#[derive(Debug, Clone, Copy, PartialEq, Eq, Structural)]
pub enum BuilderOutgoingMessages {
    BuildStarted,
}

/// What the task does for one command.
#[derive(Debug, Clone, PartialEq, Eq)]
pub enum TaskAction {
    /// Send `BuildStarted`, then run one build to completion.
    StartBuild,
    /// Send `AssetUpdated` for the path; no build.
    ForwardAsset(String),
    /// Nothing.
    Idle,
}

/// State of one builder task: `armed` once any build has been requested.
#[derive(Debug, Clone, Copy, PartialEq, Eq, Structural)]
pub struct BuilderTask {
    pub armed: bool,
}

/// One step of the command loop: the next `armed` flag and the action.
pub open spec fn step(armed: bool, m: BuilderIncomingMessages) -> (bool, TaskAction) {
    match m {
        BuilderIncomingMessages::RequestBuild => (true, TaskAction::StartBuild),
        BuilderIncomingMessages::CodeChanged => if armed {
            (true, TaskAction::StartBuild)
        } else {
            (false, TaskAction::Idle)
        },
        BuilderIncomingMessages::AssetChanged(p) => (armed, TaskAction::ForwardAsset(p)),
    }
}

/// The `armed` flag after a run of commands.
pub open spec fn run_state(armed: bool, ms: Seq<BuilderIncomingMessages>) -> bool
    decreases ms.len(),
{
    if ms.len() == 0 {
        armed
    } else {
        step(run_state(armed, ms.drop_last()), ms.last()).0
    }
}

/// The actions of a run of commands, one per command, in order.
pub open spec fn run_actions(armed: bool, ms: Seq<BuilderIncomingMessages>) -> Seq<TaskAction>
    decreases ms.len(),
{
    if ms.len() == 0 {
        Seq::empty()
    } else {
        run_actions(armed, ms.drop_last()).push(step(run_state(armed, ms.drop_last()), ms.last()).1)
    }
}

impl BuilderTask {
    pub fn new() -> (r: BuilderTask)
        ensures
            !r.armed,
    {
        BuilderTask { armed: false }
    }

    /// Takes one command and says what to do for it.
    pub fn handle(&mut self, m: BuilderIncomingMessages) -> (r: TaskAction)
        ensures
            (final(self).armed, r) == step(old(self).armed, m),
    {
        match m {
            BuilderIncomingMessages::RequestBuild => {
                self.armed = true;
                TaskAction::StartBuild
            },
            BuilderIncomingMessages::CodeChanged => {
                if self.armed {
                    TaskAction::StartBuild
                } else {
                    TaskAction::Idle
                }
            },
            BuilderIncomingMessages::AssetChanged(p) => TaskAction::ForwardAsset(p),
        }
    }

    /// Takes commands in order and gives one action for each.
    pub fn handle_all(&mut self, ms: Vec<BuilderIncomingMessages>) -> (r: Vec<TaskAction>)
        ensures
            r@ == run_actions(old(self).armed, ms@),
            final(self).armed == run_state(old(self).armed, ms@),
    {
        let ghost start = self.armed;
        let ghost all = ms@;
        let mut ms = ms;
        let mut out: Vec<TaskAction> = Vec::new();
        let mut i: usize = 0;
        let n = ms.len();
        while ms.len() > 0
            invariant
                n == all.len(),
                i + ms@.len() == n,
                ms@ == all.subrange(i as int, n as int),
                out@ == run_actions(start, all.subrange(0, i as int)),
                self.armed == run_state(start, all.subrange(0, i as int)),
            decreases ms@.len(),
        {
            let m = ms.remove(0);
            let ghost prefix = all.subrange(0, i as int);
            let a = self.handle(m);
            out.push(a);
            i = i + 1;
            assert(all.subrange(0, i as int).drop_last() =~= prefix);
            assert(ms@ =~= all.subrange(i as int, n as int));
        }
        assert(all.subrange(0, n as int) =~= all);
        out
    }
}

/// Commands that are all `CodeChanged`, given to a task on which no build was
/// ever requested, start no build and leave it unarmed.
pub proof fn lemma_code_changes_alone_never_build(ms: Seq<BuilderIncomingMessages>)
    requires
        forall|i: int| 0 <= i < ms.len() ==> ms[i] is CodeChanged,
    ensures
        !run_state(false, ms),
        forall|i: int| 0 <= i < ms.len() ==> run_actions(false, ms)[i] is Idle,
        run_actions(false, ms).len() == ms.len(),
    decreases ms.len(),
{
    if ms.len() > 0 {
        lemma_code_changes_alone_never_build(ms.drop_last());
    }
}

/// Every `RequestBuild` in a run starts exactly one build, at its own place
/// in the order of the commands, whatever the starting state.
pub proof fn lemma_requests_build_in_order(armed: bool, ms: Seq<BuilderIncomingMessages>)
    requires
        forall|i: int| 0 <= i < ms.len() ==> ms[i] is RequestBuild,
    ensures
        run_actions(armed, ms).len() == ms.len(),
        forall|i: int| 0 <= i < ms.len() ==> run_actions(armed, ms)[i] is StartBuild,
        ms.len() > 0 ==> run_state(armed, ms),
    decreases ms.len(),
{
    if ms.len() > 0 {
        lemma_requests_build_in_order(armed, ms.drop_last());
    }
}

/// An asset change is forwarded at once, in either state, and leaves the
/// state as it was.
pub proof fn lemma_asset_change_forwarded(armed: bool, p: String)
    ensures
        step(armed, BuilderIncomingMessages::AssetChanged(p)) == (armed, TaskAction::ForwardAsset(p)),
{
}

} // verus!
