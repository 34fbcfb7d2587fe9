//! The build driver's decisions: the compiler invocation, which structured
//! compiler messages are kept, when a build counts as successful, which output
//! files are dynamic libraries, and the composite search path.
use vstd::prelude::*;

use crate::settings::{PackageOrExample, TargetBuildSettings};
use crate::target::{extension_for, triple_of, Target};
use crate::paths::{extension_of, file_name_of, opt_view, parent_of, path_extension, path_file_name, path_parent};
use crate::text::same_text;

verus! {

/// A compiler-artifact message, reduced to what the driver reads.
#[derive(Debug, Clone)]
pub struct CompilerArtifact {
    pub crate_types: Vec<String>,
    pub filenames: Vec<String>,
}

/// One message of the compiler's structured progress stream.
#[derive(Debug, Clone)]
pub enum CompilerMessage {
    Artifact(CompilerArtifact),
    BuildFinished(bool),
    Other,
}

/// Why a build produced nothing.
#[derive(Debug, Clone, PartialEq, Eq)]
pub enum BuildError {
    /// The compiler exited with failure or reported that the build failed.
    CompilerFailed,
    /// An artifact path has no parent directory.
    NoParent(String),
    /// A file's binary image could not be read for its imports.
    UnreadableBinary(String),
}

pub open spec fn strings_view(v: Seq<String>) -> Seq<Seq<char>> {
    v.map_values(|s: String| s@)
}

pub open spec fn pairs_view(v: Seq<(String, String)>) -> Seq<(Seq<char>, Seq<char>)> {
    v.map_values(|p: (String, String)| (p.0@, p.1@))
}

/// The items joined by commas.
pub open spec fn join_commas(fs: Seq<Seq<char>>) -> Seq<char>
    decreases fs.len(),
{
    if fs.len() == 0 {
        Seq::empty()
    } else if fs.len() == 1 {
        fs[0]
    } else {
        join_commas(fs.drop_last()) + ","@ + fs.last()
    }
}

pub open spec fn selector_args(p: PackageOrExample) -> Seq<Seq<char>> {
    match p {
        PackageOrExample::DefaulPackage => Seq::empty(),
        PackageOrExample::Package(name) => seq!["-p"@, name@],
        PackageOrExample::Example(name) => seq!["--example"@, name@],
    }
}

pub open spec fn feature_args(fs: Seq<Seq<char>>) -> Seq<Seq<char>> {
    if fs.len() == 0 {
        Seq::empty()
    } else {
        seq!["--features"@, join_commas(fs)]
    }
}

/// The arguments of the compiler invocation: a library-only build with
/// machine-readable progress messages for the target's triple, then the
/// package or example selector, then the features.
pub open spec fn cargo_args_of(t: Target, host_os: Seq<char>, s: TargetBuildSettings) -> Seq<
    Seq<char>,
> {
    seq![
        "build"@,
        "--lib"@,
        "--message-format=json-render-diagnostics"@,
        "--profile"@,
        "dev"@,
        "--target"@,
        triple_of(t, host_os),
    ] + selector_args(s.package_or_example) + feature_args(strings_view(s.features@))
}

/// The features joined by commas.
pub fn join_features(fs: &Vec<String>) -> (r: String)
    ensures
        r@ == join_commas(strings_view(fs@)),
{
    let ghost all = strings_view(fs@);
    let mut out = String::new();
    let mut i: usize = 0;
    while i < fs.len()
        invariant
            i <= fs@.len(),
            all == strings_view(fs@),
            out@ == join_commas(all.subrange(0, i as int)),
        decreases fs@.len() - i,
    {
        let ghost prev = out@;
        if i > 0 {
            out.append(",");
        }
        out.append(fs[i].as_str());
        proof {
            let next = all.subrange(0, i + 1);
            assert(next.drop_last() =~= all.subrange(0, i as int));
            if i == 0 {
                assert(out@ =~= next[0]);
            }
        }
        i = i + 1;
    }
    assert(all.subrange(0, fs@.len() as int) =~= all);
    out
}

/// The arguments of the compiler invocation for one target and settings, on
/// a host with the named operating system.
pub fn cargo_args(target: Target, host_os: &str, settings: &TargetBuildSettings) -> (r: Vec<String>)
    ensures
        strings_view(r@) == cargo_args_of(target, host_os@, *settings),
{
    let mut args: Vec<String> = Vec::new();
    args.push("build".to_owned());
    args.push("--lib".to_owned());
    args.push("--message-format=json-render-diagnostics".to_owned());
    args.push("--profile".to_owned());
    args.push("dev".to_owned());
    args.push("--target".to_owned());
    args.push(target.to_static(host_os).to_owned());
    match &settings.package_or_example {
        PackageOrExample::DefaulPackage => {},
        PackageOrExample::Package(name) => {
            args.push("-p".to_owned());
            args.push(name.clone());
        },
        PackageOrExample::Example(name) => {
            args.push("--example".to_owned());
            args.push(name.clone());
        },
    }
    if settings.features.len() > 0 {
        args.push("--features".to_owned());
        args.push(join_features(&settings.features));
    }
    assert(strings_view(args@) =~= cargo_args_of(target, host_os@, *settings));
    args
}

/// The output directory of a target's builds, kept apart from other targets.
pub fn target_dir(target: Target, host_os: &str) -> (r: String)
    ensures
        r@ == "./target/hot-reload/"@ + triple_of(target, host_os@),
{
    let mut dir = "./target/hot-reload/".to_owned();
    dir.append(target.to_static(host_os));
    dir
}

/// The artifact declares the dynamic-library crate type.
pub open spec fn is_dylib_artifact(a: CompilerArtifact) -> bool {
    exists|i: int| 0 <= i < a.crate_types@.len() && #[trigger] a.crate_types@[i]@ == "dylib"@
}

/// The dynamic-library artifacts among the messages, in order.
pub open spec fn kept_artifacts(ms: Seq<CompilerMessage>) -> Seq<CompilerArtifact>
    decreases ms.len(),
{
    if ms.len() == 0 {
        Seq::empty()
    } else {
        let prev = kept_artifacts(ms.drop_last());
        match ms.last() {
            CompilerMessage::Artifact(a) => if is_dylib_artifact(a) {
                prev.push(a)
            } else {
                prev
            },
            _ => prev,
        }
    }
}

/// The success flag of the last build-finished message; false without one.
pub open spec fn reported_success(ms: Seq<CompilerMessage>) -> bool
    decreases ms.len(),
{
    if ms.len() == 0 {
        false
    } else {
        match ms.last() {
            CompilerMessage::BuildFinished(ok) => ok,
            _ => reported_success(ms.drop_last()),
        }
    }
}

/// The artifact declares the dynamic-library crate type.
pub fn is_dylib(a: &CompilerArtifact) -> (r: bool)
    ensures
        r == is_dylib_artifact(*a),
{
    let mut i: usize = 0;
    while i < a.crate_types.len()
        invariant
            i <= a.crate_types@.len(),
            forall|k: int| 0 <= k < i ==> a.crate_types@[k]@ != "dylib"@,
        decreases a.crate_types@.len() - i,
    {
        if same_text(a.crate_types[i].as_str(), "dylib") {
            return true;
        }
        i = i + 1;
    }
    false
}

/// The dynamic-library artifacts of a finished compiler run. The build
/// succeeded only if the process exited with success and the stream reported
/// success; otherwise nothing is kept.
pub fn finish_build(messages: Vec<CompilerMessage>, exit_success: bool) -> (r: Result<
    Vec<CompilerArtifact>,
    BuildError,
>)
    ensures
        match r {
            Ok(v) => exit_success && reported_success(messages@) && v@ == kept_artifacts(
                messages@,
            ),
            Err(e) => !(exit_success && reported_success(messages@)) && e
                == BuildError::CompilerFailed,
        },
{
    let ghost all = messages@;
    let n = messages.len();
    let mut ms = messages;
    let mut kept: Vec<CompilerArtifact> = Vec::new();
    let mut succeeded = false;
    let mut i: usize = 0;
    while ms.len() > 0
        invariant
            n == all.len(),
            i + ms@.len() == n,
            ms@ == all.subrange(i as int, n as int),
            kept@ == kept_artifacts(all.subrange(0, i as int)),
            succeeded == reported_success(all.subrange(0, i as int)),
        decreases ms@.len(),
    {
        let m = ms.remove(0);
        proof {
            assert(all.subrange(0, i + 1).drop_last() =~= all.subrange(0, i as int));
            assert(all.subrange(0, i + 1).last() == m);
        }
        match m {
            CompilerMessage::Artifact(a) => {
                if is_dylib(&a) {
                    kept.push(a);
                }
            },
            CompilerMessage::BuildFinished(ok) => {
                succeeded = ok;
            },
            CompilerMessage::Other => {},
        }
        i = i + 1;
        assert(ms@ =~= all.subrange(i as int, n as int));
    }
    assert(all.subrange(0, n as int) =~= all);
    if exit_success && succeeded {
        Ok(kept)
    } else {
        Err(BuildError::CompilerFailed)
    }
}

/// The composite search path: the executable search path, then the
/// dynamic-loader directories, then the artifact root directories.
pub fn search_path(system: Vec<String>, loader: Vec<String>, roots: Vec<String>) -> (r: Vec<
    String,
>)
    ensures
        r@ == system@ + loader@ + roots@,
{
    let mut all = system;
    let mut loader = loader;
    let mut roots = roots;
    all.append(&mut loader);
    all.append(&mut roots);
    all
}

/// The dynamic libraries among one artifact's output files, as pairs of file
/// name and path, in order.
pub open spec fn file_outputs(fs: Seq<String>, ext: Seq<char>) -> Seq<(Seq<char>, Seq<char>)>
    decreases fs.len(),
{
    if fs.len() == 0 {
        Seq::empty()
    } else {
        let prev = file_outputs(fs.drop_last(), ext);
        let p = fs.last()@;
        if extension_of(p) == Some(ext) && file_name_of(p) is Some {
            prev.push((file_name_of(p)->0, p))
        } else {
            prev
        }
    }
}

/// The dynamic libraries among all artifacts' output files, in order.
pub open spec fn artifact_outputs(arts: Seq<CompilerArtifact>, ext: Seq<char>) -> Seq<
    (Seq<char>, Seq<char>),
>
    decreases arts.len(),
{
    if arts.len() == 0 {
        Seq::empty()
    } else {
        artifact_outputs(arts.drop_last(), ext) + file_outputs(arts.last().filenames@, ext)
    }
}

/// The output files of the artifacts whose extension is the target's
/// dynamic-library extension, as pairs of file name and path.
pub fn dylib_outputs(artifacts: &Vec<CompilerArtifact>, target: Target) -> (r: Vec<
    (String, String),
>)
    ensures
        pairs_view(r@) == artifact_outputs(artifacts@, extension_for(target)),
{
    let ext = target.dynamic_lib_extension();
    let ghost arts = artifacts@;
    let mut out: Vec<(String, String)> = Vec::new();
    let mut i: usize = 0;
    while i < artifacts.len()
        invariant
            i <= arts.len(),
            arts == artifacts@,
            ext@ == extension_for(target),
            pairs_view(out@) == artifact_outputs(arts.subrange(0, i as int), ext@),
        decreases arts.len() - i,
    {
        let files = &artifacts[i].filenames;
        let ghost before = pairs_view(out@);
        let mut j: usize = 0;
        while j < files.len()
            invariant
                j <= files@.len(),
                ext@ == extension_for(target),
                pairs_view(out@) == before + file_outputs(files@.subrange(0, j as int), ext@),
            decreases files@.len() - j,
        {
            let path = &files[j];
            let ghost mid = pairs_view(out@);
            proof {
                assert(files@.subrange(0, j + 1).drop_last() =~= files@.subrange(0, j as int));
            }
            let e = path_extension(path.as_str());
            let keep = match &e {
                Some(e) => same_text(e.as_str(), ext),
                None => false,
            };
            if keep {
                let name = path_file_name(path.as_str());
                match name {
                    Some(name) => {
                        out.push((name, path.clone()));
                        assert(pairs_view(out@) =~= mid.push((name@, path@)));
                    },
                    None => {},
                }
            }
            j = j + 1;
        }
        proof {
            assert(files@.subrange(0, files@.len() as int) =~= files@);
            assert(arts.subrange(0, i + 1).drop_last() =~= arts.subrange(0, i as int));
        }
        i = i + 1;
    }
    assert(arts.subrange(0, arts.len() as int) =~= arts);
    out
}

/// The distinct parent directories of the paths, in order of first
/// appearance; `None` where some path has no parent.
pub open spec fn root_dirs_of(ps: Seq<Seq<char>>) -> Option<Seq<Seq<char>>>
    decreases ps.len(),
{
    if ps.len() == 0 {
        Some(Seq::empty())
    } else {
        match (root_dirs_of(ps.drop_last()), parent_of(ps.last())) {
            (Some(prev), Some(d)) => Some(if prev.contains(d) { prev } else { prev.push(d) }),
            _ => None,
        }
    }
}

/// The artifact root directories: the distinct parents of the canonical
/// artifact paths. A path without a parent is an error.
pub fn artifact_roots(paths: &Vec<String>) -> (r: Result<Vec<String>, BuildError>)
    ensures
        match r {
            Ok(v) => root_dirs_of(strings_view(paths@)) == Some(strings_view(v@)),
            Err(e) => root_dirs_of(strings_view(paths@)) is None && e is NoParent,
        },
{
    let ghost ps = strings_view(paths@);
    let mut roots: Vec<String> = Vec::new();
    let mut i: usize = 0;
    while i < paths.len()
        invariant
            i <= paths@.len(),
            ps == strings_view(paths@),
            root_dirs_of(ps.subrange(0, i as int)) == Some(strings_view(roots@)),
        decreases paths@.len() - i,
    {
        proof {
            assert(ps.subrange(0, i + 1).drop_last() =~= ps.subrange(0, i as int));
        }
        let parent = path_parent(paths[i].as_str());
        match parent {
            None => {
                proof {
                    lemma_root_dirs_none_extends(ps, i as int + 1);
                }
                return Err(BuildError::NoParent(paths[i].clone()));
            },
            Some(d) => {
                let mut found = false;
                let mut k: usize = 0;
                while k < roots.len()
                    invariant
                        k <= roots@.len(),
                        found == (exists|m: int| 0 <= m < k && #[trigger] roots@[m]@ == d@),
                    decreases roots@.len() - k,
                {
                    if !found && same_text(roots[k].as_str(), d.as_str()) {
                        found = true;
                    }
                    k = k + 1;
                }
                let ghost prev = strings_view(roots@);
                proof {
                    if found {
                        let m = choose|m: int| 0 <= m < k && #[trigger] roots@[m]@ == d@;
                        assert(prev[m] == d@);
                    } else {
                        assert forall|m: int| 0 <= m < prev.len() implies prev[m] != d@ by {
                            assert(prev[m] == roots@[m]@);
                        }
                    }
                }
                if !found {
                    roots.push(d);
                    assert(strings_view(roots@) =~= prev.push(d@));
                }
            },
        }
        i = i + 1;
    }
    assert(ps.subrange(0, paths@.len() as int) =~= ps);
    Ok(roots)
}

/// Once a prefix has no root directories, no longer prefix has them.
proof fn lemma_root_dirs_none_extends(ps: Seq<Seq<char>>, j: int)
    requires
        0 < j <= ps.len(),
        root_dirs_of(ps.subrange(0, j)) is None,
    ensures
        root_dirs_of(ps) is None,
    decreases ps.len() - j,
{
    if j < ps.len() {
        assert(ps.subrange(0, j + 1).drop_last() =~= ps.subrange(0, j));
        lemma_root_dirs_none_extends(ps, j + 1);
    } else {
        assert(ps.subrange(0, j) =~= ps);
    }
}

} // verus!
