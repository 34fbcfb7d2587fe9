use dexterous_developer::task::{BuilderIncomingMessages, BuilderTask, TaskAction};

#[test]
fn code_changes_alone_never_build() {
    let mut task = BuilderTask::new();
    let actions = task.handle_all(vec![
        BuilderIncomingMessages::CodeChanged,
        BuilderIncomingMessages::CodeChanged,
        BuilderIncomingMessages::CodeChanged,
    ]);
    assert_eq!(actions, vec![TaskAction::Idle, TaskAction::Idle, TaskAction::Idle]);
    assert!(!task.armed);
}

#[test]
fn each_request_builds_once_in_order() {
    let mut task = BuilderTask::new();
    let actions = task.handle_all(vec![BuilderIncomingMessages::RequestBuild; 4]);
    assert_eq!(actions, vec![TaskAction::StartBuild; 4]);
    assert!(task.armed);
}

#[test]
fn code_change_builds_once_armed() {
    let mut task = BuilderTask::new();
    assert_eq!(task.handle(BuilderIncomingMessages::CodeChanged), TaskAction::Idle);
    assert_eq!(task.handle(BuilderIncomingMessages::RequestBuild), TaskAction::StartBuild);
    assert_eq!(task.handle(BuilderIncomingMessages::CodeChanged), TaskAction::StartBuild);
}

#[test]
fn asset_change_forwarded_while_idle() {
    let mut task = BuilderTask::new();
    let a = task.handle(BuilderIncomingMessages::AssetChanged("assets/a.png".to_string()));
    assert_eq!(a, TaskAction::ForwardAsset("assets/a.png".to_string()));
    assert!(!task.armed);
}

#[test]
fn mixed_commands_keep_their_order() {
    let mut task = BuilderTask::new();
    let actions = task.handle_all(vec![
        BuilderIncomingMessages::CodeChanged,
        BuilderIncomingMessages::AssetChanged("x".to_string()),
        BuilderIncomingMessages::RequestBuild,
        BuilderIncomingMessages::CodeChanged,
    ]);
    assert_eq!(
        actions,
        vec![
            TaskAction::Idle,
            TaskAction::ForwardAsset("x".to_string()),
            TaskAction::StartBuild,
            TaskAction::StartBuild,
        ]
    );
}
