use dexterous_developer::driver::{
    artifact_roots, cargo_args, dylib_outputs, finish_build, join_features, search_path,
    target_dir, BuildError, CompilerArtifact, CompilerMessage,
};
use dexterous_developer::records::{content_hash, library_records, BuildOutputMessages};
use dexterous_developer::resolver::{DependencyResolver, ResolveAction};
use dexterous_developer::settings::{PackageOrExample, TargetBuildSettings};
use dexterous_developer::target::Target;
use dexterous_developer::task::{BuilderIncomingMessages, BuilderTask, TaskAction};

fn strings(v: &[&str]) -> Vec<String> {
    v.iter().map(|s| s.to_string()).collect()
}

fn artifact(crate_types: &[&str], files: &[&str]) -> CompilerMessage {
    CompilerMessage::Artifact(CompilerArtifact {
        crate_types: strings(crate_types),
        filenames: strings(files),
    })
}

/// Runs a resolution over a synthetic import graph: `imports` lists each
/// file's imports by location, `on_path` the files the search path holds.
fn resolve(
    roots: &[(&str, &str)],
    imports: &[(&str, &[&str])],
    on_path: &[(&str, &str)],
) -> DependencyResolver {
    let mut r = DependencyResolver::new();
    for (name, path) in roots {
        r.add_root(name.to_string(), path.to_string());
    }
    let mut steps = 0;
    loop {
        steps += 1;
        assert!(steps < 1000, "resolution did not end");
        match r.next_action() {
            ResolveAction::Read(path) => {
                let listed = imports
                    .iter()
                    .find(|(p, _)| *p == path)
                    .map(|(_, v)| strings(v))
                    .unwrap_or_default();
                r.imports_listed(listed);
            }
            ResolveAction::Locate(name) => {
                let found = on_path.iter().find(|(n, _)| *n == name).map(|(_, p)| p.to_string());
                r.located(found);
            }
            ResolveAction::Done => break,
        }
    }
    r
}

fn records(r: &DependencyResolver) -> Vec<BuildOutputMessages> {
    let contents: Vec<Vec<u8>> =
        r.libraries.iter().map(|(n, _)| n.as_bytes().to_vec()).collect();
    library_records(&r.libraries, &r.dependencies, &contents)
}

fn library(m: &BuildOutputMessages) -> (&str, Vec<String>) {
    match m {
        BuildOutputMessages::LibraryUpdated(rec) => {
            (rec.relative_path.as_str(), rec.dependencies.clone())
        }
        BuildOutputMessages::AssetUpdated(_) => panic!("not a library"),
    }
}

#[test]
fn default_package_arguments() {
    let settings = TargetBuildSettings::default();
    assert_eq!(
        cargo_args(Target::Linux, "linux", &settings),
        strings(&[
            "build",
            "--lib",
            "--message-format=json-render-diagnostics",
            "--profile",
            "dev",
            "--target",
            "x86_64-unknown-linux-gnu",
        ])
    );
}

#[test]
fn selector_and_feature_arguments() {
    let mut settings = TargetBuildSettings::default();
    settings.package_or_example = PackageOrExample::Example("demo".to_string());
    settings.features = strings(&["a", "b", "c"]);
    let args = cargo_args(Target::MacArm, "linux", &settings);
    assert_eq!(args[6], "aarch64-apple-darwin");
    assert_eq!(args[7..].to_vec(), strings(&["--example", "demo", "--features", "a,b,c"]));
    settings.package_or_example = PackageOrExample::Package("game".to_string());
    settings.features = Vec::new();
    let args = cargo_args(Target::Linux, "linux", &settings);
    assert_eq!(args[7..].to_vec(), strings(&["-p", "game"]));
}

#[test]
fn features_joined_by_commas() {
    assert_eq!(join_features(&Vec::new()), "");
    assert_eq!(join_features(&strings(&["one"])), "one");
    assert_eq!(join_features(&strings(&["one", "two"])), "one,two");
}

#[test]
fn output_directory_per_target() {
    assert_eq!(
        target_dir(Target::Windows, "linux"),
        "./target/hot-reload/x86_64-pc-windows-gnu"
    );
    assert_eq!(
        target_dir(Target::Windows, "windows"),
        "./target/hot-reload/x86_64-pc-windows-msvc"
    );
}

#[test]
fn only_dylib_artifacts_are_kept() {
    let messages = vec![
        artifact(&["lib"], &["/out/libdep.rlib"]),
        CompilerMessage::Other,
        artifact(&["rlib", "dylib"], &["/out/libgame.so", "/out/libgame.rlib"]),
        CompilerMessage::BuildFinished(true),
    ];
    let kept = finish_build(messages, true).unwrap();
    assert_eq!(kept.len(), 1);
    assert_eq!(kept[0].filenames[0], "/out/libgame.so");
}

#[test]
fn failed_exit_status_fails_build() {
    let messages = vec![
        artifact(&["dylib"], &["/out/libgame.so"]),
        CompilerMessage::BuildFinished(true),
    ];
    assert_eq!(finish_build(messages, false).unwrap_err(), BuildError::CompilerFailed);
}

#[test]
fn reported_failure_fails_build() {
    let messages = vec![CompilerMessage::BuildFinished(false)];
    assert_eq!(finish_build(messages, true).unwrap_err(), BuildError::CompilerFailed);
    assert_eq!(finish_build(Vec::new(), true).unwrap_err(), BuildError::CompilerFailed);
}

#[test]
fn outputs_selected_by_extension() {
    let arts = vec![
        CompilerArtifact {
            crate_types: strings(&["dylib"]),
            filenames: strings(&["/out/libgame.so", "/out/libgame.rlib", "/out/game.dll"]),
        },
        CompilerArtifact {
            crate_types: strings(&["dylib"]),
            filenames: strings(&["/out/deps/libphysics.so"]),
        },
    ];
    let outs = dylib_outputs(&arts, Target::Linux);
    assert_eq!(
        outs,
        vec![
            ("libgame.so".to_string(), "/out/libgame.so".to_string()),
            ("libphysics.so".to_string(), "/out/deps/libphysics.so".to_string()),
        ]
    );
    let outs = dylib_outputs(&arts, Target::Windows);
    assert_eq!(outs, vec![("game.dll".to_string(), "/out/game.dll".to_string())]);
}

#[test]
fn roots_are_distinct_parents() {
    let roots = artifact_roots(&strings(&["/out/a.so", "/out/b.so", "/other/c.so"])).unwrap();
    assert_eq!(roots, strings(&["/out", "/other"]));
}

#[test]
fn path_without_parent_is_an_error() {
    assert_eq!(
        artifact_roots(&strings(&["/out/a.so", "/"])).unwrap_err(),
        BuildError::NoParent("/".to_string())
    );
}

#[test]
fn search_path_order() {
    let p = search_path(strings(&["/usr/bin"]), strings(&["/usr/lib"]), strings(&["/out"]));
    assert_eq!(p, strings(&["/usr/bin", "/usr/lib", "/out"]));
}

#[test]
fn unparsable_binary_fails_resolution() {
    let mut r = DependencyResolver::new();
    r.add_root("libgame.so".to_string(), "/out/libgame.so".to_string());
    assert_eq!(
        r.file_read(b"not a binary image"),
        Err(BuildError::UnreadableBinary("/out/libgame.so".to_string()))
    );
    assert_eq!(r.scanned, 0);
    assert_eq!(r.next_action(), ResolveAction::Read("/out/libgame.so".to_string()));
}

#[test]
fn import_cycle_resolves_each_library_once() {
    let r = resolve(
        &[("liba.so", "/out/liba.so")],
        &[("/out/liba.so", &["libb.so"]), ("/out/libb.so", &["liba.so"])],
        &[("libb.so", "/out/libb.so"), ("liba.so", "/out/liba.so")],
    );
    let names: Vec<&str> = r.libraries.iter().map(|(n, _)| n.as_str()).collect();
    assert_eq!(names, vec!["liba.so", "libb.so"]);
    assert_eq!(r.dependencies.len(), 2);
    assert_eq!(r.dependencies[1], ("libb.so".to_string(), strings(&["./liba.so"])));
}

#[test]
fn shared_dependency_resolved_once() {
    let r = resolve(
        &[("liba.so", "/out/liba.so"), ("libb.so", "/out/libb.so")],
        &[("/out/liba.so", &["libc.so"]), ("/out/libb.so", &["libc.so"])],
        &[("libc.so", "/lib/libc.so")],
    );
    assert_eq!(r.libraries.len(), 3);
    assert_eq!(r.dependencies[0].1, strings(&["./libc.so"]));
    assert_eq!(r.dependencies[1].1, strings(&["./libc.so"]));
}

#[test]
fn single_library_without_imports() {
    let messages = vec![
        artifact(&["dylib"], &["/out/libgame.so"]),
        CompilerMessage::BuildFinished(true),
    ];
    let kept = finish_build(messages, true).unwrap();
    let outs = dylib_outputs(&kept, Target::Linux);
    let roots: Vec<(&str, &str)> = outs.iter().map(|(n, p)| (n.as_str(), p.as_str())).collect();
    let r = resolve(&roots, &[], &[]);
    let recs = records(&r);
    assert_eq!(recs.len(), 1);
    assert_eq!(library(&recs[0]), ("./libgame.so", Vec::new()));
}

#[test]
fn library_importing_sibling() {
    let r = resolve(
        &[("libgame.so", "/out/libgame.so")],
        &[("/out/libgame.so", &["libphysics.so"])],
        &[("libphysics.so", "/out/libphysics.so")],
    );
    let recs = records(&r);
    assert_eq!(recs.len(), 2);
    assert_eq!(library(&recs[0]), ("./libgame.so", strings(&["./libphysics.so"])));
    assert_eq!(library(&recs[1]), ("./libphysics.so", Vec::new()));
}

#[test]
fn compiler_failure_after_build_started() {
    let mut task = BuilderTask::new();
    assert_eq!(task.handle(BuilderIncomingMessages::RequestBuild), TaskAction::StartBuild);
    let messages = vec![artifact(&["dylib"], &["/out/libgame.so"])];
    assert!(finish_build(messages, false).is_err());
}

#[test]
fn missing_import_is_dropped() {
    let r = resolve(
        &[("libgame.so", "/out/libgame.so")],
        &[("/out/libgame.so", &["libsystem.so", "libphysics.so"])],
        &[("libphysics.so", "/out/libphysics.so")],
    );
    let recs = records(&r);
    assert_eq!(recs.len(), 2);
    assert_eq!(library(&recs[0]), ("./libgame.so", strings(&["./libphysics.so"])));
}

#[test]
fn hash_is_deterministic_and_sensitive() {
    let a = content_hash(b"library bytes");
    assert_eq!(a, content_hash(b"library bytes"));
    assert_ne!(a, content_hash(b"library bytez"));
}

#[test]
fn hash_of_empty_input() {
    let h = content_hash(b"");
    assert_eq!(h[0], 0xaf);
    assert_eq!(h[1], 0x13);
    assert_eq!(h[31], 0x62);
}

#[test]
fn records_carry_paths_and_hashes() {
    let libs = vec![("libgame.so".to_string(), "/out/libgame.so".to_string())];
    let recs = library_records(&libs, &Vec::new(), &vec![b"abc".to_vec()]);
    match &recs[0] {
        BuildOutputMessages::LibraryUpdated(rec) => {
            assert_eq!(rec.local_path, "/out/libgame.so");
            assert_eq!(rec.relative_path, "./libgame.so");
            assert_eq!(rec.hash, content_hash(b"abc"));
            assert!(rec.dependencies.is_empty());
        }
        BuildOutputMessages::AssetUpdated(_) => panic!("not a library"),
    }
}
