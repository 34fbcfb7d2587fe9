use dexterous_developer::target::{Target, TargetParseError};

const ALL: [Target; 7] = [
    Target::Linux,
    Target::LinuxArm,
    Target::Windows,
    Target::Mac,
    Target::MacArm,
    Target::Android,
    Target::IOS,
];

#[test]
fn triples_parse_back_to_their_target() {
    for t in ALL {
        for host in ["linux", "windows", "macos"] {
            assert_eq!(Target::parse(t.to_static(host)), Ok(t));
            assert_eq!(t.as_str(host).parse::<Target>(), Ok(t));
        }
    }
}

#[test]
fn triple_strings_are_exact() {
    assert_eq!(Target::Linux.to_static("linux"), "x86_64-unknown-linux-gnu");
    assert_eq!(Target::LinuxArm.to_static("linux"), "aarch64-unknown-linux-gnu");
    assert_eq!(Target::Windows.to_static("linux"), "x86_64-pc-windows-gnu");
    assert_eq!(Target::Mac.to_static("linux"), "x86_64-apple-darwin");
    assert_eq!(Target::MacArm.to_static("linux"), "aarch64-apple-darwin");
    assert_eq!(Target::Android.to_static("linux"), "aarch64-linux-android");
    assert_eq!(Target::IOS.as_str("linux"), "aarch64-apple-ios");
}

#[test]
fn windows_host_uses_msvc() {
    assert_eq!(Target::Windows.to_static("windows"), "x86_64-pc-windows-msvc");
    assert_eq!(Target::Windows.to_static("macos"), "x86_64-pc-windows-gnu");
    assert_eq!(Target::Linux.to_static("windows"), "x86_64-unknown-linux-gnu");
    assert_eq!(Target::MacArm.as_str("windows"), "aarch64-apple-darwin");
}

#[test]
fn extensions_per_target() {
    assert_eq!(Target::Linux.dynamic_lib_extension(), "so");
    assert_eq!(Target::LinuxArm.dynamic_lib_extension(), "so");
    assert_eq!(Target::Android.dynamic_lib_extension(), "so");
    assert_eq!(Target::Windows.dynamic_lib_extension(), "dll");
    assert_eq!(Target::Mac.dynamic_lib_extension(), "dylib");
    assert_eq!(Target::MacArm.dynamic_lib_extension(), "dylib");
    assert_eq!(Target::IOS.dynamic_lib_extension(), "dylib");
}

#[test]
fn parsing_ignores_case_and_surrounding_space() {
    assert_eq!(Target::parse("  X86_64-UNKNOWN-LINUX-GNU \n"), Ok(Target::Linux));
    assert_eq!(Target::parse("Linux ARM"), Ok(Target::LinuxArm));
    assert_eq!(Target::parse("MacOS"), Ok(Target::Mac));
    assert_eq!(Target::parse("mac-aarch64"), Ok(Target::MacArm));
    assert_eq!(Target::parse("iOS"), Ok(Target::IOS));
}

#[test]
fn platform_keyword_takes_precedence() {
    assert_eq!(Target::parse("arm-windows"), Ok(Target::Windows));
    assert_eq!(Target::parse("linux-android"), Ok(Target::Android));
    assert_eq!(Target::parse("aarch64-apple-ios-mac"), Ok(Target::MacArm));
}

#[test]
fn strings_without_keywords_are_rejected() {
    assert_eq!(Target::parse(""), Err(TargetParseError::InvalidTarget));
    assert_eq!(Target::parse("x86_64-unknown-freebsd"), Err(TargetParseError::InvalidTarget));
    assert_eq!(Target::parse("wasm32-unknown-unknown"), Err(TargetParseError::InvalidTarget));
    assert_eq!(Target::from_normalized("LINUX"), Err(TargetParseError::InvalidTarget));
}

#[test]
fn normalized_parsing() {
    assert_eq!(Target::from_normalized("aarch64-unknown-linux-gnu"), Ok(Target::LinuxArm));
    assert_eq!(Target::from_normalized("x86_64-pc-windows-msvc"), Ok(Target::Windows));
}

#[test]
fn host_detection() {
    assert_eq!(Target::current("linux", "x86_64"), Some(Target::Linux));
    assert_eq!(Target::current("linux", "aarch64"), Some(Target::LinuxArm));
    assert_eq!(Target::current("windows", "x86_64"), Some(Target::Windows));
    assert_eq!(Target::current("macos", "x86_64"), Some(Target::Mac));
    assert_eq!(Target::current("macos", "aarch64"), Some(Target::MacArm));
    assert_eq!(Target::current("freebsd", "x86_64"), None);
}
