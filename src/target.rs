//! Platforms that code can be built for, with their toolchain triples and
//! dynamic-library file extensions.
use vstd::prelude::*;

use crate::text::{
    contains, has_infix, is_plain_lower, lemma_infix_at, lemma_missing_char_no_infix, lower_of, lowercase,
    same_text,
};

verus! {

#[derive(Debug, Clone, Copy, Hash, PartialEq, Eq, Structural)]
pub enum Target {
    Linux,
    LinuxArm,
    Windows,
    Mac,
    MacArm,
    Android,
    IOS,
}

#[derive(Debug, Clone, Copy, PartialEq, Eq, Structural)]
pub enum TargetParseError {
    InvalidTarget,
}

/// The canonical toolchain triple of a target, for a host whose operating
/// system is named as Rust spells it: a Windows host builds for Windows with
/// the MSVC toolchain, any other host with the GNU one.
pub open spec fn triple_of(t: Target, host_os: Seq<char>) -> Seq<char> {
    match t {
        Target::Linux => "x86_64-unknown-linux-gnu"@,
        Target::LinuxArm => "aarch64-unknown-linux-gnu"@,
        Target::Windows => if host_os == "windows"@ {
            "x86_64-pc-windows-msvc"@
        } else {
            "x86_64-pc-windows-gnu"@
        },
        Target::Mac => "x86_64-apple-darwin"@,
        Target::MacArm => "aarch64-apple-darwin"@,
        Target::Android => "aarch64-linux-android"@,
        Target::IOS => "aarch64-apple-ios"@,
    }
}

/// The file extension of a dynamic library on a target.
pub open spec fn extension_for(t: Target) -> Seq<char> {
    match t {
        Target::Windows => "dll"@,
        Target::Mac | Target::MacArm | Target::IOS => "dylib"@,
        _ => "so"@,
    }
}

/// The text names an ARM architecture.
pub open spec fn names_arm(s: Seq<char>) -> bool {
    has_infix(s, "arm"@) || has_infix(s, "aarch"@)
}

/// Which target a lowercase description names. The platform keyword
/// decides first; the architecture only picks between the two Linux and the
/// two Mac targets.
pub open spec fn classify(s: Seq<char>) -> Option<Target> {
    if has_infix(s, "windows"@) {
        Some(Target::Windows)
    } else if has_infix(s, "android"@) {
        Some(Target::Android)
    } else if has_infix(s, "linux"@) {
        Some(if names_arm(s) { Target::LinuxArm } else { Target::Linux })
    } else if has_infix(s, "darwin"@) || has_infix(s, "mac"@) {
        Some(if names_arm(s) { Target::MacArm } else { Target::Mac })
    } else if has_infix(s, "ios"@) {
        Some(Target::IOS)
    } else {
        None
    }
}

/// The result of parsing a lowercase description.
pub open spec fn classify_result(s: Seq<char>) -> Result<Target, TargetParseError> {
    match classify(s) {
        Some(t) => Ok(t),
        None => Err(TargetParseError::InvalidTarget),
    }
}

/// The target of a host, from its operating system and architecture names as
/// Rust spells them (`"linux"`, `"windows"`, `"macos"`; `"aarch64"`).
pub open spec fn host_target(os: Seq<char>, arch: Seq<char>) -> Option<Target> {
    if os == "linux"@ {
        Some(if arch == "aarch64"@ { Target::LinuxArm } else { Target::Linux })
    } else if os == "windows"@ {
        Some(Target::Windows)
    } else if os == "macos"@ {
        Some(if arch == "aarch64"@ { Target::MacArm } else { Target::Mac })
    } else {
        None
    }
}

impl Target {
    /// The target of the host whose operating system and architecture are
    /// named, or `None` where the host is not supported.
    pub fn current(os: &str, arch: &str) -> (r: Option<Target>)
        ensures
            r == host_target(os@, arch@),
    {
        if same_text(os, "linux") {
            if same_text(arch, "aarch64") {
                Some(Target::LinuxArm)
            } else {
                Some(Target::Linux)
            }
        } else if same_text(os, "windows") {
            Some(Target::Windows)
        } else if same_text(os, "macos") {
            if same_text(arch, "aarch64") {
                Some(Target::MacArm)
            } else {
                Some(Target::Mac)
            }
        } else {
            None
        }
    }

    /// The toolchain triple of the target, on a host with the named
    /// operating system.
    pub fn to_static(self, host_os: &str) -> (r: &'static str)
        ensures
            r@ == triple_of(self, host_os@),
    {
        match self {
            Target::Linux => "x86_64-unknown-linux-gnu",
            Target::LinuxArm => "aarch64-unknown-linux-gnu",
            Target::Windows => {
                if same_text(host_os, "windows") {
                    "x86_64-pc-windows-msvc"
                } else {
                    "x86_64-pc-windows-gnu"
                }
            },
            Target::Mac => "x86_64-apple-darwin",
            Target::MacArm => "aarch64-apple-darwin",
            Target::Android => "aarch64-linux-android",
            Target::IOS => "aarch64-apple-ios",
        }
    }

    pub fn dynamic_lib_extension(&self) -> (r: &'static str)
        ensures
            r@ == extension_for(*self),
    {
        match self {
            Target::Windows => "dll",
            Target::Mac => "dylib",
            Target::MacArm => "dylib",
            Target::IOS => "dylib",
            _ => "so",
        }
    }

    pub fn as_str(&self, host_os: &str) -> (r: &'static str)
        ensures
            r@ == triple_of(*self, host_os@),
    {
        self.to_static(host_os)
    }

    /// Parses a description that is already lowercase.
    pub fn from_normalized(s: &str) -> (r: Result<Target, TargetParseError>)
        ensures
            r == classify_result(s@),
    {
        if contains(s, "windows") {
            Ok(Target::Windows)
        } else if contains(s, "android") {
            Ok(Target::Android)
        } else if contains(s, "linux") {
            if contains(s, "arm") || contains(s, "aarch") {
                Ok(Target::LinuxArm)
            } else {
                Ok(Target::Linux)
            }
        } else if contains(s, "darwin") || contains(s, "mac") {
            if contains(s, "arm") || contains(s, "aarch") {
                Ok(Target::MacArm)
            } else {
                Ok(Target::Mac)
            }
        } else if contains(s, "ios") {
            Ok(Target::IOS)
        } else {
            Err(TargetParseError::InvalidTarget)
        }
    }

    /// Parses a target description: letter case does not matter, and a
    /// description that names no platform is an error.
    pub fn parse(s: &str) -> (r: Result<Target, TargetParseError>)
        ensures
            r == classify_result(lower_of(s@)),
            (forall|i: int| 0 <= i < s@.len() ==> is_plain_lower(#[trigger] s@[i])) ==> r
                == classify_result(s@),
    {
        let lowered = lowercase(s);
        Target::from_normalized(lowered.as_str())
    }
}

/// Every character of a canonical triple is plain lowercase text.
pub proof fn lemma_triple_is_plain(t: Target, host_os: Seq<char>)
    ensures
        forall|i: int|
            0 <= i < triple_of(t, host_os).len() ==> is_plain_lower(
                #[trigger] triple_of(t, host_os)[i],
            ),
{
    reveal_strlit("x86_64-pc-windows-msvc");
    reveal_strlit("x86_64-unknown-linux-gnu");
    reveal_strlit("aarch64-unknown-linux-gnu");
    reveal_strlit("x86_64-pc-windows-gnu");
    reveal_strlit("x86_64-apple-darwin");
    reveal_strlit("aarch64-apple-darwin");
    reveal_strlit("aarch64-linux-android");
    reveal_strlit("aarch64-apple-ios");
}

/// Parsing a target's canonical triple, on any host, gives back that target.
pub proof fn lemma_triple_round_trip(t: Target, host_os: Seq<char>)
    ensures
        classify(triple_of(t, host_os)) == Some(t),
        classify_result(triple_of(t, host_os)) == Ok::<Target, TargetParseError>(t),
{
    let s = triple_of(t, host_os);
    reveal_strlit("x86_64-pc-windows-msvc");
    reveal_strlit("x86_64-unknown-linux-gnu");
    reveal_strlit("aarch64-unknown-linux-gnu");
    reveal_strlit("x86_64-pc-windows-gnu");
    reveal_strlit("x86_64-apple-darwin");
    reveal_strlit("aarch64-apple-darwin");
    reveal_strlit("aarch64-linux-android");
    reveal_strlit("aarch64-apple-ios");
    reveal_strlit("windows");
    reveal_strlit("android");
    reveal_strlit("linux");
    reveal_strlit("darwin");
    reveal_strlit("mac");
    reveal_strlit("ios");
    reveal_strlit("arm");
    reveal_strlit("aarch");
    match t {
        Target::Linux => {
            lemma_missing_char_no_infix(s, "windows"@, 6);
            lemma_missing_char_no_infix(s, "android"@, 0);
            lemma_infix_at(s, "linux"@, 15);
            lemma_missing_char_no_infix(s, "arm"@, 0);
            lemma_missing_char_no_infix(s, "aarch"@, 0);
        },
        Target::LinuxArm => {
            lemma_missing_char_no_infix(s, "windows"@, 6);
            lemma_missing_char_no_infix(s, "android"@, 2);
            lemma_infix_at(s, "linux"@, 16);
            lemma_infix_at(s, "aarch"@, 0);
        },
        Target::Windows => {
            lemma_infix_at(s, "windows"@, 10);
        },
        Target::Mac => {
            lemma_missing_char_no_infix(s, "windows"@, 6);
            lemma_missing_char_no_infix(s, "android"@, 4);
            lemma_missing_char_no_infix(s, "linux"@, 3);
            lemma_infix_at(s, "darwin"@, 13);
            lemma_missing_char_no_infix(s, "arm"@, 2);
            lemma_missing_char_no_infix(s, "aarch"@, 3);
        },
        Target::MacArm => {
            lemma_missing_char_no_infix(s, "windows"@, 6);
            lemma_missing_char_no_infix(s, "android"@, 4);
            lemma_missing_char_no_infix(s, "linux"@, 3);
            lemma_infix_at(s, "darwin"@, 14);
            lemma_infix_at(s, "aarch"@, 0);
        },
        Target::Android => {
            lemma_missing_char_no_infix(s, "windows"@, 6);
            lemma_infix_at(s, "android"@, 14);
        },
        Target::IOS => {
            lemma_missing_char_no_infix(s, "windows"@, 0);
            lemma_missing_char_no_infix(s, "android"@, 1);
            lemma_missing_char_no_infix(s, "linux"@, 2);
            lemma_missing_char_no_infix(s, "darwin"@, 0);
            lemma_missing_char_no_infix(s, "mac"@, 0);
            lemma_infix_at(s, "ios"@, 14);
        },
    }
}

/// A description that holds none of the platform keywords never parses.
pub proof fn lemma_no_keyword_rejected(s: Seq<char>)
    requires
        !has_infix(s, "windows"@),
        !has_infix(s, "android"@),
        !has_infix(s, "linux"@),
        !has_infix(s, "darwin"@),
        !has_infix(s, "mac"@),
        !has_infix(s, "ios"@),
    ensures
        classify_result(s) == Err::<Target, TargetParseError>(TargetParseError::InvalidTarget),
{
}

impl core::str::FromStr for Target {
    type Err = TargetParseError;

    fn from_str(s: &str) -> (r: Result<Target, TargetParseError>)
        ensures
            r == classify_result(lower_of(s@)),
    {
        Target::parse(s)
    }
}

} // verus!
