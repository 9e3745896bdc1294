//! The helpers of the self-extracting command-line tool: the separator test,
//! the stub names it knows, and which stub binary to copy for a target.

pub use crate::crypto::convert_path;
pub use crate::generate_the_string;
pub use crate::trailer::cover_usize_to_u8s;

use vstd::prelude::*;
use crate::crypto::{is_windows, path_separator, separator};
use crate::text::{replace_all, replaced};

verus! {

/// The path separator of the current platform.
pub fn convert_spell() -> (sep: &'static str)
    ensures
        sep@ == separator(false) || sep@ == separator(true),
{
    path_separator()
}

/// Whether the current platform is Windows. Decided by the build target's
/// separator alone; no clause states which answer.
pub fn _is_win_os_() -> bool {
    is_windows()
}

/// The stub binary's file name for the platform ids the tool knows
/// (1 macOS, 2 Windows, 3 Linux); empty for any other id.
pub open spec fn known_platform(types: i8) -> Seq<char> {
    if types == 1 {
        "task_unix"@
    } else if types == 2 {
        "task.exe"@
    } else if types == 3 {
        "task_linux"@
    } else {
        ""@
    }
}

/// Gets the stub binary's file name for a platform id of the tool.
pub fn get_platform(types: i8) -> (name: &'static str)
    ensures
        name@ == known_platform(types),
{
    match types {
        1 => "task_unix",
        2 => "task.exe",
        3 => "task_linux",
        _ => "",
    }
}

/// The path of the stub binary for `to_platform`, made from the path of the
/// running stub: on Windows the running stub is `task.exe`, elsewhere
/// `task_unix`, and its name is swapped for the target's.
pub open spec fn stub_path_spec(current: Seq<char>, host_windows: bool, to_platform: i8) -> Seq<
    char,
> {
    if host_windows {
        if to_platform == 1 {
            replaced(current, "task.exe"@, "task_unix"@)
        } else if to_platform == 2 {
            replaced(current, "task.exe"@, "task.exe"@)
        } else if to_platform == 3 {
            replaced(current, "task.exe"@, "task_linux"@)
        } else {
            current
        }
    } else {
        if to_platform == 3 {
            replaced(current, "task_unix"@, "task_linux"@)
        } else if to_platform == 2 {
            replaced(current, "task_unix"@, "task.exe"@)
        } else if to_platform == 1 {
            replaced(current, "task_unix"@, "task_unix"@)
        } else {
            current
        }
    }
}

/// The path of the stub binary to copy for `to_platform`, given the path of
/// the running stub and whether the host is Windows.
pub fn stub_path_for(current: &str, host_windows: bool, to_platform: i8) -> (path: String)
    ensures
        path@ == stub_path_spec(current@, host_windows, to_platform),
{
    proof {
        reveal_strlit("task.exe");
        reveal_strlit("task_unix");
    }
    if host_windows {
        if to_platform == 1 {
            replace_all(current, "task.exe", "task_unix")
        } else if to_platform == 2 {
            replace_all(current, "task.exe", "task.exe")
        } else if to_platform == 3 {
            replace_all(current, "task.exe", "task_linux")
        } else {
            String::from_str(current)
        }
    } else {
        if to_platform == 3 {
            replace_all(current, "task_unix", "task_linux")
        } else if to_platform == 2 {
            replace_all(current, "task_unix", "task.exe")
        } else if to_platform == 1 {
            replace_all(current, "task_unix", "task_unix")
        } else {
            String::from_str(current)
        }
    }
}

} // verus!
