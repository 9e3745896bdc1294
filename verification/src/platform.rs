//! The target platforms that a sealed file can be built for.

use vstd::prelude::*;

verus! {

/// A platform whose stub binary can carry a sealed file.
#[derive(PartialEq, Eq, Structural, Clone, Copy, Debug)]
pub enum Platform {
    MacOS,
    Windows,
    Linux,
    LinuxARM64,
}

/// The numeric id of a platform, as the command line and
/// `get_platform_binary` use it.
pub open spec fn platform_id(p: Platform) -> i8 {
    match p {
        Platform::MacOS => 1,
        Platform::Windows => 2,
        Platform::Linux => 3,
        Platform::LinuxARM64 => 4,
    }
}

/// The label under which a platform is offered.
pub open spec fn platform_label(p: Platform) -> Seq<char> {
    match p {
        Platform::MacOS => "macOS (x86/ARM)"@,
        Platform::Windows => "Windows (x86_64)"@,
        Platform::Linux => "Linux (x86_64)"@,
        Platform::LinuxARM64 => "Linux (ARM64)"@,
    }
}

impl Platform {
    /// The platform's numeric id: 1 macOS, 2 Windows, 3 Linux, 4 Linux ARM64.
    pub fn id(&self) -> (id: i8)
        ensures
            id == platform_id(*self),
    {
        match self {
            Platform::MacOS => 1,
            Platform::Windows => 2,
            Platform::Linux => 3,
            Platform::LinuxARM64 => 4,
        }
    }

    /// The platform's label.
    pub fn label(&self) -> (label: &'static str)
        ensures
            label@ == platform_label(*self),
    {
        match self {
            Platform::MacOS => "macOS (x86/ARM)",
            Platform::Windows => "Windows (x86_64)",
            Platform::Linux => "Linux (x86_64)",
            Platform::LinuxARM64 => "Linux (ARM64)",
        }
    }

    /// Whether the platform is Windows.
    pub fn is_windows(&self) -> (windows: bool)
        ensures
            windows == (*self == Platform::Windows),
    {
        match self {
            Platform::Windows => true,
            _ => false,
        }
    }
}

} // verus!
