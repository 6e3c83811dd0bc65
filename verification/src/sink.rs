//! Choosing the clipboard tool the Sink runs.
//!
//! The Sink itself — spawning the tool and writing the dispatched text to its
//! standard input — is an external collaborator and stays outside the
//! library. What is decided here, from plain facts about the platform, is
//! which tool that is, or that none is available.

use vstd::prelude::*;

verus! {

/// The clipboard tool for the platform the process runs on.
#[derive(Debug, PartialEq, Eq, Structural, Clone, Copy)]
pub enum ClipTool {
    /// `pbcopy`.
    Pbcopy,
    /// `clip.exe` reached from inside a WSL distribution.
    WslClip,
    /// `wl-copy` on a Wayland display.
    WlCopy,
    /// `xclip` on an X display.
    Xclip,
    /// `clip.exe` on Windows itself.
    WinClip,
}

/// No clipboard tool could be chosen.
#[derive(Debug, PartialEq, Eq, Structural, Clone, Copy)]
pub enum SinkError {
    /// A Unix environment with no recognised display or WSL marker.
    UnsupportedUnixEnvironment,
    /// An operating-system family with no known tool.
    UnsupportedOperatingSystem,
}

/// The bytes of the `unix` family name.
pub open spec fn family_unix() -> Seq<u8> {
    seq![117u8, 110, 105, 120]
}

/// The bytes of the `windows` family name.
pub open spec fn family_windows() -> Seq<u8> {
    seq![119u8, 105, 110, 100, 111, 119, 115]
}

/// The choice of tool: the macOS pasteboard outranks everything; on Unix a
/// WSL marker outranks a Wayland display, which outranks an X display; plain
/// Windows has its own tool; anything else is unsupported.
pub open spec fn spec_choose_tool(
    macos: bool,
    family: Seq<u8>,
    wsl: bool,
    wayland: bool,
    x11: bool,
) -> Result<ClipTool, SinkError> {
    if macos {
        Ok(ClipTool::Pbcopy)
    } else if family == family_unix() {
        if wsl {
            Ok(ClipTool::WslClip)
        } else if wayland {
            Ok(ClipTool::WlCopy)
        } else if x11 {
            Ok(ClipTool::Xclip)
        } else {
            Err(SinkError::UnsupportedUnixEnvironment)
        }
    } else if family == family_windows() {
        Ok(ClipTool::WinClip)
    } else {
        Err(SinkError::UnsupportedOperatingSystem)
    }
}

/// Chooses the clipboard tool from plain facts about the platform: whether
/// this is macOS, the operating-system family name, and whether a WSL
/// marker, a Wayland display or an X display is present in the environment.
pub fn choose_tool(macos: bool, family: &[u8], wsl: bool, wayland: bool, x11: bool) -> (r: Result<
    ClipTool,
    SinkError,
>)
    ensures
        r == spec_choose_tool(macos, family@, wsl, wayland, x11),
{
    let unix: Vec<u8> = vec![117, 110, 105, 120];
    let windows: Vec<u8> = vec![119, 105, 110, 100, 111, 119, 115];
    proof {
        assert(unix@ =~= family_unix());
        assert(windows@ =~= family_windows());
    }
    if macos {
        Ok(ClipTool::Pbcopy)
    } else if crate::envelope::bytes_eq(family, unix.as_slice()) {
        if wsl {
            Ok(ClipTool::WslClip)
        } else if wayland {
            Ok(ClipTool::WlCopy)
        } else if x11 {
            Ok(ClipTool::Xclip)
        } else {
            Err(SinkError::UnsupportedUnixEnvironment)
        }
    } else if crate::envelope::bytes_eq(family, windows.as_slice()) {
        Ok(ClipTool::WinClip)
    } else {
        Err(SinkError::UnsupportedOperatingSystem)
    }
}

} // verus!
