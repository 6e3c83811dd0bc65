use ntfyclip::sink::{choose_tool, ClipTool, SinkError};

#[test]
fn macos_always_uses_the_pasteboard() {
    let r = choose_tool(true, b"unix", true, true, true);
    assert_eq!(r, Ok(ClipTool::Pbcopy));
}

#[test]
fn wsl_marker_outranks_displays() {
    let r = choose_tool(false, b"unix", true, true, true);
    assert_eq!(r, Ok(ClipTool::WslClip));
}

#[test]
fn wayland_display_outranks_x() {
    let r = choose_tool(false, b"unix", false, true, true);
    assert_eq!(r, Ok(ClipTool::WlCopy));
}

#[test]
fn x_display_alone_uses_xclip() {
    let r = choose_tool(false, b"unix", false, false, true);
    assert_eq!(r, Ok(ClipTool::Xclip));
}

#[test]
fn bare_unix_is_unsupported() {
    let r = choose_tool(false, b"unix", false, false, false);
    assert_eq!(r, Err(SinkError::UnsupportedUnixEnvironment));
}

#[test]
fn windows_uses_clip_exe() {
    let r = choose_tool(false, b"windows", false, false, false);
    assert_eq!(r, Ok(ClipTool::WinClip));
}

#[test]
fn unknown_family_is_unsupported() {
    let r = choose_tool(false, b"wasm", false, false, false);
    assert_eq!(r, Err(SinkError::UnsupportedOperatingSystem));
}
