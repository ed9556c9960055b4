//! Clipboard command selection.  Probing the environment and spawning the
//! command are the caller's work; every decision — which clipboard system a
//! platform offers and which command reads or writes it — is made here on
//! plain values.

use vstd::prelude::*;
use crate::text::trim_spec;
use crate::text::trimmed;

verus! {

/// The clipboard system a platform offers.
#[derive(Clone, Copy, Debug, PartialEq, Eq, Structural)]
pub enum ClipboardKind {
    Wayland,
    X11,
    MacOs,
    Windows,
    Unsupported,
}

/// Pick the clipboard system from the probed platform facts: the operating
/// system first, then a Wayland display with `wl-copy` present, then an X11
/// display with `xclip` present.
pub fn detect_clipboard_kind(
    is_windows: bool,
    is_macos: bool,
    wayland_display: bool,
    has_wl_copy: bool,
    x11_display: bool,
    has_xclip: bool,
) -> (r: ClipboardKind)
    ensures
        r == (if is_windows {
            ClipboardKind::Windows
        } else if is_macos {
            ClipboardKind::MacOs
        } else if wayland_display && has_wl_copy {
            ClipboardKind::Wayland
        } else if x11_display && has_xclip {
            ClipboardKind::X11
        } else {
            ClipboardKind::Unsupported
        }),
{
    if is_windows {
        ClipboardKind::Windows
    } else if is_macos {
        ClipboardKind::MacOs
    } else if wayland_display && has_wl_copy {
        ClipboardKind::Wayland
    } else if x11_display && has_xclip {
        ClipboardKind::X11
    } else {
        ClipboardKind::Unsupported
    }
}

/// The command that writes the clipboard, with its arguments, or nothing on
/// an unsupported platform.
pub fn copy_command(kind: ClipboardKind) -> (r: Option<(&'static str, Vec<&'static str>)>)
    ensures
        match kind {
            ClipboardKind::Wayland => r is Some && (r->0).0@ == "wl-copy"@ && (r->0).1@.len() == 0,
            ClipboardKind::X11 => r is Some && (r->0).0@ == "xclip"@ && (r->0).1@.map_values(
                |s: &str| s@,
            ) == seq!["-selection"@, "clipboard"@],
            ClipboardKind::MacOs => r is Some && (r->0).0@ == "pbcopy"@ && (r->0).1@.len() == 0,
            ClipboardKind::Windows => r is Some && (r->0).0@ == "clip"@ && (r->0).1@.len() == 0,
            ClipboardKind::Unsupported => r is None,
        },
{
    match kind {
        ClipboardKind::Wayland => Some(("wl-copy", Vec::new())),
        ClipboardKind::X11 => {
            let args: Vec<&'static str> = vec!["-selection", "clipboard"];
            proof {
                assert(args@.map_values(|s: &str| s@) =~= seq!["-selection"@, "clipboard"@]);
            }
            Some(("xclip", args))
        },
        ClipboardKind::MacOs => Some(("pbcopy", Vec::new())),
        ClipboardKind::Windows => Some(("clip", Vec::new())),
        ClipboardKind::Unsupported => None,
    }
}

/// The command that reads the clipboard, with its arguments, or nothing on
/// an unsupported platform.
pub fn paste_command(kind: ClipboardKind) -> (r: Option<(&'static str, Vec<&'static str>)>)
    ensures
        match kind {
            ClipboardKind::Wayland => r is Some && (r->0).0@ == "wl-paste"@ && (r->0).1@.len() == 0,
            ClipboardKind::X11 => r is Some && (r->0).0@ == "xclip"@ && (r->0).1@.map_values(
                |s: &str| s@,
            ) == seq!["-selection"@, "clipboard"@, "-o"@],
            ClipboardKind::MacOs => r is Some && (r->0).0@ == "pbpaste"@ && (r->0).1@.len() == 0,
            ClipboardKind::Windows => r is Some && (r->0).0@ == "powershell"@ && (r->0).1@.map_values(
                |s: &str| s@,
            ) == seq!["-command"@, "Get-Clipboard"@],
            ClipboardKind::Unsupported => r is None,
        },
{
    match kind {
        ClipboardKind::Wayland => Some(("wl-paste", Vec::new())),
        ClipboardKind::X11 => {
            let args: Vec<&'static str> = vec!["-selection", "clipboard", "-o"];
            proof {
                assert(args@.map_values(|s: &str| s@) =~= seq![
                    "-selection"@,
                    "clipboard"@,
                    "-o"@,
                ]);
            }
            Some(("xclip", args))
        },
        ClipboardKind::MacOs => Some(("pbpaste", Vec::new())),
        ClipboardKind::Windows => {
            let args: Vec<&'static str> = vec!["-command", "Get-Clipboard"];
            proof {
                assert(args@.map_values(|s: &str| s@) =~= seq!["-command"@, "Get-Clipboard"@]);
            }
            Some(("powershell", args))
        },
        ClipboardKind::Unsupported => None,
    }
}

/// Whether clipboard content is usable: not empty once trimmed.
pub fn clipboard_content_ok(content: &str) -> (r: bool)
    ensures
        r == (trim_spec(content@).len() > 0),
{
    let t = trimmed(content);
    !t.is_empty()
}

} // verus!
