//! Platform-dependent defaults. The platform is decided where the program
//! is built and handed in, so that the rules stay testable everywhere.

use vstd::prelude::*;

verus! {

#[derive(Clone, Copy, Debug, PartialEq, Eq, Structural)]
pub enum Platform {
    MacOs,
    Linux,
    Windows,
    /// The BSDs and everything else.
    Other,
}

/// The font family used when the config names none.
pub fn default_font_family(platform: Platform) -> (s: &'static str)
    ensures
        s@ == (if platform == Platform::MacOs { "Menlo"@ } else { "monospace"@ }),
{
    match platform {
        Platform::MacOs => "Menlo",
        _ => "monospace",
    }
}

/// The shell spawned when `$SHELL` is unset or empty: `/bin/zsh` on macOS,
/// POSIX-mandated `/bin/sh` elsewhere.
pub fn default_shell(platform: Platform) -> (s: &'static str)
    ensures
        s@ == (if platform == Platform::MacOs { "/bin/zsh"@ } else { "/bin/sh"@ }),
{
    match platform {
        Platform::MacOs => "/bin/zsh",
        _ => "/bin/sh",
    }
}

} // verus!
