use vstd::prelude::*;

verus! {

/// Host platform family, as far as shell selection is concerned.
#[derive(Clone, Copy, PartialEq, Eq, Structural, Debug)]
pub enum Platform {
    /// No native POSIX shell; a compatibility layer may be installed.
    Windows,
    /// A POSIX shell is available natively.
    Posix,
}

/// The program and arguments the locator selected.
#[derive(Debug)]
pub struct ShellChoice {
    pub program: String,
    pub args: Vec<String>,
}

/// The program `locate` picks: on Windows the compatibility-layer shell when
/// it is installed, else the native command interpreter; elsewhere the
/// POSIX-standard interactive shell.
pub open spec fn chosen_program(platform: Platform, compat_present: bool) -> Seq<char> {
    match platform {
        Platform::Windows => if compat_present { "wsl.exe"@ } else { "cmd.exe"@ },
        Platform::Posix => "bash"@,
    }
}

/// Fixed path probed for the compatibility-layer shell on Windows.
pub fn compat_shell_path() -> (p: String)
    ensures
        p@ == "C:\\Windows\\System32\\wsl.exe"@,
{
    "C:\\Windows\\System32\\wsl.exe".to_owned()
}

/// Chooses the shell to launch. Never fails: when the preferred option is
/// absent the platform's native interpreter is the unconditional fallback.
/// `compat_present` reports whether the file at `compat_shell_path` exists.
pub fn locate(platform: Platform, compat_present: bool) -> (choice: ShellChoice)
    ensures
        choice.program@ == chosen_program(platform, compat_present),
        choice.args@.len() == 0,
{
    let program: String = match platform {
        Platform::Windows => {
            if compat_present {
                "wsl.exe".to_owned()
            } else {
                "cmd.exe".to_owned()
            }
        },
        Platform::Posix => "bash".to_owned(),
    };
    ShellChoice { program, args: Vec::new() }
}

} // verus!
