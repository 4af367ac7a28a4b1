//! The shells that completion scripts are written for.
use vstd::prelude::*;
use vstd::string::*;
use crate::text::str_eq;
use clap_complete::Generator;

verus! {

/// A shell with completion support.
#[derive(Debug, Clone, Copy, PartialEq, Eq, Hash, Structural)]
pub enum Shell {
    Bash,
    Fish,
    Elvish,
    PowerShell,
    Zsh,
    Nushell,
}

impl Shell {
    /// The shell's name, as shown and as given on the command line.
    pub open spec fn spec_name(self) -> Seq<char> {
        match self {
            Shell::Bash => "bash"@,
            Shell::Fish => "fish"@,
            Shell::Elvish => "elvish"@,
            Shell::PowerShell => "powershell"@,
            Shell::Zsh => "zsh"@,
            Shell::Nushell => "nushell"@,
        }
    }

    /// The name of the completion file for the program `name`.
    pub open spec fn spec_file_name(self, name: Seq<char>) -> Seq<char> {
        match self {
            Shell::Bash => name + ".bash"@,
            Shell::Fish => name + ".fish"@,
            Shell::Elvish => name + ".elv"@,
            Shell::PowerShell => "_"@ + name + ".ps1"@,
            Shell::Zsh => "_"@ + name,
            Shell::Nushell => name + ".nu"@,
        }
    }

    /// The shell a command-line value names: its name, or `nu` for Nushell.
    pub open spec fn spec_from_value(s: Seq<char>) -> Option<Shell> {
        if s == "bash"@ {
            Some(Shell::Bash)
        } else if s == "elvish"@ {
            Some(Shell::Elvish)
        } else if s == "fish"@ {
            Some(Shell::Fish)
        } else if s == "powershell"@ {
            Some(Shell::PowerShell)
        } else if s == "zsh"@ {
            Some(Shell::Zsh)
        } else if s == "nushell"@ || s == "nu"@ {
            Some(Shell::Nushell)
        } else {
            None
        }
    }

    /// The shell's name.
    pub fn name(&self) -> (r: &'static str)
        ensures
            r@ == self.spec_name(),
    {
        match self {
            Shell::Bash => "bash",
            Shell::Fish => "fish",
            Shell::Elvish => "elvish",
            Shell::PowerShell => "powershell",
            Shell::Zsh => "zsh",
            Shell::Nushell => "nushell",
        }
    }

    /// The shells offered on the command line, in order.
    pub fn value_variants() -> (r: Vec<Shell>)
        ensures
            r@ == seq![Shell::Bash, Shell::Elvish, Shell::Fish, Shell::PowerShell, Shell::Zsh, Shell::Nushell],
    {
        let r = vec![Shell::Bash, Shell::Elvish, Shell::Fish, Shell::PowerShell, Shell::Zsh, Shell::Nushell];
        assert(r@ =~= seq![Shell::Bash, Shell::Elvish, Shell::Fish, Shell::PowerShell, Shell::Zsh, Shell::Nushell]);
        r
    }

    /// The shell a command-line value names, compared exactly.
    pub fn from_value(s: &str) -> (r: Option<Shell>)
        ensures
            r == Self::spec_from_value(s@),
    {
        if str_eq(s, "bash") {
            Some(Shell::Bash)
        } else if str_eq(s, "elvish") {
            Some(Shell::Elvish)
        } else if str_eq(s, "fish") {
            Some(Shell::Fish)
        } else if str_eq(s, "powershell") {
            Some(Shell::PowerShell)
        } else if str_eq(s, "zsh") {
            Some(Shell::Zsh)
        } else if str_eq(s, "nushell") || str_eq(s, "nu") {
            Some(Shell::Nushell)
        } else {
            None
        }
    }

    /// The name of the completion file for the program `name`.
    pub fn file_name(&self, name: &str) -> (r: String)
        ensures
            r@ == self.spec_file_name(name@),
    {
        match self {
            Shell::Bash => bash_file_name(name),
            Shell::Fish => fish_file_name(name),
            Shell::Elvish => elvish_file_name(name),
            Shell::PowerShell => powershell_file_name(name),
            Shell::Zsh => zsh_file_name(name),
            Shell::Nushell => nushell_file_name(name),
        }
    }

    /// The shell named by the `SHELL` environment variable, if it is one
    /// `clap_complete` knows.
    pub fn from_env() -> (r: Option<Shell>)
        ensures
            r matches Some(s) ==> s != Shell::Nushell,
    {
        clap_shell_from_env()
    }
}

/// Every shell's name is read back as that shell.
pub proof fn lemma_shell_name_round_trip(s: Shell)
    ensures
        Shell::spec_from_value(s.spec_name()) == Some(s),
{
    reveal_strlit("bash");
    reveal_strlit("elvish");
    reveal_strlit("fish");
    reveal_strlit("powershell");
    reveal_strlit("zsh");
    reveal_strlit("nushell");
    match s {
        Shell::Bash => {},
        Shell::Elvish => {
            assert("elvish"@.len() != "bash"@.len());
        },
        Shell::Fish => {
            assert("fish"@[0] != "bash"@[0]);
            assert("fish"@.len() != "elvish"@.len());
        },
        Shell::PowerShell => {
            assert("powershell"@.len() != "bash"@.len());
            assert("powershell"@.len() != "elvish"@.len());
            assert("powershell"@.len() != "fish"@.len());
        },
        Shell::Zsh => {
            assert("zsh"@.len() != "bash"@.len());
            assert("zsh"@.len() != "elvish"@.len());
            assert("zsh"@.len() != "fish"@.len());
            assert("zsh"@.len() != "powershell"@.len());
        },
        Shell::Nushell => {
            assert("nushell"@.len() != "bash"@.len());
            assert("nushell"@.len() != "elvish"@.len());
            assert("nushell"@.len() != "fish"@.len());
            assert("nushell"@.len() != "powershell"@.len());
            assert("nushell"@.len() != "zsh"@.len());
        },
    }
}

/// `Generator::file_name` of `clap_complete::aot::Bash`: `NAME.bash`, as its
/// source writes it.
#[verifier::external_body]
fn bash_file_name(name: &str) -> (r: String)
    ensures
        r@ == Shell::Bash.spec_file_name(name@),
{
    clap_complete::aot::Bash.file_name(name)
}

/// `Generator::file_name` of `clap_complete::aot::Fish`: `NAME.fish`, as its
/// source writes it.
#[verifier::external_body]
fn fish_file_name(name: &str) -> (r: String)
    ensures
        r@ == Shell::Fish.spec_file_name(name@),
{
    clap_complete::aot::Fish.file_name(name)
}

/// `Generator::file_name` of `clap_complete::aot::Elvish`: `NAME.elv`, as
/// its source writes it.
#[verifier::external_body]
fn elvish_file_name(name: &str) -> (r: String)
    ensures
        r@ == Shell::Elvish.spec_file_name(name@),
{
    clap_complete::aot::Elvish.file_name(name)
}

/// `Generator::file_name` of `clap_complete::aot::PowerShell`: `_NAME.ps1`,
/// as its source writes it.
#[verifier::external_body]
fn powershell_file_name(name: &str) -> (r: String)
    ensures
        r@ == Shell::PowerShell.spec_file_name(name@),
{
    clap_complete::aot::PowerShell.file_name(name)
}

/// `Generator::file_name` of `clap_complete::aot::Zsh`: `_NAME`, as its
/// source writes it.
#[verifier::external_body]
fn zsh_file_name(name: &str) -> (r: String)
    ensures
        r@ == Shell::Zsh.spec_file_name(name@),
{
    clap_complete::aot::Zsh.file_name(name)
}

/// `Generator::file_name` of `clap_complete_nushell::Nushell`: `NAME.nu`, as
/// its source writes it.
#[verifier::external_body]
fn nushell_file_name(name: &str) -> (r: String)
    ensures
        r@ == Shell::Nushell.spec_file_name(name@),
{
    clap_complete_nushell::Nushell.file_name(name)
}

/// `clap_complete::Shell::from_env`, read as one of these shells. It
/// depends on the environment; what is stated is only that `clap_complete`
/// never names Nushell.
#[verifier::external_body]
fn clap_shell_from_env() -> (r: Option<Shell>)
    ensures
        r matches Some(s) ==> s != Shell::Nushell,
{
    match clap_complete::Shell::from_env() {
        Some(clap_complete::Shell::Bash) => Some(Shell::Bash),
        Some(clap_complete::Shell::Elvish) => Some(Shell::Elvish),
        Some(clap_complete::Shell::Fish) => Some(Shell::Fish),
        Some(clap_complete::Shell::PowerShell) => Some(Shell::PowerShell),
        Some(clap_complete::Shell::Zsh) => Some(Shell::Zsh),
        _ => None,
    }
}

} // verus!
