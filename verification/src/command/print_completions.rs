//! Shell completions.
use crate::text;
use vstd::prelude::*;

verus! {

broadcast use vstd::string::group_string_axioms;

/// A shell.
#[derive(Debug, Clone, Copy, PartialEq, Eq, Structural)]
pub enum Shell {
    Bash,
    Elvish,
    Fish,
    PowerShell,
    Zsh,
}

/// For which shell completions are printed.
#[derive(Debug, Clone, Copy, PartialEq, Eq, Structural)]
pub struct PrintCompletionsConfig {
    pub shell: Shell,
}

impl Default for PrintCompletionsConfig {
    fn default() -> (r: Self)
        ensures
            r.shell == Shell::Bash,
    {
        Self { shell: Shell::Bash }
    }
}

/// The completions as they are printed. Functions of Bash cannot have a dash in
/// their names.
pub open spec fn printed(shell: Shell, completions: Seq<char>) -> Seq<char> {
    if shell == Shell::Bash {
        text::replaced(completions, "_ab-av1"@, "_ab_av1"@)
    } else {
        completions
    }
}

/// The completions as they are printed.
pub fn adjust_completions(config: PrintCompletionsConfig, completions: &str) -> (r: String)
    ensures
        r@ == printed(config.shell, completions@),
{
    match config.shell {
        Shell::Bash => {
            proof {
                reveal_strlit("_ab-av1");
            }
            text::replace_all(completions, "_ab-av1", "_ab_av1")
        },
        _ => completions.to_owned(),
    }
}

/// Completions are printed as they are, but for those of bash, in which the name
/// of the function is one that bash takes.
pub proof fn law_only_bash_is_changed(shell: Shell, completions: Seq<char>)
    ensures
        shell != Shell::Bash ==> printed(shell, completions) == completions,
        shell == Shell::Bash && !text::contains(completions, "_ab-av1"@) ==> printed(
            shell,
            completions,
        ) == completions,
        shell == Shell::Bash && text::find(completions, "_ab-av1"@) == Some(0int) ==> printed(
            shell,
            completions,
        ) == "_ab_av1"@ + text::replaced(completions.skip(7), "_ab-av1"@, "_ab_av1"@),
{
    reveal_strlit("_ab-av1");
    text::law_replaced_in_place(completions, "_ab-av1"@, "_ab_av1"@);
    assert("_ab-av1"@.len() == 7);
    if text::find(completions, "_ab-av1"@) == Some(0int) {
        assert(completions.take(0) + "_ab_av1"@ =~= "_ab_av1"@);
    }
}

} // verus!
