//! Confirmation of commands read from notes files.
//!
//! `/preview` and `/deploy` run shell text that a notes file under `output/`
//! records, and that file may ship with the repository or be shaped by a
//! model. Such a command first is shown; it runs only when the next request
//! confirms and the file still records exactly the command that was shown.
//! The file is re-read on every request, so an edit in between asks again.

use vstd::prelude::*;

use crate::text::{
    chars_of, contains_str, equals_any, has_sub, is_one_of, lower_chars, lower_seq, trim_whitespace, trim_ws,
};

verus! {

/// The words that confirm a shown command.
pub open spec fn confirm_words() -> Seq<&'static str> {
    seq!["confirm", "yes", "go", "y", "确认", "確認"]
}

fn confirm_words_list() -> (r: &'static [&'static str])
    ensures
        r@ == confirm_words(),
{
    let a: &'static [&'static str; 6] = &["confirm", "yes", "go", "y", "确认", "確認"];
    let r: &'static [&'static str] = a;
    r
}

/// The request's argument, trimmed, is a confirmation word.
pub open spec fn is_confirmation(arg: Seq<char>) -> bool {
    is_one_of(trim_ws(arg), confirm_words())
}

/// Whether a request's argument confirms.
pub fn confirms(arg: &str) -> (b: bool)
    ensures
        b == is_confirmation(arg@),
{
    let trimmed = trim_whitespace(chars_of(arg).as_slice());
    equals_any(trimmed.as_slice(), confirm_words_list())
}

/// What a request for a recorded command does.
#[derive(Debug, Clone, Copy, PartialEq, Eq, Structural)]
pub enum CommandGate {
    /// Run the command now.
    Run,
    /// Show the command and ask for a confirmation.
    Show,
}

/// A string option taken by its view.
pub open spec fn option_view(o: Option<String>) -> Option<Seq<char>> {
    match o {
        Some(s) => Some(s@),
        None => None,
    }
}

/// The decision on a request for `command`, given whether confirmation is
/// required at all, the request's argument, and the command the previous
/// request showed. The second component is the command now awaiting
/// confirmation: the one shown, or none once a command runs.
pub open spec fn gate_spec(required: bool, arg: Seq<char>, shown: Option<Seq<char>>, command: Seq<char>) -> (CommandGate, Option<Seq<char>>) {
    if required && !(is_confirmation(arg) && shown == Some(command)) {
        (CommandGate::Show, Some(command))
    } else {
        (CommandGate::Run, None)
    }
}

/// Decide a request for a recorded command (see [`gate_spec`]).
pub fn gate_command(required: bool, arg: &str, shown: Option<String>, command: &str) -> (r: (CommandGate, Option<String>))
    ensures
        (r.0, option_view(r.1)) == gate_spec(required, arg@, option_view(shown), command@),
{
    let confirmed = confirms(arg);
    let same = match &shown {
        Some(s) => {
            let a = chars_of(s.as_str());
            let b = chars_of(command);
            crate::text::same_chars(a.as_slice(), b.as_slice())
        },
        None => false,
    };
    if required && !(confirmed && same) {
        (CommandGate::Show, Some(command.to_owned()))
    } else {
        (CommandGate::Run, None)
    }
}

/// A command that needs confirmation runs only on a confirmation that
/// follows a request which showed exactly that command; showing it then
/// confirming runs it, and a command changed in between is shown again.
pub proof fn law_only_the_shown_command_runs(arg: Seq<char>, shown: Option<Seq<char>>, command: Seq<char>, other: Seq<char>)
    ensures
        gate_spec(true, arg, shown, command).0 == CommandGate::Run ==> is_confirmation(arg) && shown == Some(command),
        ({
            let (_, pending) = gate_spec(true, seq![], None, command);
            &&& (is_confirmation(arg) ==> gate_spec(true, arg, pending, command).0 == CommandGate::Run)
            &&& (other != command ==> gate_spec(true, arg, pending, other) == (CommandGate::Show, Some(other)))
        }),
        gate_spec(true, arg, shown, command).0 == CommandGate::Run ==> gate_spec(true, arg, shown, command).1 is None,
{
}

// ---------------------------------------------------------------------------
// Acceptance harness
// ---------------------------------------------------------------------------

/// The command with ASCII letters lowered and backslashes made slashes.
pub open spec fn normalized_command(cmd: Seq<char>) -> Seq<char> {
    lower_seq(cmd).map_values(|c: char| if c == '\\' { '/' } else { c })
}

/// A run command that starts the generated acceptance harness (its backend
/// entry point or its static frontend index) rather than a product.
pub open spec fn harness_command(cmd: Seq<char>) -> bool {
    has_sub(normalized_command(cmd), "src/backend/server.mjs"@) || has_sub(normalized_command(cmd), "src/frontend/index.html"@)
}

/// Whether a notes-recorded run command starts the acceptance harness.
pub fn looks_like_acceptance_harness(cmd: &str) -> (b: bool)
    ensures
        b == harness_command(cmd@),
{
    let lowered = lower_chars(chars_of(cmd).as_slice());
    let mut n: Vec<char> = Vec::new();
    let mut i: usize = 0;
    while i < lowered.len()
        invariant
            i <= lowered@.len(),
            n@ == lowered@.take(i as int).map_values(|c: char| if c == '\\' { '/' } else { c }),
        decreases lowered.len() - i,
    {
        let c = lowered[i];
        n.push(if c == '\\' { '/' } else { c });
        proof {
            assert(lowered@.take(i + 1) =~= lowered@.take(i as int).push(c));
            assert(n@ =~= lowered@.take(i + 1).map_values(|c: char| if c == '\\' { '/' } else { c }));
        }
        i += 1;
    }
    proof {
        assert(lowered@.take(lowered@.len() as int) =~= lowered@);
    }
    contains_str(n.as_slice(), "src/backend/server.mjs") || contains_str(n.as_slice(), "src/frontend/index.html")
}

/// Directories whose presence marks a real product beside the harness.
pub open spec fn product_dirs() -> Seq<&'static str> {
    seq!["jeecgboot-vue3", "jeecg-boot", "jeecguniapp", "pigx-ai-ui", "pigx-visual", "frontend", "web", "ui", "app"]
}

/// The directories, in the order they are looked for.
pub fn product_dir_names() -> (r: &'static [&'static str])
    ensures
        r@ == product_dirs(),
{
    let a: &'static [&'static str; 9] = &[
        "jeecgboot-vue3", "jeecg-boot", "jeecguniapp", "pigx-ai-ui", "pigx-visual", "frontend", "web", "ui", "app",
    ];
    let r: &'static [&'static str] = a;
    r
}

/// The notes describe the acceptance harness, not the product, when their
/// run command starts the harness and a product directory exists: then their
/// preview URL and run command are not offered for the product.
pub fn notes_describe_harness(run_command: Option<&str>, product_dir_present: bool) -> (b: bool)
    ensures
        b == (run_command matches Some(c) && harness_command(c@) && product_dir_present),
{
    match run_command {
        Some(c) => looks_like_acceptance_harness(c) && product_dir_present,
        None => false,
    }
}

} // verus!
