//! Opening addresses with the desktop's own programs.
use vstd::prelude::*;

verus! {

/// A program to start, with its arguments.
pub struct HelperCommand {
    pub program: &'static str,
    pub args: Vec<String>,
}

/// The program that opens `url`: it gets no input, and its output is dropped.
pub fn open_url(url: &str) -> (command: HelperCommand)
    ensures
        command.program@ == "xdg-open"@,
        crate::text::texts(command.args@) == seq![url@],
{
    let mut args: Vec<String> = Vec::new();
    args.push(url.to_owned());
    assert(crate::text::texts(args@) =~= seq![url@]);
    HelperCommand { program: "xdg-open", args }
}

} // verus!
