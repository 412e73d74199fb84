//! Copying text to the clipboard with the first of several programs that does it.

use crate::search::{CommandLine, CommandView};
use vstd::prelude::*;

verus! {

/// The programs that write to the clipboard, in the order in which they are tried.
pub const TOOLS: [&'static str; 3] = ["wl-copy", "xclip", "xsel"];

/// Why a program did not copy.
#[derive(Debug)]
pub enum CopyErr {
    /// There is no such program.
    NotFound,
    /// The program failed.
    Failed(String),
}

/// What is seen of an attempt: that it worked, or why not; no reason is given for a program that
/// is not there.
pub open spec fn attempt_view(a: Result<(), CopyErr>) -> Result<(), Option<Seq<char>>> {
    match a {
        Ok(_) => Ok(()),
        Err(CopyErr::NotFound) => Err(None),
        Err(CopyErr::Failed(reason)) => Err(Some(reason@)),
    }
}

/// What is seen of attempts.
pub open spec fn attempt_views(tried: Seq<Result<(), CopyErr>>) -> Seq<
    Result<(), Option<Seq<char>>>,
> {
    tried.map_values(|a: Result<(), CopyErr>| attempt_view(a))
}

/// What is to be done next.
#[derive(Debug)]
pub enum CopyStep {
    /// Run the command with the text as its input, and add what came of it to the attempts.
    Try(CommandLine),
    Done(Result<(), String>),
}

/// The command of a program that writes its input to the clipboard.
pub open spec fn tool_command(i: int) -> CommandView {
    CommandView {
        program: TOOLS[i]@,
        args: if i == 0 {
            Seq::empty()
        } else if i == 1 {
            seq!["-selection"@, "clipboard"@]
        } else {
            seq!["--clipboard"@, "--input"@]
        },
        dir: None,
    }
}

/// Whether one of the attempts worked.
pub open spec fn some_worked(tried: Seq<Result<(), Option<Seq<char>>>>) -> bool {
    exists|i: int| 0 <= i < tried.len() && (#[trigger] tried[i]) is Ok
}

/// The message for attempts that all failed: the last program that was there, and its reason.
pub open spec fn failure(tried: Seq<Result<(), Option<Seq<char>>>>) -> Seq<char>
    decreases tried.len(),
{
    if tried.len() == 0 {
        "未找到剪贴板工具（需 wl-copy / xclip / xsel）"@
    } else {
        match tried.last() {
            Err(Some(reason)) => TOOLS[tried.len() - 1]@ + ": "@ + reason,
            _ => failure(tried.drop_last()),
        }
    }
}

fn tool_cmd(i: usize) -> (cmd: CommandLine)
    requires
        i < 3,
    ensures
        cmd@ == tool_command(i as int),
{
    let mut args: Vec<String> = Vec::new();
    if i == 1 {
        args.push("-selection".to_owned());
        args.push("clipboard".to_owned());
    } else if i == 2 {
        args.push("--clipboard".to_owned());
        args.push("--input".to_owned());
    }
    let cmd = CommandLine { program: TOOLS[i].to_owned(), args, dir: None };
    assert(cmd@.args == tool_command(i as int).args);
    cmd
}

/// Decides what to do about copying text, from the attempts so far: one program after the other
/// is tried until one works.
pub fn copy(tried: &Vec<Result<(), CopyErr>>) -> (step: CopyStep)
    requires
        tried@.len() <= 3,
    ensures
        ({
            let seen = attempt_views(tried@);
            match step {
                CopyStep::Done(Ok(_)) => some_worked(seen),
                CopyStep::Try(cmd) => !some_worked(seen) && seen.len() < 3 && cmd@ == tool_command(
                    seen.len() as int,
                ),
                CopyStep::Done(Err(msg)) => !some_worked(seen) && seen.len() == 3 && msg@
                    == failure(seen),
            }
        }),
{
    let ghost seen = attempt_views(tried@);
    let mut msg = "未找到剪贴板工具（需 wl-copy / xclip / xsel）".to_owned();
    let mut i: usize = 0;
    assert(seen.take(0).len() == 0);
    while i < tried.len()
        invariant
            i <= tried@.len() <= 3,
            seen == attempt_views(tried@),
            forall|k: int| 0 <= k < i ==> !((#[trigger] seen[k]) is Ok),
            msg@ == failure(seen.take(i as int)),
        decreases tried@.len() - i,
    {
        assert(seen.take(i + 1).drop_last() == seen.take(i as int));
        assert(seen[i as int] == attempt_view(tried@[i as int]));
        match &tried[i] {
            Ok(_) => {
                assert(seen[i as int] is Ok);
                return CopyStep::Done(Ok(()));
            },
            Err(CopyErr::NotFound) => {},
            Err(CopyErr::Failed(reason)) => {
                msg = TOOLS[i].to_owned();
                msg.append(": ");
                msg.append(reason.as_str());
            },
        }
        i += 1;
    }
    assert(seen.take(i as int) == seen);
    if tried.len() < 3 {
        return CopyStep::Try(tool_cmd(tried.len()));
    }
    CopyStep::Done(Err(msg))
}

} // verus!
