//! The helper programs that a session calls, and what their answers mean.

use crate::text::{copy_text, join, joined, lossy_text, texts, trim, trimmed, utf8_lossy};
use vstd::prelude::*;

verus! {

/// A program to run with its arguments.
#[derive(Debug)]
pub struct Command {
    pub program: String,
    pub args: Vec<String>,
}

/// What a [`Command`] stands for.
#[verifier::ext_equal]
pub ghost struct CommandView {
    pub program: Seq<char>,
    pub args: Seq<Seq<char>>,
}

impl View for Command {
    type V = CommandView;

    open spec fn view(&self) -> CommandView {
        CommandView { program: self.program@, args: texts(self.args@) }
    }
}

impl CommandView {
    /// A program without arguments.
    pub open spec fn of(program: Seq<char>) -> CommandView {
        CommandView { program, args: seq![] }
    }

    /// This command with one more argument.
    pub open spec fn arg(self, arg: Seq<char>) -> CommandView {
        CommandView { args: self.args.push(arg), ..self }
    }

    /// The command as a person would type it.
    pub open spec fn line(self) -> Seq<char> {
        self.program + " "@ + joined(self.args, " "@)
    }
}

impl Command {
    pub fn of(program: &str) -> (r: Command)
        ensures
            r@ == CommandView::of(program@),
    {
        let r = Command { program: copy_text(program), args: Vec::new() };
        assert(r@ =~= CommandView::of(program@));
        r
    }

    pub fn arg(self, arg: &str) -> (r: Command)
        ensures
            r@ == self@.arg(arg@),
    {
        let ghost before = self@;
        let mut args = self.args;
        args.push(copy_text(arg));
        let r = Command { program: self.program, args };
        assert(r@ =~= before.arg(arg@));
        r
    }

    /// The same command once more.
    pub fn copy(&self) -> (r: Command)
        ensures
            r@ == self@,
    {
        let mut r = Command::of(self.program.as_str());
        let mut i: usize = 0;
        assert(r@.args =~= self@.args.take(0));
        while i < self.args.len()
            invariant
                i <= self.args@.len(),
                r@.program == self@.program,
                r@.args == self@.args.take(i as int),
            decreases self.args@.len() - i,
        {
            r = r.arg(self.args[i].as_str());
            i = i + 1;
            assert(r@.args =~= self@.args.take(i as int));
        }
        assert(r@ =~= self@);
        r
    }

    /// The command as a person would type it.
    pub fn line(&self) -> (r: String)
        ensures
            r@ == self@.line(),
    {
        let mut r = copy_text(self.program.as_str());
        r.append(" ");
        r.append(join(&self.args, " ").as_str());
        r
    }
}

/// What a program that failed is reported with.
pub open spec fn failure_text(command: CommandView, stderr: Seq<u8>) -> Seq<char> {
    command.line() + " failed: "@ + trimmed(lossy_text(stderr))
}

/// What a program that ended answered: its output, or, where it did not succeed,
/// what went wrong.
pub fn run(command: &Command, success: bool, stdout: &[u8], stderr: &[u8]) -> (r: Result<
    String,
    String,
>)
    ensures
        match r {
            Ok(text) => success && text@ == lossy_text(stdout@),
            Err(text) => !success && text@ == failure_text(command@, stderr@),
        },
{
    if !success {
        let mut text = command.line();
        text.append(" failed: ");
        text.append(trim(utf8_lossy(stderr).as_str()).as_str());
        return Err(text);
    }
    Ok(utf8_lossy(stdout))
}

/// What a program that could not be started is reported with; the cause follows
/// it.
pub fn start_failure(command: &Command, cause: &str) -> (r: String)
    ensures
        r@ == "running `"@ + command@.line() + "`: "@ + cause@,
{
    let mut r = copy_text("running `");
    r.append(command.line().as_str());
    r.append("`: ");
    r.append(cause);
    r
}

} // verus!
