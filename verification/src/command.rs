//! Commands to run and what came of them.

use vstd::prelude::*;

use crate::text;

verus! {

/// A command to run: its program, its arguments, and what it reads from its input.
#[derive(Debug)]
pub struct Command {
    pub program: String,
    pub args: Vec<String>,
    pub input: Option<String>,
}

/// The texts of a command.
#[verifier::ext_equal]
pub struct CommandView {
    pub program: Seq<char>,
    pub args: Seq<Seq<char>>,
    pub input: Option<Seq<char>>,
}

impl View for Command {
    type V = CommandView;

    open spec fn view(&self) -> CommandView {
        CommandView {
            program: self.program@,
            args: text::strings(self.args@),
            input: match self.input {
                Some(s) => Some(s@),
                None => None,
            },
        }
    }
}

/// What came of a command: the reason why it did not run, or how it ended and what it
/// wrote.
#[derive(Debug)]
pub enum Outcome {
    NotRun(String),
    Ran { success: bool, stdout: Vec<u8>, stderr: Vec<u8> },
}

/// The command that runs `args` as root with the password `pw`.
pub open spec fn as_root(pw: Seq<char>, args: Seq<Seq<char>>) -> CommandView {
    CommandView { program: "sudo"@, args: seq!["-S"@] + args, input: Some(pw + "\n"@) }
}

/// The command that runs `args` as the user.
pub open spec fn as_user(args: Seq<Seq<char>>) -> CommandView {
    CommandView { program: args[0], args: args.drop_first(), input: None }
}

/// What `String::from_utf8_lossy` makes of bytes.
pub uninterp spec fn lossy_text(bytes: Seq<u8>) -> Seq<char>;

/// The text of what a command wrote: the text that the bytes encode in UTF-8, or where they
/// encode none, what the standard library makes of them.
pub open spec fn written(bytes: Seq<u8>) -> Seq<char> {
    if vstd::utf8::valid_utf8(bytes) {
        vstd::utf8::decode_utf8(bytes)
    } else {
        lossy_text(bytes)
    }
}

/// What is read from a command that ran as root: whether it succeeded, and its output
/// followed by its error output. Of one that did not run: no success, and the reason.
pub open spec fn root_reply(o: Outcome) -> (bool, Seq<char>) {
    match o {
        Outcome::NotRun(reason) => (false, reason@),
        Outcome::Ran { success, stdout, stderr } => (
            success,
            written(stdout@) + written(stderr@),
        ),
    }
}

/// What is read from a command that ran as the user: its output, or nothing if it did not
/// run.
pub open spec fn user_reply(o: Outcome) -> Seq<char> {
    match o {
        Outcome::NotRun(_) => Seq::empty(),
        Outcome::Ran { stdout, .. } => written(stdout@),
    }
}

/// Calls `String::from_utf8_lossy`. Claimed of it: the text depends on the bytes alone, and
/// bytes that are valid UTF-8 become the text that they encode.
#[verifier::external_body]
fn from_utf8_lossy(bytes: &[u8]) -> (r: String)
    ensures
        r@ == lossy_text(bytes@),
        vstd::utf8::valid_utf8(bytes@) ==> r@ == vstd::utf8::decode_utf8(bytes@),
{
    String::from_utf8_lossy(bytes).into_owned()
}

/// The command that runs `args` as root with the password `pw`.
pub fn sudo(pw: &str, args: Vec<String>) -> (r: Command)
    ensures
        r@ == as_root(pw@, text::strings(args@)),
{
    let mut all = args;
    all.insert(0, "-S".to_owned());
    let mut input = pw.to_owned();
    input.append("\n");
    assert(text::strings(all@) =~= seq!["-S"@] + text::strings(args@));
    Command { program: "sudo".to_owned(), args: all, input: Some(input) }
}

/// The command that runs `args` as the user.
pub fn run(args: Vec<String>) -> (r: Command)
    requires
        args@.len() > 0,
    ensures
        r@ == as_user(text::strings(args@)),
{
    let mut rest = args;
    let program = rest.remove(0);
    assert(text::strings(rest@) =~= text::strings(args@).drop_first());
    Command { program, args: rest, input: None }
}

/// What is read from a command that ran as root.
pub fn sudo_reply(o: &Outcome) -> (r: (bool, String))
    ensures
        r.0 == root_reply(*o).0,
        r.1@ == root_reply(*o).1,
{
    match o {
        Outcome::NotRun(reason) => (false, reason.clone()),
        Outcome::Ran { success, stdout, stderr } => {
            let mut out = from_utf8_lossy(stdout.as_slice());
            let err = from_utf8_lossy(stderr.as_slice());
            out.append(err.as_str());
            (*success, out)
        },
    }
}

/// What is read from a command that ran as the user.
pub fn run_reply(o: &Outcome) -> (r: String)
    ensures
        r@ == user_reply(*o),
{
    match o {
        Outcome::NotRun(_) => String::new(),
        Outcome::Ran { success: _, stdout, stderr: _ } => from_utf8_lossy(stdout.as_slice()),
    }
}

} // verus!
