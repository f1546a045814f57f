//! The commands the shell runs itself, as text to print and decisions to
//! carry out. Looking things up on disk and printing is left to the caller,
//! which hands in what it found.

use vstd::prelude::*;
use crate::text::{spaced, joined, strings_view, same_text, chars_of, string_from_chars};
use crate::parser::{trim, trimmed};
use crate::redirect::Stream;

verus! {

/// Text for one of the shell's two output streams.
#[derive(Clone, Debug, PartialEq, Eq)]
pub struct Emit {
    pub text: String,
    pub stream: Stream,
}

pub open spec fn emits_view(v: Seq<Emit>) -> Seq<(Seq<char>, Stream)> {
    v.map_values(|e: Emit| (e.text@, e.stream))
}

/// The names that `type` reports as built into the shell.
pub open spec fn is_builtin_name(n: Seq<char>) -> bool {
    n == "echo"@ || n == "type"@ || n == "exit"@ || n == "cd"@ || n == "pwd"@
}

/// Whether `name` is one of `echo`, `type`, `exit`, `cd` and `pwd`.
pub fn is_shell_builtin(name: &str) -> (r: bool)
    ensures
        r == is_builtin_name(name@),
{
    same_text(name, "echo") || same_text(name, "type") || same_text(name, "exit") || same_text(
        name,
        "cd",
    ) || same_text(name, "pwd")
}

/// What a command name asks the shell to do.
#[derive(PartialEq, Eq, Structural, Clone, Copy, Debug)]
pub enum Command {
    Nothing,
    Exit,
    Echo,
    Type,
    Pwd,
    Cd,
    History,
    External,
}

pub open spec fn command_of(n: Seq<char>) -> Command {
    if n.len() == 0 {
        Command::Nothing
    } else if n == "exit"@ {
        Command::Exit
    } else if n == "echo"@ {
        Command::Echo
    } else if n == "type"@ {
        Command::Type
    } else if n == "pwd"@ {
        Command::Pwd
    } else if n == "cd"@ {
        Command::Cd
    } else if n == "history"@ {
        Command::History
    } else {
        Command::External
    }
}

/// What the command name `name` asks for, white space around it ignored.
pub fn classify(name: &str) -> (r: Command)
    ensures
        r == command_of(trim(name@)),
{
    let t = string_from_chars(&trimmed(&chars_of(name)));
    let n: &str = t.as_str();
    if n.is_empty() {
        Command::Nothing
    } else if same_text(n, "exit") {
        Command::Exit
    } else if same_text(n, "echo") {
        Command::Echo
    } else if same_text(n, "type") {
        Command::Type
    } else if same_text(n, "pwd") {
        Command::Pwd
    } else if same_text(n, "cd") {
        Command::Cd
    } else if same_text(n, "history") {
        Command::History
    } else {
        Command::External
    }
}

/// `echo` at the prompt: every argument followed by a space, then a newline.
pub open spec fn echo_line(args: Seq<Seq<char>>) -> Seq<char> {
    spaced(args) + "\n"@
}

/// What `echo` prints, whether to the terminal or to a redirection target.
pub fn echo_text(args: &Vec<String>) -> (r: String)
    ensures
        r@ == echo_line(strings_view(args@)),
{
    let ghost sv = strings_view(args@);
    let mut r = String::new();
    let mut i: usize = 0;
    assert(sv.take(0) =~= Seq::<Seq<char>>::empty());
    while i < args.len()
        invariant
            i <= args@.len(),
            sv == strings_view(args@),
            r@ == spaced(sv.take(i as int)),
        decreases args@.len() - i,
    {
        assert(sv.take(i + 1).drop_last() =~= sv.take(i as int));
        r.append(args[i].as_str());
        r.append(" ");
        i = i + 1;
    }
    assert(sv.take(i as int) =~= sv);
    r.append("\n");
    r
}

/// `echo` as a pipeline stage: the arguments separated by single spaces,
/// then a newline.
pub open spec fn stage_echo_line(args: Seq<Seq<char>>) -> Seq<char> {
    joined(args, ' ') + "\n"@
}

pub fn stage_echo_text(args: &[String]) -> (r: String)
    ensures
        r@ == stage_echo_line(strings_view(args@)),
{
    let ghost sv = strings_view(args@);
    let n = args.len();
    let mut r = String::new();
    if n > 0 {
        let mut i: usize = n - 1;
        r.append(args[i].as_str());
        assert(sv.skip(i as int) =~= seq![sv[i as int]]);
        assert(r@ == joined(sv.skip(i as int), ' '));
        while i > 0
            invariant
                0 <= i < n,
                n == args@.len(),
                sv == strings_view(args@),
                r@ == joined(sv.skip(i as int), ' '),
            decreases i,
        {
            let mut w = args[i - 1].clone();
            w.append(" ");
            w.append(r.as_str());
            r = w;
            assert(sv.skip(i - 1).drop_first() =~= sv.skip(i as int));
            proof {
                reveal_strlit(" ");
            }
            assert(" "@ =~= seq![' ']);
            assert(r@ =~= sv[i - 1] + seq![' '] + joined(sv.skip(i as int), ' '));
            i = i - 1;
        }
        assert(sv.skip(0) =~= sv);
    } else {
        assert(sv =~= Seq::<Seq<char>>::empty());
    }
    r.append("\n");
    r
}

/// What `type` says of one name, given where the executable search found
/// it, and on which stream.
pub open spec fn type_line(name: Seq<char>, found: Option<Seq<char>>) -> (Seq<char>, Stream) {
    if is_builtin_name(name) {
        (name + " is a shell builtin\n"@, Stream::Output)
    } else {
        match found {
            Some(path) => (name + " is "@ + path + "\n"@, Stream::Output),
            None => (name + ": not found\n"@, Stream::Error),
        }
    }
}

pub open spec fn found_view(v: Seq<Option<String>>) -> Seq<Option<Seq<char>>> {
    v.map_values(|f: Option<String>| match f {
        Some(p) => Some(p@),
        None => None,
    })
}

/// What `type NAME...` prints: one line per name, or a complaint when there
/// is no name.
pub open spec fn type_lines(names: Seq<Seq<char>>, found: Seq<Option<Seq<char>>>) -> Seq<(Seq<char>, Stream)> {
    if names.len() == 0 {
        seq![("Not a valid command\n"@, Stream::Error)]
    } else {
        Seq::new(names.len(), |i: int| type_line(names[i], found[i]))
    }
}

fn type_emit(name: &String, found: &Option<String>) -> (r: Emit)
    ensures
        (r.text@, r.stream) == type_line(
            name@,
            match found {
                Some(p) => Some(p@),
                None => None,
            },
        ),
{
    let mut text = name.clone();
    if is_shell_builtin(name.as_str()) {
        text.append(" is a shell builtin\n");
        Emit { text, stream: Stream::Output }
    } else {
        match found {
            Some(path) => {
                text.append(" is ");
                text.append(path.as_str());
                text.append("\n");
                Emit { text, stream: Stream::Output }
            },
            None => {
                text.append(": not found\n");
                Emit { text, stream: Stream::Error }
            },
        }
    }
}

/// `type` at the prompt; `found[i]` is where the executable search found
/// `args[i]`, if anywhere.
pub fn type_output(args: &Vec<String>, found: &Vec<Option<String>>) -> (r: Vec<Emit>)
    requires
        found@.len() == args@.len(),
    ensures
        emits_view(r@) == type_lines(strings_view(args@), found_view(found@)),
{
    let mut r: Vec<Emit> = Vec::new();
    if args.len() == 0 {
        r.push(Emit { text: "Not a valid command\n".to_owned(), stream: Stream::Error });
        assert(emits_view(r@) =~= seq![("Not a valid command\n"@, Stream::Error)]);
        return r;
    }
    let ghost want = type_lines(strings_view(args@), found_view(found@));
    let mut i: usize = 0;
    while i < args.len()
        invariant
            i <= args@.len(),
            found@.len() == args@.len(),
            args@.len() > 0,
            want == type_lines(strings_view(args@), found_view(found@)),
            emits_view(r@) == want.take(i as int),
        decreases args@.len() - i,
    {
        let e = type_emit(&args[i], &found[i]);
        assert(strings_view(args@)[i as int] == args@[i as int]@);
        assert(found_view(found@)[i as int] == match found@[i as int] {
            Some(p) => Some(p@),
            None => None,
        });
        let ghost before = emits_view(r@);
        assert(want[i as int] == (e.text@, e.stream));
        r.push(e);
        assert(emits_view(r@) =~= before.push(want[i as int]));
        assert(want.take(i + 1) =~= want.take(i as int).push(want[i as int]));
        i = i + 1;
    }
    assert(want.take(i as int) =~= want);
    r
}

/// `type` as a pipeline stage: the line for the first name only, with its
/// newline, whatever its stream; nothing when there is no name.
pub open spec fn stage_type_line(names: Seq<Seq<char>>, found: Option<Seq<char>>) -> Seq<char> {
    if names.len() == 0 {
        Seq::empty()
    } else {
        type_line(names[0], found).0
    }
}

pub fn stage_type_text(args: &[String], found: &Option<String>) -> (r: String)
    ensures
        r@ == stage_type_line(
            strings_view(args@),
            match found {
                Some(p) => Some(p@),
                None => None,
            },
        ),
{
    if args.len() == 0 {
        String::new()
    } else {
        type_emit(&args[0], found).text
    }
}

/// What `pwd` prints given the working directory, or the reason it could
/// not be read.
pub open spec fn pwd_lines(args: Seq<Seq<char>>, cwd: Result<Seq<char>, Seq<char>>) -> Seq<(Seq<char>, Stream)> {
    if args.len() > 0 {
        seq![("pwd: Invalid arguments provided\n"@, Stream::Error)]
    } else {
        match cwd {
            Ok(dir) => seq![(dir + "\n"@, Stream::Output)],
            Err(why) => seq![("Not Found Error: "@ + why + "\n"@, Stream::Error)],
        }
    }
}

pub open spec fn cwd_view(cwd: Result<String, String>) -> Result<Seq<char>, Seq<char>> {
    match cwd {
        Ok(d) => Ok(d@),
        Err(e) => Err(e@),
    }
}

/// `pwd` at the prompt.
pub fn pwd_output(args: &Vec<String>, cwd: &Result<String, String>) -> (r: Vec<Emit>)
    ensures
        emits_view(r@) == pwd_lines(strings_view(args@), cwd_view(*cwd)),
{
    let mut r: Vec<Emit> = Vec::new();
    if args.len() > 0 {
        r.push(Emit { text: "pwd: Invalid arguments provided\n".to_owned(), stream: Stream::Error });
    } else {
        match cwd {
            Ok(dir) => {
                let mut text = dir.clone();
                text.append("\n");
                r.push(Emit { text, stream: Stream::Output });
            },
            Err(why) => {
                let mut text = "Not Found Error: ".to_owned();
                text.append(why.as_str());
                text.append("\n");
                r.push(Emit { text, stream: Stream::Error });
            },
        }
    }
    assert(emits_view(r@) =~= pwd_lines(strings_view(args@), cwd_view(*cwd)));
    r
}

/// `pwd` as a pipeline stage: the directory and a newline, or nothing.
pub open spec fn stage_pwd_line(cwd: Result<Seq<char>, Seq<char>>) -> Seq<char> {
    match cwd {
        Ok(dir) => dir + "\n"@,
        Err(_) => Seq::empty(),
    }
}

pub fn stage_pwd_text(cwd: &Result<String, String>) -> (r: String)
    ensures
        r@ == stage_pwd_line(cwd_view(*cwd)),
{
    match cwd {
        Ok(dir) => {
            let mut text = dir.clone();
            text.append("\n");
            text
        },
        Err(_) => String::new(),
    }
}

/// Where `cd` goes.
#[derive(Clone, Debug, PartialEq, Eq)]
pub enum CdPlan {
    TooManyArguments,
    Root,
    Home,
    Dir(String),
}

/// With no argument or an empty one, `cd` goes to `/`; with `~`, home;
/// with two or more arguments it refuses.
pub open spec fn cd_target(args: Seq<Seq<char>>) -> Option<Seq<char>> {
    if args.len() >= 2 || args.len() == 0 || args[0].len() == 0 || args[0] == "~"@ {
        None
    } else {
        Some(args[0])
    }
}

pub fn cd_plan(args: &Vec<String>) -> (r: CdPlan)
    ensures
        r is TooManyArguments <==> args@.len() >= 2,
        r is Root <==> (args@.len() == 0 || (args@.len() == 1 && args@[0]@.len() == 0)),
        r is Home <==> (args@.len() == 1 && args@[0]@ == "~"@),
        r matches CdPlan::Dir(d) ==> Some(d@) == cd_target(strings_view(args@)),
        cd_target(strings_view(args@)) is Some ==> r is Dir,
{
    proof {
        reveal_strlit("~");
    }
    if args.len() >= 2 {
        CdPlan::TooManyArguments
    } else if args.len() == 0 || args[0].as_str().is_empty() {
        proof {
            if args@.len() == 1 {
                assert(args@[0]@.len() == 0);
            }
        }
        CdPlan::Root
    } else if same_text(args[0].as_str(), "~") {
        CdPlan::Home
    } else {
        proof {
            assert(args@[0]@.len() != 0);
        }
        CdPlan::Dir(args[0].clone())
    }
}

/// What `cd` says of a directory that does not exist.
pub fn cd_missing(path: &String) -> (r: String)
    ensures
        r@ == "cd: "@ + path@ + ": No such file or directory\n"@,
{
    let mut r = "cd: ".to_owned();
    r.append(path.as_str());
    r.append(": No such file or directory\n");
    r
}

/// What is said of a command that the executable search did not find.
pub fn command_not_found(name: &str) -> (r: String)
    ensures
        r@ == name@ + ": command not found\n"@,
{
    let mut r = name.to_owned();
    r.append(": command not found\n");
    r
}

} // verus!
