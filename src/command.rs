//! Turning a user-supplied command string into a ready-to-run command.

use vstd::prelude::*;

use crate::text::{
    chars_of, contains_char, lemma_split_nonempty, split_chars, split_spec, trim_spec, trimmed,
};

verus! {

/// What a prepared command stands for, as sequences of characters.
pub enum CommandModel {
    Exec { program: Seq<char>, args: Seq<Seq<char>> },
    Shell { command: Seq<char> },
}

/// A command ready to run: a program with its argument list, or a string
/// for the system shell.
pub enum PreparedCommand {
    Exec { program: String, args: Vec<String> },
    Shell { command: String },
}

impl View for PreparedCommand {
    type V = CommandModel;

    open spec fn view(&self) -> CommandModel {
        match self {
            PreparedCommand::Exec { program, args } => CommandModel::Exec {
                program: program@,
                args: args@.map_values(|a: String| a@),
            },
            PreparedCommand::Shell { command } => CommandModel::Shell { command: command@ },
        }
    }
}

/// A command string whose comma-separated form is malformed.
pub struct InvalidCommandSpec {
    pub command: String,
}

/// The comma-separated pieces of `s`, each trimmed of surrounding whitespace.
pub open spec fn segments_spec(s: Seq<char>) -> Seq<Seq<char>> {
    split_spec(s, ',').map_values(|p: Seq<char>| trim_spec(p))
}

/// An argument list is usable when it names a program and no piece holds a
/// space.
pub open spec fn list_form_ok(segs: Seq<Seq<char>>) -> bool {
    &&& segs.len() > 0
    &&& segs[0].len() > 0
    &&& forall|i: int| 0 <= i < segs.len() ==> !(#[trigger] segs[i]).contains(' ')
}

/// The command that a command string prepares to, or `None` where it is
/// rejected.
pub open spec fn prepared_spec(s: Seq<char>) -> Option<CommandModel> {
    if s.contains(',') {
        let segs = segments_spec(s);
        if list_form_ok(segs) {
            Some(CommandModel::Exec { program: segs[0], args: segs.drop_first() })
        } else {
            None
        }
    } else if !s.contains(' ') {
        Some(CommandModel::Exec { program: s, args: Seq::empty() })
    } else {
        Some(CommandModel::Shell { command: s })
    }
}

/// Whether `s` holds the character `c`.
fn string_has(s: &String, c: char) -> (r: bool)
    ensures
        r == s@.contains(c),
{
    let cs = chars_of(s.as_str());
    contains_char(&cs, c)
}

/// The trimmed comma-separated pieces of the characters `cs`.
fn segments(cs: &Vec<char>) -> (r: Vec<String>)
    ensures
        r@.map_values(|a: String| a@) == segments_spec(cs@),
{
    let pieces = split_chars(cs, ',');
    let ghost pv = pieces@.map_values(|p: Vec<char>| p@);
    let mut segs: Vec<String> = Vec::new();
    let mut k: usize = 0;
    while k < pieces.len()
        invariant
            k <= pieces@.len(),
            pv == pieces@.map_values(|p: Vec<char>| p@),
            pv == split_spec(cs@, ','),
            segs@.map_values(|a: String| a@) == pv.take(k as int).map_values(
                |p: Seq<char>| trim_spec(p),
            ),
        decreases pieces.len() - k,
    {
        assert(pv[k as int] == pieces@[k as int]@);
        let t = trimmed(&pieces[k]);
        let ghost prev = segs@;
        segs.push(t);
        assert(segs@.map_values(|a: String| a@) =~= prev.map_values(|a: String| a@).push(t@));
        assert(pv.take(k + 1) =~= pv.take(k as int).push(pv[k as int]));
        assert(segs@.map_values(|a: String| a@) =~= pv.take(k + 1).map_values(
            |p: Seq<char>| trim_spec(p),
        ));
        k = k + 1;
    }
    assert(pv.take(k as int) =~= pv);
    segs
}

/// Prepares a command string.
///
/// With a comma, the string is an argument list: its trimmed comma-separated
/// pieces are the program and then its arguments, and it is rejected when
/// the program is empty or any piece holds a space. Without a comma, a
/// string with no space is a bare program name, and any other string is
/// handed to the system shell unchanged.
pub fn prepare_command(command: &str) -> (r: Result<PreparedCommand, InvalidCommandSpec>)
    ensures
        match r {
            Ok(c) => prepared_spec(command@) == Some(c@),
            Err(e) => prepared_spec(command@) is None && e.command@ == command@,
        },
{
    let cs = chars_of(command);
    if contains_char(&cs, ',') {
        let mut segs = segments(&cs);
        let ghost sv = segments_spec(command@);
        proof {
            lemma_split_nonempty(command@, ',');
        }
        let mut ok = segs.len() > 0 && !segs[0].as_str().is_empty();
        let mut k: usize = 0;
        while ok && k < segs.len()
            invariant
                k <= segs@.len(),
                segs@.map_values(|a: String| a@) == sv,
                ok == (sv.len() > 0 && sv[0].len() > 0 && forall|i: int|
                    0 <= i < k ==> !(#[trigger] sv[i]).contains(' ')),
            decreases segs.len() - k,
        {
            assert(sv[k as int] == segs@[k as int]@);
            if string_has(&segs[k], ' ') {
                ok = false;
            }
            k = k + 1;
        }
        if !ok {
            return Err(InvalidCommandSpec { command: command.to_owned() });
        }
        let program = segs.remove(0);
        assert(segs@.map_values(|a: String| a@) =~= sv.drop_first());
        Ok(PreparedCommand::Exec { program, args: segs })
    } else if !contains_char(&cs, ' ') {
        let args: Vec<String> = Vec::new();
        assert(args@.map_values(|a: String| a@) =~= Seq::<Seq<char>>::empty());
        Ok(PreparedCommand::Exec { program: command.to_owned(), args })
    } else {
        Ok(PreparedCommand::Shell { command: command.to_owned() })
    }
}


/// Every string that holds a comma is an argument list: it is rejected when
/// one of its pieces holds a space, and otherwise, where it names a program,
/// prepares to that program with the remaining pieces as arguments, in order.
pub proof fn lemma_list_form(s: Seq<char>)
    requires
        s.contains(','),
    ensures
        (exists|i: int|
            0 <= i < segments_spec(s).len() && (#[trigger] segments_spec(s)[i]).contains(' '))
            ==> prepared_spec(s) is None,
        (forall|i: int|
            0 <= i < segments_spec(s).len() ==> !(#[trigger] segments_spec(s)[i]).contains(' '))
            && segments_spec(s)[0].len() > 0 ==> prepared_spec(s) == Some(
            CommandModel::Exec { program: segments_spec(s)[0], args: segments_spec(s).drop_first() },
        ),
{
    lemma_split_nonempty(s, ',');
}

/// A string with neither a comma nor a space is a bare program name.
pub proof fn lemma_bare_form(s: Seq<char>)
    requires
        !s.contains(','),
        !s.contains(' '),
    ensures
        prepared_spec(s) == Some(CommandModel::Exec { program: s, args: Seq::empty() }),
{
}

/// A string with a space and no comma goes to the shell unchanged.
pub proof fn lemma_shell_form(s: Seq<char>)
    requires
        !s.contains(','),
        s.contains(' '),
    ensures
        prepared_spec(s) == Some(CommandModel::Shell { command: s }),
{
}

/// A process to start: the program and its arguments.
pub struct Invocation {
    pub program: String,
    pub args: Vec<String>,
}

/// The program that runs a shell command string.
pub open spec fn shell_program() -> Seq<char> {
    seq!['s', 'h']
}

/// The flag that makes the shell run its next argument as a command string.
pub open spec fn shell_flag() -> Seq<char> {
    seq!['-', 'c']
}

/// A copy of a list of strings.
fn copy_strings(v: &Vec<String>) -> (r: Vec<String>)
    ensures
        r@.map_values(|a: String| a@) == v@.map_values(|a: String| a@),
{
    let mut out: Vec<String> = Vec::new();
    let mut i: usize = 0;
    while i < v.len()
        invariant
            i <= v@.len(),
            out@.map_values(|a: String| a@) == v@.take(i as int).map_values(|a: String| a@),
        decreases v.len() - i,
    {
        let ghost prev = out@;
        out.push(v[i].clone());
        assert(out@.map_values(|a: String| a@) =~= prev.map_values(|a: String| a@).push(v@[i as int]@));
        assert(v@.take(i + 1) =~= v@.take(i as int).push(v@[i as int]));
        i = i + 1;
    }
    assert(v@.take(i as int) =~= v@);
    out
}

impl PreparedCommand {
    /// The process that runs this command: the program and its arguments
    /// as they stand, or `sh -c` with the shell string.
    pub fn invocation(&self) -> (r: Invocation)
        ensures
            match self@ {
                CommandModel::Exec { program, args } => r.program@ == program && r.args@.map_values(
                    |a: String| a@,
                ) == args,
                CommandModel::Shell { command } => r.program@ == shell_program() && r.args@.map_values(
                    |a: String| a@,
                ) == seq![shell_flag(), command],
            },
    {
        match self {
            PreparedCommand::Exec { program, args } => Invocation {
                program: program.clone(),
                args: copy_strings(args),
            },
            PreparedCommand::Shell { command } => {
                let sh = "sh".to_owned();
                let flag = "-c".to_owned();
                proof {
                    reveal_strlit("sh");
                    reveal_strlit("-c");
                }
                let mut args: Vec<String> = Vec::new();
                let ghost fv = flag@;
                args.push(flag);
                args.push(command.clone());
                assert(fv =~= shell_flag());
                assert(args@.map_values(|a: String| a@) =~= seq![shell_flag(), command@]);
                assert(sh@ =~= shell_program());
                Invocation { program: sh, args }
            },
        }
    }
}

/// What a command reads on its input: the event payload and one line
/// terminator.
pub fn stdin_bytes(payload: &Vec<u8>) -> (r: Vec<u8>)
    ensures
        r@ == payload@.push(10u8),
{
    let mut out: Vec<u8> = Vec::new();
    let mut i: usize = 0;
    while i < payload.len()
        invariant
            i <= payload@.len(),
            out@ == payload@.take(i as int),
        decreases payload.len() - i,
    {
        out.push(payload[i]);
        assert(payload@.take(i + 1) =~= payload@.take(i as int).push(payload@[i as int]));
        i = i + 1;
    }
    assert(payload@.take(i as int) =~= payload@);
    out.push(10u8);
    out
}

} // verus!
