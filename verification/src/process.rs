//! What running an external command yields.

use vstd::prelude::*;

use crate::text::{string_of, utf8_string};

verus! {

/// An argument between single quotes.
pub open spec fn quoted(arg: Seq<char>) -> Seq<char> {
    seq!['\''] + arg + seq!['\'']
}

/// The arguments, each between single quotes, separated by single spaces.
pub open spec fn quoted_args(args: Seq<Seq<char>>) -> Seq<char>
    decreases args.len(),
{
    if args.len() == 0 {
        seq![]
    } else if args.len() == 1 {
        quoted(args[0])
    } else {
        quoted_args(args.drop_last()) + seq![' '] + quoted(args.last())
    }
}

/// How a command is named in error reports: the program, a space, and the
/// quoted arguments.
pub open spec fn command_text(program: Seq<char>, args: Seq<Seq<char>>) -> Seq<char> {
    program + seq![' '] + quoted_args(args)
}

/// Names a command for error reports: `prog 'arg1' 'arg2'`.
pub fn describe_command(program: &str, args: &Vec<String>) -> (res: String)
    ensures
        res@ == command_text(program@, args@.map_values(|a: String| a@)),
{
    let ghost all = args@.map_values(|a: String| a@);
    let mut out: Vec<char> = crate::text::chars_of(program);
    out.push(' ');
    let ghost head = out@;
    let mut i: usize = 0;
    assert(all.subrange(0, 0) =~= Seq::<Seq<char>>::empty());
    assert(head + quoted_args(all.subrange(0, 0)) =~= head);
    while i < args.len()
        invariant
            i <= args.len(),
            all == args@.map_values(|a: String| a@),
            head == program@ + seq![' '],
            out@ == head + quoted_args(all.subrange(0, i as int)),
        decreases args.len() - i,
    {
        let ghost before = out@;
        if i > 0 {
            out.push(' ');
        }
        out.push('\'');
        let a = crate::text::chars_of(args[i].as_str());
        let mut k: usize = 0;
        let ghost mid = out@;
        while k < a.len()
            invariant
                k <= a.len(),
                out@ == mid + a@.subrange(0, k as int),
            decreases a.len() - k,
        {
            out.push(a[k]);
            k = k + 1;
            assert(out@ =~= mid + a@.subrange(0, k as int));
        }
        out.push('\'');
        assert(a@.subrange(0, a.len() as int) =~= a@);
        let ghost prefix = all.subrange(0, i + 1);
        assert(prefix.drop_last() =~= all.subrange(0, i as int));
        assert(prefix.last() == args@[i as int]@);
        if i > 0 {
            assert(out@ =~= before + seq![' '] + quoted(all[i as int]));
        } else {
            assert(out@ =~= before + quoted(all[i as int]));
            assert(prefix =~= seq![all[0]]);
        }
        i = i + 1;
    }
    assert(all.subrange(0, args.len() as int) =~= all);
    string_of(&out)
}

/// Why a command that ran is not taken as successful.
#[derive(Debug, PartialEq, Eq)]
pub enum ProcessError {
    /// The command exited unsuccessfully; its standard error.
    Failed(String),
    /// The command exited unsuccessfully and its standard error is not UTF-8.
    StderrNotUtf8,
    /// The command succeeded but its standard output is not UTF-8.
    StdoutNotUtf8,
}

/// How a command that ran is taken: its standard output where it succeeded,
/// else its standard error as the error.
pub fn command_output(success: bool, stdout: Vec<u8>, stderr: Vec<u8>) -> (res: Result<String, ProcessError>)
    ensures
        success && vstd::utf8::valid_utf8(stdout@) ==> (res matches Ok(s) && s@ == vstd::utf8::decode_utf8(stdout@)),
        success && !vstd::utf8::valid_utf8(stdout@) ==> res matches Err(ProcessError::StdoutNotUtf8),
        !success && vstd::utf8::valid_utf8(stderr@) ==> (res matches Err(ProcessError::Failed(e))
            && e@ == vstd::utf8::decode_utf8(stderr@)),
        !success && !vstd::utf8::valid_utf8(stderr@) ==> res matches Err(ProcessError::StderrNotUtf8),
{
    if !success {
        match utf8_string(stderr) {
            Some(e) => Err(ProcessError::Failed(e)),
            None => Err(ProcessError::StderrNotUtf8),
        }
    } else {
        match utf8_string(stdout) {
            Some(s) => Ok(s),
            None => Err(ProcessError::StdoutNotUtf8),
        }
    }
}

} // verus!
