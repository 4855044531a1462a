//! Translation of a whole source unit through one code writer.

use vstd::prelude::*;
use crate::code_writer::CodeWriter;
use crate::code_writer::WriterModel;
use crate::code_writer::translate_command;
use crate::parser::Parser;
use crate::parser::lemma_next_from_advances;
use crate::parser::next_from;

verus! {

/// The writer state after translating the commands of text `s` from index
/// `i` on; or, at the first line that is not a command, the state after the
/// lines before it together with that line's message.
pub open spec fn run(w: WriterModel, s: Seq<char>, i: int) -> Result<
    WriterModel,
    (WriterModel, Seq<char>),
>
    decreases s.len() - i,
    via run_decreases
{
    if i < 0 {
        Ok(w)
    } else {
        match next_from(s, i, i) {
            None => Ok(w),
            Some((Err(msg), _)) => Err((w, msg)),
            Some((Ok(m), n)) => run(translate_command(w, m), s, n),
        }
    }
}

#[via_fn]
proof fn run_decreases(w: WriterModel, s: Seq<char>, i: int) {
    if i >= 0 {
        lemma_next_from_advances(s, i, i);
    }
}

/// Translates the source unit `file_name` with text `source`, continuing the
/// program that `code_writer` holds: the counters and the emitted code carry
/// on, while labels start at top level. Stops at the first line that is not a
/// command, with its message, leaving the code of the lines before it.
pub fn translate_vm_code(file_name: String, source: &str, code_writer: &mut CodeWriter) -> (r:
    Result<(), String>)
    requires
        old(code_writer)@.comparisons + source@.len() <= usize::MAX,
        old(code_writer)@.calls + source@.len() <= usize::MAX,
    ensures
        match run(
            WriterModel { unit: file_name@, scope: None, ..old(code_writer)@ },
            source@,
            0,
        ) {
            Ok(w) => r is Ok && final(code_writer)@ == w,
            Err((w, msg)) => r is Err && r->Err_0@ == msg && final(code_writer)@ == w,
        },
{
    let ghost c0 = code_writer@.comparisons;
    let ghost k0 = code_writer@.calls;
    let ghost start = WriterModel { unit: file_name@, scope: None, ..code_writer@ };
    code_writer.begin_unit(file_name);
    let ghost w0 = code_writer@;
    let mut parser = Parser::build(source);
    loop
        invariant
            parser.wf(),
            w0 == start,
            start == (WriterModel { unit: file_name@, scope: None, ..old(code_writer)@ }),
            parser.text() == source@,
            0 <= parser.position() <= source@.len(),
            run(w0, source@, 0) == run(code_writer@, source@, parser.position()),
            code_writer@.comparisons <= c0 + parser.position(),
            code_writer@.calls <= k0 + parser.position(),
            c0 + source@.len() <= usize::MAX,
            k0 + source@.len() <= usize::MAX,
        decreases source@.len() - parser.position(),
    {
        let ghost p = parser.position();
        proof {
            lemma_next_from_advances(source@, p, p);
        }
        match parser.next() {
            None => {
                return Ok(());
            },
            Some(Err(msg)) => {
                return Err(msg);
            },
            Some(Ok(command)) => {
                code_writer.write_command(command);
            },
        }
    }
}

} // verus!
