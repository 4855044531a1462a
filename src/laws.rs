//! Properties of the generated code that hold across commands and calls.

use vstd::prelude::*;
use crate::chars::dec;
use crate::chars::lemma_dec_injective;
use crate::code_writer::WriterModel;
use crate::code_writer::cmp_label;
use crate::code_writer::arithmetic_code;
use crate::code_writer::at_number;
use crate::code_writer::at_symbol;
use crate::code_writer::call_code;
use crate::code_writer::label_line;
use crate::code_writer::pop_to_d_code;
use crate::code_writer::push_d_code;
use crate::parser::ArithmeticLogical;
use crate::code_writer::end_label;
use crate::code_writer::is_comparison;
use crate::code_writer::ret_label;
use crate::code_writer::translate_command;
use crate::parser::CommandModel;
use crate::parser::lemma_next_from_advances;
use crate::parser::next_from;
use crate::translator::run;

verus! {

proof fn lemma_suffix_equal(p: Seq<char>, a: Seq<char>, b: Seq<char>)
    requires
        p + a == p + b,
    ensures
        a == b,
{
    assert(a =~= (p + a).subrange(p.len() as int, (p + a).len() as int));
    assert(b =~= (p + b).subrange(p.len() as int, (p + b).len() as int));
}

/// Comparison labels are unique: two comparisons with different numbers get
/// different branch labels and different join labels, and no branch label is
/// ever a join label.
pub proof fn comparison_labels_unique(i: nat, j: nat)
    ensures
        i != j ==> cmp_label(i) != cmp_label(j),
        i != j ==> end_label(i) != end_label(j),
        cmp_label(i) != end_label(j),
{
    if cmp_label(i) == cmp_label(j) {
        lemma_suffix_equal("CMP."@, dec(i), dec(j));
        lemma_dec_injective(i, j);
    }
    if end_label(i) == end_label(j) {
        lemma_suffix_equal("END."@, dec(i), dec(j));
        lemma_dec_injective(i, j);
    }
    reveal_strlit("CMP.");
    reveal_strlit("END.");
    assert(cmp_label(i)[0] != end_label(j)[0]);
}

/// Return labels are unique: calls of the same function with different call
/// numbers get different return labels.
pub proof fn return_labels_unique(f: Seq<char>, i: nat, j: nat)
    ensures
        i != j ==> ret_label(f, i) != ret_label(f, j),
{
    if ret_label(f, i) == ret_label(f, j) {
        assert(ret_label(f, i) == f + ("$ret."@ + dec(i)));
        assert(ret_label(f, j) == f + ("$ret."@ + dec(j)));
        lemma_suffix_equal(f, "$ret."@ + dec(i), "$ret."@ + dec(j));
        lemma_suffix_equal("$ret."@, dec(i), dec(j));
        lemma_dec_injective(i, j);
    }
}

/// The counters only move forward: a command adds one to the comparison
/// counter exactly when it is a comparison, one to the call counter exactly
/// when it is a call, and keeps the code emitted so far as a prefix.
pub proof fn counters_advance(w: WriterModel, m: CommandModel)
    ensures
        translate_command(w, m).comparisons == w.comparisons + if m matches CommandModel::ArithmeticLogical(op) && is_comparison(op) { 1nat } else { 0nat },
        translate_command(w, m).calls == w.calls + if m is Call { 1nat } else { 0nat },
        translate_command(w, m).unit == w.unit,
        translate_command(w, m).code.len() > w.code.len(),
        translate_command(w, m).code.subrange(0, w.code.len() as int) == w.code,
{
    let w2 = translate_command(w, m);
    assert(w2.code.subrange(0, w.code.len() as int) =~= w.code);
}

/// Across a whole source unit the counters never go back and the code
/// emitted before stays in place; translating the next unit therefore goes
/// on numbering labels where this one stopped.
pub proof fn run_only_advances(w: WriterModel, s: Seq<char>, i: int)
    ensures
        run(w, s, i) matches Ok(w2) ==> {
            &&& w2.comparisons >= w.comparisons
            &&& w2.calls >= w.calls
            &&& w2.unit == w.unit
            &&& w2.code.len() >= w.code.len()
            &&& w2.code.subrange(0, w.code.len() as int) == w.code
        },
    decreases s.len() - i,
{
    if i >= 0 {
        lemma_next_from_advances(s, i, i);
        match next_from(s, i, i) {
            Some((Ok(m), n)) => {
                let w1 = translate_command(w, m);
                counters_advance(w, m);
                run_only_advances(w1, s, n);
                if run(w, s, i) is Ok {
                    let w2 = run(w, s, i)->Ok_0;
                    assert(w2.code.subrange(0, w.code.len() as int) =~= w1.code.subrange(
                        0,
                        w1.code.len() as int,
                    ).subrange(0, w.code.len() as int));
                }
            },
            _ => {},
        }
    }
}

/// The state after translating the commands `ms` in order.
pub open spec fn translate_all(w: WriterModel, ms: Seq<CommandModel>) -> WriterModel
    decreases ms.len(),
{
    if ms.len() == 0 {
        w
    } else {
        translate_all(translate_command(w, ms[0]), ms.drop_first())
    }
}

pub open spec fn is_comparison_command(m: CommandModel) -> bool {
    m matches CommandModel::ArithmeticLogical(op) && is_comparison(op)
}

/// The number each comparison among `ms` takes its labels from
/// (`cmp_label(n)`, `end_label(n)`), in order.
pub open spec fn comparison_numbers(w: WriterModel, ms: Seq<CommandModel>) -> Seq<nat>
    decreases ms.len(),
{
    if ms.len() == 0 {
        seq![]
    } else {
        (if is_comparison_command(ms[0]) {
            seq![w.comparisons]
        } else {
            seq![]
        }) + comparison_numbers(translate_command(w, ms[0]), ms.drop_first())
    }
}

/// The number each call among `ms` takes its return label from
/// (`ret_label(f, n)`), in order.
pub open spec fn call_numbers(w: WriterModel, ms: Seq<CommandModel>) -> Seq<nat>
    decreases ms.len(),
{
    if ms.len() == 0 {
        seq![]
    } else {
        (if ms[0] is Call {
            seq![w.calls]
        } else {
            seq![]
        }) + call_numbers(translate_command(w, ms[0]), ms.drop_first())
    }
}

/// Comparison labels over any sequence of commands: the k comparisons take
/// the consecutive numbers c, c + 1, ..., c + k - 1 from where the counter
/// stood, so their label pairs are distinct (`comparison_labels_unique`) and
/// numbered in order, and the counter ends at c + k.
pub proof fn comparison_numbering(w: WriterModel, ms: Seq<CommandModel>)
    ensures
        comparison_numbers(w, ms) == Seq::new(
            comparison_numbers(w, ms).len(),
            |j: int| w.comparisons + j as nat,
        ),
        translate_all(w, ms).comparisons == w.comparisons + comparison_numbers(w, ms).len(),
    decreases ms.len(),
{
    if ms.len() > 0 {
        let w1 = translate_command(w, ms[0]);
        counters_advance(w, ms[0]);
        comparison_numbering(w1, ms.drop_first());
        assert(comparison_numbers(w, ms) =~= Seq::new(
            comparison_numbers(w, ms).len(),
            |j: int| w.comparisons + j as nat,
        ));
    }
}

/// Return labels over any sequence of commands, recursive calls included:
/// the k calls take the consecutive numbers c, c + 1, ..., c + k - 1, so
/// calls of the same function get distinct return labels
/// (`return_labels_unique`) with strictly increasing suffixes, and the
/// counter ends at c + k.
pub proof fn call_numbering(w: WriterModel, ms: Seq<CommandModel>)
    ensures
        call_numbers(w, ms) == Seq::new(call_numbers(w, ms).len(), |j: int| w.calls + j as nat),
        translate_all(w, ms).calls == w.calls + call_numbers(w, ms).len(),
    decreases ms.len(),
{
    if ms.len() > 0 {
        let w1 = translate_command(w, ms[0]);
        counters_advance(w, ms[0]);
        call_numbering(w1, ms.drop_first());
        assert(call_numbers(w, ms) =~= Seq::new(
            call_numbers(w, ms).len(),
            |j: int| w.calls + j as nat,
        ));
    }
}

/// A label pseudo-instruction `(name)`.
pub open spec fn defines_label(line: Seq<char>) -> bool {
    line.len() > 0 && line[0] == '('
}

/// The label pseudo-instructions of `code`, in order.
pub open spec fn label_definitions(code: Seq<Seq<char>>) -> Seq<Seq<char>> {
    code.filter(|l: Seq<char>| defines_label(l))
}

proof fn lemma_no_definitions(code: Seq<Seq<char>>)
    requires
        forall|i: int| 0 <= i < code.len() ==> !defines_label(#[trigger] code[i]),
    ensures
        label_definitions(code) == Seq::<Seq<char>>::empty(),
    decreases code.len(),
{
    reveal(Seq::filter);
    if code.len() > 0 {
        lemma_no_definitions(code.drop_last());
    }
}

proof fn lemma_one_definition(line: Seq<char>)
    requires
        defines_label(line),
    ensures
        label_definitions(seq![line]) == seq![line],
{
    reveal(Seq::filter);
    assert(seq![line].drop_last() =~= Seq::<Seq<char>>::empty());
    lemma_no_definitions(Seq::<Seq<char>>::empty());
}

proof fn lemma_definitions_concat(a: Seq<Seq<char>>, b: Seq<Seq<char>>)
    ensures
        label_definitions(a + b) == label_definitions(a) + label_definitions(b),
{
    Seq::filter_distributes_over_add(a, b, |l: Seq<char>| defines_label(l));
}

proof fn lemma_plain_lines()
    ensures
        forall|x: Seq<char>| !defines_label(#[trigger] at_symbol(x)),
        forall|n: nat| !defines_label(#[trigger] at_number(n)),
        forall|x: Seq<char>| defines_label(#[trigger] label_line(x)),
        !defines_label("@SP"@),
        !defines_label("A=M"@),
        !defines_label("M=D"@),
        !defines_label("M=M+1"@),
        !defines_label("M=M-1"@),
        !defines_label("D=M"@),
        !defines_label("D=A"@),
        !defines_label("@R13"@),
        !defines_label("D=D-M"@),
        !defines_label("D=D+M"@),
        !defines_label("D=D&M"@),
        !defines_label("D=D|M"@),
        !defines_label("D=-D"@),
        !defines_label("D=!D"@),
        !defines_label("D;JEQ"@),
        !defines_label("D;JGT"@),
        !defines_label("D;JLT"@),
        !defines_label("D=0"@),
        !defines_label("0;JMP"@),
        !defines_label("D=-1"@),
        !defines_label("@LCL"@),
        !defines_label("@5"@),
        !defines_label("D=D-A"@),
        !defines_label("@ARG"@),
{
    reveal_strlit("@");
    reveal_strlit("(");
    reveal_strlit("@SP");
    reveal_strlit("A=M");
    reveal_strlit("M=D");
    reveal_strlit("M=M+1");
    reveal_strlit("M=M-1");
    reveal_strlit("D=M");
    reveal_strlit("D=A");
    reveal_strlit("@R13");
    reveal_strlit("D=D-M");
    reveal_strlit("D=D+M");
    reveal_strlit("D=D&M");
    reveal_strlit("D=D|M");
    reveal_strlit("D=-D");
    reveal_strlit("D=!D");
    reveal_strlit("D;JEQ");
    reveal_strlit("D;JGT");
    reveal_strlit("D;JLT");
    reveal_strlit("D=0");
    reveal_strlit("0;JMP");
    reveal_strlit("D=-1");
    reveal_strlit("@LCL");
    reveal_strlit("@5");
    reveal_strlit("D=D-A");
    reveal_strlit("@ARG");
}

/// The labels an arithmetic command defines: a comparison numbered `k`
/// defines exactly its branch and join labels, in that order, and no other
/// operation defines any.
pub proof fn arithmetic_label_definitions(op: ArithmeticLogical, k: nat)
    ensures
        label_definitions(arithmetic_code(op, k)) == if is_comparison(op) {
            seq![label_line(cmp_label(k)), label_line(end_label(k))]
        } else {
            Seq::<Seq<char>>::empty()
        },
{
    lemma_plain_lines();
    let pop = pop_to_d_code();
    let push = push_d_code();
    lemma_no_definitions(pop);
    lemma_no_definitions(push);
    let stash = seq!["@R13"@, "M=D"@];
    lemma_no_definitions(stash);
    if is_comparison(op) {
        let jump = if op == ArithmeticLogical::Eq {
            "D;JEQ"@
        } else if op == ArithmeticLogical::Gt {
            "D;JGT"@
        } else {
            "D;JLT"@
        };
        let front = seq![
            "@R13"@,
            "D=D-M"@,
            at_symbol(cmp_label(k)),
            jump,
            "D=0"@,
            at_symbol(end_label(k)),
            "0;JMP"@,
        ];
        let c = seq![label_line(cmp_label(k))];
        let t = seq!["D=-1"@];
        let e = seq![label_line(end_label(k))];
        lemma_no_definitions(front);
        lemma_no_definitions(t);
        lemma_one_definition(label_line(cmp_label(k)));
        lemma_one_definition(label_line(end_label(k)));
        let middle = front + c + t + e;
        assert(arithmetic_code(op, k) == pop + stash + pop + middle + push) by {
            assert(middle =~= seq![
                "@R13"@,
                "D=D-M"@,
                at_symbol(cmp_label(k)),
                jump,
                "D=0"@,
                at_symbol(end_label(k)),
                "0;JMP"@,
                label_line(cmp_label(k)),
                "D=-1"@,
                label_line(end_label(k)),
            ]);
        }
        lemma_definitions_concat(front, c);
        lemma_definitions_concat(front + c, t);
        lemma_definitions_concat(front + c + t, e);
        lemma_definitions_concat(pop, stash);
        lemma_definitions_concat(pop + stash, pop);
        lemma_definitions_concat(pop + stash + pop, middle);
        lemma_definitions_concat(pop + stash + pop + middle, push);
        assert(label_definitions(middle) =~= seq![
            label_line(cmp_label(k)),
            label_line(end_label(k)),
        ]);
        assert(label_definitions(arithmetic_code(op, k)) =~= seq![
            label_line(cmp_label(k)),
            label_line(end_label(k)),
        ]);
    } else {
        assert forall|i: int|
            0 <= i < arithmetic_code(op, k).len() implies !defines_label(
            #[trigger] arithmetic_code(op, k)[i],
        ) by {}
        lemma_no_definitions(arithmetic_code(op, k));
    }
}

/// The labels a call numbered `k` defines: exactly its return label.
pub proof fn call_label_definitions(f: Seq<char>, n_args: nat, k: nat)
    ensures
        label_definitions(call_code(f, n_args, k)) == seq![label_line(ret_label(f, k))],
{
    lemma_plain_lines();
    let code = call_code(f, n_args, k);
    let body = code.drop_last();
    assert(code == body + seq![label_line(ret_label(f, k))]) by {
        assert(code =~= body + seq![label_line(ret_label(f, k))]);
    }
    assert forall|i: int| 0 <= i < body.len() implies !defines_label(#[trigger] body[i]) by {
        assert(body[i] == code[i]);
    }
    lemma_no_definitions(body);
    lemma_one_definition(label_line(ret_label(f, k)));
    lemma_definitions_concat(body, seq![label_line(ret_label(f, k))]);
    assert(label_definitions(code) =~= seq![label_line(ret_label(f, k))]);
}

} // verus!
