//! A model of the target machine for the instruction forms the code writer
//! emits, and the execution of straight-line instruction sequences on it.
//! Words are modelled as unbounded integers; symbols that are neither
//! numerals nor predefined registers get their addresses from a symbol table.

use vstd::prelude::*;
use crate::chars::dec;
use crate::chars::digit_char;
use crate::chars::digit_value;
use crate::chars::digits_value;
use crate::chars::is_digit;
use crate::chars::is_numeral;
use crate::code_writer::push_d_code;
use crate::code_writer::pop_to_d_code;
use crate::code_writer::address_code;
use crate::code_writer::at_number;
use crate::code_writer::at_symbol;
use crate::code_writer::pop_code;
use crate::code_writer::push_code;
use crate::code_writer::segment_base;
use crate::code_writer::call_code;
use crate::code_writer::label_line;
use crate::code_writer::restore_code;
use crate::code_writer::ret_label;
use crate::code_writer::return_code;
use crate::code_writer::save_code;
use crate::parser::Segment;

verus! {

/// Registers A and D, and memory.
pub struct Machine {
    pub a: int,
    pub d: int,
    pub mem: spec_fn(int) -> int,
}

/// `mem` with the word at `addr` replaced by `v`.
pub open spec fn write(mem: spec_fn(int) -> int, addr: int, v: int) -> spec_fn(int) -> int {
    |x: int| if x == addr { v } else { mem(x) }
}

/// The value of the symbol `x` of an `@` instruction: a numeral, one of the
/// predefined registers SP, LCL, ARG, THIS, THAT and R0..R15, or else the
/// address the table `table` gives it.
pub open spec fn symbol_value(x: Seq<char>, table: spec_fn(Seq<char>) -> int) -> int {
    if is_numeral(x) {
        digits_value(x) as int
    } else if x.len() == 2 && x[0] == 'S' && x[1] == 'P' {
        0
    } else if x.len() == 3 && x[0] == 'L' && x[1] == 'C' && x[2] == 'L' {
        1
    } else if x.len() == 3 && x[0] == 'A' && x[1] == 'R' && x[2] == 'G' {
        2
    } else if x.len() == 4 && x[0] == 'T' && x[1] == 'H' && x[2] == 'I' && x[3] == 'S' {
        3
    } else if x.len() == 4 && x[0] == 'T' && x[1] == 'H' && x[2] == 'A' && x[3] == 'T' {
        4
    } else if x.len() >= 2 && x[0] == 'R' && is_numeral(x.drop_first()) && digits_value(
        x.drop_first(),
    ) <= 15 {
        digits_value(x.drop_first()) as int
    } else {
        table(x)
    }
}

/// An operand of a computation: a register, memory at A, or 0 / 1.
pub open spec fn operand(m: Machine, c: char) -> Option<int> {
    if c == 'A' {
        Some(m.a)
    } else if c == 'D' {
        Some(m.d)
    } else if c == 'M' {
        Some((m.mem)(m.a))
    } else if c == '0' {
        Some(0)
    } else if c == '1' {
        Some(1)
    } else {
        None
    }
}

/// The value of the computation `c` (`x`, `-x`, `!x`, `x+y`, `x-y`); `None`
/// for forms outside the model.
pub open spec fn comp_value(m: Machine, c: Seq<char>) -> Option<int> {
    if c.len() == 1 {
        operand(m, c[0])
    } else if c.len() == 2 && (c[0] == '-' || c[0] == '!') {
        match operand(m, c[1]) {
            Some(x) => Some(if c[0] == '-' { -x } else { -x - 1 }),
            None => None,
        }
    } else if c.len() == 3 && (c[1] == '+' || c[1] == '-') {
        match (operand(m, c[0]), operand(m, c[2])) {
            (Some(x), Some(y)) => Some(if c[1] == '+' { x + y } else { x - y }),
            _ => None,
        }
    } else {
        None
    }
}

/// Store `v` in the destination `t` (A, D or M).
pub open spec fn assign(m: Machine, t: char, v: int) -> Option<Machine> {
    if t == 'A' {
        Some(Machine { a: v, ..m })
    } else if t == 'D' {
        Some(Machine { d: v, ..m })
    } else if t == 'M' {
        Some(Machine { mem: write(m.mem, m.a, v), ..m })
    } else {
        None
    }
}

/// The effect of one instruction line on registers and memory. Labels and
/// comments do nothing; a jump leaves registers and memory as they are and
/// only decides where control goes next.
pub open spec fn step(m: Machine, line: Seq<char>, table: spec_fn(Seq<char>) -> int) -> Option<
    Machine,
> {
    if line.len() == 0 {
        None
    } else if line[0] == '@' {
        Some(Machine { a: symbol_value(line.drop_first(), table), ..m })
    } else if line[0] == '(' || line[0] == '/' {
        Some(m)
    } else if line.len() >= 2 && line[1] == ';' {
        match comp_value(m, line.subrange(0, 1)) {
            Some(_) => Some(m),
            None => None,
        }
    } else if line.len() >= 2 && line[1] == '=' {
        match comp_value(m, line.subrange(2, line.len() as int)) {
            Some(v) => assign(m, line[0], v),
            None => None,
        }
    } else {
        None
    }
}

/// The state after the first `k` lines of `code`, executed in order.
pub open spec fn exec_upto(m: Machine, code: Seq<Seq<char>>, k: int, table: spec_fn(
    Seq<char>,
) -> int) -> Option<Machine>
    decreases k,
{
    if k <= 0 {
        Some(m)
    } else {
        match exec_upto(m, code, k - 1, table) {
            Some(m1) => step(m1, code[k - 1], table),
            None => None,
        }
    }
}

/// The state after executing all of `code` in order, or `None` when a line
/// falls outside the model.
pub open spec fn exec(m: Machine, code: Seq<Seq<char>>, table: spec_fn(Seq<char>) -> int) -> Option<
    Machine,
> {
    exec_upto(m, code, code.len() as int, table)
}

proof fn lemma_exec_upto_prefix(
    m: Machine,
    a: Seq<Seq<char>>,
    b: Seq<Seq<char>>,
    k: int,
    table: spec_fn(Seq<char>) -> int,
)
    requires
        0 <= k <= a.len(),
        k <= b.len(),
        forall|i: int| 0 <= i < k ==> a[i] == b[i],
    ensures
        exec_upto(m, a, k, table) == exec_upto(m, b, k, table),
    decreases k,
{
    if k > 0 {
        lemma_exec_upto_prefix(m, a, b, k - 1, table);
    }
}

proof fn lemma_exec_upto_concat(
    m: Machine,
    x: Seq<Seq<char>>,
    y: Seq<Seq<char>>,
    j: int,
    table: spec_fn(Seq<char>) -> int,
)
    requires
        0 <= j <= y.len(),
    ensures
        exec_upto(m, x + y, x.len() + j, table) == match exec(m, x, table) {
            Some(m1) => exec_upto(m1, y, j, table),
            None => None,
        },
    decreases j,
{
    if j == 0 {
        lemma_exec_upto_prefix(m, x + y, x, x.len() as int, table);
    } else {
        lemma_exec_upto_concat(m, x, y, j - 1, table);
    }
}

/// Executing `x + y` is executing `x`, then `y`.
pub proof fn lemma_exec_concat(
    m: Machine,
    x: Seq<Seq<char>>,
    y: Seq<Seq<char>>,
    table: spec_fn(Seq<char>) -> int,
)
    ensures
        exec(m, x + y, table) == match exec(m, x, table) {
            Some(m1) => exec(m1, y, table),
            None => None,
        },
{
    lemma_exec_upto_concat(m, x, y, y.len() as int, table);
}

/// Stack pointer value.
pub open spec fn sp(m: Machine) -> int {
    (m.mem)(0)
}

/// The state after pushing `v`: `v` stored at the old top, the stack pointer
/// one higher, A left at SP.
pub open spec fn after_push(m: Machine, v: int) -> Machine {
    Machine { a: 0, d: v, mem: write(write(m.mem, sp(m), v), 0, sp(m) + 1) }
}

/// The state after popping into D: the stack pointer one lower, D the word
/// it now points at, A left there.
pub open spec fn after_pop(m: Machine) -> Machine {
    Machine { a: sp(m) - 1, d: (m.mem)(sp(m) - 1), mem: write(m.mem, 0, sp(m) - 1) }
}

proof fn lemma_push_d(m: Machine, table: spec_fn(Seq<char>) -> int)
    requires
        sp(m) != 0,
    ensures
        exec(m, push_d_code(), table) == Some(after_push(m, m.d)),
{
    reveal_strlit("@SP");
    reveal_strlit("A=M");
    reveal_strlit("M=D");
    reveal_strlit("M=M+1");
    reveal_with_fuel(exec_upto, 6);
    let m1 = Machine { a: 0, ..m };
    let m2 = Machine { a: sp(m), ..m };
    let m3 = Machine { mem: write(m.mem, sp(m), m.d), ..m2 };
    let m4 = Machine { a: 0, ..m3 };
    assert(step(m, "@SP"@, table) == Some(m1));
    assert(step(m1, "A=M"@, table) == Some(m2));
    assert(step(m2, "M=D"@, table) == Some(m3));
    assert(step(m3, "@SP"@, table) == Some(m4));
    assert(step(m4, "M=M+1"@, table) == Some(after_push(m, m.d)));
}

proof fn lemma_pop_to_d(m: Machine, table: spec_fn(Seq<char>) -> int)
    requires
        sp(m) != 1,
    ensures
        exec(m, pop_to_d_code(), table) == Some(after_pop(m)),
{
    reveal_strlit("@SP");
    reveal_strlit("A=M");
    reveal_strlit("M=M-1");
    reveal_strlit("D=M");
    reveal_with_fuel(exec_upto, 5);
    let m1 = Machine { a: 0, ..m };
    let m2 = Machine { mem: write(m.mem, 0, sp(m) - 1), ..m1 };
    let m3 = Machine { a: sp(m) - 1, ..m2 };
    assert(step(m, "@SP"@, table) == Some(m1));
    assert(step(m1, "M=M-1"@, table) == Some(m2));
    assert(step(m2, "A=M"@, table) == Some(m3));
    assert(step(m3, "D=M"@, table) == Some(after_pop(m)));
}

proof fn lemma_dec_numeral(n: nat)
    ensures
        is_numeral(dec(n)),
        digits_value(dec(n)) == n,
    decreases n,
{
    if n >= 10 {
        lemma_dec_numeral(n / 10);
        let d = dec(n);
        assert(d.drop_last() == dec(n / 10));
        assert forall|k: int| 0 <= k < d.len() implies is_digit(#[trigger] d[k]) by {
            if k < d.len() - 1 {
                assert(d[k] == dec(n / 10)[k]);
            }
        }
        assert(digit_value(digit_char(n % 10)) == n % 10);
        assert(d.last() == digit_char(n % 10));
        assert(digits_value(d) == digits_value(dec(n / 10)) * 10 + digit_value(d.last()));
        assert(n == (n / 10) * 10 + n % 10) by (nonlinear_arith);
    } else {
        assert(dec(n).drop_last() =~= Seq::<char>::empty());
        assert(digit_value(digit_char(n)) == n);
        assert(digits_value(dec(n)) == digits_value(dec(n).drop_last()) * 10 + digit_value(
            dec(n).last(),
        ));
    }
}

proof fn lemma_at(m: Machine, x: Seq<char>, table: spec_fn(Seq<char>) -> int)
    ensures
        step(m, "@"@ + x, table) == Some(Machine { a: symbol_value(x, table), ..m }),
{
    reveal_strlit("@");
    assert(("@"@ + x).drop_first() =~= x);
}

proof fn lemma_at_number(m: Machine, n: nat, table: spec_fn(Seq<char>) -> int)
    ensures
        step(m, at_number(n), table) == Some(Machine { a: n as int, ..m }),
{
    lemma_at(m, dec(n), table);
    lemma_dec_numeral(n);
}

/// The address that `g[index]` denotes in state `m`, or the constant itself.
pub open spec fn segment_address(
    m: Machine,
    g: Segment,
    unit: Seq<char>,
    index: nat,
    table: spec_fn(Seq<char>) -> int,
) -> int {
    match g {
        Segment::Constant => index as int,
        Segment::Argument => (m.mem)(2) + index,
        Segment::Local => (m.mem)(1) + index,
        Segment::This => (m.mem)(3) + index,
        Segment::That => (m.mem)(4) + index,
        Segment::Pointer => 3 + index as int,
        Segment::Temp => 5 + index as int,
        Segment::Static => symbol_value(unit + "."@ + dec(index), table),
    }
}

proof fn lemma_base_value(g: Segment, unit: Seq<char>, index: nat, table: spec_fn(Seq<char>) -> int)
    requires
        g != Segment::Constant,
        g != Segment::Static,
    ensures
        symbol_value(segment_base(g, unit, index), table) == match g {
            Segment::Argument => 2int,
            Segment::Local => 1int,
            Segment::This => 3int,
            Segment::That => 4int,
            Segment::Pointer => 3int,
            _ => 5int,
        },
{
    reveal_strlit("ARG");
    reveal_strlit("LCL");
    reveal_strlit("THIS");
    reveal_strlit("THAT");
    reveal_strlit("5");
    reveal_with_fuel(digits_value, 2);
    let x = segment_base(g, unit, index);
    if g == Segment::Temp {
        assert(x.drop_last() =~= Seq::<char>::empty());
        assert(is_numeral(x));
    } else {
        assert(!is_digit(x[0]));
    }
}

proof fn lemma_address(
    m: Machine,
    g: Segment,
    unit: Seq<char>,
    index: nat,
    table: spec_fn(Seq<char>) -> int,
)
    ensures
        exec(m, address_code(g, unit, index), table) == Some(
            Machine {
                a: segment_address(m, g, unit, index, table),
                d: if g == Segment::Constant {
                    m.d
                } else {
                    index as int
                },
                mem: m.mem,
            },
        ),
{
    reveal_strlit("D=A");
    reveal_strlit("A=A+D");
    reveal_strlit("A=M+D");
    reveal_with_fuel(exec_upto, 5);
    let m1 = Machine { a: index as int, ..m };
    lemma_at_number(m, index, table);
    if g != Segment::Constant {
        let m2 = Machine { d: index as int, ..m1 };
        assert(step(m1, "D=A"@, table) == Some(m2));
        let base = segment_base(g, unit, index);
        lemma_at(m2, base, table);
        let m3 = Machine { a: symbol_value(base, table), ..m2 };
        if g != Segment::Static {
            lemma_base_value(g, unit, index, table);
        }
    }
}

/// The value that `push g index` pushes in state `m`.
pub open spec fn pushed_value(
    m: Machine,
    g: Segment,
    unit: Seq<char>,
    index: nat,
    table: spec_fn(Seq<char>) -> int,
) -> int {
    if g == Segment::Constant {
        index as int
    } else {
        (m.mem)(segment_address(m, g, unit, index, table))
    }
}

/// A push raises the stack pointer by one and leaves the pushed value on
/// top, for every segment, provided the top of the stack is not the stack
/// pointer's own cell.
pub proof fn push_raises_stack_pointer(
    m: Machine,
    g: Segment,
    unit: Seq<char>,
    index: nat,
    table: spec_fn(Seq<char>) -> int,
)
    requires
        sp(m) != 0,
    ensures
        exec(m, push_code(g, unit, index), table) == Some(
            after_push(m, pushed_value(m, g, unit, index, table)),
        ),
{
    reveal_strlit("D=A");
    reveal_strlit("D=M");
    reveal_with_fuel(exec_upto, 2);
    let line = if g == Segment::Constant {
        "D=A"@
    } else {
        "D=M"@
    };
    lemma_address(m, g, unit, index, table);
    lemma_exec_concat(m, address_code(g, unit, index), seq![line], table);
    lemma_exec_concat(m, address_code(g, unit, index) + seq![line], push_d_code(), table);
    let v = pushed_value(m, g, unit, index, table);
    let m2 = Machine { a: segment_address(m, g, unit, index, table), d: v, mem: m.mem };
    lemma_push_d(m2, table);
    assert(after_push(m2, v) == after_push(m, v));
}

/// A pop lowers the stack pointer by one and stores the old top at the
/// segment address, provided the stack lies above the registers and the
/// address is not the stack pointer's cell.
pub proof fn pop_lowers_stack_pointer(
    m: Machine,
    g: Segment,
    unit: Seq<char>,
    index: nat,
    table: spec_fn(Seq<char>) -> int,
)
    requires
        sp(m) > 16,
        segment_address(m, g, unit, index, table) != 0,
    ensures
        exec(m, pop_code(g, unit, index), table) matches Some(m2) && {
            &&& sp(m2) == sp(m) - 1
            &&& (m2.mem)(segment_address(m, g, unit, index, table)) == (m.mem)(sp(m) - 1)
            &&& forall|x: int|
                x != 0 && x != 13 && x != segment_address(m, g, unit, index, table) ==> #[trigger] (
                m2.mem)(x) == (m.mem)(x)
        },
{
    reveal_strlit("D=A");
    reveal_strlit("@R13");
    reveal_strlit("M=D");
    reveal_strlit("A=M");
    reveal_with_fuel(exec_upto, 4);
    let addr = segment_address(m, g, unit, index, table);
    let a_code = address_code(g, unit, index);
    let save = seq!["D=A"@, "@R13"@, "M=D"@];
    let store = seq!["@R13"@, "A=M"@, "M=D"@];
    lemma_address(m, g, unit, index, table);
    let m1 = Machine {
        a: addr,
        d: if g == Segment::Constant {
            m.d
        } else {
            index as int
        },
        mem: m.mem,
    };
    let r13 = seq!['R', '1', '3'];
    assert("@R13"@ == "@"@ + r13) by {
        reveal_strlit("@");
        assert("@R13"@ =~= "@"@ + r13);
    }
    lemma_at(m1, r13, table);
    reveal_with_fuel(digits_value, 3);
    assert(r13.drop_first() =~= seq!['1', '3']);
    assert(seq!['1', '3'].drop_last() =~= seq!['1']);
    assert(seq!['1'].drop_last() =~= Seq::<char>::empty());
    assert(symbol_value(r13, table) == 13);
    let m2 = Machine { d: addr, ..m1 };
    let m3 = Machine { a: 13, ..m2 };
    let m4 = Machine { mem: write(m.mem, 13, addr), ..m3 };
    assert(exec(m1, save, table) == Some(m4));
    lemma_exec_concat(m, a_code, save, table);
    lemma_pop_to_d(m4, table);
    lemma_exec_concat(m, a_code + save, pop_to_d_code(), table);
    let m5 = after_pop(m4);
    lemma_at(m5, r13, table);
    let m6 = Machine { a: 13, ..m5 };
    let m7 = Machine { a: addr, ..m6 };
    let m8 = Machine { mem: write(m5.mem, addr, m5.d), ..m7 };
    assert(exec(m5, store, table) == Some(m8));
    lemma_exec_concat(m, a_code + save + pop_to_d_code(), store, table);
}

/// A push or a pop of a segment word.
pub enum StackOp {
    Push(Segment, nat),
    Pop(Segment, nat),
}

/// The instructions of one stack operation in source unit `unit`.
pub open spec fn op_code(op: StackOp, unit: Seq<char>) -> Seq<Seq<char>> {
    match op {
        StackOp::Push(g, i) => push_code(g, unit, i),
        StackOp::Pop(g, i) => pop_code(g, unit, i),
    }
}

/// The instructions of a sequence of stack operations, in order.
pub open spec fn ops_code(ops: Seq<StackOp>, unit: Seq<char>) -> Seq<Seq<char>>
    decreases ops.len(),
{
    if ops.len() == 0 {
        seq![]
    } else {
        op_code(ops[0], unit) + ops_code(ops.drop_first(), unit)
    }
}

/// Number of pushes minus number of pops.
pub open spec fn net_pushes(ops: Seq<StackOp>) -> int
    decreases ops.len(),
{
    if ops.len() == 0 {
        0
    } else {
        (if ops[0] is Push {
            1int
        } else {
            -1int
        }) + net_pushes(ops.drop_first())
    }
}

/// Running `ops` from `m` never underflows: before each pop the stack lies
/// above the registers, and no operation stores into the stack pointer's cell.
pub open spec fn runs_safely(
    m: Machine,
    ops: Seq<StackOp>,
    unit: Seq<char>,
    table: spec_fn(Seq<char>) -> int,
) -> bool
    decreases ops.len(),
{
    if ops.len() == 0 {
        true
    } else {
        match ops[0] {
            StackOp::Push(g, i) => sp(m) != 0 && runs_safely(
                after_push(m, pushed_value(m, g, unit, i, table)),
                ops.drop_first(),
                unit,
                table,
            ),
            StackOp::Pop(g, i) => sp(m) > 16 && segment_address(m, g, unit, i, table) != 0 && match exec(
                m,
                pop_code(g, unit, i),
                table,
            ) {
                Some(m2) => runs_safely(m2, ops.drop_first(), unit, table),
                None => false,
            },
        }
    }
}

/// Stack-pointer conservation: for any sequence of pushes and pops that
/// never underflows, the stack pointer moves by the number of pushes minus
/// the number of pops.
pub proof fn stack_pointer_conservation(
    m: Machine,
    ops: Seq<StackOp>,
    unit: Seq<char>,
    table: spec_fn(Seq<char>) -> int,
)
    requires
        runs_safely(m, ops, unit, table),
    ensures
        exec(m, ops_code(ops, unit), table) matches Some(m2) && sp(m2) == sp(m) + net_pushes(ops),
    decreases ops.len(),
{
    if ops.len() == 0 {
    } else {
        let rest = ops.drop_first();
        lemma_exec_concat(m, op_code(ops[0], unit), ops_code(rest, unit), table);
        match ops[0] {
            StackOp::Push(g, i) => {
                push_raises_stack_pointer(m, g, unit, i, table);
                let m1 = after_push(m, pushed_value(m, g, unit, i, table));
                stack_pointer_conservation(m1, rest, unit, table);
            },
            StackOp::Pop(g, i) => {
                pop_lowers_stack_pointer(m, g, unit, i, table);
                let m1 = exec(m, pop_code(g, unit, i), table)->Some_0;
                stack_pointer_conservation(m1, rest, unit, table);
            },
        }
    }
}

proof fn lemma_register_symbols(table: spec_fn(Seq<char>) -> int)
    ensures
        symbol_value("LCL"@, table) == 1,
        symbol_value("ARG"@, table) == 2,
        symbol_value("THIS"@, table) == 3,
        symbol_value("THAT"@, table) == 4,
{
    reveal_strlit("LCL");
    reveal_strlit("ARG");
    reveal_strlit("THIS");
    reveal_strlit("THAT");
    assert(!is_digit("LCL"@[0]));
    assert(!is_digit("ARG"@[0]));
    assert(!is_digit("THIS"@[0]));
    assert(!is_digit("THAT"@[0]));
}

proof fn lemma_save(m: Machine, reg: Seq<char>, addr: int, table: spec_fn(Seq<char>) -> int)
    requires
        symbol_value(reg, table) == addr,
        sp(m) != 0,
    ensures
        exec(m, save_code(reg), table) == Some(after_push(m, (m.mem)(addr))),
{
    reveal_strlit("D=M");
    reveal_with_fuel(exec_upto, 3);
    lemma_at(m, reg, table);
    let m2 = Machine { a: addr, d: (m.mem)(addr), ..m };
    assert(exec(m, seq![at_symbol(reg), "D=M"@], table) == Some(m2));
    lemma_exec_concat(m, seq![at_symbol(reg), "D=M"@], push_d_code(), table);
    lemma_push_d(m2, table);
    assert(after_push(m2, (m.mem)(addr)) == after_push(m, (m.mem)(addr)));
}

/// The part of the calling sequence after the frame is saved, from SP = `p`.
pub open spec fn call_tail(f: Seq<char>, n_args: nat, k: nat) -> Seq<Seq<char>> {
    seq![
        "@SP"@,
        "D=M"@,
        "@LCL"@,
        "M=D"@,
        "@5"@,
        "D=D-A"@,
        at_number(n_args),
        "D=D-A"@,
        "@ARG"@,
        "M=D"@,
        at_symbol(f),
        "0;JMP"@,
        label_line(ret_label(f, k)),
    ]
}

proof fn lemma_call_tail(m: Machine, f: Seq<char>, n_args: nat, k: nat, table: spec_fn(
    Seq<char>,
) -> int)
    ensures
        exec(m, call_tail(f, n_args, k), table) matches Some(m2) && m2.mem == write(
            write(m.mem, 1, sp(m)),
            2,
            sp(m) - 5 - n_args,
        ),
{
    reveal_strlit("@SP");
    reveal_strlit("D=M");
    reveal_strlit("@LCL");
    reveal_strlit("M=D");
    reveal_strlit("@5");
    reveal_strlit("D=D-A");
    reveal_strlit("@ARG");
    reveal_strlit("0;JMP");
    reveal_strlit("(");
    reveal_with_fuel(exec_upto, 14);
    reveal_with_fuel(digits_value, 2);
    assert(seq!['5'].drop_last() =~= Seq::<char>::empty());
    assert("@5"@.drop_first() =~= seq!['5']);
    assert("@LCL"@.drop_first() =~= seq!['L', 'C', 'L']);
    assert("@ARG"@.drop_first() =~= seq!['A', 'R', 'G']);
    let p = sp(m);
    let m1 = Machine { a: 0, ..m };
    let m2 = Machine { d: p, ..m1 };
    let m3 = Machine { a: 1, ..m2 };
    let m4 = Machine { mem: write(m.mem, 1, p), ..m3 };
    let m5 = Machine { a: 5, ..m4 };
    let m6 = Machine { d: p - 5, ..m5 };
    let m7 = Machine { a: n_args as int, ..m6 };
    let m8 = Machine { d: p - 5 - n_args, ..m7 };
    let m9 = Machine { a: 2, ..m8 };
    let m10 = Machine { mem: write(m4.mem, 2, p - 5 - n_args), ..m9 };
    let m11 = Machine { a: symbol_value(f, table), ..m10 };
    assert(step(m, "@SP"@, table) == Some(m1));
    assert(step(m1, "D=M"@, table) == Some(m2));
    assert(step(m2, "@LCL"@, table) == Some(m3));
    assert(step(m3, "M=D"@, table) == Some(m4));
    assert(step(m4, "@5"@, table) == Some(m5));
    assert(step(m5, "D=D-A"@, table) == Some(m6));
    lemma_at_number(m6, n_args, table);
    assert(step(m7, "D=D-A"@, table) == Some(m8));
    assert(step(m8, "@ARG"@, table) == Some(m9));
    assert(step(m9, "M=D"@, table) == Some(m10));
    lemma_at(m10, f, table);
    assert(step(m11, "0;JMP"@, table) == Some(m11));
    assert(label_line(ret_label(f, k))[0] == '(');
    assert(step(m11, label_line(ret_label(f, k)), table) == Some(m11));
}

/// What the calling sequence leaves behind, from a state `m` with SP = p:
/// the return address and the caller's LCL, ARG, THIS, THAT at p .. p + 4,
/// SP and LCL at p + 5, ARG at p - n_args, THIS and THAT untouched.
pub open spec fn frame_built(
    m: Machine,
    mc: Machine,
    f: Seq<char>,
    n_args: nat,
    k: nat,
    table: spec_fn(Seq<char>) -> int,
) -> bool {
    let p = sp(m);
    &&& sp(mc) == p + 5
    &&& (mc.mem)(1) == p + 5
    &&& (mc.mem)(2) == p - n_args
    &&& (mc.mem)(3) == (m.mem)(3)
    &&& (mc.mem)(4) == (m.mem)(4)
    &&& (mc.mem)(p) == symbol_value(ret_label(f, k), table)
    &&& (mc.mem)(p + 1) == (m.mem)(1)
    &&& (mc.mem)(p + 2) == (m.mem)(2)
    &&& (mc.mem)(p + 3) == (m.mem)(3)
    &&& (mc.mem)(p + 4) == (m.mem)(4)
}

proof fn lemma_call(m: Machine, f: Seq<char>, n_args: nat, k: nat, table: spec_fn(
    Seq<char>,
) -> int)
    requires
        sp(m) >= 16,
    ensures
        exec(m, call_code(f, n_args, k), table) matches Some(mc) && frame_built(
            m,
            mc,
            f,
            n_args,
            k,
            table,
        ),
{
    reveal_strlit("D=A");
    reveal_with_fuel(exec_upto, 3);
    let ret = ret_label(f, k);
    let sv = symbol_value(ret, table);
    let head = seq![at_symbol(ret), "D=A"@];
    lemma_at(m, ret, table);
    let ma = Machine { a: sv, d: sv, ..m };
    assert(exec(m, head, table) == Some(ma));
    lemma_register_symbols(table);
    lemma_push_d(ma, table);
    let m1 = after_push(ma, sv);
    lemma_save(m1, "LCL"@, 1, table);
    let m2 = after_push(m1, (m1.mem)(1));
    lemma_save(m2, "ARG"@, 2, table);
    let m3 = after_push(m2, (m2.mem)(2));
    lemma_save(m3, "THIS"@, 3, table);
    let m4 = after_push(m3, (m3.mem)(3));
    lemma_save(m4, "THAT"@, 4, table);
    let m5 = after_push(m4, (m4.mem)(4));
    lemma_call_tail(m5, f, n_args, k, table);
    let c1 = head + push_d_code();
    let c2 = c1 + save_code("LCL"@);
    let c3 = c2 + save_code("ARG"@);
    let c4 = c3 + save_code("THIS"@);
    let c5 = c4 + save_code("THAT"@);
    lemma_exec_concat(m, head, push_d_code(), table);
    lemma_exec_concat(m, c1, save_code("LCL"@), table);
    lemma_exec_concat(m, c2, save_code("ARG"@), table);
    lemma_exec_concat(m, c3, save_code("THIS"@), table);
    lemma_exec_concat(m, c4, save_code("THAT"@), table);
    lemma_exec_concat(m, c5, call_tail(f, n_args, k), table);
    assert(call_code(f, n_args, k) == c5 + call_tail(f, n_args, k));
}

/// An `@` instruction line whose symbol has value `v`.
pub open spec fn loads(line: Seq<char>, v: int, table: spec_fn(Seq<char>) -> int) -> bool {
    line.len() > 0 && line[0] == '@' && symbol_value(line.drop_first(), table) == v
}

proof fn lemma_restore(
    m: Machine,
    offset: Seq<char>,
    o: int,
    target: Seq<char>,
    t: int,
    table: spec_fn(Seq<char>) -> int,
)
    requires
        loads(offset, o, table),
        loads(target, t, table),
    ensures
        exec(m, restore_code(offset, target), table) == Some(
            Machine {
                a: t,
                d: (m.mem)((m.mem)(13) - o),
                mem: write(m.mem, t, (m.mem)((m.mem)(13) - o)),
            },
        ),
{
    reveal_strlit("@R13");
    reveal_strlit("D=M");
    reveal_strlit("A=D-A");
    reveal_strlit("M=D");
    reveal_with_fuel(exec_upto, 8);
    reveal_with_fuel(digits_value, 3);
    assert("@R13"@.drop_first() =~= seq!['R', '1', '3']);
    assert(seq!['R', '1', '3'].drop_first() =~= seq!['1', '3']);
    assert(seq!['1', '3'].drop_last() =~= seq!['1']);
    assert(seq!['1'].drop_last() =~= Seq::<char>::empty());
    let frame = (m.mem)(13);
    let v = (m.mem)(frame - o);
    let m1 = Machine { a: 13, ..m };
    let m2 = Machine { d: frame, ..m1 };
    let m3 = Machine { a: o, ..m2 };
    let m4 = Machine { a: frame - o, ..m3 };
    let m5 = Machine { d: v, ..m4 };
    let m6 = Machine { a: t, ..m5 };
    assert(step(m, "@R13"@, table) == Some(m1));
    assert(step(m1, "D=M"@, table) == Some(m2));
    assert(step(m2, offset, table) == Some(m3));
    assert(step(m3, "A=D-A"@, table) == Some(m4));
    assert(step(m4, "D=M"@, table) == Some(m5));
    assert(step(m5, target, table) == Some(m6));
}

proof fn lemma_loads_literals(table: spec_fn(Seq<char>) -> int)
    ensures
        loads("@2"@, 2, table),
        loads("@3"@, 3, table),
        loads("@4"@, 4, table),
        loads("@5"@, 5, table),
        loads("@THIS"@, 3, table),
        loads("@ARG"@, 2, table),
        loads("@LCL"@, 1, table),
        loads("@THAT"@, 4, table),
        loads("@R13"@, 13, table),
        loads("@R14"@, 14, table),
{
    reveal_strlit("@2");
    reveal_strlit("@3");
    reveal_strlit("@4");
    reveal_strlit("@5");
    reveal_strlit("@THIS");
    reveal_strlit("@ARG");
    reveal_strlit("@LCL");
    reveal_strlit("@THAT");
    reveal_strlit("@R13");
    reveal_strlit("@R14");
    reveal_with_fuel(digits_value, 3);
    assert("@2"@.drop_first() =~= seq!['2']);
    assert("@3"@.drop_first() =~= seq!['3']);
    assert("@4"@.drop_first() =~= seq!['4']);
    assert("@5"@.drop_first() =~= seq!['5']);
    assert(seq!['2'].drop_last() =~= Seq::<char>::empty());
    assert(seq!['3'].drop_last() =~= Seq::<char>::empty());
    assert(seq!['4'].drop_last() =~= Seq::<char>::empty());
    assert(seq!['5'].drop_last() =~= Seq::<char>::empty());
    assert("@THIS"@.drop_first() =~= seq!['T', 'H', 'I', 'S']);
    assert("@ARG"@.drop_first() =~= seq!['A', 'R', 'G']);
    assert("@LCL"@.drop_first() =~= seq!['L', 'C', 'L']);
    assert("@THAT"@.drop_first() =~= seq!['T', 'H', 'A', 'T']);
    assert("@R13"@.drop_first() =~= seq!['R', '1', '3']);
    assert("@R14"@.drop_first() =~= seq!['R', '1', '4']);
    assert(seq!['R', '1', '3'].drop_first() =~= seq!['1', '3']);
    assert(seq!['R', '1', '4'].drop_first() =~= seq!['1', '4']);
    assert(seq!['1', '3'].drop_last() =~= seq!['1']);
    assert(seq!['1', '4'].drop_last() =~= seq!['1']);
    assert(seq!['1'].drop_last() =~= Seq::<char>::empty());
}

/// The first part of the return sequence: frame base to R13, return address
/// to R14.
pub open spec fn return_head() -> Seq<Seq<char>> {
    seq![
        "@LCL"@,
        "D=M"@,
        "@R13"@,
        "M=D"@,
        "@R13"@,
        "D=M"@,
        "@5"@,
        "A=D-A"@,
        "D=M"@,
        "@R14"@,
        "M=D"@,
    ]
}

/// The part of the return sequence after the pop: the value to *ARG, SP to
/// ARG + 1, THAT from frame - 1.
pub open spec fn return_middle() -> Seq<Seq<char>> {
    seq![
        "@ARG"@,
        "A=M"@,
        "M=D"@,
        "D=A+1"@,
        "@SP"@,
        "M=D"@,
        "@R13"@,
        "A=M-1"@,
        "D=M"@,
        "@THAT"@,
        "M=D"@,
    ]
}

proof fn lemma_return_head(m: Machine, table: spec_fn(Seq<char>) -> int)
    requires
        (m.mem)(1) >= 20,
    ensures
        exec(m, return_head(), table) matches Some(m2) && m2.mem == write(
            write(m.mem, 13, (m.mem)(1)),
            14,
            (m.mem)((m.mem)(1) - 5),
        ),
{
    reveal_strlit("D=M");
    reveal_strlit("M=D");
    reveal_strlit("A=D-A");
    reveal_with_fuel(exec_upto, 12);
    lemma_loads_literals(table);
    let frame = (m.mem)(1);
    let m1 = Machine { a: 1, ..m };
    let m2 = Machine { d: frame, ..m1 };
    let m3 = Machine { a: 13, ..m2 };
    let m4 = Machine { mem: write(m.mem, 13, frame), ..m3 };
    let m5 = Machine { a: 13, ..m4 };
    let m6 = Machine { d: frame, ..m5 };
    let m7 = Machine { a: 5, ..m6 };
    let m8 = Machine { a: frame - 5, ..m7 };
    let m9 = Machine { d: (m.mem)(frame - 5), ..m8 };
    let m10 = Machine { a: 14, ..m9 };
    let m11 = Machine { mem: write(m4.mem, 14, (m.mem)(frame - 5)), ..m10 };
    assert(step(m, "@LCL"@, table) == Some(m1));
    assert(step(m1, "D=M"@, table) == Some(m2));
    assert(step(m2, "@R13"@, table) == Some(m3));
    assert(step(m3, "M=D"@, table) == Some(m4));
    assert(step(m4, "@R13"@, table) == Some(m5));
    assert(step(m5, "D=M"@, table) == Some(m6));
    assert(step(m6, "@5"@, table) == Some(m7));
    assert(step(m7, "A=D-A"@, table) == Some(m8));
    assert(step(m8, "D=M"@, table) == Some(m9));
    assert(step(m9, "@R14"@, table) == Some(m10));
    assert(step(m10, "M=D"@, table) == Some(m11));
}

proof fn lemma_return_middle(m: Machine, table: spec_fn(Seq<char>) -> int)
    ensures
        exec(m, return_middle(), table) matches Some(m2) && m2.mem == write(
            write(write(m.mem, (m.mem)(2), m.d), 0, (m.mem)(2) + 1),
            4,
            (write(write(m.mem, (m.mem)(2), m.d), 0, (m.mem)(2) + 1))((write(
                write(m.mem, (m.mem)(2), m.d),
                0,
                (m.mem)(2) + 1,
            ))(13) - 1),
        ),
{
    reveal_strlit("@SP");
    reveal_strlit("A=M");
    reveal_strlit("M=D");
    reveal_strlit("D=A+1");
    reveal_strlit("A=M-1");
    reveal_strlit("D=M");
    reveal_with_fuel(exec_upto, 12);
    lemma_loads_literals(table);
    let argp = (m.mem)(2);
    let m1 = Machine { a: 2, ..m };
    let m2 = Machine { a: argp, ..m1 };
    let m3 = Machine { mem: write(m.mem, argp, m.d), ..m2 };
    let m4 = Machine { d: argp + 1, ..m3 };
    let m5 = Machine { a: 0, ..m4 };
    let m6 = Machine { mem: write(m3.mem, 0, argp + 1), ..m5 };
    let m7 = Machine { a: 13, ..m6 };
    let m8 = Machine { a: (m6.mem)(13) - 1, ..m7 };
    let m9 = Machine { d: (m6.mem)((m6.mem)(13) - 1), ..m8 };
    let m10 = Machine { a: 4, ..m9 };
    let m11 = Machine { mem: write(m6.mem, 4, m9.d), ..m10 };
    assert(step(m, "@ARG"@, table) == Some(m1));
    assert(step(m1, "A=M"@, table) == Some(m2));
    assert(step(m2, "M=D"@, table) == Some(m3));
    assert(step(m3, "D=A+1"@, table) == Some(m4));
    assert(step(m4, "@SP"@, table) == Some(m5));
    assert(step(m5, "M=D"@, table) == Some(m6));
    assert(step(m6, "@R13"@, table) == Some(m7));
    assert(step(m7, "A=M-1"@, table) == Some(m8));
    assert(step(m8, "D=M"@, table) == Some(m9));
    assert(step(m9, "@THAT"@, table) == Some(m10));
    assert(step(m10, "M=D"@, table) == Some(m11));
}

proof fn lemma_return(m: Machine, table: spec_fn(Seq<char>) -> int)
    requires
        (m.mem)(1) >= 20,
        15 <= (m.mem)(2) < (m.mem)(1) - 4,
        sp(m) > 16,
    ensures
        exec(m, return_code(), table) matches Some(mr) && {
            let frame = (m.mem)(1);
            let argp = (m.mem)(2);
            &&& sp(mr) == argp + 1
            &&& (mr.mem)(argp) == (m.mem)(sp(m) - 1)
            &&& (mr.mem)(1) == (m.mem)(frame - 4)
            &&& (mr.mem)(2) == (m.mem)(frame - 3)
            &&& (mr.mem)(3) == (m.mem)(frame - 2)
            &&& (mr.mem)(4) == (m.mem)(frame - 1)
        },
{
    reveal_strlit("A=M");
    reveal_strlit("0;JMP");
    reveal_with_fuel(exec_upto, 4);
    lemma_loads_literals(table);
    let last = seq!["@R14"@, "A=M"@, "0;JMP"@];
    let r1 = restore_code("@2"@, "@THIS"@);
    let r2 = restore_code("@3"@, "@ARG"@);
    let r3 = restore_code("@4"@, "@LCL"@);
    let c1 = return_head() + pop_to_d_code();
    let c2 = c1 + return_middle();
    let c3 = c2 + r1;
    let c4 = c3 + r2;
    let c5 = c4 + r3;
    assert(return_code() == c5 + last);

    lemma_return_head(m, table);
    let mh = exec(m, return_head(), table)->Some_0;
    lemma_pop_to_d(mh, table);
    let mp = after_pop(mh);
    lemma_exec_concat(m, return_head(), pop_to_d_code(), table);
    lemma_return_middle(mp, table);
    let mm = exec(mp, return_middle(), table)->Some_0;
    lemma_exec_concat(m, c1, return_middle(), table);
    lemma_restore(mm, "@2"@, 2, "@THIS"@, 3, table);
    let ma = exec(mm, r1, table)->Some_0;
    lemma_exec_concat(m, c2, r1, table);
    lemma_restore(ma, "@3"@, 3, "@ARG"@, 2, table);
    let mb = exec(ma, r2, table)->Some_0;
    lemma_exec_concat(m, c3, r2, table);
    lemma_restore(mb, "@4"@, 4, "@LCL"@, 1, table);
    let mc = exec(mb, r3, table)->Some_0;
    lemma_exec_concat(m, c4, r3, table);
    let md = Machine { a: 14, ..mc };
    let me = Machine { a: (mc.mem)(14), ..md };
    assert(step(mc, "@R14"@, table) == Some(md));
    assert(step(md, "A=M"@, table) == Some(me));
    assert(step(me, "0;JMP"@, table) == Some(me));
    assert(exec(mc, last, table) == Some(me));
    lemma_exec_concat(m, c5, last, table);
}

/// Call/return symmetry. A call of `f` with `n_args` arguments, made with
/// the stack above the registers, builds the callee's frame; when the callee
/// later returns with that frame intact (LCL, ARG and the saved words as the
/// call left them, something on its stack), the caller's LCL, ARG, THIS and
/// THAT are back to their values before the call, and the stack pointer is
/// the one before the call minus `n_args` plus one: one slot, holding the
/// returned value, remains.
pub proof fn call_return_symmetry(
    m0: Machine,
    f: Seq<char>,
    n_args: nat,
    k: nat,
    m1: Machine,
    table: spec_fn(Seq<char>) -> int,
)
    requires
        sp(m0) - n_args >= 16,
        (m1.mem)(1) == sp(m0) + 5,
        (m1.mem)(2) == sp(m0) - n_args,
        (m1.mem)(sp(m0) + 1) == (m0.mem)(1),
        (m1.mem)(sp(m0) + 2) == (m0.mem)(2),
        (m1.mem)(sp(m0) + 3) == (m0.mem)(3),
        (m1.mem)(sp(m0) + 4) == (m0.mem)(4),
        sp(m1) > 16,
    ensures
        exec(m0, call_code(f, n_args, k), table) matches Some(mc) && frame_built(
            m0,
            mc,
            f,
            n_args,
            k,
            table,
        ),
        exec(m1, return_code(), table) matches Some(mr) && {
            &&& sp(mr) == sp(m0) - n_args + 1
            &&& (mr.mem)(sp(m0) - n_args) == (m1.mem)(sp(m1) - 1)
            &&& (mr.mem)(1) == (m0.mem)(1)
            &&& (mr.mem)(2) == (m0.mem)(2)
            &&& (mr.mem)(3) == (m0.mem)(3)
            &&& (mr.mem)(4) == (m0.mem)(4)
        },
{
    lemma_call(m0, f, n_args, k, table);
    lemma_return(m1, table);
}

} // verus!
