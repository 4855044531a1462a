//! Expansion of VM commands into target instructions. The writer keeps the
//! emitted instruction lines together with the translation state: the name of
//! the current source unit, the comparison and call counters that keep
//! generated labels unique, and the function whose labels are being scoped.

use vstd::prelude::*;
use vstd::string::StringExecFns;
use crate::parser::ArithmeticLogical;
use crate::parser::Segment;
use crate::parser::Command;
use crate::parser::CommandModel;
use crate::parser::command_text;
use crate::chars::dec;
use crate::chars::decimal;

verus! {

/// The translation state together with everything emitted so far.
pub struct WriterModel {
    /// Emitted instruction lines, in order.
    pub code: Seq<Seq<char>>,
    /// Name of the source unit being translated; qualifies `static` symbols.
    pub unit: Seq<char>,
    /// Comparisons translated so far; numbers their branch labels.
    pub comparisons: nat,
    /// Calls translated so far; numbers their return labels.
    pub calls: nat,
    /// The function whose body is being translated, if any.
    pub scope: Option<Seq<char>>,
}

/// `w` with `extra` appended to its code.
pub open spec fn emit(w: WriterModel, extra: Seq<Seq<char>>) -> WriterModel {
    WriterModel { code: w.code + extra, ..w }
}

/// `@` followed by a symbol.
pub open spec fn at_symbol(name: Seq<char>) -> Seq<char> {
    "@"@ + name
}

/// `@` followed by a decimal constant.
pub open spec fn at_number(n: nat) -> Seq<char> {
    "@"@ + dec(n)
}

/// The label pseudo-instruction `(name)`.
pub open spec fn label_line(name: Seq<char>) -> Seq<char> {
    "("@ + name + ")"@
}

/// Store D on top of the stack and advance the stack pointer.
pub open spec fn push_d_code() -> Seq<Seq<char>> {
    seq!["@SP"@, "A=M"@, "M=D"@, "@SP"@, "M=M+1"@]
}

/// Retreat the stack pointer and load the value it then points at into D.
pub open spec fn pop_to_d_code() -> Seq<Seq<char>> {
    seq!["@SP"@, "M=M-1"@, "A=M"@, "D=M"@]
}

/// Pop into D, apply the computation `line` to D, push D.
pub open spec fn unary_code(line: Seq<char>) -> Seq<Seq<char>> {
    pop_to_d_code() + seq![line] + push_d_code()
}

/// Pop the right operand into R13, pop the left one into D, compute `line`
/// (D op M, with A at R13), push D.
pub open spec fn binary_code(line: Seq<char>) -> Seq<Seq<char>> {
    pop_to_d_code() + seq!["@R13"@, "M=D"@] + pop_to_d_code() + seq!["@R13"@, line]
        + push_d_code()
}

/// The branch label of the comparison numbered `k`.
pub open spec fn cmp_label(k: nat) -> Seq<char> {
    "CMP."@ + dec(k)
}

/// The join label of the comparison numbered `k`.
pub open spec fn end_label(k: nat) -> Seq<char> {
    "END."@ + dec(k)
}

/// Compute left - right into D and push -1 when the jump `jump` is taken on
/// it, 0 otherwise; branch labels come from comparison number `k`.
pub open spec fn compare_code(jump: Seq<char>, k: nat) -> Seq<Seq<char>> {
    pop_to_d_code() + seq!["@R13"@, "M=D"@] + pop_to_d_code() + seq![
        "@R13"@,
        "D=D-M"@,
        at_symbol(cmp_label(k)),
        jump,
        "D=0"@,
        at_symbol(end_label(k)),
        "0;JMP"@,
        label_line(cmp_label(k)),
        "D=-1"@,
        label_line(end_label(k)),
    ] + push_d_code()
}

/// The instructions for an arithmetic or logical command, comparison `k`
/// supplying the labels where one is needed.
pub open spec fn arithmetic_code(op: ArithmeticLogical, k: nat) -> Seq<Seq<char>> {
    match op {
        ArithmeticLogical::Add => binary_code("D=D+M"@),
        ArithmeticLogical::Sub => binary_code("D=D-M"@),
        ArithmeticLogical::Neg => unary_code("D=-D"@),
        ArithmeticLogical::Eq => compare_code("D;JEQ"@, k),
        ArithmeticLogical::Gt => compare_code("D;JGT"@, k),
        ArithmeticLogical::Lt => compare_code("D;JLT"@, k),
        ArithmeticLogical::And => binary_code("D=D&M"@),
        ArithmeticLogical::Or => binary_code("D=D|M"@),
        ArithmeticLogical::Not => unary_code("D=!D"@),
    }
}

pub open spec fn is_comparison(op: ArithmeticLogical) -> bool {
    op == ArithmeticLogical::Eq || op == ArithmeticLogical::Gt || op == ArithmeticLogical::Lt
}

/// The symbol holding a segment's base: a base-pointer register, the fixed
/// temp base, or the per-unit symbol of a static variable.
pub open spec fn segment_base(g: Segment, unit: Seq<char>, index: nat) -> Seq<char> {
    match g {
        Segment::Argument => "ARG"@,
        Segment::Local => "LCL"@,
        Segment::Static => unit + "."@ + dec(index),
        Segment::This => "THIS"@,
        Segment::That => "THAT"@,
        Segment::Pointer => "THIS"@,
        Segment::Temp => "5"@,
        Segment::Constant => seq![],
    }
}

/// Set A to the address of `g[index]`, or to `index` itself for `constant`.
pub open spec fn address_code(g: Segment, unit: Seq<char>, index: nat) -> Seq<Seq<char>> {
    if g == Segment::Constant {
        seq![at_number(index)]
    } else {
        seq![at_number(index), "D=A"@, at_symbol(segment_base(g, unit, index))] + match g {
            Segment::Temp | Segment::Pointer => seq!["A=A+D"@],
            Segment::Static => seq![],
            _ => seq!["A=M+D"@],
        }
    }
}

/// The instructions for `push g index`.
pub open spec fn push_code(g: Segment, unit: Seq<char>, index: nat) -> Seq<Seq<char>> {
    address_code(g, unit, index) + seq![
        if g == Segment::Constant {
            "D=A"@
        } else {
            "D=M"@
        },
    ] + push_d_code()
}

/// The instructions for `pop g index`: the address goes to R13 before the
/// value is popped.
pub open spec fn pop_code(g: Segment, unit: Seq<char>, index: nat) -> Seq<Seq<char>> {
    address_code(g, unit, index) + seq!["D=A"@, "@R13"@, "M=D"@] + pop_to_d_code() + seq![
        "@R13"@,
        "A=M"@,
        "M=D"@,
    ]
}

/// Push the value of the base-pointer register `register`.
pub open spec fn save_code(register: Seq<char>) -> Seq<Seq<char>> {
    seq![at_symbol(register), "D=M"@] + push_d_code()
}

/// The return label of call number `k`, to function `f`.
pub open spec fn ret_label(f: Seq<char>, k: nat) -> Seq<char> {
    f + "$ret."@ + dec(k)
}

/// The calling sequence for `call f n_args` as call number `k`: push the
/// return address and the caller's LCL, ARG, THIS and THAT, set LCL to the
/// stack pointer and ARG to SP - 5 - n_args, jump to `f`, and mark the return
/// point.
pub open spec fn call_code(f: Seq<char>, n_args: nat, k: nat) -> Seq<Seq<char>> {
    seq![at_symbol(ret_label(f, k)), "D=A"@] + push_d_code() + save_code("LCL"@) + save_code(
        "ARG"@,
    ) + save_code("THIS"@) + save_code("THAT"@) + seq![
        "@SP"@,
        "D=M"@,
        "@LCL"@,
        "M=D"@,
        "@5"@,
        "D=D-A"@,
        at_number(n_args),
        "D=D-A"@,
        "@ARG"@,
        "M=D"@,
        at_symbol(f),
        "0;JMP"@,
        label_line(ret_label(f, k)),
    ]
}

/// Load the word `offset` below the saved frame base (R13) into the register
/// addressed by `target`.
pub open spec fn restore_code(offset: Seq<char>, target: Seq<char>) -> Seq<Seq<char>> {
    seq!["@R13"@, "D=M"@, offset, "A=D-A"@, "D=M"@, target, "M=D"@]
}

/// The return sequence: frame base to R13, return address to R14, the
/// returned value to *ARG, SP to ARG + 1, then THAT, THIS, ARG and LCL from
/// frame - 1 .. frame - 4, and a jump to the return address.
pub open spec fn return_code() -> Seq<Seq<char>> {
    seq![
        "@LCL"@,
        "D=M"@,
        "@R13"@,
        "M=D"@,
        "@R13"@,
        "D=M"@,
        "@5"@,
        "A=D-A"@,
        "D=M"@,
        "@R14"@,
        "M=D"@,
    ] + pop_to_d_code() + seq![
        "@ARG"@,
        "A=M"@,
        "M=D"@,
        "D=A+1"@,
        "@SP"@,
        "M=D"@,
        "@R13"@,
        "A=M-1"@,
        "D=M"@,
        "@THAT"@,
        "M=D"@,
    ] + restore_code("@2"@, "@THIS"@) + restore_code("@3"@, "@ARG"@) + restore_code(
        "@4"@,
        "@LCL"@,
    ) + seq!["@R14"@, "A=M"@, "0;JMP"@]
}

/// `n` pushes of zero.
pub open spec fn zero_locals(n: nat) -> Seq<Seq<char>>
    decreases n,
{
    if n == 0 {
        seq![]
    } else {
        zero_locals((n - 1) as nat) + seq!["D=0"@] + push_d_code()
    }
}

/// The entry of function `f`: its label, then one zero push per local.
pub open spec fn function_code(f: Seq<char>, n_locals: nat) -> Seq<Seq<char>> {
    seq![label_line(f)] + zero_locals(n_locals)
}

/// Label `l` as written inside the function `scope` (or at top level).
pub open spec fn qualified(scope: Option<Seq<char>>, l: Seq<char>) -> Seq<char> {
    let prefix = match scope {
        Some(f) => f,
        None => seq![],
    };
    prefix + "$"@ + l
}

/// The program prologue: SP = 256, then a call of the entry function.
pub open spec fn bootstrap_code() -> Seq<Seq<char>> {
    seq!["// bootstrap"@, "@256"@, "D=A"@, "@SP"@, "M=D"@] + call_code("Sys.init"@, 0, 0)
}

/// The state after an arithmetic or logical command.
pub open spec fn after_arithmetic(w: WriterModel, op: ArithmeticLogical) -> WriterModel {
    if is_comparison(op) {
        WriterModel {
            comparisons: w.comparisons + 1,
            ..emit(w, arithmetic_code(op, w.comparisons))
        }
    } else {
        emit(w, arithmetic_code(op, w.comparisons))
    }
}

/// The state after a call of `f` with `n_args` arguments.
pub open spec fn after_call(w: WriterModel, f: Seq<char>, n_args: nat) -> WriterModel {
    WriterModel { calls: w.calls + 1, ..emit(w, call_code(f, n_args, w.calls)) }
}

/// The state after entering function `f` with `n_locals` locals.
pub open spec fn after_function(w: WriterModel, f: Seq<char>, n_locals: nat) -> WriterModel {
    WriterModel { scope: Some(f), ..emit(w, function_code(f, n_locals)) }
}

/// The state after the command `m`, its comment line not included.
pub open spec fn apply(w: WriterModel, m: CommandModel) -> WriterModel {
    match m {
        CommandModel::ArithmeticLogical(op) => after_arithmetic(w, op),
        CommandModel::Push(g, i) => emit(w, push_code(g, w.unit, i as nat)),
        CommandModel::Pop(g, i) => emit(w, pop_code(g, w.unit, i as nat)),
        CommandModel::Label(l) => emit(w, seq![label_line(qualified(w.scope, l))]),
        CommandModel::Goto(l) => emit(w, seq![at_symbol(qualified(w.scope, l)), "0;JMP"@]),
        CommandModel::If(l) => emit(
            w,
            pop_to_d_code() + seq![at_symbol(qualified(w.scope, l)), "D;JNE"@],
        ),
        CommandModel::Function(f, n) => after_function(w, f, n as nat),
        CommandModel::Return => emit(w, return_code()),
        CommandModel::Call(f, n) => after_call(w, f, n as nat),
    }
}

/// Whether the counters leave room for the command `m`.
pub open spec fn has_room(w: WriterModel, m: CommandModel) -> bool {
    match m {
        CommandModel::ArithmeticLogical(op) => is_comparison(op) ==> w.comparisons < usize::MAX,
        CommandModel::Call(_, _) => w.calls < usize::MAX,
        _ => true,
    }
}

/// The comment line that precedes a command's instructions.
pub open spec fn comment_line(m: CommandModel) -> Seq<char> {
    "// "@ + command_text(m)
}

/// The state after translating command `m`: its comment, then its code.
pub open spec fn translate_command(w: WriterModel, m: CommandModel) -> WriterModel {
    apply(emit(w, seq![comment_line(m)]), m)
}

fn at_sym(name: &str) -> (r: String)
    ensures
        r@ == at_symbol(name@),
{
    String::from_str("@").concat(name)
}

fn at_num(n: usize) -> (r: String)
    ensures
        r@ == at_number(n as nat),
{
    let d = decimal(n);
    String::from_str("@").concat(d.as_str())
}

fn label_of(name: &str) -> (r: String)
    ensures
        r@ == label_line(name@),
{
    String::from_str("(").concat(name).concat(")")
}

/// A code writer: the instruction lines emitted so far and the state that
/// the next commands are translated in.
pub struct CodeWriter {
    lines: Vec<String>,
    file_name: String,
    logical_counter: usize,
    call_counter: usize,
    current_function: Option<String>,
}

pub open spec fn lines_view(v: Seq<String>) -> Seq<Seq<char>> {
    Seq::new(v.len(), |k: int| v[k]@)
}

pub open spec fn option_view(o: Option<String>) -> Option<Seq<char>> {
    match o {
        Some(s) => Some(s@),
        None => None,
    }
}

impl View for CodeWriter {
    type V = WriterModel;

    closed spec fn view(&self) -> WriterModel {
        WriterModel {
            code: lines_view(self.lines@),
            unit: self.file_name@,
            comparisons: self.logical_counter as nat,
            calls: self.call_counter as nat,
            scope: option_view(self.current_function),
        }
    }
}

impl CodeWriter {
    fn emit_string(&mut self, line: String)
        ensures
            final(self)@ == emit(old(self)@, seq![line@]),
    {
        self.lines.push(line);
        assert(lines_view(self.lines@) =~= old(self)@.code + seq![line@]);
    }

    fn emit_str(&mut self, line: &str)
        ensures
            final(self)@ == emit(old(self)@, seq![line@]),
    {
        self.emit_string(String::from_str(line));
    }

    fn push_d(&mut self)
        ensures
            final(self)@ == emit(old(self)@, push_d_code()),
    {
        let ghost w = self@;
        self.emit_str("@SP");
        self.emit_str("A=M");
        self.emit_str("M=D");
        self.emit_str("@SP");
        self.emit_str("M=M+1");
        assert(self@.code =~= w.code + push_d_code());
    }

    fn pop_to_d(&mut self)
        ensures
            final(self)@ == emit(old(self)@, pop_to_d_code()),
    {
        let ghost w = self@;
        self.emit_str("@SP");
        self.emit_str("M=M-1");
        self.emit_str("A=M");
        self.emit_str("D=M");
        assert(self@.code =~= w.code + pop_to_d_code());
    }

    fn unary_op(&mut self, line: &str)
        ensures
            final(self)@ == emit(old(self)@, unary_code(line@)),
    {
        let ghost w = self@;
        self.pop_to_d();
        self.emit_str(line);
        self.push_d();
        assert(self@.code =~= w.code + unary_code(line@));
    }

    fn binary_op(&mut self, line: &str)
        ensures
            final(self)@ == emit(old(self)@, binary_code(line@)),
    {
        let ghost w = self@;
        self.pop_to_d();
        self.emit_str("@R13");
        self.emit_str("M=D");
        self.pop_to_d();
        self.emit_str("@R13");
        self.emit_str(line);
        self.push_d();
        assert(self@.code =~= w.code + binary_code(line@));
    }

    fn cmp(&mut self, jump: &str)
        requires
            old(self)@.comparisons < usize::MAX,
        ensures
            final(self)@ == (WriterModel {
                comparisons: old(self)@.comparisons + 1,
                ..emit(old(self)@, compare_code(jump@, old(self)@.comparisons))
            }),
    {
        let ghost w = self@;
        let k = self.logical_counter;
        let c = String::from_str("CMP.").concat(decimal(k).as_str());
        let e = String::from_str("END.").concat(decimal(k).as_str());
        self.pop_to_d();
        self.emit_str("@R13");
        self.emit_str("M=D");
        self.pop_to_d();
        self.emit_str("@R13");
        self.emit_str("D=D-M");
        self.emit_string(at_sym(c.as_str()));
        self.emit_str(jump);
        self.emit_str("D=0");
        self.emit_string(at_sym(e.as_str()));
        self.emit_str("0;JMP");
        self.emit_string(label_of(c.as_str()));
        self.emit_str("D=-1");
        self.emit_string(label_of(e.as_str()));
        self.push_d();
        self.logical_counter = k + 1;
        assert(self@.code =~= w.code + compare_code(jump@, w.comparisons));
    }

    /// Emits the instructions of an arithmetic or logical command; any other
    /// command leaves the writer as it is.
    pub fn write_arithmetic(&mut self, command: Command)
        requires
            has_room(old(self)@, command@),
        ensures
            final(self)@ == match command@ {
                CommandModel::ArithmeticLogical(op) => after_arithmetic(old(self)@, op),
                _ => old(self)@,
            },
    {
        let op = match command {
            Command::ArithmeticLogical(op) => op,
            _ => {
                return;
            },
        };
        match op {
            ArithmeticLogical::Add => self.binary_op("D=D+M"),
            ArithmeticLogical::Sub => self.binary_op("D=D-M"),
            ArithmeticLogical::Neg => self.unary_op("D=-D"),
            ArithmeticLogical::Eq => self.cmp("D;JEQ"),
            ArithmeticLogical::Gt => self.cmp("D;JGT"),
            ArithmeticLogical::Lt => self.cmp("D;JLT"),
            ArithmeticLogical::And => self.binary_op("D=D&M"),
            ArithmeticLogical::Or => self.binary_op("D=D|M"),
            ArithmeticLogical::Not => self.unary_op("D=!D"),
        }
    }

    fn segment_to_addr(&self, segment: Segment, index: usize) -> (r: String)
        ensures
            r@ == segment_base(segment, self@.unit, index as nat),
    {
        match segment {
            Segment::Argument => String::from_str("ARG"),
            Segment::Local => String::from_str("LCL"),
            Segment::Static => self.file_name.clone().concat(".").concat(decimal(index).as_str()),
            Segment::This => String::from_str("THIS"),
            Segment::That => String::from_str("THAT"),
            Segment::Pointer => String::from_str("THIS"),
            Segment::Temp => String::from_str("5"),
            Segment::Constant => String::new(),
        }
    }

    fn set_a(&mut self, segment: Segment, index: usize)
        ensures
            final(self)@ == emit(old(self)@, address_code(segment, old(self)@.unit, index as nat)),
    {
        let ghost w = self@;
        if segment == Segment::Constant {
            self.emit_string(at_num(index));
        } else {
            let addr = self.segment_to_addr(segment, index);
            self.emit_string(at_num(index));
            self.emit_str("D=A");
            self.emit_string(at_sym(addr.as_str()));
            match segment {
                Segment::Temp | Segment::Pointer => self.emit_str("A=A+D"),
                Segment::Static => {},
                _ => self.emit_str("A=M+D"),
            }
        }
        assert(self@.code =~= w.code + address_code(segment, w.unit, index as nat));
    }

    /// Emits the instructions of a `push` or `pop`; any other command leaves
    /// the writer as it is.
    pub fn write_push_pop(&mut self, command: Command)
        ensures
            final(self)@ == match command@ {
                CommandModel::Push(g, i) => emit(old(self)@, push_code(g, old(self)@.unit, i as nat)),
                CommandModel::Pop(g, i) => emit(old(self)@, pop_code(g, old(self)@.unit, i as nat)),
                _ => old(self)@,
            },
    {
        let ghost w = self@;
        match command {
            Command::Push(segment, index) => {
                self.set_a(segment, index);
                if segment == Segment::Constant {
                    self.emit_str("D=A");
                } else {
                    self.emit_str("D=M");
                }
                self.push_d();
                assert(self@.code =~= w.code + push_code(segment, w.unit, index as nat));
            },
            Command::Pop(segment, index) => {
                self.set_a(segment, index);
                self.emit_str("D=A");
                self.emit_str("@R13");
                self.emit_str("M=D");
                self.pop_to_d();
                self.emit_str("@R13");
                self.emit_str("A=M");
                self.emit_str("M=D");
                assert(self@.code =~= w.code + pop_code(segment, w.unit, index as nat));
            },
            _ => {},
        }
    }

    fn qualify(&self, label: &str) -> (r: String)
        ensures
            r@ == qualified(self@.scope, label@),
    {
        let prefix = match &self.current_function {
            Some(f) => f.clone(),
            None => String::new(),
        };
        prefix.concat("$").concat(label)
    }

    /// Emits label `label`, scoped by the current function.
    pub fn write_label(&mut self, label: &str)
        ensures
            final(self)@ == emit(old(self)@, seq![label_line(qualified(old(self)@.scope, label@))]),
    {
        let full = self.qualify(label);
        self.emit_string(label_of(full.as_str()));
    }

    /// Emits an unconditional jump to label `label` of the current function.
    pub fn write_goto(&mut self, label: &str)
        ensures
            final(self)@ == emit(
                old(self)@,
                seq![at_symbol(qualified(old(self)@.scope, label@)), "0;JMP"@],
            ),
    {
        let ghost w = self@;
        let full = self.qualify(label);
        self.emit_string(at_sym(full.as_str()));
        self.emit_str("0;JMP");
        assert(self@.code =~= w.code + seq![at_symbol(qualified(w.scope, label@)), "0;JMP"@]);
    }

    /// Pops the top of the stack and jumps to label `label` of the current
    /// function when it is non-zero.
    pub fn write_if(&mut self, label: &str)
        ensures
            final(self)@ == emit(
                old(self)@,
                pop_to_d_code() + seq![at_symbol(qualified(old(self)@.scope, label@)), "D;JNE"@],
            ),
    {
        let ghost w = self@;
        let full = self.qualify(label);
        self.pop_to_d();
        self.emit_string(at_sym(full.as_str()));
        self.emit_str("D;JNE");
        assert(self@.code =~= w.code + (pop_to_d_code() + seq![
            at_symbol(qualified(w.scope, label@)),
            "D;JNE"@,
        ]));
    }

    /// Emits the entry of function `function_name` with `n_vars` locals set
    /// to zero, and scopes the labels that follow by it.
    pub fn write_function(&mut self, function_name: &str, n_vars: usize)
        ensures
            final(self)@ == after_function(old(self)@, function_name@, n_vars as nat),
    {
        let ghost w = self@;
        self.emit_string(label_of(function_name));
        let mut i: usize = 0;
        while i < n_vars
            invariant
                i <= n_vars,
                self@ == emit(w, seq![label_line(function_name@)] + zero_locals(i as nat)),
            decreases n_vars - i,
        {
            let ghost before = self@;
            self.emit_str("D=0");
            self.push_d();
            i = i + 1;
            assert(self@.code =~= w.code + (seq![label_line(function_name@)] + zero_locals(
                i as nat,
            )));
        }
        self.current_function = Some(String::from_str(function_name));
        assert(self@.code =~= w.code + function_code(function_name@, n_vars as nat));
    }

    fn save(&mut self, register: &str)
        ensures
            final(self)@ == emit(old(self)@, save_code(register@)),
    {
        let ghost w = self@;
        self.emit_string(at_sym(register));
        self.emit_str("D=M");
        self.push_d();
        assert(self@.code =~= w.code + save_code(register@));
    }

    /// Emits the calling sequence for `call function_name n_args`, with a
    /// return label numbered by the call counter, and advances the counter.
    pub fn write_call(&mut self, function_name: &str, n_args: usize)
        requires
            old(self)@.calls < usize::MAX,
        ensures
            final(self)@ == after_call(old(self)@, function_name@, n_args as nat),
    {
        let ghost w = self@;
        let k = self.call_counter;
        let ret = String::from_str(function_name).concat("$ret.").concat(decimal(k).as_str());
        self.call_counter = k + 1;
        self.emit_string(at_sym(ret.as_str()));
        self.emit_str("D=A");
        self.push_d();
        self.save("LCL");
        self.save("ARG");
        self.save("THIS");
        self.save("THAT");
        self.emit_str("@SP");
        self.emit_str("D=M");
        self.emit_str("@LCL");
        self.emit_str("M=D");
        self.emit_str("@5");
        self.emit_str("D=D-A");
        self.emit_string(at_num(n_args));
        self.emit_str("D=D-A");
        self.emit_str("@ARG");
        self.emit_str("M=D");
        self.emit_string(at_sym(function_name));
        self.emit_str("0;JMP");
        self.emit_string(label_of(ret.as_str()));
        assert(self@.code =~= w.code + call_code(function_name@, n_args as nat, w.calls));
    }

    fn restore(&mut self, offset: &str, target: &str)
        ensures
            final(self)@ == emit(old(self)@, restore_code(offset@, target@)),
    {
        let ghost w = self@;
        self.emit_str("@R13");
        self.emit_str("D=M");
        self.emit_str(offset);
        self.emit_str("A=D-A");
        self.emit_str("D=M");
        self.emit_str(target);
        self.emit_str("M=D");
        assert(self@.code =~= w.code + restore_code(offset@, target@));
    }

    /// Emits the return sequence.
    pub fn write_return(&mut self)
        ensures
            final(self)@ == emit(old(self)@, return_code()),
    {
        let ghost w = self@;
        self.emit_str("@LCL");
        self.emit_str("D=M");
        self.emit_str("@R13");
        self.emit_str("M=D");
        self.emit_str("@R13");
        self.emit_str("D=M");
        self.emit_str("@5");
        self.emit_str("A=D-A");
        self.emit_str("D=M");
        self.emit_str("@R14");
        self.emit_str("M=D");
        self.pop_to_d();
        self.emit_str("@ARG");
        self.emit_str("A=M");
        self.emit_str("M=D");
        self.emit_str("D=A+1");
        self.emit_str("@SP");
        self.emit_str("M=D");
        self.emit_str("@R13");
        self.emit_str("A=M-1");
        self.emit_str("D=M");
        self.emit_str("@THAT");
        self.emit_str("M=D");
        self.restore("@2", "@THIS");
        self.restore("@3", "@ARG");
        self.restore("@4", "@LCL");
        self.emit_str("@R14");
        self.emit_str("A=M");
        self.emit_str("0;JMP");
        assert(self@.code =~= w.code + return_code());
    }

    /// Sets the name of the source unit that `static` symbols are qualified by.
    pub fn set_file_name(&mut self, file_name: String)
        ensures
            final(self)@ == (WriterModel { unit: file_name@, ..old(self)@ }),
    {
        self.file_name = file_name
    }

    /// Starts the source unit `file_name`: `static` symbols are qualified by
    /// it from now on, and labels are at top level until its first function.
    pub fn begin_unit(&mut self, file_name: String)
        ensures
            final(self)@ == (WriterModel { unit: file_name@, scope: None, ..old(self)@ }),
    {
        self.file_name = file_name;
        self.current_function = None;
    }

    /// A writer for a program whose first source unit is `file_name`, with
    /// the bootstrap already emitted.
    pub fn build(file_name: String) -> (r: CodeWriter)
        ensures
            r@ == (WriterModel {
                code: bootstrap_code(),
                unit: file_name@,
                comparisons: 0,
                calls: 1,
                scope: None,
            }),
    {
        let mut w = CodeWriter {
            lines: Vec::new(),
            file_name,
            logical_counter: 0,
            call_counter: 0,
            current_function: None,
        };
        assert(w@.code =~= seq![]);
        w.write_bootstrap();
        w
    }

    fn write_bootstrap(&mut self)
        requires
            old(self)@.calls == 0,
        ensures
            final(self)@ == (WriterModel { calls: 1, ..emit(old(self)@, bootstrap_code()) }),
    {
        let ghost w = self@;
        self.emit_str("// bootstrap");
        self.emit_str("@256");
        self.emit_str("D=A");
        self.emit_str("@SP");
        self.emit_str("M=D");
        self.write_call("Sys.init", 0);
        assert(self@.code =~= w.code + bootstrap_code());
    }

    /// The instruction lines emitted so far.
    pub fn lines(&self) -> (r: &Vec<String>)
        ensures
            lines_view(r@) == self@.code,
    {
        &self.lines
    }

    /// Emits a comment line holding the command in source form.
    pub fn write_comment(&mut self, command: &Command)
        ensures
            final(self)@ == emit(old(self)@, seq![comment_line(command@)]),
    {
        let text = command.to_text();
        self.emit_string(String::from_str("// ").concat(text.as_str()));
    }

    /// Translates one command: a comment line, then its instructions.
    pub fn write_command(&mut self, command: Command)
        requires
            has_room(old(self)@, command@),
        ensures
            final(self)@ == translate_command(old(self)@, command@),
    {
        self.write_comment(&command);
        match command {
            Command::ArithmeticLogical(_) => self.write_arithmetic(command),
            Command::Push(_, _) | Command::Pop(_, _) => self.write_push_pop(command),
            Command::Label(label) => self.write_label(label),
            Command::Goto(label) => self.write_goto(label),
            Command::If(label) => self.write_if(label),
            Command::Function(function_name, n_vars) => self.write_function(function_name, n_vars),
            Command::Return => self.write_return(),
            Command::Call(function_name, n_args) => self.write_call(function_name, n_args),
        }
    }

    /// The comparison and call counters: how many comparisons and calls
    /// have been translated, the bootstrap's call included.
    pub fn counters(&self) -> (r: (usize, usize))
        ensures
            r.0 == self@.comparisons,
            r.1 == self@.calls,
    {
        (self.logical_counter, self.call_counter)
    }
}

} // verus!
