//! VM source lines to `Command`s: the line grammar, its error cases, and a
//! forward-only reader over a whole source text.

use vstd::prelude::*;
use vstd::string::StrSliceExecFns;
use vstd::string::StringExecFns;
use crate::chars::chars_of;
use crate::chars::dec;
use crate::chars::decimal;
use crate::chars::is_whitespace;
use crate::chars::is_ws;
use crate::chars::index_value;
use crate::chars::parse_index;
use crate::chars::span_is;
use crate::chars::spans;
use crate::chars::spans_within;
use crate::chars::token_bounds;
use crate::chars::tokens;

verus! {

/// The memory segments a `push` or `pop` may name.
#[derive(Clone, Copy, Debug, PartialEq, Eq, Structural)]
pub enum Segment {
    Argument,
    Constant,
    Local,
    Static,
    This,
    That,
    Pointer,
    Temp,
}

impl Segment {
    /// The keyword that names the segment in VM source.
    pub open spec fn spec_name(self) -> Seq<char> {
        match self {
            Segment::Argument => "argument"@,
            Segment::Constant => "constant"@,
            Segment::Local => "local"@,
            Segment::Static => "static"@,
            Segment::This => "this"@,
            Segment::That => "that"@,
            Segment::Pointer => "pointer"@,
            Segment::Temp => "temp"@,
        }
    }

    pub fn name(&self) -> (r: &'static str)
        ensures
            r@ == self.spec_name(),
    {
        match self {
            Segment::Argument => "argument",
            Segment::Constant => "constant",
            Segment::Local => "local",
            Segment::Static => "static",
            Segment::This => "this",
            Segment::That => "that",
            Segment::Pointer => "pointer",
            Segment::Temp => "temp",
        }
    }
}

/// The segment whose keyword is `t`, if any.
pub open spec fn segment_named(t: Seq<char>) -> Option<Segment> {
    if t == "argument"@ {
        Some(Segment::Argument)
    } else if t == "constant"@ {
        Some(Segment::Constant)
    } else if t == "local"@ {
        Some(Segment::Local)
    } else if t == "static"@ {
        Some(Segment::Static)
    } else if t == "this"@ {
        Some(Segment::This)
    } else if t == "that"@ {
        Some(Segment::That)
    } else if t == "pointer"@ {
        Some(Segment::Pointer)
    } else if t == "temp"@ {
        Some(Segment::Temp)
    } else {
        None
    }
}

fn segment_of(s: &Vec<char>, from: usize, to: usize) -> (r: Option<Segment>)
    requires
        from <= to <= s.len(),
    ensures
        r == segment_named(s@.subrange(from as int, to as int)),
{
    if span_is(s, from, to, "argument") {
        Some(Segment::Argument)
    } else if span_is(s, from, to, "constant") {
        Some(Segment::Constant)
    } else if span_is(s, from, to, "local") {
        Some(Segment::Local)
    } else if span_is(s, from, to, "static") {
        Some(Segment::Static)
    } else if span_is(s, from, to, "this") {
        Some(Segment::This)
    } else if span_is(s, from, to, "that") {
        Some(Segment::That)
    } else if span_is(s, from, to, "pointer") {
        Some(Segment::Pointer)
    } else if span_is(s, from, to, "temp") {
        Some(Segment::Temp)
    } else {
        None
    }
}

/// Checks that `segment` names one of the eight segments.
pub fn validate_segment(segment: &str) -> (r: Result<Segment, String>)
    ensures
        match segment_named(segment@) {
            Some(g) => r == Ok::<Segment, String>(g),
            None => r is Err && r->Err_0@ == "Error: Invalid segment: "@ + segment@,
        },
{
    let s = chars_of(segment);
    assert(s@.subrange(0, s@.len() as int) == segment@);
    match segment_of(&s, 0, s.len()) {
        Some(g) => Ok(g),
        None => Err(String::from_str("Error: Invalid segment: ").concat(segment)),
    }
}

/// The nine operand-free arithmetic and logical commands.
#[derive(Clone, Copy, Debug, PartialEq, Eq, Structural)]
pub enum ArithmeticLogical {
    Add,
    Sub,
    Neg,
    Eq,
    Gt,
    Lt,
    And,
    Or,
    Not,
}

impl ArithmeticLogical {
    /// The keyword that names the operation in VM source.
    pub open spec fn spec_name(self) -> Seq<char> {
        match self {
            ArithmeticLogical::Add => "add"@,
            ArithmeticLogical::Sub => "sub"@,
            ArithmeticLogical::Neg => "neg"@,
            ArithmeticLogical::Eq => "eq"@,
            ArithmeticLogical::Gt => "gt"@,
            ArithmeticLogical::Lt => "lt"@,
            ArithmeticLogical::And => "and"@,
            ArithmeticLogical::Or => "or"@,
            ArithmeticLogical::Not => "not"@,
        }
    }

    pub fn name(&self) -> (r: &'static str)
        ensures
            r@ == self.spec_name(),
    {
        match self {
            ArithmeticLogical::Add => "add",
            ArithmeticLogical::Sub => "sub",
            ArithmeticLogical::Neg => "neg",
            ArithmeticLogical::Eq => "eq",
            ArithmeticLogical::Gt => "gt",
            ArithmeticLogical::Lt => "lt",
            ArithmeticLogical::And => "and",
            ArithmeticLogical::Or => "or",
            ArithmeticLogical::Not => "not",
        }
    }
}

/// The operation whose keyword is `t`, if any.
pub open spec fn operation_named(t: Seq<char>) -> Option<ArithmeticLogical> {
    if t == "add"@ {
        Some(ArithmeticLogical::Add)
    } else if t == "sub"@ {
        Some(ArithmeticLogical::Sub)
    } else if t == "neg"@ {
        Some(ArithmeticLogical::Neg)
    } else if t == "eq"@ {
        Some(ArithmeticLogical::Eq)
    } else if t == "gt"@ {
        Some(ArithmeticLogical::Gt)
    } else if t == "lt"@ {
        Some(ArithmeticLogical::Lt)
    } else if t == "and"@ {
        Some(ArithmeticLogical::And)
    } else if t == "or"@ {
        Some(ArithmeticLogical::Or)
    } else if t == "not"@ {
        Some(ArithmeticLogical::Not)
    } else {
        None
    }
}

fn operation_of(s: &Vec<char>, from: usize, to: usize) -> (r: Option<ArithmeticLogical>)
    requires
        from <= to <= s.len(),
    ensures
        r == operation_named(s@.subrange(from as int, to as int)),
{
    if span_is(s, from, to, "add") {
        Some(ArithmeticLogical::Add)
    } else if span_is(s, from, to, "sub") {
        Some(ArithmeticLogical::Sub)
    } else if span_is(s, from, to, "neg") {
        Some(ArithmeticLogical::Neg)
    } else if span_is(s, from, to, "eq") {
        Some(ArithmeticLogical::Eq)
    } else if span_is(s, from, to, "gt") {
        Some(ArithmeticLogical::Gt)
    } else if span_is(s, from, to, "lt") {
        Some(ArithmeticLogical::Lt)
    } else if span_is(s, from, to, "and") {
        Some(ArithmeticLogical::And)
    } else if span_is(s, from, to, "or") {
        Some(ArithmeticLogical::Or)
    } else if span_is(s, from, to, "not") {
        Some(ArithmeticLogical::Not)
    } else {
        None
    }
}

/// One VM command. Names borrow from the source line.
#[derive(Clone, Copy, Debug, PartialEq, Eq)]
pub enum Command<'a> {
    ArithmeticLogical(ArithmeticLogical),
    Push(Segment, usize),
    Pop(Segment, usize),
    Label(&'a str),
    Goto(&'a str),
    If(&'a str),
    Function(&'a str, usize),
    Return,
    Call(&'a str, usize),
}

/// A command with its names as character sequences.
pub enum CommandModel {
    ArithmeticLogical(ArithmeticLogical),
    Push(Segment, usize),
    Pop(Segment, usize),
    Label(Seq<char>),
    Goto(Seq<char>),
    If(Seq<char>),
    Function(Seq<char>, usize),
    Return,
    Call(Seq<char>, usize),
}

impl<'a> View for Command<'a> {
    type V = CommandModel;

    open spec fn view(&self) -> CommandModel {
        match *self {
            Command::ArithmeticLogical(op) => CommandModel::ArithmeticLogical(op),
            Command::Push(g, i) => CommandModel::Push(g, i),
            Command::Pop(g, i) => CommandModel::Pop(g, i),
            Command::Label(l) => CommandModel::Label(l@),
            Command::Goto(l) => CommandModel::Goto(l@),
            Command::If(l) => CommandModel::If(l@),
            Command::Function(f, n) => CommandModel::Function(f@, n),
            Command::Return => CommandModel::Return,
            Command::Call(f, n) => CommandModel::Call(f@, n),
        }
    }
}

/// Why a line is not a command.
#[derive(Clone, Copy, Debug, PartialEq, Eq, Structural)]
pub enum LineError {
    InvalidCommand,
    MissingSegment,
    InvalidSegment,
    MissingIndex,
    InvalidIndex,
    MissingName,
    MissingCount,
    InvalidCount,
    ExtraOperand,
}

impl LineError {
    /// The start of the message; the offending line follows it.
    pub open spec fn spec_prefix(self) -> Seq<char> {
        match self {
            LineError::InvalidCommand => "Error: Invalid command: "@,
            LineError::MissingSegment => "Error: Expected segment for: "@,
            LineError::InvalidSegment => "Error: Invalid segment for: "@,
            LineError::MissingIndex => "Error: Expected index for: "@,
            LineError::InvalidIndex => "Error: Expected numeric index for: "@,
            LineError::MissingName => "Error: Expected name for: "@,
            LineError::MissingCount => "Error: Expected count for: "@,
            LineError::InvalidCount => "Error: Expected numeric count for: "@,
            LineError::ExtraOperand => "Error: Unexpected operand for: "@,
        }
    }

    pub fn prefix(&self) -> (r: &'static str)
        ensures
            r@ == self.spec_prefix(),
    {
        match self {
            LineError::InvalidCommand => "Error: Invalid command: ",
            LineError::MissingSegment => "Error: Expected segment for: ",
            LineError::InvalidSegment => "Error: Invalid segment for: ",
            LineError::MissingIndex => "Error: Expected index for: ",
            LineError::InvalidIndex => "Error: Expected numeric index for: ",
            LineError::MissingName => "Error: Expected name for: ",
            LineError::MissingCount => "Error: Expected count for: ",
            LineError::InvalidCount => "Error: Expected numeric count for: ",
            LineError::ExtraOperand => "Error: Unexpected operand for: ",
        }
    }
}

/// The command that the words `t` of a line spell, or why they spell none.
/// `push`/`pop` take a segment and an index, `label`/`goto`/`if-goto` a name,
/// `function`/`call` a name and a count, the rest nothing.
pub open spec fn parse_words(t: Seq<Seq<char>>) -> Result<CommandModel, LineError> {
    if t.len() == 0 {
        Err(LineError::InvalidCommand)
    } else if t[0] == "push"@ || t[0] == "pop"@ {
        if t.len() < 2 {
            Err(LineError::MissingSegment)
        } else if segment_named(t[1]) is None {
            Err(LineError::InvalidSegment)
        } else if t.len() < 3 {
            Err(LineError::MissingIndex)
        } else if index_value(t[2]) is None {
            Err(LineError::InvalidIndex)
        } else if t.len() > 3 {
            Err(LineError::ExtraOperand)
        } else if t[0] == "push"@ {
            Ok(CommandModel::Push(segment_named(t[1])->0, index_value(t[2])->0))
        } else {
            Ok(CommandModel::Pop(segment_named(t[1])->0, index_value(t[2])->0))
        }
    } else if operation_named(t[0]) is Some {
        if t.len() > 1 {
            Err(LineError::ExtraOperand)
        } else {
            Ok(CommandModel::ArithmeticLogical(operation_named(t[0])->0))
        }
    } else if t[0] == "label"@ || t[0] == "goto"@ || t[0] == "if-goto"@ {
        if t.len() < 2 {
            Err(LineError::MissingName)
        } else if t.len() > 2 {
            Err(LineError::ExtraOperand)
        } else if t[0] == "label"@ {
            Ok(CommandModel::Label(t[1]))
        } else if t[0] == "goto"@ {
            Ok(CommandModel::Goto(t[1]))
        } else {
            Ok(CommandModel::If(t[1]))
        }
    } else if t[0] == "function"@ || t[0] == "call"@ {
        if t.len() < 2 {
            Err(LineError::MissingName)
        } else if t.len() < 3 {
            Err(LineError::MissingCount)
        } else if index_value(t[2]) is None {
            Err(LineError::InvalidCount)
        } else if t.len() > 3 {
            Err(LineError::ExtraOperand)
        } else if t[0] == "function"@ {
            Ok(CommandModel::Function(t[1], index_value(t[2])->0))
        } else {
            Ok(CommandModel::Call(t[1], index_value(t[2])->0))
        }
    } else if t[0] == "return"@ {
        if t.len() > 1 {
            Err(LineError::ExtraOperand)
        } else {
            Ok(CommandModel::Return)
        }
    } else {
        Err(LineError::InvalidCommand)
    }
}

/// The command on line `s`, or why there is none.
pub open spec fn parse_line(s: Seq<char>) -> Result<CommandModel, LineError> {
    parse_words(tokens(s))
}

/// What reading line `s` yields: the command, or the message for it.
pub open spec fn line_outcome(s: Seq<char>) -> Result<CommandModel, Seq<char>> {
    match parse_line(s) {
        Ok(m) => Ok(m),
        Err(e) => Err(e.spec_prefix() + s),
    }
}

fn parse_words_of<'a>(line: &'a str, s: &Vec<char>, b: &Vec<(usize, usize)>) -> (r: Result<
    Command<'a>,
    LineError,
>)
    requires
        s@ == line@,
        spans_within(s@, b@),
    ensures
        match parse_words(spans(s@, b@)) {
            Ok(m) => r is Ok && r->Ok_0@ == m,
            Err(e) => r == Err::<Command<'a>, LineError>(e),
        },
{
    let ghost t = spans(s@, b@);
    let n = b.len();
    if n == 0 {
        return Err(LineError::InvalidCommand);
    }
    let (k0, k1) = b[0];
    assert(t[0] == s@.subrange(k0 as int, k1 as int));
    let is_push = span_is(s, k0, k1, "push");
    let is_pop = span_is(s, k0, k1, "pop");
    if is_push || is_pop {
        if n < 2 {
            return Err(LineError::MissingSegment);
        }
        let (g0, g1) = b[1];
        assert(t[1] == s@.subrange(g0 as int, g1 as int));
        let seg = match segment_of(s, g0, g1) {
            Some(g) => g,
            None => {
                return Err(LineError::InvalidSegment);
            },
        };
        if n < 3 {
            return Err(LineError::MissingIndex);
        }
        let (i0, i1) = b[2];
        assert(t[2] == s@.subrange(i0 as int, i1 as int));
        let idx = match parse_index(s, i0, i1) {
            Some(v) => v,
            None => {
                return Err(LineError::InvalidIndex);
            },
        };
        if n > 3 {
            return Err(LineError::ExtraOperand);
        }
        if is_push {
            return Ok(Command::Push(seg, idx));
        } else {
            return Ok(Command::Pop(seg, idx));
        }
    }
    match operation_of(s, k0, k1) {
        Some(op) => {
            if n > 1 {
                return Err(LineError::ExtraOperand);
            }
            return Ok(Command::ArithmeticLogical(op));
        },
        None => {},
    }
    let is_label = span_is(s, k0, k1, "label");
    let is_goto = span_is(s, k0, k1, "goto");
    let is_if = span_is(s, k0, k1, "if-goto");
    if is_label || is_goto || is_if {
        if n < 2 {
            return Err(LineError::MissingName);
        }
        if n > 2 {
            return Err(LineError::ExtraOperand);
        }
        let (a0, a1) = b[1];
        assert(t[1] == s@.subrange(a0 as int, a1 as int));
        let name = line.substring_char(a0, a1);
        if is_label {
            return Ok(Command::Label(name));
        } else if is_goto {
            return Ok(Command::Goto(name));
        } else {
            return Ok(Command::If(name));
        }
    }
    let is_function = span_is(s, k0, k1, "function");
    let is_call = span_is(s, k0, k1, "call");
    if is_function || is_call {
        if n < 2 {
            return Err(LineError::MissingName);
        }
        if n < 3 {
            return Err(LineError::MissingCount);
        }
        let (a0, a1) = b[1];
        assert(t[1] == s@.subrange(a0 as int, a1 as int));
        let (c0, c1) = b[2];
        assert(t[2] == s@.subrange(c0 as int, c1 as int));
        let count = match parse_index(s, c0, c1) {
            Some(v) => v,
            None => {
                return Err(LineError::InvalidCount);
            },
        };
        if n > 3 {
            return Err(LineError::ExtraOperand);
        }
        let name = line.substring_char(a0, a1);
        if is_function {
            return Ok(Command::Function(name, count));
        } else {
            return Ok(Command::Call(name, count));
        }
    }
    if span_is(s, k0, k1, "return") {
        if n > 1 {
            return Err(LineError::ExtraOperand);
        }
        return Ok(Command::Return);
    }
    Err(LineError::InvalidCommand)
}

/// Reads one line of VM source as a command. A failure message names the
/// kind of defect followed by the line itself.
pub fn parse_command<'a>(line: &'a str) -> (r: Result<Command<'a>, String>)
    ensures
        match line_outcome(line@) {
            Ok(m) => r is Ok && r->Ok_0@ == m,
            Err(msg) => r is Err && r->Err_0@ == msg,
        },
{
    let s = chars_of(line);
    let b = token_bounds(&s);
    match parse_words_of(line, &s, &b) {
        Ok(c) => Ok(c),
        Err(e) => Err(String::from_str(e.prefix()).concat(line)),
    }
}

/// Index of the first non-whitespace character of `s` at or after `i`.
pub open spec fn trim_start(s: Seq<char>, i: int) -> int
    decreases s.len() - i,
{
    if 0 <= i < s.len() && is_ws(s[i]) {
        trim_start(s, i + 1)
    } else {
        i
    }
}

/// One past the last non-whitespace character of `s` before `j`.
pub open spec fn trim_end(s: Seq<char>, j: int) -> int
    decreases j,
{
    if 0 < j <= s.len() && is_ws(s[j - 1]) {
        trim_end(s, j - 1)
    } else {
        j
    }
}

/// `s` without leading and trailing whitespace (as `str::trim`).
pub open spec fn trim(s: Seq<char>) -> Seq<char> {
    let a = trim_start(s, 0);
    let b = trim_end(s, s.len() as int);
    if a < b {
        s.subrange(a, b)
    } else {
        seq![]
    }
}

/// A line that holds no command: blank, or opening with a comment marker.
pub open spec fn is_skipped(t: Seq<char>) -> bool {
    t.len() == 0 || t[0] == '/'
}

/// What the line `s[st..end]` yields when the next line starts at `n`, and
/// what follows it when skipped.
pub open spec fn line_step(s: Seq<char>, st: int, end: int, n: int) -> Option<
    (Result<CommandModel, Seq<char>>, int),
> {
    Some((line_outcome(trim(s.subrange(st, end))), n))
}

/// The next command of text `s`, read from index `i` on within the line that
/// starts at `st`, with the index where reading goes on after it. Lines end at
/// `\n`; blank and comment lines are passed over.
pub open spec fn next_from(s: Seq<char>, i: int, st: int) -> Option<
    (Result<CommandModel, Seq<char>>, int),
>
    decreases s.len() - i,
{
    if i >= s.len() {
        if st < s.len() && !is_skipped(trim(s.subrange(st, s.len() as int))) {
            line_step(s, st, s.len() as int, s.len() as int)
        } else {
            None
        }
    } else if s[i] == '\n' {
        if is_skipped(trim(s.subrange(st, i))) {
            next_from(s, i + 1, i + 1)
        } else {
            line_step(s, st, i, i + 1)
        }
    } else {
        next_from(s, i + 1, st)
    }
}

proof fn lemma_trim_end_bound(s: Seq<char>, j: int)
    requires
        0 <= j,
    ensures
        0 <= trim_end(s, j) <= j,
    decreases j,
{
    if 0 < j <= s.len() && is_ws(s[j - 1]) {
        lemma_trim_end_bound(s, j - 1);
    }
}

/// Bounds of `s[from..to]` without surrounding whitespace.
fn trim_bounds(s: &Vec<char>, from: usize, to: usize) -> (r: (usize, usize))
    requires
        from <= to <= s.len(),
    ensures
        from <= r.0 <= r.1 <= to,
        s@.subrange(r.0 as int, r.1 as int) == trim(s@.subrange(from as int, to as int)),
{
    let ghost t = s@.subrange(from as int, to as int);
    let mut a = from;
    while a < to && is_whitespace(s[a])
        invariant
            from <= a <= to <= s.len(),
            t == s@.subrange(from as int, to as int),
            trim_start(t, 0) == trim_start(t, a - from),
        decreases to - a,
    {
        a = a + 1;
    }
    assert(trim_start(t, a - from) == a - from);
    if a == to {
        proof {
            lemma_trim_end_bound(t, t.len() as int);
        }
        assert(s@.subrange(a as int, a as int) =~= seq![]);
        return (a, a);
    }
    let mut b = to;
    while b > a && is_whitespace(s[b - 1])
        invariant
            from <= a < b <= to <= s.len(),
            !is_ws(s@[a as int]),
            t == s@.subrange(from as int, to as int),
            trim_end(t, t.len() as int) == trim_end(t, b - from),
        decreases b,
    {
        assert(b - 1 != a);
        b = b - 1;
    }
    assert(trim_end(t, b - from) == b - from);
    assert(t.subrange(a - from, b - from) == s@.subrange(a as int, b as int));
    (a, b)
}

/// A single-pass reader of the commands of a VM source text, one per line
/// that is neither blank nor a comment, in line order.
pub struct Parser<'a> {
    source: &'a str,
    chars: Vec<char>,
    ascii: bool,
    pos: usize,
}

impl<'a> Parser<'a> {
    /// The text being read.
    pub closed spec fn text(&self) -> Seq<char> {
        self.chars@
    }

    /// Where reading goes on: the start of the next line not yet read.
    pub closed spec fn position(&self) -> int {
        self.pos as int
    }

    pub closed spec fn wf(&self) -> bool {
        &&& self.chars@ == self.source@
        &&& self.pos <= self.chars.len()
        &&& self.ascii ==> self.source.is_ascii()
    }

    /// What the next call of `next` yields.
    pub open spec fn upcoming(&self) -> Option<(Result<CommandModel, Seq<char>>, int)> {
        next_from(self.text(), self.position(), self.position())
    }

    /// A reader positioned at the start of `file_contents`.
    pub fn build(file_contents: &'a str) -> (r: Parser<'a>)
        ensures
            r.wf(),
            r.text() == file_contents@,
            r.position() == 0,
    {
        let chars = chars_of(file_contents);
        let ascii = file_contents.is_ascii();
        Parser { source: file_contents, chars, ascii, pos: 0 }
    }

    fn line_at(&self, from: usize, to: usize) -> (r: &'a str)
        requires
            self.wf(),
            from <= to <= self.chars.len(),
        ensures
            r@ == self.text().subrange(from as int, to as int),
    {
        if self.ascii {
            self.source.substring_ascii(from, to)
        } else {
            self.source.substring_char(from, to)
        }
    }

    /// The next command, or the message for the next line that is not one;
    /// `None` once the text is exhausted.
    pub fn next(&mut self) -> (r: Option<Result<Command<'a>, String>>)
        requires
            old(self).wf(),
        ensures
            final(self).wf(),
            final(self).text() == old(self).text(),
            match old(self).upcoming() {
                None => r is None && final(self).position() == old(self).text().len(),
                Some((o, n)) => {
                    &&& final(self).position() == n
                    &&& r is Some
                    &&& match o {
                        Ok(m) => r->0 is Ok && r->0->Ok_0@ == m,
                        Err(msg) => r->0 is Err && r->0->Err_0@ == msg,
                    }
                },
            },
    {
        let ghost s = self.chars@;
        let ghost p0 = self.pos as int;
        let len = self.chars.len();
        let mut i = self.pos;
        let mut st = self.pos;
        while i < len
            invariant
                self.wf(),
                s == self.chars@,
                s == old(self).text(),
                p0 == old(self).position(),
                len == s.len(),
                self.pos == p0,
                st <= i <= len,
                next_from(s, p0, p0) == next_from(s, i as int, st as int),
            decreases len - i,
        {
            if self.chars[i] == '\n' {
                let (a, b) = trim_bounds(&self.chars, st, i);
                if a < b && self.chars[a] != '/' {
                    let line = self.line_at(a, b);
                    self.pos = i + 1;
                    return Some(parse_command(line));
                }
                st = i + 1;
            }
            i = i + 1;
        }
        if st < len {
            let (a, b) = trim_bounds(&self.chars, st, len);
            if a < b && self.chars[a] != '/' {
                let line = self.line_at(a, b);
                self.pos = len;
                return Some(parse_command(line));
            }
        }
        self.pos = len;
        None
    }
}

/// The source form of a command: its keyword and operands, one space apart.
pub open spec fn command_text(m: CommandModel) -> Seq<char> {
    match m {
        CommandModel::ArithmeticLogical(op) => op.spec_name(),
        CommandModel::Push(g, i) => "push "@ + g.spec_name() + " "@ + dec(i as nat),
        CommandModel::Pop(g, i) => "pop "@ + g.spec_name() + " "@ + dec(i as nat),
        CommandModel::Label(l) => "label "@ + l,
        CommandModel::Goto(l) => "goto "@ + l,
        CommandModel::If(l) => "if-goto "@ + l,
        CommandModel::Function(f, n) => "function "@ + f + " "@ + dec(n as nat),
        CommandModel::Return => "return"@,
        CommandModel::Call(f, n) => "call "@ + f + " "@ + dec(n as nat),
    }
}

impl<'a> Command<'a> {
    /// The command written back in source form.
    pub fn to_text(&self) -> (r: String)
        ensures
            r@ == command_text(self@),
    {
        match *self {
            Command::ArithmeticLogical(op) => String::from_str(op.name()),
            Command::Push(g, i) => String::from_str("push ").concat(g.name()).concat(" ").concat(
                decimal(i).as_str(),
            ),
            Command::Pop(g, i) => String::from_str("pop ").concat(g.name()).concat(" ").concat(
                decimal(i).as_str(),
            ),
            Command::Label(l) => String::from_str("label ").concat(l),
            Command::Goto(l) => String::from_str("goto ").concat(l),
            Command::If(l) => String::from_str("if-goto ").concat(l),
            Command::Function(f, n) => String::from_str("function ").concat(f).concat(" ").concat(
                decimal(n).as_str(),
            ),
            Command::Return => String::from_str("return"),
            Command::Call(f, n) => String::from_str("call ").concat(f).concat(" ").concat(
                decimal(n).as_str(),
            ),
        }
    }
}

/// Reading from a line start `st` always moves past it, and never past the
/// end of the text.
pub proof fn lemma_next_from_advances(s: Seq<char>, i: int, st: int)
    requires
        0 <= st <= i,
    ensures
        next_from(s, i, st) matches Some((_, n)) ==> st < n <= s.len(),
    decreases s.len() - i,
{
    if i < s.len() {
        if s[i] == '\n' {
            lemma_next_from_advances(s, i + 1, i + 1);
        } else {
            lemma_next_from_advances(s, i + 1, st);
        }
    }
}

} // verus!
