//! The assembly language of the target machine, and how a program in it is
//! written out as text.
//!
//! A program is a sequence of [`Line`]s. An instruction either loads the
//! address register (`@value`) or computes (`dest=comp;jump`). Labels,
//! comments and blank lines take no room in the machine's program memory.

use vstd::prelude::*;
use vstd::string::StringExecFns;
use vstd::string::StrSliceExecFns;
use crate::chars::{decimal, push_decimal, push_signed, signed_decimal};

verus! {

/// The pointer registers that the machine names: the stack pointer and the
/// bases of four segments. They live in the first five words of memory.
#[derive(Debug, Clone, Copy, PartialEq, Eq, Structural)]
pub enum Register {
    Sp,
    Lcl,
    Arg,
    This,
    That,
}

/// Where a computation stores its result: any set of the registers A and D
/// and the memory word M that A addresses.
#[derive(Debug, Clone, Copy, PartialEq, Eq, Structural)]
pub enum Dest {
    Null,
    M,
    D,
    MD,
    A,
    AM,
    AD,
    AMD,
}

/// The computations of the machine's arithmetic unit.
#[derive(Debug, Clone, Copy, PartialEq, Eq, Structural)]
pub enum Comp {
    Zero,
    One,
    MinusOne,
    D,
    A,
    M,
    NotD,
    NotA,
    NotM,
    NegD,
    NegA,
    NegM,
    DPlusOne,
    APlusOne,
    MPlusOne,
    DMinusOne,
    AMinusOne,
    MMinusOne,
    DPlusA,
    DPlusM,
    DMinusA,
    DMinusM,
    AMinusD,
    MMinusD,
    DAndA,
    DAndM,
    DOrA,
    DOrM,
}

/// The condition on the computed value under which control moves to the
/// address in A.
#[derive(Debug, Clone, Copy, PartialEq, Eq, Structural)]
pub enum Jump {
    Null,
    Jgt,
    Jeq,
    Jge,
    Jlt,
    Jne,
    Jle,
    Jmp,
}

/// One line of an assembly program.
#[derive(Debug)]
pub enum Line {
    /// `@17`: load a number into A.
    AtValue(i16),
    /// `@SP`: load the address of a pointer register into A.
    AtRegister(Register),
    /// `@name`: load the address that a symbol stands for into A.
    AtSymbol(String),
    /// `dest=comp;jump`.
    Compute(Dest, Comp, Jump),
    /// `(name)`: the next instruction's address gets a name.
    Label(String),
    /// `//text`.
    Comment(String),
    /// An empty line.
    Blank,
}

/// What a [`Line`] stands for.
pub enum LineView {
    AtValue(i16),
    AtRegister(Register),
    AtSymbol(Seq<char>),
    Compute(Dest, Comp, Jump),
    Label(Seq<char>),
    Comment(Seq<char>),
    Blank,
}

impl View for Line {
    type V = LineView;

    open spec fn view(&self) -> LineView {
        match self {
            Line::AtValue(value) => LineView::AtValue(*value),
            Line::AtRegister(register) => LineView::AtRegister(*register),
            Line::AtSymbol(name) => LineView::AtSymbol(name@),
            Line::Compute(dest, comp, jump) => LineView::Compute(*dest, *comp, *jump),
            Line::Label(name) => LineView::Label(name@),
            Line::Comment(text) => LineView::Comment(text@),
            Line::Blank => LineView::Blank,
        }
    }
}

/// The views of a sequence of lines.
pub open spec fn views(lines: Seq<Line>) -> Seq<LineView> {
    lines.map_values(|line: Line| line@)
}

/// How wide the instruction field of a written line is.
pub const LINE_WIDTH: usize = 90;

/// How wide the field of the instruction's number is.
pub const INDEX_WIDTH: usize = 3;

/// The name of a pointer register.
pub open spec fn register_text(register: Register) -> Seq<char> {
    match register {
        Register::Sp => "SP"@,
        Register::Lcl => "LCL"@,
        Register::Arg => "ARG"@,
        Register::This => "THIS"@,
        Register::That => "THAT"@,
    }
}

/// The mnemonic of a destination; empty when nothing is stored.
pub open spec fn dest_text(dest: Dest) -> Seq<char> {
    match dest {
        Dest::Null => ""@,
        Dest::M => "M"@,
        Dest::D => "D"@,
        Dest::MD => "MD"@,
        Dest::A => "A"@,
        Dest::AM => "AM"@,
        Dest::AD => "AD"@,
        Dest::AMD => "AMD"@,
    }
}

/// The mnemonic of a computation.
pub open spec fn comp_text(comp: Comp) -> Seq<char> {
    match comp {
        Comp::Zero => "0"@,
        Comp::One => "1"@,
        Comp::MinusOne => "-1"@,
        Comp::D => "D"@,
        Comp::A => "A"@,
        Comp::M => "M"@,
        Comp::NotD => "!D"@,
        Comp::NotA => "!A"@,
        Comp::NotM => "!M"@,
        Comp::NegD => "-D"@,
        Comp::NegA => "-A"@,
        Comp::NegM => "-M"@,
        Comp::DPlusOne => "D+1"@,
        Comp::APlusOne => "A+1"@,
        Comp::MPlusOne => "M+1"@,
        Comp::DMinusOne => "D-1"@,
        Comp::AMinusOne => "A-1"@,
        Comp::MMinusOne => "M-1"@,
        Comp::DPlusA => "D+A"@,
        Comp::DPlusM => "D+M"@,
        Comp::DMinusA => "D-A"@,
        Comp::DMinusM => "D-M"@,
        Comp::AMinusD => "A-D"@,
        Comp::MMinusD => "M-D"@,
        Comp::DAndA => "D&A"@,
        Comp::DAndM => "D&M"@,
        Comp::DOrA => "D|A"@,
        Comp::DOrM => "D|M"@,
    }
}

/// The mnemonic of a jump condition; empty when control just moves on.
pub open spec fn jump_text(jump: Jump) -> Seq<char> {
    match jump {
        Jump::Null => ""@,
        Jump::Jgt => "JGT"@,
        Jump::Jeq => "JEQ"@,
        Jump::Jge => "JGE"@,
        Jump::Jlt => "JLT"@,
        Jump::Jne => "JNE"@,
        Jump::Jle => "JLE"@,
        Jump::Jmp => "JMP"@,
    }
}

/// The text of a computing instruction: `dest=` only where something is
/// stored, `;jump` only where control may move.
pub open spec fn compute_text(dest: Dest, comp: Comp, jump: Jump) -> Seq<char> {
    let stored = if dest == Dest::Null {
        Seq::<char>::empty()
    } else {
        dest_text(dest) + "="@
    };
    let moved = if jump == Jump::Null {
        Seq::<char>::empty()
    } else {
        ";"@ + jump_text(jump)
    };
    stored + comp_text(comp) + moved
}

/// `n` spaces.
pub open spec fn spaces(n: nat) -> Seq<char> {
    Seq::new(n, |i: int| ' ')
}

/// `s`, followed by as many spaces as it takes to reach `width` characters.
pub open spec fn pad_right(s: Seq<char>, width: nat) -> Seq<char> {
    if s.len() >= width {
        s
    } else {
        s + spaces((width - s.len()) as nat)
    }
}

/// `s`, preceded by as many spaces as it takes to reach `width` characters.
pub open spec fn pad_left(s: Seq<char>, width: nat) -> Seq<char> {
    if s.len() >= width {
        s
    } else {
        spaces((width - s.len()) as nat) + s
    }
}

impl LineView {
    /// `@register`.
    pub open spec fn at(register: Register) -> LineView {
        LineView::AtRegister(register)
    }

    /// `dest=comp`.
    pub open spec fn set(dest: Dest, comp: Comp) -> LineView {
        LineView::Compute(dest, comp, Jump::Null)
    }

    /// `comp;jump`.
    pub open spec fn jump(comp: Comp, jump: Jump) -> LineView {
        LineView::Compute(Dest::Null, comp, jump)
    }

    /// True for the lines that the machine executes.
    pub open spec fn is_instruction(self) -> bool {
        match self {
            LineView::AtValue(_) => true,
            LineView::AtRegister(_) => true,
            LineView::AtSymbol(_) => true,
            LineView::Compute(_, _, _) => true,
            _ => false,
        }
    }

    /// The line as the assembler reads it, without layout.
    pub open spec fn text(self) -> Seq<char> {
        match self {
            LineView::AtValue(value) => "@"@ + signed_decimal(value as int),
            LineView::AtRegister(register) => "@"@ + register_text(register),
            LineView::AtSymbol(name) => "@"@ + name,
            LineView::Compute(dest, comp, jump) => compute_text(dest, comp, jump),
            LineView::Label(name) => "("@ + name + ")"@,
            LineView::Comment(text) => "//"@ + text,
            LineView::Blank => Seq::<char>::empty(),
        }
    }

    /// The line as it is written to the output, line feed included. An
    /// instruction fills a field of [`LINE_WIDTH`] characters and is followed
    /// by `//` and its number `index`, right-aligned in [`INDEX_WIDTH`]
    /// characters. A label and a blank line fill the same field and carry no
    /// number. A comment is written as it is.
    pub open spec fn written(self, index: nat) -> Seq<char> {
        if self.is_instruction() {
            pad_right(self.text(), LINE_WIDTH as nat) + "//"@ + pad_left(
                decimal(index),
                INDEX_WIDTH as nat,
            ) + "\n"@
        } else if self is Comment {
            self.text() + "\n"@
        } else {
            pad_right(self.text(), LINE_WIDTH as nat) + "\n"@
        }
    }
}

/// The number of instructions among `lines`.
pub open spec fn count_instructions(lines: Seq<LineView>) -> nat
    decreases lines.len(),
{
    if lines.len() == 0 {
        0
    } else {
        count_instructions(lines.drop_last()) + if lines.last().is_instruction() {
            1nat
        } else {
            0nat
        }
    }
}

/// The instructions among `lines`, in order: what the assembler loads into
/// program memory.
pub open spec fn instructions(lines: Seq<LineView>) -> Seq<LineView>
    decreases lines.len(),
{
    if lines.len() == 0 {
        Seq::empty()
    } else if lines.last().is_instruction() {
        instructions(lines.drop_last()).push(lines.last())
    } else {
        instructions(lines.drop_last())
    }
}

/// The text of a program whose first instruction has the number `first`:
/// every line as it is [`LineView::written`], the instructions numbered in
/// sequence.
pub open spec fn written(lines: Seq<LineView>, first: nat) -> Seq<char>
    decreases lines.len(),
{
    if lines.len() == 0 {
        Seq::empty()
    } else {
        written(lines.drop_last(), first) + lines.last().written(
            first + count_instructions(lines.drop_last()),
        )
    }
}

/// Counting after one more line.
pub broadcast proof fn lemma_count_push(lines: Seq<LineView>, line: LineView)
    ensures
        #[trigger] count_instructions(lines.push(line)) == count_instructions(lines) + if line.is_instruction() {
            1nat
        } else {
            0nat
        },
{
    assert(lines.push(line).drop_last() =~= lines);
}

/// The text after one more line.
pub proof fn lemma_written_push(lines: Seq<LineView>, line: LineView, first: nat)
    ensures
        written(lines.push(line), first) == written(lines, first) + line.written(
            first + count_instructions(lines),
        ),
{
    assert(lines.push(line).drop_last() =~= lines);
}

/// There are as many instructions as [`count_instructions`] says, and never
/// more than lines.
pub proof fn lemma_count_instructions(lines: Seq<LineView>)
    ensures
        instructions(lines).len() == count_instructions(lines),
        count_instructions(lines) <= lines.len(),
    decreases lines.len(),
{
    if lines.len() > 0 {
        lemma_count_instructions(lines.drop_last());
    }
}

/// Counting distributes over concatenation.
pub proof fn lemma_count_concat(a: Seq<LineView>, b: Seq<LineView>)
    ensures
        count_instructions(a + b) == count_instructions(a) + count_instructions(b),
    decreases b.len(),
{
    if b.len() == 0 {
        assert(a + b =~= a);
    } else {
        assert((a + b).drop_last() =~= a + b.drop_last());
        lemma_count_concat(a, b.drop_last());
    }
}

/// The instructions of a concatenation are those of its parts.
pub proof fn lemma_instructions_concat(a: Seq<LineView>, b: Seq<LineView>)
    ensures
        instructions(a + b) == instructions(a) + instructions(b),
    decreases b.len(),
{
    if b.len() == 0 {
        assert(a + b =~= a);
        assert(instructions(a) + instructions(b) =~= instructions(a));
    } else {
        assert((a + b).drop_last() =~= a + b.drop_last());
        lemma_instructions_concat(a, b.drop_last());
        assert((instructions(a) + instructions(b.drop_last())).push(b.last()) =~= instructions(a)
            + instructions(b.drop_last()).push(b.last()));
    }
}

/// Writing a concatenation: the second part is written as if it stood
/// alone, with its instructions numbered on from where the first part ends.
pub proof fn lemma_written_concat(a: Seq<LineView>, b: Seq<LineView>, first: nat)
    ensures
        written(a + b, first) == written(a, first) + written(b, first + count_instructions(a)),
    decreases b.len(),
{
    if b.len() == 0 {
        assert(a + b =~= a);
        assert(written(a, first) + written(b, first + count_instructions(a)) =~= written(a, first));
    } else {
        assert((a + b).drop_last() =~= a + b.drop_last());
        lemma_written_concat(a, b.drop_last(), first);
        lemma_count_concat(a, b.drop_last());
        assert(written(a + b, first) =~= written(a, first) + written(
            b,
            first + count_instructions(a),
        ));
    }
}

impl Register {
    /// The name of the register.
    pub fn name(self) -> (s: &'static str)
        ensures
            s@ == register_text(self),
    {
        match self {
            Register::Sp => "SP",
            Register::Lcl => "LCL",
            Register::Arg => "ARG",
            Register::This => "THIS",
            Register::That => "THAT",
        }
    }
}

impl Dest {
    /// The mnemonic of the destination.
    pub fn mnemonic(self) -> (s: &'static str)
        ensures
            s@ == dest_text(self),
    {
        match self {
            Dest::Null => "",
            Dest::M => "M",
            Dest::D => "D",
            Dest::MD => "MD",
            Dest::A => "A",
            Dest::AM => "AM",
            Dest::AD => "AD",
            Dest::AMD => "AMD",
        }
    }
}

impl Comp {
    /// The mnemonic of the computation.
    pub fn mnemonic(self) -> (s: &'static str)
        ensures
            s@ == comp_text(self),
    {
        match self {
            Comp::Zero => "0",
            Comp::One => "1",
            Comp::MinusOne => "-1",
            Comp::D => "D",
            Comp::A => "A",
            Comp::M => "M",
            Comp::NotD => "!D",
            Comp::NotA => "!A",
            Comp::NotM => "!M",
            Comp::NegD => "-D",
            Comp::NegA => "-A",
            Comp::NegM => "-M",
            Comp::DPlusOne => "D+1",
            Comp::APlusOne => "A+1",
            Comp::MPlusOne => "M+1",
            Comp::DMinusOne => "D-1",
            Comp::AMinusOne => "A-1",
            Comp::MMinusOne => "M-1",
            Comp::DPlusA => "D+A",
            Comp::DPlusM => "D+M",
            Comp::DMinusA => "D-A",
            Comp::DMinusM => "D-M",
            Comp::AMinusD => "A-D",
            Comp::MMinusD => "M-D",
            Comp::DAndA => "D&A",
            Comp::DAndM => "D&M",
            Comp::DOrA => "D|A",
            Comp::DOrM => "D|M",
        }
    }
}

impl Jump {
    /// The mnemonic of the jump condition.
    pub fn mnemonic(self) -> (s: &'static str)
        ensures
            s@ == jump_text(self),
    {
        match self {
            Jump::Null => "",
            Jump::Jgt => "JGT",
            Jump::Jeq => "JEQ",
            Jump::Jge => "JGE",
            Jump::Jlt => "JLT",
            Jump::Jne => "JNE",
            Jump::Jle => "JLE",
            Jump::Jmp => "JMP",
        }
    }
}

/// Appends `n` spaces to `out`.
fn push_spaces(out: &mut String, n: usize)
    ensures
        final(out)@ == old(out)@ + spaces(n as nat),
{
    let mut i: usize = 0;
    assert(out@ =~= old(out)@ + spaces(0));
    while i < n
        invariant
            i <= n,
            out@ == old(out)@ + spaces(i as nat),
        decreases n - i,
    {
        out.append(" ");
        proof {
            reveal_strlit(" ");
            assert(" "@ =~= seq![' ']);
            assert(out@ =~= old(out)@ + spaces((i + 1) as nat));
        }
        i += 1;
    }
}

/// Appends `text` to `out`, padded with spaces on the right to `width`.
fn push_padded(out: &mut String, text: &str, width: usize)
    ensures
        final(out)@ == old(out)@ + pad_right(text@, width as nat),
{
    let n = text.unicode_len();
    out.append(text);
    if n < width {
        push_spaces(out, width - n);
    }
    assert(out@ =~= old(out)@ + pad_right(text@, width as nat));
}

impl Line {
    /// `@register`.
    pub fn at(register: Register) -> (line: Line)
        ensures
            line@ == LineView::at(register),
    {
        Line::AtRegister(register)
    }

    /// `dest=comp`.
    pub fn set(dest: Dest, comp: Comp) -> (line: Line)
        ensures
            line@ == LineView::set(dest, comp),
    {
        Line::Compute(dest, comp, Jump::Null)
    }

    /// `comp;jump`.
    pub fn jump(comp: Comp, jump: Jump) -> (line: Line)
        ensures
            line@ == LineView::jump(comp, jump),
    {
        Line::Compute(Dest::Null, comp, jump)
    }

    /// `@name`.
    pub fn symbol(name: &String) -> (line: Line)
        ensures
            line@ == LineView::AtSymbol(name@),
    {
        Line::AtSymbol(name.clone())
    }

    /// `(name)`.
    pub fn label(name: &String) -> (line: Line)
        ensures
            line@ == LineView::Label(name@),
    {
        Line::Label(name.clone())
    }

    /// True for the lines that the machine executes.
    pub fn is_instruction(&self) -> (b: bool)
        ensures
            b == self@.is_instruction(),
    {
        match self {
            Line::AtValue(_) => true,
            Line::AtRegister(_) => true,
            Line::AtSymbol(_) => true,
            Line::Compute(_, _, _) => true,
            _ => false,
        }
    }

    /// The line as the assembler reads it, without layout.
    pub fn text(&self) -> (t: String)
        ensures
            t@ == self@.text(),
    {
        match self {
            Line::AtValue(value) => {
                let mut t = String::from_str("@");
                push_signed(&mut t, *value);
                t
            },
            Line::AtRegister(register) => {
                let mut t = String::from_str("@");
                t.append(register.name());
                t
            },
            Line::AtSymbol(name) => {
                let mut t = String::from_str("@");
                t.append(name.as_str());
                t
            },
            Line::Compute(dest, comp, jump) => {
                let mut t = String::new();
                if *dest != Dest::Null {
                    t.append(dest.mnemonic());
                    t.append("=");
                }
                t.append(comp.mnemonic());
                if *jump != Jump::Null {
                    t.append(";");
                    t.append(jump.mnemonic());
                }
                assert(t@ =~= compute_text(*dest, *comp, *jump));
                t
            },
            Line::Label(name) => {
                let mut t = String::from_str("(");
                t.append(name.as_str());
                t.append(")");
                t
            },
            Line::Comment(text) => {
                let mut t = String::from_str("//");
                t.append(text.as_str());
                t
            },
            Line::Blank => String::new(),
        }
    }

    /// Appends the line to `out` as it is written to the output, an
    /// instruction with the number `index`.
    pub fn write(&self, out: &mut String, index: usize)
        ensures
            final(out)@ == old(out)@ + self@.written(index as nat),
    {
        let text = self.text();
        if self.is_instruction() {
            push_padded(out, text.as_str(), LINE_WIDTH);
            out.append("//");
            let mut number = String::new();
            push_decimal(&mut number, index as u64);
            assert(number@ =~= decimal(index as nat));
            let n = number.as_str().unicode_len();
            if n < INDEX_WIDTH {
                push_spaces(out, INDEX_WIDTH - n);
            }
            out.append(number.as_str());
            out.append("\n");
            assert(out@ =~= old(out)@ + self@.written(index as nat));
        } else {
            match self {
                Line::Comment(_) => {
                    out.append(text.as_str());
                },
                _ => {
                    push_padded(out, text.as_str(), LINE_WIDTH);
                },
            }
            out.append("\n");
            assert(out@ =~= old(out)@ + self@.written(index as nat));
        }
    }
}

/// Writes a program out as text, the first instruction with the number
/// `first`.
pub fn write_lines(lines: &Vec<Line>, first: usize) -> (text: String)
    requires
        first + count_instructions(views(lines@)) <= usize::MAX,
    ensures
        text@ == written(views(lines@), first as nat),
{
    let mut text = String::new();
    let mut index: usize = first;
    let mut i: usize = 0;
    let ghost all = views(lines@);
    while i < lines.len()
        invariant
            i <= lines.len(),
            all == views(lines@),
            all.len() == lines.len(),
            first + count_instructions(all) <= usize::MAX,
            index == first + count_instructions(all.take(i as int)),
            text@ == written(all.take(i as int), first as nat),
        decreases lines.len() - i,
    {
        let line = &lines[i];
        proof {
            assert(all.take(i + 1) =~= all.take(i as int).push(line@));
            lemma_written_push(all.take(i as int), line@, first as nat);
            lemma_count_push(all.take(i as int), line@);
            assert(all =~= all.take(i + 1) + all.skip(i + 1));
            lemma_count_concat(all.take(i + 1), all.skip(i + 1));
        }
        line.write(&mut text, index);
        if line.is_instruction() {
            index += 1;
        }
        i += 1;
    }
    proof {
        assert(all.take(lines.len() as int) =~= all);
    }
    text
}

} // verus!
