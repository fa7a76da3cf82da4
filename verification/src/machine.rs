//! The target machine, as far as the emitted programs use it.
//!
//! The machine has two 16-bit registers, A and D, a memory of 16-bit words
//! of which M is the one that A addresses, and a program counter. Words are
//! modelled as integers from -32768 to 32767; arithmetic wraps around.
//! Nothing here is executable: the model exists to say what emitted code
//! does.

use vstd::prelude::*;
use crate::assembly::{Comp, Dest, Jump, LineView, Register};

verus! {

/// The state of the machine.
pub struct Machine {
    pub a: int,
    pub d: int,
    pub pc: int,
    pub ram: Map<int, int>,
}

/// True for the integers that a word can hold.
pub open spec fn is_word(x: int) -> bool {
    -32768 <= x <= 32767
}

/// The word that an integer becomes when only its low 16 bits are kept.
pub open spec fn wrap(x: int) -> int {
    (x + 32768) % 65536 - 32768
}

/// The 16 bits of a word, read as an unsigned number.
pub open spec fn bits(x: int) -> int {
    if x < 0 {
        x + 65536
    } else {
        x
    }
}

/// Bitwise and of two words.
pub open spec fn and_words(x: int, y: int) -> int {
    ((x as i16) & (y as i16)) as int
}

/// Bitwise or of two words.
pub open spec fn or_words(x: int, y: int) -> int {
    ((x as i16) | (y as i16)) as int
}

/// The memory address of a pointer register.
pub open spec fn register_address(register: Register) -> int {
    match register {
        Register::Sp => 0,
        Register::Lcl => 1,
        Register::Arg => 2,
        Register::This => 3,
        Register::That => 4,
    }
}

/// What the arithmetic unit computes from A, D and M.
pub open spec fn compute(comp: Comp, a: int, d: int, m: int) -> int {
    match comp {
        Comp::Zero => 0,
        Comp::One => 1,
        Comp::MinusOne => -1,
        Comp::D => d,
        Comp::A => a,
        Comp::M => m,
        Comp::NotD => -d - 1,
        Comp::NotA => -a - 1,
        Comp::NotM => -m - 1,
        Comp::NegD => wrap(-d),
        Comp::NegA => wrap(-a),
        Comp::NegM => wrap(-m),
        Comp::DPlusOne => wrap(d + 1),
        Comp::APlusOne => wrap(a + 1),
        Comp::MPlusOne => wrap(m + 1),
        Comp::DMinusOne => wrap(d - 1),
        Comp::AMinusOne => wrap(a - 1),
        Comp::MMinusOne => wrap(m - 1),
        Comp::DPlusA => wrap(d + a),
        Comp::DPlusM => wrap(d + m),
        Comp::DMinusA => wrap(d - a),
        Comp::DMinusM => wrap(d - m),
        Comp::AMinusD => wrap(a - d),
        Comp::MMinusD => wrap(m - d),
        Comp::DAndA => and_words(d, a),
        Comp::DAndM => and_words(d, m),
        Comp::DOrA => or_words(d, a),
        Comp::DOrM => or_words(d, m),
    }
}

/// Whether a jump is taken on the computed `value`.
pub open spec fn jumps(jump: Jump, value: int) -> bool {
    match jump {
        Jump::Null => false,
        Jump::Jgt => value > 0,
        Jump::Jeq => value == 0,
        Jump::Jge => value >= 0,
        Jump::Jlt => value < 0,
        Jump::Jne => value != 0,
        Jump::Jle => value <= 0,
        Jump::Jmp => true,
    }
}

/// True when the destination includes A.
pub open spec fn stores_a(dest: Dest) -> bool {
    dest == Dest::A || dest == Dest::AM || dest == Dest::AD || dest == Dest::AMD
}

/// True when the destination includes D.
pub open spec fn stores_d(dest: Dest) -> bool {
    dest == Dest::D || dest == Dest::MD || dest == Dest::AD || dest == Dest::AMD
}

/// True when the destination includes M.
pub open spec fn stores_m(dest: Dest) -> bool {
    dest == Dest::M || dest == Dest::MD || dest == Dest::AM || dest == Dest::AMD
}

/// The addresses that the symbols of a program stand for.
pub type Symbols = Map<Seq<char>, int>;

/// The state after the machine has executed the instruction `line`. M is
/// the word that A addressed before the instruction; a jump goes to the
/// address that A held before it.
pub open spec fn execute(line: LineView, symbols: Symbols, m: Machine) -> Machine {
    match line {
        LineView::AtValue(value) => Machine { a: value as int, pc: m.pc + 1, ..m },
        LineView::AtRegister(register) => Machine {
            a: register_address(register),
            pc: m.pc + 1,
            ..m
        },
        LineView::AtSymbol(name) => Machine { a: symbols[name], pc: m.pc + 1, ..m },
        LineView::Compute(dest, comp, jump) => {
            let value = compute(comp, m.a, m.d, m.ram[m.a]);
            Machine {
                a: if stores_a(dest) {
                    value
                } else {
                    m.a
                },
                d: if stores_d(dest) {
                    value
                } else {
                    m.d
                },
                ram: if stores_m(dest) {
                    m.ram.insert(m.a, value)
                } else {
                    m.ram
                },
                pc: if jumps(jump, value) {
                    m.a
                } else {
                    m.pc + 1
                },
            }
        },
        _ => m,
    }
}

/// One step of the machine on the program `rom`. Outside the program the
/// machine stands still.
pub open spec fn step(rom: Seq<LineView>, symbols: Symbols, m: Machine) -> Machine {
    if 0 <= m.pc < rom.len() {
        execute(rom[m.pc], symbols, m)
    } else {
        m
    }
}

/// `n` steps of the machine.
pub open spec fn run(rom: Seq<LineView>, symbols: Symbols, m: Machine, n: nat) -> Machine
    decreases n,
{
    if n == 0 {
        m
    } else {
        run(rom, symbols, step(rom, symbols, m), (n - 1) as nat)
    }
}

/// True for the instructions that the machine has: a number loaded into A
/// is never negative.
pub open spec fn encodable(line: LineView) -> bool {
    match line {
        LineView::AtValue(value) => value >= 0,
        _ => true,
    }
}

/// True when the lines `lines[i..]` are loaded at the address `at`: every
/// instruction among them is one that the machine has and stands in the
/// program, in order, from `at` on; every label among them stands for the
/// address of the instruction that follows it.
pub open spec fn loaded_from(
    rom: Seq<LineView>,
    symbols: Symbols,
    at: int,
    lines: Seq<LineView>,
    i: int,
) -> bool
    decreases lines.len() - i,
{
    if 0 <= i < lines.len() {
        if lines[i].is_instruction() {
            &&& 0 <= at < rom.len()
            &&& rom[at] == lines[i]
            &&& encodable(lines[i])
            &&& loaded_from(rom, symbols, at + 1, lines, i + 1)
        } else if lines[i] is Label {
            &&& symbols[lines[i]->Label_0] == at
            &&& loaded_from(rom, symbols, at, lines, i + 1)
        } else {
            loaded_from(rom, symbols, at, lines, i + 1)
        }
    } else {
        true
    }
}

/// True when `lines` are loaded at the address `at`.
pub open spec fn loaded(rom: Seq<LineView>, symbols: Symbols, at: int, lines: Seq<LineView>)
    -> bool {
    loaded_from(rom, symbols, at, lines, 0)
}

/// The number of instructions among `lines[i..]`.
pub open spec fn instructions_from(lines: Seq<LineView>, i: int) -> nat
    decreases lines.len() - i,
{
    if 0 <= i < lines.len() {
        instructions_from(lines, i + 1) + if lines[i].is_instruction() {
            1nat
        } else {
            0nat
        }
    } else {
        0
    }
}

/// The number of instructions among `lines`.
pub open spec fn size(lines: Seq<LineView>) -> nat {
    instructions_from(lines, 0)
}

/// Running is additive in the number of steps.
pub proof fn lemma_run_add(rom: Seq<LineView>, symbols: Symbols, m: Machine, j: nat, k: nat)
    ensures
        run(rom, symbols, m, j + k) == run(rom, symbols, run(rom, symbols, m, j), k),
    decreases j,
{
    if j > 0 {
        lemma_run_add(rom, symbols, step(rom, symbols, m), (j - 1) as nat, k);
    }
}

/// The tail of a concatenation, seen from inside its second part.
proof fn lemma_loaded_second(
    rom: Seq<LineView>,
    symbols: Symbols,
    at: int,
    a: Seq<LineView>,
    b: Seq<LineView>,
    i: int,
)
    requires
        0 <= i <= b.len(),
    ensures
        loaded_from(rom, symbols, at, a + b, a.len() + i) == loaded_from(rom, symbols, at, b, i),
        instructions_from(a + b, a.len() + i) == instructions_from(b, i),
    decreases b.len() - i,
{
    if i < b.len() {
        assert((a + b)[a.len() + i] == b[i]);
        lemma_loaded_second(rom, symbols, at, a, b, i + 1);
        lemma_loaded_second(rom, symbols, at + 1, a, b, i + 1);
    }
}

/// A concatenation seen from inside its first part.
proof fn lemma_loaded_first(
    rom: Seq<LineView>,
    symbols: Symbols,
    at: int,
    a: Seq<LineView>,
    b: Seq<LineView>,
    i: int,
)
    requires
        0 <= i <= a.len(),
    ensures
        loaded_from(rom, symbols, at, a + b, i) == (loaded_from(rom, symbols, at, a, i)
            && loaded_from(rom, symbols, at + instructions_from(a, i), b, 0)),
        instructions_from(a + b, i) == instructions_from(a, i) + instructions_from(b, 0),
    decreases a.len() - i,
{
    if i < a.len() {
        assert((a + b)[i] == a[i]);
        lemma_loaded_first(rom, symbols, at, a, b, i + 1);
        lemma_loaded_first(rom, symbols, at + 1, a, b, i + 1);
    } else {
        lemma_loaded_second(rom, symbols, at, a, b, 0);
    }
}

/// Where `k` instructions `A=A-1` are loaded one after the other, the machine
/// counts A down by `k` and changes nothing else.
pub proof fn lemma_count_down(
    rom: Seq<LineView>,
    symbols: Symbols,
    m: Machine,
    lines: Seq<LineView>,
    i: int,
    k: nat,
)
    requires
        0 <= i,
        i + k <= lines.len(),
        forall|j: int| i <= j < i + k ==> lines[j] == LineView::set(Dest::A, Comp::AMinusOne),
        loaded_from(rom, symbols, m.pc, lines, i),
        is_word(m.a),
        is_word(m.a - k),
    ensures
        run(rom, symbols, m, k) == (Machine { a: m.a - k, pc: m.pc + k, ..m }),
        loaded_from(rom, symbols, m.pc + k, lines, i + k),
        instructions_from(lines, i) == k + instructions_from(lines, i + k),
    decreases k,
{
    if k > 0 {
        assert(lines[i] == LineView::set(Dest::A, Comp::AMinusOne));
        let next = step(rom, symbols, m);
        assert(next == (Machine { a: m.a - 1, pc: m.pc + 1, ..m }));
        lemma_count_down(rom, symbols, next, lines, i + 1, (k - 1) as nat);
    }
}

/// A concatenation is loaded exactly when its first part is loaded and its
/// second part is loaded behind the instructions of the first.
pub proof fn lemma_loaded_concat(
    rom: Seq<LineView>,
    symbols: Symbols,
    at: int,
    a: Seq<LineView>,
    b: Seq<LineView>,
)
    ensures
        loaded(rom, symbols, at, a + b) == (loaded(rom, symbols, at, a) && loaded(
            rom,
            symbols,
            at + size(a),
            b,
        )),
        size(a + b) == size(a) + size(b),
{
    lemma_loaded_first(rom, symbols, at, a, b, 0);
}

/// When a whole program is loaded at address zero, each of its parts is
/// loaded at the address that the number of instructions before it gives.
pub proof fn lemma_loaded_part(
    rom: Seq<LineView>,
    symbols: Symbols,
    before: Seq<LineView>,
    part: Seq<LineView>,
    after: Seq<LineView>,
)
    requires
        loaded(rom, symbols, 0, before + part + after),
    ensures
        loaded(rom, symbols, size(before) as int, part),
{
    lemma_loaded_concat(rom, symbols, 0, before + part, after);
    lemma_loaded_concat(rom, symbols, 0, before, part);
}

} // verus!
