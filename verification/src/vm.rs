//! The meaning of the commands of the stack machine, told in terms of the
//! target machine's memory.
//!
//! The stack grows upwards; the stack pointer, in the first word of memory,
//! names the first free slot. A command is described by the memory it
//! leaves and by where control goes. The emitters are free in how they get
//! there: they may use the scratch registers 13 to 15, and a `pop` may use
//! the free slot into which the stack pointer pointed.

use vstd::prelude::*;
use crate::code::count_of;
use crate::code_laws::{segment_start, truth};
use crate::frames::{called, is_scratch, return_address, returned};
use crate::machine::{and_words, is_word, or_words, wrap, Machine, Symbols};
use crate::parser::{ArithmeticType, CommandView, Segment};
use crate::symbols::user_label;

verus! {

/// True for the arithmetic commands that take two operands.
pub open spec fn is_binary(op: ArithmeticType) -> bool {
    op != ArithmeticType::Neg && op != ArithmeticType::Not
}

/// What a command of two operands makes of `x`, pushed first, and `y`,
/// pushed second.
pub open spec fn binary_result(op: ArithmeticType, x: int, y: int) -> int {
    match op {
        ArithmeticType::Add => wrap(x + y),
        ArithmeticType::Sub => wrap(x - y),
        ArithmeticType::And => and_words(x, y),
        ArithmeticType::Or => or_words(x, y),
        ArithmeticType::Eq => truth(x == y),
        ArithmeticType::Lt => truth(x < y),
        ArithmeticType::Gt => truth(x > y),
        _ => 0,
    }
}

/// What a command of one operand makes of `x`.
pub open spec fn unary_result(op: ArithmeticType, x: int) -> int {
    match op {
        ArithmeticType::Neg => wrap(-x),
        _ => -x - 1,
    }
}

/// The memory that `command` leaves when it is carried out in the state
/// `m`. `next` is the address behind the command's code: a call returns
/// there.
pub open spec fn memory_after(command: CommandView, symbols: Symbols, m: Machine, next: int) -> Map<
    int,
    int,
> {
    let sp = m.ram[0];
    match command {
        CommandView::Push(Segment::Constant, value) => m.ram.insert(sp, value as int).insert(
            0,
            sp + 1,
        ),
        CommandView::Push(segment, offset) => m.ram.insert(
            sp,
            m.ram[segment_start(segment, symbols, m) + offset],
        ).insert(0, sp + 1),
        CommandView::Pop(segment, offset) => m.ram.insert(
            segment_start(segment, symbols, m) + offset,
            m.ram[sp - 1],
        ).insert(0, sp - 1),
        CommandView::Arithmetic(op) => if is_binary(op) {
            m.ram.insert(sp - 2, binary_result(op, m.ram[sp - 2], m.ram[sp - 1])).insert(0, sp - 1)
        } else {
            m.ram.insert(sp - 1, unary_result(op, m.ram[sp - 1]))
        },
        CommandView::Label(_) => m.ram,
        CommandView::Goto(_) => m.ram,
        CommandView::IfGoto(_) => m.ram.insert(0, sp - 1),
        CommandView::Function { n_vars, symbol } => Map::new(
            |address: int| true,
            |address: int|
                if address == 0 {
                    sp + count_of(n_vars)
                } else if sp <= address < sp + count_of(n_vars) {
                    0
                } else {
                    m.ram[address]
                },
        ),
        CommandView::Call { n_args, symbol } => called(m, next, count_of(n_args) as int),
        CommandView::Return => returned(m),
    }
}

/// The address at which control stands when `command` has been carried out
/// in the state `m`; `next` is the address behind the command's code.
pub open spec fn control_after(command: CommandView, symbols: Symbols, m: Machine, next: int)
    -> int {
    match command {
        CommandView::Goto(name) => symbols[user_label(name)],
        CommandView::IfGoto(name) => if m.ram[m.ram[0] - 1] != 0 {
            symbols[user_label(name)]
        } else {
            next
        },
        CommandView::Call { n_args, symbol } => symbols[symbol],
        CommandView::Return => return_address(m),
        _ => next,
    }
}

/// True when the state `m` is one in which `command` can be carried out:
/// the stack pointer stands above the registers of the machine, the stack
/// holds the operands and has room for the result, and the addresses
/// involved are words. A comparison expects operands whose difference is a
/// word; a `pop` expects a target that is neither the stack pointer nor the
/// free slot above the stack; a return expects the frame of a call.
pub open spec fn ready(command: CommandView, symbols: Symbols, m: Machine) -> bool {
    let sp = m.ram[0];
    match command {
        CommandView::Push(Segment::Constant, value) => 16 <= sp <= 32766,
        CommandView::Push(segment, offset) => {
            &&& 16 <= sp <= 32766
            &&& is_word(segment_start(segment, symbols, m))
            &&& is_word(segment_start(segment, symbols, m) + offset)
        },
        CommandView::Pop(segment, offset) => {
            &&& segment != Segment::Constant
            &&& 17 <= sp <= 32766
            &&& is_word(segment_start(segment, symbols, m))
            &&& is_word(segment_start(segment, symbols, m) + offset)
            &&& segment_start(segment, symbols, m) + offset != 0
            &&& segment_start(segment, symbols, m) + offset != sp
        },
        CommandView::Arithmetic(op) => if is_binary(op) {
            let x = m.ram[sp - 2];
            let y = m.ram[sp - 1];
            &&& 18 <= sp <= 32767
            &&& is_word(x)
            &&& is_word(y)
            &&& op == ArithmeticType::Lt ==> is_word(x - y)
            &&& op == ArithmeticType::Gt ==> is_word(y - x)
        } else {
            17 <= sp <= 32767
        },
        CommandView::Label(_) => true,
        CommandView::Goto(_) => true,
        CommandView::IfGoto(_) => 17 <= sp <= 32767,
        CommandView::Function { n_vars, symbol } => 16 <= sp && sp + count_of(n_vars) <= 32767,
        CommandView::Call { n_args, symbol } => 16 <= sp <= 32762,
        CommandView::Return => 16 <= m.ram[2] <= m.ram[1] - 5 && m.ram[1] < sp <= 32767,
    }
}

/// True when the memory `found` is what `command` was to leave, but for the
/// words that an emitter may use as it likes: the scratch registers and,
/// after a `pop`, the slot into which the stack pointer pointed.
pub open spec fn as_expected(
    found: Map<int, int>,
    expected: Map<int, int>,
    command: CommandView,
    m: Machine,
) -> bool {
    forall|address: int|
        !is_scratch(address) && !(command is Pop && address == m.ram[0]) ==> #[trigger] found[address]
            == expected[address]
}

/// True when the machine, started in the state `m` at the code of `command`,
/// stands after `n` steps where the command was to take it, with the memory
/// that the command was to leave. `next` is the address behind the code.
pub open spec fn carried_out(
    rom: Seq<crate::assembly::LineView>,
    symbols: Symbols,
    m: Machine,
    command: CommandView,
    next: int,
    n: nat,
) -> bool {
    let r = crate::machine::run(rom, symbols, m, n);
    &&& r.pc == control_after(command, symbols, m, next)
    &&& as_expected(r.ram, memory_after(command, symbols, m, next), command, m)
}

/// Bitwise and and or do not mind the order of their operands.
pub proof fn lemma_bitwise_commute(x: int, y: int)
    ensures
        and_words(x, y) == and_words(y, x),
        or_words(x, y) == or_words(y, x),
{
    let a = x as i16;
    let b = y as i16;
    assert(a & b == b & a) by (bit_vector);
    assert(a | b == b | a) by (bit_vector);
}

} // verus!
