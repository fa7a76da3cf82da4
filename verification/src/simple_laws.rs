//! What the code of the simple emitter does when the machine runs it.

use vstd::prelude::*;
use crate::assembly::LineView;
use crate::code::{pop_segment, push_segment};
use crate::assembly::{Comp, Jump};
use crate::code_laws::{
    compare_steps,
    lemma_compare,
    lemma_difference,
    lemma_pop_segment,
    lemma_push_segment,
    truth,
};
use crate::symbols::next_label;
use crate::simple_emitter::TempRegister;
use crate::machine::{
    wrap,
    is_word,
    lemma_loaded_concat,
    lemma_run_add,
    loaded,
    loaded_from,
    run,
    size,
    instructions_from,
    Machine,
    Symbols,
};
use crate::parser::Segment;
use crate::simple_emitter::SimpleEmitter;

verus! {

/// `push constant k` puts `k` on the stack.
pub proof fn lemma_push_const(rom: Seq<LineView>, symbols: Symbols, m: Machine, k: i16)
    requires
        loaded(rom, symbols, m.pc, SimpleEmitter::push_const_code(k)),
        0 <= m.ram[0] <= 32766,
    ensures
        ({
            let sp = m.ram[0];
            let r = run(rom, symbols, m, 6);
            &&& k >= 0
            &&& r.pc == m.pc + 6
            &&& r.ram == m.ram.insert(0, sp + 1).insert(sp, k as int)
            &&& size(SimpleEmitter::push_const_code(k)) == 6
        }),
{
    reveal_with_fuel(loaded_from, 7);
    reveal_with_fuel(instructions_from, 7);
    reveal_with_fuel(run, 7);
}

/// Popping into a scratch register: the stack shrinks by one word, which
/// the register then holds.
pub proof fn lemma_stack_to_temp(
    rom: Seq<LineView>,
    symbols: Symbols,
    m: Machine,
    reg: TempRegister,
)
    requires
        loaded(rom, symbols, m.pc, SimpleEmitter::stack_to_temp_code(reg)),
        2 <= m.ram[0] <= 32767,
    ensures
        ({
            let sp = m.ram[0];
            let r = run(rom, symbols, m, 6);
            &&& r.pc == m.pc + 6
            &&& r.ram == m.ram.insert(0, sp - 1).insert(reg.address() as int, m.ram[sp - 1])
            &&& size(SimpleEmitter::stack_to_temp_code(reg)) == 6
        }),
{
    reveal_with_fuel(loaded_from, 7);
    reveal_with_fuel(instructions_from, 7);
    reveal_with_fuel(run, 7);
}

/// Pushing a scratch register: the stack grows by the word that the
/// register holds.
pub proof fn lemma_temp_to_stack(
    rom: Seq<LineView>,
    symbols: Symbols,
    m: Machine,
    reg: TempRegister,
)
    requires
        loaded(rom, symbols, m.pc, SimpleEmitter::temp_to_stack_code(reg)),
        0 <= m.ram[0] <= 32766,
    ensures
        ({
            let sp = m.ram[0];
            let r = run(rom, symbols, m, 6);
            &&& r.pc == m.pc + 6
            &&& r.ram == m.ram.insert(0, sp + 1).insert(sp, m.ram[reg.address() as int])
            &&& size(SimpleEmitter::temp_to_stack_code(reg)) == 6
        }),
{
    reveal_with_fuel(loaded_from, 7);
    reveal_with_fuel(instructions_from, 7);
    reveal_with_fuel(run, 7);
}

/// Adding two scratch registers into a third.
pub proof fn lemma_add_temp(
    rom: Seq<LineView>,
    symbols: Symbols,
    m: Machine,
    out: TempRegister,
    first: TempRegister,
    second: TempRegister,
)
    requires
        loaded(rom, symbols, m.pc, SimpleEmitter::add_temp_code(out, first, second)),
    ensures
        ({
            let r = run(rom, symbols, m, 6);
            &&& r.pc == m.pc + 6
            &&& r.ram == m.ram.insert(
                out.address() as int,
                wrap(m.ram[first.address() as int] + m.ram[second.address() as int]),
            )
            &&& size(SimpleEmitter::add_temp_code(out, first, second)) == 6
        }),
{
    reveal_with_fuel(loaded_from, 7);
    reveal_with_fuel(instructions_from, 7);
    reveal_with_fuel(run, 7);
}

/// Subtracting one scratch register from another into a third.
pub proof fn lemma_sub_temp(
    rom: Seq<LineView>,
    symbols: Symbols,
    m: Machine,
    out: TempRegister,
    first: TempRegister,
    second: TempRegister,
)
    requires
        loaded(rom, symbols, m.pc, SimpleEmitter::sub_temp_code(out, first, second)),
    ensures
        ({
            let r = run(rom, symbols, m, 6);
            &&& r.pc == m.pc + 6
            &&& r.ram == m.ram.insert(
                out.address() as int,
                wrap(m.ram[first.address() as int] - m.ram[second.address() as int]),
            )
            &&& size(SimpleEmitter::sub_temp_code(out, first, second)) == 6
        }),
{
    reveal_with_fuel(loaded_from, 7);
    reveal_with_fuel(instructions_from, 7);
    reveal_with_fuel(run, 7);
}

/// Testing a scratch register for zero: the register ends up all ones if it
/// held zero, and zero if it did not.
#[verifier::rlimit(40)]
pub proof fn lemma_not_zero_tmp(
    rom: Seq<LineView>,
    symbols: Symbols,
    m: Machine,
    tmp: TempRegister,
    labels: nat,
)
    requires
        loaded(rom, symbols, m.pc, SimpleEmitter::not_zero_tmp_code(tmp, labels)),
    ensures
        ({
            let held = m.ram[tmp.address() as int];
            let r = run(
                rom,
                symbols,
                m,
                if held == 0 {
                    7
                } else {
                    9
                },
            );
            &&& r.pc == m.pc + 10
            &&& r.ram == m.ram.insert(
                tmp.address() as int,
                if held == 0 {
                    -1
                } else {
                    0
                },
            )
            &&& size(SimpleEmitter::not_zero_tmp_code(tmp, labels)) == 10
        }),
{
    reveal_with_fuel(loaded_from, 14);
    reveal_with_fuel(instructions_from, 14);
    reveal_with_fuel(run, 10);
}

/// The machine state after `add`, `sub` and `eq` have moved the operands
/// into the scratch registers. With the stack pointer at 15 the lower
/// operand lies in the scratch register 13 itself, and is lost unless the
/// two operands are equal.
pub proof fn lemma_operands_to_temps(rom: Seq<LineView>, symbols: Symbols, m: Machine)
    requires
        loaded(
            rom,
            symbols,
            m.pc,
            SimpleEmitter::stack_to_temp_code(TempRegister::T0) + SimpleEmitter::stack_to_temp_code(
                TempRegister::T1,
            ),
        ),
        3 <= m.ram[0] <= 32767,
        m.ram[0] != 15 || m.ram[13] == m.ram[14],
    ensures
        ({
            let sp = m.ram[0];
            let r = run(rom, symbols, m, 12);
            &&& r.pc == m.pc + 12
            &&& r.ram == m.ram.insert(0, sp - 2).insert(13, m.ram[sp - 1]).insert(14, m.ram[sp - 2])
            &&& size(
                SimpleEmitter::stack_to_temp_code(TempRegister::T0)
                    + SimpleEmitter::stack_to_temp_code(TempRegister::T1),
            ) == 12
        }),
{
    let first = SimpleEmitter::stack_to_temp_code(TempRegister::T0);
    let second = SimpleEmitter::stack_to_temp_code(TempRegister::T1);
    lemma_loaded_concat(rom, symbols, m.pc, first, second);
    lemma_stack_to_temp(rom, symbols, m, TempRegister::T0);
    let mid = run(rom, symbols, m, 6);
    lemma_stack_to_temp(rom, symbols, mid, TempRegister::T1);
    lemma_run_add(rom, symbols, m, 6, 6);
    let sp = m.ram[0];
    assert(run(rom, symbols, m, 12).ram =~= m.ram.insert(0, sp - 2).insert(13, m.ram[sp - 1]).insert(
        14,
        m.ram[sp - 2],
    ));
}

/// `add` replaces the two topmost words by their sum. The scratch registers
/// 13 and 14 are used on the way: with the stack pointer at 15 the law holds
/// for equal operands only.
pub proof fn lemma_add(rom: Seq<LineView>, symbols: Symbols, m: Machine)
    requires
        loaded(rom, symbols, m.pc, SimpleEmitter::add_code()),
        3 <= m.ram[0] <= 32767,
        m.ram[0] != 15 || m.ram[13] == m.ram[14],
    ensures
        ({
            let sp = m.ram[0];
            let x = m.ram[sp - 2];
            let y = m.ram[sp - 1];
            let r = run(rom, symbols, m, 24);
            &&& r.pc == m.pc + 24
            &&& r.ram == m.ram.insert(0, sp - 1).insert(13, wrap(y + x)).insert(14, x).insert(
                sp - 2,
                wrap(y + x),
            )
        }),
        size(SimpleEmitter::add_code()) == 24,
{
    let pops = SimpleEmitter::stack_to_temp_code(TempRegister::T0)
        + SimpleEmitter::stack_to_temp_code(TempRegister::T1);
    let sum = SimpleEmitter::add_temp_code(TempRegister::T0, TempRegister::T0, TempRegister::T1);
    let push = SimpleEmitter::temp_to_stack_code(TempRegister::T0);
    lemma_loaded_concat(rom, symbols, m.pc, pops + sum, push);
    lemma_loaded_concat(rom, symbols, m.pc, pops, sum);
    lemma_operands_to_temps(rom, symbols, m);
    let popped = run(rom, symbols, m, 12);
    lemma_add_temp(rom, symbols, popped, TempRegister::T0, TempRegister::T0, TempRegister::T1);
    let added = run(rom, symbols, popped, 6);
    lemma_temp_to_stack(rom, symbols, added, TempRegister::T0);
    lemma_run_add(rom, symbols, m, 12, 6);
    lemma_run_add(rom, symbols, m, 18, 6);
    let sp = m.ram[0];
    let x = m.ram[sp - 2];
    let y = m.ram[sp - 1];
    assert(run(rom, symbols, m, 24).ram =~= m.ram.insert(0, sp - 1).insert(13, wrap(y + x)).insert(
        14,
        x,
    ).insert(sp - 2, wrap(y + x)));
}

/// `sub` replaces the two topmost words by their difference: the word
/// pushed later is taken from the word pushed earlier. With the stack
/// pointer at 15 the law holds for equal operands only.
pub proof fn lemma_sub(rom: Seq<LineView>, symbols: Symbols, m: Machine)
    requires
        loaded(rom, symbols, m.pc, SimpleEmitter::sub_code()),
        3 <= m.ram[0] <= 32767,
        m.ram[0] != 15 || m.ram[13] == m.ram[14],
    ensures
        ({
            let sp = m.ram[0];
            let x = m.ram[sp - 2];
            let y = m.ram[sp - 1];
            let r = run(rom, symbols, m, 24);
            &&& r.pc == m.pc + 24
            &&& r.ram == m.ram.insert(0, sp - 1).insert(13, wrap(x - y)).insert(14, x).insert(
                sp - 2,
                wrap(x - y),
            )
        }),
        size(SimpleEmitter::sub_code()) == 24,
{
    let pops = SimpleEmitter::stack_to_temp_code(TempRegister::T0)
        + SimpleEmitter::stack_to_temp_code(TempRegister::T1);
    let difference = SimpleEmitter::sub_temp_code(
        TempRegister::T0,
        TempRegister::T1,
        TempRegister::T0,
    );
    let push = SimpleEmitter::temp_to_stack_code(TempRegister::T0);
    lemma_loaded_concat(rom, symbols, m.pc, pops + difference + push, seq![LineView::Blank]);
    assert(size(seq![LineView::Blank]) == 0) by {
        reveal_with_fuel(instructions_from, 2);
    }
    lemma_loaded_concat(rom, symbols, m.pc, pops + difference, push);
    lemma_loaded_concat(rom, symbols, m.pc, pops, difference);
    lemma_operands_to_temps(rom, symbols, m);
    let popped = run(rom, symbols, m, 12);
    lemma_sub_temp(rom, symbols, popped, TempRegister::T0, TempRegister::T1, TempRegister::T0);
    let subtracted = run(rom, symbols, popped, 6);
    lemma_temp_to_stack(rom, symbols, subtracted, TempRegister::T0);
    lemma_run_add(rom, symbols, m, 12, 6);
    lemma_run_add(rom, symbols, m, 18, 6);
    let sp = m.ram[0];
    let x = m.ram[sp - 2];
    let y = m.ram[sp - 1];
    assert(run(rom, symbols, m, 24).ram =~= m.ram.insert(0, sp - 1).insert(13, wrap(x - y)).insert(
        14,
        x,
    ).insert(sp - 2, wrap(x - y)));
}

/// The number of steps that `eq` takes on the operands `x` and `y`.
pub open spec fn eq_steps(x: int, y: int) -> nat {
    if x == y {
        31
    } else {
        33
    }
}

/// `eq` replaces the two topmost words by the truth of their equality: all
/// ones when they are equal, zero when they are not, also where their
/// difference wraps around.
///
/// The operands have to lie in words of memory other than the stack
/// pointer, so the stack pointer is 3 at least. With the stack pointer at 15
/// the lower operand lies in the scratch register 13, which the code uses:
/// the law then holds for equal operands only.
#[verifier::rlimit(40)]
pub proof fn lemma_eq(rom: Seq<LineView>, symbols: Symbols, m: Machine, labels: nat)
    requires
        loaded(rom, symbols, m.pc, SimpleEmitter::eq_code(labels)),
        3 <= m.ram[0] <= 32767,
        m.ram[0] != 15 || m.ram[13] == m.ram[14],
        is_word(m.ram[m.ram[0] - 1]),
        is_word(m.ram[m.ram[0] - 2]),
    ensures
        ({
            let sp = m.ram[0];
            let x = m.ram[sp - 2];
            let y = m.ram[sp - 1];
            let r = run(rom, symbols, m, eq_steps(x, y));
            &&& r.pc == m.pc + 34
            &&& r.ram[0] == sp - 1
            &&& r.ram[sp - 2] == truth(x == y)
            &&& forall|address: int|
                address != 0 && address != 13 && address != 14 && address != sp - 2
                    ==> r.ram[address] == m.ram[address]
        }),
        size(SimpleEmitter::eq_code(labels)) == 34,
{
    let pops = SimpleEmitter::stack_to_temp_code(TempRegister::T0)
        + SimpleEmitter::stack_to_temp_code(TempRegister::T1);
    let difference = SimpleEmitter::sub_temp_code(
        TempRegister::T0,
        TempRegister::T0,
        TempRegister::T1,
    );
    let test = SimpleEmitter::not_zero_tmp_code(TempRegister::T0, labels);
    let push = SimpleEmitter::temp_to_stack_code(TempRegister::T0);
    lemma_loaded_concat(rom, symbols, m.pc, pops + difference + test, push);
    lemma_loaded_concat(rom, symbols, m.pc, pops + difference, test);
    lemma_loaded_concat(rom, symbols, m.pc, pops, difference);
    let sp = m.ram[0];
    let x = m.ram[sp - 2];
    let y = m.ram[sp - 1];
    lemma_operands_to_temps(rom, symbols, m);
    let popped = run(rom, symbols, m, 12);
    lemma_sub_temp(rom, symbols, popped, TempRegister::T0, TempRegister::T0, TempRegister::T1);
    let subtracted = run(rom, symbols, popped, 6);
    assert(subtracted.ram[13] == wrap(y - x));
    assert((wrap(y - x) == 0) == (x == y));
    lemma_not_zero_tmp(rom, symbols, subtracted, TempRegister::T0, labels);
    let steps: nat = if x == y {
        7
    } else {
        9
    };
    let tested = run(rom, symbols, subtracted, steps);
    lemma_temp_to_stack(rom, symbols, tested, TempRegister::T0);
    lemma_run_add(rom, symbols, m, 12, 6);
    lemma_run_add(rom, symbols, m, 18, steps);
    lemma_run_add(rom, symbols, m, 18 + steps, 6);
}

/// `lt` replaces the two topmost words, `x` below `y`, by the truth of
/// `x < y`, provided their difference is itself a word.
pub proof fn lemma_lt(rom: Seq<LineView>, symbols: Symbols, m: Machine, labels: nat)
    requires
        loaded(rom, symbols, m.pc, SimpleEmitter::lt_code(labels)),
        3 <= m.ram[0] <= 32767,
        is_word(m.ram[m.ram[0] - 1]),
        is_word(m.ram[m.ram[0] - 2]),
        is_word(m.ram[m.ram[0] - 2] - m.ram[m.ram[0] - 1]),
    ensures
        ({
            let sp = m.ram[0];
            let x = m.ram[sp - 2];
            let y = m.ram[sp - 1];
            let r = run(rom, symbols, m, compare_steps(x < y));
            &&& r.pc == m.pc + 17
            &&& r.ram == m.ram.insert(0, sp - 1).insert(sp - 2, truth(x < y))
        }),
        size(SimpleEmitter::lt_code(labels)) == 17,
{
    lemma_difference(m.ram[m.ram[0] - 2], m.ram[m.ram[0] - 1]);
    lemma_compare(
        rom,
        symbols,
        m,
        Comp::AMinusD,
        Jump::Jlt,
        next_label("is_lt"@, labels),
        next_label("is_not_lt"@, labels + 1),
        next_label("end"@, labels + 2),
    );
}

/// `gt` replaces the two topmost words, `x` below `y`, by the truth of
/// `x > y`, provided their difference is itself a word.
pub proof fn lemma_gt(rom: Seq<LineView>, symbols: Symbols, m: Machine, labels: nat)
    requires
        loaded(rom, symbols, m.pc, SimpleEmitter::gt_code(labels)),
        3 <= m.ram[0] <= 32767,
        is_word(m.ram[m.ram[0] - 1]),
        is_word(m.ram[m.ram[0] - 2]),
        is_word(m.ram[m.ram[0] - 1] - m.ram[m.ram[0] - 2]),
    ensures
        ({
            let sp = m.ram[0];
            let x = m.ram[sp - 2];
            let y = m.ram[sp - 1];
            let r = run(rom, symbols, m, compare_steps(x > y));
            &&& r.pc == m.pc + 17
            &&& r.ram == m.ram.insert(0, sp - 1).insert(sp - 2, truth(x > y))
        }),
        size(SimpleEmitter::gt_code(labels)) == 17,
{
    lemma_difference(m.ram[m.ram[0] - 1], m.ram[m.ram[0] - 2]);
    lemma_compare(
        rom,
        symbols,
        m,
        Comp::DMinusA,
        Jump::Jlt,
        next_label("is_gt"@, labels),
        next_label("is_not_gt"@, labels + 1),
        next_label("end"@, labels + 2),
    );
}

/// A round trip through a segment: after `push constant k`, `pop local 0`
/// and `push local 0`, the stack pointer is one above where it was and the
/// top of the stack is `k`.
///
/// The stack pointer and the local segment have to point to words of
/// memory other than the stack pointer and LCL themselves, and the stack
/// needs two free slots. Where the stack pointer points to LCL, so that the
/// push makes `k` the base of the local segment, the law still holds unless
/// `k` is zero.
#[verifier::rlimit(40)]
pub proof fn lemma_round_trip(rom: Seq<LineView>, symbols: Symbols, m: Machine, k: i16)
    requires
        loaded(
            rom,
            symbols,
            m.pc,
            SimpleEmitter::push_const_code(k) + pop_segment(Segment::Local, 0) + push_segment(
                Segment::Local,
                0,
            ),
        ),
        1 <= m.ram[0] <= 32765,
        m.ram[0] >= 2 ==> 2 <= m.ram[1] <= 32767,
        m.ram[0] == 1 ==> k != 0,
    ensures
        ({
            let sp = m.ram[0];
            let r = run(rom, symbols, m, 36);
            &&& r.pc == m.pc + 36
            &&& r.ram[0] == sp + 1
            &&& r.ram[r.ram[0] - 1] == k
        }),
{
    let push = SimpleEmitter::push_const_code(k);
    let pop = pop_segment(Segment::Local, 0);
    let again = push_segment(Segment::Local, 0);
    lemma_loaded_concat(rom, symbols, m.pc, push + pop, again);
    lemma_loaded_concat(rom, symbols, m.pc, push, pop);
    let sp = m.ram[0];
    lemma_push_const(rom, symbols, m, k);
    let pushed = run(rom, symbols, m, 6);
    let local = pushed.ram[1];
    assert(pushed.ram[0] == sp + 1 && pushed.ram[sp] == k);
    assert(local != 0 && is_word(local));
    lemma_pop_segment(rom, symbols, pushed, Segment::Local, 0);
    let popped = run(rom, symbols, pushed, 21);
    assert(popped.ram[0] == sp && popped.ram[1] == local && popped.ram[local] == k);
    lemma_push_segment(rom, symbols, popped, Segment::Local, 0);
    lemma_run_add(rom, symbols, m, 6, 21);
    lemma_run_add(rom, symbols, m, 27, 9);
}

} // verus!
