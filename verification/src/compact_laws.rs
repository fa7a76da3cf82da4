//! What the code of the compact emitter does when the machine runs it.

use vstd::prelude::*;
use crate::assembly::{Comp, Jump, LineView};
use crate::code::{a_to_stack, pop_segment, push_segment, stack_to_d};
use crate::code_laws::{
    compare_steps,
    lemma_compare,
    lemma_difference,
    lemma_pop_segment,
    lemma_push_segment,
    truth,
};
use crate::compact_emitter::CompactEmitter;
use crate::frames::agree_but_scratch;
use crate::machine::{
    instructions_from,
    is_word,
    lemma_loaded_concat,
    lemma_run_add,
    loaded,
    loaded_from,
    run,
    size,
    wrap,
    Machine,
    Symbols,
};
use crate::parser::Segment;
use crate::symbols::next_label;

verus! {

/// The prelude does nothing when control runs into it: it is jumped over.
#[verifier::rlimit(40)]
pub proof fn lemma_prelude(rom: Seq<LineView>, symbols: Symbols, m: Machine, labels: nat)
    requires
        loaded(rom, symbols, m.pc, CompactEmitter::prelude_lines(labels)),
    ensures
        run(rom, symbols, m, 2).pc == m.pc + 12,
        run(rom, symbols, m, 2).ram == m.ram,
        size(CompactEmitter::prelude_lines(labels)) == 12,
{
    reveal_with_fuel(loaded_from, 15);
    reveal_with_fuel(instructions_from, 15);
    reveal_with_fuel(run, 3);
}

/// `push constant k` puts `k` on the stack.
pub proof fn lemma_push_const(rom: Seq<LineView>, symbols: Symbols, m: Machine, k: i16)
    requires
        loaded(rom, symbols, m.pc, CompactEmitter::push_const_code(k)),
        1 <= m.ram[0] <= 32766,
    ensures
        ({
            let sp = m.ram[0];
            let r = run(rom, symbols, m, 7);
            &&& k >= 0
            &&& r.pc == m.pc + 7
            &&& r.ram == m.ram.insert(sp, k as int).insert(0, sp + 1)
        }),
        size(CompactEmitter::push_const_code(k)) == 7,
{
    reveal_with_fuel(loaded_from, 9);
    reveal_with_fuel(instructions_from, 9);
    reveal_with_fuel(run, 8);
}

/// `add` replaces the two topmost words by their sum.
#[verifier::rlimit(40)]
pub proof fn lemma_add(rom: Seq<LineView>, symbols: Symbols, m: Machine)
    requires
        loaded(rom, symbols, m.pc, CompactEmitter::add_code()),
        3 <= m.ram[0] <= 32767,
    ensures
        ({
            let sp = m.ram[0];
            let x = m.ram[sp - 2];
            let y = m.ram[sp - 1];
            let r = run(rom, symbols, m, 15);
            &&& r.pc == m.pc + 15
            &&& r.ram == m.ram.insert(0, sp - 1).insert(sp - 2, wrap(y + x))
        }),
        size(CompactEmitter::add_code()) == 15,
{
    let sp = m.ram[0];
    let x = m.ram[sp - 2];
    let y = m.ram[sp - 1];
    let pop = stack_to_d();
    let middle = CompactEmitter::add_middle();
    let push = a_to_stack();
    lemma_loaded_concat(rom, symbols, m.pc, pop + middle + push, seq![LineView::Blank]);
    lemma_loaded_concat(rom, symbols, m.pc, pop + middle, push);
    lemma_loaded_concat(rom, symbols, m.pc, pop, middle);
    let popped = run(rom, symbols, m, 4);
    assert(popped.pc == m.pc + 4 && popped.d == y && popped.ram == m.ram.insert(0, sp - 1) && size(
        pop,
    ) == 4) by {
        reveal_with_fuel(loaded_from, 5);
        reveal_with_fuel(instructions_from, 5);
        reveal_with_fuel(run, 5);
    }
    let summed = run(rom, symbols, popped, 6);
    assert(summed.pc == popped.pc + 6 && summed.a == wrap(y + x) && summed.ram == popped.ram.insert(
        0,
        sp - 2,
    ) && size(middle) == 6) by {
        reveal_with_fuel(loaded_from, 7);
        reveal_with_fuel(instructions_from, 7);
        reveal_with_fuel(run, 7);
    }
    let pushed = run(rom, symbols, summed, 5);
    assert(pushed.pc == summed.pc + 5 && pushed.ram == summed.ram.insert(0, sp - 1).insert(
        sp - 2,
        wrap(y + x),
    ) && size(push) == 5) by {
        reveal_with_fuel(loaded_from, 6);
        reveal_with_fuel(instructions_from, 6);
        reveal_with_fuel(run, 6);
    }
    assert(size(seq![LineView::Blank]) == 0) by {
        reveal_with_fuel(instructions_from, 2);
    }
    lemma_run_add(rom, symbols, m, 4, 6);
    lemma_run_add(rom, symbols, m, 10, 5);
    assert(pushed.ram =~= m.ram.insert(0, sp - 1).insert(sp - 2, wrap(y + x)));
}

/// `sub` replaces the two topmost words by their difference: the word
/// pushed later is taken from the word pushed earlier.
#[verifier::rlimit(40)]
pub proof fn lemma_sub(rom: Seq<LineView>, symbols: Symbols, m: Machine)
    requires
        loaded(rom, symbols, m.pc, CompactEmitter::sub_code()),
        3 <= m.ram[0] <= 32767,
    ensures
        ({
            let sp = m.ram[0];
            let x = m.ram[sp - 2];
            let y = m.ram[sp - 1];
            let r = run(rom, symbols, m, 11);
            &&& r.pc == m.pc + 11
            &&& r.ram == m.ram.insert(0, sp - 1).insert(sp - 2, wrap(x - y))
        }),
        size(CompactEmitter::sub_code()) == 11,
{
    reveal_with_fuel(loaded_from, 13);
    reveal_with_fuel(instructions_from, 13);
    reveal_with_fuel(run, 12);
}

/// `eq` replaces the two topmost words by the truth of their equality: all
/// ones when they are equal, zero when they are not, also where their
/// difference wraps around. The operands have to lie in words of memory
/// other than the stack pointer, so the stack pointer is 3 at least.
pub proof fn lemma_eq(rom: Seq<LineView>, symbols: Symbols, m: Machine, labels: nat)
    requires
        loaded(rom, symbols, m.pc, CompactEmitter::eq_code(labels)),
        3 <= m.ram[0] <= 32767,
        is_word(m.ram[m.ram[0] - 1]),
        is_word(m.ram[m.ram[0] - 2]),
    ensures
        ({
            let sp = m.ram[0];
            let x = m.ram[sp - 2];
            let y = m.ram[sp - 1];
            let r = run(rom, symbols, m, compare_steps(x == y));
            &&& r.pc == m.pc + 17
            &&& r.ram == m.ram.insert(0, sp - 1).insert(sp - 2, truth(x == y))
        }),
        size(CompactEmitter::eq_code(labels)) == 17,
{
    lemma_difference(m.ram[m.ram[0] - 1], m.ram[m.ram[0] - 2]);
    lemma_compare(
        rom,
        symbols,
        m,
        Comp::DMinusA,
        Jump::Jeq,
        next_label("is_eq"@, labels),
        next_label("not_equal"@, labels + 1),
        next_label("end"@, labels + 2),
    );
}

/// `lt` replaces the two topmost words, `x` below `y`, by the truth of
/// `x < y`, provided their difference is itself a word.
pub proof fn lemma_lt(rom: Seq<LineView>, symbols: Symbols, m: Machine, labels: nat)
    requires
        loaded(rom, symbols, m.pc, CompactEmitter::lt_code(labels)),
        3 <= m.ram[0] <= 32767,
        is_word(m.ram[m.ram[0] - 1]),
        is_word(m.ram[m.ram[0] - 2]),
        is_word(m.ram[m.ram[0] - 2] - m.ram[m.ram[0] - 1]),
    ensures
        ({
            let sp = m.ram[0];
            let x = m.ram[sp - 2];
            let y = m.ram[sp - 1];
            let r = run(rom, symbols, m, compare_steps(x < y));
            &&& r.pc == m.pc + 17
            &&& r.ram == m.ram.insert(0, sp - 1).insert(sp - 2, truth(x < y))
        }),
        size(CompactEmitter::lt_code(labels)) == 17,
{
    lemma_difference(m.ram[m.ram[0] - 2], m.ram[m.ram[0] - 1]);
    lemma_compare(
        rom,
        symbols,
        m,
        Comp::AMinusD,
        Jump::Jlt,
        next_label("is_lt"@, labels),
        next_label("is_not_lt"@, labels + 1),
        next_label("end"@, labels + 2),
    );
}

/// `gt` replaces the two topmost words, `x` below `y`, by the truth of
/// `x > y`, provided their difference is itself a word.
pub proof fn lemma_gt(rom: Seq<LineView>, symbols: Symbols, m: Machine, labels: nat)
    requires
        loaded(rom, symbols, m.pc, CompactEmitter::gt_code(labels)),
        3 <= m.ram[0] <= 32767,
        is_word(m.ram[m.ram[0] - 1]),
        is_word(m.ram[m.ram[0] - 2]),
        is_word(m.ram[m.ram[0] - 1] - m.ram[m.ram[0] - 2]),
    ensures
        ({
            let sp = m.ram[0];
            let x = m.ram[sp - 2];
            let y = m.ram[sp - 1];
            let r = run(rom, symbols, m, compare_steps(x > y));
            &&& r.pc == m.pc + 17
            &&& r.ram == m.ram.insert(0, sp - 1).insert(sp - 2, truth(x > y))
        }),
        size(CompactEmitter::gt_code(labels)) == 17,
{
    lemma_difference(m.ram[m.ram[0] - 1], m.ram[m.ram[0] - 2]);
    lemma_compare(
        rom,
        symbols,
        m,
        Comp::DMinusA,
        Jump::Jlt,
        next_label("is_gt"@, labels),
        next_label("is_not_gt"@, labels + 1),
        next_label("end"@, labels + 2),
    );
}

/// `neg` negates the topmost word, by way of the subroutine that the
/// prelude holds somewhere in the program. The scratch register 15 is used
/// on the way: the law leaves out the stack pointer 16, at which the
/// operand lies in that register.
#[verifier::rlimit(40)]
pub proof fn lemma_neg(
    rom: Seq<LineView>,
    symbols: Symbols,
    m: Machine,
    labels: nat,
    prelude_at: int,
    prelude_labels: nat,
)
    requires
        loaded(rom, symbols, m.pc, CompactEmitter::neg_code(labels)),
        loaded(rom, symbols, prelude_at, CompactEmitter::prelude_lines(prelude_labels)),
        2 <= m.ram[0] <= 32767,
        m.ram[0] != 16,
    ensures
        ({
            let sp = m.ram[0];
            let r = run(rom, symbols, m, 14);
            &&& r.pc == m.pc + 4
            &&& r.ram == m.ram.insert(15, m.pc + 4).insert(sp - 1, wrap(-m.ram[sp - 1]))
            &&& agree_but_scratch(r.ram, m.ram.insert(sp - 1, wrap(-m.ram[sp - 1])))
        }),
        size(CompactEmitter::neg_code(labels)) == 4,
{
    let sp = m.ram[0];
    reveal_with_fuel(loaded_from, 15);
    assert(size(CompactEmitter::neg_code(labels)) == 4) by {
        reveal_with_fuel(instructions_from, 6);
    }
    let entered = run(rom, symbols, m, 4);
    assert(entered.pc == prelude_at + 2 && entered.d == m.pc + 4 && entered.ram == m.ram) by {
        reveal_with_fuel(run, 5);
    }
    let r = run(rom, symbols, entered, 10);
    assert(r.pc == m.pc + 4 && r.ram == m.ram.insert(15, m.pc + 4).insert(
        sp - 1,
        wrap(-m.ram[sp - 1]),
    )) by {
        reveal_with_fuel(run, 11);
    }
    lemma_run_add(rom, symbols, m, 4, 10);
}

/// A round trip through a segment: after `push constant k`, `pop local 0`
/// and `push local 0`, the stack pointer is one above where it was and the
/// top of the stack is `k`.
///
/// The stack pointer and the local segment have to point to words of
/// memory other than the stack pointer and LCL themselves, and the stack
/// needs two free slots. Where the stack pointer points to LCL, so that the
/// push makes `k` the base of the local segment, the law still holds unless
/// `k` is zero.
#[verifier::rlimit(40)]
pub proof fn lemma_round_trip(rom: Seq<LineView>, symbols: Symbols, m: Machine, k: i16)
    requires
        loaded(
            rom,
            symbols,
            m.pc,
            CompactEmitter::push_const_code(k) + pop_segment(Segment::Local, 0) + push_segment(
                Segment::Local,
                0,
            ),
        ),
        1 <= m.ram[0] <= 32765,
        m.ram[0] >= 2 ==> 2 <= m.ram[1] <= 32767,
        m.ram[0] == 1 ==> k != 0,
    ensures
        ({
            let sp = m.ram[0];
            let r = run(rom, symbols, m, 37);
            &&& r.pc == m.pc + 37
            &&& r.ram[0] == sp + 1
            &&& r.ram[r.ram[0] - 1] == k
        }),
{
    let push = CompactEmitter::push_const_code(k);
    let pop = pop_segment(Segment::Local, 0);
    let again = push_segment(Segment::Local, 0);
    lemma_loaded_concat(rom, symbols, m.pc, push + pop, again);
    lemma_loaded_concat(rom, symbols, m.pc, push, pop);
    let sp = m.ram[0];
    lemma_push_const(rom, symbols, m, k);
    let pushed = run(rom, symbols, m, 7);
    let local = pushed.ram[1];
    assert(pushed.ram[0] == sp + 1 && pushed.ram[sp] == k);
    assert(local != 0 && is_word(local));
    lemma_pop_segment(rom, symbols, pushed, Segment::Local, 0);
    let popped = run(rom, symbols, pushed, 21);
    assert(popped.ram[0] == sp && popped.ram[1] == local && popped.ram[local] == k);
    lemma_push_segment(rom, symbols, popped, Segment::Local, 0);
    lemma_run_add(rom, symbols, m, 7, 21);
    lemma_run_add(rom, symbols, m, 28, 9);
}

} // verus!
