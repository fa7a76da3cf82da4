//! What the instruction sequences that both emitters share do when the
//! machine runs them.
//!
//! Each law speaks of code that is loaded at the program counter, and says
//! after how many steps the machine has left the code and in which state.
//! A law asks of the stack pointer only what it takes for the operands to
//! lie in words of memory other than the stack pointer itself.

use vstd::prelude::*;
use crate::assembly::{Comp, Jump, LineView};
use crate::code::{
    bootstrap,
    change_top,
    combine_top,
    compare,
    fetch_word,
    goto_code,
    ifgoto_code,
    label_code,
    pop_segment,
    push_segment,
    segment_base,
    sp_at_offset,
    stack_to_d,
    entry_symbol,
    static_symbol,
    store_top,
    STACK_ORIGIN,
};
use crate::machine::{
    and_words,
    bits,
    compute,
    instructions_from,
    is_word,
    jumps,
    lemma_count_down,
    lemma_loaded_concat,
    lemma_run_add,
    loaded,
    loaded_from,
    or_words,
    run,
    size,
    wrap,
    Machine,
    Symbols,
};
use crate::parser::Segment;
use crate::symbols::user_label;

verus! {

/// The address at which a segment starts in the state `m`.
pub open spec fn segment_start(segment: Segment, symbols: Symbols, m: Machine) -> int {
    match segment {
        Segment::Local => m.ram[1],
        Segment::Argument => m.ram[2],
        Segment::This => m.ram[3],
        Segment::That => m.ram[4],
        Segment::Pointer => 3,
        Segment::Temp => 5,
        Segment::Static => symbols[static_symbol()],
        Segment::Constant => 0,
    }
}

/// The word that stands for a truth value: all ones for true, zero for
/// false.
pub open spec fn truth(b: bool) -> int {
    if b {
        -1
    } else {
        0
    }
}

/// In the word for true every bit is set.
pub proof fn lemma_truth_bits()
    ensures
        bits(truth(true)) == 0xFFFF,
        bits(truth(false)) == 0,
{
}

/// Popping the top of the stack into D.
pub proof fn lemma_stack_to_d(rom: Seq<LineView>, symbols: Symbols, m: Machine)
    requires
        loaded(rom, symbols, m.pc, stack_to_d()),
        2 <= m.ram[0] <= 32767,
    ensures
        run(rom, symbols, m, 4).pc == m.pc + 4,
        run(rom, symbols, m, 4).d == m.ram[m.ram[0] - 1],
        run(rom, symbols, m, 4).ram == m.ram.insert(0, m.ram[0] - 1),
        size(stack_to_d()) == 4,
{
    reveal_with_fuel(loaded_from, 5);
    reveal_with_fuel(instructions_from, 5);
    reveal_with_fuel(run, 5);
}


/// [`sp_at_offset`] leaves in A the address of the slot `depth` below the
/// stack pointer, and changes nothing else.
pub proof fn lemma_sp_at_offset(rom: Seq<LineView>, symbols: Symbols, m: Machine, depth: nat)
    requires
        loaded(rom, symbols, m.pc, sp_at_offset(depth)),
        is_word(m.ram[0]),
        is_word(m.ram[0] - depth),
    ensures
        run(rom, symbols, m, 2 + depth) == (Machine {
            a: m.ram[0] - depth,
            pc: m.pc + 2 + depth,
            ..m
        }),
        size(sp_at_offset(depth)) == 2 + depth,
{
    let lines = sp_at_offset(depth);
    reveal_with_fuel(loaded_from, 3);
    reveal_with_fuel(instructions_from, 3);
    let at_slot = run(rom, symbols, m, 2);
    assert(at_slot == (Machine { a: m.ram[0], pc: m.pc + 2, ..m })) by {
        reveal_with_fuel(run, 3);
    }
    assert(instructions_from(lines, lines.len() as int) == 0);
    lemma_count_down(rom, symbols, at_slot, lines, 2, depth);
    lemma_run_add(rom, symbols, m, 2, depth);
}

/// The code that loads a segment's base leaves that base in D.
pub proof fn lemma_segment_base(rom: Seq<LineView>, symbols: Symbols, m: Machine, segment: Segment)
    requires
        loaded(rom, symbols, m.pc, segment_base(segment)),
        segment != Segment::Constant,
    ensures
        ({
            let r = run(rom, symbols, m, 2);
            &&& r.pc == m.pc + 2
            &&& r.d == segment_start(segment, symbols, m)
            &&& r.ram == m.ram
            &&& size(segment_base(segment)) == 2
        }),
{
    reveal_with_fuel(loaded_from, 3);
    reveal_with_fuel(instructions_from, 3);
    reveal_with_fuel(run, 3);
}

/// [`store_top`] moves the top of the stack into the word `offset` behind
/// the address in D.
#[verifier::rlimit(40)]
pub proof fn lemma_store_top(rom: Seq<LineView>, symbols: Symbols, m: Machine, offset: i16)
    requires
        loaded(rom, symbols, m.pc, store_top(offset)),
        2 <= m.ram[0] <= 32766,
        is_word(m.d),
        is_word(m.d + offset),
        m.d + offset != 0,
    ensures
        ({
            let sp = m.ram[0];
            let target = m.d + offset;
            let r = run(rom, symbols, m, 19);
            &&& r.pc == m.pc + 19
            &&& r.ram == m.ram.insert(sp, target).insert(target, m.ram[sp - 1]).insert(0, sp - 1)
            &&& size(store_top(offset)) == 19
        }),
{
    reveal_with_fuel(loaded_from, 21);
    assert(size(store_top(offset)) == 19) by {
        reveal_with_fuel(instructions_from, 21);
    }
    let sp = m.ram[0];
    let target = m.d + offset;
    let value = m.ram[sp - 1];
    let parked = run(rom, symbols, m, 7);
    assert(parked.pc == m.pc + 7 && parked.ram == m.ram.insert(sp, target).insert(0, sp + 1)) by {
        reveal_with_fuel(run, 8);
    }
    let fetched = run(rom, symbols, parked, 5);
    assert(fetched.pc == m.pc + 12 && fetched.d == value && fetched.ram == parked.ram.insert(
        0,
        sp,
    ).insert(0, sp - 1)) by {
        reveal_with_fuel(run, 6);
    }
    let stored = run(rom, symbols, fetched, 7);
    assert(stored.pc == m.pc + 19 && stored.ram == fetched.ram.insert(0, sp).insert(
        target,
        value,
    ).insert(0, sp - 1)) by {
        reveal_with_fuel(run, 8);
    }
    lemma_run_add(rom, symbols, m, 7, 5);
    lemma_run_add(rom, symbols, m, 12, 7);
    assert(stored.ram =~= m.ram.insert(sp, target).insert(target, value).insert(0, sp - 1));
}

/// [`fetch_word`] pushes the word `offset` behind the address in D.
#[verifier::rlimit(40)]
pub proof fn lemma_fetch_word(rom: Seq<LineView>, symbols: Symbols, m: Machine, offset: i16)
    requires
        loaded(rom, symbols, m.pc, fetch_word(offset)),
        0 <= m.ram[0] <= 32766,
        is_word(m.d),
        is_word(m.d + offset),
    ensures
        ({
            let sp = m.ram[0];
            let r = run(rom, symbols, m, 7);
            &&& r.pc == m.pc + 7
            &&& r.ram == m.ram.insert(0, sp + 1).insert(sp, m.ram[m.d + offset])
            &&& size(fetch_word(offset)) == 7
        }),
{
    reveal_with_fuel(loaded_from, 9);
    reveal_with_fuel(instructions_from, 9);
    reveal_with_fuel(run, 8);
}

/// `pop segment offset` moves the top of the stack into the segment's word.
/// One word above the stack is used on the way.
pub proof fn lemma_pop_segment(
    rom: Seq<LineView>,
    symbols: Symbols,
    m: Machine,
    segment: Segment,
    offset: i16,
)
    requires
        loaded(rom, symbols, m.pc, pop_segment(segment, offset)),
        segment != Segment::Constant,
        2 <= m.ram[0] <= 32766,
        is_word(segment_start(segment, symbols, m)),
        is_word(segment_start(segment, symbols, m) + offset),
        segment_start(segment, symbols, m) + offset != 0,
    ensures
        ({
            let sp = m.ram[0];
            let target = segment_start(segment, symbols, m) + offset;
            let r = run(rom, symbols, m, 21);
            &&& r.pc == m.pc + 21
            &&& r.ram == m.ram.insert(sp, target).insert(target, m.ram[sp - 1]).insert(0, sp - 1)
            &&& size(pop_segment(segment, offset)) == 21
        }),
{
    lemma_loaded_concat(rom, symbols, m.pc, segment_base(segment), store_top(offset));
    lemma_segment_base(rom, symbols, m, segment);
    let mid = run(rom, symbols, m, 2);
    lemma_store_top(rom, symbols, mid, offset);
    lemma_run_add(rom, symbols, m, 2, 19);
}

/// `push segment offset` puts the segment's word on the stack.
pub proof fn lemma_push_segment(
    rom: Seq<LineView>,
    symbols: Symbols,
    m: Machine,
    segment: Segment,
    offset: i16,
)
    requires
        loaded(rom, symbols, m.pc, push_segment(segment, offset)),
        segment != Segment::Constant,
        0 <= m.ram[0] <= 32766,
        is_word(segment_start(segment, symbols, m)),
        is_word(segment_start(segment, symbols, m) + offset),
    ensures
        ({
            let sp = m.ram[0];
            let source = segment_start(segment, symbols, m) + offset;
            let r = run(rom, symbols, m, 9);
            &&& r.pc == m.pc + 9
            &&& r.ram == m.ram.insert(0, sp + 1).insert(sp, m.ram[source])
            &&& size(push_segment(segment, offset)) == 9
        }),
{
    lemma_loaded_concat(rom, symbols, m.pc, segment_base(segment), fetch_word(offset));
    lemma_segment_base(rom, symbols, m, segment);
    let mid = run(rom, symbols, m, 2);
    lemma_fetch_word(rom, symbols, mid, offset);
    lemma_run_add(rom, symbols, m, 2, 7);
}

/// `neg` and `not` replace the topmost word by what the computation
/// `change` makes of it.
pub proof fn lemma_change_top(rom: Seq<LineView>, symbols: Symbols, m: Machine, change: Comp)
    requires
        loaded(rom, symbols, m.pc, change_top(change)),
        change == Comp::NegD || change == Comp::NotD,
        2 <= m.ram[0] <= 32767,
    ensures
        ({
            let sp = m.ram[0];
            let x = m.ram[sp - 1];
            let r = run(rom, symbols, m, 5);
            &&& r.pc == m.pc + 5
            &&& r.ram == m.ram.insert(
                sp - 1,
                if change == Comp::NegD {
                    wrap(-x)
                } else {
                    -x - 1
                },
            )
        }),
        size(change_top(change)) == 5,
{
    reveal_with_fuel(loaded_from, 7);
    reveal_with_fuel(instructions_from, 7);
    reveal_with_fuel(run, 6);
}

/// `and` and `or` replace the two topmost words by their combination bit
/// by bit.
pub proof fn lemma_combine_top(rom: Seq<LineView>, symbols: Symbols, m: Machine, combine: Comp)
    requires
        loaded(rom, symbols, m.pc, combine_top(combine)),
        combine == Comp::DAndM || combine == Comp::DOrM,
        3 <= m.ram[0] <= 32767,
    ensures
        ({
            let sp = m.ram[0];
            let x = m.ram[sp - 2];
            let y = m.ram[sp - 1];
            let r = run(rom, symbols, m, 7);
            &&& r.pc == m.pc + 7
            &&& r.ram == m.ram.insert(0, sp - 1).insert(
                sp - 2,
                if combine == Comp::DAndM {
                    and_words(y, x)
                } else {
                    or_words(y, x)
                },
            )
        }),
        size(combine_top(combine)) == 7,
{
    reveal_with_fuel(loaded_from, 9);
    reveal_with_fuel(instructions_from, 9);
    reveal_with_fuel(run, 8);
}

/// The number of steps that a comparison takes when the answer is `yes`.
pub open spec fn compare_steps(yes: bool) -> nat {
    if yes {
        14
    } else {
        16
    }
}

/// The difference of two words is negative exactly when the first is the
/// smaller one, provided the difference is itself a word; it is zero
/// exactly when the two are equal.
pub proof fn lemma_difference(x: int, y: int)
    requires
        is_word(x),
        is_word(y),
    ensures
        (wrap(x - y) == 0) == (x == y),
        is_word(x - y) ==> (wrap(x - y) < 0) == (x < y),
{
}

/// A comparison replaces the two topmost words, `x` below `y`, by the
/// truth of `test` jumping on their difference: `x - y` where `difference`
/// is `A-D`, and `y - x` where it is `D-A`. What the sign of a difference
/// says about the operands is stated by [`lemma_difference`].
#[verifier::rlimit(40)]
pub proof fn lemma_compare(
    rom: Seq<LineView>,
    symbols: Symbols,
    m: Machine,
    difference: Comp,
    test: Jump,
    yes: Seq<char>,
    no: Seq<char>,
    end: Seq<char>,
)
    requires
        loaded(rom, symbols, m.pc, compare(difference, test, yes, no, end)),
        difference == Comp::AMinusD || difference == Comp::DMinusA,
        test == Jump::Jlt || test == Jump::Jeq,
        3 <= m.ram[0] <= 32767,
    ensures
        ({
            let sp = m.ram[0];
            let x = m.ram[sp - 2];
            let y = m.ram[sp - 1];
            let answer = jumps(test, compute(difference, x, y, 0));
            let r = run(rom, symbols, m, compare_steps(answer));
            &&& r.pc == m.pc + 17
            &&& r.ram == m.ram.insert(0, sp - 1).insert(sp - 2, truth(answer))
        }),
        size(compare(difference, test, yes, no, end)) == 17,
{
    let sp = m.ram[0];
    let x = m.ram[sp - 2];
    let y = m.ram[sp - 1];
    let value = compute(difference, x, y, 0);
    let answer = jumps(test, value);
    reveal_with_fuel(loaded_from, 22);
    assert(size(compare(difference, test, yes, no, end)) == 17) by {
        reveal_with_fuel(instructions_from, 22);
    }
    let popped = run(rom, symbols, m, 4);
    assert(popped.pc == m.pc + 4 && popped.d == y && popped.ram == m.ram.insert(0, sp - 1)) by {
        reveal_with_fuel(run, 5);
    }
    let decided = run(rom, symbols, popped, 6);
    assert(decided.ram == popped.ram && decided.pc == (if answer {
        m.pc + 13
    } else {
        m.pc + 10
    })) by {
        reveal_with_fuel(run, 7);
    }
    if answer {
        let r = run(rom, symbols, decided, 4);
        assert(r.pc == m.pc + 17 && r.ram == decided.ram.insert(sp - 2, -1)) by {
            reveal_with_fuel(run, 5);
        }
        lemma_run_add(rom, symbols, m, 4, 6);
        lemma_run_add(rom, symbols, m, 10, 4);
    } else {
        let r = run(rom, symbols, decided, 6);
        assert(r.pc == m.pc + 17 && r.ram == decided.ram.insert(sp - 2, 0)) by {
            reveal_with_fuel(run, 7);
        }
        lemma_run_add(rom, symbols, m, 4, 6);
        lemma_run_add(rom, symbols, m, 10, 6);
    }
}

/// The bootstrap sets the stack pointer to its origin and moves control to
/// the entry point of the program.
pub proof fn lemma_bootstrap(rom: Seq<LineView>, symbols: Symbols, m: Machine)
    requires
        loaded(rom, symbols, m.pc, bootstrap()),
    ensures
        run(rom, symbols, m, 6).pc == symbols[entry_symbol()],
        run(rom, symbols, m, 6).ram == m.ram.insert(0, STACK_ORIGIN as int),
        size(bootstrap()) == 6,
{
    reveal_with_fuel(loaded_from, 8);
    reveal_with_fuel(instructions_from, 8);
    reveal_with_fuel(run, 7);
}

/// A label takes no room in the program, and stands for the address at
/// which it is loaded.
pub proof fn lemma_label(rom: Seq<LineView>, symbols: Symbols, at: int, name: Seq<char>)
    requires
        loaded(rom, symbols, at, label_code(name)),
    ensures
        symbols[user_label(name)] == at,
        size(label_code(name)) == 0,
{
    reveal_with_fuel(loaded_from, 2);
    reveal_with_fuel(instructions_from, 2);
}

/// `goto` moves control to the label and changes nothing else.
pub proof fn lemma_goto(rom: Seq<LineView>, symbols: Symbols, m: Machine, name: Seq<char>)
    requires
        loaded(rom, symbols, m.pc, goto_code(name)),
    ensures
        ({
            let r = run(rom, symbols, m, 2);
            &&& r.pc == symbols[user_label(name)]
            &&& r.ram == m.ram
            &&& r.d == m.d
            &&& size(goto_code(name)) == 2
        }),
{
    reveal_with_fuel(loaded_from, 4);
    reveal_with_fuel(instructions_from, 4);
    reveal_with_fuel(run, 3);
}

/// `if-goto` pops the top of the stack, and moves control to the label if
/// and only if the popped word is not zero.
pub proof fn lemma_ifgoto(rom: Seq<LineView>, symbols: Symbols, m: Machine, name: Seq<char>)
    requires
        loaded(rom, symbols, m.pc, ifgoto_code(name)),
        2 <= m.ram[0] <= 32767,
    ensures
        ({
            let sp = m.ram[0];
            let r = run(rom, symbols, m, 6);
            &&& r.pc == if m.ram[sp - 1] != 0 {
                symbols[user_label(name)]
            } else {
                m.pc + 6
            }
            &&& r.ram == m.ram.insert(0, sp - 1)
            &&& size(ifgoto_code(name)) == 6
        }),
{
    reveal_with_fuel(loaded_from, 8);
    reveal_with_fuel(instructions_from, 8);
    reveal_with_fuel(run, 7);
}


} // verus!
