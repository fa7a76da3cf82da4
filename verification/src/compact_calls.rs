//! What the calling convention of the compact emitter does when the machine
//! runs it: function entry, call and return.

use vstd::prelude::*;
use crate::assembly::{Comp, Dest, LineView, Register};
use crate::code::{count_of, push_segment, repeat};
use crate::code_laws::lemma_push_segment;
use crate::compact_emitter::CompactEmitter;
use crate::compact_laws::lemma_push_const;
use crate::frames::{agree_but_scratch, called, return_address, returned};
use crate::machine::{
    instructions_from,
    is_word,
    lemma_loaded_concat,
    lemma_run_add,
    loaded,
    loaded_from,
    register_address,
    run,
    size,
    Machine,
    Symbols,
};
use crate::parser::Segment;
use crate::symbols::return_label;

verus! {

/// `k` words are set to zero from the address in A upwards, and A ends
/// behind them.
pub proof fn lemma_zero_run(rom: Seq<LineView>, symbols: Symbols, m: Machine, k: nat)
    requires
        loaded(rom, symbols, m.pc, repeat(CompactEmitter::zero_local(), k)),
        is_word(m.a),
        is_word(m.a + k),
    ensures
        ({
            let r = run(rom, symbols, m, 2 * k);
            &&& r.pc == m.pc + 2 * k
            &&& r.a == m.a + k
            &&& forall|address: int|
                r.ram[address] == if m.a <= address < m.a + k {
                    0
                } else {
                    m.ram[address]
                }
        }),
        size(repeat(CompactEmitter::zero_local(), k)) == 2 * k,
    decreases k,
{
    let block = CompactEmitter::zero_local();
    if k == 0 {
        reveal_with_fuel(instructions_from, 1);
    } else {
        let before = repeat(block, (k - 1) as nat);
        lemma_loaded_concat(rom, symbols, m.pc, before, block);
        lemma_zero_run(rom, symbols, m, (k - 1) as nat);
        let mid = run(rom, symbols, m, (2 * (k - 1)) as nat);
        let r = run(rom, symbols, mid, 2);
        assert(r.pc == mid.pc + 2 && r.a == mid.a + 1 && r.ram == mid.ram.insert(mid.a, 0) && size(
            block,
        ) == 2) by {
            reveal_with_fuel(loaded_from, 3);
            reveal_with_fuel(instructions_from, 3);
            reveal_with_fuel(run, 3);
        }
        lemma_run_add(rom, symbols, m, (2 * (k - 1)) as nat, 2);
    }
}

/// The number of steps that the entry of a function with `n_vars` local
/// variables takes.
pub open spec fn function_steps(n_vars: i16) -> nat {
    if n_vars > 0 {
        5 + 2 * count_of(n_vars)
    } else {
        0
    }
}

/// `function symbol n_vars` stands at the address that `symbol` names, and
/// reserves the local variables: the stack grows by their number, a negative
/// one counting as none, and the new words are zero.
pub proof fn lemma_function(
    rom: Seq<LineView>,
    symbols: Symbols,
    m: Machine,
    n_vars: i16,
    symbol: Seq<char>,
)
    requires
        loaded(rom, symbols, m.pc, CompactEmitter::function_code(n_vars, symbol)),
        16 <= m.ram[0],
        m.ram[0] + count_of(n_vars) <= 32767,
    ensures
        ({
            let sp = m.ram[0];
            let k = count_of(n_vars);
            let r = run(rom, symbols, m, function_steps(n_vars));
            &&& symbols[symbol] == m.pc
            &&& r.pc == m.pc + function_steps(n_vars)
            &&& forall|address: int|
                r.ram[address] == if address == 0 {
                    sp + k
                } else if sp <= address < sp + k {
                    0
                } else {
                    m.ram[address]
                }
        }),
        size(CompactEmitter::function_code(n_vars, symbol)) == function_steps(n_vars),
{
    if n_vars > 0 {
        let k = count_of(n_vars);
        let sp = m.ram[0];
        let entry = seq![
            LineView::Label(symbol),
            LineView::at(Register::Sp),
            LineView::set(Dest::A, Comp::M),
        ];
        let zeros = repeat(CompactEmitter::zero_local(), k);
        let leave = seq![
            LineView::set(Dest::D, Comp::A),
            LineView::at(Register::Sp),
            LineView::set(Dest::M, Comp::D),
        ];
        lemma_loaded_concat(rom, symbols, m.pc, entry + zeros, leave);
        lemma_loaded_concat(rom, symbols, m.pc, entry, zeros);
        let entered = run(rom, symbols, m, 2);
        assert(symbols[symbol] == m.pc && entered == (Machine { a: sp, pc: m.pc + 2, ..m }) && size(
            entry,
        ) == 2) by {
            reveal_with_fuel(loaded_from, 4);
            reveal_with_fuel(instructions_from, 4);
            reveal_with_fuel(run, 3);
        }
        lemma_zero_run(rom, symbols, entered, k);
        let zeroed = run(rom, symbols, entered, 2 * k);
        let r = run(rom, symbols, zeroed, 3);
        assert(r.pc == zeroed.pc + 3 && r.ram == zeroed.ram.insert(0, sp + k) && size(leave) == 3) by {
            reveal_with_fuel(loaded_from, 4);
            reveal_with_fuel(instructions_from, 4);
            reveal_with_fuel(run, 4);
        }
        lemma_run_add(rom, symbols, m, 2, 2 * k);
        lemma_run_add(rom, symbols, m, 2 + 2 * k, 3);
    } else {
        reveal_with_fuel(loaded_from, 2);
        reveal_with_fuel(instructions_from, 2);
    }
}

/// The start of `call` keeps the address of the first argument in the
/// scratch register 13 and pushes the return address.
#[verifier::rlimit(40)]
proof fn lemma_call_start(
    rom: Seq<LineView>,
    symbols: Symbols,
    m: Machine,
    n_args: i16,
    back: Seq<char>,
)
    requires
        loaded(rom, symbols, m.pc, CompactEmitter::call_start(n_args, back)),
        16 <= m.ram[0] <= 32766,
    ensures
        n_args >= 0,
        run(rom, symbols, m, 13).pc == m.pc + 13,
        run(rom, symbols, m, 13).ram == m.ram.insert(13, m.ram[0] - n_args).insert(
            m.ram[0],
            symbols[back],
        ).insert(0, m.ram[0] + 1),
        size(CompactEmitter::call_start(n_args, back)) == 13,
{
    reveal_with_fuel(loaded_from, 14);
    reveal_with_fuel(instructions_from, 14);
    reveal_with_fuel(run, 14);
}

/// Pushing a pointer register.
proof fn lemma_segment_pointer_to_stack(
    rom: Seq<LineView>,
    symbols: Symbols,
    m: Machine,
    register: Register,
)
    requires
        loaded(rom, symbols, m.pc, CompactEmitter::segment_pointer_to_stack_code(register)),
        16 <= m.ram[0] <= 32766,
    ensures
        run(rom, symbols, m, 7).pc == m.pc + 7,
        run(rom, symbols, m, 7).ram == m.ram.insert(
            m.ram[0],
            m.ram[register_address(register)],
        ).insert(0, m.ram[0] + 1),
        size(CompactEmitter::segment_pointer_to_stack_code(register)) == 7,
{
    reveal_with_fuel(loaded_from, 8);
    reveal_with_fuel(instructions_from, 8);
    reveal_with_fuel(run, 8);
}

/// The end of `call` sets ARG to what the scratch register 13 holds and LCL
/// to the stack pointer, and moves control to the callee; the return label
/// names the address behind the jump.
#[verifier::rlimit(40)]
proof fn lemma_call_end(
    rom: Seq<LineView>,
    symbols: Symbols,
    m: Machine,
    callee: Seq<char>,
    back: Seq<char>,
)
    requires
        loaded(rom, symbols, m.pc, CompactEmitter::call_end(callee, back)),
    ensures
        run(rom, symbols, m, 10).pc == symbols[callee],
        run(rom, symbols, m, 10).ram == m.ram.insert(2, m.ram[13]).insert(1, m.ram[0]),
        symbols[back] == m.pc + 10,
        size(CompactEmitter::call_end(callee, back)) == 10,
{
    reveal_with_fuel(loaded_from, 13);
    reveal_with_fuel(instructions_from, 13);
    reveal_with_fuel(run, 11);
}

/// The memory that the stages of a call leave agrees with the one that
/// [`called`] describes.
proof fn lemma_called_memory(m: Machine, back: int, count: int)
    requires
        16 <= m.ram[0],
    ensures
        ({
            let sp = m.ram[0];
            let started = m.ram.insert(13, sp - count).insert(sp, back).insert(0, sp + 1);
            let l = started.insert(sp + 1, started[1]).insert(0, sp + 2);
            let a = l.insert(sp + 2, l[2]).insert(0, sp + 3);
            let i = a.insert(sp + 3, a[3]).insert(0, sp + 4);
            let t = i.insert(sp + 4, i[4]).insert(0, sp + 5);
            &&& t[13] == sp - count
            &&& t[0] == sp + 5
            &&& agree_but_scratch(t.insert(2, sp - count).insert(1, sp + 5), called(m, back, count))
        }),
{
}

/// `call callee n_args` builds the frame header, hands the arguments over
/// without moving them, and moves control to the callee: see [`called`].
/// The return address is the address behind the call. The scratch register
/// 13 is used on the way.
pub proof fn lemma_call(
    rom: Seq<LineView>,
    symbols: Symbols,
    m: Machine,
    n_args: i16,
    callee: Seq<char>,
    calls: nat,
)
    requires
        loaded(rom, symbols, m.pc, CompactEmitter::call_code(n_args, callee, calls)),
        16 <= m.ram[0] <= 32762,
    ensures
        ({
            let back = symbols[return_label(callee, calls)];
            let r = run(rom, symbols, m, 51);
            &&& n_args >= 0
            &&& r.pc == symbols[callee]
            &&& back == m.pc + 51
            &&& agree_but_scratch(r.ram, called(m, back, n_args as int))
        }),
        size(CompactEmitter::call_code(n_args, callee, calls)) == 51,
{
    let label = return_label(callee, calls);
    let start = CompactEmitter::call_start(n_args, label);
    let local = CompactEmitter::segment_pointer_to_stack_code(Register::Lcl);
    let argument = CompactEmitter::segment_pointer_to_stack_code(Register::Arg);
    let this = CompactEmitter::segment_pointer_to_stack_code(Register::This);
    let that = CompactEmitter::segment_pointer_to_stack_code(Register::That);
    let end = CompactEmitter::call_end(callee, label);
    lemma_loaded_concat(rom, symbols, m.pc, start + local + argument + this + that, end);
    lemma_loaded_concat(rom, symbols, m.pc, start + local + argument + this, that);
    lemma_loaded_concat(rom, symbols, m.pc, start + local + argument, this);
    lemma_loaded_concat(rom, symbols, m.pc, start + local, argument);
    lemma_loaded_concat(rom, symbols, m.pc, start, local);
    lemma_call_start(rom, symbols, m, n_args, label);
    let m1 = run(rom, symbols, m, 13);
    lemma_segment_pointer_to_stack(rom, symbols, m1, Register::Lcl);
    let m2 = run(rom, symbols, m1, 7);
    lemma_segment_pointer_to_stack(rom, symbols, m2, Register::Arg);
    let m3 = run(rom, symbols, m2, 7);
    lemma_segment_pointer_to_stack(rom, symbols, m3, Register::This);
    let m4 = run(rom, symbols, m3, 7);
    lemma_segment_pointer_to_stack(rom, symbols, m4, Register::That);
    let m5 = run(rom, symbols, m4, 7);
    lemma_called_memory(m, symbols[label], n_args as int);
    lemma_call_end(rom, symbols, m5, callee, label);
    lemma_run_add(rom, symbols, m, 13, 7);
    lemma_run_add(rom, symbols, m, 20, 7);
    lemma_run_add(rom, symbols, m, 27, 7);
    lemma_run_add(rom, symbols, m, 34, 7);
    lemma_run_add(rom, symbols, m, 41, 10);
}

/// The start of `return` keeps the end of the frame and the return address
/// in the scratch registers 13 and 14, pops the result into the first
/// argument's slot, and sets the stack pointer just above it.
#[verifier::rlimit(40)]
proof fn lemma_return_start(rom: Seq<LineView>, symbols: Symbols, m: Machine)
    requires
        loaded(rom, symbols, m.pc, CompactEmitter::return_start()),
        16 <= m.ram[2] <= 32766,
        21 <= m.ram[1] <= 32767,
        17 <= m.ram[0] <= 32767,
    ensures
        run(rom, symbols, m, 18).pc == m.pc + 18,
        run(rom, symbols, m, 18).ram == m.ram.insert(13, m.ram[1]).insert(
            14,
            m.ram[m.ram[1] - 5],
        ).insert(m.ram[2], m.ram[m.ram[0] - 1]).insert(0, m.ram[2] + 1),
        size(CompactEmitter::return_start()) == 18,
{
    let sp = m.ram[0];
    let frame = m.ram[1];
    let arg = m.ram[2];
    reveal_with_fuel(loaded_from, 19);
    assert(size(CompactEmitter::return_start()) == 18) by {
        reveal_with_fuel(instructions_from, 19);
    }
    let captured = run(rom, symbols, m, 9);
    assert(captured.pc == m.pc + 9 && captured.ram == m.ram.insert(13, frame).insert(
        14,
        m.ram[frame - 5],
    )) by {
        reveal_with_fuel(run, 10);
    }
    let handed = run(rom, symbols, captured, 9);
    assert(handed.pc == m.pc + 18 && handed.ram == captured.ram.insert(0, sp - 1).insert(
        arg,
        m.ram[sp - 1],
    ).insert(0, arg + 1)) by {
        reveal_with_fuel(run, 10);
    }
    lemma_run_add(rom, symbols, m, 9, 9);
    assert(handed.ram =~= m.ram.insert(13, frame).insert(14, m.ram[frame - 5]).insert(
        arg,
        m.ram[sp - 1],
    ).insert(0, arg + 1));
}

/// [`CompactEmitter::restore_code`] loads a pointer register from the word
/// below the one that the scratch register 13 points to, and leaves 13
/// pointing to that word.
proof fn lemma_restore(rom: Seq<LineView>, symbols: Symbols, m: Machine, register: Register)
    requires
        loaded(rom, symbols, m.pc, CompactEmitter::restore_code(register)),
        17 <= m.ram[13] <= 32767,
    ensures
        run(rom, symbols, m, 5).pc == m.pc + 5,
        run(rom, symbols, m, 5).ram == m.ram.insert(13, m.ram[13] - 1).insert(
            register_address(register),
            m.ram[m.ram[13] - 1],
        ),
        size(CompactEmitter::restore_code(register)) == 5,
{
    reveal_with_fuel(loaded_from, 6);
    reveal_with_fuel(instructions_from, 6);
    reveal_with_fuel(run, 6);
}

/// The end of `return` moves control to the address that the scratch
/// register 14 holds.
proof fn lemma_return_end(rom: Seq<LineView>, symbols: Symbols, m: Machine)
    requires
        loaded(rom, symbols, m.pc, CompactEmitter::return_end()),
    ensures
        run(rom, symbols, m, 3).pc == m.ram[14],
        run(rom, symbols, m, 3).ram == m.ram,
        size(CompactEmitter::return_end()) == 3,
{
    reveal_with_fuel(loaded_from, 5);
    reveal_with_fuel(instructions_from, 5);
    reveal_with_fuel(run, 4);
}

/// The memory that the stages of a return leave agrees with the one that
/// [`returned`] describes.
proof fn lemma_returned_memory(m: Machine)
    requires
        16 <= m.ram[2] <= m.ram[1] - 5,
        m.ram[1] < m.ram[0],
    ensures
        ({
            let sp = m.ram[0];
            let frame = m.ram[1];
            let arg = m.ram[2];
            let handed = m.ram.insert(13, frame).insert(14, m.ram[frame - 5]).insert(
                arg,
                m.ram[sp - 1],
            ).insert(0, arg + 1);
            let t = handed.insert(13, frame - 1).insert(4, handed[frame - 1]);
            let i = t.insert(13, frame - 2).insert(3, t[frame - 2]);
            let a = i.insert(13, frame - 3).insert(2, i[frame - 3]);
            let l = a.insert(13, frame - 4).insert(1, a[frame - 4]);
            &&& handed[13] == frame
            &&& t[13] == frame - 1
            &&& i[13] == frame - 2
            &&& a[13] == frame - 3
            &&& l[14] == m.ram[frame - 5]
            &&& agree_but_scratch(l, returned(m))
        }),
{
}

/// `return` hands the top of the stack to the caller in the place of the
/// first argument, drops the frame and the arguments, restores the caller's
/// segment pointers, and moves control to the return address that the
/// frame header holds: see [`returned`]. The scratch registers are used on
/// the way.
pub proof fn lemma_return(rom: Seq<LineView>, symbols: Symbols, m: Machine)
    requires
        loaded(rom, symbols, m.pc, CompactEmitter::return_code()),
        16 <= m.ram[2] <= m.ram[1] - 5,
        m.ram[1] < m.ram[0] <= 32767,
    ensures
        ({
            let r = run(rom, symbols, m, 41);
            &&& r.pc == return_address(m)
            &&& agree_but_scratch(r.ram, returned(m))
        }),
        size(CompactEmitter::return_code()) == 41,
{
    let start = CompactEmitter::return_start();
    let that = CompactEmitter::restore_code(Register::That);
    let this = CompactEmitter::restore_code(Register::This);
    let argument = CompactEmitter::restore_code(Register::Arg);
    let local = CompactEmitter::restore_code(Register::Lcl);
    let end = CompactEmitter::return_end();
    lemma_loaded_concat(rom, symbols, m.pc, start + that + this + argument + local, end);
    lemma_loaded_concat(rom, symbols, m.pc, start + that + this + argument, local);
    lemma_loaded_concat(rom, symbols, m.pc, start + that + this, argument);
    lemma_loaded_concat(rom, symbols, m.pc, start + that, this);
    lemma_loaded_concat(rom, symbols, m.pc, start, that);
    lemma_returned_memory(m);
    lemma_return_start(rom, symbols, m);
    let m1 = run(rom, symbols, m, 18);
    lemma_restore(rom, symbols, m1, Register::That);
    let m2 = run(rom, symbols, m1, 5);
    lemma_restore(rom, symbols, m2, Register::This);
    let m3 = run(rom, symbols, m2, 5);
    lemma_restore(rom, symbols, m3, Register::Arg);
    let m4 = run(rom, symbols, m3, 5);
    lemma_restore(rom, symbols, m4, Register::Lcl);
    let m5 = run(rom, symbols, m4, 5);
    lemma_return_end(rom, symbols, m5);
    lemma_run_add(rom, symbols, m, 18, 5);
    lemma_run_add(rom, symbols, m, 23, 5);
    lemma_run_add(rom, symbols, m, 28, 5);
    lemma_run_add(rom, symbols, m, 33, 5);
    lemma_run_add(rom, symbols, m, 38, 3);
}

/// A call and its return, end to end. The caller pushes `a` and `b` and
/// calls a function of two arguments; the function, which has one local
/// variable, pushes its first argument and returns. Afterwards control is
/// behind the call, the stack pointer is one above where it stood before
/// the two pushes, the top of the stack is `a`, and the caller's segment
/// pointers are what they were.
#[verifier::rlimit(40)]
pub proof fn lemma_call_round_trip(
    rom: Seq<LineView>,
    symbols: Symbols,
    m: Machine,
    a: i16,
    b: i16,
    callee: Seq<char>,
    calls: nat,
    entry: int,
)
    requires
        loaded(
            rom,
            symbols,
            m.pc,
            CompactEmitter::push_const_code(a) + CompactEmitter::push_const_code(b)
                + CompactEmitter::call_code(2, callee, calls),
        ),
        loaded(
            rom,
            symbols,
            entry,
            CompactEmitter::function_code(1, callee) + push_segment(Segment::Argument, 0)
                + CompactEmitter::return_code(),
        ),
        16 <= m.ram[0] <= 32750,
    ensures
        ({
            let sp = m.ram[0];
            let r = run(rom, symbols, m, 122);
            &&& r.pc == m.pc + 65
            &&& r.ram[0] == sp + 1
            &&& r.ram[r.ram[0] - 1] == a
            &&& r.ram[1] == m.ram[1]
            &&& r.ram[2] == m.ram[2]
            &&& r.ram[3] == m.ram[3]
            &&& r.ram[4] == m.ram[4]
        }),
{
    let sp = m.ram[0];
    let first = CompactEmitter::push_const_code(a);
    let second = CompactEmitter::push_const_code(b);
    let call = CompactEmitter::call_code(2, callee, calls);
    let function = CompactEmitter::function_code(1, callee);
    let fetch = push_segment(Segment::Argument, 0);
    let back = CompactEmitter::return_code();
    lemma_loaded_concat(rom, symbols, m.pc, first + second, call);
    lemma_loaded_concat(rom, symbols, m.pc, first, second);
    lemma_loaded_concat(rom, symbols, entry, function + fetch, back);
    lemma_loaded_concat(rom, symbols, entry, function, fetch);
    lemma_push_const(rom, symbols, m, a);
    let m1 = run(rom, symbols, m, 7);
    lemma_push_const(rom, symbols, m1, b);
    let m2 = run(rom, symbols, m1, 7);
    assert(m2.ram[0] == sp + 2 && m2.ram[sp] == a && m2.pc == m.pc + 14);
    assert(m2.ram[1] == m.ram[1] && m2.ram[2] == m.ram[2] && m2.ram[3] == m.ram[3] && m2.ram[4]
        == m.ram[4]);
    lemma_call(rom, symbols, m2, 2, callee, calls);
    let m3 = run(rom, symbols, m2, 51);
    let address = symbols[return_label(callee, calls)];
    assert(address == m.pc + 65);
    let image = called(m2, address, 2);
    assert(m3.ram[0] == image[0] && m3.ram[1] == image[1] && m3.ram[2] == image[2]);
    assert(m3.ram[sp] == image[sp] && m3.ram[sp + 2] == image[sp + 2] && m3.ram[sp + 3] == image[sp
        + 3] && m3.ram[sp + 4] == image[sp + 4] && m3.ram[sp + 5] == image[sp + 5] && m3.ram[sp + 6]
        == image[sp + 6]);
    let at_entry = Machine { pc: entry, ..m3 };
    assert(symbols[callee] == entry && size(function) == 7) by {
        lemma_function(rom, symbols, at_entry, 1, callee);
    }
    assert(m3.pc == entry);
    assert(m3.ram[0] == sp + 7 && m3.ram[1] == sp + 7 && m3.ram[2] == sp && m3.ram[sp] == a);
    assert(m3.ram[sp + 2] == address && m3.ram[sp + 3] == m.ram[1] && m3.ram[sp + 4] == m.ram[2]
        && m3.ram[sp + 5] == m.ram[3] && m3.ram[sp + 6] == m.ram[4]);
    lemma_function(rom, symbols, m3, 1, callee);
    let m4 = run(rom, symbols, m3, 7);
    assert(m4.ram[0] == sp + 8 && m4.ram[1] == sp + 7 && m4.ram[2] == sp && m4.ram[sp] == a);
    assert(m4.ram[sp + 2] == address && m4.ram[sp + 3] == m.ram[1] && m4.ram[sp + 4] == m.ram[2]
        && m4.ram[sp + 5] == m.ram[3] && m4.ram[sp + 6] == m.ram[4]);
    lemma_push_segment(rom, symbols, m4, Segment::Argument, 0);
    let m5 = run(rom, symbols, m4, 9);
    assert(m5.ram[0] == sp + 9 && m5.ram[1] == sp + 7 && m5.ram[2] == sp && m5.ram[sp + 8] == a);
    assert(m5.ram[sp + 2] == address && m5.ram[sp + 3] == m.ram[1] && m5.ram[sp + 4] == m.ram[2]
        && m5.ram[sp + 5] == m.ram[3] && m5.ram[sp + 6] == m.ram[4]);
    lemma_return(rom, symbols, m5);
    let m6 = run(rom, symbols, m5, 41);
    let left = returned(m5);
    assert(m6.ram[0] == left[0] && m6.ram[1] == left[1] && m6.ram[2] == left[2] && m6.ram[3]
        == left[3] && m6.ram[4] == left[4] && m6.ram[sp] == left[sp]);
    lemma_run_add(rom, symbols, m, 7, 7);
    lemma_run_add(rom, symbols, m, 14, 51);
    lemma_run_add(rom, symbols, m, 65, 7);
    lemma_run_add(rom, symbols, m, 72, 9);
    lemma_run_add(rom, symbols, m, 81, 41);
}

} // verus!
