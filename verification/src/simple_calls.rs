//! What the calling convention of the simple emitter does when the machine
//! runs it: function entry, call and return.
//!
//! A call leaves this frame header on the stack, from the slot where the
//! stack pointer stood upwards: the return address, then the caller's LCL,
//! ARG, THIS and THAT. The callee's LCL points just above the header, its
//! ARG to the first of the arguments below it.

use vstd::prelude::*;
use crate::assembly::{Comp, Dest, LineView, Register};
use crate::code::{count_of, push_segment, repeat, sp_at_offset, stack_to_d};
use crate::parser::Segment;
use crate::code_laws::{lemma_push_segment, lemma_sp_at_offset, lemma_stack_to_d};
use crate::simple_laws::lemma_push_const;
use crate::frames::{agree_but_scratch, called, return_address, returned};
use crate::machine::{
    instructions_from,
    is_word,
    lemma_count_down,
    lemma_loaded_concat,
    lemma_run_add,
    loaded,
    loaded_from,
    register_address,
    run,
    size,
    Machine,
    Symbols,
};
use crate::simple_emitter::SimpleEmitter;
use crate::symbols::return_label;

verus! {

/// The address that an instruction `@...` loads.
pub open spec fn address_of(source: LineView, symbols: Symbols) -> int {
    match source {
        LineView::AtValue(value) => value as int,
        LineView::AtRegister(register) => register_address(register),
        LineView::AtSymbol(name) => symbols[name],
        _ => 0,
    }
}

/// [`SimpleEmitter::save_code`] stores a value in the slot `depth` below the
/// stack pointer and changes nothing else in memory: with `load` being A the
/// address that `source` loads, with `load` being M the word at that
/// address.
pub proof fn lemma_save(
    rom: Seq<LineView>,
    symbols: Symbols,
    m: Machine,
    source: LineView,
    load: Comp,
    depth: nat,
)
    requires
        loaded(rom, symbols, m.pc, SimpleEmitter::save_code(source, load, depth)),
        source is AtRegister || source is AtSymbol,
        load == Comp::A || load == Comp::M,
        is_word(m.ram[0]),
        is_word(m.ram[0] - depth),
    ensures
        ({
            let r = run(rom, symbols, m, 5 + depth);
            let address = address_of(source, symbols);
            &&& r.pc == m.pc + 5 + depth
            &&& r.ram == m.ram.insert(
                m.ram[0] - depth,
                if load == Comp::A {
                    address
                } else {
                    m.ram[address]
                },
            )
            &&& size(SimpleEmitter::save_code(source, load, depth)) == 5 + depth
        }),
{
    let fetch = seq![source, LineView::set(Dest::D, load)];
    let store = seq![LineView::set(Dest::M, Comp::D)];
    lemma_loaded_concat(rom, symbols, m.pc, fetch + sp_at_offset(depth), store);
    lemma_loaded_concat(rom, symbols, m.pc, fetch, sp_at_offset(depth));
    let address = address_of(source, symbols);
    let value = if load == Comp::A {
        address
    } else {
        m.ram[address]
    };
    let fetched = run(rom, symbols, m, 2);
    assert(fetched == (Machine { a: address, d: value, pc: m.pc + 2, ..m }) && size(fetch) == 2) by {
        reveal_with_fuel(loaded_from, 3);
        reveal_with_fuel(instructions_from, 3);
        reveal_with_fuel(run, 3);
    }
    lemma_sp_at_offset(rom, symbols, fetched, depth);
    let aimed = run(rom, symbols, fetched, 2 + depth);
    let stored = run(rom, symbols, aimed, 1);
    assert(stored.pc == aimed.pc + 1 && stored.ram == m.ram.insert(m.ram[0] - depth, value) && size(
        store,
    ) == 1) by {
        reveal_with_fuel(loaded_from, 2);
        reveal_with_fuel(instructions_from, 2);
        reveal_with_fuel(run, 2);
    }
    lemma_run_add(rom, symbols, m, 2, 2 + depth);
    lemma_run_add(rom, symbols, m, 4 + depth, 1);
}

/// `k` local variables are reserved one after the other: the stack grows by
/// `k` words, all zero.
pub proof fn lemma_zero_locals(rom: Seq<LineView>, symbols: Symbols, m: Machine, k: nat)
    requires
        loaded(rom, symbols, m.pc, repeat(SimpleEmitter::zero_local(), k)),
        16 <= m.ram[0],
        m.ram[0] + k <= 32767,
    ensures
        ({
            let sp = m.ram[0];
            let r = run(rom, symbols, m, 5 * k);
            &&& r.pc == m.pc + 5 * k
            &&& forall|address: int|
                r.ram[address] == if address == 0 {
                    sp + k
                } else if sp <= address < sp + k {
                    0
                } else {
                    m.ram[address]
                }
        }),
        size(repeat(SimpleEmitter::zero_local(), k)) == 5 * k,
    decreases k,
{
    let block = SimpleEmitter::zero_local();
    if k == 0 {
        reveal_with_fuel(instructions_from, 1);
    } else {
        let before = repeat(block, (k - 1) as nat);
        lemma_loaded_concat(rom, symbols, m.pc, before, block);
        lemma_zero_locals(rom, symbols, m, (k - 1) as nat);
        let mid = run(rom, symbols, m, (5 * (k - 1)) as nat);
        let sp = m.ram[0];
        assert(mid.ram[0] == sp + k - 1);
        let r = run(rom, symbols, mid, 5);
        assert(r.pc == mid.pc + 5 && r.ram == mid.ram.insert(sp + k - 1, 0).insert(0, sp + k) && size(
            block,
        ) == 5) by {
            reveal_with_fuel(loaded_from, 6);
            reveal_with_fuel(instructions_from, 6);
            reveal_with_fuel(run, 6);
        }
        lemma_run_add(rom, symbols, m, (5 * (k - 1)) as nat, 5);
    }
}

/// `function symbol n_vars` stands at the address that `symbol` names, and
/// reserves the local variables: the stack grows by their number, a negative
/// one counting as none, and the new words are zero.
pub proof fn lemma_function(
    rom: Seq<LineView>,
    symbols: Symbols,
    m: Machine,
    n_vars: i16,
    symbol: Seq<char>,
)
    requires
        loaded(rom, symbols, m.pc, SimpleEmitter::function_code(n_vars, symbol)),
        16 <= m.ram[0],
        m.ram[0] + count_of(n_vars) <= 32767,
    ensures
        ({
            let sp = m.ram[0];
            let k = count_of(n_vars);
            let r = run(rom, symbols, m, 5 * k);
            &&& symbols[symbol] == m.pc
            &&& r.pc == m.pc + 5 * k
            &&& forall|address: int|
                r.ram[address] == if address == 0 {
                    sp + k
                } else if sp <= address < sp + k {
                    0
                } else {
                    m.ram[address]
                }
        }),
        size(SimpleEmitter::function_code(n_vars, symbol)) == 5 * count_of(n_vars),
{
    let entry = seq![LineView::Label(symbol)];
    let locals = repeat(SimpleEmitter::zero_local(), count_of(n_vars));
    lemma_loaded_concat(rom, symbols, m.pc, entry, locals);
    assert(symbols[symbol] == m.pc && size(entry) == 0) by {
        reveal_with_fuel(loaded_from, 2);
        reveal_with_fuel(instructions_from, 2);
    }
    lemma_zero_locals(rom, symbols, m, count_of(n_vars));
}

/// The part of `call` that fills the frame header stores the return address
/// and the caller's LCL, ARG, THIS and THAT in the five slots below the
/// stack pointer, and changes nothing else in memory.
pub proof fn lemma_call_header(rom: Seq<LineView>, symbols: Symbols, m: Machine, back: Seq<char>)
    requires
        loaded(rom, symbols, m.pc, SimpleEmitter::call_header(back)),
        21 <= m.ram[0] <= 32767,
    ensures
        ({
            let sp = m.ram[0];
            let r = run(rom, symbols, m, 40);
            &&& r.pc == m.pc + 40
            &&& r.ram == m.ram.insert(sp - 5, symbols[back]).insert(sp - 4, m.ram[1]).insert(
                sp - 3,
                m.ram[2],
            ).insert(sp - 2, m.ram[3]).insert(sp - 1, m.ram[4])
        }),
        size(SimpleEmitter::call_header(back)) == 40,
{
    let s5 = SimpleEmitter::save_code(LineView::AtSymbol(back), Comp::A, 5);
    let s4 = SimpleEmitter::save_code(LineView::at(Register::Lcl), Comp::M, 4);
    let s3 = SimpleEmitter::save_code(LineView::at(Register::Arg), Comp::M, 3);
    let s2 = SimpleEmitter::save_code(LineView::at(Register::This), Comp::M, 2);
    let s1 = SimpleEmitter::save_code(LineView::at(Register::That), Comp::M, 1);
    lemma_loaded_concat(rom, symbols, m.pc, s5 + s4 + s3 + s2, s1);
    lemma_loaded_concat(rom, symbols, m.pc, s5 + s4 + s3, s2);
    lemma_loaded_concat(rom, symbols, m.pc, s5 + s4, s3);
    lemma_loaded_concat(rom, symbols, m.pc, s5, s4);
    lemma_save(rom, symbols, m, LineView::AtSymbol(back), Comp::A, 5);
    let m5 = run(rom, symbols, m, 10);
    lemma_save(rom, symbols, m5, LineView::at(Register::Lcl), Comp::M, 4);
    let m4 = run(rom, symbols, m5, 9);
    lemma_save(rom, symbols, m4, LineView::at(Register::Arg), Comp::M, 3);
    let m3 = run(rom, symbols, m4, 8);
    lemma_save(rom, symbols, m3, LineView::at(Register::This), Comp::M, 2);
    let m2 = run(rom, symbols, m3, 7);
    lemma_save(rom, symbols, m2, LineView::at(Register::That), Comp::M, 1);
    lemma_run_add(rom, symbols, m, 10, 9);
    lemma_run_add(rom, symbols, m, 19, 8);
    lemma_run_add(rom, symbols, m, 27, 7);
    lemma_run_add(rom, symbols, m, 34, 6);
}

/// The start of `call` moves the stack pointer up by five words.
proof fn lemma_call_reserve(rom: Seq<LineView>, symbols: Symbols, m: Machine)
    requires
        loaded(rom, symbols, m.pc, SimpleEmitter::call_reserve()),
        is_word(m.ram[0] + 5),
        is_word(m.ram[0]),
    ensures
        run(rom, symbols, m, 4).pc == m.pc + 4,
        run(rom, symbols, m, 4).ram == m.ram.insert(0, m.ram[0] + 5),
        size(SimpleEmitter::call_reserve()) == 4,
{
    reveal_with_fuel(loaded_from, 5);
    reveal_with_fuel(instructions_from, 5);
    reveal_with_fuel(run, 5);
}

/// The part of `call` that sets LCL makes it equal to the stack pointer.
proof fn lemma_call_set_local(rom: Seq<LineView>, symbols: Symbols, m: Machine)
    requires
        loaded(rom, symbols, m.pc, SimpleEmitter::call_set_local()),
    ensures
        run(rom, symbols, m, 4).pc == m.pc + 4,
        run(rom, symbols, m, 4).ram == m.ram.insert(1, m.ram[0]),
        size(SimpleEmitter::call_set_local()) == 4,
{
    reveal_with_fuel(loaded_from, 5);
    reveal_with_fuel(instructions_from, 5);
    reveal_with_fuel(run, 5);
}

/// The end of `call` stores the address in A as ARG and moves control to
/// the callee; the return label names the address behind the jump.
proof fn lemma_call_jump(
    rom: Seq<LineView>,
    symbols: Symbols,
    m: Machine,
    callee: Seq<char>,
    back: Seq<char>,
)
    requires
        loaded(rom, symbols, m.pc, SimpleEmitter::call_jump(callee, back)),
    ensures
        run(rom, symbols, m, 5).pc == symbols[callee],
        run(rom, symbols, m, 5).ram == m.ram.insert(2, m.a),
        symbols[back] == m.pc + 5,
        size(SimpleEmitter::call_jump(callee, back)) == 5,
{
    reveal_with_fuel(loaded_from, 7);
    reveal_with_fuel(instructions_from, 7);
    reveal_with_fuel(run, 6);
}

/// The memory that the stages of a call leave is the one that [`called`]
/// describes.
proof fn lemma_called_memory(m: Machine, back: int, count: nat)
    requires
        16 <= m.ram[0],
    ensures
        ({
            let sp = m.ram[0];
            let reserved = m.ram.insert(0, sp + 5);
            let filled = reserved.insert(sp, back).insert(sp + 1, reserved[1]).insert(
                sp + 2,
                reserved[2],
            ).insert(sp + 3, reserved[3]).insert(sp + 4, reserved[4]);
            filled.insert(1, filled[0]).insert(2, sp - count) == called(m, back, count as int)
        }),
{
    let sp = m.ram[0];
    let reserved = m.ram.insert(0, sp + 5);
    let filled = reserved.insert(sp, back).insert(sp + 1, reserved[1]).insert(
        sp + 2,
        reserved[2],
    ).insert(sp + 3, reserved[3]).insert(sp + 4, reserved[4]);
    assert(filled.insert(1, filled[0]).insert(2, sp - count) =~= called(m, back, count as int));
}

/// `call callee n_args` builds the frame header, hands the arguments over
/// without moving them, and moves control to the callee: see [`called`]. A
/// negative number of arguments counts as none. The return address is the
/// address behind the call.
pub proof fn lemma_call(
    rom: Seq<LineView>,
    symbols: Symbols,
    m: Machine,
    n_args: i16,
    callee: Seq<char>,
    calls: nat,
)
    requires
        loaded(rom, symbols, m.pc, SimpleEmitter::call_code(n_args, callee, calls)),
        16 <= m.ram[0] <= 32762,
    ensures
        ({
            let count = count_of(n_args);
            let back = symbols[return_label(callee, calls)];
            let r = run(rom, symbols, m, 60 + count);
            &&& r.pc == symbols[callee]
            &&& back == m.pc + 60 + count
            &&& r.ram == called(m, back, count as int)
        }),
        size(SimpleEmitter::call_code(n_args, callee, calls)) == 60 + count_of(n_args),
{
    let count = count_of(n_args);
    let label = return_label(callee, calls);
    let back = symbols[label];
    let sp = m.ram[0];
    let reserve = SimpleEmitter::call_reserve();
    let header = SimpleEmitter::call_header(label);
    let local = SimpleEmitter::call_set_local();
    let aim = sp_at_offset(5 + count);
    let jump = SimpleEmitter::call_jump(callee, label);
    lemma_loaded_concat(rom, symbols, m.pc, reserve + header + local + aim, jump);
    lemma_loaded_concat(rom, symbols, m.pc, reserve + header + local, aim);
    lemma_loaded_concat(rom, symbols, m.pc, reserve + header, local);
    lemma_loaded_concat(rom, symbols, m.pc, reserve, header);
    lemma_call_reserve(rom, symbols, m);
    let reserved = run(rom, symbols, m, 4);
    lemma_call_header(rom, symbols, reserved, label);
    let filled = run(rom, symbols, reserved, 40);
    lemma_call_set_local(rom, symbols, filled);
    let pointed = run(rom, symbols, filled, 4);
    assert(pointed.ram[0] == sp + 5);
    lemma_sp_at_offset(rom, symbols, pointed, 5 + count);
    let aimed = run(rom, symbols, pointed, 7 + count);
    lemma_call_jump(rom, symbols, aimed, callee, label);
    lemma_run_add(rom, symbols, m, 4, 40);
    lemma_run_add(rom, symbols, m, 44, 4);
    lemma_run_add(rom, symbols, m, 48, 7 + count);
    lemma_run_add(rom, symbols, m, 55 + count, 5);
    lemma_called_memory(m, back, count);
}

/// [`SimpleEmitter::restore_code`] loads a pointer register from the slot
/// `depth` below the end of the frame, whose address the scratch register 13
/// holds, and changes nothing else in memory.
pub proof fn lemma_restore(
    rom: Seq<LineView>,
    symbols: Symbols,
    m: Machine,
    register: Register,
    depth: nat,
)
    requires
        loaded(rom, symbols, m.pc, SimpleEmitter::restore_code(register, depth)),
        is_word(m.ram[13]),
        is_word(m.ram[13] - depth),
    ensures
        ({
            let r = run(rom, symbols, m, 5 + depth);
            &&& r.pc == m.pc + 5 + depth
            &&& r.ram == m.ram.insert(register_address(register), m.ram[m.ram[13] - depth])
        }),
        size(SimpleEmitter::restore_code(register, depth)) == 5 + depth,
{
    let lines = SimpleEmitter::restore_code(register, depth);
    reveal_with_fuel(loaded_from, 3);
    reveal_with_fuel(instructions_from, 4);
    let at_end = run(rom, symbols, m, 2);
    assert(at_end == (Machine { a: m.ram[13], pc: m.pc + 2, ..m })) by {
        reveal_with_fuel(run, 3);
    }
    lemma_count_down(rom, symbols, at_end, lines, 2, depth);
    let at_slot = run(rom, symbols, at_end, depth);
    let r = run(rom, symbols, at_slot, 3);
    assert(r.pc == at_slot.pc + 3 && r.ram == m.ram.insert(
        register_address(register),
        m.ram[m.ram[13] - depth],
    )) by {
        reveal_with_fuel(loaded_from, 4);
        reveal_with_fuel(run, 4);
    }
    assert(instructions_from(lines, 2 + depth as int) == 3);
    lemma_run_add(rom, symbols, m, 2, depth);
    lemma_run_add(rom, symbols, m, 2 + depth, 3);
}

/// The first part of `return` puts the end of the frame, the return address
/// and the place of the result into the scratch registers 13, 14 and 15.
#[verifier::rlimit(40)]
proof fn lemma_return_capture(rom: Seq<LineView>, symbols: Symbols, m: Machine)
    requires
        loaded(rom, symbols, m.pc, SimpleEmitter::return_capture()),
        21 <= m.ram[1] <= 32767,
    ensures
        run(rom, symbols, m, 15).pc == m.pc + 15,
        run(rom, symbols, m, 15).ram == m.ram.insert(13, m.ram[1]).insert(
            14,
            m.ram[m.ram[1] - 5],
        ).insert(15, m.ram[2]),
        size(SimpleEmitter::return_capture()) == 15,
{
    reveal_with_fuel(loaded_from, 16);
    reveal_with_fuel(instructions_from, 16);
    reveal_with_fuel(run, 16);
}

/// The second part of `return` stores D where ARG points and sets the stack
/// pointer just above the place that the scratch register 15 names.
#[verifier::rlimit(40)]
proof fn lemma_return_result(rom: Seq<LineView>, symbols: Symbols, m: Machine)
    requires
        loaded(rom, symbols, m.pc, SimpleEmitter::return_result()),
        16 <= m.ram[2] <= 32766,
        m.ram[15] == m.ram[2],
    ensures
        run(rom, symbols, m, 8).pc == m.pc + 8,
        run(rom, symbols, m, 8).ram == m.ram.insert(m.ram[2], m.d).insert(0, m.ram[2] + 1),
        size(SimpleEmitter::return_result()) == 8,
{
    reveal_with_fuel(loaded_from, 9);
    reveal_with_fuel(instructions_from, 9);
    reveal_with_fuel(run, 9);
}

/// The part of `return` that restores the segment pointers loads THAT,
/// THIS, ARG and LCL from the four slots below the end of the frame.
proof fn lemma_return_restore(rom: Seq<LineView>, symbols: Symbols, m: Machine)
    requires
        loaded(rom, symbols, m.pc, SimpleEmitter::return_restore()),
        21 <= m.ram[13] <= 32767,
    ensures
        run(rom, symbols, m, 30).pc == m.pc + 30,
        run(rom, symbols, m, 30).ram == m.ram.insert(4, m.ram[m.ram[13] - 1]).insert(
            3,
            m.ram[m.ram[13] - 2],
        ).insert(2, m.ram[m.ram[13] - 3]).insert(1, m.ram[m.ram[13] - 4]),
        size(SimpleEmitter::return_restore()) == 30,
{
    let that = SimpleEmitter::restore_code(Register::That, 1);
    let this = SimpleEmitter::restore_code(Register::This, 2);
    let argument = SimpleEmitter::restore_code(Register::Arg, 3);
    let local = SimpleEmitter::restore_code(Register::Lcl, 4);
    lemma_loaded_concat(rom, symbols, m.pc, that + this + argument, local);
    lemma_loaded_concat(rom, symbols, m.pc, that + this, argument);
    lemma_loaded_concat(rom, symbols, m.pc, that, this);
    lemma_restore(rom, symbols, m, Register::That, 1);
    let r4 = run(rom, symbols, m, 6);
    lemma_restore(rom, symbols, r4, Register::This, 2);
    let r3 = run(rom, symbols, r4, 7);
    lemma_restore(rom, symbols, r3, Register::Arg, 3);
    let r2 = run(rom, symbols, r3, 8);
    lemma_restore(rom, symbols, r2, Register::Lcl, 4);
    lemma_run_add(rom, symbols, m, 6, 7);
    lemma_run_add(rom, symbols, m, 13, 8);
    lemma_run_add(rom, symbols, m, 21, 9);
}

/// The last part of `return` moves control to the address that the scratch
/// register 14 holds.
proof fn lemma_return_jump(rom: Seq<LineView>, symbols: Symbols, m: Machine)
    requires
        loaded(rom, symbols, m.pc, SimpleEmitter::return_jump()),
    ensures
        run(rom, symbols, m, 3).pc == m.ram[14],
        run(rom, symbols, m, 3).ram == m.ram,
        size(SimpleEmitter::return_jump()) == 3,
{
    reveal_with_fuel(loaded_from, 4);
    reveal_with_fuel(instructions_from, 4);
    reveal_with_fuel(run, 4);
}

/// The memory that the stages of a return leave is the one that
/// [`returned`] describes.
proof fn lemma_returned_memory(m: Machine)
    requires
        16 <= m.ram[2] <= m.ram[1] - 5,
        m.ram[1] < m.ram[0],
    ensures
        ({
            let sp = m.ram[0];
            let frame = m.ram[1];
            let arg = m.ram[2];
            let captured = m.ram.insert(13, frame).insert(14, m.ram[frame - 5]).insert(15, arg);
            let popped = captured.insert(0, sp - 1);
            let handed = popped.insert(arg, m.ram[sp - 1]).insert(0, arg + 1);
            &&& handed[13] == frame
            &&& handed[14] == m.ram[frame - 5]
            &&& agree_but_scratch(
                handed.insert(4, handed[frame - 1]).insert(3, handed[frame - 2]).insert(
                    2,
                    handed[frame - 3],
                ).insert(1, handed[frame - 4]),
                returned(m),
            )
        }),
{
    let sp = m.ram[0];
    let frame = m.ram[1];
    let arg = m.ram[2];
    let captured = m.ram.insert(13, frame).insert(14, m.ram[frame - 5]).insert(15, arg);
    let popped = captured.insert(0, sp - 1);
    let handed = popped.insert(arg, m.ram[sp - 1]).insert(0, arg + 1);
}

/// `return` hands the top of the stack to the caller in the place of the
/// first argument, drops the frame and the arguments, restores the caller's
/// segment pointers, and moves control to the return address that the
/// frame header holds: see [`returned`]. The scratch registers are used on
/// the way.
pub proof fn lemma_return(rom: Seq<LineView>, symbols: Symbols, m: Machine)
    requires
        loaded(rom, symbols, m.pc, SimpleEmitter::return_code()),
        16 <= m.ram[2] <= m.ram[1] - 5,
        m.ram[1] < m.ram[0] <= 32767,
    ensures
        ({
            let r = run(rom, symbols, m, 60);
            &&& r.pc == return_address(m)
            &&& agree_but_scratch(r.ram, returned(m))
        }),
        size(SimpleEmitter::return_code()) == 60,
{
    let capture = SimpleEmitter::return_capture();
    let pop = stack_to_d();
    let result = SimpleEmitter::return_result();
    let restore = SimpleEmitter::return_restore();
    let jump = SimpleEmitter::return_jump();
    lemma_loaded_concat(rom, symbols, m.pc, capture + pop + result + restore, jump);
    lemma_loaded_concat(rom, symbols, m.pc, capture + pop + result, restore);
    lemma_loaded_concat(rom, symbols, m.pc, capture + pop, result);
    lemma_loaded_concat(rom, symbols, m.pc, capture, pop);
    lemma_return_capture(rom, symbols, m);
    let captured = run(rom, symbols, m, 15);
    lemma_stack_to_d(rom, symbols, captured);
    let popped = run(rom, symbols, captured, 4);
    lemma_return_result(rom, symbols, popped);
    let handed = run(rom, symbols, popped, 8);
    lemma_returned_memory(m);
    lemma_return_restore(rom, symbols, handed);
    let restored = run(rom, symbols, handed, 30);
    lemma_return_jump(rom, symbols, restored);
    lemma_run_add(rom, symbols, m, 15, 4);
    lemma_run_add(rom, symbols, m, 19, 8);
    lemma_run_add(rom, symbols, m, 27, 30);
    lemma_run_add(rom, symbols, m, 57, 3);
}

/// A call and its return, end to end. The caller pushes `a` and `b` and
/// calls a function of two arguments; the function, which has one local
/// variable, pushes its first argument and returns. Afterwards control is
/// behind the call, the stack pointer is one above where it stood before
/// the two pushes, the top of the stack is `a`, and the caller's segment
/// pointers are what they were.
#[verifier::rlimit(40)]
pub proof fn lemma_call_round_trip(
    rom: Seq<LineView>,
    symbols: Symbols,
    m: Machine,
    a: i16,
    b: i16,
    callee: Seq<char>,
    calls: nat,
    entry: int,
)
    requires
        loaded(
            rom,
            symbols,
            m.pc,
            SimpleEmitter::push_const_code(a) + SimpleEmitter::push_const_code(b)
                + SimpleEmitter::call_code(2, callee, calls),
        ),
        loaded(
            rom,
            symbols,
            entry,
            SimpleEmitter::function_code(1, callee) + push_segment(Segment::Argument, 0)
                + SimpleEmitter::return_code(),
        ),
        16 <= m.ram[0] <= 32750,
    ensures
        ({
            let sp = m.ram[0];
            let r = run(rom, symbols, m, 148);
            &&& r.pc == m.pc + 74
            &&& r.ram[0] == sp + 1
            &&& r.ram[r.ram[0] - 1] == a
            &&& r.ram[1] == m.ram[1]
            &&& r.ram[2] == m.ram[2]
            &&& r.ram[3] == m.ram[3]
            &&& r.ram[4] == m.ram[4]
        }),
{
    let sp = m.ram[0];
    let first = SimpleEmitter::push_const_code(a);
    let second = SimpleEmitter::push_const_code(b);
    let call = SimpleEmitter::call_code(2, callee, calls);
    let function = SimpleEmitter::function_code(1, callee);
    let fetch = push_segment(Segment::Argument, 0);
    let back = SimpleEmitter::return_code();
    lemma_loaded_concat(rom, symbols, m.pc, first + second, call);
    lemma_loaded_concat(rom, symbols, m.pc, first, second);
    lemma_loaded_concat(rom, symbols, entry, function + fetch, back);
    lemma_loaded_concat(rom, symbols, entry, function, fetch);
    lemma_push_const(rom, symbols, m, a);
    let m1 = run(rom, symbols, m, 6);
    lemma_push_const(rom, symbols, m1, b);
    let m2 = run(rom, symbols, m1, 6);
    assert(m2.ram[0] == sp + 2 && m2.ram[sp] == a && m2.pc == m.pc + 12);
    assert(m2.ram[1] == m.ram[1] && m2.ram[2] == m.ram[2] && m2.ram[3] == m.ram[3] && m2.ram[4]
        == m.ram[4]);
    lemma_call(rom, symbols, m2, 2, callee, calls);
    let m3 = run(rom, symbols, m2, 62);
    let address = symbols[return_label(callee, calls)];
    assert(address == m.pc + 74);
    let at_entry = Machine { pc: entry, ..m3 };
    assert(symbols[callee] == entry && size(function) == 5) by {
        lemma_function(rom, symbols, at_entry, 1, callee);
    }
    assert(m3.pc == entry);
    assert(m3.ram[0] == sp + 7 && m3.ram[1] == sp + 7 && m3.ram[2] == sp && m3.ram[sp] == a);
    assert(m3.ram[sp + 2] == address && m3.ram[sp + 3] == m.ram[1] && m3.ram[sp + 4] == m.ram[2]
        && m3.ram[sp + 5] == m.ram[3] && m3.ram[sp + 6] == m.ram[4]);
    lemma_function(rom, symbols, m3, 1, callee);
    let m4 = run(rom, symbols, m3, 5);
    assert(m4.ram[0] == sp + 8 && m4.ram[1] == sp + 7 && m4.ram[2] == sp && m4.ram[sp] == a);
    assert(m4.ram[sp + 2] == address && m4.ram[sp + 3] == m.ram[1] && m4.ram[sp + 4] == m.ram[2]
        && m4.ram[sp + 5] == m.ram[3] && m4.ram[sp + 6] == m.ram[4]);
    lemma_push_segment(rom, symbols, m4, Segment::Argument, 0);
    let m5 = run(rom, symbols, m4, 9);
    assert(m5.ram[0] == sp + 9 && m5.ram[1] == sp + 7 && m5.ram[2] == sp && m5.ram[sp + 8] == a);
    assert(m5.ram[sp + 2] == address && m5.ram[sp + 3] == m.ram[1] && m5.ram[sp + 4] == m.ram[2]
        && m5.ram[sp + 5] == m.ram[3] && m5.ram[sp + 6] == m.ram[4]);
    lemma_return(rom, symbols, m5);
    lemma_run_add(rom, symbols, m, 6, 6);
    lemma_run_add(rom, symbols, m, 12, 62);
    lemma_run_add(rom, symbols, m, 74, 5);
    lemma_run_add(rom, symbols, m, 79, 9);
    lemma_run_add(rom, symbols, m, 88, 60);
}

} // verus!
