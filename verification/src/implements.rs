//! Both emitters implement the stack machine: whatever the command, the
//! machine that runs the command's code gets to where the command was to
//! take it. The meaning of the commands is told in [`crate::vm`].

use vstd::prelude::*;
use crate::assembly::{Comp, Jump, LineView};
use crate::code::count_of;
use crate::code_laws::{
    compare_steps,
    lemma_change_top,
    lemma_combine_top,
    lemma_goto,
    lemma_ifgoto,
    lemma_label,
    lemma_pop_segment,
    lemma_push_segment,
};
use crate::compact_emitter::{CEmitterContext, CompactEmitter};
use crate::emit::EmitAsm;
use crate::machine::{loaded, size, Machine, Symbols};
use crate::parser::{ArithmeticType, CommandView, Segment};
use crate::simple_emitter::{SContext, SimpleEmitter};
use crate::simple_laws::eq_steps;
use crate::vm::{carried_out, lemma_bitwise_commute, ready};

verus! {

/// The simple emitter implements the stack machine: when the code of a
/// command is loaded at the program counter and the state is ready for the
/// command, the machine carries the command out in a number of steps.
pub proof fn lemma_simple_implements(
    rom: Seq<LineView>,
    symbols: Symbols,
    m: Machine,
    command: CommandView,
    labels: nat,
    calls: nat,
)
    requires
        loaded(rom, symbols, m.pc, <SimpleEmitter as EmitAsm<SContext>>::code(command, labels, calls)),
        ready(command, symbols, m),
    ensures
        ({
            let next = m.pc + size(
                <SimpleEmitter as EmitAsm<SContext>>::code(command, labels, calls),
            );
            exists|n: nat| #[trigger] carried_out(rom, symbols, m, command, next, n)
        }),
{
    let code = <SimpleEmitter as EmitAsm<SContext>>::code(command, labels, calls);
    let next = m.pc + size(code);
    let sp = m.ram[0];
    match command {
        CommandView::Push(Segment::Constant, value) => {
            crate::simple_laws::lemma_push_const(rom, symbols, m, value);
            assert(carried_out(rom, symbols, m, command, next, 6));
        },
        CommandView::Push(segment, offset) => {
            lemma_push_segment(rom, symbols, m, segment, offset);
            assert(carried_out(rom, symbols, m, command, next, 9));
        },
        CommandView::Pop(segment, offset) => {
            lemma_pop_segment(rom, symbols, m, segment, offset);
            assert(carried_out(rom, symbols, m, command, next, 21));
        },
        CommandView::Arithmetic(op) => {
            let x = m.ram[sp - 2];
            let y = m.ram[sp - 1];
            match op {
                ArithmeticType::Add => {
                    crate::simple_laws::lemma_add(rom, symbols, m);
                    assert(carried_out(rom, symbols, m, command, next, 24));
                },
                ArithmeticType::Sub => {
                    crate::simple_laws::lemma_sub(rom, symbols, m);
                    assert(carried_out(rom, symbols, m, command, next, 24));
                },
                ArithmeticType::Eq => {
                    crate::simple_laws::lemma_eq(rom, symbols, m, labels);
                    assert(carried_out(rom, symbols, m, command, next, eq_steps(x, y)));
                },
                ArithmeticType::Lt => {
                    crate::simple_laws::lemma_lt(rom, symbols, m, labels);
                    assert(carried_out(rom, symbols, m, command, next, compare_steps(x < y)));
                },
                ArithmeticType::Gt => {
                    crate::simple_laws::lemma_gt(rom, symbols, m, labels);
                    assert(carried_out(rom, symbols, m, command, next, compare_steps(x > y)));
                },
                ArithmeticType::And => {
                    lemma_combine_top(rom, symbols, m, Comp::DAndM);
                    lemma_bitwise_commute(x, y);
                    assert(carried_out(rom, symbols, m, command, next, 7));
                },
                ArithmeticType::Or => {
                    lemma_combine_top(rom, symbols, m, Comp::DOrM);
                    lemma_bitwise_commute(x, y);
                    assert(carried_out(rom, symbols, m, command, next, 7));
                },
                ArithmeticType::Neg => {
                    lemma_change_top(rom, symbols, m, Comp::NegD);
                    assert(carried_out(rom, symbols, m, command, next, 5));
                },
                ArithmeticType::Not => {
                    lemma_change_top(rom, symbols, m, Comp::NotD);
                    assert(carried_out(rom, symbols, m, command, next, 5));
                },
            }
        },
        CommandView::Label(name) => {
            lemma_label(rom, symbols, m.pc, name);
            assert(carried_out(rom, symbols, m, command, next, 0));
        },
        CommandView::Goto(name) => {
            lemma_goto(rom, symbols, m, name);
            assert(carried_out(rom, symbols, m, command, next, 2));
        },
        CommandView::IfGoto(name) => {
            lemma_ifgoto(rom, symbols, m, name);
            assert(carried_out(rom, symbols, m, command, next, 6));
        },
        CommandView::Function { n_vars, symbol } => {
            crate::simple_calls::lemma_function(rom, symbols, m, n_vars, symbol);
            assert(carried_out(rom, symbols, m, command, next, 5 * count_of(n_vars)));
        },
        CommandView::Call { n_args, symbol } => {
            crate::simple_calls::lemma_call(rom, symbols, m, n_args, symbol, calls);
            assert(carried_out(rom, symbols, m, command, next, 60 + count_of(n_args)));
        },
        CommandView::Return => {
            crate::simple_calls::lemma_return(rom, symbols, m);
            assert(carried_out(rom, symbols, m, command, next, 60));
        },
    }
}

/// The compact emitter implements the stack machine: when the code of a
/// command is loaded at the program counter and the state is ready for the
/// command, the machine carries the command out in a number of steps. For
/// `neg`, the prelude has to be loaded somewhere in the program. A call
/// whose number of arguments is negative cannot be loaded at all.
pub proof fn lemma_compact_implements(
    rom: Seq<LineView>,
    symbols: Symbols,
    m: Machine,
    command: CommandView,
    labels: nat,
    calls: nat,
    prelude_at: int,
    prelude_labels: nat,
)
    requires
        loaded(
            rom,
            symbols,
            m.pc,
            <CompactEmitter as EmitAsm<CEmitterContext>>::code(command, labels, calls),
        ),
        ready(command, symbols, m),
        command == CommandView::Arithmetic(ArithmeticType::Neg) ==> loaded(
            rom,
            symbols,
            prelude_at,
            CompactEmitter::prelude_lines(prelude_labels),
        ),
    ensures
        ({
            let next = m.pc + size(
                <CompactEmitter as EmitAsm<CEmitterContext>>::code(command, labels, calls),
            );
            exists|n: nat| #[trigger] carried_out(rom, symbols, m, command, next, n)
        }),
{
    let code = <CompactEmitter as EmitAsm<CEmitterContext>>::code(command, labels, calls);
    let next = m.pc + size(code);
    let sp = m.ram[0];
    match command {
        CommandView::Push(Segment::Constant, value) => {
            crate::compact_laws::lemma_push_const(rom, symbols, m, value);
            assert(carried_out(rom, symbols, m, command, next, 7));
        },
        CommandView::Push(segment, offset) => {
            lemma_push_segment(rom, symbols, m, segment, offset);
            assert(carried_out(rom, symbols, m, command, next, 9));
        },
        CommandView::Pop(segment, offset) => {
            lemma_pop_segment(rom, symbols, m, segment, offset);
            assert(carried_out(rom, symbols, m, command, next, 21));
        },
        CommandView::Arithmetic(op) => {
            let x = m.ram[sp - 2];
            let y = m.ram[sp - 1];
            match op {
                ArithmeticType::Add => {
                    crate::compact_laws::lemma_add(rom, symbols, m);
                    assert(carried_out(rom, symbols, m, command, next, 15));
                },
                ArithmeticType::Sub => {
                    crate::compact_laws::lemma_sub(rom, symbols, m);
                    assert(carried_out(rom, symbols, m, command, next, 11));
                },
                ArithmeticType::Eq => {
                    crate::compact_laws::lemma_eq(rom, symbols, m, labels);
                    assert(carried_out(rom, symbols, m, command, next, compare_steps(x == y)));
                },
                ArithmeticType::Lt => {
                    crate::compact_laws::lemma_lt(rom, symbols, m, labels);
                    assert(carried_out(rom, symbols, m, command, next, compare_steps(x < y)));
                },
                ArithmeticType::Gt => {
                    crate::compact_laws::lemma_gt(rom, symbols, m, labels);
                    assert(carried_out(rom, symbols, m, command, next, compare_steps(x > y)));
                },
                ArithmeticType::And => {
                    lemma_combine_top(rom, symbols, m, Comp::DAndM);
                    lemma_bitwise_commute(x, y);
                    assert(carried_out(rom, symbols, m, command, next, 7));
                },
                ArithmeticType::Or => {
                    lemma_combine_top(rom, symbols, m, Comp::DOrM);
                    lemma_bitwise_commute(x, y);
                    assert(carried_out(rom, symbols, m, command, next, 7));
                },
                ArithmeticType::Neg => {
                    crate::compact_laws::lemma_neg(
                        rom,
                        symbols,
                        m,
                        labels,
                        prelude_at,
                        prelude_labels,
                    );
                    assert(carried_out(rom, symbols, m, command, next, 14));
                },
                ArithmeticType::Not => {
                    lemma_change_top(rom, symbols, m, Comp::NotD);
                    assert(carried_out(rom, symbols, m, command, next, 5));
                },
            }
        },
        CommandView::Label(name) => {
            lemma_label(rom, symbols, m.pc, name);
            assert(carried_out(rom, symbols, m, command, next, 0));
        },
        CommandView::Goto(name) => {
            lemma_goto(rom, symbols, m, name);
            assert(carried_out(rom, symbols, m, command, next, 2));
        },
        CommandView::IfGoto(name) => {
            lemma_ifgoto(rom, symbols, m, name);
            assert(carried_out(rom, symbols, m, command, next, 6));
        },
        CommandView::Function { n_vars, symbol } => {
            crate::compact_calls::lemma_function(rom, symbols, m, n_vars, symbol);
            assert(carried_out(
                rom,
                symbols,
                m,
                command,
                next,
                crate::compact_calls::function_steps(n_vars),
            ));
        },
        CommandView::Call { n_args, symbol } => {
            crate::compact_calls::lemma_call(rom, symbols, m, n_args, symbol, calls);
            assert(carried_out(rom, symbols, m, command, next, 51));
        },
        CommandView::Return => {
            crate::compact_calls::lemma_return(rom, symbols, m);
            assert(carried_out(rom, symbols, m, command, next, 41));
        },
    }
}

} // verus!
