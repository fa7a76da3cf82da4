//! An emitter that prefers small output: operands stay in the registers,
//! and negation is a subroutine that the prelude holds once.

use vstd::prelude::*;
use crate::assembly::{views, Comp, Dest, Jump, Line, LineView, Register};
use crate::code::{
    a_to_stack,
    bootstrap,
    change_top,
    combine_top,
    compare,
    count_of,
    emit_a_to_stack,
    emit_bootstrap,
    emit_change_top,
    emit_combine_top,
    emit_compare,
    emit_goto,
    emit_ifgoto,
    emit_label,
    emit_pop_segment,
    emit_push_segment,
    emit_stack_to_d,
    goto_code,
    ifgoto_code,
    label_code,
    pop_segment,
    push_segment,
    repeat,
    stack_to_d,
};
use crate::emit::{Counters, EContext, EmitAsm, Emitted, LABEL_ROOM, OP_ROOM, PRELUDE_ROOM};
use crate::labels::{declared, declared_from, lemma_one_generated, lemma_three_generated};
use crate::listing::Listing;
use crate::parser::{ArithmeticType, CommandView, Segment};
use crate::symbols::{next_label, return_label, FuncEmitter, SymbolGenerator};

verus! {

/// The emitter.
pub struct CompactEmitter {
    writer: Listing,
    symbol_generator: SymbolGenerator,
    func_emitter: FuncEmitter,
}

/// What passes from one [`CompactEmitter`] to the next.
#[derive(Clone, Copy, Debug)]
pub struct CEmitterContext {
    emitted_instructions_count: usize,
    symbol_generator: SymbolGenerator,
    func_emitter: FuncEmitter,
}

impl Default for CEmitterContext {
    fn default() -> (context: Self)
        ensures
            context.counters() == (Counters { instructions: 0, labels: 0, calls: 0 }),
    {
        Self {
            emitted_instructions_count: 0,
            symbol_generator: SymbolGenerator::new(),
            func_emitter: FuncEmitter::new(),
        }
    }
}

impl CEmitterContext {
    /// A context put together from what an earlier one was taken apart into:
    /// the number of instructions emitted, the generator of labels and the
    /// counters of the calling convention.
    pub fn restore(
        emitted_instructions_count: usize,
        symbol_generator: SymbolGenerator,
        func_emitter: FuncEmitter,
    ) -> (context: Self)
        ensures
            context.counters() == (Counters {
                instructions: emitted_instructions_count as nat,
                labels: symbol_generator@,
                calls: func_emitter@.calls,
            }),
    {
        Self { emitted_instructions_count, symbol_generator, func_emitter }
    }

    /// The number of instructions emitted so far.
    pub fn emitted_instructions_count(&self) -> (n: usize)
        ensures
            n == self.counters().instructions,
    {
        self.emitted_instructions_count
    }

    /// The generator of labels, as it stands.
    pub fn symbol_generator(&self) -> (generator: SymbolGenerator)
        ensures
            generator@ == self.counters().labels,
    {
        self.symbol_generator
    }

    /// The counters of the calling convention, as they stand.
    pub fn func_emitter(&self) -> (counters: FuncEmitter)
        ensures
            counters@.calls == self.counters().calls,
    {
        self.func_emitter
    }
}

impl EContext for CEmitterContext {
    closed spec fn counters(&self) -> Counters {
        Counters {
            instructions: self.emitted_instructions_count as nat,
            labels: self.symbol_generator@,
            calls: self.func_emitter@.calls,
        }
    }
}

impl View for CompactEmitter {
    type V = Emitted;

    closed spec fn view(&self) -> Emitted {
        Emitted {
            listing: self.writer@,
            labels: self.symbol_generator@,
            calls: self.func_emitter@.calls,
        }
    }
}

impl CompactEmitter {
    /// The name of the subroutine that negates the top of the stack.
    pub open spec fn negate_symbol() -> Seq<char> {
        "neg_proc"@
    }

    /// The prelude: a jump over the subroutine that negates the top of the
    /// stack, and that subroutine, which expects its return address in D.
    /// The label behind the subroutine is the next one of the generator.
    ///
    /// What the machine does with it: [`crate::compact_laws::lemma_prelude`].
    pub open spec fn prelude_lines(labels: nat) -> Seq<LineView> {
        let end = next_label("end_prelude"@, labels);
        seq![
            LineView::AtSymbol(end),
            LineView::jump(Comp::Zero, Jump::Jmp),
            LineView::Label(Self::negate_symbol()),
            LineView::AtValue(15),
            LineView::set(Dest::M, Comp::D),
            LineView::at(Register::Sp),
            LineView::set(Dest::A, Comp::MMinusOne),
            LineView::set(Dest::D, Comp::M),
            LineView::set(Dest::D, Comp::NegD),
            LineView::set(Dest::M, Comp::D),
            LineView::AtValue(15),
            LineView::set(Dest::A, Comp::M),
            LineView::jump(Comp::Zero, Jump::Jmp),
            LineView::Label(end),
        ]
    }

    /// The translation of `push constant value`.
    ///
    /// What the machine does with it: [`crate::compact_laws::lemma_push_const`].
    pub open spec fn push_const_code(value: i16) -> Seq<LineView> {
        seq![
            LineView::AtValue(value),
            LineView::set(Dest::D, Comp::A),
            LineView::at(Register::Sp),
            LineView::set(Dest::A, Comp::M),
            LineView::set(Dest::M, Comp::D),
            LineView::at(Register::Sp),
            LineView::set(Dest::M, Comp::MPlusOne),
            LineView::Blank,
        ]
    }

    /// The middle of `add`: the second operand is popped into A and the sum
    /// is left there.
    pub open spec fn add_middle() -> Seq<LineView> {
        seq![
            LineView::at(Register::Sp),
            LineView::set(Dest::M, Comp::MMinusOne),
            LineView::set(Dest::A, Comp::M),
            LineView::set(Dest::A, Comp::M),
            LineView::set(Dest::D, Comp::DPlusA),
            LineView::set(Dest::A, Comp::D),
        ]
    }

    /// The translation of `add`.
    ///
    /// What the machine does with it: [`crate::compact_laws::lemma_add`].
    pub open spec fn add_code() -> Seq<LineView> {
        stack_to_d() + Self::add_middle() + a_to_stack() + seq![LineView::Blank]
    }

    /// The translation of `sub`.
    ///
    /// What the machine does with it: [`crate::compact_laws::lemma_sub`].
    pub open spec fn sub_code() -> Seq<LineView> {
        stack_to_d() + seq![
            LineView::at(Register::Sp),
            LineView::set(Dest::A, Comp::MMinusOne),
            LineView::set(Dest::A, Comp::M),
            LineView::set(Dest::D, Comp::AMinusD),
            LineView::at(Register::Sp),
            LineView::set(Dest::A, Comp::MMinusOne),
            LineView::set(Dest::M, Comp::D),
            LineView::Blank,
        ]
    }

    /// The translation of `eq`, with the next three labels of the generator.
    ///
    /// What the machine does with it: [`crate::compact_laws::lemma_eq`].
    pub open spec fn eq_code(labels: nat) -> Seq<LineView> {
        compare(
            Comp::DMinusA,
            Jump::Jeq,
            next_label("is_eq"@, labels),
            next_label("not_equal"@, labels + 1),
            next_label("end"@, labels + 2),
        )
    }

    /// The translation of `lt`, with the next three labels of the generator.
    ///
    /// What the machine does with it: [`crate::compact_laws::lemma_lt`].
    pub open spec fn lt_code(labels: nat) -> Seq<LineView> {
        compare(
            Comp::AMinusD,
            Jump::Jlt,
            next_label("is_lt"@, labels),
            next_label("is_not_lt"@, labels + 1),
            next_label("end"@, labels + 2),
        )
    }

    /// The translation of `gt`, with the next three labels of the generator.
    ///
    /// What the machine does with it: [`crate::compact_laws::lemma_gt`].
    pub open spec fn gt_code(labels: nat) -> Seq<LineView> {
        compare(
            Comp::DMinusA,
            Jump::Jlt,
            next_label("is_gt"@, labels),
            next_label("is_not_gt"@, labels + 1),
            next_label("end"@, labels + 2),
        )
    }

    /// The translation of `neg`: a call of the subroutine of the prelude,
    /// with the next label of the generator as the return address.
    ///
    /// What the machine does with it: [`crate::compact_laws::lemma_neg`].
    pub open spec fn neg_code(labels: nat) -> Seq<LineView> {
        let back = next_label("neg_ret"@, labels);
        seq![
            LineView::AtSymbol(back),
            LineView::set(Dest::D, Comp::A),
            LineView::AtSymbol(Self::negate_symbol()),
            LineView::jump(Comp::Zero, Jump::Jmp),
            LineView::Label(back),
        ]
    }

    /// Sets one local variable to zero and moves on to the next.
    pub open spec fn zero_local() -> Seq<LineView> {
        seq![LineView::set(Dest::M, Comp::Zero), LineView::set(Dest::A, Comp::APlusOne)]
    }

    /// The translation of `function symbol n_vars`: the function's label;
    /// then, if there are local variables, they are set to zero from the
    /// stack pointer upwards and the stack pointer is moved above them.
    ///
    /// What the machine does with it: [`crate::compact_calls::lemma_function`].
    pub open spec fn function_code(n_vars: i16, symbol: Seq<char>) -> Seq<LineView> {
        if n_vars > 0 {
            seq![
                LineView::Label(symbol),
                LineView::at(Register::Sp),
                LineView::set(Dest::A, Comp::M),
            ] + repeat(Self::zero_local(), count_of(n_vars)) + seq![
                LineView::set(Dest::D, Comp::A),
                LineView::at(Register::Sp),
                LineView::set(Dest::M, Comp::D),
            ]
        } else {
            seq![LineView::Label(symbol)]
        }
    }

    /// Pushes the pointer that `register` holds.
    pub open spec fn segment_pointer_to_stack_code(register: Register) -> Seq<LineView> {
        seq![
            LineView::at(register),
            LineView::set(Dest::D, Comp::M),
            LineView::at(Register::Sp),
            LineView::set(Dest::A, Comp::M),
            LineView::set(Dest::M, Comp::D),
            LineView::at(Register::Sp),
            LineView::set(Dest::M, Comp::MPlusOne),
        ]
    }

    /// The start of `call`: the address of the first argument is kept in
    /// the scratch register 13, and the return address is pushed.
    pub open spec fn call_start(n_args: i16, back: Seq<char>) -> Seq<LineView> {
        seq![
            LineView::at(Register::Sp),
            LineView::set(Dest::D, Comp::M),
            LineView::AtValue(n_args),
            LineView::set(Dest::D, Comp::DMinusA),
            LineView::AtValue(13),
            LineView::set(Dest::M, Comp::D),
            LineView::AtSymbol(back),
            LineView::set(Dest::D, Comp::A),
            LineView::at(Register::Sp),
            LineView::set(Dest::A, Comp::M),
            LineView::set(Dest::M, Comp::D),
            LineView::at(Register::Sp),
            LineView::set(Dest::M, Comp::MPlusOne),
        ]
    }

    /// The end of `call`: ARG and LCL are set for the callee, control moves
    /// to it, and the return label follows.
    pub open spec fn call_end(callee: Seq<char>, back: Seq<char>) -> Seq<LineView> {
        seq![
            LineView::AtValue(13),
            LineView::set(Dest::D, Comp::M),
            LineView::at(Register::Arg),
            LineView::set(Dest::M, Comp::D),
            LineView::at(Register::Sp),
            LineView::set(Dest::D, Comp::M),
            LineView::at(Register::Lcl),
            LineView::set(Dest::M, Comp::D),
            LineView::AtSymbol(callee),
            LineView::jump(Comp::Zero, Jump::Jmp),
            LineView::Label(back),
            LineView::Blank,
        ]
    }

    /// The translation of `call callee n_args` at the call site number
    /// `calls`: the return address and the four segment pointers are pushed,
    /// ARG is set to the first argument and LCL to the stack pointer, and
    /// control moves to the callee.
    ///
    /// What the machine does with it: [`crate::compact_calls::lemma_call`].
    pub open spec fn call_code(n_args: i16, callee: Seq<char>, calls: nat) -> Seq<LineView> {
        let back = return_label(callee, calls);
        Self::call_start(n_args, back) + Self::segment_pointer_to_stack_code(Register::Lcl)
            + Self::segment_pointer_to_stack_code(Register::Arg)
            + Self::segment_pointer_to_stack_code(Register::This)
            + Self::segment_pointer_to_stack_code(Register::That) + Self::call_end(callee, back)
    }

    /// The start of `return`: the end of the frame and the return address
    /// go to the scratch registers 13 and 14; the result is popped into the
    /// first argument's slot and the stack pointer set just above it.
    pub open spec fn return_start() -> Seq<LineView> {
        seq![
            LineView::at(Register::Lcl),
            LineView::set(Dest::D, Comp::M),
            LineView::AtValue(13),
            LineView::set(Dest::M, Comp::D),
            LineView::AtValue(5),
            LineView::set(Dest::A, Comp::DMinusA),
            LineView::set(Dest::D, Comp::M),
            LineView::AtValue(14),
            LineView::set(Dest::M, Comp::D),
            LineView::at(Register::Sp),
            LineView::set(Dest::AM, Comp::MMinusOne),
            LineView::set(Dest::D, Comp::M),
            LineView::at(Register::Arg),
            LineView::set(Dest::A, Comp::M),
            LineView::set(Dest::M, Comp::D),
            LineView::set(Dest::D, Comp::APlusOne),
            LineView::at(Register::Sp),
            LineView::set(Dest::M, Comp::D),
        ]
    }

    /// Restores a pointer register from the word below the one that the
    /// scratch register 13 points to, and leaves 13 pointing to that word.
    pub open spec fn restore_code(register: Register) -> Seq<LineView> {
        seq![
            LineView::AtValue(13),
            LineView::set(Dest::AM, Comp::MMinusOne),
            LineView::set(Dest::D, Comp::M),
            LineView::at(register),
            LineView::set(Dest::M, Comp::D),
        ]
    }

    /// The end of `return`: the jump to the return address.
    pub open spec fn return_end() -> Seq<LineView> {
        seq![
            LineView::AtValue(14),
            LineView::set(Dest::A, Comp::M),
            LineView::jump(Comp::Zero, Jump::Jmp),
            LineView::Blank,
        ]
    }

    /// The translation of `return`.
    ///
    /// What the machine does with it: [`crate::compact_calls::lemma_return`].
    pub open spec fn return_code() -> Seq<LineView> {
        Self::return_start() + Self::restore_code(Register::That) + Self::restore_code(
            Register::This,
        ) + Self::restore_code(Register::Arg) + Self::restore_code(Register::Lcl)
            + Self::return_end()
    }

    /// The listing agrees with its running number.
    pub closed spec fn wf(&self) -> bool {
        self.writer.wf()
    }

    /// Ends the work of the emitter and hands its counters on.
    pub fn close(self) -> (context: CEmitterContext)
        requires
            self.wf(),
        ensures
            context.counters() == self@.counters(),
    {
        CEmitterContext {
            emitted_instructions_count: self.writer.next_index(),
            symbol_generator: self.symbol_generator,
            func_emitter: self.func_emitter,
        }
    }

    /// Creates an emitter that has emitted nothing, ever.
    pub fn new() -> (emitter: CompactEmitter)
        ensures
            emitter.wf(),
            emitter@ == Emitted::fresh(),
    {
        CompactEmitter {
            writer: Listing::new(0),
            symbol_generator: SymbolGenerator::new(),
            func_emitter: FuncEmitter::new(),
        }
    }

    /// Re-constructs an emitter from the context of an earlier one.
    pub fn with_context(emitter_context: CEmitterContext) -> (emitter: CompactEmitter)
        ensures
            emitter.wf(),
            emitter@ == Emitted::resume(emitter_context.counters()),
    {
        CompactEmitter {
            writer: Listing::new(emitter_context.emitted_instructions_count),
            symbol_generator: emitter_context.symbol_generator,
            func_emitter: emitter_context.func_emitter,
        }
    }

    /// The listing as text.
    pub fn output(&self) -> (text: String)
        requires
            self.wf(),
        ensures
            text@ == self@.listing.text(),
    {
        self.writer.text()
    }

    /// The lines emitted so far.
    pub fn lines(&self) -> (lines: &Vec<Line>)
        ensures
            views(lines@) == self@.listing.lines,
    {
        self.writer.lines()
    }

    /// Whether the counters leave room for one more command with all that
    /// may go before it.
    pub fn has_room(&self) -> (b: bool)
        requires
            self.wf(),
        ensures
            b == self@.has_room(),
    {
        let limit: usize = usize::MAX - (OP_ROOM + 2 * PRELUDE_ROOM);
        self.writer.next_index() <= limit && self.symbol_generator.made() <= usize::MAX - 2
            * LABEL_ROOM && self.func_emitter.calls() <= usize::MAX - 1
    }

    /// Emits a comment line that holds `text`.
    pub fn comment(&mut self, text: &str)
        requires
            old(self).wf(),
            old(self)@.room(1, 0, 0),
        ensures
            final(self).wf(),
            final(self)@ == old(self)@.plus(seq![LineView::Comment(text@)], 0, 0),
            final(self)@.within(old(self)@, 0, 0, 0),
    {
        self.writer.emit(Line::Comment(text.to_string()));
    }

    /// Emits the prelude: see [`CompactEmitter::prelude_lines`].
    pub fn prelude(&mut self)
        requires
            old(self).wf(),
            old(self)@.prelude_room(),
        ensures
            final(self).wf(),
            final(self)@ == old(self)@.plus(Self::prelude_lines(old(self)@.labels), 1, 0),
            final(self)@.within(old(self)@, 14, 1, 0),
    {
        proof {
            reveal_strlit("end_prelude");
        }
        let end = self.symbol_generator.next_commented("end_prelude");
        let lines = vec![
            Line::symbol(&end),
            Line::jump(Comp::Zero, Jump::Jmp),
            Line::Label("neg_proc".to_string()),
            Line::AtValue(15),
            Line::set(Dest::M, Comp::D),
            Line::at(Register::Sp),
            Line::set(Dest::A, Comp::MMinusOne),
            Line::set(Dest::D, Comp::M),
            Line::set(Dest::D, Comp::NegD),
            Line::set(Dest::M, Comp::D),
            Line::AtValue(15),
            Line::set(Dest::A, Comp::M),
            Line::jump(Comp::Zero, Jump::Jmp),
            Line::label(&end),
        ];
        assert(views(lines@) =~= Self::prelude_lines(old(self)@.labels));
        self.writer.extend(lines);
    }

    /// Emits the bootstrap: the stack pointer is set to its origin and
    /// control moves to the entry point.
    pub fn emit_init(&mut self)
        requires
            old(self).wf(),
            old(self)@.prelude_room(),
        ensures
            final(self).wf(),
            final(self)@ == old(self)@.plus(bootstrap(), 0, 0),
            final(self)@.within(old(self)@, PRELUDE_ROOM as nat, 0, 0),
    {
        emit_bootstrap(&mut self.writer);
    }

    /// Pushes the value given onto the stack.
    pub fn push_const(&mut self, val: i16)
        requires
            old(self).wf(),
            old(self)@.op_room(),
        ensures
            final(self).wf(),
            final(self)@ == old(self)@.translated(Self::push_const_code(val), 0, 0),
            final(self)@.within(old(self)@, 8, 0, 0),
    {
        let lines = vec![
            Line::AtValue(val),
            Line::set(Dest::D, Comp::A),
            Line::at(Register::Sp),
            Line::set(Dest::A, Comp::M),
            Line::set(Dest::M, Comp::D),
            Line::at(Register::Sp),
            Line::set(Dest::M, Comp::MPlusOne),
            Line::Blank,
        ];
        assert(views(lines@) =~= Self::push_const_code(val));
        self.writer.extend(lines);
    }

    /// Replaces the two topmost words by their sum.
    pub fn add(&mut self)
        requires
            old(self).wf(),
            old(self)@.op_room(),
        ensures
            final(self).wf(),
            final(self)@ == old(self)@.translated(Self::add_code(), 0, 0),
            final(self)@.within(old(self)@, 16, 0, 0),
    {
        emit_stack_to_d(&mut self.writer);
        let lines = vec![
            Line::at(Register::Sp),
            Line::set(Dest::M, Comp::MMinusOne),
            Line::set(Dest::A, Comp::M),
            Line::set(Dest::A, Comp::M),
            Line::set(Dest::D, Comp::DPlusA),
            Line::set(Dest::A, Comp::D),
        ];
        assert(views(lines@) =~= Self::add_middle());
        self.writer.extend(lines);
        emit_a_to_stack(&mut self.writer);
        self.writer.emit(Line::Blank);
        assert(self.writer@.lines =~= old(self).writer@.lines + Self::add_code());
    }

    /// Replaces the two topmost words by the truth of their equality.
    pub fn eq(&mut self)
        requires
            old(self).wf(),
            old(self)@.op_room(),
        ensures
            final(self).wf(),
            final(self)@ == old(self)@.translated(Self::eq_code(old(self)@.labels), 3, 0),
            final(self)@.within(old(self)@, 21, 3, 0),
    {
        proof {
            reveal_strlit("is_eq");
            reveal_strlit("not_equal");
            reveal_strlit("end");
        }
        let is_equal = self.symbol_generator.next_commented("is_eq");
        let not_equal = self.symbol_generator.next_commented("not_equal");
        let end = self.symbol_generator.next_commented("end");
        emit_compare(&mut self.writer, Comp::DMinusA, Jump::Jeq, &is_equal, &not_equal, &end);
    }

    /// Replaces the two topmost words by their difference, the upper taken
    /// from the lower.
    pub fn sub(&mut self)
        requires
            old(self).wf(),
            old(self)@.op_room(),
        ensures
            final(self).wf(),
            final(self)@ == old(self)@.translated(Self::sub_code(), 0, 0),
            final(self)@.within(old(self)@, 12, 0, 0),
    {
        emit_stack_to_d(&mut self.writer);
        let lines = vec![
            Line::at(Register::Sp),
            Line::set(Dest::A, Comp::MMinusOne),
            Line::set(Dest::A, Comp::M),
            Line::set(Dest::D, Comp::AMinusD),
            Line::at(Register::Sp),
            Line::set(Dest::A, Comp::MMinusOne),
            Line::set(Dest::M, Comp::D),
            Line::Blank,
        ];
        assert(views(lines@) =~= Self::sub_code().skip(4));
        self.writer.extend(lines);
        assert(self.writer@.lines =~= old(self).writer@.lines + Self::sub_code());
    }

    /// Replaces the two topmost words by the truth of the lower being less
    /// than the upper.
    pub fn lt(&mut self)
        requires
            old(self).wf(),
            old(self)@.op_room(),
        ensures
            final(self).wf(),
            final(self)@ == old(self)@.translated(Self::lt_code(old(self)@.labels), 3, 0),
            final(self)@.within(old(self)@, 21, 3, 0),
    {
        proof {
            reveal_strlit("is_lt");
            reveal_strlit("is_not_lt");
            reveal_strlit("end");
        }
        let is_lt = self.symbol_generator.next_commented("is_lt");
        let is_not_lt = self.symbol_generator.next_commented("is_not_lt");
        let end = self.symbol_generator.next_commented("end");
        emit_compare(&mut self.writer, Comp::AMinusD, Jump::Jlt, &is_lt, &is_not_lt, &end);
    }

    /// Replaces the two topmost words by the truth of the lower being
    /// greater than the upper.
    pub fn gt(&mut self)
        requires
            old(self).wf(),
            old(self)@.op_room(),
        ensures
            final(self).wf(),
            final(self)@ == old(self)@.translated(Self::gt_code(old(self)@.labels), 3, 0),
            final(self)@.within(old(self)@, 21, 3, 0),
    {
        proof {
            reveal_strlit("is_gt");
            reveal_strlit("is_not_gt");
            reveal_strlit("end");
        }
        let is_gt = self.symbol_generator.next_commented("is_gt");
        let is_not_gt = self.symbol_generator.next_commented("is_not_gt");
        let end = self.symbol_generator.next_commented("end");
        emit_compare(&mut self.writer, Comp::DMinusA, Jump::Jlt, &is_gt, &is_not_gt, &end);
    }

    /// Negates the topmost word.
    pub fn neg(&mut self)
        requires
            old(self).wf(),
            old(self)@.op_room(),
        ensures
            final(self).wf(),
            final(self)@ == old(self)@.translated(Self::neg_code(old(self)@.labels), 1, 0),
            final(self)@.within(old(self)@, 5, 1, 0),
    {
        proof {
            reveal_strlit("neg_ret");
        }
        let return_label = self.symbol_generator.next_commented("neg_ret");
        let lines = vec![
            Line::symbol(&return_label),
            Line::set(Dest::D, Comp::A),
            Line::AtSymbol("neg_proc".to_string()),
            Line::jump(Comp::Zero, Jump::Jmp),
            Line::label(&return_label),
        ];
        assert(views(lines@) =~= Self::neg_code(old(self)@.labels));
        self.writer.extend(lines);
    }

    /// Replaces the two topmost words by their bitwise or.
    pub fn or(&mut self)
        requires
            old(self).wf(),
            old(self)@.op_room(),
        ensures
            final(self).wf(),
            final(self)@ == old(self)@.translated(combine_top(Comp::DOrM), 0, 0),
            final(self)@.within(old(self)@, 8, 0, 0),
    {
        emit_combine_top(&mut self.writer, Comp::DOrM);
    }

    /// Replaces the topmost word by its bitwise complement.
    pub fn not(&mut self)
        requires
            old(self).wf(),
            old(self)@.op_room(),
        ensures
            final(self).wf(),
            final(self)@ == old(self)@.translated(change_top(Comp::NotD), 0, 0),
            final(self)@.within(old(self)@, 6, 0, 0),
    {
        emit_change_top(&mut self.writer, Comp::NotD);
    }

    /// Replaces the two topmost words by their bitwise and.
    pub fn and(&mut self)
        requires
            old(self).wf(),
            old(self)@.op_room(),
        ensures
            final(self).wf(),
            final(self)@ == old(self)@.translated(combine_top(Comp::DAndM), 0, 0),
            final(self)@.within(old(self)@, 8, 0, 0),
    {
        emit_combine_top(&mut self.writer, Comp::DAndM);
    }

    /// Pops the top of the stack into the word `offset` of `segment`, which
    /// is not the constant segment: constants have no address.
    pub fn pop_non_stack_segment(&mut self, segment: Segment, offset: i16)
        requires
            segment != Segment::Constant,
            old(self).wf(),
            old(self)@.op_room(),
        ensures
            final(self).wf(),
            final(self)@ == old(self)@.translated(pop_segment(segment, offset), 0, 0),
            final(self)@.within(old(self)@, 22, 0, 0),
    {
        emit_pop_segment(&mut self.writer, segment, offset);
    }

    /// Pushes the word `offset` of `segment` onto the stack. The segment is
    /// not the constant segment: a constant is pushed by
    /// [`Self::push_const`].
    pub fn push_non_stack_segment(&mut self, segment: Segment, offset: i16)
        requires
            segment != Segment::Constant,
            old(self).wf(),
            old(self)@.op_room(),
        ensures
            final(self).wf(),
            final(self)@ == old(self)@.translated(push_segment(segment, offset), 0, 0),
            final(self)@.within(old(self)@, 10, 0, 0),
    {
        emit_push_segment(&mut self.writer, segment, offset);
    }

    /// Pops the top of the stack into the word `n` of the argument segment.
    pub fn pop_argument_n(&mut self, n: i16)
        requires
            old(self).wf(),
            old(self)@.op_room(),
        ensures
            final(self).wf(),
            final(self)@ == old(self)@.translated(pop_segment(Segment::Argument, n), 0, 0),
            final(self)@.within(old(self)@, 22, 0, 0),
    {
        self.pop_non_stack_segment(Segment::Argument, n);
    }

    /// Pushes the word `n` of the local segment.
    pub fn push_local_n(&mut self, n: i16)
        requires
            old(self).wf(),
            old(self)@.op_room(),
        ensures
            final(self).wf(),
            final(self)@ == old(self)@.translated(push_segment(Segment::Local, n), 0, 0),
            final(self)@.within(old(self)@, 10, 0, 0),
    {
        self.push_non_stack_segment(Segment::Local, n);
    }

    /// Pops the top of the stack into the word `n` of the that segment.
    pub fn pop_that_n(&mut self, n: i16)
        requires
            old(self).wf(),
            old(self)@.op_room(),
        ensures
            final(self).wf(),
            final(self)@ == old(self)@.translated(pop_segment(Segment::That, n), 0, 0),
            final(self)@.within(old(self)@, 22, 0, 0),
    {
        self.pop_non_stack_segment(Segment::That, n);
    }

    /// Pops the top of the stack into the word `n` of the temp segment.
    pub fn pop_temp_n(&mut self, n: i16)
        requires
            old(self).wf(),
            old(self)@.op_room(),
        ensures
            final(self).wf(),
            final(self)@ == old(self)@.translated(pop_segment(Segment::Temp, n), 0, 0),
            final(self)@.within(old(self)@, 22, 0, 0),
    {
        self.pop_non_stack_segment(Segment::Temp, n);
    }

    /// Pops the top of the stack into the word `n` of the this segment.
    pub fn pop_this_n(&mut self, n: i16)
        requires
            old(self).wf(),
            old(self)@.op_room(),
        ensures
            final(self).wf(),
            final(self)@ == old(self)@.translated(pop_segment(Segment::This, n), 0, 0),
            final(self)@.within(old(self)@, 22, 0, 0),
    {
        self.pop_non_stack_segment(Segment::This, n);
    }

    /// Pushes the word `n` of the that segment.
    pub fn push_that_n(&mut self, n: i16)
        requires
            old(self).wf(),
            old(self)@.op_room(),
        ensures
            final(self).wf(),
            final(self)@ == old(self)@.translated(push_segment(Segment::That, n), 0, 0),
            final(self)@.within(old(self)@, 10, 0, 0),
    {
        self.push_non_stack_segment(Segment::That, n);
    }

    /// Pushes the word `n` of the argument segment.
    pub fn push_arg_n(&mut self, n: i16)
        requires
            old(self).wf(),
            old(self)@.op_room(),
        ensures
            final(self).wf(),
            final(self)@ == old(self)@.translated(push_segment(Segment::Argument, n), 0, 0),
            final(self)@.within(old(self)@, 10, 0, 0),
    {
        self.push_non_stack_segment(Segment::Argument, n);
    }

    /// Pushes the word `n` of the temp segment.
    pub fn push_temp_n(&mut self, n: i16)
        requires
            old(self).wf(),
            old(self)@.op_room(),
        ensures
            final(self).wf(),
            final(self)@ == old(self)@.translated(push_segment(Segment::Temp, n), 0, 0),
            final(self)@.within(old(self)@, 10, 0, 0),
    {
        self.push_non_stack_segment(Segment::Temp, n);
    }

    /// Pushes the word `n` of the static segment.
    pub fn push_static_n(&mut self, n: i16)
        requires
            old(self).wf(),
            old(self)@.op_room(),
        ensures
            final(self).wf(),
            final(self)@ == old(self)@.translated(push_segment(Segment::Static, n), 0, 0),
            final(self)@.within(old(self)@, 10, 0, 0),
    {
        self.push_non_stack_segment(Segment::Static, n);
    }

    /// Pushes the word `n` of the this segment.
    pub fn push_this_n(&mut self, n: i16)
        requires
            old(self).wf(),
            old(self)@.op_room(),
        ensures
            final(self).wf(),
            final(self)@ == old(self)@.translated(push_segment(Segment::This, n), 0, 0),
            final(self)@.within(old(self)@, 10, 0, 0),
    {
        self.push_non_stack_segment(Segment::This, n);
    }

    /// Pushes the word `n` of the pointer segment.
    pub fn push_ptr_n(&mut self, n: i16)
        requires
            old(self).wf(),
            old(self)@.op_room(),
        ensures
            final(self).wf(),
            final(self)@ == old(self)@.translated(push_segment(Segment::Pointer, n), 0, 0),
            final(self)@.within(old(self)@, 10, 0, 0),
    {
        self.push_non_stack_segment(Segment::Pointer, n);
    }

    /// Pops the top of the stack into the word `n` of the static segment.
    pub fn pop_static_n(&mut self, n: i16)
        requires
            old(self).wf(),
            old(self)@.op_room(),
        ensures
            final(self).wf(),
            final(self)@ == old(self)@.translated(pop_segment(Segment::Static, n), 0, 0),
            final(self)@.within(old(self)@, 22, 0, 0),
    {
        self.pop_non_stack_segment(Segment::Static, n);
    }

    /// Pops the top of the stack into the word `n` of the local segment.
    pub fn pop_local_n(&mut self, n: i16)
        requires
            old(self).wf(),
            old(self)@.op_room(),
        ensures
            final(self).wf(),
            final(self)@ == old(self)@.translated(pop_segment(Segment::Local, n), 0, 0),
            final(self)@.within(old(self)@, 22, 0, 0),
    {
        self.pop_non_stack_segment(Segment::Local, n);
    }

    /// Pops the top of the stack into the word `n` of the pointer segment.
    pub fn pop_ptr_n(&mut self, n: i16)
        requires
            old(self).wf(),
            old(self)@.op_room(),
        ensures
            final(self).wf(),
            final(self)@ == old(self)@.translated(pop_segment(Segment::Pointer, n), 0, 0),
            final(self)@.within(old(self)@, 22, 0, 0),
    {
        self.pop_non_stack_segment(Segment::Pointer, n);
    }

    /// Declares the label `symbol` of the source program.
    pub fn label(&mut self, symbol: &str)
        requires
            old(self).wf(),
            old(self)@.op_room(),
        ensures
            final(self).wf(),
            final(self)@ == old(self)@.translated(label_code(symbol@), 0, 0),
            final(self)@.within(old(self)@, 1, 0, 0),
    {
        emit_label(&mut self.writer, symbol);
    }

    /// Pops the top of the stack and jumps to the label `symbol` of the
    /// source program if the popped word is not zero.
    pub fn ifgoto(&mut self, symbol: &str)
        requires
            old(self).wf(),
            old(self)@.op_room(),
        ensures
            final(self).wf(),
            final(self)@ == old(self)@.translated(ifgoto_code(symbol@), 0, 0),
            final(self)@.within(old(self)@, 7, 0, 0),
    {
        emit_ifgoto(&mut self.writer, symbol);
    }

    /// Jumps to the label `symbol` of the source program.
    pub fn goto(&mut self, symbol: &str)
        requires
            old(self).wf(),
            old(self)@.op_room(),
        ensures
            final(self).wf(),
            final(self)@ == old(self)@.translated(goto_code(symbol@), 0, 0),
            final(self)@.within(old(self)@, 3, 0, 0),
    {
        emit_goto(&mut self.writer, symbol);
    }

    /// Starts the function `symbol`, which has `n_vars` local variables: a
    /// negative number counts as none.
    pub fn function(&mut self, n_vars: i16, symbol: &str)
        requires
            old(self).wf(),
            old(self)@.op_room(),
        ensures
            final(self).wf(),
            final(self)@ == old(self)@.translated(Self::function_code(n_vars, symbol@), 0, 0),
            final(self)@.within(old(self)@, 6 + 2 * count_of(n_vars), 0, 0),
    {
        self.writer.emit(Line::Label(symbol.to_string()));
        if n_vars > 0 {
            let lines = vec![Line::at(Register::Sp), Line::set(Dest::A, Comp::M)];
            assert(views(lines@) =~= seq![
                LineView::at(Register::Sp),
                LineView::set(Dest::A, Comp::M),
            ]);
            self.writer.extend(lines);
            let ghost head = seq![
                LineView::Label(symbol@),
                LineView::at(Register::Sp),
                LineView::set(Dest::A, Comp::M),
            ];
            let mut i: i16 = 0;
            assert(repeat(Self::zero_local(), 0) =~= Seq::<LineView>::empty());
            assert(self.writer@.lines =~= old(self).writer@.lines + (head + repeat(
                Self::zero_local(),
                0,
            )));
            while i < n_vars
                invariant
                    0 <= i <= n_vars,
                    self.wf(),
                    old(self)@.op_room(),
                    head == seq![
                        LineView::Label(symbol@),
                        LineView::at(Register::Sp),
                        LineView::set(Dest::A, Comp::M),
                    ],
                    self@.listing.first == old(self)@.listing.first,
                    self@.listing.lines == old(self)@.listing.lines + (head + repeat(
                        Self::zero_local(),
                        i as nat,
                    )),
                    self@.listing.next_index() <= old(self)@.listing.next_index() + 3 + 2 * i,
                    self@.labels == old(self)@.labels,
                    self@.calls == old(self)@.calls,
                decreases n_vars - i,
            {
                let lines = vec![Line::set(Dest::M, Comp::Zero), Line::set(Dest::A, Comp::APlusOne)];
                assert(views(lines@) =~= Self::zero_local());
                self.writer.extend(lines);
                proof {
                    assert(repeat(Self::zero_local(), (i + 1) as nat) == repeat(
                        Self::zero_local(),
                        i as nat,
                    ) + Self::zero_local());
                    assert(self.writer@.lines =~= old(self).writer@.lines + (head + repeat(
                        Self::zero_local(),
                        (i + 1) as nat,
                    )));
                }
                i += 1;
            }
            let lines = vec![
                Line::set(Dest::D, Comp::A),
                Line::at(Register::Sp),
                Line::set(Dest::M, Comp::D),
            ];
            assert(views(lines@) =~= seq![
                LineView::set(Dest::D, Comp::A),
                LineView::at(Register::Sp),
                LineView::set(Dest::M, Comp::D),
            ]);
            self.writer.extend(lines);
            assert(self.writer@.lines =~= old(self).writer@.lines + Self::function_code(
                n_vars,
                symbol@,
            ));
        }
    }

    /// Emits [`CompactEmitter::segment_pointer_to_stack_code`].
    fn segment_pointer_to_stack(&mut self, register: Register)
        requires
            old(self).wf(),
            old(self)@.listing.room(7),
        ensures
            final(self).wf(),
            final(self)@.listing.follows(
                old(self)@.listing,
                Self::segment_pointer_to_stack_code(register),
            ),
            final(self)@.labels == old(self)@.labels,
            final(self)@.calls == old(self)@.calls,
    {
        let lines = vec![
            Line::at(register),
            Line::set(Dest::D, Comp::M),
            Line::at(Register::Sp),
            Line::set(Dest::A, Comp::M),
            Line::set(Dest::M, Comp::D),
            Line::at(Register::Sp),
            Line::set(Dest::M, Comp::MPlusOne),
        ];
        assert(views(lines@) =~= Self::segment_pointer_to_stack_code(register));
        self.writer.extend(lines);
    }

    /// Emits [`CompactEmitter::restore_code`].
    fn restore(&mut self, register: Register)
        requires
            old(self).wf(),
            old(self)@.listing.room(5),
        ensures
            final(self).wf(),
            final(self)@.listing.follows(old(self)@.listing, Self::restore_code(register)),
            final(self)@.labels == old(self)@.labels,
            final(self)@.calls == old(self)@.calls,
    {
        let lines = vec![
            Line::AtValue(13),
            Line::set(Dest::AM, Comp::MMinusOne),
            Line::set(Dest::D, Comp::M),
            Line::at(register),
            Line::set(Dest::M, Comp::D),
        ];
        assert(views(lines@) =~= Self::restore_code(register));
        self.writer.extend(lines);
    }

    /// Returns from the current function with the top of the stack as its
    /// result.
    pub fn _return(&mut self)
        requires
            old(self).wf(),
            old(self)@.op_room(),
        ensures
            final(self).wf(),
            final(self)@ == old(self)@.translated(Self::return_code(), 0, 0),
            final(self)@.within(old(self)@, 42, 0, 0),
    {
        let lines = vec![
            Line::at(Register::Lcl),
            Line::set(Dest::D, Comp::M),
            Line::AtValue(13),
            Line::set(Dest::M, Comp::D),
            Line::AtValue(5),
            Line::set(Dest::A, Comp::DMinusA),
            Line::set(Dest::D, Comp::M),
            Line::AtValue(14),
            Line::set(Dest::M, Comp::D),
            Line::at(Register::Sp),
            Line::set(Dest::AM, Comp::MMinusOne),
            Line::set(Dest::D, Comp::M),
            Line::at(Register::Arg),
            Line::set(Dest::A, Comp::M),
            Line::set(Dest::M, Comp::D),
            Line::set(Dest::D, Comp::APlusOne),
            Line::at(Register::Sp),
            Line::set(Dest::M, Comp::D),
        ];
        assert(views(lines@) =~= Self::return_start());
        self.writer.extend(lines);
        self.restore(Register::That);
        self.restore(Register::This);
        self.restore(Register::Arg);
        self.restore(Register::Lcl);
        let lines = vec![
            Line::AtValue(14),
            Line::set(Dest::A, Comp::M),
            Line::jump(Comp::Zero, Jump::Jmp),
            Line::Blank,
        ];
        assert(views(lines@) =~= Self::return_end());
        self.writer.extend(lines);
        assert(self.writer@.lines =~= old(self).writer@.lines + Self::return_code());
    }

    /// Calls the function `callee_symbol` with the `n_args` topmost words of
    /// the stack as its arguments.
    pub fn call(&mut self, n_args: i16, callee_symbol: &str)
        requires
            old(self).wf(),
            old(self)@.op_room(),
        ensures
            final(self).wf(),
            final(self)@ == old(self)@.translated(
                Self::call_code(n_args, callee_symbol@, old(self)@.calls),
                0,
                1,
            ),
            final(self)@.within(old(self)@, 53, 0, 1),
    {
        let id = self.func_emitter.call();
        let caller_return = FuncEmitter::return_symbol(callee_symbol, id);
        let ghost back = caller_return@;
        let lines = vec![
            Line::at(Register::Sp),
            Line::set(Dest::D, Comp::M),
            Line::AtValue(n_args),
            Line::set(Dest::D, Comp::DMinusA),
            Line::AtValue(13),
            Line::set(Dest::M, Comp::D),
            Line::symbol(&caller_return),
            Line::set(Dest::D, Comp::A),
            Line::at(Register::Sp),
            Line::set(Dest::A, Comp::M),
            Line::set(Dest::M, Comp::D),
            Line::at(Register::Sp),
            Line::set(Dest::M, Comp::MPlusOne),
        ];
        assert(views(lines@) =~= Self::call_start(n_args, back));
        self.writer.extend(lines);
        self.segment_pointer_to_stack(Register::Lcl);
        self.segment_pointer_to_stack(Register::Arg);
        self.segment_pointer_to_stack(Register::This);
        self.segment_pointer_to_stack(Register::That);
        let lines = vec![
            Line::AtValue(13),
            Line::set(Dest::D, Comp::M),
            Line::at(Register::Arg),
            Line::set(Dest::M, Comp::D),
            Line::at(Register::Sp),
            Line::set(Dest::D, Comp::M),
            Line::at(Register::Lcl),
            Line::set(Dest::M, Comp::D),
            Line::AtSymbol(callee_symbol.to_string()),
            Line::jump(Comp::Zero, Jump::Jmp),
            Line::label(&caller_return),
            Line::Blank,
        ];
        assert(views(lines@) =~= Self::call_end(callee_symbol@, back));
        self.writer.extend(lines);
        assert(self.writer@.lines =~= old(self).writer@.lines + Self::call_code(
            n_args,
            callee_symbol@,
            old(self)@.calls,
        ));
    }
}

impl EmitAsm<CEmitterContext> for CompactEmitter {
    open spec fn wf(&self) -> bool {
        CompactEmitter::wf(self)
    }

    open spec fn emitted(&self) -> Emitted {
        self@
    }

    open spec fn code(command: CommandView, labels: nat, calls: nat) -> Seq<LineView> {
        match command {
            CommandView::Push(Segment::Constant, value) => Self::push_const_code(value),
            CommandView::Push(segment, offset) => push_segment(segment, offset),
            CommandView::Pop(segment, offset) => pop_segment(segment, offset),
            CommandView::Arithmetic(ArithmeticType::Add) => Self::add_code(),
            CommandView::Arithmetic(ArithmeticType::Sub) => Self::sub_code(),
            CommandView::Arithmetic(ArithmeticType::Neg) => Self::neg_code(labels),
            CommandView::Arithmetic(ArithmeticType::Eq) => Self::eq_code(labels),
            CommandView::Arithmetic(ArithmeticType::Gt) => Self::gt_code(labels),
            CommandView::Arithmetic(ArithmeticType::Lt) => Self::lt_code(labels),
            CommandView::Arithmetic(ArithmeticType::And) => combine_top(Comp::DAndM),
            CommandView::Arithmetic(ArithmeticType::Or) => combine_top(Comp::DOrM),
            CommandView::Arithmetic(ArithmeticType::Not) => change_top(Comp::NotD),
            CommandView::Label(symbol) => label_code(symbol),
            CommandView::IfGoto(symbol) => ifgoto_code(symbol),
            CommandView::Goto(symbol) => goto_code(symbol),
            CommandView::Function { n_vars, symbol } => Self::function_code(n_vars, symbol),
            CommandView::Call { n_args, symbol } => Self::call_code(n_args, symbol, calls),
            CommandView::Return => Self::return_code(),
        }
    }

    open spec fn labels_used(command: CommandView) -> nat {
        match command {
            CommandView::Arithmetic(ArithmeticType::Eq) => 3,
            CommandView::Arithmetic(ArithmeticType::Gt) => 3,
            CommandView::Arithmetic(ArithmeticType::Lt) => 3,
            CommandView::Arithmetic(ArithmeticType::Neg) => 1,
            _ => 0,
        }
    }

    open spec fn calls_used(command: CommandView) -> nat {
        match command {
            CommandView::Call { .. } => 1,
            _ => 0,
        }
    }

    open spec fn bootstrap_code() -> Seq<LineView> {
        bootstrap()
    }

    open spec fn prelude_code(labels: nat) -> Seq<LineView> {
        Self::prelude_lines(labels)
    }

    open spec fn prelude_labels() -> nat {
        1
    }

    #[verifier::rlimit(40)]
    proof fn lemma_arithmetic_labels(op: ArithmeticType, labels: nat, calls: nat) {
        let code = Self::code(CommandView::Arithmetic(op), labels, calls);
        match op {
            ArithmeticType::Eq => {
                assert(declared(code) =~= seq![
                    next_label("not_equal"@, labels + 1),
                    next_label("is_eq"@, labels),
                    next_label("end"@, labels + 2),
                ]) by {
                    reveal_with_fuel(declared_from, 22);
                }
                lemma_three_generated(
                    declared(code),
                    ("not_equal"@, "is_eq"@, "end"@),
                    (labels + 2, labels + 1, labels + 3),
                    labels + 1,
                    labels + 4,
                );
            },
            ArithmeticType::Lt => {
                assert(declared(code) =~= seq![
                    next_label("is_not_lt"@, labels + 1),
                    next_label("is_lt"@, labels),
                    next_label("end"@, labels + 2),
                ]) by {
                    reveal_with_fuel(declared_from, 22);
                }
                lemma_three_generated(
                    declared(code),
                    ("is_not_lt"@, "is_lt"@, "end"@),
                    (labels + 2, labels + 1, labels + 3),
                    labels + 1,
                    labels + 4,
                );
            },
            ArithmeticType::Gt => {
                assert(declared(code) =~= seq![
                    next_label("is_not_gt"@, labels + 1),
                    next_label("is_gt"@, labels),
                    next_label("end"@, labels + 2),
                ]) by {
                    reveal_with_fuel(declared_from, 22);
                }
                lemma_three_generated(
                    declared(code),
                    ("is_not_gt"@, "is_gt"@, "end"@),
                    (labels + 2, labels + 1, labels + 3),
                    labels + 1,
                    labels + 4,
                );
            },
            ArithmeticType::Neg => {
                assert(declared(code) =~= seq![next_label("neg_ret"@, labels)]) by {
                    reveal_with_fuel(declared_from, 6);
                }
                lemma_one_generated(declared(code), "neg_ret"@, labels + 1, labels + 1, labels + 2);
            },
            _ => {
                assert(declared(code) =~= Seq::<Seq<char>>::empty()) by {
                    reveal_with_fuel(declared_from, 18);
                }
            },
        }
    }

    fn with_context(context: CEmitterContext) -> (emitter: Self) {
        Self::with_context(context)
    }

    fn new() -> (emitter: Self) {
        Self::new()
    }

    fn close(self) -> (context: CEmitterContext) {
        self.close()
    }

    fn output(&self) -> (text: String) {
        self.output()
    }

    fn has_room(&self) -> (b: bool) {
        self.has_room()
    }

    fn emit_init(&mut self) {
        self.emit_init()
    }

    fn prelude(&mut self) {
        self.prelude()
    }

    fn comment(&mut self, text: &str) {
        self.comment(text)
    }

    fn push_const(&mut self, val: i16) {
        self.push_const(val)
    }

    fn push_local_n(&mut self, offset: i16) {
        self.push_local_n(offset)
    }

    fn push_arg_n(&mut self, offset: i16) {
        self.push_arg_n(offset)
    }

    fn push_temp_n(&mut self, offset: i16) {
        self.push_temp_n(offset)
    }

    fn push_static_n(&mut self, offset: i16) {
        self.push_static_n(offset)
    }

    fn push_ptr_n(&mut self, offset: i16) {
        self.push_ptr_n(offset)
    }

    fn push_this_n(&mut self, offset: i16) {
        self.push_this_n(offset)
    }

    fn push_that_n(&mut self, offset: i16) {
        self.push_that_n(offset)
    }

    fn pop_local_n(&mut self, offset: i16) {
        self.pop_local_n(offset)
    }

    fn pop_argument_n(&mut self, offset: i16) {
        self.pop_argument_n(offset)
    }

    fn pop_temp_n(&mut self, offset: i16) {
        self.pop_temp_n(offset)
    }

    fn pop_static_n(&mut self, offset: i16) {
        self.pop_static_n(offset)
    }

    fn pop_that_n(&mut self, offset: i16) {
        self.pop_that_n(offset)
    }

    fn pop_this_n(&mut self, offset: i16) {
        self.pop_this_n(offset)
    }

    fn pop_ptr_n(&mut self, offset: i16) {
        self.pop_ptr_n(offset)
    }

    fn call(&mut self, n_args: i16, symbol: &str) {
        self.call(n_args, symbol)
    }

    fn _return(&mut self) {
        self._return()
    }

    fn function(&mut self, n_vars: i16, symbol: &str) {
        self.function(n_vars, symbol)
    }

    fn goto(&mut self, symbol: &str) {
        self.goto(symbol)
    }

    fn label(&mut self, symbol: &str) {
        self.label(symbol)
    }

    fn ifgoto(&mut self, symbol: &str) {
        self.ifgoto(symbol)
    }

    fn add(&mut self) {
        self.add()
    }

    fn sub(&mut self) {
        self.sub()
    }

    fn neg(&mut self) {
        self.neg()
    }

    fn eq(&mut self) {
        self.eq()
    }

    fn gt(&mut self) {
        self.gt()
    }

    fn lt(&mut self) {
        self.lt()
    }

    fn and(&mut self) {
        self.and()
    }

    fn or(&mut self) {
        self.or()
    }

    fn not(&mut self) {
        self.not()
    }
}

} // verus!
