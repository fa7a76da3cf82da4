//! An emitter that prefers ease of reading over size: arithmetic goes
//! through the scratch registers, one simple step at a time.

use vstd::prelude::*;
use crate::assembly::{views, Comp, Dest, Jump, Line, LineView, Register};
use crate::code::{
    bootstrap,
    compare,
    combine_top,
    change_top,
    count_of,
    d_to_stack,
    emit_bootstrap,
    emit_change_top,
    emit_combine_top,
    emit_compare,
    emit_d_to_stack,
    emit_goto,
    emit_ifgoto,
    emit_label,
    emit_pop_segment,
    emit_push_segment,
    emit_sp_at_offset,
    emit_stack_to_d,
    goto_code,
    ifgoto_code,
    label_code,
    pop_segment,
    push_segment,
    repeat,
    sp_at_offset,
    stack_to_d,
};
use crate::emit::{Counters, EContext, EmitAsm, Emitted, LABEL_ROOM, OP_ROOM, PRELUDE_ROOM};
use crate::labels::{declared, declared_from, lemma_three_generated};
use crate::listing::Listing;
use crate::parser::{ArithmeticType, CommandView, Segment};
use crate::symbols::{next_label, return_label, FuncEmitter, SymbolGenerator};

verus! {

/// The scratch registers of the machine that the emitter uses.
#[derive(Debug, Clone, Copy, PartialEq, Eq, Structural)]
pub enum TempRegister {
    T0,
    T1,
    T2,
}

impl TempRegister {
    /// The memory address of the register.
    pub open spec fn spec_address(self) -> i16 {
        match self {
            TempRegister::T0 => 13,
            TempRegister::T1 => 14,
            TempRegister::T2 => 15,
        }
    }

    /// The memory address of the register.
    #[verifier::when_used_as_spec(spec_address)]
    pub fn address(self) -> (a: i16)
        ensures
            a == self.spec_address(),
    {
        match self {
            TempRegister::T0 => 13,
            TempRegister::T1 => 14,
            TempRegister::T2 => 15,
        }
    }
}

/// The emitter.
pub struct SimpleEmitter {
    writer: Listing,
    symbol_generator: SymbolGenerator,
    func_emitter: FuncEmitter,
}

/// What passes from one [`SimpleEmitter`] to the next.
#[derive(Clone, Copy, Debug)]
pub struct SContext {
    emitted_instructions_count: usize,
    symbol_generator: SymbolGenerator,
    func_emitter: FuncEmitter,
}

impl Default for SContext {
    fn default() -> (context: Self)
        ensures
            context.counters() == (Counters { instructions: 0, labels: 0, calls: 0 }),
    {
        Self {
            emitted_instructions_count: 0,
            symbol_generator: SymbolGenerator::new(),
            func_emitter: FuncEmitter::new(),
        }
    }
}

impl SContext {
    /// A context put together from what an earlier one was taken apart into:
    /// the number of instructions emitted, the generator of labels and the
    /// counters of the calling convention.
    pub fn restore(
        emitted_instructions_count: usize,
        symbol_generator: SymbolGenerator,
        func_emitter: FuncEmitter,
    ) -> (context: Self)
        ensures
            context.counters() == (Counters {
                instructions: emitted_instructions_count as nat,
                labels: symbol_generator@,
                calls: func_emitter@.calls,
            }),
    {
        Self { emitted_instructions_count, symbol_generator, func_emitter }
    }

    /// The number of instructions emitted so far.
    pub fn emitted_instructions_count(&self) -> (n: usize)
        ensures
            n == self.counters().instructions,
    {
        self.emitted_instructions_count
    }

    /// The generator of labels, as it stands.
    pub fn symbol_generator(&self) -> (generator: SymbolGenerator)
        ensures
            generator@ == self.counters().labels,
    {
        self.symbol_generator
    }

    /// The counters of the calling convention, as they stand.
    pub fn func_emitter(&self) -> (counters: FuncEmitter)
        ensures
            counters@.calls == self.counters().calls,
    {
        self.func_emitter
    }
}

impl EContext for SContext {
    closed spec fn counters(&self) -> Counters {
        Counters {
            instructions: self.emitted_instructions_count as nat,
            labels: self.symbol_generator@,
            calls: self.func_emitter@.calls,
        }
    }
}

impl View for SimpleEmitter {
    type V = Emitted;

    closed spec fn view(&self) -> Emitted {
        Emitted {
            listing: self.writer@,
            labels: self.symbol_generator@,
            calls: self.func_emitter@.calls,
        }
    }
}

impl SimpleEmitter {
    /// Moves the value of a scratch register onto the stack.
    pub open spec fn temp_to_stack_code(reg: TempRegister) -> Seq<LineView> {
        seq![LineView::AtValue(reg.address()), LineView::set(Dest::D, Comp::M)] + d_to_stack()
    }

    /// Pops the top of the stack into a scratch register.
    pub open spec fn stack_to_temp_code(reg: TempRegister) -> Seq<LineView> {
        stack_to_d() + seq![LineView::AtValue(reg.address()), LineView::set(Dest::M, Comp::D)]
    }

    /// Pushes a constant.
    pub open spec fn const_to_stack_code(value: i16) -> Seq<LineView> {
        seq![LineView::AtValue(value), LineView::set(Dest::D, Comp::A)] + d_to_stack()
    }

    /// `out = first + second`, all three scratch registers.
    pub open spec fn add_temp_code(out: TempRegister, first: TempRegister, second: TempRegister)
        -> Seq<LineView> {
        seq![
            LineView::AtValue(first.address()),
            LineView::set(Dest::D, Comp::M),
            LineView::AtValue(second.address()),
            LineView::set(Dest::D, Comp::DPlusM),
            LineView::AtValue(out.address()),
            LineView::set(Dest::M, Comp::D),
        ]
    }

    /// `out = first - second`, all three scratch registers.
    pub open spec fn sub_temp_code(out: TempRegister, first: TempRegister, second: TempRegister)
        -> Seq<LineView> {
        seq![
            LineView::AtValue(first.address()),
            LineView::set(Dest::D, Comp::M),
            LineView::AtValue(second.address()),
            LineView::set(Dest::D, Comp::DMinusM),
            LineView::AtValue(out.address()),
            LineView::set(Dest::M, Comp::D),
        ]
    }

    /// Replaces the value of a scratch register by true if it is zero and by
    /// false if it is not. The three labels are the next three of the
    /// generator.
    pub open spec fn not_zero_tmp_code(tmp: TempRegister, labels: nat) -> Seq<LineView> {
        let is_zero = next_label("is_eq"@, labels);
        let not_zero = next_label("not_equal"@, labels + 1);
        let end = next_label("end"@, labels + 2);
        seq![
            LineView::AtValue(tmp.address()),
            LineView::set(Dest::D, Comp::M),
            LineView::AtSymbol(is_zero),
            LineView::jump(Comp::D, Jump::Jeq),
            LineView::Label(not_zero),
            LineView::set(Dest::D, Comp::Zero),
            LineView::AtSymbol(end),
            LineView::jump(Comp::Zero, Jump::Jmp),
            LineView::Label(is_zero),
            LineView::set(Dest::D, Comp::MinusOne),
            LineView::Label(end),
            LineView::AtValue(tmp.address()),
            LineView::set(Dest::M, Comp::D),
        ]
    }

    /// The translation of `push constant value`.
    ///
    /// What the machine does with it: [`crate::simple_laws::lemma_push_const`].
    pub open spec fn push_const_code(value: i16) -> Seq<LineView> {
        Self::const_to_stack_code(value)
    }

    /// The translation of `add`.
    ///
    /// What the machine does with it: [`crate::simple_laws::lemma_add`].
    pub open spec fn add_code() -> Seq<LineView> {
        Self::stack_to_temp_code(TempRegister::T0) + Self::stack_to_temp_code(TempRegister::T1)
            + Self::add_temp_code(TempRegister::T0, TempRegister::T0, TempRegister::T1)
            + Self::temp_to_stack_code(TempRegister::T0)
    }

    /// The translation of `sub`.
    ///
    /// What the machine does with it: [`crate::simple_laws::lemma_sub`].
    pub open spec fn sub_code() -> Seq<LineView> {
        Self::stack_to_temp_code(TempRegister::T0) + Self::stack_to_temp_code(TempRegister::T1)
            + Self::sub_temp_code(TempRegister::T0, TempRegister::T1, TempRegister::T0)
            + Self::temp_to_stack_code(TempRegister::T0) + seq![LineView::Blank]
    }

    /// The translation of `eq`, with the next three labels of the generator.
    ///
    /// What the machine does with it: [`crate::simple_laws::lemma_eq`].
    pub open spec fn eq_code(labels: nat) -> Seq<LineView> {
        Self::stack_to_temp_code(TempRegister::T0) + Self::stack_to_temp_code(TempRegister::T1)
            + Self::sub_temp_code(TempRegister::T0, TempRegister::T0, TempRegister::T1)
            + Self::not_zero_tmp_code(TempRegister::T0, labels) + Self::temp_to_stack_code(
            TempRegister::T0,
        )
    }

    /// The translation of `lt`, with the next three labels of the generator.
    ///
    /// What the machine does with it: [`crate::simple_laws::lemma_lt`].
    pub open spec fn lt_code(labels: nat) -> Seq<LineView> {
        compare(
            Comp::AMinusD,
            Jump::Jlt,
            next_label("is_lt"@, labels),
            next_label("is_not_lt"@, labels + 1),
            next_label("end"@, labels + 2),
        )
    }

    /// The translation of `gt`, with the next three labels of the generator.
    ///
    /// What the machine does with it: [`crate::simple_laws::lemma_gt`].
    pub open spec fn gt_code(labels: nat) -> Seq<LineView> {
        compare(
            Comp::DMinusA,
            Jump::Jlt,
            next_label("is_gt"@, labels),
            next_label("is_not_gt"@, labels + 1),
            next_label("end"@, labels + 2),
        )
    }

    /// Reserves one local variable on the stack and sets it to zero.
    pub open spec fn zero_local() -> Seq<LineView> {
        seq![
            LineView::at(Register::Sp),
            LineView::set(Dest::A, Comp::M),
            LineView::set(Dest::M, Comp::Zero),
            LineView::at(Register::Sp),
            LineView::set(Dest::M, Comp::MPlusOne),
        ]
    }

    /// The translation of `function symbol n_vars`: the function's label,
    /// then one zeroed stack slot for each local variable.
    ///
    /// What the machine does with it: [`crate::simple_calls::lemma_function`].
    pub open spec fn function_code(n_vars: i16, symbol: Seq<char>) -> Seq<LineView> {
        seq![LineView::Label(symbol)] + repeat(Self::zero_local(), count_of(n_vars))
    }

    /// Stores D in the stack slot `depth` below the stack pointer, after
    /// `source` and `load` have brought the value into D.
    pub open spec fn save_code(source: LineView, load: Comp, depth: nat) -> Seq<LineView> {
        seq![source, LineView::set(Dest::D, load)] + sp_at_offset(depth) + seq![
            LineView::set(Dest::M, Comp::D),
        ]
    }

    /// The start of `call`: five slots are reserved on the stack for the
    /// frame header.
    pub open spec fn call_reserve() -> Seq<LineView> {
        seq![
            LineView::AtValue(5),
            LineView::set(Dest::D, Comp::A),
            LineView::at(Register::Sp),
            LineView::set(Dest::M, Comp::DPlusM),
        ]
    }

    /// The part of `call` that sets LCL to the stack pointer.
    pub open spec fn call_set_local() -> Seq<LineView> {
        seq![
            LineView::at(Register::Sp),
            LineView::set(Dest::D, Comp::M),
            LineView::at(Register::Lcl),
            LineView::set(Dest::M, Comp::D),
        ]
    }

    /// The end of `call`: ARG takes the address that A holds, control moves
    /// to the callee, and the return label follows.
    pub open spec fn call_jump(callee: Seq<char>, back: Seq<char>) -> Seq<LineView> {
        seq![
            LineView::set(Dest::D, Comp::A),
            LineView::at(Register::Arg),
            LineView::set(Dest::M, Comp::D),
            LineView::AtSymbol(callee),
            LineView::jump(Comp::Zero, Jump::Jmp),
            LineView::Label(back),
        ]
    }

    /// The part of `call` that fills the frame header: the return address
    /// and the four segment pointers, each in its slot below the stack
    /// pointer.
    pub open spec fn call_header(back: Seq<char>) -> Seq<LineView> {
        Self::save_code(LineView::AtSymbol(back), Comp::A, 5) + Self::save_code(
            LineView::at(Register::Lcl),
            Comp::M,
            4,
        ) + Self::save_code(LineView::at(Register::Arg), Comp::M, 3) + Self::save_code(
            LineView::at(Register::This),
            Comp::M,
            2,
        ) + Self::save_code(LineView::at(Register::That), Comp::M, 1)
    }

    /// The translation of `call callee n_args` at the call site number
    /// `calls`. Five slots are reserved for the frame header; the return
    /// address and the four segment pointers are stored in them; LCL is set
    /// to the stack pointer and ARG to the first argument; control moves to
    /// the callee; the return label follows.
    ///
    /// What the machine does with it: [`crate::simple_calls::lemma_call`].
    pub open spec fn call_code(n_args: i16, callee: Seq<char>, calls: nat) -> Seq<LineView> {
        let back = return_label(callee, calls);
        Self::call_reserve() + Self::call_header(back) + Self::call_set_local() + sp_at_offset(
            5 + count_of(n_args),
        ) + Self::call_jump(callee, back)
    }

    /// Restores a pointer register from the slot `depth` below the end of
    /// the frame, whose address the first scratch register holds.
    pub open spec fn restore_code(register: Register, depth: nat) -> Seq<LineView> {
        seq![LineView::AtValue(TempRegister::T0.address()), LineView::set(Dest::A, Comp::M)]
            + Seq::new(depth, |i: int| LineView::set(Dest::A, Comp::AMinusOne)) + seq![
            LineView::set(Dest::D, Comp::M),
            LineView::at(register),
            LineView::set(Dest::M, Comp::D),
        ]
    }

    /// The first part of `return`: the end of the frame, the return address
    /// and the place of the result are put into the scratch registers.
    pub open spec fn return_capture() -> Seq<LineView> {
        seq![
            LineView::at(Register::Lcl),
            LineView::set(Dest::D, Comp::M),
            LineView::AtValue(TempRegister::T0.address()),
            LineView::set(Dest::M, Comp::D),
            LineView::AtValue(TempRegister::T0.address()),
            LineView::set(Dest::D, Comp::M),
            LineView::AtValue(5),
            LineView::set(Dest::A, Comp::DMinusA),
            LineView::set(Dest::D, Comp::M),
            LineView::AtValue(TempRegister::T1.address()),
            LineView::set(Dest::M, Comp::D),
            LineView::at(Register::Arg),
            LineView::set(Dest::D, Comp::M),
            LineView::AtValue(TempRegister::T2.address()),
            LineView::set(Dest::M, Comp::D),
        ]
    }

    /// The second part of `return`, after the result has been popped into
    /// D: the result goes to the first argument's slot and the stack pointer
    /// just above it.
    pub open spec fn return_result() -> Seq<LineView> {
        seq![
            LineView::at(Register::Arg),
            LineView::set(Dest::A, Comp::M),
            LineView::set(Dest::M, Comp::D),
            LineView::AtValue(TempRegister::T2.address()),
            LineView::set(Dest::D, Comp::M),
            LineView::set(Dest::D, Comp::DPlusOne),
            LineView::at(Register::Sp),
            LineView::set(Dest::M, Comp::D),
        ]
    }

    /// The last part of `return`: the jump to the return address.
    pub open spec fn return_jump() -> Seq<LineView> {
        seq![
            LineView::AtValue(TempRegister::T1.address()),
            LineView::set(Dest::A, Comp::M),
            LineView::jump(Comp::Zero, Jump::Jmp),
        ]
    }

    /// The part of `return` that restores the caller's segment pointers:
    /// THAT, THIS, ARG and LCL, in this order.
    pub open spec fn return_restore() -> Seq<LineView> {
        Self::restore_code(Register::That, 1) + Self::restore_code(Register::This, 2)
            + Self::restore_code(Register::Arg, 3) + Self::restore_code(Register::Lcl, 4)
    }

    /// The translation of `return`.
    ///
    /// What the machine does with it: [`crate::simple_calls::lemma_return`].
    pub open spec fn return_code() -> Seq<LineView> {
        Self::return_capture() + stack_to_d() + Self::return_result() + Self::return_restore()
            + Self::return_jump()
    }

    /// The listing agrees with its running number.
    pub closed spec fn wf(&self) -> bool {
        self.writer.wf()
    }

    /// Ends the work of the emitter and hands its counters on.
    pub fn close(self) -> (context: SContext)
        requires
            self.wf(),
        ensures
            context.counters() == self@.counters(),
    {
        SContext {
            emitted_instructions_count: self.writer.next_index(),
            symbol_generator: self.symbol_generator,
            func_emitter: self.func_emitter,
        }
    }

    /// Creates an emitter that has emitted nothing, ever.
    pub fn new() -> (emitter: SimpleEmitter)
        ensures
            emitter.wf(),
            emitter@ == Emitted::fresh(),
    {
        SimpleEmitter {
            writer: Listing::new(0),
            symbol_generator: SymbolGenerator::new(),
            func_emitter: FuncEmitter::new(),
        }
    }

    /// Re-constructs an emitter from the context of an earlier one.
    pub fn with_context(emitter_context: SContext) -> (emitter: SimpleEmitter)
        ensures
            emitter.wf(),
            emitter@ == Emitted::resume(emitter_context.counters()),
    {
        SimpleEmitter {
            writer: Listing::new(emitter_context.emitted_instructions_count),
            symbol_generator: emitter_context.symbol_generator,
            func_emitter: emitter_context.func_emitter,
        }
    }

    /// The listing as text.
    pub fn output(&self) -> (text: String)
        requires
            self.wf(),
        ensures
            text@ == self@.listing.text(),
    {
        self.writer.text()
    }

    /// The lines emitted so far.
    pub fn lines(&self) -> (lines: &Vec<Line>)
        ensures
            views(lines@) == self@.listing.lines,
    {
        self.writer.lines()
    }

    /// Whether the counters leave room for one more command with all that
    /// may go before it.
    pub fn has_room(&self) -> (b: bool)
        requires
            self.wf(),
        ensures
            b == self@.has_room(),
    {
        let limit: usize = usize::MAX - (OP_ROOM + 2 * PRELUDE_ROOM);
        self.writer.next_index() <= limit && self.symbol_generator.made() <= usize::MAX - 2
            * LABEL_ROOM && self.func_emitter.calls() <= usize::MAX - 1
    }

    /// Emits a comment line that holds `text`.
    pub fn comment(&mut self, text: &str)
        requires
            old(self).wf(),
            old(self)@.room(1, 0, 0),
        ensures
            final(self).wf(),
            final(self)@ == old(self)@.plus(seq![LineView::Comment(text@)], 0, 0),
            final(self)@.within(old(self)@, 0, 0, 0),
    {
        self.writer.emit(Line::Comment(text.to_string()));
    }

    /// Emits the bootstrap: the stack pointer is set to its origin and
    /// control moves to the entry point.
    pub fn emit_init(&mut self)
        requires
            old(self).wf(),
            old(self)@.prelude_room(),
        ensures
            final(self).wf(),
            final(self)@ == old(self)@.plus(bootstrap(), 0, 0),
            final(self)@.within(old(self)@, PRELUDE_ROOM as nat, 0, 0),
    {
        emit_bootstrap(&mut self.writer);
    }

    /// Declares a label that is written as it is given.
    fn emit_label_start(&mut self, symbol: &str)
        requires
            old(self).wf(),
            old(self)@.listing.room(1),
        ensures
            final(self).wf(),
            final(self)@.listing.follows(old(self)@.listing, seq![LineView::Label(symbol@)]),
            final(self)@.labels == old(self)@.labels,
            final(self)@.calls == old(self)@.calls,
    {
        self.writer.emit(Line::Label(symbol.to_string()));
    }

    /// Emits [`SimpleEmitter::temp_to_stack_code`].
    fn temp_to_stack(&mut self, reg: TempRegister)
        requires
            old(self).wf(),
            old(self)@.listing.room(6),
        ensures
            final(self).wf(),
            final(self)@.listing.follows(old(self)@.listing, Self::temp_to_stack_code(reg)),
            final(self)@.labels == old(self)@.labels,
            final(self)@.calls == old(self)@.calls,
    {
        let lines = vec![Line::AtValue(reg.address()), Line::set(Dest::D, Comp::M)];
        assert(views(lines@) =~= Self::temp_to_stack_code(reg).take(2));
        self.writer.extend(lines);
        emit_d_to_stack(&mut self.writer);
        assert(self.writer@.lines =~= old(self).writer@.lines + Self::temp_to_stack_code(reg));
    }

    /// Emits [`SimpleEmitter::stack_to_temp_code`].
    fn stack_to_temp(&mut self, reg: TempRegister)
        requires
            old(self).wf(),
            old(self)@.listing.room(6),
        ensures
            final(self).wf(),
            final(self)@.listing.follows(old(self)@.listing, Self::stack_to_temp_code(reg)),
            final(self)@.labels == old(self)@.labels,
            final(self)@.calls == old(self)@.calls,
    {
        emit_stack_to_d(&mut self.writer);
        let lines = vec![Line::AtValue(reg.address()), Line::set(Dest::M, Comp::D)];
        assert(views(lines@) =~= Self::stack_to_temp_code(reg).skip(4));
        self.writer.extend(lines);
        assert(self.writer@.lines =~= old(self).writer@.lines + Self::stack_to_temp_code(reg));
    }

    /// Emits [`SimpleEmitter::const_to_stack_code`].
    fn const_to_stack(&mut self, value: i16)
        requires
            old(self).wf(),
            old(self)@.listing.room(6),
        ensures
            final(self).wf(),
            final(self)@.listing.follows(old(self)@.listing, Self::const_to_stack_code(value)),
            final(self)@.labels == old(self)@.labels,
            final(self)@.calls == old(self)@.calls,
    {
        let lines = vec![Line::AtValue(value), Line::set(Dest::D, Comp::A)];
        assert(views(lines@) =~= Self::const_to_stack_code(value).take(2));
        self.writer.extend(lines);
        emit_d_to_stack(&mut self.writer);
        assert(self.writer@.lines =~= old(self).writer@.lines + Self::const_to_stack_code(value));
    }

    /// Emits [`SimpleEmitter::add_temp_code`].
    fn add_temp(&mut self, out: TempRegister, first: TempRegister, second: TempRegister)
        requires
            old(self).wf(),
            old(self)@.listing.room(6),
        ensures
            final(self).wf(),
            final(self)@.listing.follows(
                old(self)@.listing,
                Self::add_temp_code(out, first, second),
            ),
            final(self)@.labels == old(self)@.labels,
            final(self)@.calls == old(self)@.calls,
    {
        let lines = vec![
            Line::AtValue(first.address()),
            Line::set(Dest::D, Comp::M),
            Line::AtValue(second.address()),
            Line::set(Dest::D, Comp::DPlusM),
            Line::AtValue(out.address()),
            Line::set(Dest::M, Comp::D),
        ];
        assert(views(lines@) =~= Self::add_temp_code(out, first, second));
        self.writer.extend(lines);
    }

    /// Emits [`SimpleEmitter::sub_temp_code`].
    fn sub_temp(&mut self, out: TempRegister, first: TempRegister, second: TempRegister)
        requires
            old(self).wf(),
            old(self)@.listing.room(6),
        ensures
            final(self).wf(),
            final(self)@.listing.follows(
                old(self)@.listing,
                Self::sub_temp_code(out, first, second),
            ),
            final(self)@.labels == old(self)@.labels,
            final(self)@.calls == old(self)@.calls,
    {
        let lines = vec![
            Line::AtValue(first.address()),
            Line::set(Dest::D, Comp::M),
            Line::AtValue(second.address()),
            Line::set(Dest::D, Comp::DMinusM),
            Line::AtValue(out.address()),
            Line::set(Dest::M, Comp::D),
        ];
        assert(views(lines@) =~= Self::sub_temp_code(out, first, second));
        self.writer.extend(lines);
    }

    /// Emits [`SimpleEmitter::not_zero_tmp_code`].
    fn not_zero_tmp(&mut self, tmp: TempRegister)
        requires
            old(self).wf(),
            old(self)@.room(13, 3, 0),
        ensures
            final(self).wf(),
            final(self)@.listing.follows(
                old(self)@.listing,
                Self::not_zero_tmp_code(tmp, old(self)@.labels),
            ),
            final(self)@.labels == old(self)@.labels + 3,
            final(self)@.calls == old(self)@.calls,
    {
        proof {
            reveal_strlit("is_eq");
            reveal_strlit("not_equal");
            reveal_strlit("end");
        }
        let is_zero = self.symbol_generator.next_commented("is_eq");
        let not_zero = self.symbol_generator.next_commented("not_equal");
        let end = self.symbol_generator.next_commented("end");
        let lines = vec![
            Line::AtValue(tmp.address()),
            Line::set(Dest::D, Comp::M),
            Line::symbol(&is_zero),
            Line::jump(Comp::D, Jump::Jeq),
            Line::label(&not_zero),
            Line::set(Dest::D, Comp::Zero),
            Line::symbol(&end),
            Line::jump(Comp::Zero, Jump::Jmp),
            Line::label(&is_zero),
            Line::set(Dest::D, Comp::MinusOne),
            Line::label(&end),
            Line::AtValue(tmp.address()),
            Line::set(Dest::M, Comp::D),
        ];
        assert(views(lines@) =~= Self::not_zero_tmp_code(tmp, old(self)@.labels));
        self.writer.extend(lines);
    }

    /// Pushes the value given onto the stack.
    pub fn push_const(&mut self, val: i16)
        requires
            old(self).wf(),
            old(self)@.op_room(),
        ensures
            final(self).wf(),
            final(self)@ == old(self)@.translated(Self::push_const_code(val), 0, 0),
            final(self)@.within(old(self)@, 6, 0, 0),
    {
        self.const_to_stack(val);
    }

    /// Replaces the two topmost words by their sum.
    pub fn add(&mut self)
        requires
            old(self).wf(),
            old(self)@.op_room(),
        ensures
            final(self).wf(),
            final(self)@ == old(self)@.translated(Self::add_code(), 0, 0),
            final(self)@.within(old(self)@, 24, 0, 0),
    {
        self.stack_to_temp(TempRegister::T0);
        self.stack_to_temp(TempRegister::T1);
        self.add_temp(TempRegister::T0, TempRegister::T0, TempRegister::T1);
        self.temp_to_stack(TempRegister::T0);
        assert(self.writer@.lines =~= old(self).writer@.lines + Self::add_code());
    }

    /// Replaces the two topmost words by the truth of their equality.
    pub fn eq(&mut self)
        requires
            old(self).wf(),
            old(self)@.op_room(),
        ensures
            final(self).wf(),
            final(self)@ == old(self)@.translated(Self::eq_code(old(self)@.labels), 3, 0),
            final(self)@.within(old(self)@, 37, 3, 0),
    {
        self.stack_to_temp(TempRegister::T0);
        self.stack_to_temp(TempRegister::T1);
        self.sub_temp(TempRegister::T0, TempRegister::T0, TempRegister::T1);
        self.not_zero_tmp(TempRegister::T0);
        self.temp_to_stack(TempRegister::T0);
        assert(self.writer@.lines =~= old(self).writer@.lines + Self::eq_code(old(self)@.labels));
    }

    /// Replaces the two topmost words by their difference, the upper taken
    /// from the lower.
    pub fn sub(&mut self)
        requires
            old(self).wf(),
            old(self)@.op_room(),
        ensures
            final(self).wf(),
            final(self)@ == old(self)@.translated(Self::sub_code(), 0, 0),
            final(self)@.within(old(self)@, 25, 0, 0),
    {
        self.stack_to_temp(TempRegister::T0);
        self.stack_to_temp(TempRegister::T1);
        self.sub_temp(TempRegister::T0, TempRegister::T1, TempRegister::T0);
        self.temp_to_stack(TempRegister::T0);
        self.writer.emit(Line::Blank);
        assert(self.writer@.lines =~= old(self).writer@.lines + Self::sub_code());
    }

    /// Replaces the two topmost words by the truth of the lower being less
    /// than the upper.
    pub fn lt(&mut self)
        requires
            old(self).wf(),
            old(self)@.op_room(),
        ensures
            final(self).wf(),
            final(self)@ == old(self)@.translated(Self::lt_code(old(self)@.labels), 3, 0),
            final(self)@.within(old(self)@, 21, 3, 0),
    {
        proof {
            reveal_strlit("is_lt");
            reveal_strlit("is_not_lt");
            reveal_strlit("end");
        }
        let is_lt = self.symbol_generator.next_commented("is_lt");
        let is_not_lt = self.symbol_generator.next_commented("is_not_lt");
        let end = self.symbol_generator.next_commented("end");
        emit_compare(&mut self.writer, Comp::AMinusD, Jump::Jlt, &is_lt, &is_not_lt, &end);
    }

    /// Replaces the two topmost words by the truth of the lower being
    /// greater than the upper.
    pub fn gt(&mut self)
        requires
            old(self).wf(),
            old(self)@.op_room(),
        ensures
            final(self).wf(),
            final(self)@ == old(self)@.translated(Self::gt_code(old(self)@.labels), 3, 0),
            final(self)@.within(old(self)@, 21, 3, 0),
    {
        proof {
            reveal_strlit("is_gt");
            reveal_strlit("is_not_gt");
            reveal_strlit("end");
        }
        let is_gt = self.symbol_generator.next_commented("is_gt");
        let is_not_gt = self.symbol_generator.next_commented("is_not_gt");
        let end = self.symbol_generator.next_commented("end");
        emit_compare(&mut self.writer, Comp::DMinusA, Jump::Jlt, &is_gt, &is_not_gt, &end);
    }

    /// Negates the topmost word.
    pub fn neg(&mut self)
        requires
            old(self).wf(),
            old(self)@.op_room(),
        ensures
            final(self).wf(),
            final(self)@ == old(self)@.translated(change_top(Comp::NegD), 0, 0),
            final(self)@.within(old(self)@, 6, 0, 0),
    {
        emit_change_top(&mut self.writer, Comp::NegD);
    }

    /// Replaces the two topmost words by their bitwise or.
    pub fn or(&mut self)
        requires
            old(self).wf(),
            old(self)@.op_room(),
        ensures
            final(self).wf(),
            final(self)@ == old(self)@.translated(combine_top(Comp::DOrM), 0, 0),
            final(self)@.within(old(self)@, 8, 0, 0),
    {
        emit_combine_top(&mut self.writer, Comp::DOrM);
    }

    /// Replaces the topmost word by its bitwise complement.
    pub fn not(&mut self)
        requires
            old(self).wf(),
            old(self)@.op_room(),
        ensures
            final(self).wf(),
            final(self)@ == old(self)@.translated(change_top(Comp::NotD), 0, 0),
            final(self)@.within(old(self)@, 6, 0, 0),
    {
        emit_change_top(&mut self.writer, Comp::NotD);
    }

    /// Replaces the two topmost words by their bitwise and.
    pub fn and(&mut self)
        requires
            old(self).wf(),
            old(self)@.op_room(),
        ensures
            final(self).wf(),
            final(self)@ == old(self)@.translated(combine_top(Comp::DAndM), 0, 0),
            final(self)@.within(old(self)@, 8, 0, 0),
    {
        emit_combine_top(&mut self.writer, Comp::DAndM);
    }

    /// Pops the top of the stack into the word `offset` of `segment`, which
    /// is not the constant segment: constants have no address.
    pub fn pop_non_stack_segment(&mut self, segment: Segment, offset: i16)
        requires
            segment != Segment::Constant,
            old(self).wf(),
            old(self)@.op_room(),
        ensures
            final(self).wf(),
            final(self)@ == old(self)@.translated(pop_segment(segment, offset), 0, 0),
            final(self)@.within(old(self)@, 22, 0, 0),
    {
        emit_pop_segment(&mut self.writer, segment, offset);
    }

    /// Pushes the word `offset` of `segment` onto the stack. The segment is
    /// not the constant segment: a constant is pushed by
    /// [`Self::push_const`].
    pub fn push_non_stack_segment(&mut self, segment: Segment, offset: i16)
        requires
            segment != Segment::Constant,
            old(self).wf(),
            old(self)@.op_room(),
        ensures
            final(self).wf(),
            final(self)@ == old(self)@.translated(push_segment(segment, offset), 0, 0),
            final(self)@.within(old(self)@, 10, 0, 0),
    {
        emit_push_segment(&mut self.writer, segment, offset);
    }

    /// Pops the top of the stack into the word `n` of the argument segment.
    pub fn pop_argument_n(&mut self, n: i16)
        requires
            old(self).wf(),
            old(self)@.op_room(),
        ensures
            final(self).wf(),
            final(self)@ == old(self)@.translated(pop_segment(Segment::Argument, n), 0, 0),
            final(self)@.within(old(self)@, 22, 0, 0),
    {
        self.pop_non_stack_segment(Segment::Argument, n);
    }

    /// Pushes the word `n` of the local segment.
    pub fn push_local_n(&mut self, n: i16)
        requires
            old(self).wf(),
            old(self)@.op_room(),
        ensures
            final(self).wf(),
            final(self)@ == old(self)@.translated(push_segment(Segment::Local, n), 0, 0),
            final(self)@.within(old(self)@, 10, 0, 0),
    {
        self.push_non_stack_segment(Segment::Local, n);
    }

    /// Pops the top of the stack into the word `n` of the that segment.
    pub fn pop_that_n(&mut self, n: i16)
        requires
            old(self).wf(),
            old(self)@.op_room(),
        ensures
            final(self).wf(),
            final(self)@ == old(self)@.translated(pop_segment(Segment::That, n), 0, 0),
            final(self)@.within(old(self)@, 22, 0, 0),
    {
        self.pop_non_stack_segment(Segment::That, n);
    }

    /// Pops the top of the stack into the word `n` of the temp segment.
    pub fn pop_temp_n(&mut self, n: i16)
        requires
            old(self).wf(),
            old(self)@.op_room(),
        ensures
            final(self).wf(),
            final(self)@ == old(self)@.translated(pop_segment(Segment::Temp, n), 0, 0),
            final(self)@.within(old(self)@, 22, 0, 0),
    {
        self.pop_non_stack_segment(Segment::Temp, n);
    }

    /// Pops the top of the stack into the word `n` of the this segment.
    pub fn pop_this_n(&mut self, n: i16)
        requires
            old(self).wf(),
            old(self)@.op_room(),
        ensures
            final(self).wf(),
            final(self)@ == old(self)@.translated(pop_segment(Segment::This, n), 0, 0),
            final(self)@.within(old(self)@, 22, 0, 0),
    {
        self.pop_non_stack_segment(Segment::This, n);
    }

    /// Pushes the word `n` of the that segment.
    pub fn push_that_n(&mut self, n: i16)
        requires
            old(self).wf(),
            old(self)@.op_room(),
        ensures
            final(self).wf(),
            final(self)@ == old(self)@.translated(push_segment(Segment::That, n), 0, 0),
            final(self)@.within(old(self)@, 10, 0, 0),
    {
        self.push_non_stack_segment(Segment::That, n);
    }

    /// Pushes the word `n` of the argument segment.
    pub fn push_arg_n(&mut self, n: i16)
        requires
            old(self).wf(),
            old(self)@.op_room(),
        ensures
            final(self).wf(),
            final(self)@ == old(self)@.translated(push_segment(Segment::Argument, n), 0, 0),
            final(self)@.within(old(self)@, 10, 0, 0),
    {
        self.push_non_stack_segment(Segment::Argument, n);
    }

    /// Pushes the word `n` of the temp segment.
    pub fn push_temp_n(&mut self, n: i16)
        requires
            old(self).wf(),
            old(self)@.op_room(),
        ensures
            final(self).wf(),
            final(self)@ == old(self)@.translated(push_segment(Segment::Temp, n), 0, 0),
            final(self)@.within(old(self)@, 10, 0, 0),
    {
        self.push_non_stack_segment(Segment::Temp, n);
    }

    /// Pushes the word `n` of the static segment.
    pub fn push_static_n(&mut self, n: i16)
        requires
            old(self).wf(),
            old(self)@.op_room(),
        ensures
            final(self).wf(),
            final(self)@ == old(self)@.translated(push_segment(Segment::Static, n), 0, 0),
            final(self)@.within(old(self)@, 10, 0, 0),
    {
        self.push_non_stack_segment(Segment::Static, n);
    }

    /// Pushes the word `n` of the this segment.
    pub fn push_this_n(&mut self, n: i16)
        requires
            old(self).wf(),
            old(self)@.op_room(),
        ensures
            final(self).wf(),
            final(self)@ == old(self)@.translated(push_segment(Segment::This, n), 0, 0),
            final(self)@.within(old(self)@, 10, 0, 0),
    {
        self.push_non_stack_segment(Segment::This, n);
    }

    /// Pushes the word `n` of the pointer segment.
    pub fn push_ptr_n(&mut self, n: i16)
        requires
            old(self).wf(),
            old(self)@.op_room(),
        ensures
            final(self).wf(),
            final(self)@ == old(self)@.translated(push_segment(Segment::Pointer, n), 0, 0),
            final(self)@.within(old(self)@, 10, 0, 0),
    {
        self.push_non_stack_segment(Segment::Pointer, n);
    }

    /// Pops the top of the stack into the word `n` of the static segment.
    pub fn pop_static_n(&mut self, n: i16)
        requires
            old(self).wf(),
            old(self)@.op_room(),
        ensures
            final(self).wf(),
            final(self)@ == old(self)@.translated(pop_segment(Segment::Static, n), 0, 0),
            final(self)@.within(old(self)@, 22, 0, 0),
    {
        self.pop_non_stack_segment(Segment::Static, n);
    }

    /// Pops the top of the stack into the word `n` of the local segment.
    pub fn pop_local_n(&mut self, n: i16)
        requires
            old(self).wf(),
            old(self)@.op_room(),
        ensures
            final(self).wf(),
            final(self)@ == old(self)@.translated(pop_segment(Segment::Local, n), 0, 0),
            final(self)@.within(old(self)@, 22, 0, 0),
    {
        self.pop_non_stack_segment(Segment::Local, n);
    }

    /// Pops the top of the stack into the word `n` of the pointer segment.
    pub fn pop_ptr_n(&mut self, n: i16)
        requires
            old(self).wf(),
            old(self)@.op_room(),
        ensures
            final(self).wf(),
            final(self)@ == old(self)@.translated(pop_segment(Segment::Pointer, n), 0, 0),
            final(self)@.within(old(self)@, 22, 0, 0),
    {
        self.pop_non_stack_segment(Segment::Pointer, n);
    }

    /// Declares the label `symbol` of the source program.
    pub fn label(&mut self, symbol: &str)
        requires
            old(self).wf(),
            old(self)@.op_room(),
        ensures
            final(self).wf(),
            final(self)@ == old(self)@.translated(label_code(symbol@), 0, 0),
            final(self)@.within(old(self)@, 1, 0, 0),
    {
        emit_label(&mut self.writer, symbol);
    }

    /// Pops the top of the stack and jumps to the label `symbol` of the
    /// source program if the popped word is not zero.
    pub fn ifgoto(&mut self, symbol: &str)
        requires
            old(self).wf(),
            old(self)@.op_room(),
        ensures
            final(self).wf(),
            final(self)@ == old(self)@.translated(ifgoto_code(symbol@), 0, 0),
            final(self)@.within(old(self)@, 7, 0, 0),
    {
        emit_ifgoto(&mut self.writer, symbol);
    }

    /// Jumps to the label `symbol` of the source program.
    pub fn goto(&mut self, symbol: &str)
        requires
            old(self).wf(),
            old(self)@.op_room(),
        ensures
            final(self).wf(),
            final(self)@ == old(self)@.translated(goto_code(symbol@), 0, 0),
            final(self)@.within(old(self)@, 3, 0, 0),
    {
        emit_goto(&mut self.writer, symbol);
    }

    /// Starts the function `symbol`, which has `n_vars` local variables: a
    /// negative number counts as none.
    pub fn function(&mut self, n_vars: i16, symbol: &str)
        requires
            old(self).wf(),
            old(self)@.op_room(),
        ensures
            final(self).wf(),
            final(self)@ == old(self)@.translated(Self::function_code(n_vars, symbol@), 0, 0),
            final(self)@.within(old(self)@, 1 + 5 * count_of(n_vars), 0, 0),
    {
        self.emit_label_start(symbol);
        let count: i16 = if n_vars > 0 {
            n_vars
        } else {
            0
        };
        let mut i: i16 = 0;
        assert(repeat(Self::zero_local(), 0) =~= Seq::<LineView>::empty());
        assert(self.writer@.lines =~= old(self).writer@.lines + (seq![LineView::Label(symbol@)]
            + repeat(Self::zero_local(), 0)));
        while i < count
            invariant
                0 <= i <= count,
                count == count_of(n_vars),
                self.wf(),
                old(self)@.op_room(),
                self@.listing.first == old(self)@.listing.first,
                self@.listing.lines == old(self)@.listing.lines + (seq![LineView::Label(symbol@)]
                    + repeat(Self::zero_local(), i as nat)),
                self@.listing.next_index() <= old(self)@.listing.next_index() + 1 + 5 * i,
                self@.labels == old(self)@.labels,
                self@.calls == old(self)@.calls,
            decreases count - i,
        {
            let ghost before = self.writer@;
            let lines = vec![
                Line::at(Register::Sp),
                Line::set(Dest::A, Comp::M),
                Line::set(Dest::M, Comp::Zero),
                Line::at(Register::Sp),
                Line::set(Dest::M, Comp::MPlusOne),
            ];
            assert(views(lines@) =~= Self::zero_local());
            self.writer.extend(lines);
            proof {
                assert(repeat(Self::zero_local(), (i + 1) as nat) == repeat(
                    Self::zero_local(),
                    i as nat,
                ) + Self::zero_local());
                assert(self.writer@.lines =~= old(self).writer@.lines + (seq![
                    LineView::Label(symbol@),
                ] + repeat(Self::zero_local(), (i + 1) as nat)));
            }
            i += 1;
        }
    }

    /// Emits [`SimpleEmitter::save_code`].
    fn save(&mut self, source: Line, load: Comp, depth: u16)
        requires
            old(self).wf(),
            depth <= 5,
            old(self)@.listing.room(10),
        ensures
            final(self).wf(),
            final(self)@.listing.follows(
                old(self)@.listing,
                Self::save_code(source@, load, depth as nat),
            ),
            final(self)@.labels == old(self)@.labels,
            final(self)@.calls == old(self)@.calls,
    {
        let ghost shown = source@;
        let lines = vec![source, Line::set(Dest::D, load)];
        assert(views(lines@) =~= seq![shown, LineView::set(Dest::D, load)]);
        self.writer.extend(lines);
        emit_sp_at_offset(&mut self.writer, depth);
        self.writer.emit(Line::set(Dest::M, Comp::D));
        assert(self.writer@.lines =~= old(self).writer@.lines + Self::save_code(
            shown,
            load,
            depth as nat,
        ));
        assert(sp_at_offset(depth as nat).len() == 2 + depth);
    }

    /// Emits [`SimpleEmitter::restore_code`].
    fn restore(&mut self, register: Register, depth: u16)
        requires
            old(self).wf(),
            1 <= depth <= 4,
            old(self)@.listing.room(9),
        ensures
            final(self).wf(),
            final(self)@.listing.follows(
                old(self)@.listing,
                Self::restore_code(register, depth as nat),
            ),
            final(self)@.labels == old(self)@.labels,
            final(self)@.calls == old(self)@.calls,
    {
        let lines = vec![Line::AtValue(TempRegister::T0.address()), Line::set(Dest::A, Comp::M)];
        assert(views(lines@) =~= seq![
            LineView::AtValue(TempRegister::T0.address()),
            LineView::set(Dest::A, Comp::M),
        ]);
        self.writer.extend(lines);
        let mut i: u16 = 0;
        let ghost step = |k: int| LineView::set(Dest::A, Comp::AMinusOne);
        assert(self.writer@.lines =~= old(self).writer@.lines + (seq![
            LineView::AtValue(TempRegister::T0.address()),
            LineView::set(Dest::A, Comp::M),
        ] + Seq::new(0, step)));
        while i < depth
            invariant
                i <= depth <= 4,
                self.wf(),
                old(self)@.listing.room(9),
                step == |k: int| LineView::set(Dest::A, Comp::AMinusOne),
                self@.listing.first == old(self)@.listing.first,
                self@.listing.lines == old(self)@.listing.lines + (seq![
                    LineView::AtValue(TempRegister::T0.address()),
                    LineView::set(Dest::A, Comp::M),
                ] + Seq::new(i as nat, step)),
                self@.listing.next_index() <= old(self)@.listing.next_index() + 2 + i,
                self@.labels == old(self)@.labels,
                self@.calls == old(self)@.calls,
            decreases depth - i,
        {
            self.writer.emit(Line::set(Dest::A, Comp::AMinusOne));
            proof {
                assert(Seq::new(i as nat, step) + seq![LineView::set(Dest::A, Comp::AMinusOne)]
                    =~= Seq::new((i + 1) as nat, step));
                assert(self.writer@.lines =~= old(self).writer@.lines + (seq![
                    LineView::AtValue(TempRegister::T0.address()),
                    LineView::set(Dest::A, Comp::M),
                ] + Seq::new((i + 1) as nat, step)));
            }
            i += 1;
        }
        let lines = vec![Line::set(Dest::D, Comp::M), Line::at(register), Line::set(Dest::M, Comp::D)];
        assert(views(lines@) =~= seq![
            LineView::set(Dest::D, Comp::M),
            LineView::at(register),
            LineView::set(Dest::M, Comp::D),
        ]);
        self.writer.extend(lines);
        assert(self.writer@.lines =~= old(self).writer@.lines + Self::restore_code(
            register,
            depth as nat,
        ));
    }

    /// Returns from the current function with the top of the stack as its
    /// result.
    pub fn _return(&mut self)
        requires
            old(self).wf(),
            old(self)@.op_room(),
        ensures
            final(self).wf(),
            final(self)@ == old(self)@.translated(Self::return_code(), 0, 0),
            final(self)@.within(old(self)@, 66, 0, 0),
    {
        let lines = vec![
            Line::at(Register::Lcl),
            Line::set(Dest::D, Comp::M),
            Line::AtValue(TempRegister::T0.address()),
            Line::set(Dest::M, Comp::D),
            Line::AtValue(TempRegister::T0.address()),
            Line::set(Dest::D, Comp::M),
            Line::AtValue(5),
            Line::set(Dest::A, Comp::DMinusA),
            Line::set(Dest::D, Comp::M),
            Line::AtValue(TempRegister::T1.address()),
            Line::set(Dest::M, Comp::D),
            Line::at(Register::Arg),
            Line::set(Dest::D, Comp::M),
            Line::AtValue(TempRegister::T2.address()),
            Line::set(Dest::M, Comp::D),
        ];
        assert(views(lines@) =~= Self::return_capture());
        self.writer.extend(lines);
        emit_stack_to_d(&mut self.writer);
        let lines = vec![
            Line::at(Register::Arg),
            Line::set(Dest::A, Comp::M),
            Line::set(Dest::M, Comp::D),
            Line::AtValue(TempRegister::T2.address()),
            Line::set(Dest::D, Comp::M),
            Line::set(Dest::D, Comp::DPlusOne),
            Line::at(Register::Sp),
            Line::set(Dest::M, Comp::D),
        ];
        assert(views(lines@) =~= Self::return_result());
        self.writer.extend(lines);
        self.restore(Register::That, 1);
        self.restore(Register::This, 2);
        self.restore(Register::Arg, 3);
        self.restore(Register::Lcl, 4);
        let lines = vec![
            Line::AtValue(TempRegister::T1.address()),
            Line::set(Dest::A, Comp::M),
            Line::jump(Comp::Zero, Jump::Jmp),
        ];
        assert(views(lines@) =~= Self::return_jump());
        self.writer.extend(lines);
        assert(self.writer@.lines =~= old(self).writer@.lines + Self::return_code());
    }

    /// Calls the function `callee_symbol` with the `n_args` topmost words of
    /// the stack as its arguments: a negative number counts as none.
    pub fn call(&mut self, n_args: i16, callee_symbol: &str)
        requires
            old(self).wf(),
            old(self)@.op_room(),
        ensures
            final(self).wf(),
            final(self)@ == old(self)@.translated(
                Self::call_code(n_args, callee_symbol@, old(self)@.calls),
                0,
                1,
            ),
            final(self)@.within(old(self)@, 64 + count_of(n_args), 0, 1),
    {
        let id = self.func_emitter.call();
        let ret_label = FuncEmitter::return_symbol(callee_symbol, id);
        let ghost back = ret_label@;
        let lines = vec![
            Line::AtValue(5),
            Line::set(Dest::D, Comp::A),
            Line::at(Register::Sp),
            Line::set(Dest::M, Comp::DPlusM),
        ];
        assert(views(lines@) =~= seq![
            LineView::AtValue(5),
            LineView::set(Dest::D, Comp::A),
            LineView::at(Register::Sp),
            LineView::set(Dest::M, Comp::DPlusM),
        ]);
        self.writer.extend(lines);
        self.save(Line::symbol(&ret_label), Comp::A, 5);
        self.save(Line::at(Register::Lcl), Comp::M, 4);
        self.save(Line::at(Register::Arg), Comp::M, 3);
        self.save(Line::at(Register::This), Comp::M, 2);
        self.save(Line::at(Register::That), Comp::M, 1);
        let lines = vec![
            Line::at(Register::Sp),
            Line::set(Dest::D, Comp::M),
            Line::at(Register::Lcl),
            Line::set(Dest::M, Comp::D),
        ];
        assert(views(lines@) =~= seq![
            LineView::at(Register::Sp),
            LineView::set(Dest::D, Comp::M),
            LineView::at(Register::Lcl),
            LineView::set(Dest::M, Comp::D),
        ]);
        self.writer.extend(lines);
        let depth: u16 = if n_args > 0 {
            5 + n_args as u16
        } else {
            5
        };
        emit_sp_at_offset(&mut self.writer, depth);
        assert(sp_at_offset(depth as nat).len() == 2 + depth);
        let lines = vec![
            Line::set(Dest::D, Comp::A),
            Line::at(Register::Arg),
            Line::set(Dest::M, Comp::D),
            Line::AtSymbol(callee_symbol.to_string()),
            Line::jump(Comp::Zero, Jump::Jmp),
            Line::label(&ret_label),
        ];
        assert(views(lines@) =~= seq![
            LineView::set(Dest::D, Comp::A),
            LineView::at(Register::Arg),
            LineView::set(Dest::M, Comp::D),
            LineView::AtSymbol(callee_symbol@),
            LineView::jump(Comp::Zero, Jump::Jmp),
            LineView::Label(back),
        ]);
        self.writer.extend(lines);
        assert(self.writer@.lines =~= old(self).writer@.lines + Self::call_code(
            n_args,
            callee_symbol@,
            old(self)@.calls,
        ));
    }
}

impl EmitAsm<SContext> for SimpleEmitter {
    open spec fn wf(&self) -> bool {
        SimpleEmitter::wf(self)
    }

    open spec fn emitted(&self) -> Emitted {
        self@
    }

    open spec fn code(command: CommandView, labels: nat, calls: nat) -> Seq<LineView> {
        match command {
            CommandView::Push(Segment::Constant, value) => Self::push_const_code(value),
            CommandView::Push(segment, offset) => push_segment(segment, offset),
            CommandView::Pop(segment, offset) => pop_segment(segment, offset),
            CommandView::Arithmetic(ArithmeticType::Add) => Self::add_code(),
            CommandView::Arithmetic(ArithmeticType::Sub) => Self::sub_code(),
            CommandView::Arithmetic(ArithmeticType::Neg) => change_top(Comp::NegD),
            CommandView::Arithmetic(ArithmeticType::Eq) => Self::eq_code(labels),
            CommandView::Arithmetic(ArithmeticType::Gt) => Self::gt_code(labels),
            CommandView::Arithmetic(ArithmeticType::Lt) => Self::lt_code(labels),
            CommandView::Arithmetic(ArithmeticType::And) => combine_top(Comp::DAndM),
            CommandView::Arithmetic(ArithmeticType::Or) => combine_top(Comp::DOrM),
            CommandView::Arithmetic(ArithmeticType::Not) => change_top(Comp::NotD),
            CommandView::Label(symbol) => label_code(symbol),
            CommandView::IfGoto(symbol) => ifgoto_code(symbol),
            CommandView::Goto(symbol) => goto_code(symbol),
            CommandView::Function { n_vars, symbol } => Self::function_code(n_vars, symbol),
            CommandView::Call { n_args, symbol } => Self::call_code(n_args, symbol, calls),
            CommandView::Return => Self::return_code(),
        }
    }

    open spec fn labels_used(command: CommandView) -> nat {
        match command {
            CommandView::Arithmetic(ArithmeticType::Eq) => 3,
            CommandView::Arithmetic(ArithmeticType::Gt) => 3,
            CommandView::Arithmetic(ArithmeticType::Lt) => 3,
            _ => 0,
        }
    }

    open spec fn calls_used(command: CommandView) -> nat {
        match command {
            CommandView::Call { .. } => 1,
            _ => 0,
        }
    }

    open spec fn bootstrap_code() -> Seq<LineView> {
        bootstrap()
    }

    open spec fn prelude_code(labels: nat) -> Seq<LineView> {
        Seq::empty()
    }

    open spec fn prelude_labels() -> nat {
        0
    }

    #[verifier::rlimit(40)]
    proof fn lemma_arithmetic_labels(op: ArithmeticType, labels: nat, calls: nat) {
        let code = Self::code(CommandView::Arithmetic(op), labels, calls);
        match op {
            ArithmeticType::Eq => {
                assert(declared(code) =~= seq![
                    next_label("not_equal"@, labels + 1),
                    next_label("is_eq"@, labels),
                    next_label("end"@, labels + 2),
                ]) by {
                    reveal_with_fuel(declared_from, 38);
                }
                lemma_three_generated(
                    declared(code),
                    ("not_equal"@, "is_eq"@, "end"@),
                    (labels + 2, labels + 1, labels + 3),
                    labels + 1,
                    labels + 4,
                );
            },
            ArithmeticType::Lt => {
                assert(declared(code) =~= seq![
                    next_label("is_not_lt"@, labels + 1),
                    next_label("is_lt"@, labels),
                    next_label("end"@, labels + 2),
                ]) by {
                    reveal_with_fuel(declared_from, 22);
                }
                lemma_three_generated(
                    declared(code),
                    ("is_not_lt"@, "is_lt"@, "end"@),
                    (labels + 2, labels + 1, labels + 3),
                    labels + 1,
                    labels + 4,
                );
            },
            ArithmeticType::Gt => {
                assert(declared(code) =~= seq![
                    next_label("is_not_gt"@, labels + 1),
                    next_label("is_gt"@, labels),
                    next_label("end"@, labels + 2),
                ]) by {
                    reveal_with_fuel(declared_from, 22);
                }
                lemma_three_generated(
                    declared(code),
                    ("is_not_gt"@, "is_gt"@, "end"@),
                    (labels + 2, labels + 1, labels + 3),
                    labels + 1,
                    labels + 4,
                );
            },
            _ => {
                assert(declared(code) =~= Seq::<Seq<char>>::empty()) by {
                    reveal_with_fuel(declared_from, 27);
                }
            },
        }
    }

    fn with_context(context: SContext) -> (emitter: Self) {
        Self::with_context(context)
    }

    fn new() -> (emitter: Self) {
        Self::new()
    }

    fn close(self) -> (context: SContext) {
        self.close()
    }

    fn output(&self) -> (text: String) {
        self.output()
    }

    fn has_room(&self) -> (b: bool) {
        self.has_room()
    }

    fn emit_init(&mut self) {
        self.emit_init()
    }

    fn prelude(&mut self) {
        assert(self@.listing.lines + Seq::<LineView>::empty() =~= self@.listing.lines);
    }

    fn comment(&mut self, text: &str) {
        self.comment(text)
    }

    fn push_const(&mut self, val: i16) {
        self.push_const(val)
    }

    fn push_local_n(&mut self, offset: i16) {
        self.push_local_n(offset)
    }

    fn push_arg_n(&mut self, offset: i16) {
        self.push_arg_n(offset)
    }

    fn push_temp_n(&mut self, offset: i16) {
        self.push_temp_n(offset)
    }

    fn push_static_n(&mut self, offset: i16) {
        self.push_static_n(offset)
    }

    fn push_ptr_n(&mut self, offset: i16) {
        self.push_ptr_n(offset)
    }

    fn push_this_n(&mut self, offset: i16) {
        self.push_this_n(offset)
    }

    fn push_that_n(&mut self, offset: i16) {
        self.push_that_n(offset)
    }

    fn pop_local_n(&mut self, offset: i16) {
        self.pop_local_n(offset)
    }

    fn pop_argument_n(&mut self, offset: i16) {
        self.pop_argument_n(offset)
    }

    fn pop_temp_n(&mut self, offset: i16) {
        self.pop_temp_n(offset)
    }

    fn pop_static_n(&mut self, offset: i16) {
        self.pop_static_n(offset)
    }

    fn pop_that_n(&mut self, offset: i16) {
        self.pop_that_n(offset)
    }

    fn pop_this_n(&mut self, offset: i16) {
        self.pop_this_n(offset)
    }

    fn pop_ptr_n(&mut self, offset: i16) {
        self.pop_ptr_n(offset)
    }

    fn call(&mut self, n_args: i16, symbol: &str) {
        self.call(n_args, symbol)
    }

    fn _return(&mut self) {
        self._return()
    }

    fn function(&mut self, n_vars: i16, symbol: &str) {
        self.function(n_vars, symbol)
    }

    fn goto(&mut self, symbol: &str) {
        self.goto(symbol)
    }

    fn label(&mut self, symbol: &str) {
        self.label(symbol)
    }

    fn ifgoto(&mut self, symbol: &str) {
        self.ifgoto(symbol)
    }

    fn add(&mut self) {
        self.add()
    }

    fn sub(&mut self) {
        self.sub()
    }

    fn neg(&mut self) {
        self.neg()
    }

    fn eq(&mut self) {
        self.eq()
    }

    fn gt(&mut self) {
        self.gt()
    }

    fn lt(&mut self) {
        self.lt()
    }

    fn and(&mut self) {
        self.and()
    }

    fn or(&mut self) {
        self.or()
    }

    fn not(&mut self) {
        self.not()
    }
}

} // verus!
