//! What every emitter offers.
//!
//! An emitter turns commands of the stack machine into assembly, one command
//! at a time, and appends what it emits to its listing. Which lines stand for
//! a command is the emitter's own choice; this module fixes only how that
//! choice is stated, so that code written against [`EmitAsm`] knows exactly
//! what was emitted.

use vstd::prelude::*;
use crate::assembly::LineView;
use crate::labels::{declared, generated_between};
use crate::listing::ListingView;
use crate::parser::{ArithmeticType, CommandView, Segment};

verus! {

/// The most instructions, and lines, that one command is translated into.
pub const OP_ROOM: usize = 0x10_0000;

/// The most instructions, and lines, of the bootstrap and of a prelude.
pub const PRELUDE_ROOM: usize = 64;

/// The most labels that one command or a prelude takes from the generator.
pub const LABEL_ROOM: usize = 4;

/// The counters that pass from one translation unit to the next.
pub struct Counters {
    /// The instructions emitted so far.
    pub instructions: nat,
    /// The labels generated so far.
    pub labels: nat,
    /// The call sites numbered so far.
    pub calls: nat,
}

/// The state of an emitter between two translation units.
pub trait EContext: Default + Sized + Clone {
    /// The counters that the context holds.
    spec fn counters(&self) -> Counters;
}

/// What an emitter stands for: its listing and its counters.
pub struct Emitted {
    pub listing: ListingView,
    /// The labels generated so far.
    pub labels: nat,
    /// The call sites numbered so far.
    pub calls: nat,
}

impl Emitted {
    /// An emitter that takes up the counters `c` with an empty listing.
    pub open spec fn resume(c: Counters) -> Emitted {
        Emitted {
            listing: ListingView { lines: Seq::empty(), first: c.instructions },
            labels: c.labels,
            calls: c.calls,
        }
    }

    /// An emitter that has emitted nothing, ever.
    pub open spec fn fresh() -> Emitted {
        Emitted::resume(Counters { instructions: 0, labels: 0, calls: 0 })
    }

    /// The counters to hand on.
    pub open spec fn counters(self) -> Counters {
        Counters {
            instructions: self.listing.next_index(),
            labels: self.labels,
            calls: self.calls,
        }
    }

    /// The state after `lines` were emitted with `labels` new labels and
    /// `calls` new call sites.
    pub open spec fn plus(self, lines: Seq<LineView>, labels: nat, calls: nat) -> Emitted {
        Emitted {
            listing: self.listing.plus(lines),
            labels: self.labels + labels,
            calls: self.calls + calls,
        }
    }

    /// The state after a command was translated into `lines`, with `labels`
    /// new labels and `calls` new call sites.
    pub open spec fn translated(self, lines: Seq<LineView>, labels: nat, calls: nat) -> Emitted {
        self.plus(lines, labels, calls)
    }

    /// True when the counters can still grow by the given amounts.
    pub open spec fn room(self, instructions: nat, labels: nat, calls: nat) -> bool {
        &&& self.listing.room(instructions)
        &&& self.labels + labels <= usize::MAX
        &&& self.calls + calls <= usize::MAX
    }

    /// True when the counters have grown from `before` by no more than the
    /// given amounts.
    pub open spec fn within(self, before: Emitted, instructions: nat, labels: nat, calls: nat)
        -> bool {
        &&& self.listing.next_index() <= before.listing.next_index() + instructions
        &&& self.labels <= before.labels + labels
        &&& self.calls <= before.calls + calls
    }

    /// Room for the translation of one command.
    pub open spec fn op_room(self) -> bool {
        self.room(OP_ROOM as nat, LABEL_ROOM as nat, 1)
    }

    /// Room for a bootstrap or a prelude.
    pub open spec fn prelude_room(self) -> bool {
        self.room(PRELUDE_ROOM as nat, LABEL_ROOM as nat, 0)
    }

    /// Room for everything that the translation of one command can take:
    /// bootstrap, prelude, the echo of the source line and the command
    /// itself.
    pub open spec fn has_room(self) -> bool {
        self.room((OP_ROOM + 2 * PRELUDE_ROOM) as nat, (2 * LABEL_ROOM) as nat, 1)
    }
}

/// A type that is able to emit assembly for the commands of the stack
/// machine.
pub trait EmitAsm<C: EContext>: Sized {
    /// The emitter is in a consistent state.
    spec fn wf(&self) -> bool;

    /// The listing and the counters of the emitter.
    spec fn emitted(&self) -> Emitted;

    /// The lines that stand for `command` when `labels` labels have been
    /// generated and `calls` call sites numbered before.
    spec fn code(command: CommandView, labels: nat, calls: nat) -> Seq<LineView>;

    /// The number of labels that the translation of `command` generates.
    spec fn labels_used(command: CommandView) -> nat;

    /// The number of call sites that the translation of `command` numbers.
    spec fn calls_used(command: CommandView) -> nat;

    /// The lines of the bootstrap.
    spec fn bootstrap_code() -> Seq<LineView>;

    /// The lines that the emitter needs once at the start of its output,
    /// when `labels` labels have been generated before.
    spec fn prelude_code(labels: nat) -> Seq<LineView>;

    /// The number of labels that the prelude generates.
    spec fn prelude_labels() -> nat;

    /// The labels that the translation of an arithmetic command declares
    /// are labels of the generator, numbered within the numbers that the
    /// command uses up, the first of which is one more than `labels`, and
    /// none of them is declared twice.
    proof fn lemma_arithmetic_labels(op: ArithmeticType, labels: nat, calls: nat)
        ensures
            declared(Self::code(CommandView::Arithmetic(op), labels, calls)).no_duplicates(),
            generated_between(
                declared(Self::code(CommandView::Arithmetic(op), labels, calls)),
                labels + 1,
                labels + 1 + Self::labels_used(CommandView::Arithmetic(op)),
            ),
    ;

    /// Re-constructs an emitter from the context of an earlier one. The
    /// listing starts empty; the counters go on.
    fn with_context(context: C) -> (emitter: Self)
        ensures
            emitter.wf(),
            emitter.emitted() == Emitted::resume(context.counters()),
    ;

    /// Creates an emitter that has emitted nothing, ever.
    fn new() -> (emitter: Self)
        ensures
            emitter.wf(),
            emitter.emitted() == Emitted::fresh(),
    ;

    /// Ends the work of the emitter and hands its counters on.
    fn close(self) -> (context: C)
        requires
            self.wf(),
        ensures
            context.counters() == self.emitted().counters(),
    ;

    /// The listing as text.
    fn output(&self) -> (text: String)
        requires
            self.wf(),
        ensures
            text@ == self.emitted().listing.text(),
    ;

    /// Whether the counters leave room for one more command with all that
    /// may go before it.
    fn has_room(&self) -> (b: bool)
        requires
            self.wf(),
        ensures
            b == self.emitted().has_room(),
    ;

    /// Emits the bootstrap.
    fn emit_init(&mut self)
        requires
            old(self).wf(),
            old(self).emitted().prelude_room(),
        ensures
            final(self).wf(),
            final(self).emitted() == old(self).emitted().plus(Self::bootstrap_code(), 0, 0),
            final(self).emitted().within(old(self).emitted(), PRELUDE_ROOM as nat, 0, 0),
    ;

    /// Emits what the emitter needs once at the start of its output.
    fn prelude(&mut self)
        requires
            old(self).wf(),
            old(self).emitted().prelude_room(),
        ensures
            final(self).wf(),
            final(self).emitted() == old(self).emitted().plus(
                Self::prelude_code(old(self).emitted().labels),
                Self::prelude_labels(),
                0,
            ),
            final(self).emitted().within(
                old(self).emitted(),
                PRELUDE_ROOM as nat,
                LABEL_ROOM as nat,
                0,
            ),
    ;

    /// Emits a comment line that holds `text`.
    fn comment(&mut self, text: &str)
        requires
            old(self).wf(),
            old(self).emitted().room(1, 0, 0),
        ensures
            final(self).wf(),
            final(self).emitted() == old(self).emitted().plus(
                seq![LineView::Comment(text@)],
                0,
                0,
            ),
            final(self).emitted().within(old(self).emitted(), 0, 0, 0),
    ;

    /// Pushes the value given onto the stack.
    fn push_const(&mut self, val: i16)
        requires
            old(self).wf(),
            old(self).emitted().op_room(),
        ensures
            final(self).wf(),
            final(self).emitted() == old(self).emitted().translated(
                Self::code(
                    CommandView::Push(Segment::Constant, val),
                    old(self).emitted().labels,
                    old(self).emitted().calls,
                ),
                Self::labels_used(CommandView::Push(Segment::Constant, val)),
                Self::calls_used(CommandView::Push(Segment::Constant, val)),
            ),
            final(self).emitted().within(
                old(self).emitted(),
                OP_ROOM as nat,
                LABEL_ROOM as nat,
                1,
            ),
    ;

    /// Pushes the word `offset` of the local segment.
    fn push_local_n(&mut self, offset: i16)
        requires
            old(self).wf(),
            old(self).emitted().op_room(),
        ensures
            final(self).wf(),
            final(self).emitted() == old(self).emitted().translated(
                Self::code(
                    CommandView::Push(Segment::Local, offset),
                    old(self).emitted().labels,
                    old(self).emitted().calls,
                ),
                Self::labels_used(CommandView::Push(Segment::Local, offset)),
                Self::calls_used(CommandView::Push(Segment::Local, offset)),
            ),
            final(self).emitted().within(
                old(self).emitted(),
                OP_ROOM as nat,
                LABEL_ROOM as nat,
                1,
            ),
    ;

    /// Pushes the word `offset` of the argument segment.
    fn push_arg_n(&mut self, offset: i16)
        requires
            old(self).wf(),
            old(self).emitted().op_room(),
        ensures
            final(self).wf(),
            final(self).emitted() == old(self).emitted().translated(
                Self::code(
                    CommandView::Push(Segment::Argument, offset),
                    old(self).emitted().labels,
                    old(self).emitted().calls,
                ),
                Self::labels_used(CommandView::Push(Segment::Argument, offset)),
                Self::calls_used(CommandView::Push(Segment::Argument, offset)),
            ),
            final(self).emitted().within(
                old(self).emitted(),
                OP_ROOM as nat,
                LABEL_ROOM as nat,
                1,
            ),
    ;

    /// Pushes the word `offset` of the temp segment.
    fn push_temp_n(&mut self, offset: i16)
        requires
            old(self).wf(),
            old(self).emitted().op_room(),
        ensures
            final(self).wf(),
            final(self).emitted() == old(self).emitted().translated(
                Self::code(
                    CommandView::Push(Segment::Temp, offset),
                    old(self).emitted().labels,
                    old(self).emitted().calls,
                ),
                Self::labels_used(CommandView::Push(Segment::Temp, offset)),
                Self::calls_used(CommandView::Push(Segment::Temp, offset)),
            ),
            final(self).emitted().within(
                old(self).emitted(),
                OP_ROOM as nat,
                LABEL_ROOM as nat,
                1,
            ),
    ;

    /// Pushes the word `offset` of the static segment.
    fn push_static_n(&mut self, offset: i16)
        requires
            old(self).wf(),
            old(self).emitted().op_room(),
        ensures
            final(self).wf(),
            final(self).emitted() == old(self).emitted().translated(
                Self::code(
                    CommandView::Push(Segment::Static, offset),
                    old(self).emitted().labels,
                    old(self).emitted().calls,
                ),
                Self::labels_used(CommandView::Push(Segment::Static, offset)),
                Self::calls_used(CommandView::Push(Segment::Static, offset)),
            ),
            final(self).emitted().within(
                old(self).emitted(),
                OP_ROOM as nat,
                LABEL_ROOM as nat,
                1,
            ),
    ;

    /// Pushes the word `offset` of the pointer segment.
    fn push_ptr_n(&mut self, offset: i16)
        requires
            old(self).wf(),
            old(self).emitted().op_room(),
        ensures
            final(self).wf(),
            final(self).emitted() == old(self).emitted().translated(
                Self::code(
                    CommandView::Push(Segment::Pointer, offset),
                    old(self).emitted().labels,
                    old(self).emitted().calls,
                ),
                Self::labels_used(CommandView::Push(Segment::Pointer, offset)),
                Self::calls_used(CommandView::Push(Segment::Pointer, offset)),
            ),
            final(self).emitted().within(
                old(self).emitted(),
                OP_ROOM as nat,
                LABEL_ROOM as nat,
                1,
            ),
    ;

    /// Pushes the word `offset` of the this segment.
    fn push_this_n(&mut self, offset: i16)
        requires
            old(self).wf(),
            old(self).emitted().op_room(),
        ensures
            final(self).wf(),
            final(self).emitted() == old(self).emitted().translated(
                Self::code(
                    CommandView::Push(Segment::This, offset),
                    old(self).emitted().labels,
                    old(self).emitted().calls,
                ),
                Self::labels_used(CommandView::Push(Segment::This, offset)),
                Self::calls_used(CommandView::Push(Segment::This, offset)),
            ),
            final(self).emitted().within(
                old(self).emitted(),
                OP_ROOM as nat,
                LABEL_ROOM as nat,
                1,
            ),
    ;

    /// Pushes the word `offset` of the that segment.
    fn push_that_n(&mut self, offset: i16)
        requires
            old(self).wf(),
            old(self).emitted().op_room(),
        ensures
            final(self).wf(),
            final(self).emitted() == old(self).emitted().translated(
                Self::code(
                    CommandView::Push(Segment::That, offset),
                    old(self).emitted().labels,
                    old(self).emitted().calls,
                ),
                Self::labels_used(CommandView::Push(Segment::That, offset)),
                Self::calls_used(CommandView::Push(Segment::That, offset)),
            ),
            final(self).emitted().within(
                old(self).emitted(),
                OP_ROOM as nat,
                LABEL_ROOM as nat,
                1,
            ),
    ;

    /// Pops the top of the stack into the word `offset` of the local segment.
    fn pop_local_n(&mut self, offset: i16)
        requires
            old(self).wf(),
            old(self).emitted().op_room(),
        ensures
            final(self).wf(),
            final(self).emitted() == old(self).emitted().translated(
                Self::code(
                    CommandView::Pop(Segment::Local, offset),
                    old(self).emitted().labels,
                    old(self).emitted().calls,
                ),
                Self::labels_used(CommandView::Pop(Segment::Local, offset)),
                Self::calls_used(CommandView::Pop(Segment::Local, offset)),
            ),
            final(self).emitted().within(
                old(self).emitted(),
                OP_ROOM as nat,
                LABEL_ROOM as nat,
                1,
            ),
    ;

    /// Pops the top of the stack into the word `offset` of the argument
    /// segment.
    fn pop_argument_n(&mut self, offset: i16)
        requires
            old(self).wf(),
            old(self).emitted().op_room(),
        ensures
            final(self).wf(),
            final(self).emitted() == old(self).emitted().translated(
                Self::code(
                    CommandView::Pop(Segment::Argument, offset),
                    old(self).emitted().labels,
                    old(self).emitted().calls,
                ),
                Self::labels_used(CommandView::Pop(Segment::Argument, offset)),
                Self::calls_used(CommandView::Pop(Segment::Argument, offset)),
            ),
            final(self).emitted().within(
                old(self).emitted(),
                OP_ROOM as nat,
                LABEL_ROOM as nat,
                1,
            ),
    ;

    /// Pops the top of the stack into the word `offset` of the temp segment.
    fn pop_temp_n(&mut self, offset: i16)
        requires
            old(self).wf(),
            old(self).emitted().op_room(),
        ensures
            final(self).wf(),
            final(self).emitted() == old(self).emitted().translated(
                Self::code(
                    CommandView::Pop(Segment::Temp, offset),
                    old(self).emitted().labels,
                    old(self).emitted().calls,
                ),
                Self::labels_used(CommandView::Pop(Segment::Temp, offset)),
                Self::calls_used(CommandView::Pop(Segment::Temp, offset)),
            ),
            final(self).emitted().within(
                old(self).emitted(),
                OP_ROOM as nat,
                LABEL_ROOM as nat,
                1,
            ),
    ;

    /// Pops the top of the stack into the word `offset` of the static
    /// segment.
    fn pop_static_n(&mut self, offset: i16)
        requires
            old(self).wf(),
            old(self).emitted().op_room(),
        ensures
            final(self).wf(),
            final(self).emitted() == old(self).emitted().translated(
                Self::code(
                    CommandView::Pop(Segment::Static, offset),
                    old(self).emitted().labels,
                    old(self).emitted().calls,
                ),
                Self::labels_used(CommandView::Pop(Segment::Static, offset)),
                Self::calls_used(CommandView::Pop(Segment::Static, offset)),
            ),
            final(self).emitted().within(
                old(self).emitted(),
                OP_ROOM as nat,
                LABEL_ROOM as nat,
                1,
            ),
    ;

    /// Pops the top of the stack into the word `offset` of the that segment.
    fn pop_that_n(&mut self, offset: i16)
        requires
            old(self).wf(),
            old(self).emitted().op_room(),
        ensures
            final(self).wf(),
            final(self).emitted() == old(self).emitted().translated(
                Self::code(
                    CommandView::Pop(Segment::That, offset),
                    old(self).emitted().labels,
                    old(self).emitted().calls,
                ),
                Self::labels_used(CommandView::Pop(Segment::That, offset)),
                Self::calls_used(CommandView::Pop(Segment::That, offset)),
            ),
            final(self).emitted().within(
                old(self).emitted(),
                OP_ROOM as nat,
                LABEL_ROOM as nat,
                1,
            ),
    ;

    /// Pops the top of the stack into the word `offset` of the this segment.
    fn pop_this_n(&mut self, offset: i16)
        requires
            old(self).wf(),
            old(self).emitted().op_room(),
        ensures
            final(self).wf(),
            final(self).emitted() == old(self).emitted().translated(
                Self::code(
                    CommandView::Pop(Segment::This, offset),
                    old(self).emitted().labels,
                    old(self).emitted().calls,
                ),
                Self::labels_used(CommandView::Pop(Segment::This, offset)),
                Self::calls_used(CommandView::Pop(Segment::This, offset)),
            ),
            final(self).emitted().within(
                old(self).emitted(),
                OP_ROOM as nat,
                LABEL_ROOM as nat,
                1,
            ),
    ;

    /// Pops the top of the stack into the word `offset` of the pointer
    /// segment.
    fn pop_ptr_n(&mut self, offset: i16)
        requires
            old(self).wf(),
            old(self).emitted().op_room(),
        ensures
            final(self).wf(),
            final(self).emitted() == old(self).emitted().translated(
                Self::code(
                    CommandView::Pop(Segment::Pointer, offset),
                    old(self).emitted().labels,
                    old(self).emitted().calls,
                ),
                Self::labels_used(CommandView::Pop(Segment::Pointer, offset)),
                Self::calls_used(CommandView::Pop(Segment::Pointer, offset)),
            ),
            final(self).emitted().within(
                old(self).emitted(),
                OP_ROOM as nat,
                LABEL_ROOM as nat,
                1,
            ),
    ;

    /// Calls the function `symbol` with the `n_args` topmost words of the
    /// stack as its arguments.
    fn call(&mut self, n_args: i16, symbol: &str)
        requires
            old(self).wf(),
            old(self).emitted().op_room(),
        ensures
            final(self).wf(),
            final(self).emitted() == old(self).emitted().translated(
                Self::code(
                    (CommandView::Call { n_args, symbol: symbol@ }),
                    old(self).emitted().labels,
                    old(self).emitted().calls,
                ),
                Self::labels_used((CommandView::Call { n_args, symbol: symbol@ })),
                Self::calls_used((CommandView::Call { n_args, symbol: symbol@ })),
            ),
            final(self).emitted().within(
                old(self).emitted(),
                OP_ROOM as nat,
                LABEL_ROOM as nat,
                1,
            ),
    ;

    /// Returns from the current function with the top of the stack as its
    /// result.
    fn _return(&mut self)
        requires
            old(self).wf(),
            old(self).emitted().op_room(),
        ensures
            final(self).wf(),
            final(self).emitted() == old(self).emitted().translated(
                Self::code(
                    CommandView::Return,
                    old(self).emitted().labels,
                    old(self).emitted().calls,
                ),
                Self::labels_used(CommandView::Return),
                Self::calls_used(CommandView::Return),
            ),
            final(self).emitted().within(
                old(self).emitted(),
                OP_ROOM as nat,
                LABEL_ROOM as nat,
                1,
            ),
    ;

    /// Starts the function `symbol`, which has `n_vars` local variables.
    fn function(&mut self, n_vars: i16, symbol: &str)
        requires
            old(self).wf(),
            old(self).emitted().op_room(),
        ensures
            final(self).wf(),
            final(self).emitted() == old(self).emitted().translated(
                Self::code(
                    (CommandView::Function { n_vars, symbol: symbol@ }),
                    old(self).emitted().labels,
                    old(self).emitted().calls,
                ),
                Self::labels_used((CommandView::Function { n_vars, symbol: symbol@ })),
                Self::calls_used((CommandView::Function { n_vars, symbol: symbol@ })),
            ),
            final(self).emitted().within(
                old(self).emitted(),
                OP_ROOM as nat,
                LABEL_ROOM as nat,
                1,
            ),
    ;

    /// Jumps to the label `symbol` of the source program.
    fn goto(&mut self, symbol: &str)
        requires
            old(self).wf(),
            old(self).emitted().op_room(),
        ensures
            final(self).wf(),
            final(self).emitted() == old(self).emitted().translated(
                Self::code(
                    CommandView::Goto(symbol@),
                    old(self).emitted().labels,
                    old(self).emitted().calls,
                ),
                Self::labels_used(CommandView::Goto(symbol@)),
                Self::calls_used(CommandView::Goto(symbol@)),
            ),
            final(self).emitted().within(
                old(self).emitted(),
                OP_ROOM as nat,
                LABEL_ROOM as nat,
                1,
            ),
    ;

    /// Declares the label `symbol` of the source program.
    fn label(&mut self, symbol: &str)
        requires
            old(self).wf(),
            old(self).emitted().op_room(),
        ensures
            final(self).wf(),
            final(self).emitted() == old(self).emitted().translated(
                Self::code(
                    CommandView::Label(symbol@),
                    old(self).emitted().labels,
                    old(self).emitted().calls,
                ),
                Self::labels_used(CommandView::Label(symbol@)),
                Self::calls_used(CommandView::Label(symbol@)),
            ),
            final(self).emitted().within(
                old(self).emitted(),
                OP_ROOM as nat,
                LABEL_ROOM as nat,
                1,
            ),
    ;

    /// Pops the top of the stack and jumps to the label `symbol` of the
    /// source program if the popped word is not zero.
    fn ifgoto(&mut self, symbol: &str)
        requires
            old(self).wf(),
            old(self).emitted().op_room(),
        ensures
            final(self).wf(),
            final(self).emitted() == old(self).emitted().translated(
                Self::code(
                    CommandView::IfGoto(symbol@),
                    old(self).emitted().labels,
                    old(self).emitted().calls,
                ),
                Self::labels_used(CommandView::IfGoto(symbol@)),
                Self::calls_used(CommandView::IfGoto(symbol@)),
            ),
            final(self).emitted().within(
                old(self).emitted(),
                OP_ROOM as nat,
                LABEL_ROOM as nat,
                1,
            ),
    ;

    /// Replaces the two topmost words by their sum.
    fn add(&mut self)
        requires
            old(self).wf(),
            old(self).emitted().op_room(),
        ensures
            final(self).wf(),
            final(self).emitted() == old(self).emitted().translated(
                Self::code(
                    CommandView::Arithmetic(ArithmeticType::Add),
                    old(self).emitted().labels,
                    old(self).emitted().calls,
                ),
                Self::labels_used(CommandView::Arithmetic(ArithmeticType::Add)),
                Self::calls_used(CommandView::Arithmetic(ArithmeticType::Add)),
            ),
            final(self).emitted().within(
                old(self).emitted(),
                OP_ROOM as nat,
                LABEL_ROOM as nat,
                1,
            ),
    ;

    /// Replaces the two topmost words by their difference, the upper taken
    /// from the lower.
    fn sub(&mut self)
        requires
            old(self).wf(),
            old(self).emitted().op_room(),
        ensures
            final(self).wf(),
            final(self).emitted() == old(self).emitted().translated(
                Self::code(
                    CommandView::Arithmetic(ArithmeticType::Sub),
                    old(self).emitted().labels,
                    old(self).emitted().calls,
                ),
                Self::labels_used(CommandView::Arithmetic(ArithmeticType::Sub)),
                Self::calls_used(CommandView::Arithmetic(ArithmeticType::Sub)),
            ),
            final(self).emitted().within(
                old(self).emitted(),
                OP_ROOM as nat,
                LABEL_ROOM as nat,
                1,
            ),
    ;

    /// Negates the topmost word.
    fn neg(&mut self)
        requires
            old(self).wf(),
            old(self).emitted().op_room(),
        ensures
            final(self).wf(),
            final(self).emitted() == old(self).emitted().translated(
                Self::code(
                    CommandView::Arithmetic(ArithmeticType::Neg),
                    old(self).emitted().labels,
                    old(self).emitted().calls,
                ),
                Self::labels_used(CommandView::Arithmetic(ArithmeticType::Neg)),
                Self::calls_used(CommandView::Arithmetic(ArithmeticType::Neg)),
            ),
            final(self).emitted().within(
                old(self).emitted(),
                OP_ROOM as nat,
                LABEL_ROOM as nat,
                1,
            ),
    ;

    /// Replaces the two topmost words by the truth of their equality.
    fn eq(&mut self)
        requires
            old(self).wf(),
            old(self).emitted().op_room(),
        ensures
            final(self).wf(),
            final(self).emitted() == old(self).emitted().translated(
                Self::code(
                    CommandView::Arithmetic(ArithmeticType::Eq),
                    old(self).emitted().labels,
                    old(self).emitted().calls,
                ),
                Self::labels_used(CommandView::Arithmetic(ArithmeticType::Eq)),
                Self::calls_used(CommandView::Arithmetic(ArithmeticType::Eq)),
            ),
            final(self).emitted().within(
                old(self).emitted(),
                OP_ROOM as nat,
                LABEL_ROOM as nat,
                1,
            ),
    ;

    /// Replaces the two topmost words by the truth of the lower being
    /// greater than the upper.
    fn gt(&mut self)
        requires
            old(self).wf(),
            old(self).emitted().op_room(),
        ensures
            final(self).wf(),
            final(self).emitted() == old(self).emitted().translated(
                Self::code(
                    CommandView::Arithmetic(ArithmeticType::Gt),
                    old(self).emitted().labels,
                    old(self).emitted().calls,
                ),
                Self::labels_used(CommandView::Arithmetic(ArithmeticType::Gt)),
                Self::calls_used(CommandView::Arithmetic(ArithmeticType::Gt)),
            ),
            final(self).emitted().within(
                old(self).emitted(),
                OP_ROOM as nat,
                LABEL_ROOM as nat,
                1,
            ),
    ;

    /// Replaces the two topmost words by the truth of the lower being less
    /// than the upper.
    fn lt(&mut self)
        requires
            old(self).wf(),
            old(self).emitted().op_room(),
        ensures
            final(self).wf(),
            final(self).emitted() == old(self).emitted().translated(
                Self::code(
                    CommandView::Arithmetic(ArithmeticType::Lt),
                    old(self).emitted().labels,
                    old(self).emitted().calls,
                ),
                Self::labels_used(CommandView::Arithmetic(ArithmeticType::Lt)),
                Self::calls_used(CommandView::Arithmetic(ArithmeticType::Lt)),
            ),
            final(self).emitted().within(
                old(self).emitted(),
                OP_ROOM as nat,
                LABEL_ROOM as nat,
                1,
            ),
    ;

    /// Replaces the two topmost words by their bitwise and.
    fn and(&mut self)
        requires
            old(self).wf(),
            old(self).emitted().op_room(),
        ensures
            final(self).wf(),
            final(self).emitted() == old(self).emitted().translated(
                Self::code(
                    CommandView::Arithmetic(ArithmeticType::And),
                    old(self).emitted().labels,
                    old(self).emitted().calls,
                ),
                Self::labels_used(CommandView::Arithmetic(ArithmeticType::And)),
                Self::calls_used(CommandView::Arithmetic(ArithmeticType::And)),
            ),
            final(self).emitted().within(
                old(self).emitted(),
                OP_ROOM as nat,
                LABEL_ROOM as nat,
                1,
            ),
    ;

    /// Replaces the two topmost words by their bitwise or.
    fn or(&mut self)
        requires
            old(self).wf(),
            old(self).emitted().op_room(),
        ensures
            final(self).wf(),
            final(self).emitted() == old(self).emitted().translated(
                Self::code(
                    CommandView::Arithmetic(ArithmeticType::Or),
                    old(self).emitted().labels,
                    old(self).emitted().calls,
                ),
                Self::labels_used(CommandView::Arithmetic(ArithmeticType::Or)),
                Self::calls_used(CommandView::Arithmetic(ArithmeticType::Or)),
            ),
            final(self).emitted().within(
                old(self).emitted(),
                OP_ROOM as nat,
                LABEL_ROOM as nat,
                1,
            ),
    ;

    /// Replaces the topmost word by its bitwise complement.
    fn not(&mut self)
        requires
            old(self).wf(),
            old(self).emitted().op_room(),
        ensures
            final(self).wf(),
            final(self).emitted() == old(self).emitted().translated(
                Self::code(
                    CommandView::Arithmetic(ArithmeticType::Not),
                    old(self).emitted().labels,
                    old(self).emitted().calls,
                ),
                Self::labels_used(CommandView::Arithmetic(ArithmeticType::Not)),
                Self::calls_used(CommandView::Arithmetic(ArithmeticType::Not)),
            ),
            final(self).emitted().within(
                old(self).emitted(),
                OP_ROOM as nat,
                LABEL_ROOM as nat,
                1,
            ),
    ;
}

} // verus!
