//! The dispatcher: takes one command at a time and has an emitter translate
//! it.

use vstd::prelude::*;
use std::marker::PhantomData;
use crate::assembly::LineView;
use crate::emit::{Counters, EContext, EmitAsm, Emitted};
use crate::parser::{ArithmeticType, CommandDetails, CommandView, Segment};

verus! {

/// The writer of one translation unit.
pub struct CodeWriter<C, E> where C: EContext, E: EmitAsm<C> {
    emit: E,
    first_run: bool,
    emit_init: bool,
    _phantom: PhantomData<C>,
}

/// What passes from the writer of one translation unit to the next.
#[derive(Clone)]
pub struct WriterContext<C> where C: EContext {
    emitter_sate: C,
    first_run: bool,
}

/// What a [`CodeWriter`] stands for.
pub struct WriterState {
    /// The listing and the counters of the emitter.
    pub emitted: Emitted,
    /// True until the first command has been written to the output stream.
    pub first_run: bool,
    /// Whether the output starts with the bootstrap.
    pub emit_init: bool,
}

/// True for the commands that can be translated: all but a `pop` to the
/// constant segment.
pub open spec fn accepted(command: CommandView) -> bool {
    !(command matches CommandView::Pop(segment, _) && segment == Segment::Constant)
}

/// Decides [`accepted`].
pub fn is_accepted(command: &CommandDetails) -> (b: bool)
    ensures
        b == accepted(command@),
{
    match command {
        CommandDetails::Pop(Segment::Constant, _) => false,
        _ => true,
    }
}

/// The state of a writer with the emitter `E` after it has written
/// `command`, which stood on the line `source`. Before the first command of
/// an output stream come the bootstrap, if it was asked for, and the
/// emitter's prelude. Every command is preceded by its source line as a
/// comment.
pub open spec fn after_command<C: EContext, E: EmitAsm<C>>(
    w: WriterState,
    command: CommandView,
    source: Seq<char>,
) -> WriterState {
    let booted = if w.first_run && w.emit_init {
        w.emitted.plus(E::bootstrap_code(), 0, 0)
    } else {
        w.emitted
    };
    let begun = if w.first_run {
        booted.plus(E::prelude_code(booted.labels), E::prelude_labels(), 0)
    } else {
        booted
    };
    let echoed = begun.plus(seq![LineView::Comment(source)], 0, 0);
    WriterState {
        emitted: echoed.translated(
            E::code(command, echoed.labels, echoed.calls),
            E::labels_used(command),
            E::calls_used(command),
        ),
        first_run: false,
        emit_init: w.emit_init,
    }
}

impl<C> WriterContext<C> where C: EContext {
    /// The context of the emitter.
    pub closed spec fn inner(&self) -> C {
        self.emitter_sate
    }

    /// True until the first command has been written to the output stream.
    pub closed spec fn first_run(&self) -> bool {
        self.first_run
    }

    /// The counters that the context holds.
    pub open spec fn counters(&self) -> Counters {
        self.inner().counters()
    }

    /// The state of a writer that takes up this context.
    pub open spec fn resumed(&self, emit_init: bool) -> WriterState {
        WriterState {
            emitted: Emitted::resume(self.counters()),
            first_run: self.first_run(),
            emit_init,
        }
    }
}

impl<C> WriterContext<C> where C: EContext {
    /// A context put together from what an earlier one was taken apart
    /// into: the context of the emitter, and whether the output stream is
    /// still untouched.
    pub fn restore(emitter_state: C, first_run: bool) -> (context: Self)
        ensures
            context.inner() == emitter_state,
            context.first_run() == first_run,
    {
        Self { emitter_sate: emitter_state, first_run }
    }

    /// The context of the emitter.
    pub fn emitter_state(&self) -> (state: &C)
        ensures
            *state == self.inner(),
    {
        &self.emitter_sate
    }

    /// True until the first command has been written to the output stream.
    pub fn is_first_run(&self) -> (b: bool)
        ensures
            b == self.first_run(),
    {
        self.first_run
    }
}

impl<C> Default for WriterContext<C> where C: EContext {
    /// The context of an output stream to which nothing has been written.
    fn default() -> (context: Self)
        ensures
            context.first_run(),
            call_ensures(C::default, (), context.inner()),
    {
        Self { emitter_sate: C::default(), first_run: true }
    }
}

impl<C, E> View for CodeWriter<C, E> where C: EContext, E: EmitAsm<C> {
    type V = WriterState;

    closed spec fn view(&self) -> WriterState {
        WriterState {
            emitted: self.emit.emitted(),
            first_run: self.first_run,
            emit_init: self.emit_init,
        }
    }
}

impl<C, E> CodeWriter<C, E> where C: EContext, E: EmitAsm<C> {
    /// The emitter is in a consistent state.
    pub closed spec fn wf(&self) -> bool {
        self.emit.wf()
    }

    /// A writer that goes on where the writer that left `writer_context`
    /// stopped.
    pub fn with_context(writer_context: WriterContext<C>, emit_init: bool) -> (writer: Self)
        ensures
            writer.wf(),
            writer@ == writer_context.resumed(emit_init),
    {
        let emitter = E::with_context(writer_context.emitter_sate);
        CodeWriter {
            emit: emitter,
            first_run: writer_context.first_run,
            emit_init,
            _phantom: PhantomData,
        }
    }

    /// A writer for a new output stream.
    pub fn new(emit_init: bool) -> (writer: Self)
        ensures
            writer.wf(),
            writer@ == (WriterState { emitted: Emitted::fresh(), first_run: true, emit_init }),
    {
        let emitter = E::new();
        CodeWriter { emit: emitter, first_run: true, emit_init, _phantom: PhantomData }
    }

    /// Ends the unit and hands on what the next one needs.
    pub fn close(self) -> (context: WriterContext<C>)
        requires
            self.wf(),
        ensures
            context.counters() == self@.emitted.counters(),
            context.first_run() == self@.first_run,
    {
        WriterContext { emitter_sate: self.emit.close(), first_run: self.first_run }
    }

    /// What has been written in this unit, as text.
    pub fn output(&self) -> (text: String)
        requires
            self.wf(),
        ensures
            text@ == self@.emitted.listing.text(),
    {
        self.emit.output()
    }

    /// Whether the counters leave room for one more command.
    pub fn has_room(&self) -> (b: bool)
        requires
            self.wf(),
        ensures
            b == self@.emitted.has_room(),
    {
        self.emit.has_room()
    }

    /// Writes one command, which stood on the line `source`. A `pop` to the
    /// constant segment is no command that can be written: constants have
    /// no address. [`is_accepted`] tells the commands apart.
    pub fn write_command(&mut self, command: &CommandDetails, source: &String)
        requires
            old(self).wf(),
            old(self)@.emitted.has_room(),
            accepted(command@),
        ensures
            final(self).wf(),
            final(self)@ == after_command::<C, E>(old(self)@, command@, source@),
    {
        if self.first_run {
            if self.emit_init {
                self.emit.emit_init();
            }
            self.emit.prelude();
            self.first_run = false;
        }
        self.emit.comment(source.as_str());
        match command {
            CommandDetails::Push(segment, arg1) => match segment {
                Segment::Constant => self.emit.push_const(*arg1),
                Segment::Local => self.emit.push_local_n(*arg1),
                Segment::Argument => self.emit.push_arg_n(*arg1),
                Segment::Temp => self.emit.push_temp_n(*arg1),
                Segment::Static => self.emit.push_static_n(*arg1),
                Segment::That => self.emit.push_that_n(*arg1),
                Segment::This => self.emit.push_this_n(*arg1),
                Segment::Pointer => self.emit.push_ptr_n(*arg1),
            },
            CommandDetails::Pop(segment, arg1) => match segment {
                Segment::Constant => {},
                Segment::Local => self.emit.pop_local_n(*arg1),
                Segment::Argument => self.emit.pop_argument_n(*arg1),
                Segment::Temp => self.emit.pop_temp_n(*arg1),
                Segment::Static => self.emit.pop_static_n(*arg1),
                Segment::That => self.emit.pop_that_n(*arg1),
                Segment::This => self.emit.pop_this_n(*arg1),
                Segment::Pointer => self.emit.pop_ptr_n(*arg1),
            },
            CommandDetails::Arithmetic(ArithmeticType::Add) => self.emit.add(),
            CommandDetails::Arithmetic(ArithmeticType::Eq) => self.emit.eq(),
            CommandDetails::Arithmetic(ArithmeticType::Sub) => self.emit.sub(),
            CommandDetails::Arithmetic(ArithmeticType::Neg) => self.emit.neg(),
            CommandDetails::Arithmetic(ArithmeticType::Gt) => self.emit.gt(),
            CommandDetails::Arithmetic(ArithmeticType::Lt) => self.emit.lt(),
            CommandDetails::Arithmetic(ArithmeticType::And) => self.emit.and(),
            CommandDetails::Arithmetic(ArithmeticType::Or) => self.emit.or(),
            CommandDetails::Arithmetic(ArithmeticType::Not) => self.emit.not(),
            CommandDetails::Label(symbol) => self.emit.label(symbol.as_str()),
            CommandDetails::Goto(symbol) => self.emit.goto(symbol.as_str()),
            CommandDetails::IfGoto(symbol) => self.emit.ifgoto(symbol.as_str()),
            CommandDetails::Function { n_vars, symbol } => self.emit.function(
                *n_vars,
                symbol.as_str(),
            ),
            CommandDetails::Return => self.emit._return(),
            CommandDetails::Call { n_args, symbol } => self.emit.call(*n_args, symbol.as_str()),
        }
    }
}

} // verus!
