//! The translation of a whole source text, and the errors that end it.

use vstd::prelude::*;
use vstd::string::StringExecFns;
use crate::chars::{decimal, push_decimal};
use crate::emit::{Counters, EContext, EmitAsm, Emitted};
use crate::parser::{
    lemma_next_command_progress,
    next_command_at,
    Parser,
};
use crate::scanner::line_number;
use crate::writer::{accepted, after_command, is_accepted, CodeWriter, WriterContext, WriterState};

verus! {

/// The emitter that translations use unless another one is chosen.
pub type Emitter = crate::simple_emitter::SimpleEmitter;

/// The context of the [`Emitter`].
pub type EmitterContext = crate::simple_emitter::SContext;

/// The result of a step that can fail with a [`TransformError`].
pub type TransformResult<T> = Result<T, TransformError>;

/// Why a translation stopped.
#[derive(Clone, Debug)]
pub enum TransformError {
    /// The source holds something that is no command: a message, and the
    /// line on which it stands.
    SyntaxError(String, usize),
    /// Reading the source or writing the output failed.
    IoError(String),
}

/// What a [`TransformError`] stands for.
pub enum TransformErrorView {
    SyntaxError(Seq<char>, usize),
    IoError(Seq<char>),
}

impl View for TransformError {
    type V = TransformErrorView;

    open spec fn view(&self) -> TransformErrorView {
        match self {
            TransformError::SyntaxError(message, line) => TransformErrorView::SyntaxError(
                message@,
                *line,
            ),
            TransformError::IoError(message) => TransformErrorView::IoError(message@),
        }
    }
}

impl TransformErrorView {
    /// The sentence that reports the error to a person.
    pub open spec fn text(self) -> Seq<char> {
        match self {
            TransformErrorView::SyntaxError(message, line) => "Syntax Error: "@ + message
                + " on line "@ + decimal(line as nat),
            TransformErrorView::IoError(message) => "IO Error: "@ + message,
        }
    }
}

impl TransformError {
    /// The sentence that reports the error to a person.
    pub fn to_string(&self) -> (text: String)
        ensures
            text@ == self@.text(),
    {
        match self {
            TransformError::SyntaxError(message, line) => {
                let mut text = String::from_str("Syntax Error: ");
                text.append(message.as_str());
                text.append(" on line ");
                push_decimal(&mut text, *line as u64);
                text
            },
            TransformError::IoError(message) => {
                let mut text = String::from_str("IO Error: ");
                text.append(message.as_str());
                text
            },
        }
    }
}

/// The error that ends a translation whose counters cannot grow further.
pub open spec fn exhausted_error() -> TransformErrorView {
    TransformErrorView::IoError("too much output for the instruction counter"@)
}

/// The error that ends a translation at a `pop` to the constant segment,
/// which stands on the line with the number `line`.
pub open spec fn pop_constant_error(line: nat) -> TransformErrorView {
    TransformErrorView::SyntaxError("cannot pop a constant"@, line as usize)
}

/// How a translation ended: the state of the writer, and the error if there
/// was one.
pub struct Outcome {
    pub state: WriterState,
    pub error: Option<TransformErrorView>,
}

/// The translation of the text `s` from the position `pos` on by a writer in
/// the state `w` with the emitter `E`: command after command is read and
/// written, until the text ends or an error occurs. A `pop` to the constant
/// segment is an error, found before anything is written for it. What was
/// written before an error stays.
pub open spec fn translate_from<C: EContext, E: EmitAsm<C>>(
    s: Seq<char>,
    pos: int,
    w: WriterState,
) -> Outcome
    decreases s.len() - pos,
{
    let step = next_command_at(s, pos);
    match step.outcome {
        None => Outcome { state: w, error: None },
        Some(Err(error)) => Outcome { state: w, error: Some(error) },
        Some(Ok((command, line))) => {
            if !w.emitted.has_room() {
                Outcome { state: w, error: Some(exhausted_error()) }
            } else if !accepted(command) {
                Outcome { state: w, error: Some(pop_constant_error(line_number(s, step.start))) }
            } else if pos < step.cursor <= s.len() {
                translate_from::<C, E>(s, step.cursor, after_command::<C, E>(w, command, line))
            } else {
                Outcome { state: after_command::<C, E>(w, command, line), error: None }
            }
        },
    }
}

/// The translation of a whole text by a writer that takes up `counters`.
pub open spec fn translate<C: EContext, E: EmitAsm<C>>(
    s: Seq<char>,
    counters: Counters,
    first_run: bool,
    emit_init: bool,
) -> Outcome {
    translate_from::<C, E>(
        s,
        0,
        WriterState { emitted: Emitted::resume(counters), first_run, emit_init },
    )
}

/// Translates the text `source` with the emitter `E`, going on from
/// `writer_context`. Returns the text of the output, and with it the context
/// for the next unit, or the error that ended the translation. The output
/// holds what was translated before the error.
pub fn transform<C: EContext, E: EmitAsm<C>>(
    writer_context: WriterContext<C>,
    source: &str,
    emit_init: bool,
) -> (r: (TransformResult<WriterContext<C>>, String))
    ensures
        ({
            let outcome = translate::<C, E>(
                source@,
                writer_context.counters(),
                writer_context.first_run(),
                emit_init,
            );
            &&& r.1@ == outcome.state.emitted.listing.text()
            &&& match r.0 {
                Ok(context) => {
                    &&& outcome.error.is_none()
                    &&& context.counters() == outcome.state.emitted.counters()
                    &&& context.first_run() == outcome.state.first_run
                },
                Err(error) => outcome.error == Some(error@),
            }
        }),
{
    let ghost s = source@;
    let ghost whole = translate::<C, E>(
        s,
        writer_context.counters(),
        writer_context.first_run(),
        emit_init,
    );
    let mut reader = Parser::new(source);
    let mut writer: CodeWriter<C, E> = CodeWriter::with_context(writer_context, emit_init);
    loop
        invariant
            s == source@,
            whole == translate::<C, E>(
                s,
                writer_context.counters(),
                writer_context.first_run(),
                emit_init,
            ),
            reader@.characters == s,
            0 <= reader@.cursor <= s.len(),
            writer.wf(),
            whole == translate_from::<C, E>(s, reader@.cursor, writer@),
        decreases s.len() - reader@.cursor,
    {
        let ghost pos = reader@.cursor;
        let ghost before = writer@;
        proof {
            lemma_next_command_progress(s, pos);
        }
        let next = reader.next_command();
        match next {
            None => {
                let text = writer.output();
                return (Ok(writer.close()), text);
            },
            Some(Err(error)) => {
                return (Err(error), writer.output());
            },
            Some(Ok((command, line))) => {
                if !writer.has_room() {
                    let error = TransformError::IoError(
                        String::from_str("too much output for the instruction counter"),
                    );
                    return (Err(error), writer.output());
                }
                if !is_accepted(&command) {
                    let error = TransformError::SyntaxError(
                        String::from_str("cannot pop a constant"),
                        reader.command_line(),
                    );
                    return (Err(error), writer.output());
                }
                writer.write_command(&command, &line);
            },
        }
    }
}

} // verus!
