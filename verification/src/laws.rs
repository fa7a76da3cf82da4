//! Laws of whole translations.

use vstd::prelude::*;
use crate::assembly::{count_instructions, lemma_count_concat, lemma_written_concat, written, LineView};
use crate::assembler::labels_once;
use crate::emit::{Counters, EContext, EmitAsm, Emitted};
use crate::labels::{
    declared,
    generated_between,
    lemma_declared_concat,
    lemma_declared_once,
    lemma_generated_apart,
};
use crate::parser::{
    lemma_next_command_progress,
    next_command_at,
    ArithmeticType,
    CommandView,
};
use crate::transform::{exhausted_error, translate, translate_from};
use crate::writer::{accepted, after_command, WriterContext, WriterState};

verus! {

/// Translating a text twice, each time from a context that holds no
/// history, gives the same outcome and so the same output, byte for byte.
pub proof fn lemma_translation_repeats<C: EContext, E: EmitAsm<C>>(
    s: Seq<char>,
    emit_init: bool,
    first: WriterContext<C>,
    second: WriterContext<C>,
)
    requires
        first.resumed(emit_init) == (WriterState {
            emitted: Emitted::fresh(),
            first_run: true,
            emit_init,
        }),
        second.resumed(emit_init) == first.resumed(emit_init),
    ensures
        translate::<C, E>(s, first.counters(), first.first_run(), emit_init) == translate::<C, E>(
            s,
            second.counters(),
            second.first_run(),
            emit_init,
        ),
        translate::<C, E>(
            s,
            first.counters(),
            first.first_run(),
            emit_init,
        ).state.emitted.listing.text() == translate::<C, E>(
            s,
            second.counters(),
            second.first_run(),
            emit_init,
        ).state.emitted.listing.text(),
{
}

/// How the state of a writer that was asked for the bootstrap relates to the
/// state of one that was not, after both have written the same commands:
/// before the first command neither has written anything; afterwards the
/// first has written the bootstrap and then what the second has written.
pub open spec fn ahead_by_bootstrap<C: EContext, E: EmitAsm<C>>(
    with: WriterState,
    without: WriterState,
) -> bool {
    &&& with.emit_init
    &&& !without.emit_init
    &&& with.first_run == without.first_run
    &&& with.emitted.labels == without.emitted.labels
    &&& with.emitted.calls == without.emitted.calls
    &&& with.emitted.listing.first == without.emitted.listing.first
    &&& if with.first_run {
        with.emitted.listing.lines.len() == 0 && without.emitted.listing.lines.len() == 0
    } else {
        with.emitted.listing.lines == E::bootstrap_code() + without.emitted.listing.lines
    }
}

/// Writing one more command keeps two writers in step.
proof fn lemma_ahead_after_command<C: EContext, E: EmitAsm<C>>(
    with: WriterState,
    without: WriterState,
    command: CommandView,
    source: Seq<char>,
)
    requires
        ahead_by_bootstrap::<C, E>(with, without),
    ensures
        ahead_by_bootstrap::<C, E>(
            after_command::<C, E>(with, command, source),
            after_command::<C, E>(without, command, source),
        ),
{
    let a = after_command::<C, E>(with, command, source);
    let b = after_command::<C, E>(without, command, source);
    if with.first_run {
        assert(with.emitted.listing.lines =~= Seq::<LineView>::empty());
        assert(without.emitted.listing.lines =~= Seq::<LineView>::empty());
    }
    assert(a.emitted.listing.lines =~= E::bootstrap_code() + b.emitted.listing.lines);
}

/// Two writers that are in step stay in step to the end of the text, and
/// end it in the same way.
proof fn lemma_ahead_to_the_end<C: EContext, E: EmitAsm<C>>(
    s: Seq<char>,
    pos: int,
    with: WriterState,
    without: WriterState,
)
    requires
        0 <= pos <= s.len(),
        ahead_by_bootstrap::<C, E>(with, without),
        translate_from::<C, E>(s, pos, with).error != Some(exhausted_error()),
    ensures
        translate_from::<C, E>(s, pos, with).error == translate_from::<C, E>(
            s,
            pos,
            without,
        ).error,
        ahead_by_bootstrap::<C, E>(
            translate_from::<C, E>(s, pos, with).state,
            translate_from::<C, E>(s, pos, without).state,
        ),
    decreases s.len() - pos,
{
    let step = next_command_at(s, pos);
    lemma_next_command_progress(s, pos);
    match step.outcome {
        Some(Ok((command, line))) => {
            if with.emitted.has_room() {
                if !with.first_run {
                    lemma_count_concat(E::bootstrap_code(), without.emitted.listing.lines);
                } else {
                    assert(with.emitted.listing.lines =~= without.emitted.listing.lines);
                }
                assert(without.emitted.has_room());
                if accepted(command) {
                    lemma_ahead_after_command::<C, E>(with, without, command, line);
                    lemma_ahead_to_the_end::<C, E>(
                        s,
                        step.cursor,
                        after_command::<C, E>(with, command, line),
                        after_command::<C, E>(without, command, line),
                    );
                }
            }
        },
        _ => {},
    }
}

/// Asking for the bootstrap changes the output in one way only: the
/// bootstrap stands at its start. What follows is the output without the
/// bootstrap, its instructions numbered on from where the bootstrap ends.
/// A text without commands gives no output either way.
///
/// The law is stated for the translations that do not end because the
/// instruction counter ran out.
pub proof fn lemma_bootstrap_toggle<C: EContext, E: EmitAsm<C>>(s: Seq<char>, counters: Counters)
    requires
        translate::<C, E>(s, counters, true, true).error != Some(exhausted_error()),
    ensures
        ({
            let with = translate::<C, E>(s, counters, true, true);
            let without = translate::<C, E>(s, counters, true, false);
            let preamble = E::bootstrap_code();
            &&& with.error == without.error
            &&& with.state.first_run == without.state.first_run
            &&& with.state.emitted.labels == without.state.emitted.labels
            &&& with.state.emitted.calls == without.state.emitted.calls
            &&& without.state.emitted.listing.text() == written(
                without.state.emitted.listing.lines,
                counters.instructions,
            )
            &&& if without.state.first_run {
                with.state.emitted.listing.text().len() == 0
                    && without.state.emitted.listing.text().len() == 0
            } else {
                with.state.emitted.listing.text() == written(preamble, counters.instructions)
                    + written(
                    without.state.emitted.listing.lines,
                    counters.instructions + count_instructions(preamble),
                )
            }
        }),
{
    let start_with = WriterState { emitted: Emitted::resume(counters), first_run: true, emit_init: true };
    let start_without = WriterState {
        emitted: Emitted::resume(counters),
        first_run: true,
        emit_init: false,
    };
    lemma_first_stays::<C, E>(s, 0, start_with);
    lemma_first_stays::<C, E>(s, 0, start_without);
    lemma_ahead_to_the_end::<C, E>(s, 0, start_with, start_without);
    let with = translate::<C, E>(s, counters, true, true);
    let without = translate::<C, E>(s, counters, true, false);
    if !without.state.first_run {
        lemma_written_concat(
            E::bootstrap_code(),
            without.state.emitted.listing.lines,
            counters.instructions,
        );
    } else {
        assert(with.state.emitted.listing.lines =~= Seq::<LineView>::empty());
        assert(without.state.emitted.listing.lines =~= Seq::<LineView>::empty());
    }
}

/// The number of the first instruction of a listing never changes.
proof fn lemma_first_stays<C: EContext, E: EmitAsm<C>>(s: Seq<char>, pos: int, w: WriterState)
    requires
        0 <= pos <= s.len(),
    ensures
        translate_from::<C, E>(s, pos, w).state.emitted.listing.first == w.emitted.listing.first,
    decreases s.len() - pos,
{
    let step = next_command_at(s, pos);
    lemma_next_command_progress(s, pos);
    match step.outcome {
        Some(Ok((command, line))) => {
            if w.emitted.has_room() && accepted(command) {
                lemma_first_stays::<C, E>(s, step.cursor, after_command::<C, E>(w, command, line));
            }
        },
        _ => {},
    }
}

/// The number of labels that the emitter `E` takes from the generator for
/// the arithmetic commands `ops`.
pub open spec fn arithmetic_labels<C: EContext, E: EmitAsm<C>>(ops: Seq<ArithmeticType>) -> nat
    decreases ops.len(),
{
    if ops.len() == 0 {
        0
    } else {
        arithmetic_labels::<C, E>(ops.drop_last()) + E::labels_used(
            CommandView::Arithmetic(ops.last()),
        )
    }
}

/// What the emitter `E` emits for the arithmetic commands `ops`, one after
/// the other, when `labels` labels have been generated before.
pub open spec fn arithmetic_code<C: EContext, E: EmitAsm<C>>(
    ops: Seq<ArithmeticType>,
    labels: nat,
    calls: nat,
) -> Seq<LineView>
    decreases ops.len(),
{
    if ops.len() == 0 {
        Seq::empty()
    } else {
        arithmetic_code::<C, E>(ops.drop_last(), labels, calls) + E::code(
            CommandView::Arithmetic(ops.last()),
            labels + arithmetic_labels::<C, E>(ops.drop_last()),
            calls,
        )
    }
}

/// However many arithmetic commands are translated one after the other, and
/// whichever, no label is declared twice: every label that their code
/// declares is a label of the generator with a number of its own, above the
/// number of labels made before.
pub proof fn lemma_arithmetic_never_repeats<C: EContext, E: EmitAsm<C>>(
    ops: Seq<ArithmeticType>,
    labels: nat,
    calls: nat,
)
    ensures
        declared(arithmetic_code::<C, E>(ops, labels, calls)).no_duplicates(),
        generated_between(
            declared(arithmetic_code::<C, E>(ops, labels, calls)),
            labels + 1,
            labels + 1 + arithmetic_labels::<C, E>(ops),
        ),
        labels_once(arithmetic_code::<C, E>(ops, labels, calls)),
    decreases ops.len(),
{
    let code = arithmetic_code::<C, E>(ops, labels, calls);
    if ops.len() == 0 {
        assert(declared(code) =~= Seq::<Seq<char>>::empty());
    } else {
        let before = arithmetic_code::<C, E>(ops.drop_last(), labels, calls);
        let used = arithmetic_labels::<C, E>(ops.drop_last());
        let last = E::code(CommandView::Arithmetic(ops.last()), labels + used, calls);
        lemma_arithmetic_never_repeats::<C, E>(ops.drop_last(), labels, calls);
        E::lemma_arithmetic_labels(ops.last(), labels + used, calls);
        lemma_declared_concat(before, last);
        lemma_generated_apart(
            declared(before),
            declared(last),
            labels + 1,
            labels + 1 + used,
            labels + 1 + arithmetic_labels::<C, E>(ops),
        );
    }
    lemma_declared_once(code);
}

/// The same across the boundary of two units: when the second goes on from
/// the count of labels at which the first stopped, the two together are
/// what one unit would have emitted for all the commands, and no label is
/// declared twice in them.
pub proof fn lemma_arithmetic_carries_over<C: EContext, E: EmitAsm<C>>(
    first: Seq<ArithmeticType>,
    second: Seq<ArithmeticType>,
    labels: nat,
    calls: nat,
)
    ensures
        arithmetic_labels::<C, E>(first + second) == arithmetic_labels::<C, E>(first)
            + arithmetic_labels::<C, E>(second),
        arithmetic_code::<C, E>(first, labels, calls) + arithmetic_code::<C, E>(
            second,
            labels + arithmetic_labels::<C, E>(first),
            calls,
        ) == arithmetic_code::<C, E>(first + second, labels, calls),
        labels_once(
            arithmetic_code::<C, E>(first, labels, calls) + arithmetic_code::<C, E>(
                second,
                labels + arithmetic_labels::<C, E>(first),
                calls,
            ),
        ),
    decreases second.len(),
{
    let head = arithmetic_code::<C, E>(first, labels, calls);
    let start = labels + arithmetic_labels::<C, E>(first);
    if second.len() == 0 {
        assert(first + second =~= first);
        assert(head + arithmetic_code::<C, E>(second, start, calls) =~= head);
    } else {
        let front = second.drop_last();
        lemma_arithmetic_carries_over::<C, E>(first, front, labels, calls);
        assert((first + second).drop_last() =~= first + front);
        assert((first + second).last() == second.last());
        assert(head + arithmetic_code::<C, E>(second, start, calls) =~= arithmetic_code::<C, E>(
            first + second,
            labels,
            calls,
        ));
    }
    lemma_arithmetic_never_repeats::<C, E>(first + second, labels, calls);
}

} // verus!
