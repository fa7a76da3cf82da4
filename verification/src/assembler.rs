//! How a listing becomes a program in the machine's memory.
//!
//! The assembler drops everything but the instructions, and gives every
//! label the address of the instruction that follows it. Symbols that are
//! no labels are variables; where they live is not the listing's business.
//! The laws about emitted code speak of code that is loaded; this module
//! shows that assembling a listing loads it.

use vstd::prelude::*;
use crate::assembly::{
    count_instructions,
    instructions,
    lemma_count_instructions,
    lemma_instructions_concat,
    LineView,
};
use crate::machine::{encodable, instructions_from, loaded, loaded_from, size, Symbols};

verus! {

/// True when the line `i` of `lines` declares the label `name`.
pub open spec fn declares(lines: Seq<LineView>, i: int, name: Seq<char>) -> bool {
    0 <= i < lines.len() && lines[i] == LineView::Label(name)
}

/// True when no label is declared twice.
pub open spec fn labels_once(lines: Seq<LineView>) -> bool {
    forall|i: int, j: int, name: Seq<char>|
        declares(lines, i, name) && declares(lines, j, name) ==> i == j
}

/// True when every line is one that the machine has.
pub open spec fn all_encodable(lines: Seq<LineView>) -> bool {
    forall|i: int| 0 <= i < lines.len() ==> encodable(#[trigger] lines[i])
}

/// The address of the line `i`: the number of instructions before it.
pub open spec fn address_of_line(lines: Seq<LineView>, i: int) -> int {
    count_instructions(lines.take(i)) as int
}

/// The addresses that the symbols of `lines` stand for: a label stands for
/// the address of the line that declares it, any other symbol for what
/// `variables` says.
pub open spec fn symbol_table(lines: Seq<LineView>, variables: Symbols) -> Symbols {
    Map::new(
        |name: Seq<char>| true,
        |name: Seq<char>|
            if exists|i: int| declares(lines, i, name) {
                address_of_line(lines, choose|i: int| declares(lines, i, name))
            } else {
                variables[name]
            },
    )
}

/// The address of a line grows by one with every instruction.
proof fn lemma_address_step(lines: Seq<LineView>, i: int)
    requires
        0 <= i < lines.len(),
    ensures
        address_of_line(lines, i + 1) == address_of_line(lines, i) + if lines[i].is_instruction() {
            1int
        } else {
            0int
        },
{
    assert(lines.take(i + 1).drop_last() =~= lines.take(i));
    assert(lines.take(i + 1).last() == lines[i]);
}

/// The instruction on the line `i` stands in the program at the address of
/// that line.
proof fn lemma_instruction_at(lines: Seq<LineView>, i: int)
    requires
        0 <= i < lines.len(),
        lines[i].is_instruction(),
    ensures
        0 <= address_of_line(lines, i) < instructions(lines).len(),
        instructions(lines)[address_of_line(lines, i)] == lines[i],
{
    let front = lines.take(i + 1);
    let rest = lines.skip(i + 1);
    assert(lines =~= front + rest);
    lemma_instructions_concat(front, rest);
    assert(front.drop_last() =~= lines.take(i));
    assert(front.last() == lines[i]);
    lemma_count_instructions(lines.take(i));
    assert(instructions(front) == instructions(lines.take(i)).push(lines[i]));
    assert(instructions(lines)[address_of_line(lines, i)] == instructions(front)[address_of_line(
        lines,
        i,
    )]);
}

/// From any line on, an assembled listing is loaded at the line's address.
proof fn lemma_assembled_from(lines: Seq<LineView>, variables: Symbols, i: int)
    requires
        labels_once(lines),
        all_encodable(lines),
        0 <= i <= lines.len(),
    ensures
        loaded_from(
            instructions(lines),
            symbol_table(lines, variables),
            address_of_line(lines, i),
            lines,
            i,
        ),
        instructions_from(lines, i) + address_of_line(lines, i) == count_instructions(lines),
    decreases lines.len() - i,
{
    if i < lines.len() {
        lemma_address_step(lines, i);
        lemma_assembled_from(lines, variables, i + 1);
        if lines[i].is_instruction() {
            lemma_instruction_at(lines, i);
        } else if lines[i] is Label {
            let name = lines[i]->Label_0;
            assert(declares(lines, i, name));
            let chosen = choose|j: int| declares(lines, j, name);
            assert(declares(lines, chosen, name));
        }
    } else {
        assert(lines.take(i) =~= lines);
    }
}

/// Assembling a listing in which no label is declared twice loads it: the
/// program is the listing's instructions, in order, and every label stands
/// for the address of the instruction that follows it. The laws about
/// emitted code therefore hold of every part of the assembled program: see
/// [`crate::machine::lemma_loaded_part`].
pub proof fn lemma_assembled(lines: Seq<LineView>, variables: Symbols)
    requires
        labels_once(lines),
        all_encodable(lines),
    ensures
        loaded(instructions(lines), symbol_table(lines, variables), 0, lines),
        size(lines) == count_instructions(lines),
{
    lemma_assembled_from(lines, variables, 0);
    assert(lines.take(0) =~= Seq::<LineView>::empty());
}

} // verus!
