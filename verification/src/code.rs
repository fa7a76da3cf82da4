//! Instruction sequences that both emitters are built from.
//!
//! Each sequence is given twice: as a spec function that says which
//! lines it consists of, and as a function that appends exactly those lines
//! to a [`Listing`]. What the sequences do when the machine runs them is
//! stated in the modules of laws.

use vstd::prelude::*;
use crate::assembly::{views, Comp, Dest, Jump, Line, LineView, Register};
use crate::listing::Listing;
use crate::parser::Segment;
use crate::symbols::{user_label, user_symbol};

verus! {

/// The address at which the temp segment starts.
pub const TEMP_BASE: i16 = 5;

/// The value to which the bootstrap sets the stack pointer.
pub const STACK_ORIGIN: i16 = 256;

/// Pops the top of the stack into D. A is left at the popped slot.
pub open spec fn stack_to_d() -> Seq<LineView> {
    seq![
        LineView::at(Register::Sp),
        LineView::set(Dest::M, Comp::MMinusOne),
        LineView::set(Dest::A, Comp::M),
        LineView::set(Dest::D, Comp::M),
    ]
}

/// Pushes D onto the stack.
pub open spec fn d_to_stack() -> Seq<LineView> {
    seq![
        LineView::at(Register::Sp),
        LineView::set(Dest::M, Comp::MPlusOne),
        LineView::set(Dest::A, Comp::MMinusOne),
        LineView::set(Dest::M, Comp::D),
    ]
}

/// Pushes A onto the stack.
pub open spec fn a_to_stack() -> Seq<LineView> {
    seq![
        LineView::set(Dest::D, Comp::A),
        LineView::at(Register::Sp),
        LineView::set(Dest::M, Comp::MPlusOne),
        LineView::set(Dest::A, Comp::MMinusOne),
        LineView::set(Dest::M, Comp::D),
    ]
}

/// The name under which the static segment is addressed.
pub open spec fn static_symbol() -> Seq<char> {
    "STATIC"@
}

/// The name of the program's entry point.
pub open spec fn entry_symbol() -> Seq<char> {
    "Sys.init"@
}

/// The instruction that loads into A the place from which a segment's base
/// is taken: the pointer register of local, argument, this and that; the
/// register of this for pointer; the fixed address of temp; the symbol of
/// static.
pub open spec fn segment_symbol(segment: Segment) -> LineView {
    match segment {
        Segment::Local => LineView::at(Register::Lcl),
        Segment::Argument => LineView::at(Register::Arg),
        Segment::This => LineView::at(Register::This),
        Segment::That => LineView::at(Register::That),
        Segment::Pointer => LineView::at(Register::This),
        Segment::Temp => LineView::AtValue(TEMP_BASE),
        Segment::Static => LineView::AtSymbol(static_symbol()),
        Segment::Constant => LineView::AtValue(0),
    }
}

/// True for the segments whose base is read from a pointer register; the
/// others start at a fixed address.
pub open spec fn based_on_pointer(segment: Segment) -> bool {
    segment == Segment::Local || segment == Segment::Argument || segment == Segment::This
        || segment == Segment::That
}

/// Loads the base address of a segment into D.
pub open spec fn segment_base(segment: Segment) -> Seq<LineView> {
    seq![
        segment_symbol(segment),
        LineView::set(
            Dest::D,
            if based_on_pointer(segment) {
                Comp::M
            } else {
                Comp::A
            },
        ),
    ]
}

/// Pops the top of the stack into the word `offset` of the segment whose
/// base D holds. The address of that word is parked in the free slot above
/// the stack while the value is fetched.
pub open spec fn store_top(offset: i16) -> Seq<LineView> {
    seq![
        LineView::AtValue(offset),
        LineView::set(Dest::D, Comp::DPlusA),
        LineView::at(Register::Sp),
        LineView::set(Dest::A, Comp::M),
        LineView::set(Dest::M, Comp::D),
        LineView::at(Register::Sp),
        LineView::set(Dest::M, Comp::MPlusOne),
        LineView::at(Register::Sp),
        LineView::set(Dest::M, Comp::MMinusOne),
        LineView::set(Dest::M, Comp::MMinusOne),
        LineView::set(Dest::A, Comp::M),
        LineView::set(Dest::D, Comp::M),
        LineView::at(Register::Sp),
        LineView::set(Dest::M, Comp::MPlusOne),
        LineView::set(Dest::A, Comp::M),
        LineView::set(Dest::A, Comp::M),
        LineView::set(Dest::M, Comp::D),
        LineView::at(Register::Sp),
        LineView::set(Dest::M, Comp::MMinusOne),
        LineView::Blank,
    ]
}

/// Pops the top of the stack into the word `offset` of `segment`.
///
/// What the machine does with it: [`crate::code_laws::lemma_pop_segment`].
pub open spec fn pop_segment(segment: Segment, offset: i16) -> Seq<LineView> {
    segment_base(segment) + store_top(offset)
}

/// Pushes the word `offset` of the segment whose base D holds.
pub open spec fn fetch_word(offset: i16) -> Seq<LineView> {
    seq![
        LineView::AtValue(offset),
        LineView::set(Dest::A, Comp::DPlusA),
        LineView::set(Dest::D, Comp::M),
        LineView::at(Register::Sp),
        LineView::set(Dest::M, Comp::MPlusOne),
        LineView::set(Dest::A, Comp::MMinusOne),
        LineView::set(Dest::M, Comp::D),
        LineView::Blank,
    ]
}

/// Pushes the word `offset` of `segment` onto the stack.
///
/// What the machine does with it: [`crate::code_laws::lemma_push_segment`].
pub open spec fn push_segment(segment: Segment, offset: i16) -> Seq<LineView> {
    segment_base(segment) + fetch_word(offset)
}

/// Replaces the two topmost words of the stack, `x` below `y`, by a truth
/// value. D first holds `y`; `difference` computes a number from it and from
/// `x` in A; the answer is yes exactly when `test` jumps on that number.
///
/// What the machine does with it: [`crate::code_laws::lemma_compare`].
pub open spec fn compare(
    difference: Comp,
    test: Jump,
    yes: Seq<char>,
    no: Seq<char>,
    end: Seq<char>,
) -> Seq<LineView> {
    stack_to_d() + seq![
        LineView::at(Register::Sp),
        LineView::set(Dest::A, Comp::MMinusOne),
        LineView::set(Dest::A, Comp::M),
        LineView::set(Dest::D, difference),
        LineView::AtSymbol(yes),
        LineView::jump(Comp::D, test),
        LineView::Label(no),
        LineView::set(Dest::D, Comp::Zero),
        LineView::AtSymbol(end),
        LineView::jump(Comp::Zero, Jump::Jmp),
        LineView::Label(yes),
        LineView::set(Dest::D, Comp::MinusOne),
        LineView::Label(end),
        LineView::at(Register::Sp),
        LineView::set(Dest::A, Comp::MMinusOne),
        LineView::set(Dest::M, Comp::D),
        LineView::Blank,
    ]
}

/// Replaces the two topmost words of the stack by their combination under
/// `combine`, which takes one word from D and the other from M.
///
/// What the machine does with it: [`crate::code_laws::lemma_combine_top`].
pub open spec fn combine_top(combine: Comp) -> Seq<LineView> {
    stack_to_d() + seq![
        LineView::at(Register::Sp),
        LineView::set(Dest::A, Comp::MMinusOne),
        LineView::set(Dest::M, combine),
        LineView::Blank,
    ]
}

/// Replaces the topmost word of the stack by what `change` makes of it in D.
///
/// What the machine does with it: [`crate::code_laws::lemma_change_top`].
pub open spec fn change_top(change: Comp) -> Seq<LineView> {
    seq![
        LineView::at(Register::Sp),
        LineView::set(Dest::A, Comp::MMinusOne),
        LineView::set(Dest::D, Comp::M),
        LineView::set(Dest::D, change),
        LineView::set(Dest::M, Comp::D),
        LineView::Blank,
    ]
}

/// Declares a label of the source program.
///
/// What the machine does with it: [`crate::code_laws::lemma_label`].
pub open spec fn label_code(name: Seq<char>) -> Seq<LineView> {
    seq![LineView::Label(user_label(name))]
}

/// Jumps to a label of the source program.
///
/// What the machine does with it: [`crate::code_laws::lemma_goto`].
pub open spec fn goto_code(name: Seq<char>) -> Seq<LineView> {
    seq![
        LineView::AtSymbol(user_label(name)),
        LineView::jump(Comp::Zero, Jump::Jmp),
        LineView::Blank,
    ]
}

/// Pops the top of the stack and jumps to a label of the source program if
/// the popped word is not zero.
///
/// What the machine does with it: [`crate::code_laws::lemma_ifgoto`].
pub open spec fn ifgoto_code(name: Seq<char>) -> Seq<LineView> {
    stack_to_d() + seq![
        LineView::AtSymbol(user_label(name)),
        LineView::jump(Comp::D, Jump::Jne),
        LineView::Blank,
    ]
}

/// The preamble of a program: sets the stack pointer to its origin and
/// jumps to the entry point.
///
/// What the machine does with it: [`crate::code_laws::lemma_bootstrap`].
pub open spec fn bootstrap() -> Seq<LineView> {
    seq![
        LineView::AtValue(STACK_ORIGIN),
        LineView::set(Dest::D, Comp::A),
        LineView::at(Register::Sp),
        LineView::set(Dest::M, Comp::D),
        LineView::AtSymbol(entry_symbol()),
        LineView::jump(Comp::Zero, Jump::Jmp),
        LineView::Blank,
    ]
}

/// Loads into A the address of the stack slot `depth` below the stack
/// pointer.
pub open spec fn sp_at_offset(depth: nat) -> Seq<LineView> {
    seq![LineView::at(Register::Sp), LineView::set(Dest::A, Comp::M)] + Seq::new(
        depth,
        |i: int| LineView::set(Dest::A, Comp::AMinusOne),
    )
}

/// `block`, `n` times over.
pub open spec fn repeat(block: Seq<LineView>, n: nat) -> Seq<LineView>
    decreases n,
{
    if n == 0 {
        Seq::empty()
    } else {
        repeat(block, (n - 1) as nat) + block
    }
}

/// A count as the source program gives it: a negative one counts as zero.
pub open spec fn count_of(n: i16) -> nat {
    if n > 0 {
        n as nat
    } else {
        0
    }
}

/// Appends [`stack_to_d`].
pub fn emit_stack_to_d(out: &mut Listing)
    requires
        old(out).wf(),
        old(out)@.room(4),
    ensures
        final(out).wf(),
        final(out)@.follows(old(out)@, stack_to_d()),
{
    let lines = vec![
        Line::at(Register::Sp),
        Line::set(Dest::M, Comp::MMinusOne),
        Line::set(Dest::A, Comp::M),
        Line::set(Dest::D, Comp::M),
    ];
    assert(views(lines@) =~= stack_to_d());
    out.extend(lines);
}

/// Appends [`d_to_stack`].
pub fn emit_d_to_stack(out: &mut Listing)
    requires
        old(out).wf(),
        old(out)@.room(4),
    ensures
        final(out).wf(),
        final(out)@.follows(old(out)@, d_to_stack()),
{
    let lines = vec![
        Line::at(Register::Sp),
        Line::set(Dest::M, Comp::MPlusOne),
        Line::set(Dest::A, Comp::MMinusOne),
        Line::set(Dest::M, Comp::D),
    ];
    assert(views(lines@) =~= d_to_stack());
    out.extend(lines);
}

/// Appends [`a_to_stack`].
pub fn emit_a_to_stack(out: &mut Listing)
    requires
        old(out).wf(),
        old(out)@.room(5),
    ensures
        final(out).wf(),
        final(out)@.follows(old(out)@, a_to_stack()),
{
    let lines = vec![
        Line::set(Dest::D, Comp::A),
        Line::at(Register::Sp),
        Line::set(Dest::M, Comp::MPlusOne),
        Line::set(Dest::A, Comp::MMinusOne),
        Line::set(Dest::M, Comp::D),
    ];
    assert(views(lines@) =~= a_to_stack());
    out.extend(lines);
}

/// The line of [`segment_symbol`]. The constant segment has no address.
pub fn segment_symbol_line(segment: Segment) -> (line: Line)
    requires
        segment != Segment::Constant,
    ensures
        line@ == segment_symbol(segment),
{
    match segment {
        Segment::Local => Line::at(Register::Lcl),
        Segment::Argument => Line::at(Register::Arg),
        Segment::This => Line::at(Register::This),
        Segment::That => Line::at(Register::That),
        Segment::Pointer => Line::at(Register::This),
        Segment::Temp => Line::AtValue(TEMP_BASE),
        Segment::Static => Line::AtSymbol("STATIC".to_string()),
        Segment::Constant => Line::AtValue(0),
    }
}

/// Appends [`segment_base`].
pub fn emit_segment_base(out: &mut Listing, segment: Segment)
    requires
        segment != Segment::Constant,
        old(out).wf(),
        old(out)@.room(2),
    ensures
        final(out).wf(),
        final(out)@.follows(old(out)@, segment_base(segment)),
{
    let source = match segment {
        Segment::Local | Segment::Argument | Segment::This | Segment::That => Comp::M,
        _ => Comp::A,
    };
    let lines = vec![segment_symbol_line(segment), Line::set(Dest::D, source)];
    assert(views(lines@) =~= segment_base(segment));
    out.extend(lines);
}

/// Appends [`pop_segment`].
pub fn emit_pop_segment(out: &mut Listing, segment: Segment, offset: i16)
    requires
        segment != Segment::Constant,
        old(out).wf(),
        old(out)@.room(22),
    ensures
        final(out).wf(),
        final(out)@.follows(old(out)@, pop_segment(segment, offset)),
{
    emit_segment_base(out, segment);
    let lines = vec![
        Line::AtValue(offset),
        Line::set(Dest::D, Comp::DPlusA),
        Line::at(Register::Sp),
        Line::set(Dest::A, Comp::M),
        Line::set(Dest::M, Comp::D),
        Line::at(Register::Sp),
        Line::set(Dest::M, Comp::MPlusOne),
        Line::at(Register::Sp),
        Line::set(Dest::M, Comp::MMinusOne),
        Line::set(Dest::M, Comp::MMinusOne),
        Line::set(Dest::A, Comp::M),
        Line::set(Dest::D, Comp::M),
        Line::at(Register::Sp),
        Line::set(Dest::M, Comp::MPlusOne),
        Line::set(Dest::A, Comp::M),
        Line::set(Dest::A, Comp::M),
        Line::set(Dest::M, Comp::D),
        Line::at(Register::Sp),
        Line::set(Dest::M, Comp::MMinusOne),
        Line::Blank,
    ];
    assert(views(lines@) =~= store_top(offset));
    out.extend(lines);
    assert(out@.lines =~= old(out)@.lines + pop_segment(segment, offset));
}

/// Appends [`push_segment`].
pub fn emit_push_segment(out: &mut Listing, segment: Segment, offset: i16)
    requires
        segment != Segment::Constant,
        old(out).wf(),
        old(out)@.room(10),
    ensures
        final(out).wf(),
        final(out)@.follows(old(out)@, push_segment(segment, offset)),
{
    emit_segment_base(out, segment);
    let lines = vec![
        Line::AtValue(offset),
        Line::set(Dest::A, Comp::DPlusA),
        Line::set(Dest::D, Comp::M),
        Line::at(Register::Sp),
        Line::set(Dest::M, Comp::MPlusOne),
        Line::set(Dest::A, Comp::MMinusOne),
        Line::set(Dest::M, Comp::D),
        Line::Blank,
    ];
    assert(views(lines@) =~= fetch_word(offset));
    out.extend(lines);
    assert(out@.lines =~= old(out)@.lines + push_segment(segment, offset));
}

/// Appends [`compare`].
pub fn emit_compare(
    out: &mut Listing,
    difference: Comp,
    test: Jump,
    yes: &String,
    no: &String,
    end: &String,
)
    requires
        old(out).wf(),
        old(out)@.room(21),
    ensures
        final(out).wf(),
        final(out)@.follows(old(out)@, compare(difference, test, yes@, no@, end@)),
{
    emit_stack_to_d(out);
    let lines = vec![
        Line::at(Register::Sp),
        Line::set(Dest::A, Comp::MMinusOne),
        Line::set(Dest::A, Comp::M),
        Line::set(Dest::D, difference),
        Line::symbol(yes),
        Line::jump(Comp::D, test),
        Line::label(no),
        Line::set(Dest::D, Comp::Zero),
        Line::symbol(end),
        Line::jump(Comp::Zero, Jump::Jmp),
        Line::label(yes),
        Line::set(Dest::D, Comp::MinusOne),
        Line::label(end),
        Line::at(Register::Sp),
        Line::set(Dest::A, Comp::MMinusOne),
        Line::set(Dest::M, Comp::D),
        Line::Blank,
    ];
    assert(views(lines@) =~= compare(difference, test, yes@, no@, end@).skip(4));
    out.extend(lines);
    assert(out@.lines =~= old(out)@.lines + compare(difference, test, yes@, no@, end@));
}

/// Appends [`combine_top`].
pub fn emit_combine_top(out: &mut Listing, combine: Comp)
    requires
        old(out).wf(),
        old(out)@.room(8),
    ensures
        final(out).wf(),
        final(out)@.follows(old(out)@, combine_top(combine)),
{
    emit_stack_to_d(out);
    let lines = vec![
        Line::at(Register::Sp),
        Line::set(Dest::A, Comp::MMinusOne),
        Line::set(Dest::M, combine),
        Line::Blank,
    ];
    assert(views(lines@) =~= combine_top(combine).skip(4));
    out.extend(lines);
    assert(out@.lines =~= old(out)@.lines + combine_top(combine));
}

/// Appends [`change_top`].
pub fn emit_change_top(out: &mut Listing, change: Comp)
    requires
        old(out).wf(),
        old(out)@.room(6),
    ensures
        final(out).wf(),
        final(out)@.follows(old(out)@, change_top(change)),
{
    let lines = vec![
        Line::at(Register::Sp),
        Line::set(Dest::A, Comp::MMinusOne),
        Line::set(Dest::D, Comp::M),
        Line::set(Dest::D, change),
        Line::set(Dest::M, Comp::D),
        Line::Blank,
    ];
    assert(views(lines@) =~= change_top(change));
    out.extend(lines);
}

/// Appends [`label_code`].
pub fn emit_label(out: &mut Listing, name: &str)
    requires
        old(out).wf(),
        old(out)@.room(1),
    ensures
        final(out).wf(),
        final(out)@.follows(old(out)@, label_code(name@)),
{
    let lines = vec![Line::Label(user_symbol(name))];
    assert(views(lines@) =~= label_code(name@));
    out.extend(lines);
}

/// Appends [`goto_code`].
pub fn emit_goto(out: &mut Listing, name: &str)
    requires
        old(out).wf(),
        old(out)@.room(3),
    ensures
        final(out).wf(),
        final(out)@.follows(old(out)@, goto_code(name@)),
{
    let lines = vec![
        Line::AtSymbol(user_symbol(name)),
        Line::jump(Comp::Zero, Jump::Jmp),
        Line::Blank,
    ];
    assert(views(lines@) =~= goto_code(name@));
    out.extend(lines);
}

/// Appends [`ifgoto_code`].
pub fn emit_ifgoto(out: &mut Listing, name: &str)
    requires
        old(out).wf(),
        old(out)@.room(7),
    ensures
        final(out).wf(),
        final(out)@.follows(old(out)@, ifgoto_code(name@)),
{
    emit_stack_to_d(out);
    let lines = vec![
        Line::AtSymbol(user_symbol(name)),
        Line::jump(Comp::D, Jump::Jne),
        Line::Blank,
    ];
    assert(views(lines@) =~= ifgoto_code(name@).skip(4));
    out.extend(lines);
    assert(out@.lines =~= old(out)@.lines + ifgoto_code(name@));
}

/// Appends [`bootstrap`].
pub fn emit_bootstrap(out: &mut Listing)
    requires
        old(out).wf(),
        old(out)@.room(7),
    ensures
        final(out).wf(),
        final(out)@.follows(old(out)@, bootstrap()),
{
    let lines = vec![
        Line::AtValue(STACK_ORIGIN),
        Line::set(Dest::D, Comp::A),
        Line::at(Register::Sp),
        Line::set(Dest::M, Comp::D),
        Line::AtSymbol("Sys.init".to_string()),
        Line::jump(Comp::Zero, Jump::Jmp),
        Line::Blank,
    ];
    assert(views(lines@) =~= bootstrap());
    out.extend(lines);
}

/// Appends [`sp_at_offset`].
pub fn emit_sp_at_offset(out: &mut Listing, depth: u16)
    requires
        old(out).wf(),
        old(out)@.room(2 + depth as nat),
    ensures
        final(out).wf(),
        final(out)@.follows(old(out)@, sp_at_offset(depth as nat)),
{
    let lines = vec![Line::at(Register::Sp), Line::set(Dest::A, Comp::M)];
    assert(views(lines@) =~= sp_at_offset(0));
    out.extend(lines);
    let mut i: u16 = 0;
    while i < depth
        invariant
            i <= depth,
            out.wf(),
            out@.follows(old(out)@, sp_at_offset(i as nat)),
            old(out)@.room(2 + depth as nat),
        decreases depth - i,
    {
        out.emit(Line::set(Dest::A, Comp::AMinusOne));
        proof {
            assert(sp_at_offset(i as nat) + seq![LineView::set(Dest::A, Comp::AMinusOne)]
                =~= sp_at_offset((i + 1) as nat));
            assert(out@.lines =~= old(out)@.lines + sp_at_offset((i + 1) as nat));
        }
        i += 1;
    }
}

} // verus!
