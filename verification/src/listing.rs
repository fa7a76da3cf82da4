//! The sink that an emitter appends to: the lines emitted so far, and the
//! running number of the next instruction.

use vstd::prelude::*;
use crate::assembly::{
    count_instructions,
    lemma_count_concat,
    lemma_count_instructions,
    lemma_count_push,
    views,
    write_lines,
    written,
    Line,
    LineView,
};

verus! {

/// An append-only program listing.
pub struct Listing {
    lines: Vec<Line>,
    first: usize,
    next: usize,
}

/// What a [`Listing`] stands for: its lines, and the number that its first
/// instruction carries.
pub struct ListingView {
    pub lines: Seq<LineView>,
    pub first: nat,
}

impl ListingView {
    /// The number that the next instruction will carry.
    pub open spec fn next_index(self) -> nat {
        self.first + count_instructions(self.lines)
    }

    /// The listing with `more` appended.
    pub open spec fn plus(self, more: Seq<LineView>) -> ListingView {
        ListingView { lines: self.lines + more, first: self.first }
    }

    /// True when this listing is `before` with `more` appended. The number
    /// of the next instruction has then grown by no more than the number of
    /// lines of `more`.
    pub open spec fn follows(self, before: ListingView, more: Seq<LineView>) -> bool {
        &&& self == before.plus(more)
        &&& self.next_index() <= before.next_index() + more.len()
    }

    /// True when `n` more instructions can be numbered.
    pub open spec fn room(self, n: nat) -> bool {
        self.next_index() + n <= usize::MAX
    }

    /// The listing as text.
    pub open spec fn text(self) -> Seq<char> {
        written(self.lines, self.first)
    }
}

impl View for Listing {
    type V = ListingView;

    closed spec fn view(&self) -> ListingView {
        ListingView { lines: views(self.lines@), first: self.first as nat }
    }
}

impl Listing {
    /// The running number agrees with the lines.
    pub closed spec fn wf(&self) -> bool {
        self.next == self.first + count_instructions(views(self.lines@))
    }

    /// An empty listing whose first instruction will carry the number `first`.
    pub fn new(first: usize) -> (listing: Listing)
        ensures
            listing.wf(),
            listing@ == (ListingView { lines: Seq::empty(), first: first as nat }),
    {
        let listing = Listing { lines: Vec::new(), first, next: first };
        assert(views(listing.lines@) =~= Seq::<LineView>::empty());
        listing
    }

    /// The number that the next instruction will carry.
    pub fn next_index(&self) -> (n: usize)
        requires
            self.wf(),
        ensures
            n == self@.next_index(),
    {
        self.next
    }

    /// The number of lines.
    pub fn len(&self) -> (n: usize)
        ensures
            n == self@.lines.len(),
    {
        self.lines.len()
    }

    /// The lines emitted so far.
    pub fn lines(&self) -> (lines: &Vec<Line>)
        ensures
            views(lines@) == self@.lines,
    {
        &self.lines
    }

    /// Appends one line.
    pub fn emit(&mut self, line: Line)
        requires
            old(self).wf(),
            old(self)@.room(1),
        ensures
            final(self).wf(),
            final(self)@.follows(old(self)@, seq![line@]),
            !line@.is_instruction() ==> final(self)@.next_index() == old(self)@.next_index(),
    {
        proof {
            lemma_count_push(views(self.lines@), line@);
            assert(views(self.lines@.push(line)) =~= views(self.lines@).push(line@));
            assert(views(self.lines@).push(line@) =~= views(self.lines@) + seq![line@]);
        }
        if line.is_instruction() {
            self.next += 1;
        }
        self.lines.push(line);
    }

    /// Appends `lines` in order.
    pub fn extend(&mut self, lines: Vec<Line>)
        requires
            old(self).wf(),
            old(self)@.room(lines@.len()),
        ensures
            final(self).wf(),
            final(self)@.follows(old(self)@, views(lines@)),
    {
        let mut lines = lines;
        let ghost added = views(lines@);
        let mut i: usize = 0;
        let mut count: usize = 0;
        while i < lines.len()
            invariant
                i <= lines.len(),
                added == views(lines@),
                count == count_instructions(added.take(i as int)),
                count <= i,
            decreases lines.len() - i,
        {
            proof {
                assert(added.take(i + 1) =~= added.take(i as int).push(lines@[i as int]@));
                lemma_count_push(added.take(i as int), lines@[i as int]@);
            }
            if lines[i].is_instruction() {
                count += 1;
            }
            i += 1;
        }
        proof {
            assert(added.take(lines.len() as int) =~= added);
            lemma_count_concat(views(self.lines@), added);
            lemma_count_instructions(added);
            assert(views(self.lines@ + lines@) =~= views(self.lines@) + added);
        }
        self.next += count;
        self.lines.append(&mut lines);
    }

    /// The listing as text: see [`written`].
    pub fn text(&self) -> (text: String)
        requires
            self.wf(),
        ensures
            text@ == self@.text(),
    {
        write_lines(&self.lines, self.first)
    }
}

} // verus!
