//! The labels that a listing declares, and when none of them is declared
//! twice.

use vstd::prelude::*;
use crate::assembler::{declares, labels_once};
use crate::assembly::LineView;
use crate::symbols::{generated_label, lemma_generated_labels_differ};

verus! {

/// The labels that `code[i..]` declares, in order.
pub open spec fn declared_from(code: Seq<LineView>, i: int) -> Seq<Seq<char>>
    decreases code.len() - i,
{
    if 0 <= i < code.len() {
        if code[i] is Label {
            seq![code[i]->Label_0] + declared_from(code, i + 1)
        } else {
            declared_from(code, i + 1)
        }
    } else {
        Seq::empty()
    }
}

/// The labels that `code` declares, in order.
pub open spec fn declared(code: Seq<LineView>) -> Seq<Seq<char>> {
    declared_from(code, 0)
}

/// True when `name` is a label of the generator with a number from `lo` up
/// to, not including, `hi`.
pub open spec fn is_generated(name: Seq<char>, lo: nat, hi: nat) -> bool {
    exists|tag: Seq<char>, id: nat| lo <= id < hi && name == #[trigger] generated_label(tag, id)
}

/// True when every name is a label of the generator with a number from `lo`
/// up to, not including, `hi`.
pub open spec fn generated_between(names: Seq<Seq<char>>, lo: nat, hi: nat) -> bool {
    forall|j: int| 0 <= j < names.len() ==> is_generated(#[trigger] names[j], lo, hi)
}

/// The tail of a concatenation, seen from inside its second part.
proof fn lemma_declared_second(a: Seq<LineView>, b: Seq<LineView>, i: int)
    requires
        0 <= i <= b.len(),
    ensures
        declared_from(a + b, a.len() + i) == declared_from(b, i),
    decreases b.len() - i,
{
    if i < b.len() {
        assert((a + b)[a.len() + i] == b[i]);
        lemma_declared_second(a, b, i + 1);
    }
}

/// A concatenation seen from inside its first part.
proof fn lemma_declared_first(a: Seq<LineView>, b: Seq<LineView>, i: int)
    requires
        0 <= i <= a.len(),
    ensures
        declared_from(a + b, i) == declared_from(a, i) + declared(b),
    decreases a.len() - i,
{
    if i < a.len() {
        assert((a + b)[i] == a[i]);
        lemma_declared_first(a, b, i + 1);
        assert(declared_from(a + b, i) =~= declared_from(a, i) + declared(b));
    } else {
        lemma_declared_second(a, b, 0);
        assert(declared_from(a + b, i) =~= declared_from(a, i) + declared(b));
    }
}

/// A concatenation declares the labels of its parts, one part after the
/// other.
pub proof fn lemma_declared_concat(a: Seq<LineView>, b: Seq<LineView>)
    ensures
        declared(a + b) == declared(a) + declared(b),
{
    lemma_declared_first(a, b, 0);
}

/// A label that a line declares is among the declared labels, behind the
/// labels of the lines before it.
proof fn lemma_declared_place(code: Seq<LineView>, i: int, name: Seq<char>)
    requires
        declares(code, i, name),
    ensures
        declared(code.take(i)).len() < declared(code).len(),
        declared(code)[declared(code.take(i)).len() as int] == name,
        forall|j: int| i < j <= code.len() ==> declared(code.take(i)).len() < declared(code.take(j)).len(),
{
    let front = code.take(i);
    let rest = code.skip(i);
    assert(code =~= front + rest);
    lemma_declared_concat(front, rest);
    assert(rest[0] == LineView::Label(name));
    assert(declared(rest)[0] == name);
    assert forall|j: int| i < j <= code.len() implies declared(code.take(i)).len() < declared(
        code.take(j),
    ).len() by {
        let middle = code.subrange(i, j);
        assert(code.take(j) =~= front + middle);
        lemma_declared_concat(front, middle);
        assert(middle[0] == LineView::Label(name));
        assert(declared(middle).len() >= 1);
    }
}

/// Where the declared labels hold no name twice, no label is declared
/// twice.
pub proof fn lemma_declared_once(code: Seq<LineView>)
    requires
        declared(code).no_duplicates(),
    ensures
        labels_once(code),
{
    assert forall|i: int, j: int, name: Seq<char>|
        declares(code, i, name) && declares(code, j, name) implies i == j by {
        lemma_declared_place(code, i, name);
        lemma_declared_place(code, j, name);
        if i < j {
            assert(declared(code.take(i)).len() < declared(code.take(j)).len());
        } else if j < i {
            assert(declared(code.take(j)).len() < declared(code.take(i)).len());
        }
    }
}

/// Labels of the generator from two ranges of numbers that do not overlap
/// stay free of repetitions when they are put together.
pub proof fn lemma_generated_apart(a: Seq<Seq<char>>, b: Seq<Seq<char>>, lo: nat, mid: nat, hi: nat)
    requires
        lo <= mid <= hi,
        a.no_duplicates(),
        b.no_duplicates(),
        generated_between(a, lo, mid),
        generated_between(b, mid, hi),
    ensures
        (a + b).no_duplicates(),
        generated_between(a + b, lo, hi),
{
    let both = a + b;
    assert forall|i: int, j: int| 0 <= i < both.len() && 0 <= j < both.len() && i != j implies both[i]
        != both[j] by {
        if i < a.len() && j >= a.len() {
            assert(is_generated(a[i], lo, mid));
            assert(is_generated(b[j - a.len()], mid, hi));
            let (tag_a, id_a) = choose|tag: Seq<char>, id: nat|
                lo <= id < mid && a[i] == #[trigger] generated_label(tag, id);
            let (tag_b, id_b) = choose|tag: Seq<char>, id: nat|
                mid <= id < hi && b[j - a.len()] == #[trigger] generated_label(tag, id);
            lemma_generated_labels_differ(tag_a, id_a, tag_b, id_b);
        } else if j < a.len() && i >= a.len() {
            assert(is_generated(a[j], lo, mid));
            assert(is_generated(b[i - a.len()], mid, hi));
            let (tag_a, id_a) = choose|tag: Seq<char>, id: nat|
                lo <= id < mid && a[j] == #[trigger] generated_label(tag, id);
            let (tag_b, id_b) = choose|tag: Seq<char>, id: nat|
                mid <= id < hi && b[i - a.len()] == #[trigger] generated_label(tag, id);
            lemma_generated_labels_differ(tag_a, id_a, tag_b, id_b);
        }
    }
    assert forall|j: int| 0 <= j < both.len() implies is_generated(#[trigger] both[j], lo, hi) by {
        if j < a.len() {
            assert(is_generated(a[j], lo, mid));
            let (tag, id) = choose|tag: Seq<char>, id: nat|
                lo <= id < mid && a[j] == #[trigger] generated_label(tag, id);
            assert(lo <= id < hi && both[j] == generated_label(tag, id));
        } else {
            assert(is_generated(b[j - a.len()], mid, hi));
            let (tag, id) = choose|tag: Seq<char>, id: nat|
                mid <= id < hi && b[j - a.len()] == #[trigger] generated_label(tag, id);
            assert(lo <= id < hi && both[j] == generated_label(tag, id));
        }
    }
}

/// Three labels of the generator with three different numbers from a range
/// hold no name twice.
pub proof fn lemma_three_generated(
    names: Seq<Seq<char>>,
    tags: (Seq<char>, Seq<char>, Seq<char>),
    ids: (nat, nat, nat),
    lo: nat,
    hi: nat,
)
    requires
        names == seq![
            generated_label(tags.0, ids.0),
            generated_label(tags.1, ids.1),
            generated_label(tags.2, ids.2),
        ],
        ids.0 != ids.1,
        ids.0 != ids.2,
        ids.1 != ids.2,
        lo <= ids.0 < hi,
        lo <= ids.1 < hi,
        lo <= ids.2 < hi,
    ensures
        names.no_duplicates(),
        generated_between(names, lo, hi),
{
    lemma_generated_labels_differ(tags.0, ids.0, tags.1, ids.1);
    lemma_generated_labels_differ(tags.0, ids.0, tags.2, ids.2);
    lemma_generated_labels_differ(tags.1, ids.1, tags.2, ids.2);
    assert(is_generated(names[0], lo, hi));
    assert(is_generated(names[1], lo, hi));
    assert(is_generated(names[2], lo, hi));
}

/// One label of the generator holds no name twice.
pub proof fn lemma_one_generated(names: Seq<Seq<char>>, tag: Seq<char>, id: nat, lo: nat, hi: nat)
    requires
        names == seq![generated_label(tag, id)],
        lo <= id < hi,
    ensures
        names.no_duplicates(),
        generated_between(names, lo, hi),
{
    assert(is_generated(names[0], lo, hi));
}

} // verus!
