//! Names for places in the emitted program.
//!
//! Three families of labels exist. Labels that the translator makes up for
//! its own branches are `_tag_Ln`, numbered by a [`SymbolGenerator`]. Return
//! addresses are `callee$ret.n`, numbered by a [`FuncEmitter`]. Labels that
//! the source program declares are written with the prefix `user_`.

use vstd::prelude::*;
use vstd::string::StringExecFns;
use crate::chars::{
    decimal,
    is_digit,
    lemma_decimal_digits,
    lemma_decimal_injective,
    push_decimal,
    whitespace_free,
};

verus! {

/// The label that the generator makes from `tag` as its `id`-th label: the
/// first label of a generator has the number one.
pub open spec fn generated_label(tag: Seq<char>, id: nat) -> Seq<char> {
    "_"@ + tag + "_L"@ + decimal(id)
}

/// The label that a generator makes from `tag` when it has made `made`
/// labels before: its number counts the label itself.
pub open spec fn next_label(tag: Seq<char>, made: nat) -> Seq<char> {
    generated_label(tag, made + 1)
}

/// The label of the return address of the `id`-th call site, a call of
/// `callee`.
pub open spec fn return_label(callee: Seq<char>, id: nat) -> Seq<char> {
    callee + "$ret."@ + decimal(id)
}

/// The label under which a label of the source program is emitted.
pub open spec fn user_label(name: Seq<char>) -> Seq<char> {
    "user_"@ + name
}

/// A text that ends in a character that is no digit, followed by a decimal
/// numeral, determines both the numeral's value and what stands before.
pub proof fn lemma_numbered_suffix(p: Seq<char>, a: nat, q: Seq<char>, b: nat)
    requires
        p.len() > 0,
        q.len() > 0,
        !is_digit(p.last()),
        !is_digit(q.last()),
        p + decimal(a) == q + decimal(b),
    ensures
        a == b,
        p == q,
{
    let da = decimal(a);
    let db = decimal(b);
    let s = p + da;
    let t = q + db;
    lemma_decimal_digits(a);
    lemma_decimal_digits(b);
    assert(s.len() == p.len() + da.len());
    assert(t.len() == q.len() + db.len());
    if da.len() < db.len() {
        let i = p.len() - 1;
        assert(s[i] == p.last());
        assert(t[i] == db[i - q.len()]);
        assert(is_digit(db[i - q.len()]));
    } else if db.len() < da.len() {
        let i = q.len() - 1;
        assert(t[i] == q.last());
        assert(s[i] == da[i - p.len()]);
        assert(is_digit(da[i - p.len()]));
    } else {
        assert(p.len() == q.len());
        assert(da =~= db) by {
            assert forall|i: int| 0 <= i < da.len() implies da[i] == db[i] by {
                assert(s[p.len() + i] == da[i]);
                assert(t[q.len() + i] == db[i]);
            }
        }
        lemma_decimal_injective(a, b);
        assert(p =~= q) by {
            assert forall|i: int| 0 <= i < p.len() implies p[i] == q[i] by {
                assert(s[i] == p[i]);
                assert(t[i] == q[i]);
            }
        }
    }
}

/// Two generated labels with different numbers differ, whatever their tags.
pub proof fn lemma_generated_labels_differ(tag_a: Seq<char>, a: nat, tag_b: Seq<char>, b: nat)
    requires
        a != b,
    ensures
        generated_label(tag_a, a) != generated_label(tag_b, b),
{
    reveal_strlit("_L");
    let p = "_"@ + tag_a + "_L"@;
    let q = "_"@ + tag_b + "_L"@;
    assert(p.last() == 'L');
    assert(q.last() == 'L');
    if generated_label(tag_a, a) == generated_label(tag_b, b) {
        lemma_numbered_suffix(p, a, q, b);
    }
}

/// Two return labels with different numbers differ, whatever their callees.
pub proof fn lemma_return_labels_differ(callee_a: Seq<char>, a: nat, callee_b: Seq<char>, b: nat)
    requires
        a != b,
    ensures
        return_label(callee_a, a) != return_label(callee_b, b),
{
    reveal_strlit("$ret.");
    let p = callee_a + "$ret."@;
    let q = callee_b + "$ret."@;
    assert(p.last() == '.');
    assert(q.last() == '.');
    if return_label(callee_a, a) == return_label(callee_b, b) {
        lemma_numbered_suffix(p, a, q, b);
    }
}

/// A generated label is never a return label nor the emitted form of a label
/// of the source program.
pub proof fn lemma_label_families_differ(tag: Seq<char>, a: nat, name: Seq<char>, b: nat)
    ensures
        generated_label(tag, a) != return_label(name, b),
        generated_label(tag, a) != user_label(name),
{
    reveal_strlit("_L");
    reveal_strlit("$ret.");
    reveal_strlit("_");
    reveal_strlit("user_");
    let p = "_"@ + tag + "_L"@;
    let q = name + "$ret."@;
    assert(p.last() == 'L');
    assert(q.last() == '.');
    if generated_label(tag, a) == return_label(name, b) {
        lemma_numbered_suffix(p, a, q, b);
        assert(p.last() == q.last());
    }
    assert(generated_label(tag, a)[0] == '_');
    assert(user_label(name)[0] == 'u');
}

/// The labels that a generator hands out for the tags `tags`, one after the
/// other, when it has made `from` labels before.
pub open spec fn labels_made(from: nat, tags: Seq<Seq<char>>) -> Seq<Seq<char>> {
    Seq::new(tags.len(), |i: int| next_label(tags[i], (from + i) as nat))
}

/// A generator never hands out the same label twice, whatever the tags.
pub proof fn lemma_labels_never_repeat(from: nat, tags: Seq<Seq<char>>)
    ensures
        labels_made(from, tags).no_duplicates(),
{
    let made = labels_made(from, tags);
    assert forall|i: int, j: int| 0 <= i < made.len() && 0 <= j < made.len() && i != j implies made[i]
        != made[j] by {
        lemma_generated_labels_differ(
            tags[i],
            (from + i + 1) as nat,
            tags[j],
            (from + j + 1) as nat,
        );
    }
}

/// A generator that goes on from the count at which another one stopped
/// hands out what that one would have handed out next: the labels of the two
/// together never repeat either.
pub proof fn lemma_labels_carry_over(from: nat, first: Seq<Seq<char>>, second: Seq<Seq<char>>)
    ensures
        labels_made(from, first) + labels_made(from + first.len(), second) == labels_made(
            from,
            first + second,
        ),
        (labels_made(from, first) + labels_made(from + first.len(), second)).no_duplicates(),
{
    assert(labels_made(from, first) + labels_made(from + first.len(), second) =~= labels_made(
        from,
        first + second,
    ));
    lemma_labels_never_repeat(from, first + second);
}

/// The source of the translator's own labels: each label carries the number
/// of labels made so far, itself included.
#[derive(Clone, Copy, Debug)]
pub struct SymbolGenerator {
    count: usize,
}

impl View for SymbolGenerator {
    type V = nat;

    /// The number of labels made so far.
    closed spec fn view(&self) -> nat {
        self.count as nat
    }
}

impl SymbolGenerator {
    /// A generator that has made no label yet.
    pub fn new() -> (g: SymbolGenerator)
        ensures
            g@ == 0,
    {
        SymbolGenerator { count: 0 }
    }

    /// A generator that goes on as if it had made `made` labels.
    pub fn resume(made: usize) -> (g: SymbolGenerator)
        ensures
            g@ == made,
    {
        SymbolGenerator { count: made }
    }

    /// The number of labels made so far.
    pub fn made(&self) -> (n: usize)
        ensures
            n == self@,
    {
        self.count
    }

    /// Makes the next label, `_tag_Ln`, where `tag` is `label_start` and `n`
    /// the number of labels made so far, this one included: the first label
    /// of a new generator has the number one. No later call returns the same
    /// text: see [`lemma_generated_labels_differ`].
    pub fn next_commented(&mut self, label_start: &str) -> (label: String)
        requires
            whitespace_free(label_start@),
            old(self)@ < usize::MAX,
        ensures
            label@ == generated_label(label_start@, old(self)@ + 1),
            final(self)@ == old(self)@ + 1,
    {
        let mut out = String::from_str("_");
        out.append(label_start);
        out.append("_L");
        self.count += 1;
        push_decimal(&mut out, self.count as u64);
        out
    }
}

/// The counters of the calling convention: how many call sites and how many
/// returns have been numbered.
#[derive(Clone, Copy, Debug)]
pub struct FuncEmitter {
    returns: usize,
    calls: usize,
}

/// What a [`FuncEmitter`] stands for.
pub struct FuncEmitterView {
    pub returns: nat,
    pub calls: nat,
}

impl View for FuncEmitter {
    type V = FuncEmitterView;

    closed spec fn view(&self) -> FuncEmitterView {
        FuncEmitterView { returns: self.returns as nat, calls: self.calls as nat }
    }
}

impl FuncEmitter {
    /// Counters that have numbered nothing yet.
    pub fn new() -> (f: FuncEmitter)
        ensures
            f@ == (FuncEmitterView { returns: 0, calls: 0 }),
    {
        FuncEmitter { returns: 0, calls: 0 }
    }

    /// Counters that go on as if they had numbered `done` returns and
    /// `calls` call sites.
    pub fn resume(done: usize, calls: usize) -> (f: FuncEmitter)
        ensures
            f@ == (FuncEmitterView { returns: done as nat, calls: calls as nat }),
    {
        FuncEmitter { returns: done, calls }
    }

    /// The number of returns numbered so far.
    pub fn returns_done(&self) -> (n: usize)
        ensures
            n == self@.returns,
    {
        self.returns
    }

    /// The number of call sites numbered so far.
    pub fn calls(&self) -> (n: usize)
        ensures
            n == self@.calls,
    {
        self.calls
    }

    /// The number for a new call site: as many as were numbered before.
    pub fn call(&mut self) -> (id: usize)
        requires
            old(self)@.calls < usize::MAX,
        ensures
            id == old(self)@.calls,
            final(self)@ == (FuncEmitterView { calls: old(self)@.calls + 1, ..old(self)@ }),
    {
        let id = self.calls;
        self.calls += 1;
        id
    }

    /// The number for a new return: as many as were numbered before.
    pub fn ret(&mut self) -> (id: usize)
        requires
            old(self)@.returns < usize::MAX,
        ensures
            id == old(self)@.returns,
            final(self)@ == (FuncEmitterView { returns: old(self)@.returns + 1, ..old(self)@ }),
    {
        let id = self.returns;
        self.returns += 1;
        id
    }

    /// The label of the return address of the call site `id`, a call of
    /// `callee`.
    pub fn return_symbol(callee: &str, id: usize) -> (label: String)
        ensures
            label@ == return_label(callee@, id as nat),
    {
        let mut out = String::from_str(callee);
        out.append("$ret.");
        push_decimal(&mut out, id as u64);
        out
    }
}

/// The emitted form of the source program's label `name`.
pub fn user_symbol(name: &str) -> (label: String)
    ensures
        label@ == user_label(name@),
{
    let mut out = String::from_str("user_");
    out.append(name);
    out
}

} // verus!
