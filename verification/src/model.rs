//! The mathematical model of the external symbol-table engine: its lifecycle
//! counters and its two interning tables.  Every executable operation of the
//! crate is specified as one of the transitions below.

use vstd::prelude::*;

verus! {

/// The token of the well-known list-constructor symbol.
pub const CONS_TOKEN: usize = 0;

/// The token of the well-known empty-list symbol.
pub const NIL_TOKEN: usize = 1;

/// The text denoted by the list-constructor symbol.
pub open spec fn cons_text() -> Seq<char> {
    "[|]"@
}

/// The text denoted by the empty-list symbol.
pub open spec fn nil_text() -> Seq<char> {
    "[]"@
}

/// The state of the engine: lifecycle flags and counters, the interned-text
/// table with its reference counts, and the interned (name, arity) pair table.
#[verifier::ext_equal]
pub struct EngineModel {
    /// Whether process-wide bring-up has completed.
    pub ready: bool,
    /// How many global bring-up events have happened.
    pub bringups: nat,
    /// How many per-thread attachment events have happened.
    pub attaches: nat,
    /// The distinct threads that may use the tables.  The thread that performs
    /// bring-up is attached by bring-up itself, without a separate event.
    pub attached: Seq<u64>,
    /// The interned texts, indexed by token.
    pub texts: Seq<Seq<char>>,
    /// The outstanding reference-count units, one slot per token.
    pub counts: Seq<nat>,
    /// The interned (name token, arity) pairs, indexed by pair token.
    pub pairs: Seq<(nat, nat)>,
}

impl EngineModel {
    /// The engine's invariant: tables are deduplicated and consistent, and the
    /// lifecycle counters record exactly one bring-up once ready and one
    /// attachment event per attached thread beyond the bring-up thread.
    pub open spec fn wf(self) -> bool {
        &&& self.counts.len() == self.texts.len()
        &&& forall|i: int, j: int|
            0 <= i < j < self.texts.len() ==> self.texts[i] != self.texts[j]
        &&& forall|k: int|
            0 <= k < self.pairs.len() ==> (#[trigger] self.pairs[k]).0 < self.texts.len()
        &&& forall|k: int, l: int|
            0 <= k < l < self.pairs.len() ==> self.pairs[k] != self.pairs[l]
        &&& self.bringups == if self.ready { 1nat } else { 0nat }
        &&& forall|i: int, j: int|
            0 <= i < j < self.attached.len() ==> self.attached[i] != self.attached[j]
        &&& if self.ready {
            self.attached.len() == self.attaches + 1
        } else {
            self.attached.len() == 0 && self.attaches == 0
        }
        &&& !self.ready ==> self.texts.len() == 0 && self.pairs.len() == 0
        &&& self.ready ==> self.texts.len() >= 2 && self.texts[CONS_TOKEN as int] == cons_text()
            && self.texts[NIL_TOKEN as int] == nil_text()
    }
}

/// The state before anything has run: not ready, empty tables.
pub open spec fn fresh_model() -> EngineModel {
    EngineModel {
        ready: false,
        bringups: 0,
        attaches: 0,
        attached: Seq::empty(),
        texts: Seq::empty(),
        counts: Seq::empty(),
        pairs: Seq::empty(),
    }
}

/// One call of the ready-check from `thread`: the first call anywhere performs
/// bring-up (which pre-interns the two well-known symbols and attaches the
/// calling thread); the first call from any later thread attaches it; every
/// other call changes nothing.
pub open spec fn init_model(m: EngineModel, thread: u64) -> EngineModel {
    if !m.ready {
        EngineModel {
            ready: true,
            bringups: m.bringups + 1,
            attached: m.attached.push(thread),
            texts: seq![cons_text(), nil_text()],
            counts: seq![1nat, 1nat],
            ..m
        }
    } else if !m.attached.contains(thread) {
        EngineModel { attaches: m.attaches + 1, attached: m.attached.push(thread), ..m }
    } else {
        m
    }
}

proof fn lemma_cons_nil_texts_differ()
    ensures
        cons_text() != nil_text(),
        cons_text().len() == 3,
        nil_text().len() == 2,
{
    reveal_strlit("[|]");
    reveal_strlit("[]");
    assert(cons_text().len() == 3);
    assert(nil_text().len() == 2);
}

/// Idempotent bring-up: one call of the ready-check from `thread` reaches a
/// ready state with exactly one bring-up event and `thread` attached; a
/// second call from the same thread changes nothing.
pub proof fn lemma_init_idempotent(m: EngineModel, thread: u64)
    requires
        m.wf(),
    ensures
        init_model(m, thread).ready,
        init_model(m, thread).bringups == 1,
        init_model(m, thread).attached.contains(thread),
        init_model(init_model(m, thread), thread) == init_model(m, thread),
{
    let m1 = init_model(m, thread);
    if !m.ready || !m.attached.contains(thread) {
        assert(m1.attached.contains(thread)) by {
            assert(m1.attached[m1.attached.len() - 1] == thread);
        }
    }
}

/// `intern_model` preserves the invariant, and its token denotes `s`.
pub proof fn lemma_intern_model_wf(m: EngineModel, s: Seq<char>)
    requires
        m.wf(),
        m.ready,
    ensures
        ({
            let (m2, t) = intern_model(m, s);
            &&& m2.wf()
            &&& m2.ready
            &&& 0 <= t < m2.texts.len()
            &&& m2.texts[t] == s
            &&& m2.pairs == m.pairs
            &&& m2.attached == m.attached
            &&& m2.attaches == m.attaches
            &&& m2.bringups == m.bringups
        }),
{
    lemma_find_text(m.texts, s);
}

/// `acquire_model` and `release_model` preserve the invariant and touch only
/// the one count slot.
pub proof fn lemma_count_ops_wf(m: EngineModel, t: int)
    requires
        m.wf(),
        0 <= t < m.counts.len(),
    ensures
        acquire_model(m, t).wf(),
        release_model(m, t).wf(),
        acquire_model(m, t).texts == m.texts,
        release_model(m, t).texts == m.texts,
        acquire_model(m, t).pairs == m.pairs,
        release_model(m, t).pairs == m.pairs,
{
}

/// `intern_pair_model` preserves the invariant; its token denotes the pair,
/// and the text table is untouched.
pub proof fn lemma_intern_pair_model_wf(m: EngineModel, name: nat, arity: nat)
    requires
        m.wf(),
        m.ready,
        name < m.texts.len(),
    ensures
        ({
            let (m2, k) = intern_pair_model(m, name, arity);
            &&& m2.wf()
            &&& m2.ready
            &&& 0 <= k < m2.pairs.len()
            &&& m2.pairs[k] == (name, arity)
            &&& m2.texts == m.texts
            &&& m2.counts == m.counts
        }),
{
    lemma_find_pair(m.pairs, name, arity);
}

/// The token under which `s` is interned in `texts`, or `-1` if it is not.
pub open spec fn find_text(texts: Seq<Seq<char>>, s: Seq<char>) -> int
    decreases texts.len(),
{
    if texts.len() == 0 {
        -1
    } else if texts.last() == s {
        texts.len() - 1
    } else {
        find_text(texts.drop_last(), s)
    }
}

/// `find_text` returns a valid token exactly when `s` is present.
pub proof fn lemma_find_text(texts: Seq<Seq<char>>, s: Seq<char>)
    ensures
        find_text(texts, s) == -1 ==> forall|i: int| 0 <= i < texts.len() ==> texts[i] != s,
        find_text(texts, s) != -1 ==> 0 <= find_text(texts, s) < texts.len()
            && texts[find_text(texts, s)] == s,
    decreases texts.len(),
{
    if texts.len() > 0 && texts.last() != s {
        lemma_find_text(texts.drop_last(), s);
        assert(forall|i: int|
            0 <= i < texts.len() - 1 ==> #[trigger] texts[i] == texts.drop_last()[i]);
    }
}

/// Whether the machine-sized table and counters have room to intern `s`.
pub open spec fn can_intern(m: EngineModel, s: Seq<char>) -> bool {
    let i = find_text(m.texts, s);
    if i == -1 {
        m.texts.len() < usize::MAX
    } else {
        m.counts[i] < u64::MAX
    }
}

/// Interning is possible whenever the text table is not full and no count
/// slot has been exhausted.
pub proof fn lemma_can_intern(m: EngineModel, s: Seq<char>)
    requires
        m.texts.len() < usize::MAX,
        forall|i: int| 0 <= i < m.counts.len() ==> m.counts[i] < u64::MAX,
        m.counts.len() == m.texts.len(),
    ensures
        can_intern(m, s),
{
    lemma_find_text(m.texts, s);
}

/// Interning `s`: a new entry with one reference-count unit if the text is
/// fresh, one more unit on the existing entry otherwise.  Returns the new
/// state and the token.
pub open spec fn intern_model(m: EngineModel, s: Seq<char>) -> (EngineModel, int) {
    let i = find_text(m.texts, s);
    if i == -1 {
        (EngineModel { texts: m.texts.push(s), counts: m.counts.push(1nat), ..m },
        m.texts.len() as int)
    } else {
        (EngineModel { counts: m.counts.update(i, m.counts[i] + 1), ..m }, i)
    }
}

/// One more reference-count unit on token `t`.
pub open spec fn acquire_model(m: EngineModel, t: int) -> EngineModel {
    EngineModel { counts: m.counts.update(t, m.counts[t] + 1), ..m }
}

/// One reference-count unit on token `t` given back.
pub open spec fn release_model(m: EngineModel, t: int) -> EngineModel {
    EngineModel { counts: m.counts.update(t, (m.counts[t] - 1) as nat), ..m }
}

/// The pair token under which `(name, arity)` is interned, or `-1`.
pub open spec fn find_pair(pairs: Seq<(nat, nat)>, name: nat, arity: nat) -> int
    decreases pairs.len(),
{
    if pairs.len() == 0 {
        -1
    } else if pairs.last() == (name, arity) {
        pairs.len() - 1
    } else {
        find_pair(pairs.drop_last(), name, arity)
    }
}

/// `find_pair` returns a valid pair token exactly when the pair is present.
pub proof fn lemma_find_pair(pairs: Seq<(nat, nat)>, name: nat, arity: nat)
    ensures
        find_pair(pairs, name, arity) == -1 ==> forall|k: int|
            0 <= k < pairs.len() ==> pairs[k] != (name, arity),
        find_pair(pairs, name, arity) != -1 ==> 0 <= find_pair(pairs, name, arity) < pairs.len()
            && pairs[find_pair(pairs, name, arity)] == (name, arity),
    decreases pairs.len(),
{
    if pairs.len() > 0 && pairs.last() != (name, arity) {
        lemma_find_pair(pairs.drop_last(), name, arity);
        assert(forall|k: int|
            0 <= k < pairs.len() - 1 ==> #[trigger] pairs[k] == pairs.drop_last()[k]);
    }
}

/// Whether the machine-sized pair table has room to intern one more pair.
pub open spec fn can_intern_pair(m: EngineModel, name: nat, arity: nat) -> bool {
    find_pair(m.pairs, name, arity) != -1 || m.pairs.len() < usize::MAX
}

/// Interning the pair `(name, arity)`: a new entry if the pair is fresh, the
/// existing token otherwise.  The pair table has no reference counts.
pub open spec fn intern_pair_model(m: EngineModel, name: nat, arity: nat) -> (EngineModel, int) {
    let k = find_pair(m.pairs, name, arity);
    if k == -1 {
        (EngineModel { pairs: m.pairs.push((name, arity)), ..m }, m.pairs.len() as int)
    } else {
        (m, k)
    }
}

/// `init_model` preserves the invariant and reaches the ready state.
pub proof fn lemma_init_model_wf(m: EngineModel, thread: u64)
    requires
        m.wf(),
    ensures
        init_model(m, thread).wf(),
        init_model(m, thread).ready,
{
    lemma_cons_nil_texts_differ();
}

} // verus!
