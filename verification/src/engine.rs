//! The engine: an explicit value holding the interned-symbol tables and the
//! lifecycle state.  Its methods are the narrow set of primitives that atoms
//! and functors are built from, each verified against the transitions of
//! [`crate::model`].

use vstd::prelude::*;

use crate::model::{
    acquire_model, can_intern, can_intern_pair, cons_text, find_pair, find_text, fresh_model,
    init_model, intern_model, intern_pair_model, lemma_find_pair, lemma_find_text,
    lemma_init_model_wf, lemma_intern_model_wf, lemma_intern_pair_model_wf, nil_text,
    release_model, EngineModel,
};

verus! {

/// One interned (name token, arity) pair.
struct Pair {
    name: usize,
    arity: usize,
}

/// The symbol-table engine: lifecycle counters, the interned-text table with
/// its reference counts, and the interned pair table.
pub struct Engine {
    ready: bool,
    bringups: u64,
    attaches: u64,
    attached: Vec<u64>,
    texts: Vec<String>,
    counts: Vec<u64>,
    pairs: Vec<Pair>,
}

/// The mathematical contents of a text table.
pub open spec fn texts_view(texts: Seq<String>) -> Seq<Seq<char>> {
    Seq::new(texts.len(), |i: int| texts[i]@)
}

impl View for Engine {
    type V = EngineModel;

    closed spec fn view(&self) -> EngineModel {
        EngineModel {
            ready: self.ready,
            bringups: self.bringups as nat,
            attaches: self.attaches as nat,
            attached: self.attached@,
            texts: texts_view(self.texts@),
            counts: Seq::new(self.counts@.len(), |i: int| self.counts@[i] as nat),
            pairs: Seq::new(
                self.pairs@.len(),
                |i: int| (self.pairs@[i].name as nat, self.pairs@[i].arity as nat),
            ),
        }
    }
}

/// Whether `thread` occurs in `v`.
fn contains_thread(v: &Vec<u64>, thread: u64) -> (r: bool)
    ensures
        r == v@.contains(thread),
{
    let n = v.len();
    let mut i: usize = 0;
    while i < n
        invariant
            n == v@.len(),
            i <= n,
            forall|j: int| 0 <= j < i ==> v@[j] != thread,
        decreases n - i,
    {
        if v[i] == thread {
            assert(v@.contains(thread)) by {
                assert(v@[i as int] == thread);
            }
            return true;
        }
        i += 1;
    }
    false
}

impl Engine {
    /// A fresh engine: not brought up, no threads attached, empty tables.
    pub fn new() -> (e: Engine)
        ensures
            e@ == fresh_model(),
            e@.wf(),
    {
        let e = Engine {
            ready: false,
            bringups: 0,
            attaches: 0,
            attached: Vec::new(),
            texts: Vec::new(),
            counts: Vec::new(),
            pairs: Vec::new(),
        };
        proof {
            assert(e@ =~= fresh_model());
        }
        e
    }

    /// The ready-check: brings the engine up on the very first call (interning
    /// the two well-known symbols and attaching the calling thread), attaches
    /// `thread` on its own first call after that, and otherwise does nothing.
    pub fn init(&mut self, thread: u64)
        requires
            old(self)@.wf(),
        ensures
            final(self)@ == init_model(old(self)@, thread),
            final(self)@.wf(),
            final(self)@.ready,
    {
        proof {
            lemma_init_model_wf(old(self)@, thread);
        }
        if !self.ready {
            self.ready = true;
            self.bringups = self.bringups + 1;
            self.attached.push(thread);
            self.texts.push(String::from_str("[|]"));
            self.texts.push(String::from_str("[]"));
            self.counts.push(1);
            self.counts.push(1);
            proof {
                assert(self@.texts =~= seq![cons_text(), nil_text()]);
                assert(self@.counts =~= seq![1nat, 1nat]);
                assert(self@ =~= init_model(old(self)@, thread));
            }
        } else {
            let attached_already = contains_thread(&self.attached, thread);
            if !attached_already {
                let n = self.attached.len();
                proof {
                    assert(self.attaches as nat + 1 == n as nat);
                }
                self.attaches = self.attaches + 1;
                self.attached.push(thread);
                proof {
                    assert(self@ =~= init_model(old(self)@, thread));
                }
            } else {
                proof {
                    assert(self@ =~= init_model(old(self)@, thread));
                }
            }
        }
    }

    /// Searches the text table for `text`, mirroring [`find_text`].
    fn find_text_exec(texts: &Vec<String>, text: &String) -> (r: Option<usize>)
        requires
            forall|i: int, j: int|
                0 <= i < j < texts@.len() ==> texts@[i]@ != texts@[j]@,
        ensures
            ({
                let f = find_text(texts_view(texts@), text@);
                match r {
                    Option::None => f == -1,
                    Option::Some(i) => f == i as int,
                }
            }),
    {
        proof {
            lemma_find_text(texts_view(texts@), text@);
        }
        let n = texts.len();
        let mut i: usize = 0;
        while i < n
            invariant
                n == texts@.len(),
                i <= n,
                forall|i2: int, j2: int|
                    0 <= i2 < j2 < texts@.len() ==> texts@[i2]@ != texts@[j2]@,
                forall|j: int| 0 <= j < i ==> texts@[j]@ != text@,
            decreases n - i,
        {
            if texts[i] == *text {
                proof {
                    lemma_find_text(texts_view(texts@), text@);
                    assert(texts_view(texts@)[i as int] == text@);
                }
                return Some(i);
            }
            i += 1;
        }
        None
    }

    /// Interns `s`: a fresh entry with one reference-count unit, or one more
    /// unit on the existing entry for the same text.
    pub fn intern_text(&mut self, s: &str) -> (token: usize)
        requires
            old(self)@.wf(),
            old(self)@.ready,
            can_intern(old(self)@, s@),
        ensures
            final(self)@ == intern_model(old(self)@, s@).0,
            token as int == intern_model(old(self)@, s@).1,
            final(self)@.wf(),
    {
        proof {
            lemma_intern_model_wf(old(self)@, s@);
        }
        let text = String::from_str(s);
        proof {
            assert(forall|i: int|
                0 <= i < self.texts@.len() ==> self@.texts[i] == #[trigger] self.texts@[i]@);
        }
        match Self::find_text_exec(&self.texts, &text) {
            Some(i) => {
                let c = self.counts[i];
                self.counts[i] = c + 1;
                proof {
                    assert(self@ =~= intern_model(old(self)@, s@).0);
                }
                i
            },
            None => {
                let token = self.texts.len();
                self.texts.push(text);
                self.counts.push(1);
                proof {
                    assert(self@ =~= intern_model(old(self)@, s@).0);
                }
                token
            },
        }
    }

    /// Reads back the text denoted by `token`; the reference count does not
    /// change.
    pub fn lookup_text(&self, token: usize) -> (r: String)
        requires
            self@.wf(),
            token < self@.texts.len(),
        ensures
            r@ == self@.texts[token as int],
    {
        self.texts[token].clone()
    }

    /// One more reference-count unit on `token`.
    pub fn acquire(&mut self, token: usize)
        requires
            old(self)@.wf(),
            token < old(self)@.counts.len(),
            old(self)@.counts[token as int] < u64::MAX,
        ensures
            final(self)@ == acquire_model(old(self)@, token as int),
            final(self)@.wf(),
    {
        let c = self.counts[token];
        self.counts[token] = c + 1;
        proof {
            crate::model::lemma_count_ops_wf(old(self)@, token as int);
            assert(self@ =~= acquire_model(old(self)@, token as int));
        }
    }

    /// One reference-count unit on `token` given back.
    pub fn release(&mut self, token: usize)
        requires
            old(self)@.wf(),
            token < old(self)@.counts.len(),
            old(self)@.counts[token as int] >= 1,
        ensures
            final(self)@ == release_model(old(self)@, token as int),
            final(self)@.wf(),
    {
        let c = self.counts[token];
        self.counts[token] = c - 1;
        proof {
            crate::model::lemma_count_ops_wf(old(self)@, token as int);
            assert(self@ =~= release_model(old(self)@, token as int));
        }
    }

    /// Searches the pair table for `(name, arity)`, mirroring [`find_pair`].
    fn find_pair_exec(pairs: &Vec<Pair>, name: usize, arity: usize) -> (r: Option<usize>)
        requires
            forall|k: int, l: int|
                0 <= k < l < pairs@.len()
                    ==> (pairs@[k].name, pairs@[k].arity) != (pairs@[l].name, pairs@[l].arity),
        ensures
            ({
                let f = find_pair(
                    Seq::new(pairs@.len(), |i: int| (pairs@[i].name as nat, pairs@[i].arity as nat)),
                    name as nat,
                    arity as nat,
                );
                match r {
                    Option::None => f == -1,
                    Option::Some(k) => f == k as int,
                }
            }),
    {
        let ghost pv = Seq::new(
            pairs@.len(),
            |i: int| (pairs@[i].name as nat, pairs@[i].arity as nat),
        );
        proof {
            lemma_find_pair(pv, name as nat, arity as nat);
        }
        let n = pairs.len();
        let mut i: usize = 0;
        while i < n
            invariant
                n == pairs@.len(),
                i <= n,
                pv == Seq::new(
                    pairs@.len(),
                    |i2: int| (pairs@[i2].name as nat, pairs@[i2].arity as nat),
                ),
                forall|k: int, l: int|
                    0 <= k < l < pairs@.len()
                        ==> (pairs@[k].name, pairs@[k].arity) != (pairs@[l].name, pairs@[l].arity),
                forall|j: int| 0 <= j < i ==> pv[j] != (name as nat, arity as nat),
            decreases n - i,
        {
            if pairs[i].name == name && pairs[i].arity == arity {
                proof {
                    lemma_find_pair(pv, name as nat, arity as nat);
                    assert(pv[i as int] == (name as nat, arity as nat));
                    assert(forall|k: int, l: int|
                        0 <= k < l < pv.len() ==> pv[k] != pv[l]) by {
                        assert(forall|k: int| 0 <= k < pv.len()
                            ==> #[trigger] pv[k] == (pairs@[k].name as nat, pairs@[k].arity as nat));
                    }
                }
                return Some(i);
            }
            i += 1;
        }
        None
    }

    /// Interns the pair `(name, arity)`; the pair table holds no reference
    /// counts, so an existing pair is returned unchanged.
    pub fn intern_pair(&mut self, name: usize, arity: usize) -> (token: usize)
        requires
            old(self)@.wf(),
            old(self)@.ready,
            name < old(self)@.texts.len(),
            can_intern_pair(old(self)@, name as nat, arity as nat),
        ensures
            final(self)@ == intern_pair_model(old(self)@, name as nat, arity as nat).0,
            token as int == intern_pair_model(old(self)@, name as nat, arity as nat).1,
            final(self)@.wf(),
    {
        proof {
            lemma_intern_pair_model_wf(old(self)@, name as nat, arity as nat);
        }
        proof {
            assert forall|k: int, l: int| 0 <= k < l < self.pairs@.len()
                implies ((#[trigger] self.pairs@[k]).name, self.pairs@[k].arity)
                    != ((#[trigger] self.pairs@[l]).name, self.pairs@[l].arity) by {
                assert(self@.pairs[k] == (self.pairs@[k].name as nat, self.pairs@[k].arity as nat));
                assert(self@.pairs[l] == (self.pairs@[l].name as nat, self.pairs@[l].arity as nat));
                assert(self@.pairs[k] != self@.pairs[l]);
            }
        }
        match Self::find_pair_exec(&self.pairs, name, arity) {
            Some(k) => {
                proof {
                    assert(self@ =~= intern_pair_model(old(self)@, name as nat, arity as nat).0);
                }
                k
            },
            None => {
                let token = self.pairs.len();
                self.pairs.push(Pair { name, arity });
                proof {
                    assert(self@ =~= intern_pair_model(old(self)@, name as nat, arity as nat).0);
                }
                token
            },
        }
    }

    /// Reads the arity component of the pair denoted by `token`.
    pub fn pair_arity(&self, token: usize) -> (r: usize)
        requires
            self@.wf(),
            token < self@.pairs.len(),
        ensures
            r as nat == self@.pairs[token as int].1,
    {
        self.pairs[token].arity
    }

    /// Reads the name-token component of the pair denoted by `token`.
    pub fn pair_name(&self, token: usize) -> (r: usize)
        requires
            self@.wf(),
            token < self@.pairs.len(),
        ensures
            r as nat == self@.pairs[token as int].0,
            r < self@.texts.len(),
    {
        proof {
            assert(self@.pairs[token as int]
                == (self.pairs@[token as int].name as nat, self.pairs@[token as int].arity as nat));
            assert(self@.pairs[token as int].0 < self@.texts.len());
        }
        self.pairs[token].name
    }

    /// Whether process-wide bring-up has completed.
    pub fn is_ready(&self) -> (r: bool)
        ensures
            r == self@.ready,
    {
        self.ready
    }

    /// How many global bring-up events have happened.
    pub fn bringup_count(&self) -> (r: u64)
        ensures
            r as nat == self@.bringups,
    {
        self.bringups
    }

    /// How many per-thread attachment events have happened.
    pub fn attach_count(&self) -> (r: u64)
        ensures
            r as nat == self@.attaches,
    {
        self.attaches
    }

    /// Whether `thread` may use the tables.
    pub fn thread_attached(&self, thread: u64) -> (r: bool)
        ensures
            r == self@.attached.contains(thread),
    {
        contains_thread(&self.attached, thread)
    }

    /// The number of outstanding reference-count units on `token`.
    pub fn ref_count(&self, token: usize) -> (r: u64)
        requires
            token < self@.counts.len(),
        ensures
            r as nat == self@.counts[token as int],
    {
        self.counts[token]
    }
}

} // verus!
