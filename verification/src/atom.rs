//! Atoms: owning handles to entries of the engine's interned-string table.

use vstd::prelude::*;

use crate::engine::Engine;
use crate::escape::{escape_text, escaped};
use crate::functor::Functor;
use crate::model::{
    acquire_model, can_intern, can_intern_pair, cons_text, init_model, intern_model,
    intern_pair_model, lemma_intern_model_wf, nil_text, release_model, EngineModel, CONS_TOKEN,
    NIL_TOKEN,
};

verus! {

/// An interned string: an owning handle to one entry of the engine's text
/// table.  Every live `Atom` holds exactly one reference-count unit on its
/// token; handles are duplicated with [`Atom::clone`] (which takes one more
/// unit) and consumed with [`Atom::release`] (which gives one back).
pub struct Atom {
    pub(crate) token: usize,
}

impl Atom {
    /// The token this handle denotes.
    pub closed spec fn token(&self) -> int {
        self.token as int
    }

    /// Whether the handle denotes an entry of `m`'s text table.
    pub open spec fn valid(&self, m: EngineModel) -> bool {
        0 <= self.token() < m.texts.len()
    }

    /// The text this handle denotes in `m`.
    pub open spec fn denotes(&self, m: EngineModel) -> Seq<char> {
        m.texts[self.token()]
    }

    /// Wraps a token whose reference-count unit is already taken as an
    /// owning handle.
    pub(crate) fn from_token(token: usize) -> (a: Atom)
        ensures
            a.token() == token as int,
    {
        Atom { token }
    }

    /// The raw token value.
    pub(crate) fn token_value(&self) -> (t: usize)
        ensures
            t as int == self.token(),
    {
        self.token
    }

    /// Creates a new `Atom` denoting `s`: makes the engine ready, interns
    /// `s`, and takes the one reference-count unit the handle owns.
    pub fn new(engine: &mut Engine, thread: u64, s: &str) -> (a: Atom)
        requires
            old(engine)@.wf(),
            can_intern(init_model(old(engine)@, thread), s@),
        ensures
            final(engine)@ == intern_model(init_model(old(engine)@, thread), s@).0,
            final(engine)@.wf(),
            a.token() == intern_model(init_model(old(engine)@, thread), s@).1,
            a.valid(final(engine)@),
            a.denotes(final(engine)@) == s@,
    {
        crate::init(engine, thread);
        proof {
            lemma_intern_model_wf(engine@, s@);
        }
        let token = engine.intern_text(s);
        Atom { token }
    }

    /// The `Atom` denoting the well-known list-constructor symbol, with one
    /// more reference-count unit taken on its fixed token.
    pub fn cons(engine: &mut Engine, thread: u64) -> (a: Atom)
        requires
            old(engine)@.wf(),
            init_model(old(engine)@, thread).counts[CONS_TOKEN as int] < u64::MAX,
        ensures
            final(engine)@ == acquire_model(init_model(old(engine)@, thread), CONS_TOKEN as int),
            final(engine)@.wf(),
            a.token() == CONS_TOKEN,
            a.valid(final(engine)@),
            a.denotes(final(engine)@) == cons_text(),
    {
        crate::init(engine, thread);
        proof {
            crate::model::lemma_count_ops_wf(engine@, CONS_TOKEN as int);
        }
        engine.acquire(CONS_TOKEN);
        Atom { token: CONS_TOKEN }
    }

    /// The `Atom` denoting the well-known empty-list symbol, with one more
    /// reference-count unit taken on its fixed token.
    pub fn nil(engine: &mut Engine, thread: u64) -> (a: Atom)
        requires
            old(engine)@.wf(),
            init_model(old(engine)@, thread).counts[NIL_TOKEN as int] < u64::MAX,
        ensures
            final(engine)@ == acquire_model(init_model(old(engine)@, thread), NIL_TOKEN as int),
            final(engine)@.wf(),
            a.token() == NIL_TOKEN,
            a.valid(final(engine)@),
            a.denotes(final(engine)@) == nil_text(),
    {
        crate::init(engine, thread);
        proof {
            crate::model::lemma_count_ops_wf(engine@, NIL_TOKEN as int);
        }
        engine.acquire(NIL_TOKEN);
        Atom { token: NIL_TOKEN }
    }

    /// Duplicates the handle: one more reference-count unit on the same
    /// token.  Every copy must come from here, never from a plain bit-copy.
    pub fn clone(&self, engine: &mut Engine) -> (a: Atom)
        requires
            old(engine)@.wf(),
            self.valid(old(engine)@),
            old(engine)@.counts[self.token()] < u64::MAX,
        ensures
            final(engine)@ == acquire_model(old(engine)@, self.token()),
            final(engine)@.wf(),
            a.token() == self.token(),
            a.valid(final(engine)@),
            a.denotes(final(engine)@) == self.denotes(old(engine)@),
            self.denotes(final(engine)@) == self.denotes(old(engine)@),
    {
        proof {
            crate::model::lemma_count_ops_wf(engine@, self.token());
        }
        engine.acquire(self.token);
        Atom { token: self.token }
    }

    /// The text this atom denotes, read from the engine's table on demand;
    /// the reference count does not change.
    pub fn as_text(&self, engine: &Engine) -> (r: String)
        requires
            engine@.wf(),
            self.valid(engine@),
        ensures
            r@ == self.denotes(engine@),
    {
        engine.lookup_text(self.token)
    }

    /// The structured debug form: the denoted text in an `Atom("...")`
    /// wrapper, with quotes and backslashes escaped so the wrapper stays
    /// unambiguous.
    pub fn debug_text(&self, engine: &Engine) -> (r: String)
        requires
            engine@.wf(),
            self.valid(engine@),
        ensures
            r@ == "Atom(\""@ + escaped(self.denotes(engine@)) + "\")"@,
    {
        let mut r = String::from_str("Atom(\"");
        let text = self.as_text(engine);
        let shown = escape_text(text.as_str());
        r.append(shown.as_str());
        r.append("\")");
        r
    }

    /// Builds a functor from a copy of this atom and `arity`; this atom is
    /// unaffected and stays independently owned.
    pub fn functor(&self, engine: &mut Engine, thread: u64, arity: usize) -> (f: Functor)
        requires
            old(engine)@.wf(),
            self.valid(old(engine)@),
            old(engine)@.counts[self.token()] < u64::MAX,
            can_intern_pair(old(engine)@, self.token() as nat, arity as nat),
        ensures
            final(engine)@ == intern_pair_model(
                init_model(old(engine)@, thread),
                self.token() as nat,
                arity as nat,
            ).0,
            final(engine)@.wf(),
            f.token() == intern_pair_model(
                init_model(old(engine)@, thread),
                self.token() as nat,
                arity as nat,
            ).1,
            f.valid(final(engine)@),
            f.pair(final(engine)@) == (self.token() as nat, arity as nat),
            self.valid(final(engine)@),
            self.denotes(final(engine)@) == self.denotes(old(engine)@),
    {
        let a = self.clone(engine);
        Functor::new(engine, thread, a, arity)
    }

    /// The number of reference-count units currently outstanding on this
    /// atom's token.
    pub fn ref_count(&self, engine: &Engine) -> (r: u64)
        requires
            engine@.wf(),
            self.valid(engine@),
        ensures
            r as nat == engine@.counts[self.token()],
    {
        engine.ref_count(self.token)
    }

    /// Gives the handle's one reference-count unit back; the `Atom` is
    /// consumed.  Must happen exactly once per handle, clones included.
    pub fn release(self, engine: &mut Engine)
        requires
            old(engine)@.wf(),
            self.valid(old(engine)@),
            old(engine)@.counts[self.token()] >= 1,
        ensures
            final(engine)@ == release_model(old(engine)@, self.token()),
            final(engine)@.wf(),
    {
        proof {
            crate::model::lemma_count_ops_wf(engine@, self.token());
        }
        engine.release(self.token);
    }
}

} // verus!
