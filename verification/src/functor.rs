//! Functors: handles to interned (name, arity) pairs.

use vstd::prelude::*;

use crate::atom::Atom;
use crate::decimal::{dec_rep, dec_string};
use crate::engine::Engine;
use crate::escape::{escape_text, escaped};
use crate::model::{
    acquire_model, can_intern_pair, init_model, intern_pair_model, lemma_count_ops_wf,
    lemma_init_idempotent, lemma_init_model_wf, lemma_intern_pair_model_wf, release_model,
    EngineModel, CONS_TOKEN,
};

verus! {

/// A name/arity pair: a handle to one entry of the engine's pair table.
/// Unlike atoms, functors carry no release obligation — the pair table has
/// no reference counts — so the handle may be copied freely.
#[derive(Clone, Copy)]
pub struct Functor {
    token: usize,
}

impl Functor {
    /// The pair token this handle denotes.
    pub closed spec fn token(&self) -> int {
        self.token as int
    }

    /// Whether the handle denotes an entry of `m`'s pair table.
    pub open spec fn valid(&self, m: EngineModel) -> bool {
        0 <= self.token() < m.pairs.len()
    }

    /// The (name token, arity) pair this handle denotes in `m`.
    pub open spec fn pair(&self, m: EngineModel) -> (nat, nat) {
        m.pairs[self.token()]
    }

    /// Creates a functor for `(atom, arity)`: makes the engine ready and
    /// interns the pair.  The atom is consumed — the reference-count unit it
    /// held is absorbed by this call, so the caller owes no release for it,
    /// and none is taken for the pair table itself.
    pub fn new(engine: &mut Engine, thread: u64, atom: Atom, arity: usize) -> (f: Functor)
        requires
            old(engine)@.wf(),
            atom.valid(old(engine)@),
            old(engine)@.counts[atom.token()] >= 1,
            can_intern_pair(old(engine)@, atom.token() as nat, arity as nat),
        ensures
            final(engine)@ == release_model(
                intern_pair_model(
                    init_model(old(engine)@, thread),
                    atom.token() as nat,
                    arity as nat,
                ).0,
                atom.token(),
            ),
            final(engine)@.wf(),
            f.token() == intern_pair_model(
                init_model(old(engine)@, thread),
                atom.token() as nat,
                arity as nat,
            ).1,
            f.valid(final(engine)@),
            f.pair(final(engine)@) == (atom.token() as nat, arity as nat),
    {
        proof {
            assert(old(engine)@.ready);
            lemma_init_model_wf(old(engine)@, thread);
            lemma_intern_pair_model_wf(
                init_model(old(engine)@, thread),
                atom.token() as nat,
                arity as nat,
            );
        }
        crate::init(engine, thread);
        let name = atom.token_value();
        let token = engine.intern_pair(name, arity);
        proof {
            lemma_count_ops_wf(engine@, atom.token());
        }
        atom.release(engine);
        Functor { token }
    }

    /// The two-argument list-constructor functor: shorthand for building it
    /// from the well-known list-constructor atom with arity two.
    pub fn cons(engine: &mut Engine, thread: u64) -> (f: Functor)
        requires
            old(engine)@.wf(),
            init_model(old(engine)@, thread).counts[CONS_TOKEN as int] < u64::MAX,
            can_intern_pair(init_model(old(engine)@, thread), CONS_TOKEN as nat, 2),
        ensures
            final(engine)@ == intern_pair_model(
                init_model(old(engine)@, thread),
                CONS_TOKEN as nat,
                2,
            ).0,
            final(engine)@.wf(),
            f.token() == intern_pair_model(init_model(old(engine)@, thread), CONS_TOKEN as nat, 2).1,
            f.valid(final(engine)@),
            f.pair(final(engine)@) == (CONS_TOKEN as nat, 2nat),
    {
        proof {
            lemma_init_idempotent(old(engine)@, thread);
            lemma_init_model_wf(old(engine)@, thread);
            lemma_intern_pair_model_wf(init_model(old(engine)@, thread), CONS_TOKEN as nat, 2);
        }
        let a = Atom::cons(engine, thread);
        let f = Functor::new(engine, thread, a, 2);
        proof {
            assert(engine@ =~= intern_pair_model(
                init_model(old(engine)@, thread),
                CONS_TOKEN as nat,
                2,
            ).0);
        }
        f
    }

    /// Reads the arity component of the pair; pure, no reference-count
    /// change.
    pub fn arity(&self, engine: &Engine) -> (r: usize)
        requires
            engine@.wf(),
            self.valid(engine@),
        ensures
            r as nat == self.pair(engine@).1,
    {
        engine.pair_arity(self.token)
    }

    /// Reads the name component and wraps it as a fresh owning `Atom`: one
    /// more reference-count unit is taken on the name's token, and the caller
    /// now owes a release for the returned handle.
    pub fn name(&self, engine: &mut Engine) -> (a: Atom)
        requires
            old(engine)@.wf(),
            self.valid(old(engine)@),
            old(engine)@.counts[self.pair(old(engine)@).0 as int] < u64::MAX,
        ensures
            final(engine)@ == acquire_model(old(engine)@, self.pair(old(engine)@).0 as int),
            final(engine)@.wf(),
            a.token() == self.pair(old(engine)@).0,
            a.valid(final(engine)@),
            a.denotes(final(engine)@) == old(engine)@.texts[self.pair(old(engine)@).0 as int],
            self.valid(final(engine)@),
            self.pair(final(engine)@) == self.pair(old(engine)@),
    {
        proof {
            lemma_count_ops_wf(old(engine)@, self.pair(old(engine)@).0 as int);
        }
        let name = engine.pair_name(self.token);
        engine.acquire(name);
        Atom::from_token(name)
    }

    /// The printed form `name/arity`.
    pub fn as_text(&self, engine: &Engine) -> (r: String)
        requires
            engine@.wf(),
            self.valid(engine@),
        ensures
            r@ == engine@.texts[self.pair(engine@).0 as int] + "/"@ + dec_rep(self.pair(engine@).1),
    {
        let name = engine.pair_name(self.token);
        let mut r = engine.lookup_text(name);
        r.append("/");
        let digits = dec_string(engine.pair_arity(self.token));
        r.append(digits.as_str());
        r
    }

    /// The structured debug form: the name atom's debug form (quotes and
    /// backslashes escaped) and the arity in a `Functor(..., ...)` wrapper.
    pub fn debug_text(&self, engine: &Engine) -> (r: String)
        requires
            engine@.wf(),
            self.valid(engine@),
        ensures
            r@ == "Functor(Atom(\""@ + escaped(engine@.texts[self.pair(engine@).0 as int])
                + "\"), "@ + dec_rep(self.pair(engine@).1) + ")"@,
    {
        let name = engine.pair_name(self.token);
        let mut r = String::from_str("Functor(Atom(\"");
        let text = engine.lookup_text(name);
        let shown = escape_text(text.as_str());
        r.append(shown.as_str());
        r.append("\"), ");
        let digits = dec_string(engine.pair_arity(self.token));
        r.append(digits.as_str());
        r.append(")");
        r
    }
}

} // verus!
