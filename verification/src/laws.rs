//! The general laws of the handle layer, stated over the engine model and
//! proved once and for all.

use vstd::prelude::*;

use crate::model::{
    acquire_model, init_model, intern_model, intern_pair_model, lemma_find_text,
    lemma_init_model_wf, lemma_intern_model_wf, lemma_intern_pair_model_wf, release_model,
    EngineModel, CONS_TOKEN,
};

verus! {

/// Folds one ready-check call per entry of `threads`, in order.
pub open spec fn run_inits(m: EngineModel, threads: Seq<u64>) -> EngineModel
    decreases threads.len(),
{
    if threads.len() == 0 {
        m
    } else {
        run_inits(init_model(m, threads[0]), threads.drop_first())
    }
}

/// Idempotent bring-up: however many ready-checks run, from whatever
/// threads, in whatever order, there is exactly one bring-up event, every
/// calling thread ends up attached, no thread is attached twice (that is part
/// of `wf`), and the attachment events number exactly one fewer than the
/// attached threads — the bring-up thread is attached by bring-up itself.
pub proof fn lemma_init_run(m: EngineModel, threads: Seq<u64>)
    requires
        m.wf(),
    ensures
        run_inits(m, threads).wf(),
        m.ready || threads.len() > 0 ==> run_inits(m, threads).ready,
        m.ready || threads.len() > 0 ==> run_inits(m, threads).bringups == 1,
        run_inits(m, threads).ready ==> run_inits(m, threads).attaches + 1 == run_inits(
            m,
            threads,
        ).attached.len(),
        forall|t: u64|
            #![trigger run_inits(m, threads).attached.contains(t)]
            run_inits(m, threads).attached.contains(t) <==> m.attached.contains(t)
                || threads.contains(t),
    decreases threads.len(),
{
    if threads.len() == 0 {
    } else {
        let m1 = init_model(m, threads[0]);
        let rest = threads.drop_first();
        lemma_init_model_wf(m, threads[0]);
        lemma_init_run(m1, rest);
        let r = run_inits(m1, rest);
        assert(m1.attached == m.attached || m1.attached == m.attached.push(threads[0]));
        assert forall|t: u64|
            run_inits(m, threads).attached.contains(t) == (m.attached.contains(t)
                || threads.contains(t)) by {
            assert(r.attached.contains(t) == (m1.attached.contains(t) || rest.contains(t)));
            if r.attached.contains(t) {
                if m1.attached.contains(t) {
                    let i = choose|i: int| 0 <= i < m1.attached.len() && m1.attached[i] == t;
                    if m1.attached == m.attached {
                        assert(m.attached.contains(t));
                    } else if i < m1.attached.len() - 1 {
                        assert(m.attached[i] == t);
                        assert(m.attached.contains(t));
                    } else {
                        assert(t == threads[0]);
                        assert(threads.contains(t)) by {
                            assert(threads[0] == t);
                        }
                    }
                } else {
                    assert(rest.contains(t));
                    let i = choose|i: int| 0 <= i < rest.len() && rest[i] == t;
                    assert(threads[i + 1] == t);
                    assert(threads.contains(t));
                }
            }
            if m.attached.contains(t) {
                if m1.attached == m.attached {
                    assert(m1.attached.contains(t));
                } else {
                    let i = choose|i: int| 0 <= i < m.attached.len() && m.attached[i] == t;
                    assert(m1.attached[i] == t);
                    assert(m1.attached.contains(t));
                }
                assert(r.attached.contains(t));
            }
            if threads.contains(t) {
                let i = choose|i: int| 0 <= i < threads.len() && threads[i] == t;
                if i == 0 {
                    assert(m1.attached.contains(t)) by {
                        if !m.ready || !m.attached.contains(threads[0]) {
                            assert(m1.attached[m1.attached.len() - 1] == threads[0]);
                        }
                    }
                    assert(r.attached.contains(t));
                } else {
                    assert(rest[i - 1] == t);
                    assert(rest.contains(t));
                    assert(r.attached.contains(t));
                }
            }
        }
    }
}

/// Acquires `n` reference-count units on token `t`, one after the other.
pub open spec fn acquire_n(m: EngineModel, t: int, n: nat) -> EngineModel
    decreases n,
{
    if n == 0 {
        m
    } else {
        acquire_model(acquire_n(m, t, (n - 1) as nat), t)
    }
}

/// Releases `n` reference-count units on token `t`, one after the other.
pub open spec fn release_n(m: EngineModel, t: int, n: nat) -> EngineModel
    decreases n,
{
    if n == 0 {
        m
    } else {
        release_n(release_model(m, t), t, (n - 1) as nat)
    }
}

/// Reference-count balance: taking `n` units on a token — creating `n`
/// clones — and then giving all `n` back returns the engine to exactly the
/// state it was in before, so the net count delta always equals the number of
/// live handles.
pub proof fn lemma_count_balance(m: EngineModel, t: int, n: nat)
    requires
        0 <= t < m.counts.len(),
    ensures
        acquire_n(m, t, n).counts.len() == m.counts.len(),
        release_n(acquire_n(m, t, n), t, n) == m,
    decreases n,
{
    if n > 0 {
        let x = acquire_n(m, t, (n - 1) as nat);
        lemma_count_balance(m, t, (n - 1) as nat);
        assert(release_model(acquire_model(x, t), t).counts =~= x.counts);
        assert(release_model(acquire_model(x, t), t) =~= x);
    }
}

/// Text round-trip: interning any text and reading the resulting token back
/// yields exactly that text.
pub proof fn lemma_text_round_trip(m: EngineModel, s: Seq<char>)
    requires
        m.wf(),
        m.ready,
    ensures
        ({
            let (m2, t) = intern_model(m, s);
            0 <= t < m2.texts.len() && m2.texts[t] == s
        }),
{
    lemma_intern_model_wf(m, s);
}

/// Equality by content: interning the same text twice yields the same token,
/// so the two handles denote the same text and print identically — yet the
/// second interning still takes a reference-count unit of its own.
pub proof fn lemma_equal_by_content(m: EngineModel, s: Seq<char>)
    requires
        m.wf(),
        m.ready,
    ensures
        ({
            let (m1, t1) = intern_model(m, s);
            let (m2, t2) = intern_model(m1, s);
            &&& t2 == t1
            &&& m2.texts == m1.texts
            &&& m1.texts[t1] == s
            &&& m2.texts[t2] == s
            &&& m2.counts[t1] == m1.counts[t1] + 1
        }),
{
    let (m1, t1) = intern_model(m, s);
    lemma_intern_model_wf(m, s);
    lemma_find_text(m1.texts, s);
    let f = crate::model::find_text(m1.texts, s);
    assert(f == t1);
}

/// Functor derivation: a functor built from a name token and an arity reads
/// back exactly that arity and exactly that name token, and the name still
/// denotes the same text as before.
pub proof fn lemma_functor_derivation(m: EngineModel, name: nat, arity: nat)
    requires
        m.wf(),
        m.ready,
        name < m.texts.len(),
    ensures
        ({
            let (m2, k) = intern_pair_model(m, name, arity);
            &&& 0 <= k < m2.pairs.len()
            &&& m2.pairs[k].1 == arity
            &&& m2.pairs[k].0 == name
            &&& m2.texts == m.texts
        }),
{
    lemma_intern_pair_model_wf(m, name, arity);
}

/// Well-known symbols: functors interned for the pair (cons token, 2) in any
/// two states whose pair tables agree get the same token and denote the same
/// pair, however their reference counts differ — so the functor derived from
/// the list-constructor atom equals the list-constructor functor.
pub proof fn lemma_well_known_cons(m1: EngineModel, m2: EngineModel)
    requires
        m1.wf(),
        m2.wf(),
        m1.ready,
        m2.ready,
        m1.pairs == m2.pairs,
    ensures
        intern_pair_model(m1, CONS_TOKEN as nat, 2).1 == intern_pair_model(
            m2,
            CONS_TOKEN as nat,
            2,
        ).1,
        ({
            let (n1, k) = intern_pair_model(m1, CONS_TOKEN as nat, 2);
            n1.pairs[k] == (CONS_TOKEN as nat, 2nat)
        }),
        ({
            let (n2, k) = intern_pair_model(m2, CONS_TOKEN as nat, 2);
            n2.pairs[k] == (CONS_TOKEN as nat, 2nat)
        }),
{
    lemma_intern_pair_model_wf(m1, CONS_TOKEN as nat, 2);
    lemma_intern_pair_model_wf(m2, CONS_TOKEN as nat, 2);
}

} // verus!
