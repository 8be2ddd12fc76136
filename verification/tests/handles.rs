use swipl::{Atom, Engine, Functor};

#[test]
fn debug() {
    let mut e = Engine::new();
    let foo = Atom::new(&mut e, 0, "foo");
    let bar = Atom::new(&mut e, 0, "bar");
    let baz = Atom::new(&mut e, 0, "baz");

    assert_eq!(foo.debug_text(&e), "Atom(\"foo\")");
    assert_eq!(bar.debug_text(&e), "Atom(\"bar\")");
    assert_eq!(baz.debug_text(&e), "Atom(\"baz\")");
}

#[test]
fn atom_display() {
    let mut e = Engine::new();
    let foo = Atom::new(&mut e, 0, "foo");
    let bar = Atom::new(&mut e, 0, "bar");
    let baz = Atom::new(&mut e, 0, "baz");

    assert_eq!(foo.as_text(&e), "foo");
    assert_eq!(bar.as_text(&e), "bar");
    assert_eq!(baz.as_text(&e), "baz");
}

#[test]
fn functor_display() {
    let mut e = Engine::new();
    let foo = Atom::new(&mut e, 0, "foo").functor(&mut e, 0, 1);
    let bar = Atom::new(&mut e, 0, "bar").functor(&mut e, 0, 2);
    let baz = Atom::new(&mut e, 0, "baz").functor(&mut e, 0, 0);

    assert_eq!(foo.as_text(&e), "foo/1");
    assert_eq!(bar.as_text(&e), "bar/2");
    assert_eq!(baz.as_text(&e), "baz/0");
}

#[test]
fn debug_escapes_quotes_and_backslashes() {
    let mut e = Engine::new();
    let quoted = Atom::new(&mut e, 0, "a\"b");
    assert_eq!(quoted.as_text(&e), "a\"b");
    assert_eq!(quoted.debug_text(&e), "Atom(\"a\\\"b\")");

    let slashed = Atom::new(&mut e, 0, "a\\b");
    assert_eq!(slashed.as_text(&e), "a\\b");
    assert_eq!(slashed.debug_text(&e), "Atom(\"a\\\\b\")");

    let f = Atom::new(&mut e, 0, "q\"n").functor(&mut e, 0, 1);
    assert_eq!(f.debug_text(&e), "Functor(Atom(\"q\\\"n\"), 1)");
}

#[test]
fn functor_debug() {
    let mut e = Engine::new();
    let foo = Atom::new(&mut e, 0, "foo").functor(&mut e, 0, 1);
    assert_eq!(foo.debug_text(&e), "Functor(Atom(\"foo\"), 1)");
}

#[test]
fn text_round_trip() {
    let mut e = Engine::new();
    let hello = Atom::new(&mut e, 0, "hello world");
    assert_eq!(hello.as_text(&e), "hello world");

    let empty = Atom::new(&mut e, 0, "");
    assert_eq!(empty.as_text(&e), "");

    let again = Atom::new(&mut e, 0, "hello world");
    assert_eq!(again.as_text(&e), "hello world");
}

#[test]
fn equal_by_content() {
    let mut e = Engine::new();
    let first = Atom::new(&mut e, 0, "foo");
    let second = Atom::new(&mut e, 0, "foo");

    assert_eq!(first.as_text(&e), second.as_text(&e));
    assert_eq!(first.debug_text(&e), second.debug_text(&e));
}

#[test]
fn refcount_balance() {
    let mut e = Engine::new();
    let a = Atom::new(&mut e, 0, "counted");
    assert_eq!(a.ref_count(&e), 1);

    // a second interning of the same text is one more unit on the same token
    let b = Atom::new(&mut e, 0, "counted");
    assert_eq!(a.ref_count(&e), 2);
    b.release(&mut e);
    assert_eq!(a.ref_count(&e), 1);

    // take three clones, then give all three back: the count is unchanged
    let c1 = a.clone(&mut e);
    let c2 = a.clone(&mut e);
    let c3 = a.clone(&mut e);
    assert_eq!(a.ref_count(&e), 4);
    c1.release(&mut e);
    c2.release(&mut e);
    c3.release(&mut e);
    assert_eq!(a.ref_count(&e), 1);
    assert_eq!(a.as_text(&e), "counted");
}

#[test]
fn functor_derivation() {
    let mut e = Engine::new();
    let a = Atom::new(&mut e, 0, "point");
    let f = a.functor(&mut e, 0, 3);

    assert_eq!(f.arity(&e), 3);
    let name = f.name(&mut e);
    assert_eq!(name.as_text(&e), "point");
    assert_eq!(name.as_text(&e), a.as_text(&e));
    name.release(&mut e);
}

#[test]
fn functor_new_consumes_atom() {
    let mut e = Engine::new();
    let a = Atom::new(&mut e, 0, "edge");
    let watcher = a.clone(&mut e); // observes the count after `a` is consumed
    assert_eq!(watcher.ref_count(&e), 2);

    let f = Functor::new(&mut e, 0, a, 5);
    // the consumed atom's unit was absorbed: no release is owed for it
    assert_eq!(watcher.ref_count(&e), 1);
    assert_eq!(f.arity(&e), 5);

    // name() hands out a fresh owning handle, with a unit of its own
    let n = f.name(&mut e);
    assert_eq!(n.as_text(&e), "edge");
    assert_eq!(watcher.ref_count(&e), 2);
    n.release(&mut e);
    assert_eq!(watcher.ref_count(&e), 1);
    watcher.release(&mut e);
}

#[test]
fn display_scenarios() {
    let mut e = Engine::new();
    assert_eq!(Atom::new(&mut e, 0, "foo").as_text(&e), "foo");
    assert_eq!(Atom::new(&mut e, 0, "foo").debug_text(&e), "Atom(\"foo\")");
    assert_eq!(Atom::new(&mut e, 0, "bar").functor(&mut e, 0, 2).as_text(&e), "bar/2");
}

#[test]
fn well_known_symbols() {
    let mut e = Engine::new();
    let from_atom = Atom::cons(&mut e, 0).functor(&mut e, 0, 2);
    let direct = Functor::cons(&mut e, 0);

    assert_eq!(from_atom.arity(&e), direct.arity(&e));
    let n1 = from_atom.name(&mut e);
    let n2 = direct.name(&mut e);
    assert_eq!(n1.as_text(&e), n2.as_text(&e));
    n1.release(&mut e);
    n2.release(&mut e);
}

#[test]
fn well_known_texts() {
    let mut e = Engine::new();
    let cons = Atom::cons(&mut e, 0);
    let nil = Atom::nil(&mut e, 0);
    assert_eq!(cons.as_text(&e), "[|]");
    assert_eq!(nil.as_text(&e), "[]");
}
