//! Escaping for the debug forms: a double quote or a backslash inside a
//! denoted text is prefixed with a backslash, so that the `Atom("...")`
//! wrapper stays unambiguous.

use vstd::prelude::*;

verus! {

/// How one character renders inside a quoted debug wrapper.
pub open spec fn escape_char(c: char) -> Seq<char> {
    if c == '"' || c == '\\' {
        seq!['\\', c]
    } else {
        seq![c]
    }
}

/// The escaped rendering of a text: every double quote and backslash is
/// prefixed with a backslash, every other character stands as it is.
pub open spec fn escaped(s: Seq<char>) -> Seq<char>
    decreases s.len(),
{
    if s.len() == 0 {
        Seq::empty()
    } else {
        escaped(s.drop_last()) + escape_char(s.last())
    }
}

/// Renders `s` with quotes and backslashes escaped.
pub fn escape_text(s: &str) -> (r: String)
    ensures
        r@ == escaped(s@),
{
    let n = s.unicode_len();
    let mut r = String::new();
    let mut i: usize = 0;
    while i < n
        invariant
            n == s@.len(),
            i <= n,
            r@ == escaped(s@.subrange(0, i as int)),
        decreases n - i,
    {
        let c = s.get_char(i);
        if c == '"' || c == '\\' {
            r.append("\\");
            proof {
                reveal_strlit("\\");
            }
        }
        let piece = s.substring_char(i, i + 1);
        r.append(piece);
        proof {
            let prefix = s@.subrange(0, (i + 1) as int);
            assert(prefix.drop_last() =~= s@.subrange(0, i as int));
            assert(prefix.last() == s@[i as int]);
            assert(piece@ =~= seq![s@[i as int]]);
            assert(r@ =~= escaped(prefix));
        }
        i += 1;
    }
    proof {
        assert(s@.subrange(0, n as int) =~= s@);
    }
    r
}

} // verus!
