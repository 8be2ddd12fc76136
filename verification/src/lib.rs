//! A safe, reference-counted handle layer over a process-wide interned-symbol
//! table: atoms (interned strings) and functors (interned name/arity pairs).
//!
//! The engine that owns the tables is modelled explicitly as an [`Engine`]
//! value.  Bring-up happens exactly once, each worker thread attaches exactly
//! once, and every owning handle holds exactly one reference-count unit
//! against its token.

use vstd::prelude::*;

pub mod atom;
pub mod decimal;
pub mod engine;
pub mod escape;
pub mod functor;
pub mod laws;
pub mod model;

pub use atom::Atom;
pub use engine::Engine;
pub use functor::Functor;
pub use model::EngineModel;

use crate::decimal::dec_rep;
use crate::decimal::dec_string;
use crate::model::init_model;

verus! {

/// Makes the engine ready: the very first call anywhere performs process-wide
/// bring-up, the first call from each later `thread` attaches that thread,
/// and every other call changes nothing.  Every atom and functor constructor
/// calls this first.
pub fn init(engine: &mut Engine, thread: u64)
    requires
        old(engine)@.wf(),
    ensures
        final(engine)@ == init_model(old(engine)@, thread),
        final(engine)@.wf(),
        final(engine)@.ready,
{
    engine.init(thread);
}

/// An error from the engine layer.
///
/// `UnknownTermType` is reserved for layers built on top of this core that
/// inspect terms; atoms and functors themselves never produce it.
#[derive(Debug)]
pub enum Error {
    /// An unknown term type was found.
    UnknownTermType(i32),
}

impl Error {
    /// The numeric code this error carries.
    pub open spec fn code(&self) -> int {
        match self {
            Error::UnknownTermType(c) => *c as int,
        }
    }

    /// The printed form of the error.
    pub fn as_text(&self) -> (r: String)
        ensures
            self.code() < 0 ==> r@ == "Unknown term type: "@ + seq!['-'] + dec_rep(
                (-self.code()) as nat,
            ),
            self.code() >= 0 ==> r@ == "Unknown term type: "@ + dec_rep(self.code() as nat),
    {
        let code: i32 = match self {
            Error::UnknownTermType(c) => *c,
        };
        let mut r = String::from_str("Unknown term type: ");
        let magnitude: usize;
        if code < 0 {
            r.append("-");
            proof {
                reveal_strlit("-");
                assert("-"@ =~= seq!['-']);
                assert(u32::MAX <= usize::MAX);
            }
            magnitude = (-(code as i64)) as usize;
        } else {
            magnitude = code as usize;
        }
        let digits = dec_string(magnitude);
        r.append(digits.as_str());
        r
    }
}

} // verus!
