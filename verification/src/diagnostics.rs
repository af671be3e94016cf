//! What to tell the operator when a run has failed.

use crate::text::{contains_text, occurs_in, texts};
use vstd::prelude::*;

verus! {

/// Whether the text of a cause speaks of a service that could not be
/// reached: a request that could not be sent, a refused connection, a
/// failed TCP connect or a failed name lookup.
pub open spec fn speaks_of_connection(cause: Seq<char>) -> bool {
    ||| occurs_in(cause, "error sending request"@)
    ||| occurs_in(cause, "connection refused"@)
    ||| occurs_in(cause, "Connection refused"@)
    ||| occurs_in(cause, "tcp connect error"@)
    ||| occurs_in(cause, "dns error"@)
}

/// Whether any cause below the first in a chain speaks of a service that
/// could not be reached.
pub open spec fn chain_speaks_of_connection(chain: Seq<Seq<char>>) -> bool {
    exists|i: int| 1 <= i < chain.len() && speaks_of_connection(#[trigger] chain[i])
}

/// Whether the text of one cause speaks of a service that could not be
/// reached.
pub fn is_connection_problem(cause: &str) -> (found: bool)
    ensures
        found == speaks_of_connection(cause@),
{
    contains_text(cause, "error sending request") || contains_text(cause, "connection refused")
        || contains_text(cause, "Connection refused") || contains_text(cause, "tcp connect error")
        || contains_text(cause, "dns error")
}

/// Whether a failed run deserves the hint that a service may be down: the
/// chain of causes, outermost first, is searched below its first entry.
pub fn wants_connection_hint(chain: &[String]) -> (hint: bool)
    ensures
        hint == chain_speaks_of_connection(texts(chain@)),
{
    let mut i: usize = 1;
    while i < chain.len()
        invariant
            1 <= i,
            forall|k: int| 1 <= k < i && k < chain.len() ==> !speaks_of_connection(
                #[trigger] texts(chain@)[k],
            ),
        decreases chain.len() - i,
    {
        if is_connection_problem(chain[i].as_str()) {
            assert(speaks_of_connection(texts(chain@)[i as int]));
            return true;
        }
        i += 1;
    }
    false
}

} // verus!
