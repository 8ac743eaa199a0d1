//! The search endpoint's query construction: one case-folded LIKE clause per
//! requested title, numbered placeholders in order, fixed ordering and limit.
//! Only the string is built here; preparing and running it against the store
//! is the surrounding process's work.

use vstd::prelude::*;
use vstd::string::StringExecFns;
use crate::digits::push_decimal;
use crate::digits::spec_decimal;

verus! {

/// The clause for the `n`-th title, 1-based, against its placeholder.
pub open spec fn spec_placeholder_clause(n: nat) -> Seq<char> {
    "lower(title) LIKE lower($"@ + spec_decimal(n) + ")"@
}

/// The disjunction of the first `n` clauses, in placeholder order.
pub open spec fn spec_where_clauses(n: nat) -> Seq<char>
    decreases n,
{
    if n == 0 {
        Seq::empty()
    } else if n == 1 {
        spec_placeholder_clause(1)
    } else {
        spec_where_clauses((n - 1) as nat) + " OR "@ + spec_placeholder_clause(n)
    }
}

/// The whole statement for `n` titles.
pub open spec fn spec_search_query(n: nat) -> Seq<char> {
    "SELECT hash, title, dt, cat, size FROM items WHERE "@ + spec_where_clauses(n)
        + " ORDER BY title ASC LIMIT 10000"@
}

/// Build the search statement for `title_count` titles: one parameterized,
/// case-folded LIKE clause per title, joined with OR, ordered by title and
/// capped at the fixed limit.
pub fn build_search_query(title_count: usize) -> (r: String)
    requires
        title_count < usize::MAX,
    ensures
        r@ == spec_search_query(title_count as nat),
{
    let mut s = String::from_str("SELECT hash, title, dt, cat, size FROM items WHERE ");
    proof {
        assert(s@ == "SELECT hash, title, dt, cat, size FROM items WHERE "@ + spec_where_clauses(
            0,
        )) by {
            assert(s@ =~= s@ + Seq::<char>::empty());
        }
    }
    let mut i: usize = 0;
    while i < title_count
        invariant
            i <= title_count,
            title_count < usize::MAX,
            s@ == "SELECT hash, title, dt, cat, size FROM items WHERE "@ + spec_where_clauses(
                i as nat,
            ),
        decreases title_count - i,
    {
        if i > 0 {
            s.append(" OR ");
        }
        s.append("lower(title) LIKE lower($");
        push_decimal(&mut s, i + 1);
        s.append(")");
        proof {
            assert(s@ =~= "SELECT hash, title, dt, cat, size FROM items WHERE "@
                + spec_where_clauses((i + 1) as nat));
        }
        i = i + 1;
    }
    s.append(" ORDER BY title ASC LIMIT 10000");
    proof {
        assert(s@ =~= spec_search_query(title_count as nat));
    }
    s
}

} // verus!
