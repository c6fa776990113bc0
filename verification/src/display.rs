//! Plain-text rendering helpers.

use vstd::prelude::*;
use vstd::string::*;

verus! {

/// The first `k` parts joined with the separator between them.
pub open spec fn join_prefix(parts: Seq<Seq<char>>, sep: Seq<char>, k: int) -> Seq<char>
    decreases k,
{
    if k <= 0 {
        Seq::<char>::empty()
    } else if k == 1 {
        parts[0]
    } else {
        join_prefix(parts, sep, k - 1) + sep + parts[k - 1]
    }
}

/// All parts joined with the separator between them.
pub open spec fn join_with(parts: Seq<Seq<char>>, sep: Seq<char>) -> Seq<char> {
    join_prefix(parts, sep, parts.len() as int)
}

/// The characters of a rendered list: the items joined with `", "`, between
/// square brackets.
pub open spec fn fmt_iter_spec(items: Seq<Seq<char>>) -> Seq<char> {
    seq!['['] + join_with(items, ", "@) + seq![']']
}

/// Formats the given items as a bracketed, comma-separated list.
pub fn fmt_iter(items: &Vec<String>) -> (r: String)
    ensures
        r@ == fmt_iter_spec(items@.map_values(|s: String| s@)),
{
    let ghost parts = items@.map_values(|s: String| s@);
    let mut out = String::new();
    out.push('[');
    let n = items.len();
    let mut i: usize = 0;
    while i < n
        invariant
            i <= n,
            n == items@.len(),
            parts == items@.map_values(|s: String| s@),
            out@ == seq!['['] + join_prefix(parts, ", "@, i as int),
        decreases n - i,
    {
        if i > 0 {
            out.append(", ");
        }
        out.append(items[i].as_str());
        proof {
            if i == 0 {
                assert(join_prefix(parts, ", "@, 1) == parts[0]);
                assert(out@ =~= seq!['['] + join_prefix(parts, ", "@, i + 1));
            } else {
                assert(join_prefix(parts, ", "@, i + 1) == join_prefix(parts, ", "@, i as int)
                    + ", "@ + parts[i as int]);
                assert(out@ =~= seq!['['] + join_prefix(parts, ", "@, i + 1));
            }
        }
        i = i + 1;
    }
    out.push(']');
    proof {
        assert(out@ =~= seq!['['] + join_with(parts, ", "@) + seq![']']);
    }
    out
}

} // verus!
