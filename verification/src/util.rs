//! Small helpers shared by the data model: views of optional strings and
//! verified deep copies of the field types that entities use.

use vstd::prelude::*;

verus! {

/// The view of an optional string.
pub open spec fn opt_string_view(o: Option<String>) -> Option<Seq<char>> {
    match o {
        Some(s) => Some(s@),
        None => None,
    }
}

/// The views of the elements of a sequence.
pub open spec fn id_seq_view<T: View<V = u64>>(s: Seq<T>) -> Seq<u64> {
    s.map_values(|x: T| x@)
}

/// Copies an optional string.
pub fn clone_opt_string(o: &Option<String>) -> (r: Option<String>)
    ensures
        r == *o,
{
    match o {
        Some(s) => Some(s.clone()),
        None => None,
    }
}

/// Copies a vector of copyable items.
pub fn clone_vec_copy<T: Copy>(v: &Vec<T>) -> (r: Vec<T>)
    ensures
        r@ == v@,
{
    let mut out: Vec<T> = Vec::new();
    let n = v.len();
    for i in 0..n
        invariant
            n == v@.len(),
            out@ == v@.subrange(0, i as int),
    {
        out.push(v[i]);
        proof {
            assert(out@ =~= v@.subrange(0, i + 1));
        }
    }
    proof {
        assert(out@ =~= v@);
    }
    out
}

} // verus!
