//! Facts about how the library's containers look through their views.

use vstd::prelude::*;

verus! {

/// A vector of characters looks the same through `deep_view` and `view`.
pub broadcast proof fn lemma_char_vec_deep_view(v: &Vec<char>)
    ensures
        #[trigger] v.deep_view() == v@,
{
    assert(v.deep_view() =~= v@);
}

} // verus!
