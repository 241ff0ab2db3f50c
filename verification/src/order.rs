//! The order of words: code point by code point, a proper prefix first.

use vstd::prelude::*;

verus! {

/// The two words agree before position `k`, where the first one ends or holds
/// the smaller character.
pub open spec fn diverges_at(a: Seq<char>, b: Seq<char>, k: int) -> bool {
    &&& 0 <= k <= a.len()
    &&& k < b.len()
    &&& forall|i: int| 0 <= i < k ==> #[trigger] a[i] == b[i]
    &&& (k == a.len() || a[k] < b[k])
}

/// `a` stands before `b` in the order of words.
pub open spec fn precedes(a: Seq<char>, b: Seq<char>) -> bool {
    exists|k: int| diverges_at(a, b, k)
}

/// How one word stands to another.
#[derive(Debug, Clone, Copy, PartialEq, Eq, Structural)]
pub enum Placement {
    Before,
    Same,
    After,
}

/// No word stands before itself, nor before a word that stands before it.
pub proof fn lemma_precedes_asymmetric(a: Seq<char>, b: Seq<char>)
    requires
        precedes(a, b),
    ensures
        !precedes(b, a),
        a != b,
{
    let k = choose|k: int| diverges_at(a, b, k);
    if precedes(b, a) {
        let j = choose|j: int| diverges_at(b, a, j);
        if j < k {
            assert(a[j] == b[j]);
        } else if k < j {
            assert(b[k] == a[k]);
        }
        assert(false);
    }
    if a == b {
        assert(false);
    }
}

/// The order of words is transitive.
pub proof fn lemma_precedes_transitive(a: Seq<char>, b: Seq<char>, c: Seq<char>)
    requires
        precedes(a, b),
        precedes(b, c),
    ensures
        precedes(a, c),
{
    let k = choose|k: int| diverges_at(a, b, k);
    let j = choose|j: int| diverges_at(b, c, j);
    let m = if k < j { k } else { j };
    assert forall|i: int| 0 <= i < m implies #[trigger] a[i] == c[i] by {
        assert(a[i] == b[i]);
        assert(b[i] == c[i]);
    }
    if k < j {
        assert(b[k] == c[k]);
    } else if j < k {
        assert(a[j] == b[j]);
    }
    assert(diverges_at(a, c, m));
}

/// Tells which of two words stands first.
pub fn place(a: &str, b: &str) -> (r: Placement)
    ensures
        r == Placement::Before <==> precedes(a@, b@),
        r == Placement::Same <==> a@ == b@,
        r == Placement::After <==> precedes(b@, a@),
{
    let mut left = a.chars();
    let mut right = b.chars();
    let ghost mut k: int = 0;
    proof {
        assert(a@.skip(0) =~= a@);
        assert(b@.skip(0) =~= b@);
    }
    loop
        invariant
            0 <= k <= a@.len(),
            k <= b@.len(),
            vstd::std_specs::iter::IteratorSpec::remaining(&left) == a@.skip(k),
            vstd::std_specs::iter::IteratorSpec::remaining(&right) == b@.skip(k),
            forall|i: int| 0 <= i < k ==> #[trigger] a@[i] == b@[i],
        decreases a@.len() - k,
    {
        match (left.next(), right.next()) {
            (None, None) => {
                proof {
                    assert(a@ =~= b@);
                    if precedes(a@, b@) {
                        lemma_precedes_asymmetric(a@, b@);
                    }
                    if precedes(b@, a@) {
                        lemma_precedes_asymmetric(b@, a@);
                    }
                }
                return Placement::Same;
            },
            (None, Some(_)) => {
                proof {
                    assert(diverges_at(a@, b@, k));
                    lemma_precedes_asymmetric(a@, b@);
                }
                return Placement::Before;
            },
            (Some(_), None) => {
                proof {
                    assert(diverges_at(b@, a@, k));
                    lemma_precedes_asymmetric(b@, a@);
                }
                return Placement::After;
            },
            (Some(x), Some(y)) => {
                proof {
                    assert(x == a@[k] && y == b@[k]);
                }
                if x < y {
                    proof {
                        assert(diverges_at(a@, b@, k));
                        lemma_precedes_asymmetric(a@, b@);
                    }
                    return Placement::Before;
                }
                if y < x {
                    proof {
                        assert(diverges_at(b@, a@, k));
                        lemma_precedes_asymmetric(b@, a@);
                    }
                    return Placement::After;
                }
                proof {
                    assert(a@.skip(k).drop_first() =~= a@.skip(k + 1));
                    assert(b@.skip(k).drop_first() =~= b@.skip(k + 1));
                    k = k + 1;
                }
            },
        }
    }
}

/// Whether two texts are the same, character for character.
pub fn same_text(a: &str, b: &str) -> (r: bool)
    ensures
        r == (a@ == b@),
{
    match place(a, b) {
        Placement::Same => true,
        _ => false,
    }
}

} // verus!
