//! Ordered string association lists with unique keys: the key-ordered
//! collections that a request plan is made of.  `upsert` overwrites the
//! value in place when the key exists and appends otherwise, so later
//! layers win; `lookup` finds the first (hence only) entry of a key.

use vstd::prelude::*;
use crate::strutil::str_eq;

verus! {

/// The index of the first entry with the given key, or `-1`.
pub open spec fn key_index(pairs: Seq<(Seq<char>, Seq<char>)>, k: Seq<char>) -> int
    decreases pairs.len(),
{
    if pairs.len() == 0 {
        -1
    } else if pairs[0].0 == k {
        0
    } else {
        let r = key_index(pairs.drop_first(), k);
        if r == -1 {
            -1
        } else {
            r + 1
        }
    }
}

/// The value bound to a key, taking the first entry that holds it.
pub open spec fn spec_lookup(pairs: Seq<(Seq<char>, Seq<char>)>, k: Seq<char>) -> Option<
    Seq<char>,
>
    decreases pairs.len(),
{
    if pairs.len() == 0 {
        Option::None
    } else if pairs[0].0 == k {
        Option::Some(pairs[0].1)
    } else {
        spec_lookup(pairs.drop_first(), k)
    }
}

/// Insert-or-replace: an existing key keeps its position and gets the
/// new value; a new key is appended.
pub open spec fn spec_upsert(
    pairs: Seq<(Seq<char>, Seq<char>)>,
    k: Seq<char>,
    v: Seq<char>,
) -> Seq<(Seq<char>, Seq<char>)> {
    let i = key_index(pairs, k);
    if i == -1 {
        pairs.push((k, v))
    } else {
        pairs.update(i, (k, v))
    }
}

pub proof fn lemma_key_index_bounds(pairs: Seq<(Seq<char>, Seq<char>)>, k: Seq<char>)
    ensures
        key_index(pairs, k) == -1 ==> forall|i: int| 0 <= i < pairs.len() ==> (#[trigger] pairs[i]).0
            != k,
        key_index(pairs, k) != -1 ==> {
            &&& 0 <= key_index(pairs, k) < pairs.len()
            &&& pairs[key_index(pairs, k)].0 == k
            &&& forall|i: int| 0 <= i < key_index(pairs, k) ==> (#[trigger] pairs[i]).0 != k
        },
    decreases pairs.len(),
{
    if pairs.len() != 0 && pairs[0].0 != k {
        lemma_key_index_bounds(pairs.drop_first(), k);
        let r = key_index(pairs.drop_first(), k);
        if r == -1 {
            assert forall|i: int| 0 <= i < pairs.len() implies (#[trigger] pairs[i]).0 != k by {
                if i >= 1 {
                    assert(pairs.drop_first()[i - 1] == pairs[i]);
                }
            }
        } else {
            assert(pairs[r + 1] == pairs.drop_first()[r]);
            assert forall|i: int| 0 <= i < r + 1 implies (#[trigger] pairs[i]).0 != k by {
                if i >= 1 {
                    assert(pairs.drop_first()[i - 1] == pairs[i]);
                }
            }
        }
    }
}

/// What lookup sees after an upsert: the upserted key maps to the new
/// value, every other key is untouched.
pub proof fn lemma_lookup_upsert(
    pairs: Seq<(Seq<char>, Seq<char>)>,
    k: Seq<char>,
    v: Seq<char>,
    q: Seq<char>,
)
    ensures
        spec_lookup(spec_upsert(pairs, k, v), q) == if q == k {
            Option::Some(v)
        } else {
            spec_lookup(pairs, q)
        },
    decreases pairs.len(),
{
    lemma_key_index_bounds(pairs, k);
    let i = key_index(pairs, k);
    if pairs.len() == 0 {
        assert(spec_upsert(pairs, k, v) =~= seq![(k, v)]);
    } else if i == -1 {
        // the key is appended at the end
        assert(forall|j: int|
            0 <= j < pairs.drop_first().len() ==> (#[trigger] pairs.drop_first()[j]).0 != k);
        lemma_key_index_no_hit(pairs.drop_first(), k);
        assert(spec_upsert(pairs, k, v)[0] == pairs[0]);
        if pairs[0].0 != q {
            assert(spec_upsert(pairs, k, v).drop_first() =~= spec_upsert(
                pairs.drop_first(),
                k,
                v,
            ));
            lemma_lookup_upsert(pairs.drop_first(), k, v, q);
        }
    } else {
        if i == 0 {
            assert(spec_upsert(pairs, k, v)[0] == (k, v));
            if q != k {
                assert(spec_upsert(pairs, k, v).drop_first() =~= pairs.drop_first());
            }
        } else {
            assert(pairs.drop_first()[i - 1] == pairs[i]);
            assert forall|j: int| 0 <= j < i - 1 implies (#[trigger] pairs.drop_first()[j]).0
                != k by {
                assert(pairs.drop_first()[j] == pairs[j + 1]);
            }
            lemma_key_index_first_hit(pairs.drop_first(), k, i - 1);
            assert(spec_upsert(pairs, k, v)[0] == pairs[0]);
            assert(spec_upsert(pairs, k, v).drop_first() =~= spec_upsert(
                pairs.drop_first(),
                k,
                v,
            ));
            lemma_lookup_upsert(pairs.drop_first(), k, v, q);
        }
    }
}

/// Finds the value bound to a key, cloning it out of the list.
pub fn lookup(map: &Vec<(String, String)>, k: &str) -> (r: Option<String>)
    ensures
        match r {
            Option::Some(v) => spec_lookup(map.deep_view(), k@) == Option::Some(v@),
            Option::None => spec_lookup(map.deep_view(), k@) is None,
        },
{
    let ghost pairs = map.deep_view();
    let mut i: usize = 0;
    while i < map.len()
        invariant
            i <= map.len(),
            pairs == map.deep_view(),
            pairs.len() == map.len(),
            forall|j: int| 0 <= j < i ==> (#[trigger] pairs[j]).0 != k@,
        decreases map.len() - i,
    {
        let p = &map[i];
        if str_eq(p.0.as_str(), k) {
            proof {
                lemma_lookup_first_hit(pairs, k@, i as int);
            }
            return Some(p.1.clone());
        }
        i += 1;
    }
    proof {
        lemma_lookup_no_hit(pairs, k@);
    }
    None
}

/// A key whose earlier entries all miss is looked up at its first hit.
proof fn lemma_lookup_first_hit(pairs: Seq<(Seq<char>, Seq<char>)>, k: Seq<char>, i: int)
    requires
        0 <= i < pairs.len(),
        pairs[i].0 == k,
        forall|j: int| 0 <= j < i ==> (#[trigger] pairs[j]).0 != k,
    ensures
        spec_lookup(pairs, k) == Option::Some(pairs[i].1),
    decreases i,
{
    if i > 0 {
        assert(pairs.drop_first()[i - 1] == pairs[i]);
        assert forall|j: int| 0 <= j < i - 1 implies (#[trigger] pairs.drop_first()[j]).0 != k by {
            assert(pairs.drop_first()[j] == pairs[j + 1]);
        }
        lemma_lookup_first_hit(pairs.drop_first(), k, i - 1);
    }
}

/// A key that no entry holds is not found.
proof fn lemma_lookup_no_hit(pairs: Seq<(Seq<char>, Seq<char>)>, k: Seq<char>)
    requires
        forall|j: int| 0 <= j < pairs.len() ==> (#[trigger] pairs[j]).0 != k,
    ensures
        spec_lookup(pairs, k) is None,
    decreases pairs.len(),
{
    if pairs.len() > 0 {
        assert(forall|j: int|
            0 <= j < pairs.drop_first().len() ==> (#[trigger] pairs.drop_first()[j]).0 != k);
        lemma_lookup_no_hit(pairs.drop_first(), k);
    }
}

/// Inserts or replaces in place: an existing key keeps its position and
/// takes the new value; a new key is appended at the end.
pub fn upsert(map: &mut Vec<(String, String)>, k: String, v: String)
    ensures
        final(map).deep_view() == spec_upsert(old(map).deep_view(), k@, v@),
{
    let ghost pairs = old(map).deep_view();
    let mut i: usize = 0;
    while i < map.len()
        invariant
            i <= map.len(),
            *map == *old(map),
            pairs == map.deep_view(),
            pairs.len() == map.len(),
            forall|j: int| 0 <= j < i ==> (#[trigger] pairs[j]).0 != k@,
        decreases map.len() - i,
    {
        let hit = str_eq(map[i].0.as_str(), k.as_str());
        if hit {
            proof {
                lemma_key_index_first_hit(pairs, k@, i as int);
            }
            map.remove(i);
            map.insert(i, (k, v));
            proof {
                assert(map.deep_view() =~= pairs.update(i as int, (k@, v@)));
            }
            return ;
        }
        i += 1;
    }
    proof {
        lemma_key_index_no_hit(pairs, k@);
    }
    map.push((k, v));
    proof {
        assert(map.deep_view() =~= pairs.push((k@, v@)));
    }
}

/// The first hit of a key is its index.
proof fn lemma_key_index_first_hit(pairs: Seq<(Seq<char>, Seq<char>)>, k: Seq<char>, i: int)
    requires
        0 <= i < pairs.len(),
        pairs[i].0 == k,
        forall|j: int| 0 <= j < i ==> (#[trigger] pairs[j]).0 != k,
    ensures
        key_index(pairs, k) == i,
    decreases i,
{
    if i > 0 {
        assert(pairs.drop_first()[i - 1] == pairs[i]);
        assert forall|j: int| 0 <= j < i - 1 implies (#[trigger] pairs.drop_first()[j]).0 != k by {
            assert(pairs.drop_first()[j] == pairs[j + 1]);
        }
        lemma_key_index_first_hit(pairs.drop_first(), k, i - 1);
    }
}

/// A key that no entry holds has no index.
proof fn lemma_key_index_no_hit(pairs: Seq<(Seq<char>, Seq<char>)>, k: Seq<char>)
    requires
        forall|j: int| 0 <= j < pairs.len() ==> (#[trigger] pairs[j]).0 != k,
    ensures
        key_index(pairs, k) == -1,
    decreases pairs.len(),
{
    if pairs.len() > 0 {
        assert(forall|j: int|
            0 <= j < pairs.drop_first().len() ==> (#[trigger] pairs.drop_first()[j]).0 != k);
        lemma_key_index_no_hit(pairs.drop_first(), k);
    }
}

} // verus!
