//! Placeholder substitution: every `{name}` occurrence in a text is
//! replaced by the value bound to `name`.

use vstd::prelude::*;
use crate::strutil::{occurs, replace_all, replace_str};

verus! {

/// The pattern `{name}` for a substitution key.
pub open spec fn brace(k: Seq<char>) -> Seq<char> {
    seq!['{'] + k + seq!['}']
}

/// Applies the pairs in order: each step replaces every occurrence of
/// the braced key by the value.
pub open spec fn apply_substs(t: Seq<char>, pairs: Seq<(Seq<char>, Seq<char>)>) -> Seq<char>
    decreases pairs.len(),
{
    if pairs.len() == 0 {
        t
    } else {
        apply_substs(replace_all(t, brace(pairs[0].0), pairs[0].1), pairs.drop_first())
    }
}

/// Replaces each `{key}` placeholder in `placeholder` by the value
/// bound to `key`, taking the pairs in order.
pub fn replace(placeholder: &str, map: &Vec<(String, String)>) -> (r: String)
    ensures
        r@ == apply_substs(placeholder@, map.deep_view()),
{
    proof {
        reveal_strlit("{");
        reveal_strlit("}");
    }
    let ghost pairs = map.deep_view();
    let mut cur = placeholder.to_owned();
    proof {
        assert(pairs.skip(0) =~= pairs);
    }
    let mut i: usize = 0;
    while i < map.len()
        invariant
            i <= map.len(),
            pairs == map.deep_view(),
            pairs.len() == map.len(),
            "{"@ == seq!['{'],
            "}"@ == seq!['}'],
            apply_substs(placeholder@, pairs) == apply_substs(cur@, pairs.skip(i as int)),
        decreases map.len() - i,
    {
        let p = &map[i];
        let mut pat = "{".to_owned();
        pat.append(p.0.as_str());
        pat.append("}");
        proof {
            assert(pairs.skip(i as int)[0] == pairs[i as int]);
            assert(pat@ =~= brace(pairs[i as int].0));
            assert(pairs.skip(i as int).drop_first() =~= pairs.skip(i + 1));
        }
        cur = replace_str(cur.as_str(), pat.as_str(), p.1.as_str());
        i += 1;
    }
    proof {
        assert(pairs.skip(pairs.len() as int) =~= Seq::<(Seq<char>, Seq<char>)>::empty());
    }
    cur
}

/// Placeholder substitution into a URL text; the rule is the same as
/// for any other text.
pub fn replace_url(url: &str, map: &Vec<(String, String)>) -> (r: String)
    ensures
        r@ == apply_substs(url@, map.deep_view()),
{
    replace(url, map)
}

/// Substitution is the identity on a text in which no braced key of the
/// pair list occurs: replacing into a text with no matching placeholder
/// returns the text unchanged.
pub proof fn lemma_substs_absent(t: Seq<char>, pairs: Seq<(Seq<char>, Seq<char>)>)
    requires
        forall|j: int| 0 <= j < pairs.len() ==> !occurs(t, brace(#[trigger] pairs[j].0)),
    ensures
        apply_substs(t, pairs) == t,
    decreases pairs.len(),
{
    if pairs.len() > 0 {
        crate::strutil::lemma_replace_absent(t, brace(pairs[0].0), pairs[0].1);
        assert(forall|j: int|
            0 <= j < pairs.drop_first().len() ==> !occurs(
                t,
                brace(#[trigger] pairs.drop_first()[j].0),
            ));
        lemma_substs_absent(t, pairs.drop_first());
    }
}

} // verus!
