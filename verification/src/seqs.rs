//! General lemmas about `Seq::filter_map`, used to reason about the garbage
//! collector's sweeps, which drop expired table entries and rewrite the kept
//! ones.

use vstd::prelude::*;

verus! {

/// Every element of `s.filter_map(f)` is the image of some element of `s`.
pub proof fn lemma_filter_map_source<A, B>(s: Seq<A>, f: spec_fn(A) -> Option<B>)
    ensures
        forall|i: int|
            0 <= i < s.filter_map(f).len() ==> exists|j: int|
                0 <= j < s.len() && f(s[j]) == Some(#[trigger] s.filter_map(f)[i]),
    decreases s.len(),
{
    if s.len() > 0 {
        let rest = s.drop_last();
        lemma_filter_map_source(rest, f);
        assert forall|i: int| 0 <= i < s.filter_map(f).len() implies exists|j: int|
            0 <= j < s.len() && f(s[j]) == Some(#[trigger] s.filter_map(f)[i]) by {
            if i < rest.filter_map(f).len() {
                let j = choose|j: int|
                    0 <= j < rest.len() && f(rest[j]) == Some(rest.filter_map(f)[i]);
                assert(rest[j] == s[j]);
                assert(s.filter_map(f)[i] == rest.filter_map(f)[i]);
            } else {
                assert(f(s[s.len() - 1]) == Some(s.filter_map(f)[i]));
            }
        }
    }
}

/// The image of any kept element of `s` appears in `s.filter_map(f)`.
pub proof fn lemma_filter_map_keeps<A, B>(s: Seq<A>, f: spec_fn(A) -> Option<B>)
    ensures
        forall|j: int|
            0 <= j < s.len() && f(#[trigger] s[j]) is Some ==> s.filter_map(f).contains(
                f(s[j]).unwrap(),
            ),
    decreases s.len(),
{
    if s.len() > 0 {
        let rest = s.drop_last();
        lemma_filter_map_keeps(rest, f);
        assert forall|j: int|
            0 <= j < s.len() && f(#[trigger] s[j]) is Some implies s.filter_map(f).contains(
            f(s[j]).unwrap(),
        ) by {
            if j < s.len() - 1 {
                assert(rest[j] == s[j]);
                assert(rest.filter_map(f).contains(f(rest[j]).unwrap()));
                let k = choose|k: int|
                    0 <= k < rest.filter_map(f).len() && rest.filter_map(f)[k] == f(
                        rest[j],
                    ).unwrap();
                assert(s.filter_map(f)[k] == f(s[j]).unwrap());
            } else {
                let out = s.filter_map(f);
                assert(out[out.len() - 1] == f(s[j]).unwrap());
            }
        }
    }
}

/// A property holding of every kept image holds of every output element.
pub proof fn lemma_filter_map_all<A, B>(s: Seq<A>, f: spec_fn(A) -> Option<B>, p: spec_fn(B) -> bool)
    requires
        forall|j: int| 0 <= j < s.len() && f(#[trigger] s[j]) is Some ==> p(f(s[j]).unwrap()),
    ensures
        forall|i: int| 0 <= i < s.filter_map(f).len() ==> p(#[trigger] s.filter_map(f)[i]),
{
    lemma_filter_map_source(s, f);
    assert forall|i: int| 0 <= i < s.filter_map(f).len() implies p(
        #[trigger] s.filter_map(f)[i],
    ) by {
        let j = choose|j: int| 0 <= j < s.len() && f(s[j]) == Some(s.filter_map(f)[i]);
        assert(f(s[j]) is Some);
    }
}

/// Distinctness of a key survives filtering when `f` preserves that key.
pub proof fn lemma_filter_map_distinct_by<A, B, K>(
    s: Seq<A>,
    f: spec_fn(A) -> Option<B>,
    kin: spec_fn(A) -> K,
    kout: spec_fn(B) -> K,
)
    requires
        forall|a: A| #[trigger] f(a) is Some ==> kout(f(a).unwrap()) == kin(a),
        forall|i: int, j: int|
            0 <= i < j < s.len() ==> kin(#[trigger] s[i]) != kin(#[trigger] s[j]),
    ensures
        forall|i: int, j: int|
            0 <= i < j < s.filter_map(f).len() ==> kout(#[trigger] s.filter_map(f)[i]) != kout(
                #[trigger] s.filter_map(f)[j],
            ),
    decreases s.len(),
{
    if s.len() > 0 {
        let rest = s.drop_last();
        assert forall|i: int, j: int| 0 <= i < j < rest.len() implies kin(#[trigger] rest[i])
            != kin(#[trigger] rest[j]) by {
            assert(rest[i] == s[i] && rest[j] == s[j]);
        }
        lemma_filter_map_distinct_by(rest, f, kin, kout);
        lemma_filter_map_source(rest, f);
        let out = s.filter_map(f);
        let rout = rest.filter_map(f);
        assert forall|i: int, j: int| 0 <= i < j < out.len() implies kout(#[trigger] out[i])
            != kout(#[trigger] out[j]) by {
            if j < rout.len() {
                assert(out[i] == rout[i] && out[j] == rout[j]);
            } else {
                // `j` indexes the image of the last element of `s`.
                assert(f(s.last()) is Some);
                assert(kout(out[j]) == kin(s.last()));
                assert(out[i] == rout[i]);
                let m = choose|m: int| 0 <= m < rest.len() && f(rest[m]) == Some(rout[i]);
                assert(kout(rout[i]) == kin(rest[m]));
                assert(rest[m] == s[m]);
                assert(kin(s[m]) != kin(s[s.len() - 1]));
            }
        }
    }
}

} // verus!
