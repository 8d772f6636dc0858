//! Lexicographic order on strings, and a verified insertion sort.
//!
//! The canonical parameter string and the `Authorization` header both sort
//! their entries lexicographically. The order compares characters by code
//! point; since UTF-8 preserves code-point order, on the percent-encoded
//! (pure ASCII) strings this library sorts it is exactly byte-string order.

use vstd::prelude::*;
use vstd::relations::{antisymmetric, reflexive, sorted_by, strongly_connected, total_ordering, transitive};
use vstd::seq_lib::{lemma_sorted_unique, to_multiset_build, to_multiset_insert};
use vstd::utf8::char_u32_cast;

verus! {

/// Lexicographic order on character sequences, by code point.
pub open spec fn lex_le(a: Seq<char>, b: Seq<char>) -> bool
    decreases a.len(),
{
    if a.len() == 0 {
        true
    } else if b.len() == 0 {
        false
    } else if (a[0] as u32) < (b[0] as u32) {
        true
    } else if (a[0] as u32) > (b[0] as u32) {
        false
    } else {
        lex_le(a.drop_first(), b.drop_first())
    }
}

/// `lex_le` as a relation value, for `sort_by` and the ordering lemmas.
pub open spec fn lex_leq() -> spec_fn(Seq<char>, Seq<char>) -> bool {
    |a: Seq<char>, b: Seq<char>| lex_le(a, b)
}

proof fn lemma_lex_le_refl(a: Seq<char>)
    ensures
        lex_le(a, a),
    decreases a.len(),
{
    if a.len() > 0 {
        lemma_lex_le_refl(a.drop_first());
    }
}

proof fn lemma_lex_le_antisym(a: Seq<char>, b: Seq<char>)
    requires
        lex_le(a, b),
        lex_le(b, a),
    ensures
        a == b,
    decreases a.len(),
{
    if a.len() == 0 {
        assert(b.len() == 0);
        assert(a =~= b);
    } else {
        assert(b.len() > 0);
        char_u32_cast(a[0], a[0] as u32);
        char_u32_cast(b[0], b[0] as u32);
        assert(a[0] == b[0]);
        lemma_lex_le_antisym(a.drop_first(), b.drop_first());
        assert forall|i: int| 0 <= i < a.len() implies a[i] == b[i] by {
            if i > 0 {
                assert(a.drop_first()[i - 1] == b.drop_first()[i - 1]);
            }
        }
        assert(a =~= b);
    }
}

proof fn lemma_lex_le_trans(a: Seq<char>, b: Seq<char>, c: Seq<char>)
    requires
        lex_le(a, b),
        lex_le(b, c),
    ensures
        lex_le(a, c),
    decreases a.len(),
{
    if a.len() > 0 {
        assert(b.len() > 0);
        assert(c.len() > 0);
        if (a[0] as u32) == (b[0] as u32) && (b[0] as u32) == (c[0] as u32) {
            lemma_lex_le_trans(a.drop_first(), b.drop_first(), c.drop_first());
        }
    }
}

proof fn lemma_lex_le_connected(a: Seq<char>, b: Seq<char>)
    ensures
        lex_le(a, b) || lex_le(b, a),
    decreases a.len(),
{
    if a.len() > 0 && b.len() > 0 && (a[0] as u32) == (b[0] as u32) {
        lemma_lex_le_connected(a.drop_first(), b.drop_first());
    }
}

/// Law: `lex_le` is a total ordering, so sorting by it is well defined.
pub proof fn lemma_lex_total_ordering()
    ensures
        total_ordering(lex_leq()),
{
    let leq = lex_leq();
    assert(reflexive(leq)) by {
        assert forall|x: Seq<char>| #[trigger] leq(x, x) by {
            lemma_lex_le_refl(x);
        }
    }
    assert(antisymmetric(leq)) by {
        assert forall|x: Seq<char>, y: Seq<char>|
            #[trigger] leq(x, y) && #[trigger] leq(y, x) implies x == y by {
            lemma_lex_le_antisym(x, y);
        }
    }
    assert(transitive(leq)) by {
        assert forall|x: Seq<char>, y: Seq<char>, z: Seq<char>|
            #[trigger] leq(x, y) && #[trigger] leq(y, z) implies leq(x, z) by {
            lemma_lex_le_trans(x, y, z);
        }
    }
    assert(strongly_connected(leq)) by {
        assert forall|x: Seq<char>, y: Seq<char>| #[trigger] leq(x, y) || #[trigger] leq(
            y,
            x,
        ) by {
            lemma_lex_le_connected(x, y);
        }
    }
}

/// Compare two strings in the `lex_le` order.
pub fn str_le(a: &str, b: &str) -> (r: bool)
    ensures
        r == lex_le(a@, b@),
{
    let alen = a.unicode_len();
    let blen = b.unicode_len();
    let mut i: usize = 0;
    proof {
        assert(a@.skip(0) =~= a@);
        assert(b@.skip(0) =~= b@);
    }
    while i < alen && i < blen
        invariant
            i <= alen,
            i <= blen,
            alen == a@.len(),
            blen == b@.len(),
            lex_le(a@, b@) == lex_le(a@.skip(i as int), b@.skip(i as int)),
            lex_le(b@, a@) == lex_le(b@.skip(i as int), a@.skip(i as int)),
        decreases alen - i,
    {
        let ca = a.get_char(i);
        let cb = b.get_char(i);
        let ghost sa = a@.skip(i as int);
        let ghost sb = b@.skip(i as int);
        proof {
            assert(sa[0] == a@[i as int]);
            assert(sb[0] == b@[i as int]);
        }
        if (ca as u32) < (cb as u32) {
            proof {
                assert(lex_le(sa, sb));
            }
            return true;
        }
        if (ca as u32) > (cb as u32) {
            proof {
                assert(!lex_le(sa, sb));
            }
            return false;
        }
        proof {
            char_u32_cast(ca, ca as u32);
            char_u32_cast(cb, cb as u32);
            assert(ca == cb);
            assert(sa.drop_first() =~= a@.skip(i + 1));
            assert(sb.drop_first() =~= b@.skip(i + 1));
            assert(lex_le(sa, sb) == lex_le(a@.skip(i + 1), b@.skip(i + 1)));
            assert(lex_le(sb, sa) == lex_le(b@.skip(i + 1), a@.skip(i + 1)));
        }
        i = i + 1;
    }
    if i == alen {
        proof {
            assert(a@.skip(i as int) =~= Seq::<char>::empty());
            assert(lex_le(a@.skip(i as int), b@.skip(i as int)));
        }
        true
    } else {
        proof {
            assert(b@.skip(i as int) =~= Seq::<char>::empty());
            assert(a@.skip(i as int).len() > 0);
            assert(!lex_le(a@.skip(i as int), b@.skip(i as int)));
        }
        false
    }
}

/// The views of a sequence of strings.
pub open spec fn str_views(v: Seq<String>) -> Seq<Seq<char>> {
    v.map_values(|s: String| s@)
}

fn find_insert_idx(out: &Vec<String>, s: &String) -> (idx: usize)
    requires
        sorted_by(str_views(out@), lex_leq()),
    ensures
        idx <= out@.len(),
        forall|k: int| 0 <= k < idx ==> lex_le(#[trigger] str_views(out@)[k], s@),
        idx < out@.len() ==> !lex_le(str_views(out@)[idx as int], s@),
{
    let mut idx: usize = 0;
    while idx < out.len()
        invariant
            idx <= out@.len(),
            forall|k: int| 0 <= k < idx ==> lex_le(#[trigger] str_views(out@)[k], s@),
        decreases out@.len() - idx,
    {
        if !str_le(out[idx].as_str(), s.as_str()) {
            proof {
                assert(str_views(out@)[idx as int] == out@[idx as int]@);
            }
            return idx;
        }
        proof {
            assert(str_views(out@)[idx as int] == out@[idx as int]@);
        }
        idx = idx + 1;
    }
    idx
}

/// Insert a string into a sorted vector, keeping it sorted; the contents
/// afterwards are the old contents plus the new string.
pub fn insert_sorted(out: &mut Vec<String>, s: String)
    requires
        sorted_by(str_views(old(out)@), lex_leq()),
    ensures
        sorted_by(str_views(final(out)@), lex_leq()),
        str_views(final(out)@).to_multiset() == str_views(old(out)@).to_multiset().insert(s@),
{
    let idx = find_insert_idx(out, &s);
    let ghost pre = str_views(out@);
    proof {
        if (idx as int) < pre.len() {
            lemma_lex_le_connected(pre[idx as int], s@);
            assert(lex_le(s@, pre[idx as int]));
            assert forall|k: int| idx <= k < pre.len() implies lex_le(s@, #[trigger] pre[k]) by {
                if k > idx {
                    assert(lex_leq()(pre[idx as int], pre[k]));
                    lemma_lex_le_trans(s@, pre[idx as int], pre[k]);
                }
            }
        }
    }
    out.insert(idx, s);
    proof {
        let w = str_views(out@);
        assert(w =~= pre.insert(idx as int, s@)) by {
            assert(out@ == old(out)@.insert(idx as int, s));
            assert forall|k: int| 0 <= k < w.len() implies w[k] == pre.insert(idx as int, s@)[k]
                by {
                assert(w[k] == out@[k]@);
            }
        }
        to_multiset_insert(pre, idx as int, s@);
        assert forall|i: int, j: int| 0 <= i < j < w.len() implies lex_leq()(
            #[trigger] w[i],
            #[trigger] w[j],
        ) by {
            if j < idx {
                assert(lex_leq()(pre[i], pre[j]));
            } else if i > idx {
                assert(lex_leq()(pre[i - 1], pre[j - 1]));
            } else if i < idx && j == idx {
                assert(lex_le(pre[i], s@));
            } else if i == idx {
                assert(lex_le(s@, pre[j - 1]));
            } else {
                // i < idx < j
                assert(lex_le(pre[i], s@));
                assert(lex_le(s@, pre[j - 1]));
                lemma_lex_le_trans(pre[i], s@, pre[j - 1]);
            }
        }
    }
}

/// Sort strings into the `lex_le` order. The result is exactly `sort_by` of
/// the input's views: a sorted permutation of the input.
pub fn sort_strings(v: &Vec<String>) -> (r: Vec<String>)
    ensures
        str_views(r@) == str_views(v@).sort_by(lex_leq()),
        sorted_by(str_views(r@), lex_leq()),
        str_views(r@).to_multiset() == str_views(v@).to_multiset(),
{
    let mut out: Vec<String> = Vec::new();
    let mut i: usize = 0;
    proof {
        assert(str_views(out@) =~= Seq::<Seq<char>>::empty());
        assert(str_views(v@.take(0)) =~= Seq::<Seq<char>>::empty());
        assert(str_views(out@).to_multiset() =~= str_views(v@.take(0)).to_multiset());
    }
    while i < v.len()
        invariant
            i <= v@.len(),
            sorted_by(str_views(out@), lex_leq()),
            str_views(out@).to_multiset() == str_views(v@.take(i as int)).to_multiset(),
        decreases v@.len() - i,
    {
        let s = v[i].clone();
        proof {
            assert(s == v@[i as int]);
        }
        insert_sorted(&mut out, s);
        proof {
            let t = str_views(v@.take(i as int));
            assert(v@.take(i + 1) =~= v@.take(i as int).push(v@[i as int]));
            assert(str_views(v@.take(i + 1)) =~= t.push(v@[i as int]@));
            to_multiset_build(t, v@[i as int]@);
        }
        i = i + 1;
    }
    proof {
        assert(v@.take(v@.len() as int) =~= v@);
        let sv = str_views(v@);
        lemma_lex_total_ordering();
        sv.lemma_sort_by_ensures(lex_leq());
        lemma_sorted_unique(str_views(out@), sv.sort_by(lex_leq()), lex_leq());
    }
    out
}

} // verus!
