//! Ordering by text: the order of `str`'s comparison, and a stable sort of items
//! by a text key, ascending or descending.
use vstd::prelude::*;

verus! {

/// `a` comes strictly before `b` in the order of `str`'s comparison: character by character by
/// code point (UTF-8 keeps this order), a proper prefix first.
pub open spec fn lex_lt(a: Seq<char>, b: Seq<char>) -> bool
    decreases a.len(),
{
    if a.len() == 0 {
        b.len() > 0
    } else if b.len() == 0 {
        false
    } else if a[0] != b[0] {
        a[0] < b[0]
    } else {
        lex_lt(a.skip(1), b.skip(1))
    }
}

pub proof fn lemma_lex_irreflexive(a: Seq<char>)
    ensures
        !lex_lt(a, a),
    decreases a.len(),
{
    if a.len() > 0 {
        lemma_lex_irreflexive(a.skip(1));
    }
}

pub proof fn lemma_lex_total(a: Seq<char>, b: Seq<char>)
    ensures
        a == b || lex_lt(a, b) || lex_lt(b, a),
    decreases a.len(),
{
    if a.len() > 0 && b.len() > 0 && a[0] == b[0] {
        lemma_lex_total(a.skip(1), b.skip(1));
        if a.skip(1) == b.skip(1) {
            assert(a =~= seq![a[0]] + a.skip(1));
            assert(b =~= seq![b[0]] + b.skip(1));
        }
    } else if a.len() == 0 && b.len() == 0 {
        assert(a =~= b);
    } else if a.len() > 0 && b.len() > 0 {
    }
}

pub proof fn lemma_lex_transitive(a: Seq<char>, b: Seq<char>, c: Seq<char>)
    requires
        lex_lt(a, b),
        lex_lt(b, c),
    ensures
        lex_lt(a, c),
    decreases a.len(),
{
    if a.len() > 0 && b.len() > 0 && c.len() > 0 && a[0] == b[0] && b[0] == c[0] {
        lemma_lex_transitive(a.skip(1), b.skip(1), c.skip(1));
    }
}

/// Whether `str`'s comparison puts `a` before `b`.
pub fn text_lt(a: &str, b: &str) -> (r: bool)
    ensures
        r == lex_lt(a@, b@),
{
    let x = crate::text::chars_of(a);
    let y = crate::text::chars_of(b);
    let mut i: usize = 0;
    proof {
        assert(a@.skip(0) =~= a@);
        assert(b@.skip(0) =~= b@);
    }
    while i < x.len() && i < y.len() && x[i] == y[i]
        invariant
            i <= x@.len(),
            i <= y@.len(),
            x@ == a@,
            y@ == b@,
            lex_lt(a@, b@) == lex_lt(a@.skip(i as int), b@.skip(i as int)),
        decreases x.len() - i,
    {
        proof {
            assert(a@.skip(i as int).skip(1) =~= a@.skip(i + 1));
            assert(b@.skip(i as int).skip(1) =~= b@.skip(i + 1));
        }
        i = i + 1;
    }
    if i == x.len() {
        i < y.len()
    } else if i == y.len() {
        false
    } else {
        x[i] < y[i]
    }
}

/// `k` goes before `other` in the order asked for.
pub open spec fn goes_before(k: Seq<char>, other: Seq<char>, desc: bool) -> bool {
    if desc {
        lex_lt(other, k)
    } else {
        lex_lt(k, other)
    }
}

/// Where an item with key `k` is inserted into sorted items: before the first item it goes
/// before, after all items with an equal key.
pub open spec fn insert_pos<T>(s: Seq<(T, String)>, k: Seq<char>, desc: bool) -> int
    decreases s.len(),
{
    if s.len() == 0 {
        0
    } else if goes_before(k, s[0].1@, desc) {
        0
    } else {
        1 + insert_pos(s.skip(1), k, desc)
    }
}

/// The items ordered by their keys; items with equal keys keep their order.
pub open spec fn stable_sort<T>(s: Seq<(T, String)>, desc: bool) -> Seq<(T, String)>
    decreases s.len(),
{
    if s.len() == 0 {
        s
    } else {
        let r = stable_sort(s.drop_last(), desc);
        r.insert(insert_pos(r, s.last().1@, desc), s.last())
    }
}

proof fn lemma_insert_pos_bounds<T>(s: Seq<(T, String)>, k: Seq<char>, desc: bool)
    ensures
        0 <= insert_pos(s, k, desc) <= s.len(),
    decreases s.len(),
{
    if s.len() > 0 && !goes_before(k, s[0].1@, desc) {
        lemma_insert_pos_bounds(s.skip(1), k, desc);
    }
}

proof fn lemma_stable_sort_len<T>(s: Seq<(T, String)>, desc: bool)
    ensures
        stable_sort(s, desc).len() == s.len(),
    decreases s.len(),
{
    if s.len() > 0 {
        lemma_stable_sort_len(s.drop_last(), desc);
        lemma_insert_pos_bounds(stable_sort(s.drop_last(), desc), s.last().1@, desc);
    }
}

fn position_for<T>(out: &Vec<(T, String)>, k: &str, desc: bool) -> (r: usize)
    ensures
        r == insert_pos(out@, k@, desc),
        r <= out@.len(),
{
    let mut j: usize = 0;
    proof {
        assert(out@.skip(0) =~= out@);
    }
    while j < out.len()
        invariant
            j <= out@.len(),
            insert_pos(out@, k@, desc) == j + insert_pos(out@.skip(j as int), k@, desc),
        decreases out.len() - j,
    {
        let before = if desc {
            text_lt(out[j].1.as_str(), k)
        } else {
            text_lt(k, out[j].1.as_str())
        };
        if before {
            proof {
                assert(out@.skip(j as int)[0] == out@[j as int]);
            }
            return j;
        }
        proof {
            assert(out@.skip(j as int)[0] == out@[j as int]);
            assert(out@.skip(j as int).skip(1) =~= out@.skip(j + 1));
        }
        j = j + 1;
    }
    j
}

/// The items ordered by their keys, ascending or descending (see `stable_sort`).
pub fn sort_by_key<T>(items: Vec<(T, String)>, desc: bool) -> (r: Vec<(T, String)>)
    ensures
        r@ == stable_sort(items@, desc),
{
    let ghost all = items@;
    let mut items = items;
    let n0 = items.len();
    let mut out: Vec<(T, String)> = Vec::new();
    let mut done: usize = 0;
    proof {
        assert(all.skip(0) =~= all);
        assert(all.take(0) =~= Seq::<(T, String)>::empty());
    }
    while items.len() > 0
        invariant
            done + items@.len() == all.len(),
            all.len() == n0,
            items@ == all.skip(done as int),
            out@ == stable_sort(all.take(done as int), desc),
        decreases items@.len(),
    {
        let it = items.remove(0);
        proof {
            assert(all[done as int] == it);
            assert(items@ =~= all.skip(done + 1));
            assert(all.take(done + 1).drop_last() =~= all.take(done as int));
            assert(all.take(done + 1).last() == it);
        }
        let pos = position_for(&out, it.1.as_str(), desc);
        out.insert(pos, it);
        done = done + 1;
    }
    proof {
        assert(all.take(all.len() as int) =~= all);
    }
    out
}

// ─── What the sort guarantees ──────────────────────────────────────────────

/// The keys of `s` are in the order asked for: no item goes before an earlier one.
pub open spec fn ordered<T>(s: Seq<(T, String)>, desc: bool) -> bool {
    forall|i: int, j: int| 0 <= i < j < s.len() ==> !goes_before(#[trigger] s[j].1@, #[trigger] s[i].1@, desc)
}

proof fn lemma_goes_before_transitive(a: Seq<char>, b: Seq<char>, c: Seq<char>, desc: bool)
    requires
        goes_before(a, b, desc),
        goes_before(b, c, desc),
    ensures
        goes_before(a, c, desc),
{
    if desc {
        lemma_lex_transitive(c, b, a);
    } else {
        lemma_lex_transitive(a, b, c);
    }
}

proof fn lemma_not_before_total(a: Seq<char>, b: Seq<char>, desc: bool)
    requires
        !goes_before(a, b, desc),
    ensures
        a == b || goes_before(b, a, desc),
{
    lemma_lex_total(a, b);
}

proof fn lemma_insert_pos_split<T>(s: Seq<(T, String)>, k: Seq<char>, desc: bool)
    requires
        ordered(s, desc),
    ensures
        forall|i: int| 0 <= i < insert_pos(s, k, desc) ==> !goes_before(k, #[trigger] s[i].1@, desc),
        forall|i: int| insert_pos(s, k, desc) <= i < s.len() ==> goes_before(k, #[trigger] s[i].1@, desc),
    decreases s.len(),
{
    lemma_insert_pos_bounds(s, k, desc);
    if s.len() > 0 {
        let t = s.skip(1);
        assert(ordered(t, desc)) by {
            assert forall|i: int, j: int| 0 <= i < j < t.len() implies !goes_before(#[trigger] t[j].1@, #[trigger] t[i].1@, desc) by {
                assert(t[i] == s[i + 1]);
                assert(t[j] == s[j + 1]);
            }
        }
        if goes_before(k, s[0].1@, desc) {
            assert forall|i: int| 0 <= i < s.len() implies goes_before(k, #[trigger] s[i].1@, desc) by {
                if i > 0 {
                    assert(!goes_before(s[i].1@, s[0].1@, desc));
                    lemma_not_before_total(s[i].1@, s[0].1@, desc);
                    if s[i].1@ != s[0].1@ {
                        lemma_goes_before_transitive(k, s[0].1@, s[i].1@, desc);
                    }
                }
            }
        } else {
            assert(insert_pos(s, k, desc) == 1 + insert_pos(t, k, desc));
            lemma_insert_pos_split(t, k, desc);
            assert forall|i: int| 0 <= i < insert_pos(s, k, desc) implies !goes_before(k, #[trigger] s[i].1@, desc) by {
                if i > 0 {
                    assert(s[i] == t[i - 1]);
                }
            }
            assert forall|i: int| insert_pos(s, k, desc) <= i < s.len() implies goes_before(k, #[trigger] s[i].1@, desc) by {
                assert(s[i] == t[i - 1]);
            }
        }
    }
}

/// A stable sort leaves its items in the order asked for.
pub proof fn law_sort_is_ordered<T>(s: Seq<(T, String)>, desc: bool)
    ensures
        ordered(stable_sort(s, desc), desc),
    decreases s.len(),
{
    if s.len() > 0 {
        let r = stable_sort(s.drop_last(), desc);
        let k = s.last().1@;
        law_sort_is_ordered(s.drop_last(), desc);
        lemma_insert_pos_split(r, k, desc);
        let p = insert_pos(r, k, desc);
        lemma_insert_pos_bounds(r, k, desc);
        let out = r.insert(p, s.last());
        assert forall|i: int, j: int| 0 <= i < j < out.len() implies !goes_before(#[trigger] out[j].1@, #[trigger] out[i].1@, desc) by {
            if i < p && j < p {
                assert(out[i] == r[i] && out[j] == r[j]);
            } else if i < p && j == p {
                assert(out[i] == r[i]);
                assert(!goes_before(k, r[i].1@, desc));
            } else if i < p && j > p {
                assert(out[i] == r[i] && out[j] == r[j - 1]);
            } else if i == p {
                assert(out[j] == r[j - 1]);
                assert(goes_before(k, r[j - 1].1@, desc));
                if goes_before(r[j - 1].1@, k, desc) {
                    if desc {
                        lemma_lex_transitive(k, r[j - 1].1@, k);
                    } else {
                        lemma_lex_transitive(k, r[j - 1].1@, k);
                    }
                    lemma_lex_irreflexive(k);
                }
            } else {
                assert(out[i] == r[i - 1] && out[j] == r[j - 1]);
            }
        }
    }
}

/// A stable sort keeps exactly the items it was given.
pub proof fn law_sort_is_permutation<T>(s: Seq<(T, String)>, desc: bool)
    ensures
        stable_sort(s, desc).to_multiset() == s.to_multiset(),
    decreases s.len(),
{
    broadcast use vstd::seq_lib::group_to_multiset_ensures;
    if s.len() > 0 {
        let r = stable_sort(s.drop_last(), desc);
        law_sort_is_permutation(s.drop_last(), desc);
        lemma_insert_pos_bounds(r, s.last().1@, desc);
        assert(s =~= s.drop_last().push(s.last()));
        assert(r.insert(insert_pos(r, s.last().1@, desc), s.last()).to_multiset() =~= r.to_multiset().insert(s.last()));
    }
}

} // verus!
