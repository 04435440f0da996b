//! Lexicographic order on text by character, and sorting a list of paths
//! into that order.
use vstd::prelude::*;
use vstd::string::*;

verus! {

/// `a` comes no later than `b` when compared character by character.
pub open spec fn text_le(a: Seq<char>, b: Seq<char>) -> bool
    decreases a.len(),
{
    if a.len() == 0 {
        true
    } else if b.len() == 0 {
        false
    } else if a[0] != b[0] {
        a[0] < b[0]
    } else {
        text_le(a.drop_first(), b.drop_first())
    }
}

/// Every earlier element comes no later than every later one.
pub open spec fn texts_sorted(s: Seq<Seq<char>>) -> bool {
    forall|i: int, j: int| 0 <= i < j < s.len() ==> text_le(#[trigger] s[i], #[trigger] s[j])
}

/// The characters of each string of a list.
pub open spec fn texts_of(v: Seq<String>) -> Seq<Seq<char>> {
    v.map_values(|s: String| s@)
}

proof fn lemma_text_le_total(a: Seq<char>, b: Seq<char>)
    ensures
        text_le(a, b) || text_le(b, a),
    decreases a.len(),
{
    if a.len() > 0 && b.len() > 0 && a[0] == b[0] {
        lemma_text_le_total(a.drop_first(), b.drop_first());
    }
}

proof fn lemma_text_le_transitive(a: Seq<char>, b: Seq<char>, c: Seq<char>)
    requires
        text_le(a, b),
        text_le(b, c),
    ensures
        text_le(a, c),
    decreases a.len(),
{
    if a.len() > 0 && b.len() > 0 && c.len() > 0 {
        if a[0] == b[0] && b[0] == c[0] {
            lemma_text_le_transitive(a.drop_first(), b.drop_first(), c.drop_first());
        }
    }
}

/// Whether `a` comes no later than `b`, character by character.
pub fn text_le_exec(a: &str, b: &str) -> (r: bool)
    ensures
        r == text_le(a@, b@),
{
    let n = a.unicode_len();
    let m = b.unicode_len();
    let mut i: usize = 0;
    assert(a@.subrange(0, n as int) =~= a@);
    assert(b@.subrange(0, m as int) =~= b@);
    while i < n && i < m
        invariant
            n == a@.len(),
            m == b@.len(),
            i <= n,
            i <= m,
            text_le(a@, b@) == text_le(a@.subrange(i as int, n as int), b@.subrange(i as int, m as int)),
        decreases n - i,
    {
        let x = a.get_char(i);
        let y = b.get_char(i);
        proof {
            let sa = a@.subrange(i as int, n as int);
            let sb = b@.subrange(i as int, m as int);
            assert(sa[0] == x && sb[0] == y);
            assert(sa.drop_first() =~= a@.subrange(i + 1, n as int));
            assert(sb.drop_first() =~= b@.subrange(i + 1, m as int));
        }
        if x != y {
            return x < y;
        }
        i = i + 1;
    }
    i == n
}

/// The paths in text order, each as often as it came.
pub fn sort_texts(v: Vec<String>) -> (r: Vec<String>)
    ensures
        texts_sorted(texts_of(r@)),
        texts_of(r@).to_multiset() == texts_of(v@).to_multiset(),
{
    let mut out: Vec<String> = Vec::new();
    let mut i: usize = 0;
    assert(texts_of(out@) =~= texts_of(v@).subrange(0, 0));
    while i < v.len()
        invariant
            i <= v.len(),
            texts_sorted(texts_of(out@)),
            texts_of(out@).to_multiset() == texts_of(v@).subrange(0, i as int).to_multiset(),
        decreases v.len() - i,
    {
        let x = v[i].clone();
        // find the first element that comes after x
        let mut p: usize = 0;
        while p < out.len() && text_le_exec(out[p].as_str(), x.as_str())
            invariant
                p <= out.len(),
                forall|k: int| 0 <= k < p ==> text_le(#[trigger] out@[k]@, x@),
            decreases out.len() - p,
        {
            p = p + 1;
        }
        let ghost before = out@;
        proof {
            if p < out.len() {
                lemma_text_le_total(out@[p as int]@, x@);
            }
        }
        out.insert(p, x);
        proof {
            let t = texts_of(out@);
            assert forall|a: int, b: int| 0 <= a < b < t.len() implies text_le(
                #[trigger] t[a],
                #[trigger] t[b],
            ) by {
                let tb = texts_of(before);
                if b < p {
                    assert(t[a] == tb[a] && t[b] == tb[b]);
                } else if b == p {
                    assert(t[a] == before[a]@);
                } else if a == p {
                    assert(t[b] == before[b - 1]@);
                    if b - 1 > p {
                        assert(text_le(tb[p as int], tb[b - 1]));
                        lemma_text_le_transitive(x@, before[p as int]@, before[b - 1]@);
                    }
                } else if a < p {
                    assert(t[a] == tb[a] && t[b] == tb[b - 1]);
                } else {
                    assert(t[a] == tb[a - 1] && t[b] == tb[b - 1]);
                }
            }
            let to = texts_of(out@);
            let tb = texts_of(before);
            let tv = texts_of(v@);
            assert(to.remove(p as int) =~= tb);
            assert(to[p as int] == tv[i as int]);
            to.to_multiset_ensures();
            tb.to_multiset_ensures();
            tv.subrange(0, i as int).to_multiset_ensures();
            assert(to.contains(tv[i as int]));
            assert(to.to_multiset().count(tv[i as int]) > 0);
            assert(to.remove(p as int).to_multiset() =~= to.to_multiset().remove(tv[i as int]));
            assert(to.to_multiset() =~= tb.to_multiset().insert(tv[i as int]));
            assert(tv.subrange(0, i + 1) =~= tv.subrange(0, i as int).push(tv[i as int]));
        }
        i = i + 1;
    }
    assert(texts_of(v@).subrange(0, v.len() as int) =~= texts_of(v@));
    out
}

} // verus!
