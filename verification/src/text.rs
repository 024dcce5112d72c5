//! Comparison of strings by their characters.
use vstd::prelude::*;

verus! {

/// `k` characters are common to the start of `a` and `b`.
pub open spec fn common_prefix(a: Seq<char>, b: Seq<char>, k: int) -> bool {
    &&& 0 <= k <= a.len()
    &&& k <= b.len()
    &&& forall|i: int| 0 <= i < k ==> a[i] == b[i]
}

/// `a` comes strictly before `b` in lexicographic order, characters compared by
/// code point: after a common prefix, either `a` ends and `b` goes on, or `a`
/// holds the smaller character.
pub open spec fn lex_lt(a: Seq<char>, b: Seq<char>) -> bool {
    exists|k: int|
        #[trigger] common_prefix(a, b, k) && k < b.len() && (k == a.len() || (a[k] as u32)
            < (b[k] as u32))
}

/// `a` comes before `b` or equals it.
pub open spec fn lex_le(a: Seq<char>, b: Seq<char>) -> bool {
    !lex_lt(b, a)
}

/// A sequence of strings in ascending lexicographic order.
pub open spec fn lex_sorted(names: Seq<Seq<char>>) -> bool {
    forall|i: int, j: int| 0 <= i < j < names.len() ==> lex_le(names[i], names[j])
}

/// The order is transitive.
pub proof fn lemma_lex_lt_transitive(a: Seq<char>, b: Seq<char>, c: Seq<char>)
    requires
        lex_lt(a, b),
        lex_lt(b, c),
    ensures
        lex_lt(a, c),
{
    let k1 = choose|k: int|
        #[trigger] common_prefix(a, b, k) && k < b.len() && (k == a.len() || (a[k] as u32)
            < (b[k] as u32));
    let k2 = choose|k: int|
        #[trigger] common_prefix(b, c, k) && k < c.len() && (k == b.len() || (b[k] as u32)
            < (c[k] as u32));
    let k = if k1 <= k2 { k1 } else { k2 };
    assert(common_prefix(a, c, k));
}

/// No string comes before itself.
pub proof fn lemma_lex_lt_irreflexive(a: Seq<char>)
    ensures
        !lex_lt(a, a),
{
}

/// Of two different strings one comes before the other.
pub proof fn lemma_lex_total(a: Seq<char>, b: Seq<char>)
    ensures
        a == b || lex_lt(a, b) || lex_lt(b, a),
{
    if a != b && !lex_lt(a, b) && !lex_lt(b, a) {
        lemma_first_difference(a, b, 0);
    }
}

/// Two strings that agree on their first `k` characters and are not equal part
/// ways at some later position, which orders them.
proof fn lemma_first_difference(a: Seq<char>, b: Seq<char>, k: int)
    requires
        common_prefix(a, b, k),
        a != b,
    ensures
        lex_lt(a, b) || lex_lt(b, a),
    decreases a.len() - k,
{
    if k == a.len() {
        if k == b.len() {
            assert(a =~= b);
        } else {
            assert(common_prefix(a, b, k));
        }
    } else if k == b.len() {
        assert(common_prefix(b, a, k));
    } else if a[k] == b[k] {
        assert(common_prefix(a, b, k + 1));
        lemma_first_difference(a, b, k + 1);
    } else {
        assert(common_prefix(b, a, k));
        if (a[k] as u32) < (b[k] as u32) {
        } else {
            assert((b[k] as u32) < (a[k] as u32)) by {
                vstd::utf8::char_u32_cast(a[k], a[k] as u32);
                vstd::utf8::char_u32_cast(b[k], b[k] as u32);
            }
        }
    }
}

/// Whether two strings hold the same characters.
pub fn str_eq(a: &str, b: &str) -> (r: bool)
    ensures
        r == (a@ == b@),
{
    broadcast use vstd::utf8::encode_utf8_decode_utf8;

    let x = a.as_bytes();
    let y = b.as_bytes();
    if x.len() != y.len() {
        return false;
    }
    let mut i: usize = 0;
    while i < x.len()
        invariant
            i <= x.len(),
            x.len() == y.len(),
            x@ == vstd::utf8::encode_utf8(a@),
            y@ == vstd::utf8::encode_utf8(b@),
            forall|j: int| 0 <= j < i ==> x@[j] == y@[j],
        decreases x.len() - i,
    {
        if x[i] != y[i] {
            return false;
        }
        i += 1;
    }
    assert(x@ =~= y@);
    assert(vstd::utf8::decode_utf8(vstd::utf8::encode_utf8(a@)) == a@);
    assert(vstd::utf8::decode_utf8(vstd::utf8::encode_utf8(b@)) == b@);
    true
}

/// Whether `a` comes strictly before `b` in lexicographic order.
pub fn str_lt(a: &str, b: &str) -> (r: bool)
    ensures
        r == lex_lt(a@, b@),
{
    let n: usize = a.unicode_len();
    let m: usize = b.unicode_len();
    let mut i: usize = 0;
    while i < n && i < m
        invariant
            n == a@.len(),
            m == b@.len(),
            common_prefix(a@, b@, i as int),
        decreases n - i,
    {
        let x = a.get_char(i);
        let y = b.get_char(i);
        if x != y {
            let r = (x as u32) < (y as u32);
            proof {
                lemma_prefix_decides(a@, b@, i as int);
            }
            return r;
        }
        i += 1;
    }
    proof {
        lemma_prefix_decides(a@, b@, i as int);
    }
    n < m
}

/// Once the longest common prefix of two strings is known, their order is
/// read off at its end.
proof fn lemma_prefix_decides(a: Seq<char>, b: Seq<char>, k: int)
    requires
        common_prefix(a, b, k),
        k == a.len() || k == b.len() || a[k] != b[k],
    ensures
        lex_lt(a, b) == (k < b.len() && (k == a.len() || (a[k] as u32) < (b[k] as u32))),
{
    if lex_lt(a, b) {
        let w = choose|w: int|
            #[trigger] common_prefix(a, b, w) && w < b.len() && (w == a.len() || (a[w] as u32)
                < (b[w] as u32));
        if w < k {
            assert(a[w] == b[w]);
        } else if w > k {
            assert(a[k] == b[k]);
        }
    }
}

/// The characters of each string of a list.
pub open spec fn names_view(names: Seq<String>) -> Seq<Seq<char>> {
    names.map_values(|s: String| s@)
}

/// Inserting an item into a sequence adds it to what the sequence holds.
proof fn lemma_insert_holds(s: Seq<Seq<char>>, p: int, x: Seq<char>)
    requires
        0 <= p <= s.len(),
    ensures
        s.insert(p, x).to_multiset() == s.to_multiset().insert(x),
{
    broadcast use vstd::seq_lib::group_to_multiset_ensures;

    let t = s.insert(p, x);
    assert(t[p] == x);
    assert(t.remove(p) =~= s);
    vstd::seq_lib::to_multiset_remove(t, p);
    assert(t.to_multiset().count(x) > 0) by {
        assert(t.contains(x));
    }
    assert(t.to_multiset() =~= t.to_multiset().remove(x).insert(x));
}

/// A string that comes before the item at `p` of a sorted sequence, and not
/// before any item in front of `p`, can be inserted at `p`.
proof fn lemma_insert_sorted(s: Seq<Seq<char>>, p: int, x: Seq<char>)
    requires
        lex_sorted(s),
        0 <= p <= s.len(),
        forall|k: int| 0 <= k < p ==> lex_le(#[trigger] s[k], x),
        p < s.len() ==> lex_lt(x, s[p]),
    ensures
        lex_sorted(s.insert(p, x)),
{
    let t = s.insert(p, x);
    assert(t.len() == s.len() + 1);
    assert forall|i: int, j: int| 0 <= i < j < t.len() implies lex_le(t[i], t[j]) by {
        if j < p {
            assert(t[i] == s[i] && t[j] == s[j]);
        } else if j == p {
            assert(t[i] == s[i] && t[j] == x);
            assert(lex_le(s[i], x));
        } else if i < p {
            assert(t[i] == s[i] && t[j] == s[j - 1]);
            assert(lex_le(s[i], s[j - 1]));
        } else if i == p {
            assert(t[i] == x && t[j] == s[j - 1]);
            if lex_lt(s[j - 1], x) {
                lemma_lex_lt_transitive(s[j - 1], x, s[p]);
                if j - 1 == p {
                    lemma_lex_lt_irreflexive(s[p]);
                } else {
                    assert(lex_le(s[p], s[j - 1]));
                }
            }
        } else {
            assert(t[i] == s[i - 1] && t[j] == s[j - 1]);
            assert(lex_le(s[i - 1], s[j - 1]));
        }
    }
}

/// The given names in ascending lexicographic order: the same names, each as
/// often as it was given.
pub fn sorted_names(names: &Vec<String>) -> (r: Vec<String>)
    ensures
        lex_sorted(names_view(r@)),
        names_view(r@).to_multiset() == names_view(names@).to_multiset(),
{
    let mut out: Vec<String> = Vec::new();
    let mut i: usize = 0;
    assert(names_view(names@).take(0) =~= names_view(out@));
    while i < names.len()
        invariant
            i <= names.len(),
            lex_sorted(names_view(out@)),
            names_view(out@).to_multiset() == names_view(names@).take(i as int).to_multiset(),
        decreases names.len() - i,
    {
        let name = names[i].clone();
        let mut p: usize = 0;
        while p < out.len() && !str_lt(name.as_str(), out[p].as_str())
            invariant
                p <= out.len(),
                forall|k: int| 0 <= k < p ==> lex_le(#[trigger] names_view(out@)[k], name@),
            decreases out.len() - p,
        {
            p += 1;
        }
        proof {
            let before = names_view(out@);
            lemma_insert_sorted(before, p as int, name@);
            lemma_insert_holds(before, p as int, name@);
            assert(names_view(out@.insert(p as int, name)) =~= before.insert(p as int, name@));
            let taken = names_view(names@).take(i as int);
            assert(names_view(names@).take(i + 1) =~= taken.push(name@));
            vstd::seq_lib::to_multiset_build(taken, name@);
        }
        out.insert(p, name);
        i += 1;
    }
    assert(names_view(names@).take(names.len() as int) =~= names_view(names@));
    out
}

/// A sorted list of names holds what the unsorted list held: the same set of
/// names, and no name twice where the unsorted list held none twice.
pub proof fn lemma_same_names(a: Seq<Seq<char>>, b: Seq<Seq<char>>)
    requires
        a.to_multiset() == b.to_multiset(),
    ensures
        a.len() == b.len(),
        a.to_set() == b.to_set(),
        b.no_duplicates() ==> a.no_duplicates(),
{
    broadcast use vstd::seq_lib::group_to_multiset_ensures;

    assert forall|x: Seq<char>| a.to_set().contains(x) == b.to_set().contains(x) by {
        assert(a.contains(x) <==> a.to_multiset().count(x) > 0);
        assert(b.contains(x) <==> b.to_multiset().count(x) > 0);
    }
    assert(a.to_set() =~= b.to_set());
    assert(a.to_multiset().len() == a.len());
    assert(b.to_multiset().len() == b.len());
    if b.no_duplicates() {
        b.lemma_multiset_has_no_duplicates();
        a.lemma_multiset_has_no_duplicates_conv();
    }
}

/// What the rest of a listing without repetition holds: everything but its
/// first name.
proof fn lemma_rest_of_listing(a: Seq<Seq<char>>)
    requires
        a.no_duplicates(),
        a.len() > 0,
        lex_sorted(a),
    ensures
        a.drop_first().no_duplicates(),
        lex_sorted(a.drop_first()),
        forall|x: Seq<char>| #[trigger] a.drop_first().contains(x) <==> a.contains(x) && x != a[0],
{
    let rest = a.drop_first();
    assert forall|x: Seq<char>| #[trigger] rest.contains(x) <==> a.contains(x) && x != a[0] by {
        if rest.contains(x) {
            let k = choose|k: int| 0 <= k < rest.len() && rest[k] == x;
            assert(a[k + 1] == x);
        }
        if a.contains(x) && x != a[0] {
            let k = choose|k: int| 0 <= k < a.len() && a[k] == x;
            assert(rest[k - 1] == x);
        }
    }
    assert forall|i: int, j: int| 0 <= i < j < rest.len() implies lex_le(rest[i], rest[j]) by {
        assert(rest[i] == a[i + 1] && rest[j] == a[j + 1]);
    }
}

/// A set of names has one sorted listing without repetition: two such
/// listings of the same names are the same sequence.
pub proof fn lemma_sorted_listing_is_unique(a: Seq<Seq<char>>, b: Seq<Seq<char>>)
    requires
        lex_sorted(a),
        lex_sorted(b),
        a.no_duplicates(),
        b.no_duplicates(),
        a.to_set() == b.to_set(),
    ensures
        a == b,
    decreases a.len(),
{
    a.unique_seq_to_set();
    b.unique_seq_to_set();
    if a.len() == 0 {
        assert(a =~= b);
    } else {
        assert(a.to_set().contains(a[0]));
        assert(b.to_set().contains(b[0]));
        let j = choose|j: int| 0 <= j < b.len() && b[j] == a[0];
        let i = choose|i: int| 0 <= i < a.len() && a[i] == b[0];
        if i > 0 {
            assert(lex_le(a[0], a[i]));
        }
        if j > 0 {
            assert(lex_le(b[0], b[j]));
        }
        lemma_lex_lt_irreflexive(a[0]);
        lemma_lex_total(a[0], b[0]);
        assert(a[0] == b[0]);
        lemma_rest_of_listing(a);
        lemma_rest_of_listing(b);
        let a1 = a.drop_first();
        let b1 = b.drop_first();
        assert forall|x: Seq<char>| a1.to_set().contains(x) == b1.to_set().contains(x) by {
            assert(a.to_set().contains(x) == b.to_set().contains(x));
            assert(a.to_set().contains(x) == a.contains(x));
            assert(b.to_set().contains(x) == b.contains(x));
            assert(a1.to_set().contains(x) == a1.contains(x));
            assert(b1.to_set().contains(x) == b1.contains(x));
        }
        assert(a1.to_set() =~= b1.to_set());
        lemma_sorted_listing_is_unique(a1, b1);
        assert(a =~= b) by {
            assert forall|k: int| 0 <= k < a.len() implies a[k] == b[k] by {
                if k > 0 {
                    assert(a[k] == a1[k - 1] && b[k] == b1[k - 1]);
                }
            }
        }
    }
}

} // verus!
