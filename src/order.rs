use vstd::prelude::*;

use crate::torrent::{MyTorrent, name_of, opt_chars};

verus! {

/// Lexicographic order on character sequences, characters compared by scalar value.
/// This is the order of `str`'s `Ord`, since UTF-8 keeps the order of scalar values.
pub open spec fn chars_le(a: Seq<char>, b: Seq<char>) -> bool
    decreases a.len(),
{
    if a.len() == 0 {
        true
    } else if b.len() == 0 {
        false
    } else if (a[0] as u32) < (b[0] as u32) {
        true
    } else if (a[0] as u32) > (b[0] as u32) {
        false
    } else {
        chars_le(a.drop_first(), b.drop_first())
    }
}

/// The order on optional names: an absent name comes before every present one,
/// and present names are compared lexicographically.
pub open spec fn name_le(a: Option<Seq<char>>, b: Option<Seq<char>>) -> bool {
    match a {
        None => true,
        Some(x) => match b {
            None => false,
            Some(y) => chars_le(x, y),
        },
    }
}

/// Inserts `x` into `s` after the last element whose name is not greater than its own.
pub open spec fn insert_by_name(s: Seq<MyTorrent>, x: MyTorrent) -> Seq<MyTorrent>
    decreases s.len(),
{
    if s.len() == 0 {
        seq![x]
    } else if name_le(name_of(s.last()), name_of(x)) {
        s.push(x)
    } else {
        insert_by_name(s.drop_last(), x).push(s.last())
    }
}

/// The stable sort of `s` by name.
pub open spec fn sort_by_name(s: Seq<MyTorrent>) -> Seq<MyTorrent>
    decreases s.len(),
{
    if s.len() == 0 {
        s
    } else {
        insert_by_name(sort_by_name(s.drop_last()), s.last())
    }
}

/// Every name in `s` is not greater than each name after it.
pub open spec fn is_sorted_by_name(s: Seq<MyTorrent>) -> bool {
    forall|i: int, j: int| 0 <= i < j < s.len() ==> name_le(name_of(#[trigger] s[i]), name_of(#[trigger] s[j]))
}

/// The elements of `s` whose name is `k`, in their order in `s`.
pub open spec fn with_name(s: Seq<MyTorrent>, k: Option<Seq<char>>) -> Seq<MyTorrent>
    decreases s.len(),
{
    if s.len() == 0 {
        s
    } else if name_of(s.last()) == k {
        with_name(s.drop_last(), k).push(s.last())
    } else {
        with_name(s.drop_last(), k)
    }
}

proof fn lemma_chars_le_reflexive(a: Seq<char>)
    ensures
        chars_le(a, a),
    decreases a.len(),
{
    if a.len() > 0 {
        lemma_chars_le_reflexive(a.drop_first());
    }
}

proof fn lemma_chars_le_total(a: Seq<char>, b: Seq<char>)
    ensures
        chars_le(a, b) || chars_le(b, a),
    decreases a.len(),
{
    if a.len() > 0 && b.len() > 0 {
        lemma_chars_le_total(a.drop_first(), b.drop_first());
    }
}

proof fn lemma_char_scalar_injective(x: char, y: char)
    requires
        (x as u32) == (y as u32),
    ensures
        x == y,
{
}

proof fn lemma_chars_le_antisymmetric(a: Seq<char>, b: Seq<char>)
    requires
        chars_le(a, b),
        chars_le(b, a),
    ensures
        a == b,
    decreases a.len(),
{
    if a.len() > 0 {
        assert(b.len() > 0);
        assert((a[0] as u32) == (b[0] as u32));
        lemma_char_scalar_injective(a[0], b[0]);
        lemma_chars_le_antisymmetric(a.drop_first(), b.drop_first());
        assert forall|i: int| 0 <= i < a.len() implies a[i] == b[i] by {
            if i > 0 {
                assert(a[i] == a.drop_first()[i - 1]);
                assert(b[i] == b.drop_first()[i - 1]);
            }
        }
    } else {
        assert(b.len() == 0);
    }
    assert(a =~= b);
}

proof fn lemma_chars_le_transitive(a: Seq<char>, b: Seq<char>, c: Seq<char>)
    requires
        chars_le(a, b),
        chars_le(b, c),
    ensures
        chars_le(a, c),
    decreases a.len(),
{
    if a.len() > 0 && b.len() > 0 && c.len() > 0 {
        if (a[0] as u32) == (b[0] as u32) && (b[0] as u32) == (c[0] as u32) {
            lemma_chars_le_transitive(a.drop_first(), b.drop_first(), c.drop_first());
        }
    }
}

/// The order on names is total, reflexive, antisymmetric and transitive: comparing two
/// names, present or absent, always gives an answer, and the answers are consistent.
pub proof fn lemma_name_order_total(a: Option<Seq<char>>, b: Option<Seq<char>>, c: Option<Seq<char>>)
    ensures
        name_le(a, b) || name_le(b, a),
        name_le(a, a),
        name_le(a, b) && name_le(b, a) ==> a == b,
        name_le(a, b) && name_le(b, c) ==> name_le(a, c),
{
    if let Some(x) = a {
        lemma_chars_le_reflexive(x);
        if let Some(y) = b {
            lemma_chars_le_total(x, y);
            if chars_le(x, y) && chars_le(y, x) {
                lemma_chars_le_antisymmetric(x, y);
            }
            if let Some(z) = c {
                if chars_le(x, y) && chars_le(y, z) {
                    lemma_chars_le_transitive(x, y, z);
                }
            }
        }
    }
}

proof fn lemma_insert_len(s: Seq<MyTorrent>, x: MyTorrent)
    ensures
        insert_by_name(s, x).len() == s.len() + 1,
    decreases s.len(),
{
    if s.len() > 0 && !name_le(name_of(s.last()), name_of(x)) {
        lemma_insert_len(s.drop_last(), x);
    }
}

proof fn lemma_sort_len(s: Seq<MyTorrent>)
    ensures
        sort_by_name(s).len() == s.len(),
    decreases s.len(),
{
    if s.len() > 0 {
        lemma_sort_len(s.drop_last());
        lemma_insert_len(sort_by_name(s.drop_last()), s.last());
    }
}

proof fn lemma_insert_bounded(s: Seq<MyTorrent>, x: MyTorrent, b: Option<Seq<char>>)
    requires
        forall|i: int| 0 <= i < s.len() ==> name_le(name_of(#[trigger] s[i]), b),
        name_le(name_of(x), b),
    ensures
        forall|i: int| 0 <= i < insert_by_name(s, x).len() ==> name_le(name_of(#[trigger] insert_by_name(s, x)[i]), b),
    decreases s.len(),
{
    lemma_insert_len(s, x);
    if s.len() > 0 && !name_le(name_of(s.last()), name_of(x)) {
        let d = s.drop_last();
        assert forall|i: int| 0 <= i < d.len() implies name_le(name_of(#[trigger] d[i]), b) by {
            assert(d[i] == s[i]);
        }
        lemma_insert_bounded(d, x, b);
    }
}

proof fn lemma_insert_sorted(s: Seq<MyTorrent>, x: MyTorrent)
    requires
        is_sorted_by_name(s),
    ensures
        is_sorted_by_name(insert_by_name(s, x)),
    decreases s.len(),
{
    lemma_insert_len(s, x);
    if s.len() == 0 {
    } else if name_le(name_of(s.last()), name_of(x)) {
        let r = s.push(x);
        assert forall|i: int, j: int| 0 <= i < j < r.len() implies name_le(name_of(#[trigger] r[i]), name_of(#[trigger] r[j])) by {
            if j == s.len() && i < s.len() - 1 {
                lemma_name_order_total(name_of(s[i]), name_of(s.last()), name_of(x));
            }
        }
    } else {
        let d = s.drop_last();
        let last = s.last();
        assert(is_sorted_by_name(d));
        lemma_insert_sorted(d, x);
        lemma_name_order_total(name_of(x), name_of(last), name_of(last));
        assert forall|i: int| 0 <= i < d.len() implies name_le(name_of(#[trigger] d[i]), name_of(last)) by {
            assert(d[i] == s[i]);
        }
        lemma_insert_bounded(d, x, name_of(last));
        let m = insert_by_name(d, x);
        let r = m.push(last);
        assert forall|i: int, j: int| 0 <= i < j < r.len() implies name_le(name_of(#[trigger] r[i]), name_of(#[trigger] r[j])) by {
            if j < m.len() {
                assert(r[i] == m[i] && r[j] == m[j]);
            } else {
                assert(r[i] == m[i]);
            }
        }
    }
}

/// The sort's result is ordered by name, and it is as long as its input.
pub proof fn lemma_sort_sorted(s: Seq<MyTorrent>)
    ensures
        is_sorted_by_name(sort_by_name(s)),
        sort_by_name(s).len() == s.len(),
    decreases s.len(),
{
    lemma_sort_len(s);
    if s.len() > 0 {
        lemma_sort_sorted(s.drop_last());
        lemma_insert_sorted(sort_by_name(s.drop_last()), s.last());
    }
}

proof fn lemma_with_name_push(s: Seq<MyTorrent>, x: MyTorrent, k: Option<Seq<char>>)
    ensures
        with_name(s.push(x), k) == if name_of(x) == k { with_name(s, k).push(x) } else { with_name(s, k) },
{
    assert(s.push(x).drop_last() =~= s);
}

proof fn lemma_insert_with_name(s: Seq<MyTorrent>, x: MyTorrent, k: Option<Seq<char>>)
    ensures
        with_name(insert_by_name(s, x), k) == with_name(s.push(x), k),
    decreases s.len(),
{
    lemma_with_name_push(s, x, k);
    if s.len() == 0 {
        assert(seq![x] =~= s.push(x));
    } else if name_le(name_of(s.last()), name_of(x)) {
    } else {
        let d = s.drop_last();
        let last = s.last();
        assert(d.push(last) =~= s);
        lemma_insert_with_name(d, x, k);
        lemma_with_name_push(insert_by_name(d, x), last, k);
        lemma_with_name_push(d, x, k);
        lemma_with_name_push(d, last, k);
        lemma_name_order_total(name_of(last), name_of(x), name_of(x));
    }
}

/// The sort is stable: for every name, the elements with that name come out in the
/// order in which they went in.
pub proof fn lemma_sort_stable(s: Seq<MyTorrent>, k: Option<Seq<char>>)
    ensures
        with_name(sort_by_name(s), k) == with_name(s, k),
    decreases s.len(),
{
    if s.len() > 0 {
        let d = s.drop_last();
        lemma_sort_stable(d, k);
        lemma_insert_with_name(sort_by_name(d), s.last(), k);
        lemma_with_name_push(sort_by_name(d), s.last(), k);
        lemma_with_name_push(d, s.last(), k);
        assert(d.push(s.last()) =~= s);
    }
}

/// A sequence already ordered by name is its own sort.
pub proof fn lemma_sort_of_sorted(s: Seq<MyTorrent>)
    requires
        is_sorted_by_name(s),
    ensures
        sort_by_name(s) == s,
    decreases s.len(),
{
    if s.len() > 0 {
        let d = s.drop_last();
        assert(is_sorted_by_name(d));
        lemma_sort_of_sorted(d);
        if d.len() > 0 {
            assert(d.last() == s[s.len() - 2]);
        } else {
            assert(seq![s.last()] =~= s);
        }
        assert(d.push(s.last()) =~= s);
    }
}

/// Sorting twice gives what sorting once gives.
pub proof fn lemma_sort_idempotent(s: Seq<MyTorrent>)
    ensures
        sort_by_name(sort_by_name(s)) == sort_by_name(s),
{
    lemma_sort_sorted(s);
    lemma_sort_of_sorted(sort_by_name(s));
}

/// Compares two strings lexicographically by characters.
pub fn str_le(a: &str, b: &str) -> (r: bool)
    ensures
        r == chars_le(a@, b@),
{
    let la = a.unicode_len();
    let lb = b.unicode_len();
    let mut i: usize = 0;
    proof {
        assert(a@.skip(0) =~= a@);
        assert(b@.skip(0) =~= b@);
    }
    loop
        invariant
            i <= la,
            i <= lb,
            la == a@.len(),
            lb == b@.len(),
            chars_le(a@, b@) == chars_le(a@.skip(i as int), b@.skip(i as int)),
        decreases la - i,
    {
        if i == la {
            return true;
        }
        if i == lb {
            return false;
        }
        let ca = a.get_char(i);
        let cb = b.get_char(i);
        if (ca as u32) < (cb as u32) {
            return true;
        }
        if (ca as u32) > (cb as u32) {
            return false;
        }
        proof {
            assert(a@.skip(i as int).drop_first() =~= a@.skip(i + 1));
            assert(b@.skip(i as int).drop_first() =~= b@.skip(i + 1));
        }
        i = i + 1;
    }
}

/// Compares two optional names: absent before present, present names lexicographically.
pub fn names_le(a: &Option<String>, b: &Option<String>) -> (r: bool)
    ensures
        r == name_le(opt_chars(*a), opt_chars(*b)),
{
    match a {
        None => true,
        Some(x) => match b {
            None => false,
            Some(y) => str_le(x.as_str(), y.as_str()),
        },
    }
}

} // verus!

verus! {

/// Inserts `x` into the vector after the last element whose name is not greater than its own.
fn insert_in_order(out: &mut Vec<MyTorrent>, x: MyTorrent)
    ensures
        final(out)@ == insert_by_name(old(out)@, x),
{
    let n = out.len();
    let mut j: usize = n;
    proof {
        assert(out@.subrange(0, n as int) =~= out@);
        assert(out@.subrange(n as int, n as int) =~= Seq::<MyTorrent>::empty());
        assert(out@ + Seq::<MyTorrent>::empty() =~= out@);
    }
    loop
        invariant
            j <= n,
            n == out.len(),
            insert_by_name(out@, x) == insert_by_name(out@.subrange(0, j as int), x) + out@.subrange(j as int, n as int),
        ensures
            j <= n,
            insert_by_name(out@, x) == insert_by_name(out@.subrange(0, j as int), x) + out@.subrange(j as int, n as int),
            j == 0 || insert_by_name(out@.subrange(0, j as int), x) == out@.subrange(0, j as int).push(x),
        decreases j,
    {
        if j == 0 {
            break;
        }
        if names_le(&out[j - 1].name, &x.name) {
            proof {
                assert(out@.subrange(0, j as int).last() == out@[j - 1]);
            }
            break;
        }
        proof {
            let p = out@.subrange(0, j as int);
            assert(p.drop_last() =~= out@.subrange(0, j - 1));
            assert(insert_by_name(p, x) == insert_by_name(p.drop_last(), x).push(out@[j - 1]));
            assert(insert_by_name(p.drop_last(), x).push(out@[j - 1]) + out@.subrange(j as int, n as int)
                =~= insert_by_name(p.drop_last(), x) + out@.subrange(j - 1, n as int));
        }
        j = j - 1;
    }
    proof {
        let p = out@.subrange(0, j as int);
        if j == 0 {
            assert(insert_by_name(p, x) == seq![x]);
        }
        assert(insert_by_name(p, x) + out@.subrange(j as int, n as int) =~= out@.insert(j as int, x));
    }
    out.insert(j, x);
}

/// The torrents ordered by name, absent names first; torrents with equal names keep
/// their relative order.
pub fn sort_torrents(v: &Vec<MyTorrent>) -> (r: Vec<MyTorrent>)
    ensures
        r@ == sort_by_name(v@),
{
    let mut out: Vec<MyTorrent> = Vec::new();
    let mut i: usize = 0;
    proof {
        assert(v@.subrange(0, 0) =~= Seq::<MyTorrent>::empty());
    }
    while i < v.len()
        invariant
            i <= v.len(),
            out@ == sort_by_name(v@.subrange(0, i as int)),
        decreases v.len() - i,
    {
        let x = v[i].duplicate();
        proof {
            assert(v@.subrange(0, i + 1).drop_last() =~= v@.subrange(0, i as int));
        }
        insert_in_order(&mut out, x);
        i = i + 1;
    }
    proof {
        assert(v@.subrange(0, v.len() as int) =~= v@);
    }
    out
}

} // verus!
