use vstd::prelude::*;

use crate::torrent::MyTorrent;

verus! {

/// What `str::to_lowercase` gives for a string with these characters.
pub uninterp spec fn lower_of(s: Seq<char>) -> Seq<char>;

/// Relies on `str::to_lowercase`: its result depends on the characters alone, and the
/// lowercase of the empty string is empty.
#[verifier::external_body]
fn lowercase(s: &str) -> (r: String)
    ensures
        r@ == lower_of(s@),
        s@.len() == 0 ==> r@.len() == 0,
{
    s.to_lowercase()
}

/// `p` occurs in `t` starting at index `i`.
pub open spec fn occurs_at(t: Seq<char>, p: Seq<char>, i: int) -> bool {
    0 <= i && i + p.len() <= t.len() && t.subrange(i, i + p.len()) == p
}

/// `p` occurs somewhere in `t` as a run of consecutive characters.
pub open spec fn chars_contain(t: Seq<char>, p: Seq<char>) -> bool {
    exists|i: int| occurs_at(t, p, i)
}

/// The name of a torrent, an absent name read as the empty string.
pub open spec fn name_text(t: MyTorrent) -> Seq<char> {
    match t.name {
        Some(n) => n@,
        None => Seq::empty(),
    }
}

/// The torrent's name contains the filter text, both lowercased.
pub open spec fn matches_filter(t: MyTorrent, f: Seq<char>) -> bool {
    chars_contain(lower_of(name_text(t)), lower_of(f))
}

/// The torrents of `s` that match the filter text `f`, in their order in `s`.
pub open spec fn filter_by_text(s: Seq<MyTorrent>, f: Seq<char>) -> Seq<MyTorrent>
    decreases s.len(),
{
    if s.len() == 0 {
        s
    } else if matches_filter(s.last(), f) {
        filter_by_text(s.drop_last(), f).push(s.last())
    } else {
        filter_by_text(s.drop_last(), f)
    }
}

/// The characters of a string, in a vector.
fn chars_of(s: &str) -> (r: Vec<char>)
    ensures
        r@ == s@,
{
    let n = s.unicode_len();
    let mut r: Vec<char> = Vec::new();
    let mut i: usize = 0;
    while i < n
        invariant
            i <= n,
            n == s@.len(),
            r@ == s@.subrange(0, i as int),
        decreases n - i,
    {
        let c = s.get_char(i);
        r.push(c);
        proof {
            assert(s@.subrange(0, i + 1) =~= s@.subrange(0, i as int).push(c));
        }
        i = i + 1;
    }
    proof {
        assert(s@.subrange(0, n as int) =~= s@);
    }
    r
}

fn occurs_at_exec(t: &Vec<char>, p: &Vec<char>, i: usize) -> (r: bool)
    requires
        i + p.len() <= t.len(),
    ensures
        r == occurs_at(t@, p@, i as int),
{
    let mut k: usize = 0;
    while k < p.len()
        invariant
            k <= p.len(),
            i + p.len() <= t.len(),
            forall|m: int| 0 <= m < k ==> t@[i + m] == p@[m],
        decreases p.len() - k,
    {
        if t[i + k] != p[k] {
            proof {
                assert(t@.subrange(i as int, i + p.len())[k as int] != p@[k as int]);
            }
            return false;
        }
        k = k + 1;
    }
    proof {
        assert(t@.subrange(i as int, i + p.len()) =~= p@);
    }
    true
}

/// Whether the text `t` contains the pattern `p` as a run of consecutive characters.
pub fn text_contains(t: &str, p: &str) -> (r: bool)
    ensures
        r == chars_contain(t@, p@),
{
    let tc = chars_of(t);
    let pc = chars_of(p);
    if pc.len() > tc.len() {
        assert forall|i: int| !occurs_at(t@, p@, i) by {}
        return false;
    }
    let last = tc.len() - pc.len();
    let mut i: usize = 0;
    loop
        invariant
            i <= last,
            last == tc.len() - pc.len(),
            pc.len() <= tc.len(),
            tc@ == t@,
            pc@ == p@,
            forall|j: int| 0 <= j < i ==> !occurs_at(t@, p@, j),
        ensures
            forall|j: int| 0 <= j <= last ==> !occurs_at(t@, p@, j),
        decreases last - i,
    {
        if occurs_at_exec(&tc, &pc, i) {
            return true;
        }
        if i == last {
            break;
        }
        i = i + 1;
    }
    assert forall|j: int| !occurs_at(t@, p@, j) by {
        if 0 <= j <= last {
        }
    }
    false
}

/// The name of a torrent lowercased, an absent name as the empty string.
fn lowered_name(t: &MyTorrent) -> (r: String)
    ensures
        r@ == lower_of(name_text(*t)),
{
    match &t.name {
        Some(n) => lowercase(n.as_str()),
        None => {
            proof {
                reveal_strlit("");
            }
            assert(""@ =~= Seq::<char>::empty());
            lowercase("")
        },
    }
}

/// The torrents of `v` whose name contains `filter`, both compared in lowercase, in
/// their order in `v`. An absent name counts as the empty string.
pub fn filter_torrents(v: &Vec<MyTorrent>, filter: &str) -> (r: Vec<MyTorrent>)
    ensures
        r@ == filter_by_text(v@, filter@),
        filter@.len() == 0 ==> r@ == v@,
{
    let f = lowercase(filter);
    let mut out: Vec<MyTorrent> = Vec::new();
    let mut i: usize = 0;
    proof {
        assert(v@.subrange(0, 0) =~= Seq::<MyTorrent>::empty());
    }
    while i < v.len()
        invariant
            i <= v.len(),
            f@ == lower_of(filter@),
            filter@.len() == 0 ==> f@.len() == 0,
            out@ == filter_by_text(v@.subrange(0, i as int), filter@),
            filter@.len() == 0 ==> out@ == v@.subrange(0, i as int),
        decreases v.len() - i,
    {
        let name = lowered_name(&v[i]);
        let keep = text_contains(name.as_str(), f.as_str());
        proof {
            assert(v@.subrange(0, i + 1).drop_last() =~= v@.subrange(0, i as int));
            assert(v@.subrange(0, i + 1) =~= v@.subrange(0, i as int).push(v@[i as int]));
            if filter@.len() == 0 {
                assert(occurs_at(lower_of(name_text(v@[i as int])), f@, 0)) by {
                    assert(lower_of(name_text(v@[i as int])).subrange(0, 0) =~= f@);
                }
            }
        }
        if keep {
            out.push(v[i].duplicate());
        }
        i = i + 1;
    }
    proof {
        assert(v@.subrange(0, v.len() as int) =~= v@);
    }
    out
}

/// Where the lowercased filter text is empty, every torrent is kept.
pub proof fn lemma_filter_empty_keeps_all(s: Seq<MyTorrent>, f: Seq<char>)
    requires
        lower_of(f).len() == 0,
    ensures
        filter_by_text(s, f) == s,
    decreases s.len(),
{
    if s.len() > 0 {
        lemma_filter_empty_keeps_all(s.drop_last(), f);
        assert(lower_of(name_text(s.last())).subrange(0, 0) =~= lower_of(f));
        assert(occurs_at(lower_of(name_text(s.last())), lower_of(f), 0));
        assert(s.drop_last().push(s.last()) =~= s);
    }
}

/// A torrent whose name is exactly the filter text is kept.
pub proof fn lemma_filter_keeps_exact_name(s: Seq<MyTorrent>, f: Seq<char>, i: int)
    requires
        0 <= i < s.len(),
        name_text(s[i]) == f,
    ensures
        filter_by_text(s, f).contains(s[i]),
    decreases s.len(),
{
    if i == s.len() - 1 {
        let l = lower_of(f);
        assert(l.subrange(0, l.len() as int) =~= l);
        assert(occurs_at(l, l, 0));
        let r = filter_by_text(s, f);
        assert(r[r.len() - 1] == s[i]);
    } else {
        let d = s.drop_last();
        assert(d[i] == s[i]);
        lemma_filter_keeps_exact_name(d, f, i);
        let q = filter_by_text(d, f);
        let k = choose|k: int| 0 <= k < q.len() && q[k] == s[i];
        if matches_filter(s.last(), f) {
            assert(q.push(s.last())[k] == s[i]);
        }
    }
}

/// Where no torrent's name contains the filter text, nothing is kept.
pub proof fn lemma_filter_no_match(s: Seq<MyTorrent>, f: Seq<char>)
    requires
        forall|i: int| 0 <= i < s.len() ==> !matches_filter(#[trigger] s[i], f),
    ensures
        filter_by_text(s, f).len() == 0,
    decreases s.len(),
{
    if s.len() > 0 {
        let d = s.drop_last();
        assert forall|i: int| 0 <= i < d.len() implies !matches_filter(#[trigger] d[i], f) by {
            assert(d[i] == s[i]);
        }
        lemma_filter_no_match(d, f);
    }
}

} // verus!
