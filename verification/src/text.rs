//! Byte-sequence helpers shared by the whole engine: splitting a source into
//! lines or tokens, equality and prefix tests, and first-occurrence searches.

use vstd::prelude::*;

verus! {

/// For a byte vector the deep view and the view coincide.
pub broadcast proof fn lemma_bytes_deep_view(v: Vec<u8>)
    ensures
        #[trigger] v.deep_view() == v@,
{
    assert(v.deep_view() =~= v@);
}

/// Splitting state: the bytes of `s` from position `i` on are folded into the
/// finished pieces `done` and the piece `cur` under construction.
pub open spec fn split_from(s: Seq<u8>, sep: u8, i: int, done: Seq<Seq<u8>>, cur: Seq<u8>) -> Seq<
    Seq<u8>,
>
    decreases s.len() - i,
{
    if i < 0 || i >= s.len() {
        done.push(cur)
    } else if s[i] == sep {
        split_from(s, sep, i + 1, done.push(cur), Seq::empty())
    } else {
        split_from(s, sep, i + 1, done, cur.push(s[i]))
    }
}

/// The pieces of `s` between occurrences of `sep`; always at least one piece.
pub open spec fn split_bytes(s: Seq<u8>, sep: u8) -> Seq<Seq<u8>> {
    split_from(s, sep, 0, Seq::empty(), Seq::empty())
}

pub proof fn lemma_split_from_len(s: Seq<u8>, sep: u8, i: int, done: Seq<Seq<u8>>, cur: Seq<u8>)
    ensures
        split_from(s, sep, i, done, cur).len() >= done.len() + 1,
    decreases s.len() - i,
{
    if i < 0 || i >= s.len() {
    } else if s[i] == sep {
        lemma_split_from_len(s, sep, i + 1, done.push(cur), Seq::empty());
    } else {
        lemma_split_from_len(s, sep, i + 1, done, cur.push(s[i]));
    }
}

pub fn split_bytes_exec(s: &Vec<u8>, sep: u8) -> (r: Vec<Vec<u8>>)
    ensures
        r.deep_view() == split_bytes(s@, sep),
        r.len() >= 1,
{
    let mut done: Vec<Vec<u8>> = Vec::new();
    let mut cur: Vec<u8> = Vec::new();
    let mut i: usize = 0;
    proof {
        assert(done.deep_view() =~= Seq::<Seq<u8>>::empty());
    }
    while i < s.len()
        invariant
            i <= s.len(),
            split_bytes(s@, sep) == split_from(s@, sep, i as int, done.deep_view(), cur@),
        decreases s.len() - i,
    {
        let ghost pre_done = done.deep_view();
        let ghost pre_cur = cur@;
        let b = s[i];
        if b == sep {
            done.push(cur);
            cur = Vec::new();
            proof {
                assert(done.deep_view() =~~= pre_done.push(pre_cur));
            }
        } else {
            cur.push(b);
        }
        i += 1;
    }
    let ghost end_done = done.deep_view();
    let ghost end_cur = cur@;
    done.push(cur);
    proof {
        assert(done.deep_view() =~~= end_done.push(end_cur));
        lemma_split_from_len(s@, sep, s@.len() as int, end_done, end_cur);
    }
    done
}

/// The suffix of `v` from position `start` on, as a fresh vector.
pub fn tail_from(v: &Vec<u8>, start: usize) -> (r: Vec<u8>)
    requires
        start <= v@.len(),
    ensures
        r@ == v@.skip(start as int),
{
    let mut r: Vec<u8> = Vec::new();
    let mut j: usize = start;
    while j < v.len()
        invariant
            start <= j <= v@.len(),
            r@ == v@.subrange(start as int, j as int),
        decreases v.len() - j,
    {
        let ghost pre = r@;
        r.push(v[j]);
        proof {
            assert(r@ =~= v@.subrange(start as int, j + 1));
        }
        j += 1;
    }
    proof {
        assert(v@.subrange(start as int, v@.len() as int) =~= v@.skip(start as int));
    }
    r
}

pub fn bytes_eq(a: &Vec<u8>, b: &Vec<u8>) -> (r: bool)
    ensures
        r == (a@ == b@),
{
    if a.len() != b.len() {
        return false;
    }
    let mut i: usize = 0;
    while i < a.len()
        invariant
            a@.len() == b@.len(),
            i <= a@.len(),
            forall|k: int| 0 <= k < i ==> a@[k] == b@[k],
        decreases a.len() - i,
    {
        if a[i] != b[i] {
            return false;
        }
        i += 1;
    }
    proof {
        assert(a@ =~= b@);
    }
    true
}

/// Append the bytes of `add` to `out`.
pub fn append_bytes(out: &mut Vec<u8>, add: &Vec<u8>)
    ensures
        final (out)@ == old(out)@ + add@,
{
    let mut j: usize = 0;
    proof {
        assert(out@ =~= old(out)@ + add@.subrange(0, 0));
    }
    while j < add.len()
        invariant
            j <= add@.len(),
            out@ == old(out)@ + add@.subrange(0, j as int),
        decreases add.len() - j,
    {
        out.push(add[j]);
        proof {
            assert(out@ =~= old(out)@ + add@.subrange(0, j + 1));
        }
        j += 1;
    }
    proof {
        assert(old(out)@ + add@.subrange(0, add@.len() as int) =~= old(out)@ + add@);
    }
}

/// True when `p` is an initial segment of `s`.
pub open spec fn has_prefix(s: Seq<u8>, p: Seq<u8>) -> bool {
    p.len() <= s.len() && s.subrange(0, p.len() as int) == p
}

pub fn has_prefix_exec(s: &Vec<u8>, p: &Vec<u8>) -> (r: bool)
    ensures
        r == has_prefix(s@, p@),
{
    if p.len() > s.len() {
        return false;
    }
    let mut i: usize = 0;
    while i < p.len()
        invariant
            p@.len() <= s@.len(),
            i <= p@.len(),
            forall|k: int| 0 <= k < i ==> s@[k] == p@[k],
        decreases p.len() - i,
    {
        if s[i] != p[i] {
            proof {
                assert(s@.subrange(0, p@.len() as int)[i as int] == s@[i as int]);
            }
            return false;
        }
        i += 1;
    }
    proof {
        assert(s@.subrange(0, p@.len() as int) =~= p@);
    }
    true
}

/// Position of the first occurrence of `x` in `s` at or after `j`.
pub open spec fn first_index_from(s: Seq<Seq<u8>>, x: Seq<u8>, j: int) -> Option<int>
    decreases s.len() - j,
{
    if j < 0 || j >= s.len() {
        None
    } else if s[j] == x {
        Some(j)
    } else {
        first_index_from(s, x, j + 1)
    }
}

pub proof fn lemma_first_index_none(s: Seq<Seq<u8>>, x: Seq<u8>, j: int)
    requires
        0 <= j,
        first_index_from(s, x, j) is None,
    ensures
        forall|k: int| j <= k < s.len() ==> s[k] != x,
    decreases s.len() - j,
{
    if j < 0 || j >= s.len() {
    } else {
        lemma_first_index_none(s, x, j + 1);
    }
}

pub proof fn lemma_first_index_some(s: Seq<Seq<u8>>, x: Seq<u8>, j: int, r: int)
    requires
        0 <= j,
        first_index_from(s, x, j) == Some(r),
    ensures
        j <= r < s.len(),
        s[r] == x,
        forall|k: int| j <= k < r ==> s[k] != x,
    decreases s.len() - j,
{
    if j < 0 || j >= s.len() {
    } else if s[j] == x {
    } else {
        lemma_first_index_some(s, x, j + 1, r);
    }
}

/// `first_index_from` decides membership.
pub proof fn lemma_first_index_contains(s: Seq<Seq<u8>>, x: Seq<u8>)
    ensures
        first_index_from(s, x, 0) is Some <==> s.contains(x),
{
    match first_index_from(s, x, 0) {
        Some(r) => {
            lemma_first_index_some(s, x, 0, r);
        },
        None => {
            lemma_first_index_none(s, x, 0);
        },
    }
}

/// First occurrence search over a vector of byte strings.
pub fn find_name_from(v: &Vec<Vec<u8>>, x: &Vec<u8>, start: usize) -> (r: Option<usize>)
    ensures
        first_index_from(v.deep_view(), x@, start as int) == (match r {
            Some(k) => Some(k as int),
            None => None::<int>,
        }),
        r matches Some(k) ==> k < v@.len(),
{
    let mut j: usize = start;
    if j > v.len() {
        proof {
            assert(first_index_from(v.deep_view(), x@, start as int) is None);
        }
        return None;
    }
    while j < v.len()
        invariant
            start <= j <= v@.len(),
            first_index_from(v.deep_view(), x@, start as int) == first_index_from(
                v.deep_view(),
                x@,
                j as int,
            ),
        decreases v.len() - j,
    {
        proof {
            lemma_bytes_deep_view(v@[j as int]);
            assert(v.deep_view()[j as int] == v@[j as int].deep_view());
        }
        if bytes_eq(&v[j], x) {
            return Some(j);
        }
        j += 1;
    }
    None
}

pub fn contains_name(v: &Vec<Vec<u8>>, x: &Vec<u8>) -> (r: bool)
    ensures
        r == v.deep_view().contains(x@),
{
    let idx = find_name_from(v, x, 0);
    proof {
        lemma_first_index_contains(v.deep_view(), x@);
    }
    idx.is_some()
}

/// Copy of a byte string.
pub fn clone_bytes(v: &Vec<u8>) -> (r: Vec<u8>)
    ensures
        r@ == v@,
{
    let mut r: Vec<u8> = Vec::new();
    let mut j: usize = 0;
    while j < v.len()
        invariant
            j <= v@.len(),
            r@ == v@.subrange(0, j as int),
        decreases v.len() - j,
    {
        r.push(v[j]);
        proof {
            assert(r@ =~= v@.subrange(0, j + 1));
        }
        j += 1;
    }
    proof {
        assert(v@.subrange(0, v@.len() as int) =~= v@);
    }
    r
}

/// Copy of a list of byte strings.
pub fn clone_names(v: &Vec<Vec<u8>>) -> (r: Vec<Vec<u8>>)
    ensures
        r.deep_view() == v.deep_view(),
{
    let mut r: Vec<Vec<u8>> = Vec::new();
    let mut j: usize = 0;
    while j < v.len()
        invariant
            j <= v@.len(),
            r@.len() == j,
            forall|k: int| 0 <= k < j ==> r@[k]@ == v@[k]@,
        decreases v.len() - j,
    {
        let c = clone_bytes(&v[j]);
        r.push(c);
        j += 1;
    }
    proof {
        assert(r.deep_view() =~~= v.deep_view());
    }
    r
}

} // verus!
