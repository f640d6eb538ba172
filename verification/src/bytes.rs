//! Verified helpers on byte vectors.
//!
//! Symbol names, paths and argument tokens are carried through the library as
//! byte vectors, so the core algorithms can state their contracts over
//! `Seq<u8>` directly.

use vstd::prelude::*;

verus! {

/// Two byte vectors are equal exactly when their contents are equal.
pub fn bytes_eq(a: &Vec<u8>, b: &Vec<u8>) -> (r: bool)
    ensures
        r == (a@ == b@),
{
    if a.len() != b.len() {
        proof {
            assert(a@.len() != b@.len());
        }
        return false;
    }
    let mut i: usize = 0;
    while i < a.len()
        invariant
            i <= a.len(),
            a.len() == b.len(),
            forall|j: int| 0 <= j < i ==> a@[j] == b@[j],
        decreases a.len() - i,
    {
        if a[i] != b[i] {
            return false;
        }
        i += 1;
    }
    proof {
        assert(a@ =~= b@);
    }
    true
}

/// The views of a sequence of byte vectors.
pub open spec fn views_of(s: Seq<Vec<u8>>) -> Seq<Seq<u8>> {
    s.map_values(|v: Vec<u8>| v@)
}

/// A copy of the byte range `[from, to)` of `v`.
pub fn copy_range(v: &Vec<u8>, from: usize, to: usize) -> (r: Vec<u8>)
    requires
        from <= to <= v@.len(),
    ensures
        r@ == v@.subrange(from as int, to as int),
{
    let mut r: Vec<u8> = Vec::new();
    let mut i: usize = from;
    while i < to
        invariant
            from <= i <= to <= v.len(),
            r@ == v@.subrange(from as int, i as int),
        decreases to - i,
    {
        r.push(v[i]);
        i += 1;
        proof {
            assert(v@.subrange(from as int, i - 1).push(v@[i - 1]) =~= v@.subrange(
                from as int,
                i as int,
            ));
        }
    }
    r
}

/// A copy of the whole of `v`.
pub fn copy_bytes(v: &Vec<u8>) -> (r: Vec<u8>)
    ensures
        r@ == v@,
{
    let r = copy_range(v, 0, v.len());
    proof {
        assert(v@.subrange(0, v@.len() as int) =~= v@);
    }
    r
}

/// A copy of the range `[from, to)` of a list of byte vectors.
pub fn copy_vecs_range(v: &Vec<Vec<u8>>, from: usize, to: usize) -> (r: Vec<Vec<u8>>)
    requires
        from <= to <= v@.len(),
    ensures
        views_of(r@) == views_of(v@).subrange(from as int, to as int),
{
    let mut r: Vec<Vec<u8>> = Vec::new();
    let mut i: usize = from;
    proof {
        assert(views_of(r@) =~= views_of(v@).subrange(from as int, from as int));
    }
    while i < to
        invariant
            from <= i <= to <= v.len(),
            views_of(r@) == views_of(v@).subrange(from as int, i as int),
        decreases to - i,
    {
        proof {
            assert(views_of(v@)[i as int] == v@[i as int]@);
        }
        r.push(copy_bytes(&v[i]));
        i += 1;
        proof {
            assert(views_of(v@).subrange(from as int, i - 1).push(v@[i - 1]@) =~= views_of(
                v@,
            ).subrange(from as int, i as int));
            assert(views_of(r@) =~= views_of(v@).subrange(from as int, i as int));
        }
    }
    r
}

/// The concatenation of two byte vectors.
pub fn concat_bytes(a: &Vec<u8>, b: &Vec<u8>) -> (r: Vec<u8>)
    ensures
        r@ == a@ + b@,
{
    let mut r: Vec<u8> = Vec::new();
    let mut i: usize = 0;
    while i < a.len()
        invariant
            i <= a.len(),
            r@ == a@.subrange(0, i as int),
        decreases a.len() - i,
    {
        r.push(a[i]);
        i += 1;
    }
    proof {
        assert(a@.subrange(0, a@.len() as int) =~= a@);
    }
    let mut j: usize = 0;
    while j < b.len()
        invariant
            j <= b.len(),
            r@ == a@ + b@.subrange(0, j as int),
        decreases b.len() - j,
    {
        r.push(b[j]);
        j += 1;
        proof {
            assert(a@ + b@.subrange(0, j - 1) + seq![b@[j - 1]] =~= a@ + b@.subrange(
                0,
                j as int,
            ));
        }
    }
    proof {
        assert(a@ + b@.subrange(0, b@.len() as int) =~= a@ + b@);
    }
    r
}

/// Whether `a` begins with the bytes of `p`.
pub open spec fn starts_with_spec(a: Seq<u8>, p: Seq<u8>) -> bool {
    a.len() >= p.len() && a.subrange(0, p.len() as int) == p
}

/// Tests whether `a` begins with the bytes of `p`.
pub fn starts_with(a: &Vec<u8>, p: &Vec<u8>) -> (r: bool)
    ensures
        r == starts_with_spec(a@, p@),
{
    if a.len() < p.len() {
        return false;
    }
    let mut i: usize = 0;
    while i < p.len()
        invariant
            i <= p.len(),
            p.len() <= a.len(),
            forall|j: int| 0 <= j < i ==> a@[j] == p@[j],
        decreases p.len() - i,
    {
        if a[i] != p[i] {
            proof {
                assert(a@.subrange(0, p@.len() as int)[i as int] != p@[i as int]);
            }
            return false;
        }
        i += 1;
    }
    proof {
        assert(a@.subrange(0, p@.len() as int) =~= p@);
    }
    true
}

/// Whether the bytes of `n` occur contiguously somewhere in `h`.
pub open spec fn contains_sub(h: Seq<u8>, n: Seq<u8>) -> bool {
    exists|i: int|
        0 <= i && i + n.len() <= h.len() && #[trigger] h.subrange(i, i + n.len() as int) == n
}

/// Tests whether the bytes of `n` occur contiguously somewhere in `h`.
pub fn contains_subrange(h: &Vec<u8>, n: &Vec<u8>) -> (r: bool)
    ensures
        r == contains_sub(h@, n@),
{
    if n.len() > h.len() {
        return false;
    }
    let mut start: usize = 0;
    while start <= h.len() - n.len()
        invariant
            n.len() <= h.len(),
            start <= h.len() - n.len() + 1,
            forall|i: int|
                0 <= i < start ==> #[trigger] h@.subrange(i, i + n@.len() as int) != n@,
        decreases h.len() - start,
    {
        let mut k: usize = 0;
        let mut all_match = true;
        while k < n.len() && all_match
            invariant
                k <= n.len(),
                start <= h.len() - n.len(),
                n.len() <= h.len(),
                all_match ==> forall|j: int| 0 <= j < k ==> h@[start + j] == n@[j],
                !all_match ==> h@.subrange(start as int, start + n@.len() as int) != n@,
            decreases (if all_match { 1int } else { 0int }) + n.len() - k,
        {
            if h[start + k] != n[k] {
                all_match = false;
                proof {
                    assert(h@.subrange(start as int, start + n@.len() as int)[k as int]
                        != n@[k as int]);
                }
            } else {
                k += 1;
            }
        }
        if all_match {
            proof {
                assert(h@.subrange(start as int, start + n@.len() as int) =~= n@);
            }
            return true;
        }
        proof {
            if n@.len() == 0 {
                assert(h@.subrange(start as int, start as int) =~= n@);
            }
        }
        start += 1;
    }
    proof {
        assert forall|i: int| 0 <= i && i + n@.len() <= h@.len() implies #[trigger] h@.subrange(
            i,
            i + n@.len() as int,
        ) != n@ by {
            assert(i < start);
        }
    }
    false
}

/// The pieces of `s` between occurrences of the separator `sep`.
///
/// Splitting the empty sequence gives one empty piece; every separator byte
/// ends the current piece and opens a new one, so `n` separators give `n + 1`
/// pieces.
pub open spec fn split_spec(s: Seq<u8>, sep: u8) -> Seq<Seq<u8>>
    decreases s.len(),
{
    if s.len() == 0 {
        seq![Seq::<u8>::empty()]
    } else if s.last() == sep {
        split_spec(s.drop_last(), sep).push(Seq::<u8>::empty())
    } else {
        let r = split_spec(s.drop_last(), sep);
        r.update(r.len() - 1, r.last().push(s.last()))
    }
}

/// `split_spec` never returns an empty sequence of pieces.
pub proof fn lemma_split_spec_nonempty(s: Seq<u8>, sep: u8)
    ensures
        split_spec(s, sep).len() >= 1,
    decreases s.len(),
{
    if s.len() != 0 {
        lemma_split_spec_nonempty(s.drop_last(), sep);
    }
}

/// Splits `s` into the pieces between occurrences of `sep`.
pub fn split_bytes(s: &Vec<u8>, sep: u8) -> (r: Vec<Vec<u8>>)
    ensures
        r@.map_values(|p: Vec<u8>| p@) == split_spec(s@, sep),
{
    let mut done: Vec<Vec<u8>> = Vec::new();
    let mut cur: Vec<u8> = Vec::new();
    let mut i: usize = 0;
    proof {
        assert(s@.subrange(0, 0) =~= Seq::<u8>::empty());
        assert(done@.map_values(|p: Vec<u8>| p@).push(cur@) =~= split_spec(
            s@.subrange(0, 0),
            sep,
        ));
    }
    while i < s.len()
        invariant
            i <= s.len(),
            done@.map_values(|p: Vec<u8>| p@).push(cur@) == split_spec(
                s@.subrange(0, i as int),
                sep,
            ),
        decreases s.len() - i,
    {
        let ghost prefix = s@.subrange(0, i as int);
        let ghost next_prefix = s@.subrange(0, i + 1);
        proof {
            assert(next_prefix.drop_last() =~= prefix);
            assert(next_prefix.last() == s@[i as int]);
        }
        if s[i] == sep {
            done.push(cur);
            cur = Vec::new();
            proof {
                assert(done@.map_values(|p: Vec<u8>| p@).push(cur@) =~= split_spec(
                    prefix,
                    sep,
                ).push(Seq::<u8>::empty()));
            }
        } else {
            let ghost old_pieces = split_spec(prefix, sep);
            let ghost old_cur = cur@;
            cur.push(s[i]);
            proof {
                assert(old_pieces == done@.map_values(|p: Vec<u8>| p@).push(old_cur));
                assert(old_pieces.last() == old_cur);
                assert(old_pieces.len() - 1 == done@.len());
                assert(done@.map_values(|p: Vec<u8>| p@).push(cur@) =~= old_pieces.update(
                    old_pieces.len() - 1,
                    old_pieces.last().push(s@[i as int]),
                ));
            }
        }
        i += 1;
    }
    proof {
        assert(s@.subrange(0, s@.len() as int) =~= s@);
    }
    done.push(cur);
    done
}

/// `s` with leading and trailing space bytes removed.
pub open spec fn trim_spaces_spec(s: Seq<u8>) -> Seq<u8>
    decreases s.len(),
{
    if s.len() > 0 && s.first() == 32u8 {
        trim_spaces_spec(s.drop_first())
    } else if s.len() > 0 && s.last() == 32u8 {
        trim_spaces_spec(s.drop_last())
    } else {
        s
    }
}

/// Removes leading and trailing space bytes from `s`.
pub fn trim_spaces(s: &Vec<u8>) -> (r: Vec<u8>)
    ensures
        r@ == trim_spaces_spec(s@),
{
    let mut lo: usize = 0;
    proof {
        assert(s@.subrange(0, s@.len() as int) =~= s@);
    }
    while lo < s.len() && s[lo] == 32u8
        invariant
            lo <= s.len(),
            trim_spaces_spec(s@) == trim_spaces_spec(s@.subrange(lo as int, s@.len() as int)),
        decreases s.len() - lo,
    {
        proof {
            let tail = s@.subrange(lo as int, s@.len() as int);
            assert(tail.first() == 32u8);
            assert(tail.drop_first() =~= s@.subrange(lo + 1, s@.len() as int));
        }
        lo += 1;
    }
    let mut hi: usize = s.len();
    while hi > lo && s[hi - 1] == 32u8
        invariant
            lo <= hi <= s.len(),
            trim_spaces_spec(s@) == trim_spaces_spec(s@.subrange(lo as int, hi as int)),
            lo == hi || s@[lo as int] != 32u8,
        decreases hi,
    {
        proof {
            let mid = s@.subrange(lo as int, hi as int);
            assert(mid.last() == 32u8);
            assert(mid.first() == s@[lo as int]);
            assert(mid.drop_last() =~= s@.subrange(lo as int, hi - 1));
        }
        hi -= 1;
    }
    let mut r: Vec<u8> = Vec::new();
    let mut i: usize = lo;
    while i < hi
        invariant
            lo <= i <= hi <= s.len(),
            r@ == s@.subrange(lo as int, i as int),
        decreases hi - i,
    {
        r.push(s[i]);
        i += 1;
        proof {
            assert(s@.subrange(lo as int, i - 1).push(s@[i - 1]) =~= s@.subrange(
                lo as int,
                i as int,
            ));
        }
    }
    proof {
        let mid = s@.subrange(lo as int, hi as int);
        assert(r@ =~= mid);
        if lo != hi {
            assert(mid.first() == s@[lo as int]);
            assert(mid.last() == s@[hi - 1]);
        }
        assert(trim_spaces_spec(mid) == mid);
    }
    r
}

} // verus!
