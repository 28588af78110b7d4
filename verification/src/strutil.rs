use vstd::prelude::*;

verus! {

/// `split_on(s, sep)` is the sequence of segments of `s` between
/// occurrences of `sep`, in order. It always holds at least one
/// segment; a separator at either end contributes an empty segment.
pub open spec fn split_on(s: Seq<char>, sep: char) -> Seq<Seq<char>>
    decreases s.len(),
{
    if s.len() == 0 {
        seq![Seq::<char>::empty()]
    } else if s.last() == sep {
        split_on(s.drop_last(), sep).push(Seq::<char>::empty())
    } else {
        let r = split_on(s.drop_last(), sep);
        r.update(r.len() - 1, r.last().push(s.last()))
    }
}

pub proof fn lemma_split_on_len(s: Seq<char>, sep: char)
    ensures
        split_on(s, sep).len() >= 1,
    decreases s.len(),
{
    if s.len() > 0 {
        lemma_split_on_len(s.drop_last(), sep);
    }
}

/// Index of the last occurrence of `c` in `s`, or -1 when `c` does not occur.
pub open spec fn last_index_of(s: Seq<char>, c: char) -> int
    decreases s.len(),
{
    if s.len() == 0 {
        -1
    } else if s.last() == c {
        s.len() - 1
    } else {
        last_index_of(s.drop_last(), c)
    }
}

pub proof fn lemma_last_index_of_bounds(s: Seq<char>, c: char)
    ensures
        -1 <= last_index_of(s, c) < s.len(),
        last_index_of(s, c) >= 0 ==> s[last_index_of(s, c)] == c,
        forall|j: int| last_index_of(s, c) < j < s.len() ==> s[j] != c,
    decreases s.len(),
{
    if s.len() > 0 && s.last() != c {
        lemma_last_index_of_bounds(s.drop_last(), c);
        assert forall|j: int| last_index_of(s, c) < j < s.len() implies s[j] != c by {
            if j < s.len() - 1 {
                assert(s.drop_last()[j] == s[j]);
            }
        }
        if last_index_of(s, c) >= 0 {
            assert(s.drop_last()[last_index_of(s, c)] == s[last_index_of(s, c)]);
        }
    }
}

/// Whether `p` occurs in `s` starting at position `i`.
pub open spec fn is_match_at(s: Seq<char>, p: Seq<char>, i: int) -> bool {
    0 <= i && i + p.len() <= s.len() && s.subrange(i, i + p.len()) == p
}

/// Whether `p` occurs anywhere in `s`.
pub open spec fn contains_seq(s: Seq<char>, p: Seq<char>) -> bool {
    exists|i: int| is_match_at(s, p, i)
}

/// Character-for-character string equality.
pub fn str_eq(a: &str, b: &str) -> (r: bool)
    ensures
        r == (a@ == b@),
{
    let alen = a.unicode_len();
    let blen = b.unicode_len();
    if alen != blen {
        assert(a@ != b@);
        return false;
    }
    let mut i: usize = 0;
    while i < alen
        invariant
            alen == a@.len(),
            alen == b@.len(),
            0 <= i <= alen,
            forall|j: int| 0 <= j < i ==> a@[j] == b@[j],
        decreases alen - i,
    {
        if a.get_char(i) != b.get_char(i) {
            assert(a@ != b@);
            return false;
        }
        i = i + 1;
    }
    proof {
        assert(a@ =~= b@);
    }
    true
}

/// Whether `p` occurs in `s` starting at `i` (executable form of `is_match_at`).
fn match_at(s: &str, p: &str, i: usize) -> (r: bool)
    requires
        i + p@.len() <= s@.len() <= usize::MAX,
    ensures
        r == is_match_at(s@, p@, i as int),
{
    let plen = p.unicode_len();
    let mut j: usize = 0;
    while j < plen
        invariant
            plen == p@.len(),
            i + plen <= s@.len() <= usize::MAX,
            0 <= j <= plen,
            forall|k: int| 0 <= k < j ==> s@[i + k] == p@[k],
        decreases plen - j,
    {
        if s.get_char(i + j) != p.get_char(j) {
            proof {
                let sub = s@.subrange(i as int, i + p@.len());
                assert(sub[j as int] == s@[i + j]);
                assert(sub != p@);
            }
            return false;
        }
        j = j + 1;
    }
    proof {
        assert(s@.subrange(i as int, i + p@.len()) =~= p@);
    }
    true
}

/// Whether `p` occurs anywhere in `s`.
pub fn contains_str(s: &str, p: &str) -> (r: bool)
    ensures
        r == contains_seq(s@, p@),
{
    let slen = s.unicode_len();
    let plen = p.unicode_len();
    if plen > slen {
        assert(forall|i: int| !is_match_at(s@, p@, i));
        return false;
    }
    if plen == 0 {
        proof {
            assert(s@.subrange(0, 0) =~= p@);
            assert(is_match_at(s@, p@, 0));
        }
        return true;
    }
    let mut i: usize = 0;
    while i <= slen - plen
        invariant
            slen == s@.len(),
            plen == p@.len(),
            1 <= plen <= slen,
            0 <= i <= slen - plen + 1,
            forall|k: int| 0 <= k < i ==> !is_match_at(s@, p@, k),
        decreases slen - i,
    {
        if match_at(s, p, i) {
            return true;
        }
        i = i + 1;
    }
    proof {
        assert forall|k: int| !is_match_at(s@, p@, k) by {
            if 0 <= k < i {
                assert(!is_match_at(s@, p@, k));
            } else {
                assert(k < 0 || k + p@.len() > s@.len());
            }
        }
    }
    false
}

/// Splits `s` on `sep`, returning the segments in order.
pub fn split_str(s: &str, sep: char) -> (r: Vec<String>)
    ensures
        r.deep_view() == split_on(s@, sep),
{
    let len = s.unicode_len();
    let mut done: Vec<String> = Vec::new();
    let mut seg_start: usize = 0;
    let mut i: usize = 0;
    proof {
        assert(s@.subrange(0, 0) =~= Seq::<char>::empty());
        assert(done.deep_view() =~= Seq::<Seq<char>>::empty());
        assert(split_on(s@.subrange(0, 0), sep) =~= done.deep_view().push(s@.subrange(0, 0)));
    }
    while i < len
        invariant
            len == s@.len(),
            0 <= seg_start <= i <= len,
            split_on(s@.subrange(0, i as int), sep) == done.deep_view().push(
                s@.subrange(seg_start as int, i as int),
            ),
        decreases len - i,
    {
        let c = s.get_char(i);
        proof {
            assert(s@.subrange(0, i + 1).drop_last() =~= s@.subrange(0, i as int));
            assert(s@.subrange(0, i + 1).last() == s@[i as int]);
        }
        if c == sep {
            let ghost old_done = done.deep_view();
            let ghost seg = s@.subrange(seg_start as int, i as int);
            let piece = s.substring_char(seg_start, i).to_owned();
            done.push(piece);
            seg_start = i + 1;
            proof {
                assert(done.deep_view() =~= old_done.push(seg));
                assert(s@.subrange(seg_start as int, i + 1) =~= Seq::<char>::empty());
                assert(split_on(s@.subrange(0, i + 1), sep) =~= done.deep_view().push(
                    s@.subrange(seg_start as int, i + 1),
                ));
            }
        } else {
            proof {
                let r = split_on(s@.subrange(0, i as int), sep);
                let seg = s@.subrange(seg_start as int, i as int);
                assert(r == done.deep_view().push(seg));
                assert(r.last() == seg);
                assert(r.len() == done.deep_view().len() + 1);
                assert(seg.push(s@[i as int]) =~= s@.subrange(seg_start as int, i + 1));
                assert(r.update(r.len() - 1, r.last().push(s@[i as int]))
                    =~= done.deep_view().push(s@.subrange(seg_start as int, i + 1)));
            }
        }
        i = i + 1;
    }
    proof {
        assert(s@.subrange(0, len as int) =~= s@);
    }
    let ghost old_done = done.deep_view();
    let ghost seg = s@.subrange(seg_start as int, len as int);
    let piece = s.substring_char(seg_start, len).to_owned();
    done.push(piece);
    proof {
        assert(done.deep_view() =~= old_done.push(seg));
    }
    done
}

/// Decimal digit as a character.
pub open spec fn digit_char(d: nat) -> char {
    if d == 0 {
        '0'
    } else if d == 1 {
        '1'
    } else if d == 2 {
        '2'
    } else if d == 3 {
        '3'
    } else if d == 4 {
        '4'
    } else if d == 5 {
        '5'
    } else if d == 6 {
        '6'
    } else if d == 7 {
        '7'
    } else if d == 8 {
        '8'
    } else {
        '9'
    }
}

/// Decimal rendering of a natural number, most significant digit first.
pub open spec fn dec_str(n: nat) -> Seq<char>
    decreases n,
{
    if n < 10 {
        seq![digit_char(n)]
    } else {
        dec_str(n / 10).push(digit_char(n % 10))
    }
}

fn digit_str(d: usize) -> (r: &'static str)
    requires
        d < 10,
    ensures
        r@ == seq![digit_char(d as nat)],
{
    let s = "0123456789";
    proof {
        reveal_strlit("0123456789");
    }
    let r = s.substring_char(d, d + 1);
    proof {
        assert(r@ =~= seq![digit_char(d as nat)]);
    }
    r
}

/// Renders `n` in decimal.
pub fn usize_to_string(n: usize) -> (r: String)
    ensures
        r@ == dec_str(n as nat),
    decreases n,
{
    if n < 10 {
        digit_str(n).to_owned()
    } else {
        let mut s = usize_to_string(n / 10);
        s.append(digit_str(n % 10));
        s
    }
}

} // verus!
