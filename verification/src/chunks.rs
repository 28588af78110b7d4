use vstd::prelude::*;

verus! {

/// The partition of `s` into consecutive pieces of `k` characters each,
/// the last piece holding whatever remains. `k == 0` is degenerate and
/// yields no pieces; every user requires `k >= 1`.
pub open spec fn chunks_of(s: Seq<char>, k: nat) -> Seq<Seq<char>>
    decreases s.len(),
{
    if k == 0 || s.len() == 0 {
        Seq::<Seq<char>>::empty()
    } else if s.len() <= k {
        seq![s]
    } else {
        seq![s.take(k as int)] + chunks_of(s.skip(k as int), k)
    }
}

/// Splits `code` into pieces of at most `max_chars` characters: each piece
/// but the last holds exactly `max_chars` characters, and the pieces
/// concatenate back to `code` in order.
pub fn split_code_into_chunks(code: &str, max_chars: usize) -> (r: Vec<String>)
    requires
        max_chars >= 1,
    ensures
        r.deep_view() == chunks_of(code@, max_chars as nat),
{
    let len = code.unicode_len();
    let mut chunks: Vec<String> = Vec::new();
    let mut start: usize = 0;
    proof {
        assert(chunks.deep_view() =~= Seq::<Seq<char>>::empty());
        assert(code@.skip(0) =~= code@);
    }
    while start < len
        invariant
            max_chars >= 1,
            len == code@.len(),
            0 <= start <= len,
            chunks_of(code@, max_chars as nat) == chunks.deep_view() + chunks_of(
                code@.skip(start as int),
                max_chars as nat,
            ),
        decreases len - start,
    {
        let end = if len - start < max_chars {
            len
        } else {
            start + max_chars
        };
        let ghost old_chunks = chunks.deep_view();
        let ghost rest = code@.skip(start as int);
        let piece = code.substring_char(start, end).to_owned();
        chunks.push(piece);
        proof {
            assert(chunks.deep_view() =~= old_chunks.push(code@.subrange(start as int, end as int)));
            if rest.len() <= max_chars {
                assert(code@.subrange(start as int, end as int) =~= rest);
                assert(chunks_of(rest, max_chars as nat) == seq![rest]);
                assert(chunks.deep_view() + chunks_of(code@.skip(end as int), max_chars as nat)
                    =~= old_chunks + chunks_of(rest, max_chars as nat));
            } else {
                assert(code@.subrange(start as int, end as int) =~= rest.take(max_chars as int));
                assert(rest.skip(max_chars as int) =~= code@.skip(end as int));
                assert(chunks.deep_view() + chunks_of(code@.skip(end as int), max_chars as nat)
                    =~= old_chunks + chunks_of(rest, max_chars as nat));
            }
        }
        start = end;
    }
    proof {
        assert(code@.skip(start as int).len() == 0);
        assert(chunks_of(code@, max_chars as nat) =~= chunks.deep_view());
    }
    chunks
}

/// Concatenating the pieces of the partition, in order, reproduces the
/// partitioned text exactly.
pub proof fn lemma_chunks_concat(s: Seq<char>, k: nat)
    requires
        k >= 1,
    ensures
        chunks_of(s, k).flatten() == s,
    decreases s.len(),
{
    if s.len() == 0 {
        assert(chunks_of(s, k).flatten() =~= s);
    } else if s.len() <= k {
        assert(chunks_of(s, k) == seq![s]);
        assert(seq![s].drop_first() =~= Seq::<Seq<char>>::empty());
        assert(Seq::<Seq<char>>::empty().flatten() =~= Seq::<char>::empty());
        assert(seq![s].flatten() == seq![s].first() + seq![s].drop_first().flatten());
        assert(seq![s].flatten() =~= s);
    } else {
        lemma_chunks_concat(s.skip(k as int), k);
        let c = chunks_of(s, k);
        assert(c.first() == s.take(k as int));
        assert(c.drop_first() =~= chunks_of(s.skip(k as int), k));
        assert(c.flatten() == s.take(k as int) + chunks_of(s.skip(k as int), k).flatten());
        assert(s.take(k as int) + s.skip(k as int) =~= s);
    }
}

/// The partition of `s` into pieces of `k` holds exactly
/// `ceil(s.len() / k)` pieces; every piece but the last holds exactly
/// `k` characters, and the last holds between 1 and `k`.
pub proof fn lemma_chunks_shape(s: Seq<char>, k: nat)
    requires
        k >= 1,
    ensures
        chunks_of(s, k).len() == (s.len() + k - 1) / (k as int),
        forall|i: int|
            0 <= i < chunks_of(s, k).len() - 1 ==> (#[trigger] chunks_of(s, k)[i]).len() == k,
        chunks_of(s, k).len() > 0 ==> 1 <= chunks_of(s, k).last().len() <= k,
        forall|i: int|
            0 <= i < chunks_of(s, k).len() ==> 1 <= (#[trigger] chunks_of(s, k)[i]).len() <= k,
    decreases s.len(),
{
    let c = chunks_of(s, k);
    if s.len() == 0 {
        assert(((0 + k - 1) as int) / (k as int) == 0) by (nonlinear_arith)
            requires
                k >= 1,
        ;
    } else if s.len() <= k {
        assert(((s.len() + k - 1) as int) / (k as int) == 1) by (nonlinear_arith)
            requires
                k >= 1 && 1 <= s.len() <= k,
        ;
        assert(c == seq![s]);
        assert(c.last() == s);
    } else {
        lemma_chunks_shape(s.skip(k as int), k);
        let rest = chunks_of(s.skip(k as int), k);
        assert(s.skip(k as int).len() == s.len() - k);
        assert(((s.len() - k + k - 1) as int) / (k as int) + 1 == ((s.len() + k - 1) as int) / (
        k as int)) by (nonlinear_arith)
            requires
                k >= 1 && s.len() > k,
        ;
        assert(c.len() == rest.len() + 1);
        assert forall|i: int| 0 <= i < c.len() implies 1 <= (#[trigger] c[i]).len() <= k by {
            if i == 0 {
                assert(c[0] == s.take(k as int));
            } else {
                assert(c[i] == rest[i - 1]);
            }
        }
        assert forall|i: int| 0 <= i < c.len() - 1 implies (#[trigger] c[i]).len() == k by {
            if i == 0 {
                assert(c[0] == s.take(k as int));
            } else {
                assert(c[i] == rest[i - 1]);
            }
        }
        assert(c.last() == rest.last());
    }
}

/// An empty text yields no pieces, whatever the bound.
pub proof fn lemma_chunks_empty(k: nat)
    requires
        k >= 1,
    ensures
        chunks_of(Seq::<char>::empty(), k).len() == 0,
{
}

} // verus!
