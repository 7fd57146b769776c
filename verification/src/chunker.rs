//! UTF-8-safe chunking of a byte sequence.
//!
//! [`Utf8Chunker`] splits a byte sequence into consecutive slices, each at
//! most `limit` bytes long.  When a candidate split point lands inside the
//! multi-byte encoding of one code point, the split is walked backward to the
//! nearest code-point boundary, so that every chunk of a valid UTF-8 input is
//! itself valid UTF-8 — provided `limit` is at least 4, the longest encoding
//! of one code point.  When `limit` is smaller and the single code point at
//! the cursor is longer than `limit`, the chunker falls back to emitting the
//! full `limit`-sized slice ("limit too small"): a defined degenerate case,
//! not a failure, and concatenation of the chunks still reproduces the input
//! exactly.
//!
//! The sequence of chunks is finite and consumed in order; an empty input
//! yields zero chunks.  A fresh chunker must be constructed per input.

use vstd::prelude::*;
use vstd::utf8::*;

verus! {

/// The split point that the backward walk reaches from candidate `end`:
/// the largest index in `off..=end` that does not hold a continuation byte,
/// or `off` when every byte in `off+1..=end` (and `end` itself) continues a
/// code point.
pub open spec fn back_to_boundary(s: Seq<u8>, off: int, end: int) -> int
    recommends
        0 <= off <= end < s.len(),
    decreases end - off when off <= end
{
    if end <= off {
        off
    } else if is_continuation_byte(s[end]) {
        back_to_boundary(s, off, end - 1)
    } else {
        end
    }
}

/// Where the chunk that starts at `off` ends: up to `limit` bytes are taken;
/// a candidate end inside a continuation run is walked back to a code-point
/// boundary; if that walk would make the chunk empty, the full candidate is
/// taken after all (the "limit too small" fallback).
pub open spec fn step_end(s: Seq<u8>, off: int, limit: int) -> int
    recommends
        0 <= off < s.len(),
        1 <= limit,
{
    let cand = if off + limit < s.len() { off + limit } else { s.len() as int };
    if cand == s.len() {
        cand
    } else {
        let e = back_to_boundary(s, off, cand);
        if e == off {
            cand
        } else {
            e
        }
    }
}

/// The whole sequence of chunks that the chunker yields for the part of `s`
/// from `off` on.
pub open spec fn chunks_of(s: Seq<u8>, off: int, limit: int) -> Seq<Seq<u8>>
    decreases s.len() - off when 0 <= off <= s.len() && 1 <= limit
{
    if off >= s.len() {
        Seq::empty()
    } else {
        let e = step_end(s, off, limit);
        if off < e <= s.len() {
            seq![s.subrange(off, e)] + chunks_of(s, e, limit)
        } else {
            // never reached: `lemma_step_end_bounds` shows off < e <= s.len()
            Seq::empty()
        }
    }
}

proof fn lemma_back_to_boundary_bounds(s: Seq<u8>, off: int, end: int)
    requires
        0 <= off <= end,
    ensures
        off <= back_to_boundary(s, off, end) <= end,
        back_to_boundary(s, off, end) > off ==> !is_continuation_byte(
            s[back_to_boundary(s, off, end)],
        ),
    decreases end - off,
{
    if end <= off {
    } else if is_continuation_byte(s[end]) {
        lemma_back_to_boundary_bounds(s, off, end - 1);
    }
}

/// When some index `b` in `off+1..=end` does not hold a continuation byte,
/// the backward walk stops at `b` or later.
proof fn lemma_back_to_boundary_at_least(s: Seq<u8>, off: int, end: int, b: int)
    requires
        0 <= off < b <= end,
        !is_continuation_byte(s[b]),
    ensures
        back_to_boundary(s, off, end) >= b,
    decreases end - off,
{
    if end > b && is_continuation_byte(s[end]) {
        lemma_back_to_boundary_at_least(s, off, end - 1, b);
    }
}

/// A chunk is never empty, never longer than `limit`, and ends within `s`.
pub proof fn lemma_step_end_bounds(s: Seq<u8>, off: int, limit: int)
    requires
        0 <= off < s.len(),
        1 <= limit,
    ensures
        off < step_end(s, off, limit) <= s.len(),
        step_end(s, off, limit) - off <= limit,
{
    let cand = if off + limit < s.len() { off + limit } else { s.len() as int };
    if cand < s.len() {
        lemma_back_to_boundary_bounds(s, off, cand);
    }
}

/// Concatenating every chunk from `off` on reproduces the part of `s` from
/// `off` on, for every input and every positive limit.
proof fn lemma_chunks_concat_from(s: Seq<u8>, off: int, limit: int)
    requires
        0 <= off <= s.len(),
        1 <= limit,
    ensures
        chunks_of(s, off, limit).flatten() == s.subrange(off, s.len() as int),
    decreases s.len() - off,
{
    if off >= s.len() {
        assert(chunks_of(s, off, limit).flatten() =~= s.subrange(off, s.len() as int));
    } else {
        lemma_step_end_bounds(s, off, limit);
        let e = step_end(s, off, limit);
        let c = chunks_of(s, off, limit);
        lemma_chunks_concat_from(s, e, limit);
        assert(c.drop_first() =~= chunks_of(s, e, limit));
        assert(c.first() == s.subrange(off, e));
        assert(c.flatten() == c.first() + c.drop_first().flatten());
        assert(c.flatten() =~= s.subrange(off, s.len() as int));
    }
}

/// Law: for every byte sequence `s` and every limit of at least one byte,
/// concatenating the chunker's output for `(s, limit)` reproduces `s`
/// exactly.  This holds with or without the "limit too small" fallback.
pub proof fn lemma_chunks_concat(s: Seq<u8>, limit: int)
    requires
        1 <= limit,
    ensures
        chunks_of(s, 0, limit).flatten() == s,
{
    lemma_chunks_concat_from(s, 0, limit);
    assert(s.subrange(0, s.len() as int) =~= s);
}

/// Law: an empty input yields zero chunks.
pub proof fn lemma_chunks_empty(s: Seq<u8>, limit: int)
    requires
        s.len() == 0,
        1 <= limit,
    ensures
        chunks_of(s, 0, limit).len() == 0,
{
}

/// Law: every chunk holds at least one and at most `limit` bytes.
pub proof fn lemma_chunks_bounded(s: Seq<u8>, limit: int)
    requires
        1 <= limit,
    ensures
        forall|i: int|
            0 <= i < chunks_of(s, 0, limit).len() ==> 1 <= (
            #[trigger] chunks_of(s, 0, limit)[i]).len() <= limit,
{
    lemma_chunks_bounded_from(s, 0, limit);
}

proof fn lemma_chunks_bounded_from(s: Seq<u8>, off: int, limit: int)
    requires
        0 <= off <= s.len(),
        1 <= limit,
    ensures
        forall|i: int|
            0 <= i < chunks_of(s, off, limit).len() ==> 1 <= (
            #[trigger] chunks_of(s, off, limit)[i]).len() <= limit,
    decreases s.len() - off,
{
    if off < s.len() {
        lemma_step_end_bounds(s, off, limit);
        let e = step_end(s, off, limit);
        lemma_chunks_bounded_from(s, e, limit);
        let c = chunks_of(s, off, limit);
        assert forall|i: int| 0 <= i < c.len() implies 1 <= (#[trigger] c[i]).len() <= limit by {
            if i > 0 {
                assert(c[i] == chunks_of(s, e, limit)[i - 1]);
            }
        }
    }
}

/// In a valid UTF-8 suffix, the end of the first encoded scalar is a
/// boundary: its index is at most 4, and the byte there (when any) is not a
/// continuation byte.
proof fn lemma_first_scalar_boundary(t: Seq<u8>)
    requires
        valid_utf8(t),
        t.len() > 0,
    ensures
        1 <= length_of_first_scalar(t) <= 4,
        length_of_first_scalar(t) <= t.len(),
        length_of_first_scalar(t) < t.len() ==> !is_continuation_byte(t[length_of_first_scalar(t)]),
        is_char_boundary(t, length_of_first_scalar(t)),
    decreases t.len(),
{
    reveal_with_fuel(valid_utf8, 2);
    let n = length_of_first_scalar(t);
    assert(is_char_boundary(t, n)) by {
        reveal_with_fuel(is_char_boundary, 2);
    }
    if n < t.len() {
        broadcast use is_char_boundary_iff_not_is_continuation_byte;

    }
}

/// Where the next chunk of a valid UTF-8 suffix ends, with a limit of at
/// least 4 bytes: on a code-point boundary of that suffix, and without the
/// fallback ever firing.
proof fn lemma_step_end_boundary(s: Seq<u8>, off: int, limit: int)
    requires
        0 <= off < s.len(),
        4 <= limit,
        valid_utf8(s.subrange(off, s.len() as int)),
    ensures
        is_char_boundary(s.subrange(off, s.len() as int), step_end(s, off, limit) - off),
{
    let t = s.subrange(off, s.len() as int);
    let cand = if off + limit < s.len() { off + limit } else { s.len() as int };
    let e = step_end(s, off, limit);
    broadcast use is_char_boundary_start_end_of_seq;

    if cand == s.len() {
        assert(e - off == t.len());
    } else {
        lemma_first_scalar_boundary(t);
        let n = length_of_first_scalar(t);
        // off + n <= cand, and the byte at off + n is not a continuation byte
        assert(off + n < s.len());
        assert(s[off + n] == t[n]);
        lemma_back_to_boundary_at_least(s, off, cand, off + n);
        lemma_back_to_boundary_bounds(s, off, cand);
        let b = back_to_boundary(s, off, cand);
        assert(e == b);
        assert(!is_continuation_byte(t[b - off]));
        broadcast use is_char_boundary_iff_not_is_continuation_byte;

        assert(is_char_boundary(t, b - off));
    }
}

proof fn lemma_chunks_utf8_from(s: Seq<u8>, off: int, limit: int)
    requires
        0 <= off <= s.len(),
        4 <= limit,
        valid_utf8(s.subrange(off, s.len() as int)),
    ensures
        forall|i: int|
            0 <= i < chunks_of(s, off, limit).len() ==> valid_utf8(
                #[trigger] chunks_of(s, off, limit)[i],
            ),
    decreases s.len() - off,
{
    if off < s.len() {
        lemma_step_end_bounds(s, off, limit);
        lemma_step_end_boundary(s, off, limit);
        let t = s.subrange(off, s.len() as int);
        let e = step_end(s, off, limit);
        broadcast use valid_utf8_split;

        assert(valid_utf8(t.subrange(0, e - off)));
        assert(t.subrange(0, e - off) =~= s.subrange(off, e));
        assert(t.subrange(e - off, t.len() as int) =~= s.subrange(e, s.len() as int));
        lemma_chunks_utf8_from(s, e, limit);
        let c = chunks_of(s, off, limit);
        assert forall|i: int| 0 <= i < c.len() implies valid_utf8(#[trigger] c[i]) by {
            if i > 0 {
                assert(c[i] == chunks_of(s, e, limit)[i - 1]);
            }
        }
    }
}

/// Law: for a valid UTF-8 input and a limit of at least 4 bytes — the
/// longest encoding of one code point — every chunk is itself valid UTF-8:
/// no chunk boundary falls inside the encoding of one code point.
pub proof fn lemma_chunks_valid_utf8(s: Seq<u8>, limit: int)
    requires
        valid_utf8(s),
        4 <= limit,
    ensures
        forall|i: int|
            0 <= i < chunks_of(s, 0, limit).len() ==> valid_utf8(
                #[trigger] chunks_of(s, 0, limit)[i],
            ),
{
    assert(s.subrange(0, s.len() as int) =~= s);
    lemma_chunks_utf8_from(s, 0, limit);
}

/// Splits a byte slice into UTF-8-safe chunks of at most `limit` bytes each.
pub struct Utf8Chunker<'a> {
    /// The input bytes.
    pub data: &'a [u8],
    /// The byte budget of one chunk.
    pub limit: usize,
    /// The cursor: everything before it has been yielded.
    pub offset: usize,
}

impl<'a> Utf8Chunker<'a> {
    /// The chunker is consistent: the cursor sits inside the input and the
    /// limit is positive.
    pub open spec fn wf(&self) -> bool {
        1 <= self.limit && self.offset <= self.data@.len()
    }

    /// A fresh chunker over `data`, with its cursor at the start.
    pub fn new(data: &'a [u8], limit: usize) -> (r: Self)
        requires
            1 <= limit,
        ensures
            r.wf(),
            r.data@ == data@,
            r.limit == limit,
            r.offset == 0,
    {
        Utf8Chunker { data, limit, offset: 0 }
    }

    /// The next chunk: the bytes from the cursor to [`step_end`], or `None`
    /// once the cursor has reached the end of the input.
    pub fn next(&mut self) -> (r: Option<Vec<u8>>)
        requires
            old(self).wf(),
        ensures
            final(self).wf(),
            final(self).data@ == old(self).data@,
            final(self).limit == old(self).limit,
            old(self).offset >= old(self).data@.len() ==> r is None && final(self).offset == old(
                self,
            ).offset,
            old(self).offset < old(self).data@.len() ==> {
                let e = step_end(old(self).data@, old(self).offset as int, old(self).limit as int);
                &&& r matches Some(c) && c@ == old(self).data@.subrange(old(self).offset as int, e)
                &&& final(self).offset == e
            },
    {
        let len = self.data.len();
        if self.offset >= len {
            return None;
        }
        let off = self.offset;
        let remaining = len - off;
        let take = if remaining < self.limit {
            remaining
        } else {
            self.limit
        };
        let cand = off + take;
        let mut end = cand;
        if end < len {
            while end > off && 0x80 <= self.data[end] && self.data[end] <= 0xbf
                invariant
                    off <= end <= cand < len == self.data@.len(),
                    back_to_boundary(self.data@, off as int, cand as int) == back_to_boundary(
                        self.data@,
                        off as int,
                        end as int,
                    ),
                decreases end,
            {
                end = end - 1;
            }
            if end == off {
                end = cand;
            }
        }
        proof {
            assert(end == step_end(self.data@, off as int, self.limit as int));
        }
        let mut out: Vec<u8> = Vec::new();
        let mut i = off;
        while i < end
            invariant
                off <= i <= end <= self.data@.len(),
                out@ == self.data@.subrange(off as int, i as int),
            decreases end - i,
        {
            let b = self.data[i];
            out.push(b);
            i = i + 1;
            proof {
                assert(out@ =~= self.data@.subrange(off as int, i as int));
            }
        }
        self.offset = end;
        Some(out)
    }
}

} // verus!
