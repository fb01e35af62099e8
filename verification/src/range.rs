use vstd::prelude::*;

use crate::numbers::{all_digits, dec_val, parse_u64};
use crate::text::{find_char, spec_find, str_eq};

verus! {

/// A parsed `Range` header: `bytes=<start>-` leaves `end` open, and
/// `bytes=<start>-<end>` closes it.
pub struct ByteRange {
    pub start: u64,
    pub end: Option<u64>,
}

pub open spec fn range_of(br: ByteRange) -> (nat, Option<nat>) {
    (
        br.start as nat,
        match br.end {
            Some(e) => Some(e as nat),
            None => None,
        },
    )
}

/// Splits a header of the form `bytes=<before the first dash>-<after it>`.
pub open spec fn spec_range_parts(s: Seq<char>) -> Option<(Seq<char>, Seq<char>)> {
    if s.len() < 6 || s.take(6) != "bytes="@ {
        None
    } else {
        let rest = s.skip(6);
        match spec_find(rest, '-') {
            None => None,
            Some(k) => Some((rest.take(k), rest.skip(k + 1))),
        }
    }
}

/// What a `Range` header means: the start position, and the end position when
/// one is given. A header whose shape is not `bytes=<digits>-[<digits>]`, or
/// whose numbers do not fit in a `u64`, means nothing.
pub open spec fn spec_parse_range(s: Seq<char>) -> Option<(nat, Option<nat>)> {
    match spec_range_parts(s) {
        None => None,
        Some((a, b)) => if a.len() == 0 || !all_digits(a) || dec_val(a) > u64::MAX {
            None
        } else if b.len() == 0 {
            Some((dec_val(a), None))
        } else if !all_digits(b) || dec_val(b) > u64::MAX {
            None
        } else {
            Some((dec_val(a), Some(dec_val(b))))
        },
    }
}

/// Parses a `Range` header, exactly as `spec_parse_range` reads it.
pub fn parse_range_header(h: &str) -> (r: Option<ByteRange>)
    ensures
        match r {
            Some(br) => spec_parse_range(h@) == Some(range_of(br)),
            None => spec_parse_range(h@) is None,
        },
{
    let n: usize = h.unicode_len();
    if n < 6 {
        return None;
    }
    let head: &str = h.substring_char(0, 6);
    proof {
        assert(head@ =~= h@.take(6));
    }
    if !str_eq(head, "bytes=") {
        return None;
    }
    let rest: &str = h.substring_char(6, n);
    proof {
        assert(rest@ =~= h@.skip(6));
    }
    let rlen: usize = rest.unicode_len();
    match find_char(rest, '-') {
        None => None,
        Some(k) => {
            let a: &str = rest.substring_char(0, k);
            let b: &str = rest.substring_char(k + 1, rlen);
            proof {
                assert(a@ =~= rest@.take(k as int));
                assert(b@ =~= rest@.skip(k as int + 1));
            }
            match parse_u64(a) {
                None => None,
                Some(start) => {
                    if b.unicode_len() == 0 {
                        Some(ByteRange { start, end: None })
                    } else {
                        match parse_u64(b) {
                            None => None,
                            Some(e) => Some(ByteRange { start, end: Some(e) }),
                        }
                    }
                },
            }
        },
    }
}

/// The byte window a range request selects from a file of `len` bytes: the
/// inclusive start and end positions. An omitted end means the last byte.
/// A start at or past the end of the file, or an end before the start or past
/// the last byte, selects nothing.
pub open spec fn spec_window(start: nat, end: Option<nat>, len: nat) -> Option<(nat, nat)> {
    if len == 0 {
        None
    } else {
        let e = match end {
            Some(e) => e,
            None => (len - 1) as nat,
        };
        if start <= e && e < len {
            Some((start, e))
        } else {
            None
        }
    }
}

pub open spec fn opt_nat_of(end: Option<u64>) -> Option<nat> {
    match end {
        Some(e) => Some(e as nat),
        None => None,
    }
}

/// Computes the byte window, exactly as `spec_window` selects it.
pub fn compute_window(start: u64, end: Option<u64>, len: u64) -> (r: Option<(u64, u64)>)
    ensures
        match r {
            Some(w) => spec_window(start as nat, opt_nat_of(end), len as nat) == Some(
                (w.0 as nat, w.1 as nat),
            ),
            None => spec_window(start as nat, opt_nat_of(end), len as nat) is None,
        },
{
    if len == 0 {
        return None;
    }
    let e: u64 = match end {
        Some(e) => e,
        None => len - 1,
    };
    if start <= e && e < len {
        Some((start, e))
    } else {
        None
    }
}

/// The bytes of `file` from position `s` through position `e`, inclusive.
pub open spec fn window_bytes(file: Seq<u8>, s: int, e: int) -> Seq<u8> {
    file.subrange(s, e + 1)
}

/// The concatenation, in order, of the windows `ws` cut out of `file`.
pub open spec fn concat_windows(file: Seq<u8>, ws: Seq<(int, int)>) -> Seq<u8>
    decreases ws.len(),
{
    if ws.len() == 0 {
        Seq::empty()
    } else {
        window_bytes(file, ws[0].0, ws[0].1) + concat_windows(file, ws.drop_first())
    }
}

/// The windows `ws` tile `[lo, hi)` without gap or overlap: each window lies
/// inside the interval, the first starts at `lo`, the last ends at `hi - 1`,
/// and each further window starts right after the one before it.
pub open spec fn consecutive_cover(ws: Seq<(int, int)>, lo: int, hi: int) -> bool {
    &&& forall|i: int| 0 <= i < ws.len() ==> lo <= (#[trigger] ws[i]).0 <= ws[i].1 < hi
    &&& (ws.len() == 0 ==> lo == hi)
    &&& (ws.len() > 0 ==> ws[0].0 == lo && ws[ws.len() - 1].1 == hi - 1)
    &&& forall|i: int| 1 <= i < ws.len() ==> (#[trigger] ws[i]).0 == ws[i - 1].1 + 1
}

proof fn lemma_cover_starts_increase(ws: Seq<(int, int)>, i: int, j: int, lo: int, hi: int)
    requires
        consecutive_cover(ws, lo, hi),
        1 <= i <= j < ws.len(),
    ensures
        ws[i].0 <= ws[j].0,
    decreases j - i,
{
    if i < j {
        lemma_cover_starts_increase(ws, i, j - 1, lo, hi);
        assert(ws[j].0 == ws[j - 1].1 + 1);
        assert(ws[j - 1].0 <= ws[j - 1].1);
    }
}

proof fn lemma_reassemble_from(file: Seq<u8>, ws: Seq<(int, int)>, lo: int)
    requires
        0 <= lo <= file.len(),
        consecutive_cover(ws, lo, file.len() as int),
    ensures
        concat_windows(file, ws) == file.skip(lo),
    decreases ws.len(),
{
    if ws.len() == 0 {
        assert(concat_windows(file, ws) =~= file.skip(lo));
    } else {
        let w = ws[0];
        let tail = ws.drop_first();
        assert forall|i: int| 0 <= i < tail.len() implies #[trigger] tail[i] == ws[i + 1] by {}
        assert forall|i: int| 0 <= i < tail.len() implies w.1 + 1 <= (#[trigger] tail[i]).0
            <= tail[i].1 < file.len() as int by {
            assert(tail[i] == ws[i + 1]);
            if i == 0 {
                assert(ws[1].0 == ws[0].1 + 1);
            } else {
                lemma_cover_starts_increase(ws, 1, i + 1, lo, file.len() as int);
            }
        }
        if tail.len() > 0 {
            assert(tail[0] == ws[1]);
            assert(tail[0].0 == w.1 + 1);
            assert(tail[tail.len() - 1] == ws[ws.len() - 1]);
            assert forall|i: int| 1 <= i < tail.len() implies (#[trigger] tail[i]).0 == tail[i
                - 1].1 + 1 by {
                assert(tail[i] == ws[i + 1]);
                assert(tail[i - 1] == ws[i]);
                assert(ws[i + 1].0 == ws[i].1 + 1);
            }
            assert(consecutive_cover(tail, w.1 + 1, file.len() as int));
        } else {
            assert(w.1 == file.len() - 1);
            assert(consecutive_cover(tail, w.1 + 1, file.len() as int));
        }
        lemma_reassemble_from(file, tail, w.1 + 1);
        assert(file.skip(lo) =~= window_bytes(file, w.0, w.1) + file.skip(w.1 + 1));
    }
}

/// Downloading a file as consecutive byte windows that cover it from the
/// first byte to the last, and concatenating the windows in order,
/// reproduces the file exactly.
pub proof fn lemma_windows_reassemble(file: Seq<u8>, ws: Seq<(int, int)>)
    requires
        consecutive_cover(ws, 0, file.len() as int),
    ensures
        concat_windows(file, ws) == file,
{
    lemma_reassemble_from(file, ws, 0);
    assert(file.skip(0) =~= file);
}

/// Law: the window of a full response, from the first byte through the last,
/// is the file itself, byte for byte.
pub proof fn lemma_full_window(file: Seq<u8>)
    ensures
        window_bytes(file, 0, file.len() - 1) == file,
{
    assert(window_bytes(file, 0, file.len() - 1) =~= file);
}

/// Copies the window from position `start` through `end` out of `data`: what
/// a seek to `start` followed by a read of `end - start + 1` bytes yields.
pub fn extract_window(data: &Vec<u8>, start: usize, end: usize) -> (r: Vec<u8>)
    requires
        start <= end < data@.len(),
    ensures
        r@ == data@.subrange(start as int, end as int + 1),
{
    let n: usize = data.len();
    let mut out: Vec<u8> = Vec::new();
    let mut i: usize = start;
    while i <= end
        invariant
            start <= i <= end + 1,
            end < n,
            n == data@.len(),
            out@ =~= data@.subrange(start as int, i as int),
        decreases end + 1 - i,
    {
        out.push(data[i]);
        i = i + 1;
    }
    proof {
        assert(out@ =~= data@.subrange(start as int, end as int + 1));
    }
    out
}

} // verus!
