//! The fixed encoder configuration of a run, and the parser for
//! comma-separated `key=value` settings strings handed to the codec
//! collaborator.

use vstd::prelude::*;

verus! {

pub const COMMA: u8 = 44;

pub const EQUALS: u8 = 61;

/// The constant encoder tuning of this core.  Output dimensions, aspect
/// ratio, pixel format and frame rate mirror the decoder, and the time base
/// is the input stream's; on top of that these constants apply.  A
/// group-of-pictures size of one makes every output frame an independently
/// decodable keyframe, so single frames can be dropped or retimed without
/// harming their neighbours.
#[derive(Clone, Copy, Debug, PartialEq, Eq, Structural)]
pub struct EncoderPolicy {
    pub bit_rate: u64,
    pub gop: u32,
    pub quality_best: bool,
    pub cpu_used: u32,
    pub crf: u32,
    pub qmin: u32,
    pub qmax: u32,
    pub keyframe_min_dist: u32,
    pub keyframe_max_dist: u32,
    pub thread_count: u32,
}

/// The one encoder policy every stream transcoder uses.
pub fn encoder_policy() -> (p: EncoderPolicy)
    ensures
        p.bit_rate == 20000,
        p.gop == 1,
        p.quality_best,
        p.cpu_used == 0,
        p.crf == 1,
        p.qmin == 1,
        p.qmax == 10,
        p.keyframe_min_dist == 1,
        p.keyframe_max_dist == 1,
        p.thread_count == 0,
{
    EncoderPolicy {
        bit_rate: 20000,
        gop: 1,
        quality_best: true,
        cpu_used: 0,
        crf: 1,
        qmin: 1,
        qmax: 10,
        keyframe_min_dist: 1,
        keyframe_max_dist: 1,
        thread_count: 0,
    }
}

/// The first position in `[i, end)` holding byte `b`, or `end`.
pub open spec fn find_in(s: Seq<u8>, b: u8, i: int, end: int) -> int
    recommends
        0 <= i <= end <= s.len(),
    decreases end - i when i <= end
{
    if i >= end {
        end
    } else if s[i] == b {
        i
    } else {
        find_in(s, b, i + 1, end)
    }
}

/// `find_in` stays inside its range, lands on `b`, and skips nothing.
pub proof fn lemma_find_in(s: Seq<u8>, b: u8, i: int, end: int)
    requires
        0 <= i <= end <= s.len(),
    ensures
        i <= find_in(s, b, i, end) <= end,
        find_in(s, b, i, end) < end ==> s[find_in(s, b, i, end)] == b,
        forall|t: int| i <= t < find_in(s, b, i, end) ==> s[t] != b,
    decreases end - i,
{
    if i < end && s[i] != b {
        lemma_find_in(s, b, i + 1, end);
    }
}

/// The `key=value` segment spanning `[lo, hi)`: the parts around the one
/// equals sign, or nothing when the sign is missing or repeated.
pub open spec fn pair_at(s: Seq<u8>, lo: int, hi: int) -> Option<(Seq<u8>, Seq<u8>)>
    recommends
        0 <= lo <= hi <= s.len(),
{
    let e = find_in(s, EQUALS, lo, hi);
    if e == hi {
        None
    } else if find_in(s, EQUALS, e + 1, hi) != hi {
        None
    } else {
        Some((s.subrange(lo, e), s.subrange(e + 1, hi)))
    }
}

/// The settings parsed from position `i` on: comma-separated `key=value`
/// segments, a trailing comma tolerated, or nothing when a segment is
/// malformed.
pub open spec fn opts_from(s: Seq<u8>, i: int) -> Option<Seq<(Seq<u8>, Seq<u8>)>>
    recommends
        0 <= i <= s.len(),
    decreases s.len() - i when 0 <= i <= s.len() via opts_from_decreases
{
    if i >= s.len() {
        Some(Seq::empty())
    } else {
        let c = find_in(s, COMMA, i, s.len() as int);
        match pair_at(s, i, c) {
            None => None,
            Some(p) => {
                if c == s.len() {
                    Some(seq![p])
                } else {
                    match opts_from(s, c + 1) {
                        None => None,
                        Some(r) => Some(seq![p] + r),
                    }
                }
            },
        }
    }
}

#[via_fn]
proof fn opts_from_decreases(s: Seq<u8>, i: int) {
    if 0 <= i < s.len() {
        lemma_find_in(s, COMMA, i, s.len() as int);
    }
}

/// The settings parsed from a whole string.
pub open spec fn opts_spec(s: Seq<u8>) -> Option<Seq<(Seq<u8>, Seq<u8>)>> {
    opts_from(s, 0)
}

/// The views of a list of parsed settings.
pub open spec fn pairs_view(v: Seq<(Vec<u8>, Vec<u8>)>) -> Seq<(Seq<u8>, Seq<u8>)> {
    v.map_values(|p: (Vec<u8>, Vec<u8>)| (p.0@, p.1@))
}

/// The first position in `[lo, hi)` of `s` holding `b`, or `hi`.
fn find_byte_from(s: &[u8], b: u8, lo: usize, hi: usize) -> (r: usize)
    requires
        lo <= hi <= s@.len(),
    ensures
        r == find_in(s@, b, lo as int, hi as int),
        lo <= r <= hi,
{
    proof {
        lemma_find_in(s@, b, lo as int, hi as int);
    }
    let mut j: usize = lo;
    while j < hi
        invariant
            lo <= j <= hi <= s@.len(),
            find_in(s@, b, lo as int, hi as int) == find_in(s@, b, j as int, hi as int),
        decreases hi - j,
    {
        if s[j] == b {
            return j;
        }
        j = j + 1;
    }
    j
}

/// Splits a settings string into its `key=value` pairs: segments are comma
/// separated, a trailing comma is tolerated, and each segment must hold
/// exactly one equals sign; any other shape rejects the whole string.
pub fn parse_opts(s: &[u8]) -> (r: Option<Vec<(Vec<u8>, Vec<u8>)>>)
    ensures
        match r {
            Some(v) => opts_spec(s@) == Some(pairs_view(v@)),
            None => opts_spec(s@) is None,
        },
{
    let n = s.len();
    let ghost sq = s@;
    let mut out: Vec<(Vec<u8>, Vec<u8>)> = Vec::new();
    let mut i: usize = 0;
    proof {
        assert(pairs_view(out@) + opts_from(sq, 0).unwrap() =~= opts_from(sq, 0).unwrap());
    }
    while i < n
        invariant
            sq == s@,
            0 <= i <= n == sq.len(),
            match opts_from(sq, i as int) {
                Some(w) => opts_from(sq, 0) == Some(pairs_view(out@) + w),
                None => opts_from(sq, 0) is None,
            },
        decreases n - i,
    {
        let c = find_byte_from(s, COMMA, i, n);
        let e = find_byte_from(s, EQUALS, i, c);
        if e == c {
            return None;
        }
        let e2 = find_byte_from(s, EQUALS, e + 1, c);
        if e2 != c {
            return None;
        }
        let key = vstd::slice::slice_to_vec(&s[i..e]);
        let val = vstd::slice::slice_to_vec(&s[e + 1..c]);
        let ghost p = (sq.subrange(i as int, e as int), sq.subrange(e as int + 1, c as int));
        let ghost out0 = out@;
        proof {
            assert(pair_at(sq, i as int, c as int) == Some(p));
        }
        out.push((key, val));
        proof {
            assert(pairs_view(out@) =~= pairs_view(out0) + seq![p]);
        }
        if c == n {
            i = n;
            proof {
                assert(opts_from(sq, n as int) == Some(Seq::<(Seq<u8>, Seq<u8>)>::empty()));
                assert(pairs_view(out@) + Seq::<(Seq<u8>, Seq<u8>)>::empty() =~= pairs_view(out@));
            }
        } else {
            i = c + 1;
        }
    }
    proof {
        assert(opts_from(sq, n as int) == Some(Seq::<(Seq<u8>, Seq<u8>)>::empty()));
        assert(pairs_view(out@) + Seq::<(Seq<u8>, Seq<u8>)>::empty() =~= pairs_view(out@));
    }
    Some(out)
}

} // verus!
