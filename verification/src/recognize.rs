//! The burned-in timestamp grammar: `<id>-<milliseconds>` with a one to
//! three digit id and a one to thirteen digit millisecond count.  The
//! recognition variant of the frame transform scans the text returned by the
//! optical reader for the leftmost occurrence of this pattern; the id run is
//! as long as possible (up to three digits), and the millisecond run as long
//! as possible (up to thirteen digits).

use crate::digits::dec_val;
use crate::digits::digit_run;
use crate::digits::is_digit;
use crate::digits::pow10;
use vstd::prelude::*;

verus! {

pub const HYPHEN: u8 = 45;

/// What one decoded frame's recognition produced: the burned-in identity and
/// millisecond timestamp, or nothing the grammar accepts.
#[derive(Clone, Copy, Debug, PartialEq, Eq)]
pub enum RecognitionResult {
    Recognized { id: u32, time_ms: u64 },
    Unrecognized,
}

/// The pattern occurs at position `i` with id length `a`: `a` digits, a
/// hyphen, then at least one more digit.
pub open spec fn match_arm(s: Seq<u8>, i: int, a: int) -> bool {
    &&& 1 <= a <= 3
    &&& i + a + 1 < s.len()
    &&& forall|j: int| i <= j < i + a ==> is_digit(#[trigger] s[j])
    &&& s[i + a] == HYPHEN
    &&& is_digit(s[i + a + 1])
}

/// The pattern matches at position `i`: one to three digits, a hyphen, then
/// at least one more digit.
pub open spec fn match_at(s: Seq<u8>, i: int) -> bool {
    exists|a: int| match_arm(s, i, a)
}

/// A digit run that stops exactly at `i + a` has length `a`.
pub proof fn lemma_run_exact(s: Seq<u8>, i: int, a: int)
    requires
        0 <= i,
        0 <= a,
        i + a <= s.len(),
        forall|j: int| i <= j < i + a ==> is_digit(#[trigger] s[j]),
        i + a == s.len() || !is_digit(s[i + a]),
    ensures
        digit_run(s, i) == a,
    decreases a,
{
    if a > 0 {
        lemma_run_exact(s, i + 1, a - 1);
    }
}

/// Every byte of the maximal digit run is a digit, the run ends inside the
/// sequence, and the byte after it (if any) is not a digit.
pub proof fn lemma_run_shape(s: Seq<u8>, i: int)
    requires
        0 <= i <= s.len(),
    ensures
        i + digit_run(s, i) <= s.len(),
        forall|j: int| i <= j < i + digit_run(s, i) ==> is_digit(#[trigger] s[j]),
        i + digit_run(s, i) < s.len() ==> !is_digit(s[i + digit_run(s, i)]),
    decreases s.len() - i,
{
    if i < s.len() && is_digit(s[i]) {
        lemma_run_shape(s, i + 1);
    }
}

/// The match at `i` exists exactly when the maximal digit run at `i` has one
/// to three digits, a hyphen follows it, and a digit follows the hyphen.
pub proof fn lemma_match_at_run(s: Seq<u8>, i: int)
    requires
        0 <= i <= s.len(),
    ensures
        match_at(s, i) <==> {
            let d = digit_run(s, i) as int;
            &&& 1 <= d <= 3
            &&& i + d + 1 < s.len()
            &&& s[i + d] == HYPHEN
            &&& is_digit(s[i + d + 1])
        },
{
    lemma_run_shape(s, i);
    let d = digit_run(s, i) as int;
    if match_at(s, i) {
        let a = choose|a: int| match_arm(s, i, a);
        lemma_run_exact(s, i, a);
    }
    if 1 <= d <= 3 && i + d + 1 < s.len() && s[i + d] == HYPHEN && is_digit(s[i + d + 1]) {
        assert(match_arm(s, i, d));
        assert(match_at(s, i));
    }
}

/// The first position from `i` on where the pattern matches, or the length
/// of `s` when it matches nowhere.
pub open spec fn first_match(s: Seq<u8>, i: int) -> int
    recommends
        0 <= i <= s.len(),
    decreases s.len() - i when 0 <= i <= s.len()
{
    if i >= s.len() {
        s.len() as int
    } else if match_at(s, i) {
        i
    } else {
        first_match(s, i + 1)
    }
}

/// The captured id length at a match position: the maximal digit run there.
pub open spec fn id_len_at(s: Seq<u8>, i: int) -> int {
    digit_run(s, i) as int
}

/// The captured millisecond run length: the digits after the hyphen, at most
/// thirteen of them.
pub open spec fn ms_len_at(s: Seq<u8>, i: int) -> int {
    let t0 = i + id_len_at(s, i) + 1;
    if digit_run(s, t0) > 13 {
        13
    } else {
        digit_run(s, t0) as int
    }
}

/// The id captured at a match position.
pub open spec fn id_val_at(s: Seq<u8>, i: int) -> nat {
    dec_val(s.subrange(i, i + id_len_at(s, i)))
}

/// The millisecond count captured at a match position.
pub open spec fn ms_val_at(s: Seq<u8>, i: int) -> nat {
    let t0 = i + id_len_at(s, i) + 1;
    dec_val(s.subrange(t0, t0 + ms_len_at(s, i)))
}

/// What recognition yields on a piece of text: the captures of the leftmost
/// match, or nothing when the pattern does not occur.
pub open spec fn rec_spec(s: Seq<u8>) -> RecognitionResult {
    let p = first_match(s, 0);
    if p < s.len() {
        RecognitionResult::Recognized {
            id: id_val_at(s, p) as u32,
            time_ms: ms_val_at(s, p) as u64,
        }
    } else {
        RecognitionResult::Unrecognized
    }
}

/// The length of the maximal digit run starting at `i`.
fn digit_run_len(s: &[u8], i: usize) -> (d: usize)
    requires
        i <= s@.len(),
    ensures
        i + d <= s@.len(),
        d == digit_run(s@, i as int),
{
    let n = s.len();
    let mut j: usize = i;
    while j < n && 48 <= s[j] && s[j] <= 57
        invariant
            i <= j <= n == s@.len(),
            digit_run(s@, i as int) == (j - i) + digit_run(s@, j as int),
        decreases n - j,
    {
        j = j + 1;
    }
    j - i
}

/// Scans `text` for the leftmost occurrence of the burned-in pattern and
/// returns its captures, or `Unrecognized` when the pattern does not occur.
pub fn parse_recognition(text: &[u8]) -> (r: RecognitionResult)
    ensures
        r == rec_spec(text@),
{
    let n = text.len();
    let ghost s = text@;
    let mut i: usize = 0;
    while i < n
        invariant
            s == text@,
            0 <= i <= n == s.len(),
            first_match(s, 0) == first_match(s, i as int),
        decreases n - i,
    {
        let d = digit_run_len(text, i);
        proof {
            lemma_match_at_run(s, i as int);
        }
        if 1 <= d && d <= 3 && i + d < n && i + d + 1 < n && text[i + d] == HYPHEN && 48 <= text[i
            + d + 1] && text[i + d + 1] <= 57 {
            proof {
                assert(match_at(s, i as int));
                assert(first_match(s, i as int) == i as int);
                lemma_run_shape(s, i as int);
                crate::digits::lemma_pow10_le(d as nat, 13);
                reveal_with_fuel(pow10, 14);
                crate::digits::lemma_dec_val_bound(s.subrange(i as int, i as int + d));
            }
            let idv = crate::digits::dec_value_range(text, i, i + d);
            let t0 = i + d + 1;
            let tr = digit_run_len(text, t0);
            let tl: usize = if tr > 13 {
                13
            } else {
                tr
            };
            proof {
                lemma_run_shape(s, t0 as int);
                assert(digit_run(s, t0 as int) >= 1);
            }
            let msv = crate::digits::dec_value_range(text, t0, t0 + tl);
            proof {
                assert(id_len_at(s, i as int) == d as int);
                assert(ms_len_at(s, i as int) == tl as int);
                assert(idv as nat == id_val_at(s, i as int));
                assert(msv as nat == ms_val_at(s, i as int));
                assert(idv < 1000);
            }
            return RecognitionResult::Recognized { id: idv as u32, time_ms: msv };
        }
        proof {
            assert(!match_at(s, i as int));
        }
        i = i + 1;
    }
    RecognitionResult::Unrecognized
}

} // verus!
