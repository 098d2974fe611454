//! Output-file naming: deriving the output path from the input path and the
//! run mode, and embedding a recovered identity into the name after a
//! recognition run.
//!
//! Paths are handled as UTF-8 bytes.  An extension is a final run of ASCII
//! word bytes after a dot; the derivation replaces it with a mode-specific
//! suffix, and leaves a path without such an extension unchanged.

use crate::digits::dec_digits;
use crate::Mode;
use vstd::prelude::*;

verus! {

/// An ASCII word byte: a digit, a letter, or an underscore.
pub open spec fn is_word_byte(b: u8) -> bool {
    (48 <= b <= 57) || (65 <= b <= 90) || (97 <= b <= 122) || b == 95
}

pub const DOT: u8 = 46;

pub const NEWLINE: u8 = 10;

/// `k` marks the extension of `s`: a dot with a nonempty stem before it and a
/// nonempty all-word tail after it, the stem free of newlines.
pub open spec fn ext_ok(s: Seq<u8>, k: int) -> bool {
    &&& 1 <= k
    &&& k + 1 < s.len()
    &&& s[k] == DOT
    &&& forall|j: int| k < j < s.len() ==> is_word_byte(#[trigger] s[j])
    &&& forall|j: int| 0 <= j < k ==> #[trigger] s[j] != NEWLINE
}

/// Whether `s` ends in a replaceable extension.
pub open spec fn has_ext(s: Seq<u8>) -> bool {
    exists|k: int| ext_ok(s, k)
}

/// The position of the extension dot of `s`.
pub open spec fn ext_at(s: Seq<u8>) -> int {
    choose|k: int| ext_ok(s, k)
}

/// At most one position can mark the extension: the tail of the earlier of
/// two candidate dots would contain the later dot, which is not a word byte.
pub proof fn lemma_ext_unique(s: Seq<u8>, k1: int, k2: int)
    requires
        ext_ok(s, k1),
        ext_ok(s, k2),
    ensures
        k1 == k2,
{
    if k1 < k2 {
        assert(is_word_byte(s[k2]));
    }
    if k2 < k1 {
        assert(is_word_byte(s[k1]));
    }
}

/// The suffix that replaces the extension: `.w.ivf` for a watermark run,
/// `.r.ivf` for a recognition run.
pub open spec fn suffix_bytes(mode: Mode) -> Seq<u8> {
    match mode {
        Mode::Watermark => seq![46u8, 119u8, 46u8, 105u8, 118u8, 102u8],
        Mode::Recognize => seq![46u8, 114u8, 46u8, 105u8, 118u8, 102u8],
    }
}

/// The derived output path: the stem plus the mode suffix when the input has
/// an extension, the input unchanged otherwise.
pub open spec fn output_path_spec(s: Seq<u8>, mode: Mode) -> Seq<u8> {
    if has_ext(s) {
        s.subrange(0, ext_at(s)) + suffix_bytes(mode)
    } else {
        s
    }
}

/// The derivation is a function of the input path and the mode alone: two
/// results for the same input and mode are the same path.
pub proof fn lemma_naming_deterministic(s: Seq<u8>, mode: Mode, r1: Seq<u8>, r2: Seq<u8>)
    requires
        r1 == output_path_spec(s, mode),
        r2 == output_path_spec(s, mode),
    ensures
        r1 == r2,
{
}

/// Appends the mode suffix to `out`.
fn push_suffix(out: &mut Vec<u8>, mode: Mode)
    ensures
        final(out)@ == old(out)@ + suffix_bytes(mode),
{
    out.push(46);
    match mode {
        Mode::Watermark => out.push(119),
        Mode::Recognize => out.push(114),
    }
    out.push(46);
    out.push(105);
    out.push(118);
    out.push(102);
    proof {
        assert(out@ =~= old(out)@ + suffix_bytes(mode));
    }
}

/// Derives the output path for `input` in `mode`: the extension is replaced
/// by the mode suffix; a path without an extension comes back unchanged.
pub fn derive_output_path(input: &[u8], mode: Mode) -> (r: Vec<u8>)
    ensures
        r@ == output_path_spec(input@, mode),
{
    let n = input.len();
    let ghost s = input@;

    // Scan backward over the would-be extension: all word bytes up to a dot.
    let mut j: usize = n;
    let mut dot: Option<usize> = None;
    loop
        invariant_except_break
            s == input@,
            0 <= j <= n == s.len(),
            dot is None,
            forall|t: int| j <= t < n ==> is_word_byte(#[trigger] s[t]),
        ensures
            0 <= j <= n == s.len(),
            forall|t: int| j < t < n ==> is_word_byte(#[trigger] s[t]),
            match dot {
                Some(k) => k == j && k < n && s[k as int] == DOT,
                None => (j == 0 && forall|t: int|
                    0 <= t < n ==> is_word_byte(#[trigger] s[t])) || (j < n && s[j as int] != DOT
                    && !is_word_byte(s[j as int])),
            },
        decreases j,
    {
        if j == 0 {
            break ;
        }
        j = j - 1;
        let b = input[j];
        if b == DOT {
            dot = Some(j);
            break ;
        }
        if !(48 <= b && b <= 57 || 65 <= b && b <= 90 || 97 <= b && b <= 122 || b == 95) {
            break ;
        }
    }

    match dot {
        Some(k) if 1 <= k && k < n - 1 => {
            // The tail is nonempty and all word bytes; the stem must be free
            // of newlines for the extension to count.
            let mut i: usize = 0;
            let mut clean = true;
            while i < k
                invariant
                    s == input@,
                    0 <= i <= k < n == s.len(),
                    clean ==> forall|t: int| 0 <= t < i ==> #[trigger] s[t] != NEWLINE,
                    !clean ==> exists|t: int| 0 <= t < k && #[trigger] s[t] == NEWLINE,
                decreases k - i,
            {
                if input[i] == NEWLINE {
                    clean = false;
                    proof {
                        assert(s[i as int] == NEWLINE);
                    }
                }
                i = i + 1;
            }
            if clean {
                proof {
                    assert(ext_ok(s, k as int));
                    lemma_ext_unique(s, ext_at(s), k as int);
                }
                let mut out: Vec<u8> = Vec::new();
                let mut t: usize = 0;
                while t < k
                    invariant
                        s == input@,
                        0 <= t <= k < n == s.len(),
                        out@ == s.subrange(0, t as int),
                    decreases k - t,
                {
                    out.push(input[t]);
                    proof {
                        assert(out@ =~= s.subrange(0, t as int + 1));
                    }
                    t = t + 1;
                }
                push_suffix(&mut out, mode);
                return out;
            }
            proof {
                let t = choose|t: int| 0 <= t < k && s[t] == NEWLINE;
                assert forall|c: int| !ext_ok(s, c) by {
                    if ext_ok(s, c) {
                        if c < k {
                            assert(is_word_byte(s[k as int]));
                        } else if c > k {
                            assert(is_word_byte(s[c]));
                        } else {
                            assert(s[t] != NEWLINE);
                        }
                    }
                }
            }
            vstd::slice::slice_to_vec(input)
        },
        Some(k) => {
            // A dot with an empty stem or an empty tail marks no extension.
            proof {
                assert forall|c: int| !ext_ok(s, c) by {
                    if ext_ok(s, c) {
                        if c < k {
                            assert(is_word_byte(s[k as int]));
                        } else if c > k {
                            assert(is_word_byte(s[c]));
                        }
                    }
                }
            }
            vstd::slice::slice_to_vec(input)
        },
        None => {
            // Either the path is all word bytes (no dot at all), or the scan
            // hit a byte that is neither a dot nor a word byte at position j,
            // with only word bytes after it.
            proof {
                assert forall|c: int| !ext_ok(s, c) by {
                    if ext_ok(s, c) {
                        if c > j {
                            assert(is_word_byte(s[c]));
                        } else if c == j {
                            assert(s[c] == DOT);
                        } else {
                            assert(is_word_byte(s[j as int]));
                        }
                    }
                }
            }
            vstd::slice::slice_to_vec(input)
        },
    }
}

/// `k` can open the identity suffix of `s`: a dot with at least one byte
/// after it and no newline from there to the end.
pub open spec fn rn_ok(s: Seq<u8>, k: int) -> bool {
    &&& 0 <= k
    &&& k + 1 < s.len()
    &&& s[k] == DOT
    &&& forall|j: int| k < j < s.len() ==> #[trigger] s[j] != NEWLINE
}

/// The first position from `i` on that can open the identity suffix, or the
/// length of `s` when there is none.
pub open spec fn rn_from(s: Seq<u8>, i: int) -> int
    recommends
        0 <= i <= s.len(),
    decreases s.len() - i when 0 <= i <= s.len()
{
    if i >= s.len() {
        s.len() as int
    } else if rn_ok(s, i) {
        i
    } else {
        rn_from(s, i + 1)
    }
}

/// Skipping positions that cannot open the suffix does not move the result.
proof fn lemma_rn_from_skip(s: Seq<u8>, i: int, m: int)
    requires
        0 <= i <= m <= s.len(),
        forall|k: int| i <= k < m ==> !rn_ok(s, k),
    ensures
        rn_from(s, i) == rn_from(s, m),
    decreases m - i,
{
    if i < m {
        lemma_rn_from_skip(s, i + 1, m);
    }
}

/// The `.ivf` suffix placed after the embedded identity.
pub open spec fn ivf_bytes() -> Seq<u8> {
    seq![46u8, 105u8, 118u8, 102u8]
}

/// The renamed path: everything from the first qualifying dot on is replaced
/// by a dot, the identity in decimal, and `.ivf`; a path with no qualifying
/// dot comes back unchanged.
pub open spec fn rename_spec(s: Seq<u8>, id: nat) -> Seq<u8> {
    let k = rn_from(s, 0);
    if k < s.len() {
        s.subrange(0, k) + seq![46u8] + dec_digits(id) + ivf_bytes()
    } else {
        s
    }
}

/// Rewrites `path` so that its name embeds the recovered identity `id`: the
/// first dot whose tail holds no newline and everything after it become
/// `.<id>.ivf`.
pub fn rename_with_id(path: &[u8], id: u64) -> (r: Vec<u8>)
    ensures
        r@ == rename_spec(path@, id as nat),
{
    let n = path.len();
    let ghost s = path@;

    let mut j: usize = n;
    let mut best: Option<usize> = None;
    loop
        invariant_except_break
            s == path@,
            0 <= j <= n == s.len(),
            forall|t: int| j <= t < n ==> #[trigger] s[t] != NEWLINE,
            rn_from(s, j as int) == (match best {
                Some(k) => k as int,
                None => s.len() as int,
            }),
            match best {
                Some(k) => j <= k < n,
                None => true,
            },
        ensures
            rn_from(s, 0) == (match best {
                Some(k) => k as int,
                None => s.len() as int,
            }),
            match best {
                Some(k) => 0 <= k < n,
                None => true,
            },
        decreases j,
    {
        if j == 0 {
            break ;
        }
        j = j - 1;
        let b = path[j];
        if b == NEWLINE {
            // Nothing earlier qualifies: every earlier dot has this newline
            // in its tail, and this byte itself is not a dot.
            proof {
                assert forall|k: int| 0 <= k < j + 1 implies !rn_ok(s, k) by {
                    if k < j {
                        assert(s[j as int] == NEWLINE);
                    }
                }
                lemma_rn_from_skip(s, 0, j as int + 1);
            }
            break ;
        } else if b == DOT && j + 1 < n {
            proof {
                assert(rn_ok(s, j as int));
            }
            best = Some(j);
        } else {
            proof {
                assert(!rn_ok(s, j as int));
            }
        }
    }

    match best {
        Some(k) => {
            let mut out: Vec<u8> = Vec::new();
            let mut t: usize = 0;
            while t < k
                invariant
                    s == path@,
                    0 <= t <= k < n == s.len(),
                    out@ == s.subrange(0, t as int),
                decreases k - t,
            {
                out.push(path[t]);
                proof {
                    assert(out@ =~= s.subrange(0, t as int + 1));
                }
                t = t + 1;
            }
            out.push(46);
            let mut digits = crate::digits::u64_to_dec(id);
            out.append(&mut digits);
            out.push(46);
            out.push(105);
            out.push(118);
            out.push(102);
            proof {
                assert(out@ =~= rename_spec(s, id as nat));
            }
            out
        },
        None => {
            vstd::slice::slice_to_vec(path)
        },
    }
}

} // verus!
