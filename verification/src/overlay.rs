//! The overlay variant of the frame transform: the geometry of the opaque
//! band burned across the top of each frame and the text rendered into it.
//! The band is where the recognition variant later crops and reads, so the
//! text grammar here and the parser in `recognize` are two sides of the same
//! contract.

use crate::digits::dec_digits;
use crate::digits::is_digit;
use crate::digits::lemma_dec_digits_are_digits;
use crate::digits::lemma_dec_digits_len;
use crate::digits::lemma_dec_digits_len_pos;
use crate::digits::lemma_dec_val_of_digits;
use crate::digits::pow10;
use crate::digits::u64_to_dec;
use crate::recognize::first_match;
use crate::recognize::id_len_at;
use crate::recognize::id_val_at;
use crate::recognize::lemma_run_exact;
use crate::recognize::match_arm;
use crate::recognize::match_at;
use crate::recognize::ms_len_at;
use crate::recognize::ms_val_at;
use crate::recognize::rec_spec;
use crate::recognize::RecognitionResult;
use crate::recognize::HYPHEN;
use vstd::prelude::*;

verus! {

/// The height of the opaque band across the top of a frame of height `h`:
/// one fifteenth of the frame, rounded to the nearest line.  The recognition
/// crop uses the same height, so it reads exactly the burned band.
pub open spec fn band_height_spec(h: nat) -> nat {
    (2 * h + 15) / 30
}

pub fn band_height(h: u32) -> (r: u32)
    ensures
        r as nat == band_height_spec(h as nat),
{
    ((2 * (h as u64) + 15) / 30) as u32
}

/// The size of the overlay font: one eighteenth of the frame height,
/// rounded to the nearest point.
pub open spec fn font_size_spec(h: nat) -> nat {
    (2 * h + 18) / 36
}

pub fn font_size(h: u32) -> (r: u32)
    ensures
        r as nat == font_size_spec(h as nat),
{
    ((2 * (h as u64) + 18) / 36) as u32
}

/// The text burned into the band: the watermark id, a hyphen, and the
/// rendering clock's elapsed milliseconds at the moment the frame is drawn.
pub open spec fn overlay_text_spec(id: nat, ms: nat) -> Seq<u8> {
    dec_digits(id) + seq![HYPHEN] + dec_digits(ms)
}

/// Renders the burned-in text for watermark id `id` at `ms` elapsed
/// milliseconds.
pub fn overlay_text(id: u32, ms: u64) -> (r: Vec<u8>)
    ensures
        r@ == overlay_text_spec(id as nat, ms as nat),
{
    let mut r = u64_to_dec(id as u64);
    r.push(HYPHEN);
    let mut t = u64_to_dec(ms);
    r.append(&mut t);
    proof {
        assert(r@ =~= overlay_text_spec(id as nat, ms as nat));
    }
    r
}

/// Overlay round trip: text burned for an id of at most three digits and a
/// millisecond reading of at most thirteen digits, handed unchanged to the
/// recognition parser, yields exactly that id and that reading.
pub proof fn lemma_overlay_roundtrip(id: nat, ms: nat)
    requires
        id < 1000,
        ms < 10000000000000,
    ensures
        rec_spec(overlay_text_spec(id, ms)) == (RecognitionResult::Recognized {
            id: id as u32,
            time_ms: ms as u64,
        }),
{
    let s = overlay_text_spec(id, ms);
    let di = dec_digits(id);
    let dm = dec_digits(ms);
    let a = di.len() as int;
    let b = dm.len() as int;
    lemma_dec_digits_are_digits(id);
    lemma_dec_digits_are_digits(ms);
    lemma_dec_digits_len_pos(id);
    lemma_dec_digits_len_pos(ms);
    reveal_with_fuel(pow10, 14);
    lemma_dec_digits_len(id, 3);
    lemma_dec_digits_len(ms, 13);
    assert(s.len() == a + 1 + b);
    assert forall|j: int| 0 <= j < a implies is_digit(s[j]) by {
        assert(s[j] == di[j]);
    }
    assert(s[a] == HYPHEN);
    assert forall|j: int| a + 1 <= j < s.len() implies is_digit(s[j]) by {
        assert(s[j] == dm[j - a - 1]);
    }
    lemma_run_exact(s, 0, a);
    lemma_run_exact(s, a + 1, b);
    assert(match_arm(s, 0, a)) by {
        assert(is_digit(s[a + 1]));
    }
    assert(match_at(s, 0));
    assert(first_match(s, 0) == 0);
    assert(id_len_at(s, 0) == a);
    assert(s.subrange(0, a) =~= di);
    lemma_dec_val_of_digits(id);
    assert(id_val_at(s, 0) == id);
    assert(ms_len_at(s, 0) == b);
    assert(s.subrange(a + 1, a + 1 + b) =~= dm);
    lemma_dec_val_of_digits(ms);
    assert(ms_val_at(s, 0) == ms);
}

} // verus!
