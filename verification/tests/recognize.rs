use webrtcperf_vmaf_utils::digits::u64_to_dec;
use webrtcperf_vmaf_utils::overlay::band_height;
use webrtcperf_vmaf_utils::overlay::font_size;
use webrtcperf_vmaf_utils::overlay::overlay_text;
use webrtcperf_vmaf_utils::recognize::parse_recognition;
use webrtcperf_vmaf_utils::recognize::RecognitionResult;

#[test]
fn parses_plain_reading() {
    assert_eq!(
        parse_recognition(b"7-1234"),
        RecognitionResult::Recognized { id: 7, time_ms: 1234 }
    );
}

#[test]
fn parses_reading_inside_noise() {
    assert_eq!(
        parse_recognition(b"xx 42-987 yy"),
        RecognitionResult::Recognized { id: 42, time_ms: 987 }
    );
}

#[test]
fn id_takes_last_three_digits_of_longer_run() {
    // Four digits before the hyphen: no match starts at the first digit, so
    // the leftmost match starts one later and captures the last three.
    assert_eq!(
        parse_recognition(b"1234-56"),
        RecognitionResult::Recognized { id: 234, time_ms: 56 }
    );
}

#[test]
fn milliseconds_cap_at_thirteen_digits() {
    assert_eq!(
        parse_recognition(b"5-12345678901234"),
        RecognitionResult::Recognized { id: 5, time_ms: 1234567890123 }
    );
}

#[test]
fn rejects_text_without_the_pattern() {
    assert_eq!(parse_recognition(b""), RecognitionResult::Unrecognized);
    assert_eq!(parse_recognition(b"abc"), RecognitionResult::Unrecognized);
    assert_eq!(parse_recognition(b"12-"), RecognitionResult::Unrecognized);
    assert_eq!(parse_recognition(b"-5"), RecognitionResult::Unrecognized);
    assert_eq!(parse_recognition(b"7 - 9"), RecognitionResult::Unrecognized);
}

#[test]
fn overlay_text_renders_id_and_milliseconds() {
    assert_eq!(overlay_text(7, 1234), b"7-1234".to_vec());
    assert_eq!(overlay_text(42, 0), b"42-0".to_vec());
}

#[test]
fn overlay_round_trip() {
    // A frame stamped with id 7 at 1234 ms, read back by a perfect
    // recognizer, yields exactly that reading.
    let burned = overlay_text(7, 1234);
    assert_eq!(
        parse_recognition(&burned),
        RecognitionResult::Recognized { id: 7, time_ms: 1234 }
    );
}

#[test]
fn overlay_round_trip_more_values() {
    for &(id, ms) in &[(0u32, 0u64), (1, 999), (999, 9999999999999), (42, 60000)] {
        let burned = overlay_text(id, ms);
        assert_eq!(
            parse_recognition(&burned),
            RecognitionResult::Recognized { id, time_ms: ms }
        );
    }
}

#[test]
fn digits_render_in_decimal() {
    assert_eq!(u64_to_dec(0), b"0".to_vec());
    assert_eq!(u64_to_dec(10200), b"10200".to_vec());
    assert_eq!(u64_to_dec(u64::MAX), b"18446744073709551615".to_vec());
}

#[test]
fn band_and_font_follow_frame_height() {
    // One fifteenth and one eighteenth of the height, rounded to nearest.
    assert_eq!(band_height(720), 48);
    assert_eq!(band_height(1080), 72);
    assert_eq!(band_height(8), 1);
    assert_eq!(font_size(720), 40);
    assert_eq!(font_size(1080), 60);
}
