use webrtcperf_vmaf_utils::timing::pts_from_ms;
use webrtcperf_vmaf_utils::timing::rescale_pts;
use webrtcperf_vmaf_utils::timing::TimeBase;
use webrtcperf_vmaf_utils::transcoder::FrameDirective;
use webrtcperf_vmaf_utils::transcoder::Transcoder;
use webrtcperf_vmaf_utils::Mode;

fn recognizer(tb: TimeBase) -> Transcoder {
    Transcoder::new(0, tb, Mode::Recognize, None, false, 0)
}

#[test]
fn unrecognized_frame_is_dropped_and_counted_once() {
    let tb = TimeBase::new(1, 1000);
    let mut t = recognizer(tb);
    t.note_frame();
    let d = t.apply_transform(Some(b"garbage"));
    assert_eq!(d, FrameDirective::Discard);
    assert_eq!(t.failed_frames(), 1);
    t.note_frame();
    let d = t.apply_transform(Some(b"more garbage"));
    assert_eq!(d, FrameDirective::Discard);
    assert_eq!(t.failed_frames(), 2);
    assert_eq!(t.recognized_id(), None);
}

#[test]
fn recognized_frame_is_forwarded_with_rewritten_pts() {
    // With a millisecond time base the rewritten timestamp is the reading.
    let tb = TimeBase::new(1, 1000);
    let mut t = recognizer(tb);
    t.note_frame();
    let d = t.apply_transform(Some(b"7-1234"));
    assert_eq!(
        d,
        FrameDirective::Forward {
            pts_override: Some(1234)
        }
    );
    assert_eq!(t.failed_frames(), 0);
    assert_eq!(t.recognized_id(), Some(7));
}

#[test]
fn identity_is_first_seen_wins() {
    let tb = TimeBase::new(1, 1000);
    let mut t = recognizer(tb);
    t.note_frame();
    t.apply_transform(Some(b"7-100"));
    t.note_frame();
    t.apply_transform(Some(b"9-200"));
    t.note_frame();
    t.apply_transform(Some(b"junk"));
    assert_eq!(t.recognized_id(), Some(7));
    assert_eq!(t.failed_frames(), 1);
}

#[test]
fn watermark_frames_are_always_forwarded_untouched() {
    let tb = TimeBase::new(1, 90000);
    let mut t = Transcoder::new(0, tb, Mode::Watermark, Some(42), false, 0);
    t.note_frame();
    let d = t.apply_transform(None);
    assert_eq!(d, FrameDirective::Forward { pts_override: None });
    assert_eq!(t.failed_frames(), 0);
}

#[test]
fn progress_log_needs_hundred_frames_and_one_second() {
    let tb = TimeBase::new(1, 1000);
    let mut t = Transcoder::new(0, tb, Mode::Watermark, None, true, 0);
    for _ in 0..99 {
        t.note_frame();
    }
    assert!(!t.log_progress(5000)); // only 99 frames
    t.note_frame();
    assert!(!t.log_progress(999)); // only 0.999 s
    assert!(t.log_progress(1000)); // 100 frames and 1 s
    t.note_frame();
    assert!(!t.log_progress(900000)); // counter was reset by the report
}

#[test]
fn disabled_logging_never_reports() {
    let tb = TimeBase::new(1, 1000);
    let mut t = Transcoder::new(0, tb, Mode::Watermark, None, false, 0);
    for _ in 0..1000 {
        t.note_frame();
    }
    assert!(!t.log_progress(1000000));
}

#[test]
fn encoded_packets_are_stamped_and_rescaled() {
    let tb_in = TimeBase::new(1, 1000);
    let tb_out = TimeBase::new(1, 90000);
    let t = Transcoder::new(3, tb_in, Mode::Watermark, None, false, 0);
    let stamp = t.stamp_encoded(100, tb_out);
    assert_eq!(stamp.stream_index, 3);
    assert_eq!(stamp.pts, 9000);
}

#[test]
fn flush_protocol_marks_both_ends() {
    let tb = TimeBase::new(1, 1000);
    let mut t = recognizer(tb);
    t.send_eof_to_decoder();
    t.send_eof_to_encoder();
    assert!(t.decoder_finished);
    assert!(t.encoder_finished);
}

#[test]
fn pts_from_ms_truncates_and_converts() {
    let ms_tb = TimeBase::new(1, 1000);
    assert_eq!(pts_from_ms(1234, ms_tb), 1234);
    let sec_tb = TimeBase::new(1, 1);
    assert_eq!(pts_from_ms(999, sec_tb), 0);
    assert_eq!(pts_from_ms(2500, sec_tb), 2);
    let tv_tb = TimeBase::new(1, 90000);
    assert_eq!(pts_from_ms(1000, tv_tb), 90000);
}

#[test]
fn rescale_rounds_to_nearest_ties_away_from_zero() {
    let half = TimeBase::new(1, 2);
    let third = TimeBase::new(1, 3);
    // 1 * (1*3) / (2*1) = 1.5 -> 2, and away from zero for negatives.
    assert_eq!(rescale_pts(1, half, third), 2);
    assert_eq!(rescale_pts(-1, half, third), -2);
    assert_eq!(rescale_pts(0, half, third), 0);
    // 1 * (1*90000) / (1000*1) = 90.
    assert_eq!(
        rescale_pts(1, TimeBase::new(1, 1000), TimeBase::new(1, 90000)),
        90
    );
}
