use webrtcperf_vmaf_utils::mapping::MediaKind;
use webrtcperf_vmaf_utils::pipeline::plan_output;
use webrtcperf_vmaf_utils::pipeline::run_pipeline;
use webrtcperf_vmaf_utils::pipeline::FrameEvent;
use webrtcperf_vmaf_utils::pipeline::PipelineError;
use webrtcperf_vmaf_utils::pipeline::RunConfig;
use webrtcperf_vmaf_utils::pipeline::RunEvents;
use webrtcperf_vmaf_utils::timing::TimeBase;
use webrtcperf_vmaf_utils::Mode;

fn scanned(text: &str) -> FrameEvent {
    FrameEvent::Scanned(text.as_bytes().to_vec())
}

fn watermark_config(path: &str, id: u32) -> RunConfig {
    RunConfig {
        input_path: path.as_bytes().to_vec(),
        mode: Mode::Watermark,
        watermark_id: Some(id),
        refuse_existing: false,
        best_stream: Some(0),
    }
}

fn recognize_config(path: &str) -> RunConfig {
    RunConfig {
        input_path: path.as_bytes().to_vec(),
        mode: Mode::Recognize,
        watermark_id: None,
        refuse_existing: false,
        best_stream: None,
    }
}

fn one_video_events(npackets: usize, frames_per_packet: Vec<Vec<FrameEvent>>) -> RunEvents {
    RunEvents {
        kinds: vec![MediaKind::Video],
        time_bases: vec![TimeBase::new(1, 1000)],
        output_time_bases: vec![TimeBase::new(1, 90000)],
        output_exists: false,
        packets: vec![0; npackets],
        packet_frames: frames_per_packet,
        flush_frames: vec![Vec::new()],
        stop_after: None,
        rename_ok: true,
    }
}

#[test]
fn watermark_run_carries_one_stream_and_finalizes() {
    let cfg = watermark_config("clip.mp4", 42);
    let events = one_video_events(
        3,
        vec![
            vec![FrameEvent::Overlaid],
            vec![FrameEvent::Overlaid],
            vec![FrameEvent::Overlaid],
        ],
    );
    let out = run_pipeline(&cfg, &events);
    assert_eq!(out.result, Ok(()));
    assert_eq!(out.output_path, b"clip.w.ivf".to_vec());
    assert_eq!(out.consumed_packets, 3);
    assert!(out.header_written);
    assert!(out.trailer_written);
    assert_eq!(out.transcoders.len(), 1);
    assert_eq!(out.transcoders[0].frame_count, 3);
    assert_eq!(out.transcoders[0].failed_frames, 0);
    assert_eq!(out.transcoders[0].watermark_id, 42);
    assert!(out.transcoders[0].decoder_finished);
    assert!(out.transcoders[0].encoder_finished);
    assert_eq!(out.rename_to, None);
    assert!(!out.rename_failed);
}

#[test]
fn stop_signal_still_flushes_and_writes_the_trailer() {
    let cfg = watermark_config("clip.mp4", 1);
    let mut events = one_video_events(
        3,
        vec![
            vec![FrameEvent::Overlaid],
            vec![FrameEvent::Overlaid],
            vec![FrameEvent::Overlaid],
        ],
    );
    events.stop_after = Some(0);
    let out = run_pipeline(&cfg, &events);
    assert_eq!(out.result, Ok(()));
    // The packet after which the stop arrived is still consumed; no more.
    assert_eq!(out.consumed_packets, 1);
    assert_eq!(out.transcoders[0].frame_count, 1);
    // The full flush sequence and the trailer still happen.
    assert!(out.transcoders[0].decoder_finished);
    assert!(out.transcoders[0].encoder_finished);
    assert!(out.trailer_written);
}

#[test]
fn recognize_run_renames_to_recovered_id() {
    let cfg = recognize_config("clip.r_candidate.mp4");
    let mut events = one_video_events(
        2,
        vec![vec![scanned("42-100")], vec![scanned("squiggle")]],
    );
    events.flush_frames = vec![vec![scanned("42-200")]];
    let out = run_pipeline(&cfg, &events);
    assert_eq!(out.result, Ok(()));
    assert_eq!(out.output_path, b"clip.r_candidate.r.ivf".to_vec());
    // Only the unreadable frame counts as failed; the rest were recovered.
    assert_eq!(out.transcoders[0].frame_count, 3);
    assert_eq!(out.transcoders[0].failed_frames, 1);
    assert_eq!(out.transcoders[0].recognized, Some(42));
    assert_eq!(out.rename_to, Some(b"clip.42.ivf".to_vec()));
    assert!(!out.rename_failed);
}

#[test]
fn recognized_identity_is_first_seen_even_across_packets() {
    let cfg = recognize_config("clip.mp4");
    let events = one_video_events(2, vec![vec![scanned("7-100")], vec![scanned("9-200")]]);
    let out = run_pipeline(&cfg, &events);
    assert_eq!(out.transcoders[0].recognized, Some(7));
    assert_eq!(out.rename_to, Some(b"clip.7.ivf".to_vec()));
}

#[test]
fn recognize_run_without_identity_keeps_the_name() {
    let cfg = recognize_config("clip.mp4");
    let events = one_video_events(1, vec![vec![scanned("static")]]);
    let out = run_pipeline(&cfg, &events);
    assert_eq!(out.transcoders[0].failed_frames, 1);
    assert_eq!(out.transcoders[0].recognized, None);
    assert_eq!(out.rename_to, None);
}

#[test]
fn failed_rename_is_reported_not_fatal() {
    let cfg = recognize_config("clip.mp4");
    let mut events = one_video_events(1, vec![vec![scanned("5-1")]]);
    events.rename_ok = false;
    let out = run_pipeline(&cfg, &events);
    assert_eq!(out.result, Ok(()));
    assert_eq!(out.rename_to, Some(b"clip.5.ivf".to_vec()));
    assert!(out.rename_failed);
}

#[test]
fn non_video_streams_are_skipped() {
    let cfg = watermark_config("clip.mp4", 2);
    let events = RunEvents {
        kinds: vec![MediaKind::Audio, MediaKind::Video],
        time_bases: vec![TimeBase::new(1, 48000), TimeBase::new(1, 1000)],
        output_time_bases: vec![TimeBase::new(1, 90000)],
        output_exists: false,
        packets: vec![0, 1, 0],
        packet_frames: vec![Vec::new(), vec![FrameEvent::Overlaid], Vec::new()],
        flush_frames: vec![Vec::new()],
        stop_after: None,
        rename_ok: true,
    };
    let out = run_pipeline(&cfg, &events);
    assert_eq!(out.mapping.slots, vec![None, Some(0)]);
    assert_eq!(out.consumed_packets, 3);
    assert_eq!(out.transcoders.len(), 1);
    assert_eq!(out.transcoders[0].frame_count, 1);
}

#[test]
fn every_stream_is_flushed_even_with_buffered_frames() {
    let cfg = recognize_config("two.mp4");
    let events = RunEvents {
        kinds: vec![MediaKind::Video, MediaKind::Audio, MediaKind::Video],
        time_bases: vec![
            TimeBase::new(1, 1000),
            TimeBase::new(1, 48000),
            TimeBase::new(1, 90000),
        ],
        output_time_bases: vec![TimeBase::new(1, 90000), TimeBase::new(1, 90000)],
        output_exists: false,
        packets: vec![0, 2, 1],
        packet_frames: vec![vec![scanned("3-10")], vec![scanned("8-20")], Vec::new()],
        // Frames still buffered in the decoders surface during the flush.
        flush_frames: vec![vec![scanned("gunk")], vec![scanned("8-30")]],
        stop_after: None,
        rename_ok: true,
    };
    let out = run_pipeline(&cfg, &events);
    assert_eq!(out.transcoders.len(), 2);
    for t in &out.transcoders {
        assert!(t.decoder_finished);
        assert!(t.encoder_finished);
    }
    assert_eq!(out.transcoders[0].frame_count, 2);
    assert_eq!(out.transcoders[0].failed_frames, 1);
    assert_eq!(out.transcoders[0].recognized, Some(3));
    assert_eq!(out.transcoders[1].frame_count, 2);
    assert_eq!(out.transcoders[1].failed_frames, 0);
    assert_eq!(out.transcoders[1].recognized, Some(8));
    // Disposition reads the first transcoder's identity.
    assert_eq!(out.rename_to, Some(b"two.3.ivf".to_vec()));
}

#[test]
fn collision_policy_refuses_existing_output() {
    let mut cfg = watermark_config("clip.mp4", 1);
    cfg.refuse_existing = true;
    let mut events = one_video_events(1, vec![vec![FrameEvent::Overlaid]]);
    events.output_exists = true;
    let out = run_pipeline(&cfg, &events);
    assert_eq!(out.result, Err(PipelineError::OutputCollision));
    assert_eq!(out.consumed_packets, 0);
    assert!(!out.trailer_written);
}

#[test]
fn overwrite_policy_allows_existing_output() {
    let cfg = watermark_config("clip.mp4", 1);
    let mut events = one_video_events(1, vec![vec![FrameEvent::Overlaid]]);
    events.output_exists = true;
    let out = run_pipeline(&cfg, &events);
    assert_eq!(out.result, Ok(()));
    assert!(out.trailer_written);
}

#[test]
fn plan_output_applies_the_collision_policy() {
    assert_eq!(
        plan_output(b"clip.mp4", Mode::Watermark, true, true),
        Err(PipelineError::OutputCollision)
    );
    assert_eq!(
        plan_output(b"clip.mp4", Mode::Watermark, true, false),
        Ok(b"clip.w.ivf".to_vec())
    );
    assert_eq!(
        plan_output(b"clip.mp4", Mode::Recognize, false, true),
        Ok(b"clip.r.ivf".to_vec())
    );
}
