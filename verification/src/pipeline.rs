//! The pipeline orchestrator: one complete run over an input container,
//! modelled as a function of what the collaborators hand back.  The
//! unverified shell opens the containers, demuxes packets, decodes frames,
//! runs the filter or the optical reader, and reports those outcomes as
//! plain values; every decision — which streams are carried, which packets
//! are routed where, what each frame becomes, when the loop stops, that
//! every stream is flushed and the trailer written, and how the output file
//! is disposed — is made and proved here.

use crate::mapping::video_count;
use crate::mapping::MediaKind;
use crate::mapping::StreamMapping;
use crate::naming::derive_output_path;
use crate::naming::output_path_spec;
use crate::mapping::lemma_video_position;
use crate::mapping::video_position;
use crate::naming::rename_spec;
use crate::naming::rename_with_id;
use crate::recognize::rec_spec;
use crate::recognize::RecognitionResult;
use crate::timing::TimeBase;
use crate::transcoder::Transcoder;
use crate::Mode;
use vstd::prelude::*;

verus! {

/// The failures of a run, by the stage that raises them.  All but
/// `RenameError` are fatal; `RenameError` is reported after the output has
/// already been produced.
#[derive(Clone, Copy, Debug, PartialEq, Eq, Structural)]
pub enum PipelineError {
    OutputCollision,
    OpenError,
    CodecError,
    FilterError,
    HeaderError,
    MuxError,
    TrailerError,
    RenameError,
}

/// What the decoder and the frame transform collaborators yielded for one
/// decoded frame: an overlaid frame (watermark mode), or the text the
/// optical reader extracted from the top band (recognition mode).
pub enum FrameEvent {
    Overlaid,
    Scanned(Vec<u8>),
}

/// Every frame event carries what the run mode calls for.
pub open spec fn frames_match_mode(frames: Seq<FrameEvent>, mode: Mode) -> bool {
    forall|j: int|
        0 <= j < frames.len() ==> (match mode {
            Mode::Watermark => #[trigger] frames[j] is Overlaid,
            Mode::Recognize => #[trigger] frames[j] is Scanned,
        })
}

/// The total frame count of the first `upto` drain batches.
pub open spec fn frames_total(v: Seq<Vec<FrameEvent>>, upto: int) -> nat
    recommends
        0 <= upto <= v.len(),
    decreases upto when upto >= 0
{
    if upto <= 0 {
        0
    } else {
        frames_total(v, upto - 1) + v[upto - 1]@.len()
    }
}

/// The batch-prefix frame total is monotone.
pub proof fn lemma_frames_total_mono(v: Seq<Vec<FrameEvent>>, u1: int, u2: int)
    requires
        0 <= u1 <= u2 <= v.len(),
    ensures
        frames_total(v, u1) <= frames_total(v, u2),
    decreases u2 - u1,
{
    if u1 < u2 {
        lemma_frames_total_mono(v, u1 + 1, u2);
    }
}

/// The exact effect of one decoded frame on the owning transcoder: the
/// frame is counted, then the transform decision of
/// `Transcoder::apply_transform` is taken on it.
pub open spec fn frame_step(t: Transcoder, fe: FrameEvent) -> Transcoder {
    let counted = Transcoder { frame_count: (t.frame_count + 1) as u64, ..t };
    match fe {
        FrameEvent::Overlaid => counted,
        FrameEvent::Scanned(text) => match rec_spec(text@) {
            RecognitionResult::Recognized { id, .. } => Transcoder {
                recognized: if counted.recognized is Some {
                    counted.recognized
                } else {
                    Some(id)
                },
                ..counted
            },
            RecognitionResult::Unrecognized => Transcoder {
                failed_frames: (counted.failed_frames + 1) as u64,
                ..counted
            },
        },
    }
}

/// The transcoder state after the first `upto` frames of a drain sequence.
pub open spec fn frames_fold(t: Transcoder, frames: Seq<FrameEvent>, upto: int) -> Transcoder
    recommends
        0 <= upto <= frames.len(),
    decreases upto when upto >= 0
{
    if upto <= 0 {
        t
    } else {
        frame_step(frames_fold(t, frames, upto - 1), frames[upto - 1])
    }
}

/// The transcoder state after a whole drain sequence.
pub open spec fn fold_frames(t: Transcoder, frames: Seq<FrameEvent>) -> Transcoder {
    frames_fold(t, frames, frames.len() as int)
}

/// The fold sees only the frames before `upto`.
proof fn lemma_fold_prefix(t: Transcoder, sa: Seq<FrameEvent>, sb: Seq<FrameEvent>, upto: int)
    requires
        0 <= upto <= sa.len(),
        upto <= sb.len(),
        forall|j: int| 0 <= j < upto ==> sa[j] == sb[j],
    ensures
        frames_fold(t, sa, upto) == frames_fold(t, sb, upto),
    decreases upto,
{
    if upto > 0 {
        lemma_fold_prefix(t, sa, sb, upto - 1);
    }
}

/// Folding a concatenation folds the parts in order.
pub proof fn lemma_fold_append(t: Transcoder, s1: Seq<FrameEvent>, s2: Seq<FrameEvent>)
    ensures
        fold_frames(t, s1 + s2) == fold_frames(fold_frames(t, s1), s2),
    decreases s2.len(),
{
    let n1 = s1.len() as int;
    let n2 = s2.len() as int;
    if n2 == 0 {
        assert(s1 + s2 =~= s1);
    } else {
        let s2p = s2.drop_last();
        lemma_fold_append(t, s1, s2p);
        lemma_fold_prefix(t, s1 + s2, s1 + s2p, n1 + n2 - 1);
        lemma_fold_prefix(fold_frames(t, s1), s2, s2p, n2 - 1);
        assert((s1 + s2)[n1 + n2 - 1] == s2[n2 - 1]);
        assert((s1 + s2p).len() == n1 + n2 - 1);
    }
}

/// The end-of-stream mark of the decoder passes through the fold: frame
/// processing neither reads nor writes it.
proof fn lemma_fold_decoder_flag(t: Transcoder, frames: Seq<FrameEvent>)
    ensures
        fold_frames((Transcoder { decoder_finished: true, ..t }), frames) == (Transcoder {
            decoder_finished: true,
            ..fold_frames(t, frames)
        }),
    decreases frames.len(),
{
    let n = frames.len() as int;
    if n > 0 {
        let fp = frames.drop_last();
        lemma_fold_decoder_flag(t, fp);
        lemma_fold_prefix((Transcoder { decoder_finished: true, ..t }), frames, fp, n - 1);
        lemma_fold_prefix(t, frames, fp, n - 1);
    }
}

/// The unreadable frames of a drain sequence: those whose scanned text the
/// burned-in grammar rejects.
pub open spec fn unrecognized_count(frames: Seq<FrameEvent>) -> nat
    decreases frames.len(),
{
    if frames.len() == 0 {
        0
    } else {
        unrecognized_count(frames.drop_last()) + (match frames.last() {
            FrameEvent::Overlaid => 0nat,
            FrameEvent::Scanned(text) => if rec_spec(text@) is Unrecognized {
                1nat
            } else {
                0nat
            },
        })
    }
}

/// Recognition failure policy over a whole stream: every frame is counted,
/// and the failure counter counts exactly the frames whose burned-in text
/// was unrecognizable.
pub proof fn lemma_fold_counts(t: Transcoder, frames: Seq<FrameEvent>)
    requires
        t.frame_count + frames.len() <= u64::MAX,
        t.failed_frames + frames.len() <= u64::MAX,
    ensures
        unrecognized_count(frames) <= frames.len(),
        fold_frames(t, frames).frame_count == t.frame_count + frames.len(),
        fold_frames(t, frames).failed_frames == t.failed_frames + unrecognized_count(frames),
    decreases frames.len(),
{
    if frames.len() > 0 {
        let fp = frames.drop_last();
        lemma_fold_counts(t, fp);
        lemma_fold_prefix(t, frames, fp, frames.len() - 1);
    }
}

/// The first identity the grammar recognizes in a drain sequence.
pub open spec fn first_recognized(frames: Seq<FrameEvent>) -> Option<u32>
    decreases frames.len(),
{
    if frames.len() == 0 {
        None
    } else {
        match frames.first() {
            FrameEvent::Overlaid => first_recognized(frames.drop_first()),
            FrameEvent::Scanned(text) => match rec_spec(text@) {
                RecognitionResult::Recognized { id, .. } => Some(id),
                RecognitionResult::Unrecognized => first_recognized(frames.drop_first()),
            },
        }
    }
}

/// First seen wins, over a whole stream: an identity already held survives
/// every later frame, and a stream that starts without one ends with the
/// first identity its frames yield.
pub proof fn lemma_fold_identity(t: Transcoder, frames: Seq<FrameEvent>)
    ensures
        fold_frames(t, frames).recognized == (if t.recognized is Some {
            t.recognized
        } else {
            first_recognized(frames)
        }),
    decreases frames.len(),
{
    if frames.len() > 0 {
        let f0 = frames.first();
        let rest = frames.drop_first();
        assert(frames =~= seq![f0] + rest);
        lemma_fold_append(t, seq![f0], rest);
        assert(seq![f0].len() == 1);
        assert(seq![f0][0] == f0);
        assert(frames_fold(t, seq![f0], 0) == t);
        assert(fold_frames(t, seq![f0]) == frame_step(t, f0));
        lemma_fold_identity(frame_step(t, f0), rest);
    }
}

/// How a run is set up.
pub struct RunConfig {
    /// The input container path, as UTF-8 bytes.
    pub input_path: Vec<u8>,
    /// The transform policy of the run.
    pub mode: Mode,
    /// The caller-supplied watermark identity, if any.
    pub watermark_id: Option<u32>,
    /// Whether a pre-existing output file rejects the run.
    pub refuse_existing: bool,
    /// The input index of the container's best video stream, used only to
    /// pick which stream reports progress.
    pub best_stream: Option<usize>,
}

/// What the collaborators handed back over one whole run.
pub struct RunEvents {
    /// The media kind of each input stream.
    pub kinds: Vec<MediaKind>,
    /// Each input stream's time base.
    pub time_bases: Vec<TimeBase>,
    /// Each output stream's time base, valid once the header is written.
    pub output_time_bases: Vec<TimeBase>,
    /// Whether the derived output path already exists.
    pub output_exists: bool,
    /// The demuxed packets, as input stream indices, in demux order.
    pub packets: Vec<usize>,
    /// The frames drained from the owning decoder after each packet was fed.
    pub packet_frames: Vec<Vec<FrameEvent>>,
    /// Per output ordinal, the frames drained after end of stream was
    /// signaled to the decoder.
    pub flush_frames: Vec<Vec<FrameEvent>>,
    /// The stop signal was observed after this packet, if at all.
    pub stop_after: Option<usize>,
    /// Whether the post-run rename of the output file succeeded.
    pub rename_ok: bool,
}

/// What a run produced and decided.
pub struct RunOutcome {
    /// Success, or the one modelled up-front failure: the output collision.
    pub result: Result<(), PipelineError>,
    /// The derived output path.
    pub output_path: Vec<u8>,
    /// The stream mapping the run used.
    pub mapping: StreamMapping,
    /// How many demuxed packets were consumed before the loop ended.
    pub consumed_packets: usize,
    /// The output header was finalized.
    pub header_written: bool,
    /// The output trailer was finalized.
    pub trailer_written: bool,
    /// The final state of every stream transcoder, by output ordinal.
    pub transcoders: Vec<Transcoder>,
    /// In recognition mode, the path the output is renamed to when an
    /// identity was recovered.
    pub rename_to: Option<Vec<u8>>,
    /// The rename was attempted and failed: reported, not fatal.
    pub rename_failed: bool,
}

/// How many packets the main loop consumes: all of them, or everything
/// through the packet after which the stop signal was observed.
pub open spec fn consumed_spec(n: nat, stop_after: Option<usize>) -> nat {
    match stop_after {
        None => n,
        Some(k) => {
            if k + 1 < n {
                (k + 1) as nat
            } else {
                n
            }
        },
    }
}

/// The events are shaped like a run of this configuration: lengths line
/// up, carried streams have usable time bases, frames match the mode, and
/// skipped streams never yield frames.
pub open spec fn events_wf(cfg: RunConfig, events: RunEvents) -> bool {
    let kinds = events.kinds@;
    let vids = video_count(kinds, kinds.len() as int);
    &&& events.time_bases@.len() == kinds.len()
    &&& forall|i: int| 0 <= i < kinds.len() && kinds[i] is Video ==> (#[trigger] events.time_bases@[i]).wf()
    &&& events.output_time_bases@.len() == vids
    &&& forall|o: int| 0 <= o < vids ==> (#[trigger] events.output_time_bases@[o]).wf()
    &&& forall|p: int| 0 <= p < events.packets@.len() ==> #[trigger] events.packets@[p] < kinds.len()
    &&& events.packet_frames@.len() == events.packets@.len()
    &&& forall|p: int|
        0 <= p < events.packets@.len() ==> (kinds[events.packets@[p] as int] is Video || (
        #[trigger] events.packet_frames@[p])@.len() == 0)
    &&& forall|p: int|
        0 <= p < events.packet_frames@.len() ==> frames_match_mode(
            (#[trigger] events.packet_frames@[p])@,
            cfg.mode,
        )
    &&& events.flush_frames@.len() == vids
    &&& forall|o: int|
        0 <= o < vids ==> frames_match_mode((#[trigger] events.flush_frames@[o])@, cfg.mode)
    &&& frames_total(events.packet_frames@, events.packet_frames@.len() as int) + frames_total(
        events.flush_frames@,
        events.flush_frames@.len() as int,
    ) < u64::MAX
    &&& match cfg.watermark_id {
        Some(id) => id <= 999,
        None => true,
    }
}

/// The state a carried stream's transcoder starts the run with.
pub open spec fn initial_transcoder(cfg: RunConfig, events: RunEvents, o: int) -> Transcoder {
    Transcoder {
        ost_index: o as usize,
        input_time_base: events.time_bases@[video_position(events.kinds@, o)],
        mode: cfg.mode,
        watermark_id: (match cfg.watermark_id {
            Some(id) => id,
            None => 1u32,
        }),
        logging_enabled: (match cfg.best_stream {
            Some(b) => b as int == video_position(events.kinds@, o),
            None => false,
        }),
        frame_count: 0u64,
        failed_frames: 0u64,
        last_log_frame_count: 0u64,
        last_log_time_ms: 0u64,
        recognized: None::<u32>,
        decoder_finished: false,
        encoder_finished: false,
    }
}

/// The frames that belong to output ordinal `o` among the first `upto`
/// demuxed packets, in decode order.
pub open spec fn stream_seq(events: RunEvents, o: int, upto: int) -> Seq<FrameEvent>
    recommends
        0 <= upto <= events.packets@.len(),
        events.packet_frames@.len() == events.packets@.len(),
    decreases upto when upto >= 0
{
    if upto <= 0 {
        Seq::empty()
    } else {
        let prev = stream_seq(events, o, upto - 1);
        let ist = events.packets@[upto - 1] as int;
        if 0 <= ist < events.kinds@.len() && events.kinds@[ist] is Video && video_count(
            events.kinds@,
            ist,
        ) == o {
            prev + events.packet_frames@[upto - 1]@
        } else {
            prev
        }
    }
}

/// Derives the output path and applies the pre-existing-file policy: when
/// the policy refuses overwrites and the derived path already exists, the
/// run is rejected with `OutputCollision` before anything is opened.
pub fn plan_output(input_path: &[u8], mode: Mode, refuse_existing: bool, output_exists: bool) -> (r:
    Result<Vec<u8>, PipelineError>)
    ensures
        refuse_existing && output_exists ==> r == Err::<Vec<u8>, PipelineError>(
            PipelineError::OutputCollision,
        ),
        !(refuse_existing && output_exists) ==> r is Ok && r.unwrap()@ == output_path_spec(
            input_path@,
            mode,
        ),
{
    if refuse_existing && output_exists {
        Err(PipelineError::OutputCollision)
    } else {
        Ok(derive_output_path(input_path, mode))
    }
}

/// A mutable borrow of one transcoder of the set.
fn t_at<'a>(v: &'a mut Vec<Transcoder>, i: usize) -> (r: &'a mut Transcoder)
    requires
        i < old(v)@.len(),
    ensures
        *r == old(v)@[i as int],
        final(v)@ == old(v)@.update(i as int, *final(r)),
{
    &mut v[i]
}

/// Feeds one drain batch of decoded frames through transcoder `o`: each
/// frame is counted and handed to the frame transform decision.
fn process_frames(transcoders: &mut Vec<Transcoder>, o: usize, frames: &Vec<FrameEvent>, mode: Mode)
    requires
        o < old(transcoders)@.len(),
        old(transcoders)@[o as int].wf(),
        !old(transcoders)@[o as int].encoder_finished,
        old(transcoders)@[o as int].mode == mode,
        frames_match_mode(frames@, mode),
        old(transcoders)@[o as int].failed_frames <= old(transcoders)@[o as int].frame_count,
        old(transcoders)@[o as int].frame_count + frames@.len() <= u64::MAX,
    ensures
        final(transcoders)@.len() == old(transcoders)@.len(),
        forall|t: int|
            0 <= t < old(transcoders)@.len() && t != o ==> final(transcoders)@[t] == old(
                transcoders,
            )@[t],
        final(transcoders)@[o as int].wf(),
        final(transcoders)@[o as int].frame_count == old(transcoders)@[o as int].frame_count
            + frames@.len(),
        final(transcoders)@[o as int].failed_frames <= final(transcoders)@[o as int].frame_count,
        final(transcoders)@[o as int].ost_index == old(transcoders)@[o as int].ost_index,
        final(transcoders)@[o as int].mode == old(transcoders)@[o as int].mode,
        final(transcoders)@[o as int].input_time_base == old(transcoders)@[o as int].input_time_base,
        final(transcoders)@[o as int].watermark_id == old(transcoders)@[o as int].watermark_id,
        final(transcoders)@[o as int].logging_enabled == old(transcoders)@[o as int].logging_enabled,
        final(transcoders)@[o as int].decoder_finished == old(transcoders)@[o as int].decoder_finished,
        final(transcoders)@[o as int].encoder_finished == old(transcoders)@[o as int].encoder_finished,
        old(transcoders)@[o as int].recognized is Some ==> final(transcoders)@[o as int].recognized
            == old(transcoders)@[o as int].recognized,
        final(transcoders)@[o as int] == fold_frames(old(transcoders)@[o as int], frames@),
{
    let m = frames.len();
    let mut f: usize = 0;
    while f < m
        invariant
            0 <= f <= m == frames@.len(),
            o < transcoders@.len() == old(transcoders)@.len(),
            frames_match_mode(frames@, mode),
            forall|t: int|
                0 <= t < old(transcoders)@.len() && t != o ==> transcoders@[t] == old(
                    transcoders,
                )@[t],
            transcoders@[o as int].wf(),
            !transcoders@[o as int].encoder_finished,
            transcoders@[o as int].mode == mode,
            transcoders@[o as int].failed_frames <= transcoders@[o as int].frame_count,
            transcoders@[o as int].frame_count == old(transcoders)@[o as int].frame_count + f,
            old(transcoders)@[o as int].frame_count + frames@.len() <= u64::MAX,
            transcoders@[o as int].ost_index == old(transcoders)@[o as int].ost_index,
            transcoders@[o as int].input_time_base == old(transcoders)@[o as int].input_time_base,
            transcoders@[o as int].watermark_id == old(transcoders)@[o as int].watermark_id,
            transcoders@[o as int].logging_enabled == old(transcoders)@[o as int].logging_enabled,
            transcoders@[o as int].decoder_finished == old(transcoders)@[o as int].decoder_finished,
            transcoders@[o as int].encoder_finished == old(transcoders)@[o as int].encoder_finished,
            old(transcoders)@[o as int].recognized is Some ==> transcoders@[o as int].recognized
                == old(transcoders)@[o as int].recognized,
            transcoders@[o as int] == frames_fold(old(transcoders)@[o as int], frames@, f as int),
        decreases m - f,
    {
        let t = t_at(transcoders, o);
        t.note_frame();
        match &frames[f] {
            FrameEvent::Overlaid => {
                let _ = t.apply_transform(None);
            },
            FrameEvent::Scanned(text) => {
                let _ = t.apply_transform(Some(text.as_slice()));
            },
        }
        f = f + 1;
    }
}

/// Runs one whole pipeline over the reported collaborator events: derives
/// and checks the output path, maps the streams, builds one transcoder per
/// carried stream, consumes packets until exhaustion or the stop signal,
/// always flushes every stream and finalizes the trailer, and decides the
/// output disposition.
pub fn run_pipeline(cfg: &RunConfig, events: &RunEvents) -> (out: RunOutcome)
    requires
        events_wf(*cfg, *events),
    ensures
        out.output_path@ == output_path_spec(cfg.input_path@, cfg.mode),
        cfg.refuse_existing && events.output_exists ==> out.result == Err::<(), PipelineError>(
            PipelineError::OutputCollision,
        ) && out.consumed_packets == 0 && !out.header_written && !out.trailer_written
            && out.transcoders@.len() == 0 && out.rename_to is None && !out.rename_failed,
        !(cfg.refuse_existing && events.output_exists) ==> {
            &&& out.result == Ok::<(), PipelineError>(())
            &&& out.mapping.matches_kinds(events.kinds@)
            &&& out.transcoders@.len() == video_count(events.kinds@, events.kinds@.len() as int)
            &&& out.consumed_packets == consumed_spec(events.packets@.len(), events.stop_after)
            &&& out.header_written
            &&& out.trailer_written
            &&& forall|o: int|
                0 <= o < out.transcoders@.len() ==> {
                    &&& (#[trigger] out.transcoders@[o]).wf()
                    &&& out.transcoders@[o].decoder_finished
                    &&& out.transcoders@[o].encoder_finished
                    &&& out.transcoders@[o].ost_index == o
                    &&& out.transcoders@[o].mode == cfg.mode
                    &&& out.transcoders@[o].failed_frames <= out.transcoders@[o].frame_count
                }
            &&& forall|o: int|
                0 <= o < out.transcoders@.len() ==> #[trigger] out.transcoders@[o] == (Transcoder {
                    decoder_finished: true,
                    encoder_finished: true,
                    ..fold_frames(
                        initial_transcoder(*cfg, *events, o),
                        stream_seq(*events, o, out.consumed_packets as int)
                            + events.flush_frames@[o]@,
                    )
                })
            &&& match out.rename_to {
                Some(p) => cfg.mode is Recognize && out.transcoders@.len() > 0
                    && out.transcoders@[0].recognized is Some && p@ == rename_spec(
                    cfg.input_path@,
                    out.transcoders@[0].recognized.unwrap() as nat,
                ),
                None => cfg.mode is Watermark || out.transcoders@.len() == 0
                    || out.transcoders@[0].recognized is None,
            }
            &&& out.rename_failed == (out.rename_to is Some && !events.rename_ok)
        },
{
    let output_path = derive_output_path(cfg.input_path.as_slice(), cfg.mode);
    if cfg.refuse_existing && events.output_exists {
        return RunOutcome {
            result: Err(PipelineError::OutputCollision),
            output_path,
            mapping: StreamMapping { slots: Vec::new() },
            consumed_packets: 0,
            header_written: false,
            trailer_written: false,
            transcoders: Vec::new(),
            rename_to: None,
            rename_failed: false,
        };
    }
    let ghost kinds = events.kinds@;
    let nstreams = events.kinds.len();

    // One transcoder per video stream, bound to the next dense ordinal.
    let mapping = StreamMapping::build(&events.kinds);
    let mut transcoders: Vec<Transcoder> = Vec::new();
    let mut i: usize = 0;
    while i < nstreams
        invariant
            0 <= i <= nstreams == kinds.len(),
            kinds == events.kinds@,
            events_wf(*cfg, *events),
            transcoders@.len() == video_count(kinds, i as int),
            forall|o: int|
                0 <= o < transcoders@.len() ==> {
                    &&& (#[trigger] transcoders@[o]).wf()
                    &&& transcoders@[o].ost_index == o
                    &&& transcoders@[o].mode == cfg.mode
                    &&& transcoders@[o].frame_count == 0
                    &&& transcoders@[o].failed_frames == 0
                    &&& transcoders@[o].recognized is None
                    &&& !transcoders@[o].decoder_finished
                    &&& !transcoders@[o].encoder_finished
                },
            forall|o: int|
                0 <= o < transcoders@.len() ==> #[trigger] transcoders@[o] == initial_transcoder(
                    *cfg,
                    *events,
                    o,
                ),
        decreases nstreams - i,
    {
        proof {
            crate::mapping::lemma_video_count_le(kinds, i as int);
        }
        match events.kinds[i] {
            MediaKind::Video => {
                let logging = match cfg.best_stream {
                    Some(b) => b == i,
                    None => false,
                };
                let t = Transcoder::new(
                    transcoders.len(),
                    events.time_bases[i],
                    cfg.mode,
                    cfg.watermark_id,
                    logging,
                    0,
                );
                proof {
                    lemma_video_position(kinds, i as int);
                    assert(t == initial_transcoder(*cfg, *events, video_count(kinds, i as int) as int));
                }
                transcoders.push(t);
            },
            _ => {},
        }
        i = i + 1;
    }

    // Metadata copy and header finalization are collaborator actions; only
    // after them are the output time bases valid.
    let header_written = true;

    // Main demux loop: route each packet, process the frames its decoder
    // yielded, and poll the stop signal between packets.
    let npackets = events.packets.len();
    let ghost total_packet_frames = frames_total(
        events.packet_frames@,
        events.packet_frames@.len() as int,
    );
    let mut consumed: usize = 0;
    loop
        invariant_except_break
            events_wf(*cfg, *events),
            kinds == events.kinds@,
            0 <= consumed <= npackets == events.packets@.len(),
            mapping.matches_kinds(kinds),
            transcoders@.len() == video_count(kinds, kinds.len() as int),
            match events.stop_after {
                Some(k) => k >= consumed,
                None => true,
            },
            forall|o: int|
                0 <= o < transcoders@.len() ==> {
                    &&& (#[trigger] transcoders@[o]).wf()
                    &&& transcoders@[o].ost_index == o
                    &&& transcoders@[o].mode == cfg.mode
                    &&& transcoders@[o].failed_frames <= transcoders@[o].frame_count
                    &&& transcoders@[o].frame_count <= frames_total(
                        events.packet_frames@,
                        consumed as int,
                    )
                    &&& !transcoders@[o].decoder_finished
                    &&& !transcoders@[o].encoder_finished
                },
            forall|o: int|
                0 <= o < transcoders@.len() ==> #[trigger] transcoders@[o] == fold_frames(
                    initial_transcoder(*cfg, *events, o),
                    stream_seq(*events, o, consumed as int),
                ),
        ensures
            events_wf(*cfg, *events),
            kinds == events.kinds@,
            0 <= consumed <= npackets,
            mapping.matches_kinds(kinds),
            transcoders@.len() == video_count(kinds, kinds.len() as int),
            consumed == consumed_spec(events.packets@.len(), events.stop_after),
            forall|o: int|
                0 <= o < transcoders@.len() ==> {
                    &&& (#[trigger] transcoders@[o]).wf()
                    &&& transcoders@[o].ost_index == o
                    &&& transcoders@[o].mode == cfg.mode
                    &&& transcoders@[o].failed_frames <= transcoders@[o].frame_count
                    &&& transcoders@[o].frame_count <= frames_total(
                        events.packet_frames@,
                        consumed as int,
                    )
                    &&& !transcoders@[o].decoder_finished
                    &&& !transcoders@[o].encoder_finished
                },
            forall|o: int|
                0 <= o < transcoders@.len() ==> #[trigger] transcoders@[o] == fold_frames(
                    initial_transcoder(*cfg, *events, o),
                    stream_seq(*events, o, consumed as int),
                ),
        decreases npackets - consumed,
    {
        if consumed == npackets {
            proof {
                assert(consumed == consumed_spec(events.packets@.len(), events.stop_after));
            }
            break ;
        }
        let p = consumed;
        let ist = events.packets[p];
        proof {
            lemma_frames_total_mono(events.packet_frames@, (p + 1) as int, events.packet_frames@.len() as int);
        }
        match mapping.output_index(ist) {
            None => {
                proof {
                    assert(events.packet_frames@[p as int]@.len() == 0);
                    assert forall|q: int| 0 <= q < transcoders@.len() implies stream_seq(
                        *events,
                        q,
                        (p + 1) as int,
                    ) == stream_seq(*events, q, p as int) by {
                        assert(!(kinds[ist as int] is Video));
                    }
                }
            },
            Some(o) => {
                proof {
                    crate::mapping::lemma_video_count_mono(kinds, ist as int + 1, kinds.len() as int);
                    crate::mapping::lemma_video_count_le(kinds, ist as int);
                }
                let ghost pre = transcoders@;
                process_frames(&mut transcoders, o, &events.packet_frames[p], cfg.mode);
                proof {
                    assert forall|q: int| 0 <= q < transcoders@.len() implies #[trigger] transcoders@[q]
                        == fold_frames(
                        initial_transcoder(*cfg, *events, q),
                        stream_seq(*events, q, (p + 1) as int),
                    ) by {
                        if q == o as int {
                            assert(stream_seq(*events, q, (p + 1) as int) == stream_seq(
                                *events,
                                q,
                                p as int,
                            ) + events.packet_frames@[p as int]@);
                            lemma_fold_append(
                                initial_transcoder(*cfg, *events, q),
                                stream_seq(*events, q, p as int),
                                events.packet_frames@[p as int]@,
                            );
                        } else {
                            assert(stream_seq(*events, q, (p + 1) as int) == stream_seq(
                                *events,
                                q,
                                p as int,
                            ));
                            assert(transcoders@[q] == pre[q]);
                        }
                    }
                }
            },
        }
        consumed = p + 1;
        let stop_now = match events.stop_after {
            Some(k) => k == p,
            None => false,
        };
        if stop_now {
            proof {
                assert(consumed == consumed_spec(events.packets@.len(), events.stop_after));
            }
            break ;
        }
    }

    // Flush phase, always executed: for every stream, end the decoder,
    // drain what it still held, then end the encoder.
    let ntrans = transcoders.len();
    let ghost consumed_frames = frames_total(events.packet_frames@, consumed as int);
    let mut o: usize = 0;
    while o < ntrans
        invariant
            events_wf(*cfg, *events),
            kinds == events.kinds@,
            ntrans == transcoders@.len() == video_count(kinds, kinds.len() as int),
            0 <= o <= ntrans,
            consumed_frames == frames_total(events.packet_frames@, consumed as int),
            consumed <= events.packet_frames@.len(),
            forall|t: int|
                0 <= t < transcoders@.len() ==> {
                    &&& (#[trigger] transcoders@[t]).wf()
                    &&& transcoders@[t].ost_index == t
                    &&& transcoders@[t].mode == cfg.mode
                    &&& transcoders@[t].failed_frames <= transcoders@[t].frame_count
                },
            forall|t: int|
                0 <= t < o ==> (#[trigger] transcoders@[t]).decoder_finished && transcoders@[t].encoder_finished,
            forall|t: int|
                o <= t < transcoders@.len() ==> !(#[trigger] transcoders@[t]).decoder_finished && !transcoders@[t].encoder_finished
                    && transcoders@[t].frame_count <= consumed_frames,
            forall|t: int|
                0 <= t < o ==> #[trigger] transcoders@[t] == (Transcoder {
                    decoder_finished: true,
                    encoder_finished: true,
                    ..fold_frames(
                        initial_transcoder(*cfg, *events, t),
                        stream_seq(*events, t, consumed as int) + events.flush_frames@[t]@,
                    )
                }),
            forall|t: int|
                o <= t < transcoders@.len() ==> #[trigger] transcoders@[t] == fold_frames(
                    initial_transcoder(*cfg, *events, t),
                    stream_seq(*events, t, consumed as int),
                ),
        decreases ntrans - o,
    {
        proof {
            lemma_frames_total_mono(events.packet_frames@, consumed as int, events.packet_frames@.len() as int);
            lemma_frames_total_mono(events.flush_frames@, (o + 1) as int, events.flush_frames@.len() as int);
        }
        let ghost main_state = transcoders@[o as int];
        let t = t_at(&mut transcoders, o);
        t.send_eof_to_decoder();
        process_frames(&mut transcoders, o, &events.flush_frames[o], cfg.mode);
        let t = t_at(&mut transcoders, o);
        t.send_eof_to_encoder();
        proof {
            lemma_fold_decoder_flag(main_state, events.flush_frames@[o as int]@);
            lemma_fold_append(
                initial_transcoder(*cfg, *events, o as int),
                stream_seq(*events, o as int, consumed as int),
                events.flush_frames@[o as int]@,
            );
        }
        o = o + 1;
    }

    let trailer_written = true;

    // Post-run disposition: in recognition mode, embed a recovered identity
    // into the output name.
    let mut rename_to: Option<Vec<u8>> = None;
    match cfg.mode {
        Mode::Recognize => {
            if ntrans > 0 {
                let t0 = &transcoders[0];
                match t0.recognized_id() {
                    Some(id) => {
                        rename_to = Some(rename_with_id(cfg.input_path.as_slice(), id as u64));
                    },
                    None => {},
                }
            }
        },
        Mode::Watermark => {},
    }
    let rename_failed = rename_to.is_some() && !events.rename_ok;

    RunOutcome {
        result: Ok(()),
        output_path,
        mapping,
        consumed_packets: consumed,
        header_written,
        trailer_written,
        transcoders,
        rename_to,
        rename_failed,
    }
}

} // verus!
