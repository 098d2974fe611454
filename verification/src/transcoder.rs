//! The per-stream transcoder: the decision state machine that drives one
//! decode/transform/encode pipeline.  The codec collaborators do the actual
//! decoding and encoding in the unverified shell; every decision — what to
//! do with a decoded frame, how to restamp an encoded packet, when progress
//! may be logged, and the end-of-stream protocol — is made here.

use crate::recognize::parse_recognition;
use crate::recognize::rec_spec;
use crate::recognize::RecognitionResult;
use crate::timing::pts_from_ms;
use crate::timing::pts_from_ms_spec;
use crate::timing::rescale_pts;
use crate::timing::rescale_spec;
use crate::timing::TimeBase;
use crate::Mode;
use vstd::prelude::*;

verus! {

/// What the stream transcoder decides for one decoded frame: forward it to
/// the encoder (in recognition mode with its presentation timestamp
/// rewritten), or drop it.
#[derive(Clone, Copy, Debug, PartialEq, Eq)]
pub enum FrameDirective {
    Forward { pts_override: Option<i64> },
    Discard,
}

/// The stamp a freshly encoded packet gets before muxing: the output stream
/// ordinal and the timestamp rescaled into the output time base.
#[derive(Clone, Copy, Debug, PartialEq, Eq, Structural)]
pub struct PacketStamp {
    pub stream_index: usize,
    pub pts: i64,
}

/// The state of one stream's transcoder.
pub struct Transcoder {
    /// The dense output ordinal this stream's packets are stamped with.
    pub ost_index: usize,
    /// The input stream's time base, fixed at construction.
    pub input_time_base: TimeBase,
    /// The transform policy of the run.
    pub mode: Mode,
    /// The identity burned into the overlay in watermark mode.
    pub watermark_id: u32,
    /// Whether this stream reports throttled progress.
    pub logging_enabled: bool,
    /// Decoded frames seen so far.
    pub frame_count: u64,
    /// Frames dropped because their burned-in text was unrecognizable.
    pub failed_frames: u64,
    /// The frame count at the last progress report.
    pub last_log_frame_count: u64,
    /// The clock reading at the last progress report, in milliseconds.
    pub last_log_time_ms: u64,
    /// The first identity ever recognized in this stream, kept for output
    /// disposition; never overwritten by later recognitions.
    pub recognized: Option<u32>,
    /// End of stream has been signaled to the decoder.
    pub decoder_finished: bool,
    /// End of stream has been signaled to the encoder.
    pub encoder_finished: bool,
}

impl Transcoder {
    /// The state is usable: a positive time base, an id the burned-in
    /// grammar can carry, and a log mark not ahead of the frame counter.
    pub open spec fn wf(self) -> bool {
        &&& self.input_time_base.wf()
        &&& self.watermark_id <= 999
        &&& self.last_log_frame_count <= self.frame_count
    }

    /// Builds the transcoder for one carried stream.  In watermark mode a
    /// missing caller id falls back to the fixed identity `1`.
    pub fn new(
        ost_index: usize,
        input_time_base: TimeBase,
        mode: Mode,
        watermark_id: Option<u32>,
        logging_enabled: bool,
        now_ms: u64,
    ) -> (t: Transcoder)
        requires
            input_time_base.wf(),
            match watermark_id {
                Some(id) => id <= 999,
                None => true,
            },
        ensures
            t == (Transcoder {
                ost_index,
                input_time_base,
                mode,
                watermark_id: (match watermark_id {
                    Some(id) => id,
                    None => 1u32,
                }),
                logging_enabled,
                frame_count: 0u64,
                failed_frames: 0u64,
                last_log_frame_count: 0u64,
                last_log_time_ms: now_ms,
                recognized: None::<u32>,
                decoder_finished: false,
                encoder_finished: false,
            }),
            t.wf(),
    {
        let id = match watermark_id {
            Some(id) => id,
            None => 1,
        };
        Transcoder {
            ost_index,
            input_time_base,
            mode,
            watermark_id: id,
            logging_enabled,
            frame_count: 0,
            failed_frames: 0,
            last_log_frame_count: 0,
            last_log_time_ms: now_ms,
            recognized: None,
            decoder_finished: false,
            encoder_finished: false,
        }
    }

    /// Counts one decoded frame.
    pub fn note_frame(&mut self)
        requires
            old(self).wf(),
            !old(self).encoder_finished,
            old(self).frame_count < u64::MAX,
        ensures
            *final(self) == (Transcoder { frame_count: (old(self).frame_count + 1) as u64, ..*old(self) }),
            final(self).wf(),
    {
        self.frame_count = self.frame_count + 1;
    }

    /// Decides whether progress may be reported now, and if so notes the
    /// report: only when at least one hundred frames and at least one second
    /// have passed since the last report.
    pub fn log_progress(&mut self, now_ms: u64) -> (log: bool)
        requires
            old(self).wf(),
            now_ms >= old(self).last_log_time_ms,
        ensures
            log == (old(self).logging_enabled && old(self).frame_count - old(
                self,
            ).last_log_frame_count >= 100 && now_ms - old(self).last_log_time_ms >= 1000),
            log ==> *final(self) == (Transcoder {
                last_log_frame_count: old(self).frame_count,
                last_log_time_ms: now_ms,
                ..*old(self)
            }),
            !log ==> *final(self) == *old(self),
            final(self).wf(),
    {
        if self.logging_enabled && self.frame_count - self.last_log_frame_count >= 100 && now_ms
            - self.last_log_time_ms >= 1000 {
            self.last_log_frame_count = self.frame_count;
            self.last_log_time_ms = now_ms;
            true
        } else {
            false
        }
    }

    /// Applies the frame transform decision for one decoded frame.  In
    /// watermark mode the (already overlaid) frame is always forwarded with
    /// its timing untouched.  In recognition mode `scan` is the text the
    /// optical reader returned: a recognized reading forwards the frame with
    /// its presentation time rewritten to the recovered milliseconds in
    /// input time-base units, and records the identity if none is held yet;
    /// an unrecognized reading drops the frame and counts the failure.
    pub fn apply_transform(&mut self, scan: Option<&[u8]>) -> (d: FrameDirective)
        requires
            old(self).wf(),
            !old(self).encoder_finished,
            (old(self).mode is Recognize) <==> scan is Some,
            old(self).failed_frames < u64::MAX,
        ensures
            final(self).wf(),
            match old(self).mode {
                Mode::Watermark => d == (FrameDirective::Forward { pts_override: None::<i64> })
                    && *final(self) == *old(self),
                Mode::Recognize => match rec_spec(scan.unwrap()@) {
                    RecognitionResult::Recognized { id, time_ms } => d == (FrameDirective::Forward {
                        pts_override: Some(
                            pts_from_ms_spec(time_ms as nat, old(self).input_time_base) as i64,
                        ),
                    }) && *final(self) == (Transcoder {
                        recognized: (if old(self).recognized is Some {
                            old(self).recognized
                        } else {
                            Some(id)
                        }),
                        ..*old(self)
                    }),
                    RecognitionResult::Unrecognized => d == FrameDirective::Discard && *final(self)
                        == (Transcoder {
                        failed_frames: (old(self).failed_frames + 1) as u64,
                        ..*old(self)
                    }),
                },
            },
    {
        match scan {
            None => FrameDirective::Forward { pts_override: None },
            Some(text) => {
                match parse_recognition(text) {
                    RecognitionResult::Recognized { id, time_ms } => {
                        if self.recognized.is_none() {
                            self.recognized = Some(id);
                        }
                        let pts = pts_from_ms(time_ms, self.input_time_base);
                        FrameDirective::Forward { pts_override: Some(pts) }
                    },
                    RecognitionResult::Unrecognized => {
                        self.failed_frames = self.failed_frames + 1;
                        FrameDirective::Discard
                    },
                }
            },
        }
    }

    /// Stamps one freshly encoded packet for muxing: this stream's output
    /// ordinal, and the timestamp rescaled from the input time base into the
    /// output time base.
    pub fn stamp_encoded(&self, pts: i64, ost_time_base: TimeBase) -> (r: PacketStamp)
        requires
            self.wf(),
            ost_time_base.wf(),
        ensures
            r.stream_index == self.ost_index,
            r.pts as int == rescale_spec(pts as int, self.input_time_base, ost_time_base),
    {
        PacketStamp {
            stream_index: self.ost_index,
            pts: rescale_pts(pts, self.input_time_base, ost_time_base),
        }
    }

    /// Signals end of stream to the decoder.  Frames already buffered may
    /// still be drained and processed afterwards.
    pub fn send_eof_to_decoder(&mut self)
        requires
            old(self).wf(),
        ensures
            *final(self) == (Transcoder { decoder_finished: true, ..*old(self) }),
            final(self).wf(),
    {
        self.decoder_finished = true;
    }

    /// Signals end of stream to the encoder.  The decoder must already be
    /// finished and drained: no further frame can be fed after this.
    pub fn send_eof_to_encoder(&mut self)
        requires
            old(self).wf(),
            old(self).decoder_finished,
        ensures
            *final(self) == (Transcoder { encoder_finished: true, ..*old(self) }),
            final(self).wf(),
    {
        self.encoder_finished = true;
    }

    /// How many frames were dropped for unrecognizable burned-in text.
    pub fn failed_frames(&self) -> (r: u64)
        ensures
            r == self.failed_frames,
    {
        self.failed_frames
    }

    /// The first identity recognized in this stream, if any.
    pub fn recognized_id(&self) -> (r: Option<u32>)
        ensures
            r == self.recognized,
    {
        self.recognized
    }
}

} // verus!
