//! The bridge loop's decision logic.
//!
//! The steady-state loop couples the ring, the encoder, and the streaming
//! session: drain session events, acquire a frame, encode it, publish the
//! parameter sets on the first keyframe, forward the frame while a client
//! is connected, release the buffer, account producer drops, and honor the
//! shared shutdown flag.  Everything the loop decides is a function from
//! state and event to next state and action, verified here; the process
//! around it performs the waiting, the hardware encode, and the session
//! calls.

use crate::encoder::{EncodedOutput, HevcEncoder};
use vstd::prelude::*;

verus! {

/// Default encoder bitrate, bits per second.
pub const DEFAULT_BITRATE_BPS: u32 = 30_000_000;
/// Default encoder frame rate.
pub const DEFAULT_FPS: u32 = 72;
/// How long to wait for the producer to publish its configuration.
pub const PRODUCER_TIMEOUT_SECS: u64 = 120;
/// How long to wait for a client before streaming anyway.
pub const CLIENT_WAIT_SECS: u64 = 60;
/// Poll interval while waiting, milliseconds.
pub const POLL_INTERVAL_MS: u64 = 100;
/// Idle sleep when no buffer is ready, microseconds.
pub const IDLE_SLEEP_MICROS: u64 = 500;
/// Progress is logged every this many processed frames.
pub const LOG_INTERVAL_FRAMES: u64 = 300;

/// The session events the loop reacts to; everything else is `Other` and
/// ignored.
#[derive(Clone, Copy, Debug, PartialEq, Eq, Structural)]
pub enum SessionEvent {
    ClientConnected,
    ClientDisconnected,
    RequestIDR,
    Other,
}

/// The error kinds of the pipeline.
#[derive(Clone, Copy, Debug, PartialEq, Eq, Structural)]
pub enum BridgeError {
    /// Ring file open, resize or mapping failed at startup.
    RingCreate,
    /// The producer never published its configuration.
    ProducerTimeout,
    /// The hardware encoder rejected its configuration.
    EncoderInit,
    /// A frame submission failed.
    EncodeSubmit,
    /// Draining an encoded frame failed.
    EncodeDrain,
    /// A length-prefix walk found a truncated record.
    MalformedBitstream,
    /// An unknown state word, or an oversized `Ready` buffer.
    ProtocolViolation,
}

impl BridgeError {
    /// Fatal errors abort startup; transient ones are logged, the frame is
    /// discarded, and the loop continues.
    pub fn is_fatal(&self) -> (r: bool)
        ensures
            r == (*self == BridgeError::RingCreate || *self == BridgeError::ProducerTimeout
                || *self == BridgeError::EncoderInit),
    {
        match self {
            BridgeError::RingCreate => true,
            BridgeError::ProducerTimeout => true,
            BridgeError::EncoderInit => true,
            BridgeError::EncodeSubmit => false,
            BridgeError::EncodeDrain => false,
            BridgeError::MalformedBitstream => false,
            BridgeError::ProtocolViolation => false,
        }
    }
}

/// The loop's own state: whether a client is connected, the force-IDR
/// latch, and the processed and producer-drop baselines.
pub struct BridgeState {
    pub client_connected: bool,
    pub force_idr: bool,
    pub frames_processed: u64,
    pub frames_dropped_seen: u64,
}

/// One frame NAL handed to the session.
pub struct SendNal {
    pub timestamp_ns: u64,
    pub nal_data: Vec<u8>,
    pub is_keyframe: bool,
}

/// What one encode outcome asks of the session: parameter sets for the
/// config channel, and at most one frame NAL.
pub struct FrameActions {
    pub config_to_send: Option<Vec<u8>>,
    pub nal_to_send: Option<SendNal>,
}

impl BridgeState {
    /// Initial loop state: no client yet, and the first frame is forced to
    /// be an IDR.
    pub fn new() -> (r: BridgeState)
        ensures
            !r.client_connected,
            r.force_idr,
            r.frames_processed == 0,
            r.frames_dropped_seen == 0,
    {
        BridgeState {
            client_connected: false,
            force_idr: true,
            frames_processed: 0,
            frames_dropped_seen: 0,
        }
    }

    /// React to one session event: a connect marks the client present and
    /// demands an IDR, a disconnect marks it absent, an IDR request sets
    /// the latch, and anything else changes nothing.
    pub fn handle_event(&mut self, event: SessionEvent)
        ensures
            final(self).frames_processed == old(self).frames_processed,
            final(self).frames_dropped_seen == old(self).frames_dropped_seen,
            match event {
                SessionEvent::ClientConnected => final(self).client_connected && final(self).force_idr,
                SessionEvent::ClientDisconnected => !final(self).client_connected && final(self).force_idr == old(self).force_idr,
                SessionEvent::RequestIDR => final(self).force_idr && final(self).client_connected
                    == old(self).client_connected,
                SessionEvent::Other => final(self).client_connected == old(self).client_connected
                    && final(self).force_idr == old(self).force_idr,
            },
    {
        match event {
            SessionEvent::ClientConnected => {
                self.client_connected = true;
                self.force_idr = true;
            },
            SessionEvent::ClientDisconnected => {
                self.client_connected = false;
            },
            SessionEvent::RequestIDR => {
                self.force_idr = true;
            },
            SessionEvent::Other => {},
        }
    }

    /// Whether the next encode must request an IDR: the latch, or the
    /// producer's per-frame hint.
    pub fn want_idr(&self, frame_is_idr: u8) -> (r: bool)
        ensures
            r == (self.force_idr || frame_is_idr != 0),
    {
        self.force_idr || frame_is_idr != 0
    }

    /// Count one processed frame.
    pub fn count_frame(&mut self)
        ensures
            final(self).frames_processed == old(self).frames_processed.wrapping_add(1),
            final(self).client_connected == old(self).client_connected,
            final(self).force_idr == old(self).force_idr,
            final(self).frames_dropped_seen == old(self).frames_dropped_seen,
    {
        self.frames_processed = self.frames_processed.wrapping_add(1);
    }

    /// Track the producer's drop counter: where it grew past the local
    /// baseline, return the delta to warn about, once, and move the
    /// baseline up; otherwise nothing.
    pub fn note_drops(&mut self, current_dropped: u64) -> (r: Option<u64>)
        ensures
            final(self).client_connected == old(self).client_connected,
            final(self).force_idr == old(self).force_idr,
            final(self).frames_processed == old(self).frames_processed,
            current_dropped > old(self).frames_dropped_seen ==> r == Some(
                (current_dropped - old(self).frames_dropped_seen) as u64,
            ) && final(self).frames_dropped_seen == current_dropped,
            current_dropped <= old(self).frames_dropped_seen ==> r is None && final(self).frames_dropped_seen == old(self).frames_dropped_seen,
    {
        if current_dropped > self.frames_dropped_seen {
            let delta = current_dropped - self.frames_dropped_seen;
            self.frames_dropped_seen = current_dropped;
            Some(delta)
        } else {
            None
        }
    }
}

/// The loop exits exactly when the shared shutdown flag is set.
pub fn should_exit(shutdown: u32) -> (r: bool)
    ensures
        r == (shutdown != 0),
{
    shutdown != 0
}

/// Apply one encode outcome.  No output: nothing changes and nothing is
/// sent (pipeline warm-up).  An output: the parameter sets go to the config
/// channel exactly when this is a keyframe that carries them and none were
/// sent before, which latches the encoder; the frame NAL goes out exactly
/// when a client is connected, carrying the frame's timestamp; and the
/// force-IDR latch clears exactly when a client consumed the output.
pub fn handle_encode_result(
    state: &mut BridgeState,
    encoder: &mut HevcEncoder,
    output: Option<EncodedOutput>,
    timestamp_ns: u64,
) -> (r: FrameActions)
    ensures
        final(state).client_connected == old(state).client_connected,
        final(state).frames_processed == old(state).frames_processed,
        final(state).frames_dropped_seen == old(state).frames_dropped_seen,
        final(encoder).width == old(encoder).width,
        final(encoder).height == old(encoder).height,
        final(encoder).y_plane == old(encoder).y_plane,
        final(encoder).u_plane == old(encoder).u_plane,
        final(encoder).v_plane == old(encoder).v_plane,
        final(encoder).frames_encoded == old(encoder).frames_encoded,
        old(encoder).wf() ==> final(encoder).wf(),
        match output {
            None => {
                &&& final(state).force_idr == old(state).force_idr
                &&& final(encoder).config_sent == old(encoder).config_sent
                &&& r.config_to_send is None
                &&& r.nal_to_send is None
            },
            Some(o) => {
                &&& (if o.is_keyframe && !old(encoder).config_sent && o.config_nals is Some {
                    r.config_to_send == o.config_nals && final(encoder).config_sent
                } else {
                    r.config_to_send is None && final(encoder).config_sent == old(
                        encoder,
                    ).config_sent
                })
                &&& (if old(state).client_connected {
                    (r.nal_to_send matches Some(s) && s.timestamp_ns == timestamp_ns && s.nal_data
                        == o.nal_data && s.is_keyframe == o.is_keyframe) && !final(state).force_idr
                } else {
                    r.nal_to_send is None && final(state).force_idr == old(state).force_idr
                })
            },
        },
{
    match output {
        None => FrameActions { config_to_send: None, nal_to_send: None },
        Some(o) => {
            let mut config_to_send: Option<Vec<u8>> = None;
            if o.is_keyframe && !encoder.config_sent() {
                match o.config_nals {
                    Some(c) => {
                        config_to_send = Some(c);
                        encoder.mark_config_sent();
                    },
                    None => {},
                }
            }
            let nal_to_send = if state.client_connected {
                state.force_idr = false;
                Some(
                    SendNal {
                        timestamp_ns,
                        nal_data: o.nal_data,
                        is_keyframe: o.is_keyframe,
                    },
                )
            } else {
                None
            };
            FrameActions { config_to_send, nal_to_send }
        },
    }
}

/// What the shutdown flush sends: while a client is connected, every
/// drained output in order, each with a zero timestamp; otherwise nothing.
pub fn flush_sends(outputs: Vec<EncodedOutput>, client_connected: bool) -> (r: Vec<SendNal>)
    ensures
        !client_connected ==> r@.len() == 0,
        client_connected ==> {
            &&& r@.len() == outputs@.len()
            &&& forall|i: int|
                0 <= i < outputs@.len() ==> (#[trigger] r@[i]).timestamp_ns == 0 && r@[i].nal_data@
                    == outputs@[i].nal_data@ && r@[i].is_keyframe == outputs@[i].is_keyframe
        },
{
    let mut r: Vec<SendNal> = Vec::new();
    if !client_connected {
        return r;
    }
    let mut i: usize = 0;
    while i < outputs.len()
        invariant
            i <= outputs@.len(),
            r@.len() == i,
            forall|j: int|
                0 <= j < i ==> (#[trigger] r@[j]).timestamp_ns == 0 && r@[j].nal_data@
                    == outputs@[j].nal_data@ && r@[j].is_keyframe == outputs@[j].is_keyframe,
        decreases outputs@.len() - i,
    {
        let o = &outputs[i];
        r.push(
            SendNal {
                timestamp_ns: 0,
                nal_data: crate::shared_memory::clone_bytes(&o.nal_data),
                is_keyframe: o.is_keyframe,
            },
        );
        i = i + 1;
    }
    r
}

} // verus!
