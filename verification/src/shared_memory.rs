//! Model of the shared-memory frame ring.
//!
//! The ring is a single file with a fixed little-endian layout: one header,
//! `NUM_BUFFERS` per-buffer metadata slots, and `NUM_BUFFERS` page-aligned
//! pixel regions.  The producer process fills a buffer and publishes it with
//! a `Writing -> Ready` transition of the buffer's state word; the consumer
//! claims it with a `Ready -> Encoding` compare-exchange, reads the pixels,
//! and hands it back with `Encoding -> Empty`.  The state word is the only
//! synchronization primitive; every counter is advisory.
//!
//! This module holds the verified logic of that protocol: the layout
//! arithmetic, the state machine, and the acquire/release scan, all expressed
//! over plain values.  The process that owns the real memory mapping performs
//! each operation through this model's contracts.

use vstd::prelude::*;

verus! {

/// Magic number at offset 0 of the ring file ("ALVR").
pub const SHM_MAGIC: u32 = 0x414C5652;
/// Protocol version; producer and consumer must agree.
pub const SHM_VERSION: u32 = 1;
/// Largest frame width the ring can carry.
pub const MAX_WIDTH: u32 = 4096;
/// Largest frame height the ring can carry.
pub const MAX_HEIGHT: u32 = 2048;
/// BGRA: four bytes per pixel.
pub const BYTES_PER_PIXEL: u32 = 4;
/// Size of one pixel region: `MAX_WIDTH * MAX_HEIGHT * BYTES_PER_PIXEL`.
pub const MAX_FRAME_SIZE: usize = 4096 * 2048 * 4;
/// Number of buffers in the ring.
pub const NUM_BUFFERS: usize = 3;
/// Pixel regions are aligned to this page size.
pub const PAGE_SIZE: usize = 4096;

/// Byte size of the ring header: eight `u32` fields (32), five `u64`
/// counters (40), 64 reserved bytes, and `NUM_BUFFERS` per-buffer slots of
/// 88 bytes each (state + three dimension words, two `u64` fields, flag byte
/// with seven padding bytes, and a 48-byte pose matrix).
pub const HEADER_BYTES: usize = 32 + 40 + 64 + 3 * 88;

/// Buffer state word: no frame and free for the producer to claim.
pub const STATE_EMPTY: u32 = 0;
/// Buffer state word: producer owns the buffer and is writing pixels.
pub const STATE_WRITING: u32 = 1;
/// Buffer state word: a complete frame awaits the consumer.
pub const STATE_READY: u32 = 2;
/// Buffer state word: consumer owns the buffer and is encoding it.
pub const STATE_ENCODING: u32 = 3;

/// The four states of a buffer's lifecycle, in cycle order
/// `Empty -> Writing -> Ready -> Encoding -> Empty`.
#[derive(Clone, Copy, Debug, PartialEq, Eq, Structural)]
pub enum FrameState {
    Empty,
    Writing,
    Ready,
    Encoding,
}

impl FrameState {
    /// The state word stored in shared memory for this state.
    pub open spec fn spec_as_u32(self) -> u32 {
        match self {
            FrameState::Empty => STATE_EMPTY,
            FrameState::Writing => STATE_WRITING,
            FrameState::Ready => STATE_READY,
            FrameState::Encoding => STATE_ENCODING,
        }
    }

    /// Encode this state as the `u32` stored in the shared state word.
    pub fn as_u32(self) -> (r: u32)
        ensures
            r == self.spec_as_u32(),
    {
        match self {
            FrameState::Empty => STATE_EMPTY,
            FrameState::Writing => STATE_WRITING,
            FrameState::Ready => STATE_READY,
            FrameState::Encoding => STATE_ENCODING,
        }
    }

    /// Decode a state word; an out-of-range word is a protocol violation and
    /// yields `None`.
    pub fn from_u32(v: u32) -> (r: Option<FrameState>)
        ensures
            r matches Some(s) ==> s.spec_as_u32() == v,
            r is None <==> !is_valid_state(v),
    {
        if v == STATE_EMPTY {
            Some(FrameState::Empty)
        } else if v == STATE_WRITING {
            Some(FrameState::Writing)
        } else if v == STATE_READY {
            Some(FrameState::Ready)
        } else if v == STATE_ENCODING {
            Some(FrameState::Encoding)
        } else {
            None
        }
    }
}

/// A state word is valid when it is one of the four protocol states.
pub open spec fn is_valid_state(v: u32) -> bool {
    v == STATE_EMPTY || v == STATE_WRITING || v == STATE_READY || v == STATE_ENCODING
}

/// Smallest multiple of `PAGE_SIZE` that is at least `n`.
pub open spec fn spec_align_up_page(n: int) -> int {
    ((n + PAGE_SIZE - 1) / (PAGE_SIZE as int)) * (PAGE_SIZE as int)
}

/// Byte offset of buffer `buffer_index`'s pixel region within the ring file:
/// the header rounded up to a page boundary, then one `MAX_FRAME_SIZE`
/// region per earlier buffer.
pub fn frame_offset(buffer_index: usize) -> (r: usize)
    requires
        buffer_index <= NUM_BUFFERS,
    ensures
        r == spec_align_up_page(HEADER_BYTES as int) + buffer_index * MAX_FRAME_SIZE,
{
    let aligned_header: usize = ((HEADER_BYTES + PAGE_SIZE - 1) / PAGE_SIZE) * PAGE_SIZE;
    aligned_header + buffer_index * MAX_FRAME_SIZE
}

/// Total size of the ring file: the page-aligned header followed by
/// `NUM_BUFFERS` pixel regions.
pub fn total_size() -> (r: usize)
    ensures
        r == spec_align_up_page(HEADER_BYTES as int) + NUM_BUFFERS * MAX_FRAME_SIZE,
{
    frame_offset(NUM_BUFFERS)
}

/// Copyable snapshot of one buffer's metadata slot.  The pose matrix is
/// opaque to the consumer and forwarded untouched, so it is carried as the
/// raw bit patterns of its twelve 32-bit words.
#[derive(Clone, Copy, Debug)]
pub struct FrameHeader {
    pub width: u32,
    pub height: u32,
    pub stride: u32,
    pub timestamp_ns: u64,
    pub frame_number: u64,
    pub is_idr: u8,
    pub pose: [u32; 12],
}

impl FrameHeader {
    /// An all-zero metadata slot, as the ring holds after initialization.
    pub fn zeroed() -> (r: FrameHeader)
        ensures
            r.width == 0 && r.height == 0 && r.stride == 0,
            r.timestamp_ns == 0 && r.frame_number == 0 && r.is_idr == 0,
            r.pose@ == Seq::<u32>::new(12, |i: int| 0u32),
    {
        let pose = [0u32; 12];
        proof {
            assert(pose@ =~= Seq::<u32>::new(12, |i: int| 0u32));
        }
        FrameHeader {
            width: 0,
            height: 0,
            stride: 0,
            timestamp_ns: 0,
            frame_number: 0,
            is_idr: 0,
            pose,
        }
    }

    /// The byte length of this frame's pixel payload, `height * stride`.
    pub open spec fn spec_payload_len(self) -> int {
        self.height * self.stride
    }
}

/// The fixed header at the start of the ring: identification, configuration
/// published by the producer, the shutdown flag, and advisory counters.
#[derive(Clone, Copy, Debug)]
pub struct SharedMemoryHeader {
    pub magic: u32,
    pub version: u32,
    pub initialized: u32,
    pub shutdown: u32,
    pub config_width: u32,
    pub config_height: u32,
    pub config_format: u32,
    pub config_set: u32,
    pub write_sequence: u64,
    pub read_sequence: u64,
    pub frames_written: u64,
    pub frames_encoded: u64,
    pub frames_dropped: u64,
}

/// The shared-memory ring: the header plus, for each buffer, its state word,
/// its metadata slot, and its pixel payload.
pub struct SharedMemory {
    pub header: SharedMemoryHeader,
    pub states: Vec<u32>,
    pub frame_headers: Vec<FrameHeader>,
    pub pixels: Vec<Vec<u8>>,
}

impl SharedMemory {
    /// The header fields.
    pub open spec fn spec_header(self) -> SharedMemoryHeader {
        self.header
    }

    /// The per-buffer state words.
    pub open spec fn spec_states(self) -> Seq<u32> {
        self.states@
    }

    /// The per-buffer metadata slots.
    pub open spec fn spec_frame_headers(self) -> Seq<FrameHeader> {
        self.frame_headers@
    }

    /// The per-buffer pixel payloads.
    pub open spec fn spec_pixels(self) -> Seq<Seq<u8>> {
        Seq::new(self.pixels@.len(), |i: int| self.pixels@[i]@)
    }

    /// Where buffer `i` advertises a payload that fits one pixel region,
    /// its payload is exactly `height * stride` bytes.  An oversized
    /// advertisement is a protocol violation the scan tolerates by passing
    /// the buffer over, so nothing is asked of its bytes.
    pub open spec fn slot_payload_ok(self, i: int) -> bool {
        self.spec_frame_headers()[i].spec_payload_len() <= MAX_FRAME_SIZE
            ==> self.spec_pixels()[i].len() == self.spec_frame_headers()[i].spec_payload_len()
    }

    /// Structural well-formedness: three buffers, and every `Ready` buffer
    /// whose advertised payload fits carries exactly that many bytes.
    pub open spec fn wf(self) -> bool {
        &&& self.spec_states().len() == NUM_BUFFERS
        &&& self.spec_frame_headers().len() == NUM_BUFFERS
        &&& self.spec_pixels().len() == NUM_BUFFERS
        &&& forall|i: int|
            0 <= i < NUM_BUFFERS && #[trigger] self.spec_states()[i] == STATE_READY
                ==> self.slot_payload_ok(i)
    }

    /// Every state word is one of the four protocol states.
    pub open spec fn states_valid(self) -> bool {
        forall|i: int|
            0 <= i < self.spec_states().len() ==> is_valid_state(#[trigger] self.spec_states()[i])
    }

    /// Buffer `i` is `Ready` and its advertised payload fits one pixel
    /// region: the scan will claim it.  A `Ready` buffer that advertises
    /// more is a protocol violation and is passed over.
    pub open spec fn acceptable(self, i: int) -> bool {
        &&& self.spec_states()[i] == STATE_READY
        &&& self.spec_frame_headers()[i].spec_payload_len() <= MAX_FRAME_SIZE
    }

    /// Some buffer can be claimed.
    pub open spec fn has_acceptable(self) -> bool {
        exists|i: int| 0 <= i < self.spec_states().len() && self.acceptable(i)
    }

    /// No buffer before `j` can be claimed (the scan runs in fixed order).
    pub open spec fn no_acceptable_before(self, j: int) -> bool {
        forall|k: int| 0 <= k < j ==> !self.acceptable(k)
    }

    /// Create the ring in its initial state: identification written,
    /// configuration and counters zeroed, every buffer `Empty`, and
    /// `initialized` set.  The file and memory-mapping work around this
    /// model lives with the process that owns the mapping.
    pub fn create() -> (r: SharedMemory)
        ensures
            r.wf(),
            r.states_valid(),
            r.spec_header().magic == SHM_MAGIC,
            r.spec_header().version == SHM_VERSION,
            r.spec_header().initialized == 1,
            r.spec_header().shutdown == 0,
            r.spec_header().config_set == 0,
            r.spec_header().config_width == 0 && r.spec_header().config_height == 0
                && r.spec_header().config_format == 0,
            r.spec_header().write_sequence == 0 && r.spec_header().read_sequence == 0,
            r.spec_header().frames_written == 0 && r.spec_header().frames_encoded == 0
                && r.spec_header().frames_dropped == 0,
            forall|i: int| 0 <= i < NUM_BUFFERS ==> r.spec_states()[i] == STATE_EMPTY,
    {
        let header = SharedMemoryHeader {
            magic: SHM_MAGIC,
            version: SHM_VERSION,
            initialized: 1,
            shutdown: 0,
            config_width: 0,
            config_height: 0,
            config_format: 0,
            config_set: 0,
            write_sequence: 0,
            read_sequence: 0,
            frames_written: 0,
            frames_encoded: 0,
            frames_dropped: 0,
        };
        let mut states: Vec<u32> = Vec::new();
        let mut frame_headers: Vec<FrameHeader> = Vec::new();
        let mut pixels: Vec<Vec<u8>> = Vec::new();
        let mut i: usize = 0;
        while i < NUM_BUFFERS
            invariant
                i <= NUM_BUFFERS,
                states@.len() == i,
                frame_headers@.len() == i,
                pixels@.len() == i,
                forall|k: int| 0 <= k < i ==> states@[k] == STATE_EMPTY,
            decreases NUM_BUFFERS - i,
        {
            states.push(STATE_EMPTY);
            frame_headers.push(FrameHeader::zeroed());
            pixels.push(Vec::new());
            i = i + 1;
        }
        SharedMemory { header, states, frame_headers, pixels }
    }

    /// Read-only access to the header for the orchestrator's shutdown checks
    /// and counter telemetry.
    pub fn header(&self) -> (r: &SharedMemoryHeader)
        ensures
            *r == self.spec_header(),
    {
        &self.header
    }

    /// Mutable access to the header; the buffers are untouched by whatever
    /// the caller writes through it.
    pub fn header_mut(&mut self) -> (r: &mut SharedMemoryHeader)
        ensures
            *r == old(self).spec_header(),
            final(self).spec_header() == *final(r),
            final(self).spec_states() == old(self).spec_states(),
            final(self).spec_frame_headers() == old(self).spec_frame_headers(),
            final(self).spec_pixels() == old(self).spec_pixels(),
            old(self).wf() ==> final(self).wf(),
            old(self).states_valid() ==> final(self).states_valid(),
    {
        proof {
            assert(self.spec_pixels() =~= old(self).spec_pixels());
        }
        &mut self.header
    }

    /// True once the producer has published its configuration.
    pub fn is_configured(&self) -> (r: bool)
        ensures
            r == (self.spec_header().config_set != 0),
    {
        self.header.config_set != 0
    }

    /// Snapshot of `(width, height, format)`; `None` until the producer has
    /// set `config_set`.
    pub fn get_config(&self) -> (r: Option<(u32, u32, u32)>)
        ensures
            r matches Some(c) ==> self.spec_header().config_set != 0
                && c.0 == self.spec_header().config_width
                && c.1 == self.spec_header().config_height
                && c.2 == self.spec_header().config_format,
            r is None <==> self.spec_header().config_set == 0,
    {
        if self.header.config_set != 0 {
            Some((self.header.config_width, self.header.config_height, self.header.config_format))
        } else {
            None
        }
    }

    /// Scan the buffers in fixed order and claim the first `Ready` one with
    /// a `Ready -> Encoding` compare-exchange.  On success the buffer's
    /// metadata is snapshotted by value and its `height * stride` payload
    /// bytes are returned; on `None` no state word changed.  A state word
    /// outside the four protocol states simply fails the compare, and a
    /// `Ready` buffer that advertises more than `MAX_FRAME_SIZE` payload
    /// bytes is a protocol violation: both are passed over, untouched, and
    /// the scan continues.
    pub fn try_acquire_frame(&mut self) -> (r: Option<(usize, FrameHeader, Vec<u8>)>)
        requires
            old(self).wf(),
        ensures
            final(self).wf(),
            old(self).states_valid() ==> final(self).states_valid(),
            final(self).spec_header() == old(self).spec_header(),
            final(self).spec_frame_headers() == old(self).spec_frame_headers(),
            final(self).spec_pixels() == old(self).spec_pixels(),
            match r {
                None => {
                    &&& final(self).spec_states() == old(self).spec_states()
                    &&& !old(self).has_acceptable()
                },
                Some((i, h, px)) => {
                    &&& i < NUM_BUFFERS
                    &&& acquire_success(*old(self), *final(self), i as int, h, px@)
                },
            },
    {
        let mut i: usize = 0;
        while i < NUM_BUFFERS
            invariant
                *self == *old(self),
                i <= NUM_BUFFERS,
                old(self).wf(),
                forall|k: int| 0 <= k < i ==> !self.acceptable(k),
            decreases NUM_BUFFERS - i,
        {
            if self.states[i] == STATE_READY {
                let frame_copy = self.frame_headers[i];
                proof {
                    assert((frame_copy.height as int) * (frame_copy.stride as int) <= 0xFFFF_FFFF
                        * 0xFFFF_FFFF) by (nonlinear_arith)
                        requires
                            frame_copy.height <= 0xFFFF_FFFFu32,
                            frame_copy.stride <= 0xFFFF_FFFFu32,
                    ;
                }
                let payload: u64 = (frame_copy.height as u64) * (frame_copy.stride as u64);
                if payload <= MAX_FRAME_SIZE as u64 {
                    // The compare succeeded: this transition claims the
                    // buffer.
                    self.states.set(i, STATE_ENCODING);
                    let pixel_data = clone_bytes(&self.pixels[i]);
                    proof {
                        assert(self.spec_states()
                            =~= old(self).spec_states().update(i as int, STATE_ENCODING));
                        assert(self.spec_pixels() =~= old(self).spec_pixels());
                    }
                    return Some((i, frame_copy, pixel_data));
                }
                // Oversized advertisement: a protocol violation; the buffer
                // is passed over without any state change.
            }
            i = i + 1;
        }
        None
    }

    /// Hand a buffer back to the producer: release-store `Empty`, then bump
    /// the advisory `frames_encoded` and `read_sequence` counters.
    pub fn release_frame(&mut self, buffer_index: usize)
        requires
            old(self).wf(),
            buffer_index < NUM_BUFFERS,
        ensures
            final(self).wf(),
            old(self).states_valid() ==> final(self).states_valid(),
            final(self).spec_states()
                == old(self).spec_states().update(buffer_index as int, STATE_EMPTY),
            final(self).spec_frame_headers() == old(self).spec_frame_headers(),
            final(self).spec_pixels() == old(self).spec_pixels(),
            final(self).spec_header() == (SharedMemoryHeader {
                frames_encoded: old(self).spec_header().frames_encoded.wrapping_add(1),
                read_sequence: old(self).spec_header().read_sequence.wrapping_add(1),
                ..old(self).spec_header()
            }),
    {
        self.states.set(buffer_index, STATE_EMPTY);
        self.header.frames_encoded = self.header.frames_encoded.wrapping_add(1);
        self.header.read_sequence = self.header.read_sequence.wrapping_add(1);
        proof {
            assert(self.spec_pixels() =~= old(self).spec_pixels());
        }
    }

    /// Producer side: publish the stream configuration, then set
    /// `config_set`.  The consumer observes the fields only after the flag.
    pub fn set_config(&mut self, width: u32, height: u32, format: u32)
        ensures
            final(self).spec_header() == (SharedMemoryHeader {
                config_width: width,
                config_height: height,
                config_format: format,
                config_set: 1u32,
                ..old(self).spec_header()
            }),
            final(self).spec_states() == old(self).spec_states(),
            final(self).spec_frame_headers() == old(self).spec_frame_headers(),
            final(self).spec_pixels() == old(self).spec_pixels(),
            old(self).wf() ==> final(self).wf(),
            old(self).states_valid() ==> final(self).states_valid(),
    {
        self.header.config_width = width;
        self.header.config_height = height;
        self.header.config_format = format;
        self.header.config_set = 1;
        proof {
            assert(self.spec_pixels() =~= old(self).spec_pixels());
        }
    }

    /// Producer side: claim buffer `i` for writing with an
    /// `Empty -> Writing` compare-exchange.  Returns whether the claim
    /// succeeded; on failure nothing changes.
    pub fn producer_try_write(&mut self, i: usize) -> (r: bool)
        requires
            old(self).wf(),
            i < NUM_BUFFERS,
        ensures
            final(self).wf(),
            old(self).states_valid() ==> final(self).states_valid(),
            final(self).spec_header() == old(self).spec_header(),
            final(self).spec_frame_headers() == old(self).spec_frame_headers(),
            final(self).spec_pixels() == old(self).spec_pixels(),
            r == (old(self).spec_states()[i as int] == STATE_EMPTY),
            r ==> final(self).spec_states()
                == old(self).spec_states().update(i as int, STATE_WRITING),
            !r ==> final(self).spec_states() == old(self).spec_states(),
    {
        if self.states[i] == STATE_EMPTY {
            self.states.set(i, STATE_WRITING);
            proof {
                assert(self.spec_pixels() =~= old(self).spec_pixels());
            }
            true
        } else {
            false
        }
    }

    /// Producer side: fill buffer `i`'s metadata and pixel payload, then
    /// release-store `Ready` and bump the advisory producer counters.  The
    /// payload must be exactly `height * stride` bytes and fit one pixel
    /// region.
    pub fn producer_publish(&mut self, i: usize, fh: FrameHeader, data: Vec<u8>)
        requires
            old(self).wf(),
            i < NUM_BUFFERS,
            old(self).spec_states()[i as int] == STATE_WRITING,
            data@.len() == fh.spec_payload_len(),
            fh.spec_payload_len() <= MAX_FRAME_SIZE,
        ensures
            final(self).wf(),
            old(self).states_valid() ==> final(self).states_valid(),
            publish_transition(*old(self), *final(self), i as int, fh, data@),
            final(self).spec_header() == (SharedMemoryHeader {
                write_sequence: old(self).spec_header().write_sequence.wrapping_add(1),
                frames_written: old(self).spec_header().frames_written.wrapping_add(1),
                ..old(self).spec_header()
            }),
    {
        self.frame_headers.set(i, fh);
        self.pixels.set(i, data);
        self.states.set(i, STATE_READY);
        self.header.write_sequence = self.header.write_sequence.wrapping_add(1);
        self.header.frames_written = self.header.frames_written.wrapping_add(1);
        proof {
            assert(self.spec_pixels() =~= old(self).spec_pixels().update(i as int, data@));
        }
    }

    /// Producer side: add to the advisory drop counter, as the producer does
    /// when it overwrites frames the consumer never claimed.
    pub fn producer_add_dropped(&mut self, n: u64)
        ensures
            final(self).spec_header() == (SharedMemoryHeader {
                frames_dropped: old(self).spec_header().frames_dropped.wrapping_add(n),
                ..old(self).spec_header()
            }),
            final(self).spec_states() == old(self).spec_states(),
            final(self).spec_frame_headers() == old(self).spec_frame_headers(),
            final(self).spec_pixels() == old(self).spec_pixels(),
            old(self).wf() ==> final(self).wf(),
            old(self).states_valid() ==> final(self).states_valid(),
    {
        self.header.frames_dropped = self.header.frames_dropped.wrapping_add(n);
        proof {
            assert(self.spec_pixels() =~= old(self).spec_pixels());
        }
    }

    /// A raw store to buffer `i`'s state word, as a misbehaving peer could
    /// make it: the word is shared memory and nothing stops an arbitrary
    /// value.  Storing `Ready` over a payload that fits is only admitted
    /// when the bytes are there; an oversized advertisement carries no such
    /// duty, since the scan never reads it.
    pub fn producer_store_state(&mut self, i: usize, v: u32)
        requires
            old(self).wf(),
            i < NUM_BUFFERS,
            v == STATE_READY ==> old(self).slot_payload_ok(i as int),
        ensures
            final(self).wf(),
            final(self).spec_header() == old(self).spec_header(),
            final(self).spec_frame_headers() == old(self).spec_frame_headers(),
            final(self).spec_pixels() == old(self).spec_pixels(),
            final(self).spec_states() == old(self).spec_states().update(i as int, v),
    {
        self.states.set(i, v);
        proof {
            assert(self.spec_pixels() =~= old(self).spec_pixels());
        }
    }

    /// A raw store to buffer `i`'s metadata slot, as the producer writes it
    /// through the mapping.  Over a `Ready` buffer, a new advertisement that
    /// fits one pixel region is only admitted when the bytes are there; an
    /// oversized one carries no such duty, since the scan passes it over.
    pub fn producer_store_header(&mut self, i: usize, fh: FrameHeader)
        requires
            old(self).wf(),
            i < NUM_BUFFERS,
            old(self).spec_states()[i as int] == STATE_READY
                && fh.spec_payload_len() <= MAX_FRAME_SIZE
                ==> old(self).spec_pixels()[i as int].len() == fh.spec_payload_len(),
        ensures
            final(self).wf(),
            old(self).states_valid() ==> final(self).states_valid(),
            final(self).spec_header() == old(self).spec_header(),
            final(self).spec_states() == old(self).spec_states(),
            final(self).spec_pixels() == old(self).spec_pixels(),
            final(self).spec_frame_headers() == old(self).spec_frame_headers().update(
                i as int,
                fh,
            ),
    {
        self.frame_headers.set(i, fh);
        proof {
            assert(self.spec_pixels() =~= old(self).spec_pixels());
        }
    }

    /// Request teardown: set the shared `shutdown` flag.  Idempotent; either
    /// side honors the flag at its next iteration.
    pub fn shutdown(&mut self)
        ensures
            final(self).spec_header() == (SharedMemoryHeader {
                shutdown: 1u32,
                ..old(self).spec_header()
            }),
            final(self).spec_states() == old(self).spec_states(),
            final(self).spec_frame_headers() == old(self).spec_frame_headers(),
            final(self).spec_pixels() == old(self).spec_pixels(),
            old(self).wf() ==> final(self).wf(),
            old(self).states_valid() ==> final(self).states_valid(),
    {
        self.header.shutdown = 1;
        proof {
            assert(self.spec_pixels() =~= old(self).spec_pixels());
        }
    }
}

/// The producer's publish step on buffer `i`: metadata and payload written
/// while the buffer was `Writing`, then the state word released to `Ready`.
pub open spec fn publish_transition(
    pre: SharedMemory,
    post: SharedMemory,
    i: int,
    fh: FrameHeader,
    data: Seq<u8>,
) -> bool {
    &&& 0 <= i < pre.spec_states().len()
    &&& pre.spec_states()[i] == STATE_WRITING
    &&& post.spec_states() == pre.spec_states().update(i, STATE_READY)
    &&& post.spec_frame_headers() == pre.spec_frame_headers().update(i, fh)
    &&& post.spec_pixels() == pre.spec_pixels().update(i, data)
}

/// The consumer's successful acquire of buffer `i`: it was the first
/// `Ready` buffer, its metadata and payload were snapshotted by value, and
/// its state word moved to `Encoding`.
pub open spec fn acquire_success(
    pre: SharedMemory,
    post: SharedMemory,
    i: int,
    fh: FrameHeader,
    px: Seq<u8>,
) -> bool {
    &&& 0 <= i < pre.spec_states().len()
    &&& pre.acceptable(i)
    &&& pre.no_acceptable_before(i)
    &&& fh == pre.spec_frame_headers()[i]
    &&& px == pre.spec_pixels()[i]
    &&& post.spec_states() == pre.spec_states().update(i, STATE_ENCODING)
    &&& post.spec_frame_headers() == pre.spec_frame_headers()
    &&& post.spec_pixels() == pre.spec_pixels()
}

/// The consumer's claim compares the state word against `Ready` alone.
pub open spec fn consumer_can_claim(state: u32) -> bool {
    state == STATE_READY
}

/// The producer's claim compares the state word against `Empty` alone.
pub open spec fn producer_can_claim(state: u32) -> bool {
    state == STATE_EMPTY
}

/// No two actors can hold the same buffer exclusively.  Each side claims a
/// buffer only through a compare-exchange on its state word, and the two
/// compares expect different values; moreover a buffer either side already
/// holds (`Writing` or `Encoding`) matches neither compare, so the holder
/// keeps it until it stores a new state itself.
pub proof fn lemma_ownership_exclusive(state: u32)
    ensures
        !(consumer_can_claim(state) && producer_can_claim(state)),
        state == STATE_WRITING ==> !consumer_can_claim(state) && !producer_can_claim(state),
        state == STATE_ENCODING ==> !consumer_can_claim(state) && !producer_can_claim(state),
{
}

/// Round-trip identity of the pixel payload: the bytes the consumer reads
/// at its `Ready -> Encoding` acquire of a buffer are exactly the bytes the
/// producer published at its `Writing -> Ready` release of that buffer, and
/// likewise for the metadata snapshot.
pub proof fn lemma_pixel_round_trip(
    pre: SharedMemory,
    mid: SharedMemory,
    post: SharedMemory,
    i: int,
    fh: FrameHeader,
    data: Seq<u8>,
    got_fh: FrameHeader,
    got_px: Seq<u8>,
)
    requires
        pre.wf(),
        publish_transition(pre, mid, i, fh, data),
        acquire_success(mid, post, i, got_fh, got_px),
    ensures
        got_px == data,
        got_fh == fh,
{
    assert(mid.spec_pixels()[i] == data);
    assert(mid.spec_frame_headers()[i] == fh);
}

/// Any single transition that stores one of the four protocol states keeps
/// every state word of the ring valid.
pub proof fn lemma_states_stay_valid(pre: SharedMemory, post: SharedMemory, i: int, v: u32)
    requires
        pre.states_valid(),
        0 <= i < pre.spec_states().len(),
        is_valid_state(v),
        post.spec_states() == pre.spec_states().update(i, v),
    ensures
        post.states_valid(),
{
}

/// Byte-for-byte copy of a pixel payload.
pub fn clone_bytes(src: &Vec<u8>) -> (r: Vec<u8>)
    ensures
        r@ == src@,
{
    let mut r: Vec<u8> = Vec::new();
    let mut i: usize = 0;
    while i < src.len()
        invariant
            i <= src@.len(),
            r@ == src@.take(i as int),
        decreases src@.len() - i,
    {
        r.push(src[i]);
        proof {
            assert(r@ =~= src@.take(i as int + 1));
        }
        i = i + 1;
    }
    proof {
        assert(src@.take(src@.len() as int) =~= src@);
    }
    r
}

} // verus!

