//! The verified half of the HEVC encoder wrapper.
//!
//! The platform's hardware encoder session lives with the process that owns
//! it; this module holds everything around it that is plain computation: the
//! pre-allocated I420 planes and the BGRA conversion into them, the
//! reformatting of a drained frame into an Annex-B output record, the
//! parameter-set (VPS/SPS/PPS) config stream built on keyframes, and the
//! latch that separates the first keyframe, which must carry parameter sets
//! to the session, from later ones.

use crate::bitstream::{
    avcc_payloads, avcc_to_annexb, lemma_sc_concat_snoc, push_bytes, push_start_code, sc_concat,
};
use crate::convert::{bgra_to_i420, spec_y_plane, u_plane_ok, v_plane_ok};
use crate::shared_memory::{MAX_HEIGHT, MAX_WIDTH};
use vstd::prelude::*;

verus! {

/// One encoded frame, ready for the streaming session: its Annex-B
/// bitstream, whether it is a keyframe, and — on keyframes — the Annex-B
/// parameter-set stream for the session's config channel.
pub struct EncodedOutput {
    /// NAL units in Annex-B format.
    pub nal_data: Vec<u8>,
    /// Whether this is a keyframe (IDR).
    pub is_keyframe: bool,
    /// VPS/SPS/PPS config NALs for keyframes, Annex-B framed.
    pub config_nals: Option<Vec<u8>>,
}

/// Plain-value snapshot of one frame drained from the platform encoder: the
/// length-prefixed bitstream, the keyframe flag, and the parameter-set
/// lists that accompany a keyframe.
pub struct EncodedFrameData {
    pub data: Vec<u8>,
    pub keyframe: bool,
    pub vps_list: Vec<Vec<u8>>,
    pub sps_list: Vec<Vec<u8>>,
    pub pps_list: Vec<Vec<u8>>,
}

/// The parameter-set stream attached to a keyframe: every VPS, then every
/// SPS, then every PPS, each behind a start code.
pub open spec fn spec_config_nals(frame: EncodedFrameData) -> Seq<u8> {
    sc_concat(frame.vps_list.deep_view()) + sc_concat(frame.sps_list.deep_view()) + sc_concat(
        frame.pps_list.deep_view(),
    )
}

/// The verified state of the HEVC encoder wrapper: the fixed frame
/// geometry, the three reused conversion planes, and the config-sent latch.
/// The hardware session itself is held by the caller.
pub struct HevcEncoder {
    pub width: u32,
    pub height: u32,
    pub y_plane: Vec<u8>,
    pub u_plane: Vec<u8>,
    pub v_plane: Vec<u8>,
    pub frames_encoded: u64,
    pub config_sent: bool,
}

impl HevcEncoder {
    /// Geometry is even and within the ring's maxima, and each plane has
    /// its I420 size: `w*h` luma bytes, `(w/2)*(h/2)` bytes per chroma
    /// plane.
    pub open spec fn wf(self) -> bool {
        &&& self.width % 2 == 0
        &&& self.height % 2 == 0
        &&& 0 < self.width <= MAX_WIDTH
        &&& 0 < self.height <= MAX_HEIGHT
        &&& self.y_plane@.len() == self.width * self.height
        &&& self.u_plane@.len() == (self.width / 2) * (self.height / 2)
        &&& self.v_plane@.len() == (self.width / 2) * (self.height / 2)
    }

    /// Create the wrapper state for a `width` by `height` stream,
    /// pre-allocating the three planes zero-filled; the config-sent latch
    /// starts clear.
    pub fn new(width: u32, height: u32) -> (r: HevcEncoder)
        requires
            width % 2 == 0,
            height % 2 == 0,
            0 < width <= MAX_WIDTH,
            0 < height <= MAX_HEIGHT,
        ensures
            r.wf(),
            r.width == width,
            r.height == height,
            r.frames_encoded == 0,
            !r.config_sent,
            forall|i: int| 0 <= i < r.y_plane@.len() ==> r.y_plane@[i] == 0u8,
            forall|i: int| 0 <= i < r.u_plane@.len() ==> r.u_plane@[i] == 0u8,
            forall|i: int| 0 <= i < r.v_plane@.len() ==> r.v_plane@[i] == 0u8,
    {
        proof {
            assert((width as int) * (height as int) <= 4096 * 2048) by (nonlinear_arith)
                requires
                    0 < width <= 4096,
                    0 < height <= 2048,
            ;
            assert((width as int / 2) * (height as int / 2) <= (width as int) * (height as int))
                by (nonlinear_arith)
                requires
                    width >= 0,
                    height >= 0,
            ;
        }
        let y_size: usize = (width as usize) * (height as usize);
        let uv_size: usize = ((width / 2) as usize) * ((height / 2) as usize);
        HevcEncoder {
            width,
            height,
            y_plane: zero_bytes(y_size),
            u_plane: zero_bytes(uv_size),
            v_plane: zero_bytes(uv_size),
            frames_encoded: 0,
            config_sent: false,
        }
    }

    /// Convert one BGRA frame into the pre-allocated planes; every output
    /// byte is pinned by the conversion specs.
    pub fn bgra_to_i420(&mut self, bgra: &[u8])
        requires
            old(self).wf(),
            old(self).width * old(self).height * 4 <= bgra@.len(),
            bgra@.len() <= usize::MAX,
        ensures
            final(self).wf(),
            final(self).y_plane@ == spec_y_plane(
                bgra@,
                old(self).width as int,
                old(self).height as int,
            ),
            u_plane_ok(final(self).u_plane@, bgra@, old(self).width as int, old(self).height as int),
            v_plane_ok(final(self).v_plane@, bgra@, old(self).width as int, old(self).height as int),
            final(self).width == old(self).width,
            final(self).height == old(self).height,
            final(self).frames_encoded == old(self).frames_encoded,
            final(self).config_sent == old(self).config_sent,
    {
        proof {
            assert((self.width as int) * (self.height as int) * 4 <= 4096 * 2048 * 4)
                by (nonlinear_arith)
                requires
                    0 < self.width <= 4096,
                    0 < self.height <= 2048,
            ;
        }
        let w = self.width as usize;
        let h = self.height as usize;
        bgra_to_i420(bgra, w, h, &mut self.y_plane, &mut self.u_plane, &mut self.v_plane);
    }

    /// Count one frame submitted to the underlying encoder.
    pub fn note_encoded(&mut self)
        ensures
            final(self).frames_encoded == old(self).frames_encoded.wrapping_add(1),
            final(self).width == old(self).width,
            final(self).height == old(self).height,
            final(self).y_plane == old(self).y_plane,
            final(self).u_plane == old(self).u_plane,
            final(self).v_plane == old(self).v_plane,
            final(self).config_sent == old(self).config_sent,
            old(self).wf() ==> final(self).wf(),
    {
        self.frames_encoded = self.frames_encoded.wrapping_add(1);
    }

    /// Whether the parameter sets have been delivered to the session.
    pub fn config_sent(&self) -> (r: bool)
        ensures
            r == self.config_sent,
    {
        self.config_sent
    }

    /// Latch that the parameter sets have been delivered.
    pub fn mark_config_sent(&mut self)
        ensures
            final(self).config_sent,
            final(self).width == old(self).width,
            final(self).height == old(self).height,
            final(self).y_plane == old(self).y_plane,
            final(self).u_plane == old(self).u_plane,
            final(self).v_plane == old(self).v_plane,
            final(self).frames_encoded == old(self).frames_encoded,
            old(self).wf() ==> final(self).wf(),
    {
        self.config_sent = true;
    }

    /// Reformat one drained frame: the length-prefixed bitstream becomes
    /// Annex-B, and a keyframe carries the VPS/SPS/PPS config stream; a
    /// non-keyframe carries none.
    pub fn process_encoded_frame(&self, frame: &EncodedFrameData) -> (r: EncodedOutput)
        ensures
            r.nal_data@ == sc_concat(avcc_payloads(frame.data@, 0)),
            r.is_keyframe == frame.keyframe,
            match r.config_nals {
                Some(c) => frame.keyframe && c@ == spec_config_nals(*frame),
                None => !frame.keyframe,
            },
    {
        let nal_data = avcc_to_annexb(frame.data.as_slice());
        let config_nals = if frame.keyframe {
            let mut config: Vec<u8> = Vec::new();
            append_framed_units(&mut config, &frame.vps_list);
            append_framed_units(&mut config, &frame.sps_list);
            append_framed_units(&mut config, &frame.pps_list);
            Some(config)
        } else {
            None
        };
        EncodedOutput { nal_data, is_keyframe: frame.keyframe, config_nals }
    }
}

/// A zeroed byte buffer of length `n`.
fn zero_bytes(n: usize) -> (r: Vec<u8>)
    ensures
        r@.len() == n,
        forall|i: int| 0 <= i < n ==> r@[i] == 0u8,
{
    let mut r: Vec<u8> = Vec::new();
    let mut i: usize = 0;
    while i < n
        invariant
            i <= n,
            r@.len() == i,
            forall|j: int| 0 <= j < i ==> r@[j] == 0u8,
        decreases n - i,
    {
        r.push(0u8);
        i = i + 1;
    }
    r
}

/// Append every unit of `units`, each behind one start code.
fn append_framed_units(out: &mut Vec<u8>, units: &Vec<Vec<u8>>)
    ensures
        final(out)@ == old(out)@ + sc_concat(units.deep_view()),
{
    let ghost all = units.deep_view();
    proof {
        assert(out@ =~= out@ + sc_concat(all.take(0int)));
    }
    let mut i: usize = 0;
    while i < units.len()
        invariant
            i <= units@.len(),
            all == units.deep_view(),
            all.len() == units@.len(),
            out@ == old(out)@ + sc_concat(all.take(i as int)),
        decreases units@.len() - i,
    {
        push_start_code(out);
        push_bytes(out, &units[i]);
        proof {
            assert(all.take(i as int).push(all[i as int]) =~= all.take(i as int + 1));
            lemma_sc_concat_snoc(all.take(i as int), all[i as int]);
            assert(all[i as int] == units@[i as int]@);
            assert(out@ =~= old(out)@ + sc_concat(all.take(i as int + 1)));
        }
        i = i + 1;
    }
    proof {
        assert(all.take(all.len() as int) =~= all);
    }
}

} // verus!
