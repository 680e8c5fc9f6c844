//! Bitstream reformatting: length-prefixed NAL records to the Annex-B
//! byte-stream format.
//!
//! The underlying encoder emits a concatenation of `[u32 big-endian
//! length][payload]` records.  The Annex-B form wanted on the wire frames
//! each payload with the four-byte start code `00 00 00 01` instead.  A
//! record whose length field overruns the buffer truncates the walk: every
//! record before it is kept, everything from it on is dropped.

use vstd::prelude::*;

verus! {

/// The Annex-B start code placed before every NAL unit.
pub const NAL_START_CODE: [u8; 4] = [0x00, 0x00, 0x00, 0x01];

/// The start code as a byte sequence.
pub open spec fn start_code() -> Seq<u8> {
    seq![0u8, 0u8, 0u8, 1u8]
}

/// The big-endian 32-bit integer at offset `off` of `data`.
pub open spec fn be32_at(data: Seq<u8>, off: int) -> int {
    data[off] * 0x1000000 + data[off + 1] * 0x10000 + data[off + 2] * 0x100 + data[off + 3]
}

/// Payloads of the well-formed length-prefixed records at the front of
/// `data`, walking from `off`.  The walk stops where fewer than four bytes
/// remain, or where a length field overruns the buffer.
pub open spec fn avcc_payloads(data: Seq<u8>, off: int) -> Seq<Seq<u8>>
    decreases data.len() - off,
    when 0 <= off <= data.len()
{
    if off + 4 > data.len() {
        Seq::empty()
    } else {
        let l = be32_at(data, off);
        if off + 4 + l > data.len() {
            Seq::empty()
        } else {
            seq![data.subrange(off + 4, off + 4 + l)] + avcc_payloads(data, off + 4 + l)
        }
    }
}

/// The Annex-B framing of a list of payloads: each payload behind one start
/// code, concatenated in order.
pub open spec fn sc_concat(payloads: Seq<Seq<u8>>) -> Seq<u8>
    decreases payloads.len(),
{
    if payloads.len() == 0 {
        Seq::empty()
    } else {
        start_code() + payloads[0] + sc_concat(payloads.drop_first())
    }
}

/// Framing one more payload at the front prepends one start code and that
/// payload.
pub proof fn lemma_sc_concat_cons(p: Seq<u8>, rest: Seq<Seq<u8>>)
    ensures
        sc_concat(seq![p] + rest) == start_code() + p + sc_concat(rest),
{
    let s = seq![p] + rest;
    assert(s[0] == p);
    assert(s.drop_first() =~= rest);
}

/// Framing one more payload at the end appends one start code and that
/// payload.
pub proof fn lemma_sc_concat_snoc(s: Seq<Seq<u8>>, p: Seq<u8>)
    ensures
        sc_concat(s.push(p)) == sc_concat(s) + start_code() + p,
    decreases s.len(),
{
    if s.len() == 0 {
        assert(s.push(p)[0] == p);
        assert(s.push(p).drop_first() =~= Seq::<Seq<u8>>::empty());
        assert(sc_concat(Seq::<Seq<u8>>::empty()) == Seq::<u8>::empty());
        assert(s =~= Seq::<Seq<u8>>::empty());
        assert(sc_concat(s.push(p)) =~= sc_concat(s) + start_code() + p);
    } else {
        assert(s.push(p)[0] == s[0]);
        assert(s.push(p).drop_first() =~= s.drop_first().push(p));
        lemma_sc_concat_snoc(s.drop_first(), p);
        assert(sc_concat(s.push(p)) =~= sc_concat(s) + start_code() + p);
    }
}

/// Append a copy of `src`'s bytes.
pub fn push_bytes(out: &mut Vec<u8>, src: &Vec<u8>)
    ensures
        final(out)@ == old(out)@ + src@,
{
    let mut i: usize = 0;
    while i < src.len()
        invariant
            i <= src@.len(),
            out@ == old(out)@ + src@.take(i as int),
        decreases src@.len() - i,
    {
        out.push(src[i]);
        proof {
            assert(out@ =~= old(out)@ + src@.take(i as int + 1));
        }
        i = i + 1;
    }
    proof {
        assert(old(out)@ + src@.take(src@.len() as int) =~= old(out)@ + src@);
    }
}

/// Append the four start-code bytes.
pub fn push_start_code(out: &mut Vec<u8>)
    ensures
        final(out)@ == old(out)@ + start_code(),
{
    out.push(0x00);
    out.push(0x00);
    out.push(0x00);
    out.push(0x01);
    proof {
        assert(out@ =~= old(out)@ + start_code());
    }
}

/// The four bytes at `i` are the start code.  (No bounds test: use only
/// under `i + 4 <= data.len()`.)
pub open spec fn sc_at(data: Seq<u8>, i: int) -> bool {
    data[i] == 0u8 && data[i + 1] == 0u8 && data[i + 2] == 0u8 && data[i + 3] == 1u8
}

/// No window of `p` is the start code.  Annex-B framing is reversible only
/// for such payloads; real encoders guarantee it by emulation prevention.
pub open spec fn startcode_free(p: Seq<u8>) -> bool {
    forall|i: int| 0 <= i && i + 4 <= p.len() ==> !#[trigger] sc_at(p, i)
}

/// Every payload of the list is free of start codes.
pub open spec fn all_startcode_free(payloads: Seq<Seq<u8>>) -> bool {
    forall|k: int| 0 <= k < payloads.len() ==> #[trigger] startcode_free(payloads[k])
}

/// The scan behind `split_annexb`: walk `data` from `i` collecting bytes
/// into the current payload `cur`; a start code closes the current payload
/// and opens the next; the end of the buffer closes the last.
pub open spec fn split_scan(data: Seq<u8>, i: int, cur: Seq<u8>) -> Seq<Seq<u8>>
    decreases data.len() - i,
    when 0 <= i <= data.len()
{
    if i + 4 <= data.len() && sc_at(data, i) {
        seq![cur] + split_scan(data, i + 4, Seq::empty())
    } else if i < data.len() {
        split_scan(data, i + 1, cur.push(data[i]))
    } else {
        seq![cur]
    }
}

/// Split an Annex-B stream on its `00 00 00 01` start codes: the payloads
/// between consecutive start codes, in order.  A stream that does not open
/// with a start code has no payloads.
pub open spec fn split_annexb(data: Seq<u8>) -> Seq<Seq<u8>> {
    if data.len() >= 4 && sc_at(data, 0) {
        split_scan(data, 4, Seq::empty())
    } else {
        Seq::empty()
    }
}

/// A nonempty framed list starts with the start code and is at least four
/// bytes long.
proof fn lemma_sc_concat_head(payloads: Seq<Seq<u8>>)
    requires
        payloads.len() > 0,
    ensures
        sc_concat(payloads).len() >= 4 + payloads[0].len(),
        sc_at(sc_concat(payloads), 0),
        sc_concat(payloads).subrange(4, sc_concat(payloads).len() as int) =~= payloads[0]
            + sc_concat(payloads.drop_first()),
{
    let c = sc_concat(payloads);
    assert(c =~= start_code() + payloads[0] + sc_concat(payloads.drop_first()));
}

/// Dropping the first byte of a start-code-free payload keeps it free.
proof fn lemma_startcode_free_drop(p: Seq<u8>)
    requires
        startcode_free(p),
        p.len() > 0,
    ensures
        startcode_free(p.drop_first()),
{
    assert forall|i: int| 0 <= i && i + 4 <= p.drop_first().len() implies !#[trigger] sc_at(
        p.drop_first(),
        i,
    ) by {
        assert(p.drop_first()[i] == p[i + 1]);
        assert(p.drop_first()[i + 1] == p[i + 2]);
        assert(p.drop_first()[i + 2] == p[i + 3]);
        assert(p.drop_first()[i + 3] == p[i + 4]);
        assert(!sc_at(p, i + 1));
    }
}

/// The scan over one payload followed by the rest of the framed stream:
/// it collects exactly that payload (after whatever `cur` already holds)
/// and then the remaining payloads.  The boundary cannot fake a start
/// code: a window that reaches into the following framing ends on one of
/// the three zero bytes of the next start code, never on its `01`.
proof fn lemma_split_scan(data: Seq<u8>, i: int, cur: Seq<u8>, p: Seq<u8>, rest: Seq<Seq<u8>>)
    requires
        0 <= i <= data.len(),
        data.subrange(i, data.len() as int) =~= p + sc_concat(rest),
        startcode_free(p),
        all_startcode_free(rest),
    ensures
        split_scan(data, i, cur) == seq![cur + p] + rest,
    decreases data.len() - i,
{
    let suffix = p + sc_concat(rest);
    assert(data.len() - i == suffix.len());
    assert forall|t: int| 0 <= t < suffix.len() implies data[i + t] == suffix[t] by {
        assert(data.subrange(i, data.len() as int)[t] == data[i + t]);
    }
    if p.len() == 0 {
        if rest.len() == 0 {
            assert(i == data.len());
            assert(split_scan(data, i, cur) == seq![cur]);
            assert(seq![cur] =~= seq![cur + p] + rest);
        } else {
            lemma_sc_concat_head(rest);
            assert(suffix =~= sc_concat(rest));
            assert(sc_at(data, i)) by {
                assert(data[i + 0] == suffix[0]);
                assert(data[i + 1] == suffix[1]);
                assert(data[i + 2] == suffix[2]);
                assert(data[i + 3] == suffix[3]);
                assert(sc_concat(rest) =~= start_code() + rest[0] + sc_concat(rest.drop_first()));
            }
            assert(split_scan(data, i, cur) == seq![cur] + split_scan(data, i + 4, Seq::empty()));
            assert(data.subrange(i + 4, data.len() as int) =~= rest[0] + sc_concat(
                rest.drop_first(),
            )) by {
                assert(sc_concat(rest) =~= start_code() + rest[0] + sc_concat(rest.drop_first()));
                assert forall|t: int| 0 <= t < data.len() - i - 4 implies data.subrange(
                    i + 4,
                    data.len() as int,
                )[t] == (rest[0] + sc_concat(rest.drop_first()))[t] by {
                    assert(data[i + (t + 4)] == suffix[t + 4]);
                }
            }
            assert(all_startcode_free(rest.drop_first())) by {
                assert(forall|k: int|
                    0 <= k < rest.drop_first().len() ==> rest.drop_first()[k] == rest[k + 1]);
            }
            assert(startcode_free(rest[0]));
            lemma_split_scan(data, i + 4, Seq::empty(), rest[0], rest.drop_first());
            assert(Seq::<u8>::empty() + rest[0] =~= rest[0]);
            assert(seq![cur] + (seq![rest[0]] + rest.drop_first()) =~= seq![cur + p] + rest) by {
                assert(cur + p =~= cur);
                assert(seq![rest[0]] + rest.drop_first() =~= rest);
            }
        }
    } else {
        assert(!(i + 4 <= data.len() && sc_at(data, i))) by {
            if i + 4 <= data.len() {
                if p.len() >= 4 {
                    assert(data[i + 0] == suffix[0] && suffix[0] == p[0]);
                    assert(data[i + 1] == suffix[1] && suffix[1] == p[1]);
                    assert(data[i + 2] == suffix[2] && suffix[2] == p[2]);
                    assert(data[i + 3] == suffix[3] && suffix[3] == p[3]);
                    assert(!sc_at(p, 0));
                } else {
                    // The window's last byte lands in the next start code's
                    // zero bytes.
                    assert(rest.len() > 0) by {
                        if rest.len() == 0 {
                            assert(suffix =~= p);
                            assert(data.len() - i < 4);
                        }
                    }
                    lemma_sc_concat_head(rest);
                    assert(suffix[3] == sc_concat(rest)[3 - p.len()]) by {
                        assert(3 - p.len() < 3);
                    }
                    assert(sc_concat(rest) =~= start_code() + rest[0] + sc_concat(
                        rest.drop_first(),
                    ));
                    assert(data[i + 3] == suffix[3]);
                    assert(suffix[3] == 0u8);
                }
            }
        }
        assert(i < data.len());
        assert(split_scan(data, i, cur) == split_scan(data, i + 1, cur.push(data[i])));
        assert(data.subrange(i + 1, data.len() as int) =~= p.drop_first() + sc_concat(rest)) by {
            assert forall|t: int| 0 <= t < data.len() - i - 1 implies data.subrange(
                i + 1,
                data.len() as int,
            )[t] == (p.drop_first() + sc_concat(rest))[t] by {
                assert(data[i + (t + 1)] == suffix[t + 1]);
                if t + 1 < p.len() {
                    assert(suffix[t + 1] == p[t + 1]);
                    assert((p.drop_first() + sc_concat(rest))[t] == p.drop_first()[t]);
                    assert(p.drop_first()[t] == p[t + 1]);
                } else {
                    assert(suffix[t + 1] == sc_concat(rest)[t + 1 - p.len()]);
                    assert((p.drop_first() + sc_concat(rest))[t] == sc_concat(rest)[t - (p.len()
                        - 1)]);
                }
            }
        }
        lemma_startcode_free_drop(p);
        lemma_split_scan(data, i + 1, cur.push(data[i]), p.drop_first(), rest);
        assert(data[i + 0] == suffix[0] && suffix[0] == p[0]);
        assert(data[i] == p[0]);
        assert(cur.push(p[0]) + p.drop_first() =~= cur + p);
        assert(seq![cur.push(data[i]) + p.drop_first()] =~= seq![cur + p]);
    }
}

/// Round trip: an Annex-B stream framed from start-code-free payloads,
/// split again on its start codes, yields the original payloads in order.
pub proof fn lemma_annexb_round_trip(payloads: Seq<Seq<u8>>)
    requires
        all_startcode_free(payloads),
    ensures
        split_annexb(sc_concat(payloads)) == payloads,
{
    let c = sc_concat(payloads);
    if payloads.len() == 0 {
        assert(c.len() == 0);
        assert(split_annexb(c) =~= payloads);
    } else {
        lemma_sc_concat_head(payloads);
        assert(split_annexb(c) == split_scan(c, 4, Seq::empty()));
        assert(startcode_free(payloads[0]));
        assert(all_startcode_free(payloads.drop_first())) by {
            assert(forall|k: int|
                0 <= k < payloads.drop_first().len() ==> payloads.drop_first()[k] == payloads[k
                    + 1]);
        }
        lemma_split_scan(c, 4, Seq::empty(), payloads[0], payloads.drop_first());
        assert(Seq::<u8>::empty() + payloads[0] =~= payloads[0]);
        assert(seq![payloads[0]] + payloads.drop_first() =~= payloads);
    }
}

/// Round trip through the reformatter: `avcc_to_annexb` returns exactly
/// `sc_concat(avcc_payloads(..))` of its input, so splitting its output on
/// start codes recovers the input's well-formed records in order.
pub proof fn lemma_reformat_round_trip(avcc: Seq<u8>)
    requires
        all_startcode_free(avcc_payloads(avcc, 0)),
    ensures
        split_annexb(sc_concat(avcc_payloads(avcc, 0))) == avcc_payloads(avcc, 0),
{
    lemma_annexb_round_trip(avcc_payloads(avcc, 0));
}

/// Reformat a buffer of length-prefixed NAL records as an Annex-B stream:
/// read a four-byte big-endian length, and either emit a start code and
/// that many payload bytes, or — where the length overruns the buffer —
/// stop, keeping every record already emitted.
pub fn avcc_to_annexb(avcc_data: &[u8]) -> (r: Vec<u8>)
    ensures
        r@ == sc_concat(avcc_payloads(avcc_data@, 0)),
{
    let ghost data = avcc_data@;
    let mut annexb: Vec<u8> = Vec::new();
    let mut offset: usize = 0;
    loop
        invariant
            offset <= data.len(),
            avcc_data@ == data,
            sc_concat(avcc_payloads(data, 0)) == annexb@ + sc_concat(
                avcc_payloads(data, offset as int),
            ),
        ensures
            annexb@ == sc_concat(avcc_payloads(data, 0)),
        decreases data.len() - offset,
    {
        if avcc_data.len() - offset < 4 {
            proof {
                assert(avcc_payloads(data, offset as int) =~= Seq::<Seq<u8>>::empty());
                assert(annexb@ =~= annexb@ + sc_concat(avcc_payloads(data, offset as int)));
            }
            break;
        }
        let b0 = avcc_data[offset] as usize;
        let b1 = avcc_data[offset + 1] as usize;
        let b2 = avcc_data[offset + 2] as usize;
        let b3 = avcc_data[offset + 3] as usize;
        let nal_len: usize = b0 * 0x1000000 + b1 * 0x10000 + b2 * 0x100 + b3;
        proof {
            assert(nal_len == be32_at(data, offset as int));
        }
        if nal_len > avcc_data.len() - offset - 4 {
            // The length field overruns the buffer: truncate here.
            proof {
                assert(avcc_payloads(data, offset as int) =~= Seq::<Seq<u8>>::empty());
                assert(annexb@ =~= annexb@ + sc_concat(avcc_payloads(data, offset as int)));
            }
            break;
        }
        let payload_start = offset + 4;
        let payload_end = payload_start + nal_len;
        let ghost payload = data.subrange(payload_start as int, payload_end as int);
        let ghost annexb_before = annexb@;
        push_start_code(&mut annexb);
        let mut k: usize = 0;
        while k < nal_len
            invariant
                payload_start + nal_len == payload_end <= data.len(),
                avcc_data@ == data,
                k <= nal_len,
                payload == data.subrange(payload_start as int, payload_end as int),
                annexb@ == annexb_before + start_code() + data.subrange(
                    payload_start as int,
                    payload_start + k,
                ),
            decreases nal_len - k,
        {
            annexb.push(avcc_data[payload_start + k]);
            proof {
                assert(data.subrange(payload_start as int, payload_start + k + 1)
                    =~= data.subrange(payload_start as int, payload_start + k as int).push(
                    data[payload_start + k]));
                assert(annexb@ =~= annexb_before + start_code() + data.subrange(
                    payload_start as int,
                    payload_start + k + 1,
                ));
            }
            k = k + 1;
        }
        proof {
            assert(avcc_payloads(data, offset as int) == seq![payload] + avcc_payloads(
                data,
                payload_end as int,
            ));
            lemma_sc_concat_cons(payload, avcc_payloads(data, payload_end as int));
            assert(annexb_before + (start_code() + payload + sc_concat(
                avcc_payloads(data, payload_end as int),
            )) =~= annexb@ + sc_concat(avcc_payloads(data, payload_end as int)));
        }
        offset = payload_end;
    }
    annexb
}

} // verus!
