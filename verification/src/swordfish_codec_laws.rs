//! Laws of the frame codec.
//!
//! A well-formed frame's wire bytes decode back to exactly that frame past
//! any sync-free garbage, a strict prefix of a frame leaves the decoder
//! waiting, and no single-byte corruption of a frame's wire bytes can make
//! the decoder yield the original frame.
use vstd::prelude::*;
use vstd::arithmetic::div_mod::lemma_small_mod;
use vstd::arithmetic::div_mod::lemma_mod_add_multiples_vanish;
use vstd::arithmetic::div_mod::lemma_mod_equivalence;
use crate::swordfish_concentrated_message::HEADER_SIZE;
use crate::swordfish_concentrated_message::MAX_PAYLOAD_SIZE;
use crate::swordfish_concentrated_message::SYNC_WORD_TO_SWORDFISH_U32;
use crate::swordfish_concentrated_message::TOTAL_MESSAGE_SIZE;
use crate::swordfish_concentrated_message::SwordFishFrameView;
use crate::swordfish_concentrated_message::byte_sum;
use crate::swordfish_concentrated_message::checksum_bytes;
use crate::swordfish_concentrated_message::decode_step;
use crate::swordfish_concentrated_message::find_sync_from;
use crate::swordfish_concentrated_message::frame_at;
use crate::swordfish_concentrated_message::lemma_byte_sum_nonneg;
use crate::swordfish_concentrated_message::lemma_byte_sum_update;
use crate::swordfish_concentrated_message::lemma_find_sync_from;
use crate::swordfish_concentrated_message::lemma_u16_le_round;
use crate::swordfish_concentrated_message::lemma_u16_le_bytes_of;
use crate::swordfish_concentrated_message::lemma_u16_of_le_injective;
use crate::swordfish_concentrated_message::lemma_u32_le_round;
use crate::swordfish_concentrated_message::spec_checksum;
use crate::swordfish_concentrated_message::sync_at;
use crate::swordfish_concentrated_message::u16_le_bytes;
use crate::swordfish_concentrated_message::u16_of_le;
use crate::swordfish_concentrated_message::u32_le_bytes;

verus! {

/// The wire bytes of the sync word, in wire order.
pub proof fn lemma_sync_word_bytes()
    ensures
        u32_le_bytes(SYNC_WORD_TO_SWORDFISH_U32) == seq![0xdeu8, 0xadu8, 0xbeu8, 0xefu8],
{
    assert(((0xefbeadde as u32) & 0xff) as u8 == 0xde) by (bit_vector);
    assert((((0xefbeadde as u32) >> 8) & 0xff) as u8 == 0xad) by (bit_vector);
    assert((((0xefbeadde as u32) >> 16) & 0xff) as u8 == 0xbe) by (bit_vector);
    assert((((0xefbeadde as u32) >> 24) & 0xff) as u8 == 0xef) by (bit_vector);
    assert(u32_le_bytes(SYNC_WORD_TO_SWORDFISH_U32) =~= seq![0xdeu8, 0xadu8, 0xbeu8, 0xefu8]);
}

/// Where each field of a frame stands among its wire bytes.
pub proof fn lemma_wire_fields(f: SwordFishFrameView)
    ensures
        f.wire().len() == HEADER_SIZE + f.payload.len() + 1,
        f.wire()[0] == u32_le_bytes(f.sync_word)[0],
        f.wire()[1] == u32_le_bytes(f.sync_word)[1],
        f.wire()[2] == u32_le_bytes(f.sync_word)[2],
        f.wire()[3] == u32_le_bytes(f.sync_word)[3],
        f.wire()[4] == u16_le_bytes(f.counter)[0],
        f.wire()[5] == u16_le_bytes(f.counter)[1],
        f.wire()[6] == f.opcode,
        f.wire()[7] == u16_le_bytes(f.length)[0],
        f.wire()[8] == u16_le_bytes(f.length)[1],
        forall|j: int|
            0 <= j < f.payload.len() ==> f.wire()[HEADER_SIZE + j] == f.payload[j],
        f.wire()[HEADER_SIZE + f.payload.len()] == f.checksum,
        f.wire().take(HEADER_SIZE + f.payload.len() as int) == checksum_bytes(
            f.sync_word,
            f.counter,
            f.opcode,
            f.length,
            f.payload,
        ),
{
    let cb = checksum_bytes(f.sync_word, f.counter, f.opcode, f.length, f.payload);
    assert(f.wire().take(HEADER_SIZE + f.payload.len() as int) =~= cb);
}

/// A sync-free garbage prefix creates no sync position before a frame whose
/// own sync word opens at the seam: the pattern cannot straddle the boundary.
proof fn lemma_no_sync_before_frame(garbage: Seq<u8>, f: SwordFishFrameView)
    requires
        f.sync_word == SYNC_WORD_TO_SWORDFISH_U32,
        forall|q: int| !sync_at(garbage, q),
    ensures
        forall|q: int| 0 <= q < garbage.len() ==> !sync_at(garbage + f.wire(), q),
        sync_at(garbage + f.wire(), garbage.len() as int),
{
    let acc = garbage + f.wire();
    let g = garbage.len() as int;
    lemma_wire_fields(f);
    lemma_sync_word_bytes();
    assert(acc[g] == 0xde && acc[g + 1] == 0xad && acc[g + 2] == 0xbe && acc[g + 3] == 0xef);
    assert(sync_at(acc, g));
    assert forall|q: int| 0 <= q < g implies !sync_at(acc, q) by {
        if sync_at(acc, q) {
            if q + 4 <= g {
                assert(sync_at(garbage, q));
            } else {
                // the window covers position g, whose byte is 0xde, yet every
                // pattern byte past the first is not 0xde
                assert(acc[g] == 0xde);
                if g == q + 1 {
                    assert(acc[q + 1] == 0xad);
                } else if g == q + 2 {
                    assert(acc[q + 2] == 0xbe);
                } else {
                    assert(g == q + 3);
                    assert(acc[q + 3] == 0xef);
                }
            }
        }
    }
}

/// The fields read off a frame region are the bytes of that region: reading
/// and re-serializing the region reproduces it exactly.
pub proof fn lemma_frame_region(acc: Seq<u8>, p: int)
    requires
        0 <= p,
        p + HEADER_SIZE <= acc.len(),
        p + HEADER_SIZE + (u16_of_le(acc[p + 7], acc[p + 8]) as int) + 1 <= acc.len(),
    ensures
        ({
            let len = u16_of_le(acc[p + 7], acc[p + 8]) as int;
            let f = frame_at(acc, p);
            &&& checksum_bytes(f.sync_word, f.counter, f.opcode, f.length, f.payload)
                == acc.subrange(p, p + HEADER_SIZE + len)
            &&& f.wire() == acc.subrange(p, p + HEADER_SIZE + len + 1)
        }),
{
    let len = u16_of_le(acc[p + 7], acc[p + 8]) as int;
    let f = frame_at(acc, p);
    crate::swordfish_concentrated_message::lemma_u32_le_bytes_of(
        acc[p],
        acc[p + 1],
        acc[p + 2],
        acc[p + 3],
    );
    lemma_u16_le_bytes_of(acc[p + 4], acc[p + 5]);
    lemma_u16_le_bytes_of(acc[p + 7], acc[p + 8]);
    assert(checksum_bytes(f.sync_word, f.counter, f.opcode, f.length, f.payload) =~= acc.subrange(
        p,
        p + HEADER_SIZE + len,
    ));
    assert(f.wire() =~= acc.subrange(p, p + HEADER_SIZE + len + 1));
}

/// The frame standing at `p` is read back field for field when the bytes at
/// `p` are a frame's wire image.
proof fn lemma_frame_at_wire(acc: Seq<u8>, p: int, f: SwordFishFrameView)
    requires
        f.wf(),
        0 <= p,
        p + f.wire().len() <= acc.len(),
        acc.subrange(p, p + f.wire().len() as int) == f.wire(),
    ensures
        u16_of_le(acc[p + 7], acc[p + 8]) == f.length,
        frame_at(acc, p) == f,
{
    let b = f.wire();
    let l = f.payload.len() as int;
    lemma_wire_fields(f);
    assert forall|j: int| 0 <= j < b.len() implies acc[p + j] == b[j] by {
        assert(acc.subrange(p, p + b.len() as int)[j] == acc[p + j]);
    }
    lemma_u16_le_round(f.length);
    assert(u16_of_le(acc[p + 7], acc[p + 8]) == f.length);
    lemma_u16_le_round(f.counter);
    lemma_u32_le_round(f.sync_word);
    let r = frame_at(acc, p);
    assert(r.payload =~= f.payload);
    assert(r =~= f);
}

/// Resynchronization: fed any sync-free garbage followed by the complete wire
/// bytes of a valid frame, one decoding attempt yields exactly that frame, no
/// earlier spurious frame, and consumes everything.
pub proof fn lemma_resynchronization(garbage: Seq<u8>, f: SwordFishFrameView)
    requires
        f.wf(),
        f.checksum_ok(),
        f.sync_word == SYNC_WORD_TO_SWORDFISH_U32,
        forall|q: int| !sync_at(garbage, q),
    ensures
        decode_step(garbage + f.wire()) == (Some(f), Seq::<u8>::empty()),
{
    let acc = garbage + f.wire();
    let g = garbage.len() as int;
    let l = f.payload.len() as int;
    lemma_wire_fields(f);
    lemma_no_sync_before_frame(garbage, f);
    lemma_find_sync_from(acc, 0);
    match find_sync_from(acc, 0) {
        None => {
            assert(!sync_at(acc, g));
            assert(false);
        },
        Some(p) => {
            if p < g {
                assert(!sync_at(acc, p));
                assert(false);
            } else if p > g {
                assert(!sync_at(acc, g));
                assert(false);
            }
            assert(p == g);
        },
    }
    assert(acc.subrange(g, g + f.wire().len() as int) =~= f.wire());
    lemma_frame_at_wire(acc, g, f);
    assert(u16_of_le(acc[g + 7], acc[g + 8]) as int == l);
    assert(l <= MAX_PAYLOAD_SIZE);
    assert(g + HEADER_SIZE + l + 1 == acc.len());
    assert(frame_at(acc, g).checksum_ok());
    assert(acc.subrange(g + HEADER_SIZE + l + 1, acc.len() as int) =~= Seq::<u8>::empty());
}

/// Sync-free bytes alone never yield a frame.
pub proof fn lemma_garbage_yields_no_frame(garbage: Seq<u8>)
    requires
        forall|q: int| !sync_at(garbage, q),
    ensures
        decode_step(garbage).0 is None,
{
    lemma_find_sync_from(garbage, 0);
    match find_sync_from(garbage, 0) {
        None => {},
        Some(p) => {
            assert(!sync_at(garbage, p));
            assert(false);
        },
    }
}

/// Any stretch of sync-free bytes is itself sync-free: in particular, what
/// the decoder keeps after evicting old garbage, or after consuming a frame,
/// contains no sync position if the whole accumulation contained none past
/// the consumed frame.
pub proof fn lemma_sync_free_subrange(g: Seq<u8>, a: int, b: int)
    requires
        forall|q: int| !sync_at(g, q),
        0 <= a <= b <= g.len(),
    ensures
        forall|q: int| !sync_at(g.subrange(a, b), q),
{
    assert forall|q: int| !sync_at(g.subrange(a, b), q) by {
        if sync_at(g.subrange(a, b), q) {
            assert(g.subrange(a, b)[q] == g[a + q]);
            assert(g.subrange(a, b)[q + 1] == g[a + q + 1]);
            assert(g.subrange(a, b)[q + 2] == g[a + q + 2]);
            assert(g.subrange(a, b)[q + 3] == g[a + q + 3]);
            assert(sync_at(g, a + q));
        }
    }
}

/// A strict prefix of a frame's wire bytes, behind sync-free garbage, leaves
/// the decoder waiting with nothing consumed, as long as the accumulation has
/// not reached the eviction threshold.
pub proof fn lemma_partial_frame_pending(garbage: Seq<u8>, f: SwordFishFrameView, k: int)
    requires
        f.wf(),
        f.sync_word == SYNC_WORD_TO_SWORDFISH_U32,
        forall|q: int| !sync_at(garbage, q),
        0 <= k < f.wire().len(),
        garbage.len() + k < 2 * TOTAL_MESSAGE_SIZE,
    ensures
        decode_step(garbage + f.wire().take(k)) == (
            None::<SwordFishFrameView>,
            garbage + f.wire().take(k),
        ),
{
    let acc = garbage + f.wire().take(k);
    let g = garbage.len() as int;
    let l = f.payload.len() as int;
    lemma_wire_fields(f);
    lemma_find_sync_from(acc, 0);
    if k >= 4 {
        lemma_no_sync_before_frame(garbage, f);
        assert forall|j: int| 0 <= j < k implies acc[g + j] == f.wire()[j] by {}
        assert(sync_at(acc, g)) by {
            lemma_sync_word_bytes();
        }
        assert forall|q: int| 0 <= q < g implies !sync_at(acc, q) by {
            if sync_at(acc, q) {
                assert(sync_at(garbage + f.wire(), q));
            }
        }
        match find_sync_from(acc, 0) {
            None => {
                assert(!sync_at(acc, g));
                assert(false);
            },
            Some(p) => {
                if p < g {
                    assert(!sync_at(acc, p));
                    assert(false);
                } else if p > g {
                    assert(!sync_at(acc, g));
                    assert(false);
                }
                assert(p == g);
            },
        }
        if g + HEADER_SIZE > acc.len() {
        } else {
            assert(acc[g + 7] == f.wire()[7] && acc[g + 8] == f.wire()[8]);
            lemma_u16_le_round(f.length);
            assert(u16_of_le(acc[g + 7], acc[g + 8]) == f.length);
            assert(g + HEADER_SIZE + l + 1 > acc.len());
        }
    } else {
        // too little of the frame is present for its sync word to show;
        // no byte of the pattern's tail can complete one across the seam
        assert forall|q: int| 0 <= q implies !sync_at(acc, q) by {
            if sync_at(acc, q) {
                if q + 4 <= g {
                    assert(sync_at(garbage, q));
                } else if q < g {
                    assert(acc[g] == 0xde) by {
                        lemma_sync_word_bytes();
                    }
                    if g == q + 1 {
                        assert(acc[q + 1] == 0xad);
                    } else if g == q + 2 {
                        assert(acc[q + 2] == 0xbe);
                    } else {
                        assert(g == q + 3);
                        assert(acc[q + 3] == 0xef);
                    }
                } else {
                    // the window would need four frame bytes, but fewer exist
                    assert(q + 4 <= acc.len());
                    assert(acc.len() == g + k);
                    assert(false);
                }
            }
        }
        match find_sync_from(acc, 0) {
            None => {},
            Some(p) => {
                assert(!sync_at(acc, p));
                assert(false);
            },
        }
        assert(acc.len() < 2 * TOTAL_MESSAGE_SIZE);
    }
}

/// A nonzero shift of less than the modulus moves every remainder.
proof fn lemma_mod_shift_nonzero(s: int, d: int)
    requires
        0 <= s,
        -256 < d < 256,
        d != 0,
    ensures
        (s + d) % 256 != s % 256,
{
    lemma_mod_equivalence(s + d, s, 256);
    if d > 0 {
        lemma_small_mod(d as nat, 256);
    } else {
        lemma_mod_add_multiples_vanish(d, 256);
        lemma_small_mod((d + 256) as nat, 256);
    }
}

/// Checksum sensitivity: corrupting any single wire byte of a valid frame
/// makes one decoding attempt reject it — whatever the decoder yields over
/// the corrupted bytes, it is never the original frame.
pub proof fn lemma_checksum_sensitivity(f: SwordFishFrameView, i: int, v: u8)
    requires
        f.wf(),
        f.checksum_ok(),
        f.sync_word == SYNC_WORD_TO_SWORDFISH_U32,
        0 <= i < f.wire().len(),
        v != f.wire()[i],
    ensures
        decode_step(f.wire().update(i, v)).0 != Some(f),
{
    let b = f.wire();
    let l = f.payload.len() as int;
    let n = b.len() as int;
    let acc = b.update(i, v);
    lemma_wire_fields(f);
    lemma_sync_word_bytes();
    if i < 4 {
        // the frame's own sync pattern is broken, so any frame the decoder
        // finds starts later and is strictly shorter than the original
        lemma_find_sync_from(acc, 0);
        match find_sync_from(acc, 0) {
            None => {},
            Some(p) => {
                assert(p != 0);
                if p + HEADER_SIZE > acc.len() {
                } else {
                    let len2 = u16_of_le(acc[p + 7], acc[p + 8]) as int;
                    if len2 > MAX_PAYLOAD_SIZE {
                    } else if p + HEADER_SIZE + len2 + 1 > acc.len() {
                    } else {
                        let r = frame_at(acc, p);
                        assert(r.length == len2);
                        assert(len2 <= n - HEADER_SIZE - 1 - p);
                        assert(len2 < l);
                        assert(f.length == l);
                        assert(r.length != f.length);
                    }
                }
            },
        }
    } else {
        assert(sync_at(acc, 0));
        assert(find_sync_from(acc, 0) == Some(0int));
        if i == 7 || i == 8 {
            // the declared length changed: too long, incomplete, or a
            // strictly shorter frame than the original
            let len2 = u16_of_le(acc[7], acc[8]) as int;
            assert(len2 != l) by {
                if u16_of_le(acc[7], acc[8]) == u16_of_le(b[7], b[8]) {
                    lemma_u16_of_le_injective(acc[7], acc[8], b[7], b[8]);
                }
                lemma_u16_le_round(f.length);
            }
            if len2 > MAX_PAYLOAD_SIZE {
            } else if HEADER_SIZE + len2 + 1 > acc.len() {
            } else {
                let r = frame_at(acc, 0);
                assert(r.length == len2);
                assert(len2 < l);
                assert(f.length == l);
                assert(r.length != f.length);
            }
        } else {
            // length unchanged; the whole corrupted span is checked and the
            // checksum refuses it
            assert(acc[7] == b[7] && acc[8] == b[8]);
            lemma_u16_le_round(f.length);
            let len2 = u16_of_le(acc[7], acc[8]) as int;
            assert(len2 == l);
            assert(HEADER_SIZE + len2 + 1 == acc.len());
            let r = frame_at(acc, 0);
            lemma_frame_region(acc, 0);
            let s0 = b.take(HEADER_SIZE + l);
            let s1 = acc.subrange(0, HEADER_SIZE + len2);
            assert(s0 == checksum_bytes(f.sync_word, f.counter, f.opcode, f.length, f.payload));
            assert(f.checksum == (byte_sum(s0) % 256) as u8);
            lemma_byte_sum_nonneg(s0);
            if i == HEADER_SIZE + l {
                // only the trailing checksum byte changed
                assert(s1 =~= s0);
                assert(r.checksum == v);
                assert(spec_checksum(r.sync_word, r.counter, r.opcode, r.length, r.payload)
                    == f.checksum);
                assert(f.checksum == b[HEADER_SIZE + l]);
                assert(!r.checksum_ok());
            } else {
                // a covered byte changed: the byte sum moved, the trailer did not
                assert(s1 =~= s0.update(i, v));
                lemma_byte_sum_update(s0, i, v);
                assert(s0[i] == b[i]);
                lemma_mod_shift_nonzero(byte_sum(s0), v - b[i]);
                assert(r.checksum == acc[HEADER_SIZE + l] == b[HEADER_SIZE + l] == f.checksum);
                assert(spec_checksum(r.sync_word, r.counter, r.opcode, r.length, r.payload) == (
                byte_sum(s1) % 256) as u8);
                assert(byte_sum(s1) == byte_sum(s0) + (v - b[i]));
                assert((byte_sum(s0) + (v - b[i])) % 256 != byte_sum(s0) % 256);
                assert(!r.checksum_ok());
            }
        }
    }
}

} // verus!
