//! The SwordFish frame codec: the on-wire frame type, its checksum and
//! serialization, and the incremental decoder that assembles frames out of
//! arbitrary byte chunks, resynchronizing past garbage and corruption.
use vstd::prelude::*;
use vstd::arithmetic::div_mod::lemma_add_mod_noop;
use vstd::arithmetic::div_mod::lemma_small_mod;

verus! {

/// Largest payload a frame may carry.
pub const MAX_PAYLOAD_SIZE: usize = 245;

/// Largest on-wire frame: 9 header bytes, the payload, 1 checksum byte.
pub const TOTAL_MESSAGE_SIZE: usize = 255;

/// Sync word (4 bytes), counter (2), opcode (1), payload length (2).
pub const HEADER_SIZE: usize = 9;

/// The sync word of host-to-peer frames, as the little-endian value of its
/// four wire bytes `0xde 0xad 0xbe 0xef`.
pub const SYNC_WORD_TO_SWORDFISH_U32: u32 = 0xefbeadde;

/// The little-endian bytes of a 16-bit field as they stand on the wire.
pub open spec fn u16_le_bytes(x: u16) -> Seq<u8> {
    seq![(x & 0xff) as u8, ((x >> 8) & 0xff) as u8]
}

/// The 16-bit value of two little-endian wire bytes.
pub open spec fn u16_of_le(b0: u8, b1: u8) -> u16 {
    (b0 as u16) | ((b1 as u16) << 8)
}

/// The little-endian bytes of a 32-bit field as they stand on the wire.
pub open spec fn u32_le_bytes(x: u32) -> Seq<u8> {
    seq![
        (x & 0xff) as u8,
        ((x >> 8) & 0xff) as u8,
        ((x >> 16) & 0xff) as u8,
        ((x >> 24) & 0xff) as u8,
    ]
}

/// The 32-bit value of four little-endian wire bytes.
pub open spec fn u32_of_le(b0: u8, b1: u8, b2: u8, b3: u8) -> u32 {
    (b0 as u32) | ((b1 as u32) << 8) | ((b2 as u32) << 16) | ((b3 as u32) << 24)
}

pub proof fn lemma_u16_le_round(x: u16)
    ensures
        u16_of_le(u16_le_bytes(x)[0], u16_le_bytes(x)[1]) == x,
{
    assert(((x & 0xff) as u8 as u16) | (((x >> 8) & 0xff) as u8 as u16) << 8 == x)
        by (bit_vector);
}

pub proof fn lemma_u16_le_bytes_of(b0: u8, b1: u8)
    ensures
        u16_le_bytes(u16_of_le(b0, b1)) == seq![b0, b1],
{
    let x = u16_of_le(b0, b1);
    assert((((b0 as u16) | ((b1 as u16) << 8)) & 0xff) as u8 == b0) by (bit_vector);
    assert(((((b0 as u16) | ((b1 as u16) << 8)) >> 8) & 0xff) as u8 == b1) by (bit_vector);
    assert(u16_le_bytes(x) =~= seq![b0, b1]);
}

pub proof fn lemma_u32_le_round(x: u32)
    ensures
        u32_of_le(u32_le_bytes(x)[0], u32_le_bytes(x)[1], u32_le_bytes(x)[2], u32_le_bytes(x)[3])
            == x,
{
    assert(((x & 0xff) as u8 as u32) | (((x >> 8) & 0xff) as u8 as u32) << 8
        | (((x >> 16) & 0xff) as u8 as u32) << 16 | (((x >> 24) & 0xff) as u8 as u32) << 24
        == x) by (bit_vector);
}

pub proof fn lemma_u32_le_bytes_of(b0: u8, b1: u8, b2: u8, b3: u8)
    ensures
        u32_le_bytes(u32_of_le(b0, b1, b2, b3)) == seq![b0, b1, b2, b3],
{
    let x = u32_of_le(b0, b1, b2, b3);
    assert((((b0 as u32) | ((b1 as u32) << 8) | ((b2 as u32) << 16) | ((b3 as u32) << 24)) & 0xff)
        as u8 == b0) by (bit_vector);
    assert(((((b0 as u32) | ((b1 as u32) << 8) | ((b2 as u32) << 16) | ((b3 as u32) << 24)) >> 8)
        & 0xff) as u8 == b1) by (bit_vector);
    assert(((((b0 as u32) | ((b1 as u32) << 8) | ((b2 as u32) << 16) | ((b3 as u32) << 24)) >> 16)
        & 0xff) as u8 == b2) by (bit_vector);
    assert(((((b0 as u32) | ((b1 as u32) << 8) | ((b2 as u32) << 16) | ((b3 as u32) << 24)) >> 24)
        & 0xff) as u8 == b3) by (bit_vector);
    assert(u32_le_bytes(x) =~= seq![b0, b1, b2, b3]);
}

/// The plain sum of a sequence of bytes.
pub open spec fn byte_sum(s: Seq<u8>) -> int
    decreases s.len(),
{
    if s.len() == 0 {
        0
    } else {
        byte_sum(s.drop_last()) + s.last()
    }
}

pub proof fn lemma_byte_sum_nonneg(s: Seq<u8>)
    ensures
        0 <= byte_sum(s),
    decreases s.len(),
{
    if s.len() > 0 {
        lemma_byte_sum_nonneg(s.drop_last());
    }
}

pub proof fn lemma_byte_sum_update(s: Seq<u8>, i: int, v: u8)
    requires
        0 <= i < s.len(),
    ensures
        byte_sum(s.update(i, v)) == byte_sum(s) - s[i] + v,
    decreases s.len(),
{
    if i == s.len() - 1 {
        assert(s.update(i, v).drop_last() =~= s.drop_last());
        assert(s.update(i, v).last() == v);
    } else {
        lemma_byte_sum_update(s.drop_last(), i, v);
        assert(s.update(i, v).drop_last() =~= s.drop_last().update(i, v));
        assert(s.update(i, v).last() == s.last());
    }
}

/// Two little-endian bytes determine their 16-bit value and conversely.
pub proof fn lemma_u16_of_le_injective(a0: u8, a1: u8, b0: u8, b1: u8)
    requires
        u16_of_le(a0, a1) == u16_of_le(b0, b1),
    ensures
        a0 == b0 && a1 == b1,
{
    assert((a0 as u16) | ((a1 as u16) << 8) == (b0 as u16) | ((b1 as u16) << 8) ==> a0 == b0
        && a1 == b1) by (bit_vector);
}

pub proof fn lemma_byte_sum_take_succ(s: Seq<u8>, i: int)
    requires
        0 <= i < s.len(),
    ensures
        byte_sum(s.take(i + 1)) == byte_sum(s.take(i)) + s[i],
{
    assert(s.take(i + 1).drop_last() =~= s.take(i));
    assert(s.take(i + 1).last() == s[i]);
}

/// Every byte the checksum covers, in wire order: the sync word, the counter,
/// the opcode, the payload length, and the payload itself.
pub open spec fn checksum_bytes(
    sync_word: u32,
    counter: u16,
    opcode: u8,
    length: u16,
    payload: Seq<u8>,
) -> Seq<u8> {
    u32_le_bytes(sync_word) + u16_le_bytes(counter) + seq![opcode] + u16_le_bytes(length) + payload
}

/// The frame checksum: the 8-bit wraparound sum of every covered byte.
pub open spec fn spec_checksum(
    sync_word: u32,
    counter: u16,
    opcode: u8,
    length: u16,
    payload: Seq<u8>,
) -> u8 {
    (byte_sum(checksum_bytes(sync_word, counter, opcode, length, payload)) % 256) as u8
}

/// The mathematical image of a frame: what each field holds, with the payload
/// as a byte sequence.
#[verifier::ext_equal]
pub struct SwordFishFrameView {
    pub sync_word: u32,
    pub counter: u16,
    pub opcode: u8,
    pub length: u16,
    pub payload: Seq<u8>,
    pub checksum: u8,
}

impl SwordFishFrameView {
    /// Structural validity: the length field counts exactly the payload bytes,
    /// and the payload fits the wire format.
    pub open spec fn wf(self) -> bool {
        &&& self.length == self.payload.len()
        &&& self.length <= MAX_PAYLOAD_SIZE
    }

    /// The trailing checksum byte matches the sum of the covered bytes.
    pub open spec fn checksum_ok(self) -> bool {
        self.checksum == spec_checksum(
            self.sync_word,
            self.counter,
            self.opcode,
            self.length,
            self.payload,
        )
    }

    /// The exact bytes of this frame on the wire.
    pub open spec fn wire(self) -> Seq<u8> {
        checksum_bytes(self.sync_word, self.counter, self.opcode, self.length, self.payload).push(
            self.checksum,
        )
    }
}

/// One complete on-wire protocol unit: header, payload and checksum.
#[derive(Debug, Clone)]
pub struct SwordFishConcentratedMessage {
    pub sync_word: u32,
    pub counter: u16,
    pub opcode: u8,
    pub length: u16,
    pub payload: Vec<u8>,
    pub checksum: u8,
}

impl View for SwordFishConcentratedMessage {
    type V = SwordFishFrameView;

    open spec fn view(&self) -> SwordFishFrameView {
        SwordFishFrameView {
            sync_word: self.sync_word,
            counter: self.counter,
            opcode: self.opcode,
            length: self.length,
            payload: self.payload@,
            checksum: self.checksum,
        }
    }
}

impl SwordFishConcentratedMessage {
    /// Build a host-to-peer frame around the given payload: the fixed sync
    /// word, the caller's counter, the payload's exact length, and the
    /// checksum over all of them.
    pub fn new(counter: u16, opcode: u8, payload: &[u8]) -> (r: Self)
        requires
            payload@.len() <= MAX_PAYLOAD_SIZE,
        ensures
            r@ == (SwordFishFrameView {
                sync_word: SYNC_WORD_TO_SWORDFISH_U32,
                counter,
                opcode,
                length: payload@.len() as u16,
                payload: payload@,
                checksum: spec_checksum(
                    SYNC_WORD_TO_SWORDFISH_U32,
                    counter,
                    opcode,
                    payload@.len() as u16,
                    payload@,
                ),
            }),
            r@.wf(),
            r@.checksum_ok(),
    {
        let length = payload.len() as u16;
        let checksum = Self::calculate_checksum(
            SYNC_WORD_TO_SWORDFISH_U32,
            counter,
            opcode,
            length,
            payload,
        );
        let r = SwordFishConcentratedMessage {
            sync_word: SYNC_WORD_TO_SWORDFISH_U32,
            counter,
            opcode,
            length,
            payload: vstd::slice::slice_to_vec(payload),
            checksum,
        };
        assert(r@ =~= (SwordFishFrameView {
            sync_word: SYNC_WORD_TO_SWORDFISH_U32,
            counter,
            opcode,
            length: payload@.len() as u16,
            payload: payload@,
            checksum: spec_checksum(
                SYNC_WORD_TO_SWORDFISH_U32,
                counter,
                opcode,
                payload@.len() as u16,
                payload@,
            ),
        }));
        r
    }

    /// Build a host-to-peer frame, rejecting a payload longer than the wire
    /// format can carry instead of treating it as a caller's contract
    /// violation.
    pub fn try_new(counter: u16, opcode: u8, payload: &[u8]) -> (r: Option<Self>)
        ensures
            payload@.len() <= MAX_PAYLOAD_SIZE <==> r is Some,
            r matches Some(m) ==> m@ == (SwordFishFrameView {
                sync_word: SYNC_WORD_TO_SWORDFISH_U32,
                counter,
                opcode,
                length: payload@.len() as u16,
                payload: payload@,
                checksum: spec_checksum(
                    SYNC_WORD_TO_SWORDFISH_U32,
                    counter,
                    opcode,
                    payload@.len() as u16,
                    payload@,
                ),
            }) && m@.wf() && m@.checksum_ok(),
    {
        if payload.len() <= MAX_PAYLOAD_SIZE {
            Some(Self::new(counter, opcode, payload))
        } else {
            None
        }
    }

    /// The 8-bit wraparound sum of the opcode, both length bytes, both counter
    /// bytes, all four sync-word bytes, and every payload byte.
    fn calculate_checksum(
        sync_word: u32,
        counter: u16,
        opcode: u8,
        length: u16,
        payload: &[u8],
    ) -> (r: u8)
        ensures
            r == spec_checksum(sync_word, counter, opcode, length, payload@),
    {
        let mut covered: Vec<u8> = Vec::new();
        covered.push((sync_word & 0xff) as u8);
        covered.push(((sync_word >> 8) & 0xff) as u8);
        covered.push(((sync_word >> 16) & 0xff) as u8);
        covered.push(((sync_word >> 24) & 0xff) as u8);
        covered.push((counter & 0xff) as u8);
        covered.push(((counter >> 8) & 0xff) as u8);
        covered.push(opcode);
        covered.push((length & 0xff) as u8);
        covered.push(((length >> 8) & 0xff) as u8);
        let ghost head: Seq<u8> = u32_le_bytes(sync_word) + u16_le_bytes(counter) + seq![opcode]
            + u16_le_bytes(length);
        assert(covered@ =~= head + payload@.take(0));
        let mut i: usize = 0;
        while i < payload.len()
            invariant
                i <= payload@.len(),
                covered@ == head + payload@.take(i as int),
            decreases payload@.len() - i,
        {
            covered.push(payload[i]);
            assert(covered@ =~= head + payload@.take(i as int + 1));
            i = i + 1;
        }
        assert(payload@.take(payload@.len() as int) =~= payload@);
        assert(covered@ == checksum_bytes(sync_word, counter, opcode, length, payload@));
        let mut checksum: u8 = 0;
        let mut j: usize = 0;
        assert(covered@.take(0) =~= Seq::<u8>::empty());
        while j < covered.len()
            invariant
                j <= covered@.len(),
                covered@ == checksum_bytes(sync_word, counter, opcode, length, payload@),
                checksum == byte_sum(covered@.take(j as int)) % 256,
            decreases covered@.len() - j,
        {
            proof {
                lemma_byte_sum_take_succ(covered@, j as int);
                lemma_byte_sum_nonneg(covered@.take(j as int));
                lemma_wrapping_step(
                    byte_sum(covered@.take(j as int)),
                    checksum,
                    covered@[j as int],
                );
            }
            checksum = checksum.wrapping_add(covered[j]);
            j = j + 1;
        }
        assert(covered@.take(covered@.len() as int) =~= covered@);
        checksum
    }

    /// Serialize this frame to its exact wire bytes: header, payload,
    /// trailing checksum, and nothing more.
    pub fn into_bytes(self) -> (r: Vec<u8>)
        requires
            self@.wf(),
        ensures
            r@ == self@.wire(),
            r@.len() == HEADER_SIZE + self@.payload.len() + 1,
    {
        let mut buffer: Vec<u8> = Vec::new();
        buffer.push((self.sync_word & 0xff) as u8);
        buffer.push(((self.sync_word >> 8) & 0xff) as u8);
        buffer.push(((self.sync_word >> 16) & 0xff) as u8);
        buffer.push(((self.sync_word >> 24) & 0xff) as u8);
        buffer.push((self.counter & 0xff) as u8);
        buffer.push(((self.counter >> 8) & 0xff) as u8);
        buffer.push(self.opcode);
        buffer.push((self.length & 0xff) as u8);
        buffer.push(((self.length >> 8) & 0xff) as u8);
        let mut i: usize = 0;
        while i < self.payload.len()
            invariant
                i <= self.payload@.len(),
                buffer@ == (u32_le_bytes(self.sync_word) + u16_le_bytes(self.counter)
                    + seq![self.opcode] + u16_le_bytes(self.length) + self.payload@.take(i as int)),
            decreases self.payload@.len() - i,
        {
            buffer.push(self.payload[i]);
            assert(buffer@ =~= (u32_le_bytes(self.sync_word) + u16_le_bytes(self.counter)
                + seq![self.opcode] + u16_le_bytes(self.length) + self.payload@.take(
                i as int + 1,
            )));
            i = i + 1;
        }
        assert(self.payload@.take(self.payload@.len() as int) =~= self.payload@);
        buffer.push(self.checksum);
        assert(buffer@ =~= self@.wire());
        buffer
    }
}

impl Default for SwordFishConcentratedMessage {
    /// The all-zero frame: no sync word, no payload, no checksum.
    fn default() -> (r: Self)
        ensures
            r@ == (SwordFishFrameView {
                sync_word: 0,
                counter: 0,
                opcode: 0,
                length: 0,
                payload: Seq::<u8>::empty(),
                checksum: 0,
            }),
            r@.wf(),
    {
        let r = SwordFishConcentratedMessage {
            sync_word: 0,
            counter: 0,
            opcode: 0,
            length: 0,
            payload: Vec::new(),
            checksum: 0,
        };
        assert(r@ =~= (SwordFishFrameView {
            sync_word: 0,
            counter: 0,
            opcode: 0,
            length: 0,
            payload: Seq::<u8>::empty(),
            checksum: 0,
        }));
        r
    }
}

impl PartialEq for SwordFishConcentratedMessage {
    fn eq(&self, other: &SwordFishConcentratedMessage) -> (r: bool) {
        let scalars_eq = self.sync_word == other.sync_word && self.counter == other.counter
            && self.opcode == other.opcode && self.length == other.length && self.checksum
            == other.checksum;
        let payload_eq = self.payload == other.payload;
        proof {
            if self.payload@.len() == other.payload@.len() && (forall|i: int|
                0 <= i < self.payload@.len() ==> self.payload@[i] == other.payload@[i]) {
                assert(self.payload@ =~= other.payload@);
            }
        }
        scalars_eq && payload_eq
    }
}

impl vstd::std_specs::cmp::PartialEqSpecImpl for SwordFishConcentratedMessage {
    open spec fn obeys_eq_spec() -> bool {
        true
    }

    open spec fn eq_spec(&self, other: &SwordFishConcentratedMessage) -> bool {
        self@ == other@
    }
}

/// True when the peer-to-host sync pattern `de ad be ef` stands at `p`.
pub open spec fn sync_at(b: Seq<u8>, p: int) -> bool {
    &&& 0 <= p
    &&& p + 4 <= b.len()
    &&& b[p] == 0xde
    &&& b[p + 1] == 0xad
    &&& b[p + 2] == 0xbe
    &&& b[p + 3] == 0xef
}

/// The first position at or after `i` where the sync pattern stands.
pub open spec fn find_sync_from(b: Seq<u8>, i: int) -> Option<int>
    decreases b.len() - i,
{
    if i + 4 > b.len() {
        None
    } else if sync_at(b, i) {
        Some(i)
    } else {
        find_sync_from(b, i + 1)
    }
}

/// `find_sync_from` yields the first sync position, or reports that none
/// stands anywhere at or after `i`.
pub proof fn lemma_find_sync_from(b: Seq<u8>, i: int)
    requires
        0 <= i,
    ensures
        match find_sync_from(b, i) {
            Some(p) => i <= p && sync_at(b, p) && forall|q: int| i <= q < p ==> !sync_at(b, q),
            None => forall|q: int| i <= q ==> !sync_at(b, q),
        },
    decreases b.len() - i,
{
    if i + 4 > b.len() {
    } else if sync_at(b, i) {
    } else {
        lemma_find_sync_from(b, i + 1);
    }
}

/// The frame whose wire bytes stand at `p` in `acc`, fields read off the wire.
pub open spec fn frame_at(acc: Seq<u8>, p: int) -> SwordFishFrameView {
    let len = u16_of_le(acc[p + 7], acc[p + 8]) as int;
    SwordFishFrameView {
        sync_word: u32_of_le(acc[p], acc[p + 1], acc[p + 2], acc[p + 3]),
        counter: u16_of_le(acc[p + 4], acc[p + 5]),
        opcode: acc[p + 6],
        length: u16_of_le(acc[p + 7], acc[p + 8]),
        payload: acc.subrange(p + HEADER_SIZE, p + HEADER_SIZE + len),
        checksum: acc[p + HEADER_SIZE + len],
    }
}

/// What one decoding attempt over the accumulated bytes `acc` yields, and
/// what remains accumulated afterwards.
///
/// The decoder searches for the first sync pattern. Without one it keeps the
/// bytes, except that once two full frame sizes have piled up it drops the
/// oldest frame-size worth so garbage cannot grow without bound. At a sync
/// position it reads the declared length; an over-long declaration, an
/// incomplete frame or a checksum mismatch yields nothing and consumes
/// nothing. A verified frame is returned and everything up to its end is
/// consumed.
pub open spec fn decode_step(acc: Seq<u8>) -> (Option<SwordFishFrameView>, Seq<u8>) {
    match find_sync_from(acc, 0) {
        None => (
            None,
            if acc.len() >= 2 * TOTAL_MESSAGE_SIZE {
                acc.subrange(TOTAL_MESSAGE_SIZE as int, acc.len() as int)
            } else {
                acc
            },
        ),
        Some(p) => {
            if p + HEADER_SIZE > acc.len() {
                (None, acc)
            } else {
                let len = u16_of_le(acc[p + 7], acc[p + 8]) as int;
                if len > MAX_PAYLOAD_SIZE {
                    (None, acc)
                } else if p + HEADER_SIZE + len + 1 > acc.len() {
                    (None, acc)
                } else {
                    let f = frame_at(acc, p);
                    if f.checksum_ok() {
                        (Some(f), acc.subrange(p + HEADER_SIZE + len + 1, acc.len() as int))
                    } else {
                        (None, acc)
                    }
                }
            }
        },
    }
}

/// The incremental decoder: accumulates incoming chunks and extracts at most
/// one verified frame per call, resynchronizing past garbage.
pub struct SwordFishConcentratedMessageBufferBuilder {
    accumulated_buffer: Vec<u8>,
}

impl View for SwordFishConcentratedMessageBufferBuilder {
    type V = Seq<u8>;

    closed spec fn view(&self) -> Seq<u8> {
        self.accumulated_buffer@
    }
}

impl SwordFishConcentratedMessageBufferBuilder {
    /// A decoder with nothing accumulated yet.
    pub fn new() -> (r: Self)
        ensures
            r@ == Seq::<u8>::empty(),
    {
        SwordFishConcentratedMessageBufferBuilder { accumulated_buffer: Vec::new() }
    }

    /// How many bytes are accumulated and not yet consumed; a caller checks
    /// this against the capacity of three full frame sizes before appending.
    pub fn accumulated_len(&self) -> (r: usize)
        ensures
            r == self@.len(),
    {
        self.accumulated_buffer.len()
    }

    /// Append one incoming chunk and attempt to extract a frame, exactly as
    /// [`decode_step`] describes over the concatenation of what was already
    /// accumulated and the chunk.
    ///
    /// The accumulation capacity is three full frame sizes; keeping a chunk
    /// within it is the caller's contract.
    #[verifier::rlimit(100)]
    pub fn append_buffer(&mut self, buffer: &[u8]) -> (r: Option<SwordFishConcentratedMessage>)
        requires
            old(self)@.len() + buffer@.len() <= 3 * TOTAL_MESSAGE_SIZE,
        ensures
            final(self)@ == decode_step(old(self)@ + buffer@).1,
            match r {
                Some(m) => decode_step(old(self)@ + buffer@).0 == Some(m@) && m@.wf(),
                None => decode_step(old(self)@ + buffer@).0 is None,
            },
    {
        let ghost acc: Seq<u8> = old(self)@ + buffer@;
        let mut i: usize = 0;
        assert(self.accumulated_buffer@ =~= old(self)@ + buffer@.take(0));
        while i < buffer.len()
            invariant
                i <= buffer@.len(),
                self.accumulated_buffer@ == old(self)@ + buffer@.take(i as int),
            decreases buffer@.len() - i,
        {
            self.accumulated_buffer.push(buffer[i]);
            assert(self.accumulated_buffer@ =~= old(self)@ + buffer@.take(i as int + 1));
            i = i + 1;
        }
        assert(buffer@.take(buffer@.len() as int) =~= buffer@);
        let n = self.accumulated_buffer.len();
        let mut sync_pos: Option<usize> = None;
        let mut p: usize = 0;
        while sync_pos.is_none() && p + 4 <= n
            invariant
                self.accumulated_buffer@ == acc,
                n == acc.len(),
                n <= 3 * TOTAL_MESSAGE_SIZE,
                p <= n,
                match sync_pos {
                    Some(s) => s == p && sync_at(acc, s as int) && (forall|q: int|
                        0 <= q < s ==> !sync_at(acc, q)),
                    None => forall|q: int| 0 <= q < p ==> !sync_at(acc, q),
                },
            decreases n - p, (if sync_pos is None { 1int } else { 0int }),
        {
            if self.accumulated_buffer[p] == 0xde && self.accumulated_buffer[p + 1] == 0xad
                && self.accumulated_buffer[p + 2] == 0xbe && self.accumulated_buffer[p + 3]
                == 0xef {
                sync_pos = Some(p);
            } else {
                assert(!sync_at(acc, p as int));
                p = p + 1;
            }
        }
        proof {
            lemma_find_sync_from(acc, 0);
        }
        match sync_pos {
            None => {
                assert(forall|q: int| 0 <= q ==> !sync_at(acc, q));
                assert(find_sync_from(acc, 0) is None);
                if n >= 2 * TOTAL_MESSAGE_SIZE {
                    let mut rest: Vec<u8> = Vec::new();
                    let mut k: usize = TOTAL_MESSAGE_SIZE;
                    assert(rest@ =~= acc.subrange(TOTAL_MESSAGE_SIZE as int, k as int));
                    while k < n
                        invariant
                            TOTAL_MESSAGE_SIZE <= k <= n,
                            n == acc.len(),
                            self.accumulated_buffer@ == acc,
                            rest@ == acc.subrange(TOTAL_MESSAGE_SIZE as int, k as int),
                        decreases n - k,
                    {
                        rest.push(self.accumulated_buffer[k]);
                        assert(rest@ =~= acc.subrange(TOTAL_MESSAGE_SIZE as int, k as int + 1));
                        k = k + 1;
                    }
                    self.accumulated_buffer = rest;
                }
                None
            },
            Some(start_pos) => {
                assert(find_sync_from(acc, 0) == Some(start_pos as int)) by {
                    if find_sync_from(acc, 0) is None {
                        assert(!sync_at(acc, start_pos as int));
                    }
                }
                if start_pos + HEADER_SIZE > n {
                    return None;
                }
                let len_low = self.accumulated_buffer[start_pos + 7];
                let len_high = self.accumulated_buffer[start_pos + 8];
                let payload_length: u16 = (len_low as u16) | ((len_high as u16) << 8);
                assert(payload_length == u16_of_le(acc[start_pos as int + 7], acc[start_pos as int
                    + 8]));
                if payload_length as usize > MAX_PAYLOAD_SIZE {
                    return None;
                }
                let msg_len = HEADER_SIZE + payload_length as usize + 1;
                if start_pos + msg_len > n {
                    return None;
                }
                let msg_end = start_pos + msg_len;
                let sync_word: u32 = (self.accumulated_buffer[start_pos] as u32) | ((
                self.accumulated_buffer[start_pos + 1] as u32) << 8) | ((
                self.accumulated_buffer[start_pos + 2] as u32) << 16) | ((
                self.accumulated_buffer[start_pos + 3] as u32) << 24);
                let counter: u16 = (self.accumulated_buffer[start_pos + 4] as u16) | ((
                self.accumulated_buffer[start_pos + 5] as u16) << 8);
                let opcode = self.accumulated_buffer[start_pos + 6];
                let mut payload: Vec<u8> = Vec::new();
                let mut j: usize = 0;
                assert(payload@ =~= acc.subrange(
                    start_pos as int + HEADER_SIZE,
                    start_pos as int + HEADER_SIZE + j as int,
                ));
                while j < payload_length as usize
                    invariant
                        j <= payload_length as usize,
                        start_pos + HEADER_SIZE + payload_length as usize + 1 <= n,
                        n == acc.len(),
                        self.accumulated_buffer@ == acc,
                        payload@ == acc.subrange(
                            start_pos as int + HEADER_SIZE,
                            start_pos as int + HEADER_SIZE + j as int,
                        ),
                    decreases payload_length as usize - j,
                {
                    payload.push(self.accumulated_buffer[start_pos + HEADER_SIZE + j]);
                    assert(payload@ =~= acc.subrange(
                        start_pos as int + HEADER_SIZE,
                        start_pos as int + HEADER_SIZE + j as int + 1,
                    ));
                    j = j + 1;
                }
                let checksum = self.accumulated_buffer[msg_end - 1];
                let calc_checksum = SwordFishConcentratedMessage::calculate_checksum(
                    sync_word,
                    counter,
                    opcode,
                    payload_length,
                    payload.as_slice(),
                );
                let ghost f = frame_at(acc, start_pos as int);
                assert(f.sync_word == sync_word && f.counter == counter && f.opcode == opcode
                    && f.length == payload_length && f.payload == payload@ && f.checksum
                    == checksum);
                if calc_checksum == checksum {
                    assert(f.checksum_ok());
                    let mut rest: Vec<u8> = Vec::new();
                    let mut k: usize = msg_end;
                    assert(rest@ =~= acc.subrange(msg_end as int, k as int));
                    while k < n
                        invariant
                            msg_end <= k <= n,
                            n == acc.len(),
                            self.accumulated_buffer@ == acc,
                            rest@ == acc.subrange(msg_end as int, k as int),
                        decreases n - k,
                    {
                        rest.push(self.accumulated_buffer[k]);
                        assert(rest@ =~= acc.subrange(msg_end as int, k as int + 1));
                        k = k + 1;
                    }
                    self.accumulated_buffer = rest;
                    let m = SwordFishConcentratedMessage {
                        sync_word,
                        counter,
                        opcode,
                        length: payload_length,
                        payload,
                        checksum,
                    };
                    assert(m@ =~= f);
                    Some(m)
                } else {
                    assert(!f.checksum_ok());
                    None
                }
            },
        }
    }
}

/// One wraparound addition keeps the running sum congruent modulo 256.
proof fn lemma_wrapping_step(total: int, partial: u8, b: u8)
    requires
        0 <= total,
        partial == total % 256,
    ensures
        partial + b > 255 ==> partial + b - 256 == (total + b) % 256,
        partial + b <= 255 ==> partial + b == (total + b) % 256,
{
    lemma_add_mod_noop(total, b as int, 256);
    lemma_small_mod(b as nat, 256);
    if partial + b > 255 {
        vstd::arithmetic::div_mod::lemma_mod_sub_multiples_vanish(partial + b, 256);
        lemma_small_mod((partial + b - 256) as nat, 256);
    } else {
        lemma_small_mod((partial + b) as nat, 256);
    }
}

} // verus!
