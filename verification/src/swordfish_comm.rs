//! The transport engine's decision core.
//!
//! A session's background loop multiplexes one write attempt and one read
//! attempt per iteration over the serial link, feeds incoming bytes to the
//! frame codec, dispatches completed frames into the per-opcode buckets, and
//! lets blocking senders know which bucket to wait on. Everything the loop
//! and the senders decide is here, as a state machine over plain values; the
//! port, the thread and the wait primitives around it perform what this core
//! decides.
use vstd::prelude::*;
use std::collections::HashMap;
use crate::SwordFishMessageBucket;
use crate::SwordFishMessageCategory;
use crate::SwordFishMessageTrait;
use crate::response_opcode;
use crate::spec_response_opcode;
use crate::swordfish_concentrated_message::SwordFishConcentratedMessage;
use crate::swordfish_concentrated_message::SwordFishConcentratedMessageBufferBuilder;
use crate::swordfish_concentrated_message::TOTAL_MESSAGE_SIZE;
use crate::swordfish_concentrated_message::decode_step;
use crate::swordfish_messages::Ping;
use crate::swordfish_messages::VersionData;
use crate::swordfish_messages::create_swordfish_messages_hashmap;

verus! {

broadcast use vstd::std_specs::hash::group_hash_axioms;

/// How long a sender that is owed a reply waits on the reply's bucket before
/// giving up with an absence, in milliseconds.
pub const SEND_RESPONSE_TIMEOUT_MS: u64 = 200;

/// How an attempt on the physical link ended, as the transport reports it.
#[derive(Debug, Clone, Copy, PartialEq, Eq)]
pub enum SwordFishLinkFault {
    /// Nothing was available right now; the loop just goes on.
    TimedOut,
    /// The link is gone for good; the loop must stop.
    BrokenLink,
    /// Any other reported condition; logged by the transport, then ignored.
    Other,
}

/// A counter incremented with wraparound.
pub open spec fn wrapping_inc(c: usize) -> usize {
    if c < usize::MAX {
        (c + 1) as usize
    } else {
        0
    }
}

/// The state a session's engine carries: whether the background loop should
/// keep running, the transmit and receive counters, the incremental frame
/// decoder, and the registry of per-opcode buckets.
pub struct SwordFishCommCore {
    pub alive: bool,
    pub tx_counter: usize,
    pub rx_counter: usize,
    pub rx_builder: SwordFishConcentratedMessageBufferBuilder,
    pub buckets: HashMap<u8, SwordFishMessageBucket>,
}

impl SwordFishCommCore {
    /// A fresh engine: running, zero counters, an empty decoder, and the
    /// registry built from the message catalog.
    pub fn new() -> (r: Self)
        ensures
            r.alive,
            r.tx_counter == 0,
            r.rx_counter == 0,
            r.rx_builder@ == Seq::<u8>::empty(),
            r.buckets@.dom() == set![Ping::spec_opcode(), VersionData::spec_opcode()],
            r.buckets@[Ping::spec_opcode()].category == Ping::spec_category(),
            r.buckets@[Ping::spec_opcode()].message is None,
            r.buckets@[VersionData::spec_opcode()].category == VersionData::spec_category(),
            r.buckets@[VersionData::spec_opcode()].message is None,
    {
        SwordFishCommCore {
            alive: true,
            tx_counter: 0,
            rx_counter: 0,
            rx_builder: SwordFishConcentratedMessageBufferBuilder::new(),
            buckets: create_swordfish_messages_hashmap(),
        }
    }

    pub fn is_alive(&self) -> (r: bool)
        ensures
            r == self.alive,
    {
        self.alive
    }

    pub fn get_tx_counter(&self) -> (r: usize)
        ensures
            r == self.tx_counter,
    {
        self.tx_counter
    }

    pub fn get_rx_counter(&self) -> (r: usize)
        ensures
            r == self.rx_counter,
    {
        self.rx_counter
    }

    /// Tell the background loop to stop.
    pub fn stop(&mut self)
        ensures
            !final(self).alive,
            final(self).tx_counter == old(self).tx_counter,
            final(self).rx_counter == old(self).rx_counter,
            final(self).rx_builder@ == old(self).rx_builder@,
            final(self).buckets@ == old(self).buckets@,
    {
        self.alive = false;
    }

    /// One outbound frame was written and flushed: count it.
    pub fn record_transmit(&mut self)
        ensures
            final(self).tx_counter == wrapping_inc(old(self).tx_counter),
            final(self).alive == old(self).alive,
            final(self).rx_counter == old(self).rx_counter,
            final(self).rx_builder@ == old(self).rx_builder@,
            final(self).buckets@ == old(self).buckets@,
    {
        self.tx_counter = self.tx_counter.wrapping_add(1);
    }

    /// React to a link fault from either direction: a broken link stops the
    /// loop, a timeout or any other condition changes nothing.
    pub fn on_link_fault(&mut self, fault: SwordFishLinkFault)
        ensures
            final(self).alive == (old(self).alive && fault != SwordFishLinkFault::BrokenLink),
            final(self).tx_counter == old(self).tx_counter,
            final(self).rx_counter == old(self).rx_counter,
            final(self).rx_builder@ == old(self).rx_builder@,
            final(self).buckets@ == old(self).buckets@,
    {
        match fault {
            SwordFishLinkFault::BrokenLink => {
                self.alive = false;
            },
            SwordFishLinkFault::TimedOut => {},
            SwordFishLinkFault::Other => {},
        }
    }

    /// How many undecoded bytes the frame decoder holds; the transport
    /// checks this against the capacity before feeding another chunk.
    pub fn rx_pending_len(&self) -> (r: usize)
        ensures
            r == self.rx_builder@.len(),
    {
        self.rx_builder.accumulated_len()
    }

    /// Feed one chunk read from the link to the frame decoder; a completed,
    /// checksum-verified frame comes back and is counted.
    ///
    /// The decoder accumulates at most three full frame sizes; keeping each
    /// chunk within what remains is the transport's contract.
    pub fn feed_bytes(&mut self, chunk: &[u8]) -> (r: Option<SwordFishConcentratedMessage>)
        requires
            old(self).rx_builder@.len() + chunk@.len() <= 3 * TOTAL_MESSAGE_SIZE,
        ensures
            final(self).rx_builder@ == decode_step(old(self).rx_builder@ + chunk@).1,
            match r {
                Some(m) => decode_step(old(self).rx_builder@ + chunk@).0 == Some(m@) && m@.wf()
                    && final(self).rx_counter == wrapping_inc(old(self).rx_counter),
                None => decode_step(old(self).rx_builder@ + chunk@).0 is None
                    && final(self).rx_counter == old(self).rx_counter,
            },
            final(self).alive == old(self).alive,
            final(self).tx_counter == old(self).tx_counter,
            final(self).buckets@ == old(self).buckets@,
    {
        let r = self.rx_builder.append_buffer(chunk);
        if r.is_some() {
            self.rx_counter = self.rx_counter.wrapping_add(1);
        }
        r
    }

    /// Dispatch a completed frame into the bucket of its own opcode,
    /// overwriting whatever undelivered frame sat there. Yields false when
    /// the opcode is not in the registry — a protocol inconsistency the
    /// transport treats as fatal.
    pub fn deliver(&mut self, msg: SwordFishConcentratedMessage) -> (known: bool)
        ensures
            known == old(self).buckets@.contains_key(msg.opcode),
            known ==> final(self).buckets@ == old(self).buckets@.insert(
                msg.opcode,
                (SwordFishMessageBucket {
                    message: Some(msg),
                    category: old(self).buckets@[msg.opcode].category,
                }),
            ),
            !known ==> final(self).buckets@ == old(self).buckets@,
            final(self).alive == old(self).alive,
            final(self).tx_counter == old(self).tx_counter,
            final(self).rx_counter == old(self).rx_counter,
            final(self).rx_builder@ == old(self).rx_builder@,
    {
        let opcode = msg.opcode;
        match self.buckets.remove(&opcode) {
            Some(mut bucket) => {
                bucket.store(msg);
                self.buckets.insert(opcode, bucket);
                assert(self.buckets@ =~= old(self).buckets@.insert(
                    opcode,
                    (SwordFishMessageBucket {
                        message: Some(msg),
                        category: old(self).buckets@[opcode].category,
                    }),
                ));
                true
            },
            None => {
                assert(self.buckets@ =~= old(self).buckets@);
                false
            },
        }
    }

    /// Take and clear whatever frame waits in the bucket of `opcode`; absent
    /// opcodes yield nothing and change nothing.
    pub fn take_message(&mut self, opcode: u8) -> (r: Option<SwordFishConcentratedMessage>)
        ensures
            old(self).buckets@.contains_key(opcode) ==> r == old(self).buckets@[opcode].message
                && final(self).buckets@ == old(self).buckets@.insert(
                opcode,
                (SwordFishMessageBucket {
                    message: None,
                    category: old(self).buckets@[opcode].category,
                }),
            ),
            !old(self).buckets@.contains_key(opcode) ==> r is None
                && final(self).buckets@ == old(self).buckets@,
            final(self).alive == old(self).alive,
            final(self).tx_counter == old(self).tx_counter,
            final(self).rx_counter == old(self).rx_counter,
            final(self).rx_builder@ == old(self).rx_builder@,
    {
        match self.buckets.remove(&opcode) {
            Some(mut bucket) => {
                let r = bucket.take();
                self.buckets.insert(opcode, bucket);
                assert(self.buckets@ =~= old(self).buckets@.insert(
                    opcode,
                    (SwordFishMessageBucket {
                        message: None,
                        category: old(self).buckets@[opcode].category,
                    }),
                ));
                r
            },
            None => {
                assert(self.buckets@ =~= old(self).buckets@);
                None
            },
        }
    }

    /// Where a caller that sends a frame under `opcode` must then wait:
    /// nowhere for a fire-and-forget category, on the category's response
    /// opcode otherwise. Yields nothing at all when the opcode is not in the
    /// registry — a fatal inconsistency for the transport to report.
    pub fn send_wait_opcode(&self, opcode: u8) -> (r: Option<Option<u8>>)
        ensures
            r is Some <==> self.buckets@.contains_key(opcode),
            self.buckets@.contains_key(opcode) ==> r == Some(
                spec_response_opcode(self.buckets@[opcode].category, opcode),
            ),
    {
        match self.buckets.get(&opcode) {
            Some(bucket) => Some(response_opcode(bucket.category, opcode)),
            None => None,
        }
    }
}

/// The process-wide session count: at most one session may be live at a
/// time, and a second request must fail without touching the first.
pub struct SwordFishInstanceCounter {
    pub live_sessions: usize,
}

impl SwordFishInstanceCounter {
    pub fn new() -> (r: Self)
        ensures
            r.live_sessions == 0,
    {
        SwordFishInstanceCounter { live_sessions: 0 }
    }

    /// Claim the one session slot: succeeds exactly when no session is live,
    /// and a refused claim leaves the counter — and so the live session —
    /// untouched.
    pub fn try_acquire(&mut self) -> (r: bool)
        ensures
            r == (old(self).live_sessions == 0),
            r ==> final(self).live_sessions == 1,
            !r ==> final(self).live_sessions == old(self).live_sessions,
    {
        if self.live_sessions > 0 {
            false
        } else {
            self.live_sessions = 1;
            true
        }
    }

    /// Give the session slot back when a session closes.
    pub fn release(&mut self)
        ensures
            final(self).live_sessions == (if old(self).live_sessions > 0 {
                (old(self).live_sessions - 1) as usize
            } else {
                0usize
            }),
    {
        if self.live_sessions > 0 {
            self.live_sessions = self.live_sessions - 1;
        }
    }
}

} // verus!
