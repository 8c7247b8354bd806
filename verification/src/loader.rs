//! The bootloader core as one unit: a frame codec feeding a dispatcher.
//! The surrounding program blocks on the transport, hands every received
//! byte to `feed_byte`, transmits the frame bytes it returns, and performs
//! the handoff when `pending_handoff` arms one. All decisions live here;
//! the loop outside only moves bytes.

use vstd::prelude::*;
use crate::codec::{
    CodecView, FeedOutcome, FrameCodec, FRAME_DELIMITER, all_pending, encode_body, encode_frame,
    feed_many, feed_next, feed_out, initial_codec, lemma_frame_round_trip,
};
use crate::dispatcher::{
    Dispatcher, DispatcherState, IndicatorState, step_memory, step_response, step_state,
};
use crate::memory::Memory;
use crate::schema::{
    HostMessageView, SchemaError, Target2HostMessage, deserialize_req_spec, deserialize_request,
    deserialize_resp_spec, lemma_request_round_trip, lemma_response_round_trip,
    lemma_serialized_request_len, req_wf, serialize_req_spec, serialize_resp_spec,
    serialize_response,
};
use crate::validator::MemoryRegion;

verus! {

/// Round trip of the whole receive path: feeding the encoded frame of any
/// wire-representable command into a fresh codec, one byte at a time,
/// reports nothing until the delimiter; the delimiter yields exactly the
/// command's serialized payload, and that payload decodes back to the
/// command itself.
pub proof fn lemma_message_round_trip(m: HostMessageView)
    requires
        req_wf(m),
    ensures
        ({
            let payload = serialize_req_spec(m);
            let body = encode_body(payload);
            let st = feed_many(initial_codec(), body);
            &&& all_pending(initial_codec(), body)
            &&& feed_out(st, FRAME_DELIMITER) == FeedOutcome::Frame(payload)
            &&& feed_next(st, FRAME_DELIMITER) == initial_codec()
            &&& deserialize_req_spec(payload) == Ok::<HostMessageView, SchemaError>(m)
        }),
{
    lemma_serialized_request_len(m);
    lemma_frame_round_trip(serialize_req_spec(m));
    lemma_request_round_trip(m);
}

/// Round trip of the transmit path: the frame a response is sent as, fed
/// byte by byte into a fresh codec on the host's side, yields exactly the
/// response's serialized payload, and that payload decodes back to the
/// response itself.
pub proof fn lemma_response_frame_round_trip(m: Target2HostMessage)
    ensures
        ({
            let payload = serialize_resp_spec(m);
            let body = encode_body(payload);
            let st = feed_many(initial_codec(), body);
            &&& all_pending(initial_codec(), body)
            &&& feed_out(st, FRAME_DELIMITER) == FeedOutcome::Frame(payload)
            &&& deserialize_resp_spec(payload) == Ok::<Target2HostMessage, SchemaError>(m)
        }),
{
    lemma_frame_round_trip(serialize_resp_spec(m));
    lemma_response_round_trip(m);
}

/// The complete receive-validate-apply-respond pipeline.
pub struct Bootloader {
    codec: FrameCodec,
    dispatcher: Dispatcher,
}

impl Bootloader {
    pub closed spec fn codec_spec(&self) -> CodecView {
        self.codec@
    }

    pub closed spec fn region_spec(&self) -> MemoryRegion {
        self.dispatcher.region_spec()
    }

    pub closed spec fn mem_spec(&self) -> Seq<u8> {
        self.dispatcher.mem_spec()
    }

    pub closed spec fn state_spec(&self) -> DispatcherState {
        self.dispatcher.state_spec()
    }

    pub closed spec fn indicator_spec(&self) -> IndicatorState {
        self.dispatcher.indicator_spec()
    }

    pub closed spec fn wf(self) -> bool {
        &&& self.codec.wf()
        &&& self.dispatcher.wf()
    }

    /// A fresh loader over the given layout and memory image: empty frame
    /// buffer, idle dispatcher.
    pub fn new(region: MemoryRegion, memory: Memory) -> (r: Bootloader)
        requires
            region.wf(),
            memory.wf(),
            memory.base_spec() == region.writable_start,
            memory.base_spec() + memory@.len() == region.writable_end,
        ensures
            r.wf(),
            r.codec_spec() == initial_codec(),
            r.region_spec() == region,
            r.mem_spec() == memory@,
            r.state_spec() == DispatcherState::Idle,
            r.indicator_spec() == IndicatorState::Idle,
    {
        Bootloader { codec: FrameCodec::new(), dispatcher: Dispatcher::new(region, memory) }
    }

    /// Consume one byte from the transport. Returns the complete response
    /// frame to transmit when the byte finished a well-formed command;
    /// returns nothing while a frame is still being assembled, and nothing
    /// but an error indication for a malformed frame or message.
    pub fn feed_byte(&mut self, byte: u8) -> (r: Option<Vec<u8>>)
        requires
            old(self).wf(),
            old(self).state_spec() is Idle,
        ensures
            final(self).wf(),
            final(self).region_spec() == old(self).region_spec(),
            final(self).codec_spec() == feed_next(old(self).codec_spec(), byte),
            match feed_out(old(self).codec_spec(), byte) {
                FeedOutcome::Pending => {
                    &&& r is None
                    &&& final(self).mem_spec() == old(self).mem_spec()
                    &&& final(self).state_spec() == old(self).state_spec()
                    &&& final(self).indicator_spec() == old(self).indicator_spec()
                },
                FeedOutcome::Frame(p) => match deserialize_req_spec(p) {
                    Ok(m) => {
                        &&& final(self).mem_spec() == step_memory(
                            old(self).region_spec(),
                            old(self).mem_spec(),
                            m,
                        )
                        &&& final(self).state_spec() == step_state(old(self).region_spec(), m)
                        &&& final(self).indicator_spec() == IndicatorState::Idle
                        &&& r is Some
                        &&& r->0@ == encode_body(
                            serialize_resp_spec(step_response(old(self).region_spec(), m)),
                        ) + seq![FRAME_DELIMITER]
                    },
                    Err(e) => {
                        &&& r is None
                        &&& final(self).mem_spec() == old(self).mem_spec()
                        &&& final(self).state_spec() == old(self).state_spec()
                        &&& final(self).indicator_spec() == IndicatorState::Error
                    },
                },
                FeedOutcome::Oversized => {
                    &&& r is None
                    &&& final(self).mem_spec() == old(self).mem_spec()
                    &&& final(self).state_spec() == old(self).state_spec()
                    &&& final(self).indicator_spec() == IndicatorState::Error
                },
                FeedOutcome::Corrupt => {
                    &&& r is None
                    &&& final(self).mem_spec() == old(self).mem_spec()
                    &&& final(self).state_spec() == old(self).state_spec()
                    &&& final(self).indicator_spec() == IndicatorState::Error
                },
            },
    {
        match self.codec.feed(byte) {
            Ok(None) => None,
            Ok(Some(payload)) => {
                match deserialize_request(payload.as_slice()) {
                    Ok(request) => {
                        proof {
                            assert(req_wf(request@));
                        }
                        let response = self.dispatcher.handle_request(&request);
                        let resp_bytes = serialize_response(&response);
                        Some(encode_frame(resp_bytes.as_slice()))
                    },
                    Err(_) => {
                        self.dispatcher.note_decode_error();
                        None
                    },
                }
            },
            Err(_) => {
                self.dispatcher.note_decode_error();
                None
            },
        }
    }

    /// The entry point a validated `Execute` armed, if any. The caller must
    /// transmit the pending response frame before transferring control.
    pub fn pending_handoff(&self) -> (r: Option<u32>)
        ensures
            match self.state_spec() {
                DispatcherState::Handoff { entry_point } => r == Some(entry_point),
                DispatcherState::Idle => r is None,
            },
    {
        self.dispatcher.pending_handoff()
    }

    pub fn indicator(&self) -> (r: IndicatorState)
        ensures
            r == self.indicator_spec(),
    {
        self.dispatcher.indicator()
    }

    /// The byte at an absolute address of the writable range.
    pub fn read_byte(&self, address: u32) -> (r: u8)
        requires
            self.wf(),
            self.region_spec().writable_start <= address,
            address - self.region_spec().writable_start < self.mem_spec().len(),
        ensures
            r == self.mem_spec()[address - self.region_spec().writable_start],
    {
        self.dispatcher.read_byte(address)
    }
}

} // verus!
