//! Request dispatcher: the core state machine. It consumes decoded host
//! commands, runs the address validator, applies validated writes to the
//! memory image, produces the response, and manages the execution handoff.

use vstd::prelude::*;
use crate::memory::{Memory, write_seq};
use crate::schema::{ErrorKind, Host2TargetMessage, HostMessageView, Target2HostMessage, req_wf};
use crate::validator::{MemoryRegion, is_writable, is_writable_spec};

verus! {

/// Abstract state handed to the status indicator.
#[derive(Clone, Copy, Debug, PartialEq, Eq, Structural)]
pub enum IndicatorState {
    Idle,
    Receiving,
    Error,
}

/// Where the dispatcher stands between commands. `Handoff` is terminal: a
/// valid `Execute` was acknowledged and control is about to leave the
/// bootloader for the recorded entry point.
#[derive(Clone, Copy, Debug, PartialEq, Eq, Structural)]
pub enum DispatcherState {
    Idle,
    Handoff { entry_point: u32 },
}

/// Which rejection a failed write request earns: leaving the writable range
/// (or overflowing the address width) is out of bounds; a range inside the
/// writable range that touches the reserved range overlaps it.
pub open spec fn write_reason(region: MemoryRegion, address: u32, length: u32) -> ErrorKind {
    if address + length <= u32::MAX && region.writable_start <= address && address + length
        <= region.writable_end {
        ErrorKind::OverlapsReserved
    } else {
        ErrorKind::OutOfBounds
    }
}

/// The response every command earns. Validation depends only on the
/// requested range, never on memory contents.
pub open spec fn step_response(region: MemoryRegion, m: HostMessageView) -> Target2HostMessage {
    match m {
        HostMessageView::Ping => Target2HostMessage::Pong,
        HostMessageView::WriteChunk { address, data } => if is_writable_spec(
            region,
            address,
            data.len() as u32,
        ) {
            Target2HostMessage::Ack
        } else {
            Target2HostMessage::Nack { reason: write_reason(region, address, data.len() as u32) }
        },
        HostMessageView::Execute { entry_point } => if is_writable_spec(region, entry_point, 1) {
            Target2HostMessage::Ack
        } else {
            Target2HostMessage::Nack { reason: ErrorKind::OutOfBounds }
        },
    }
}

/// What a command does to the memory image (whose first byte sits at
/// `region.writable_start`): only a validated `WriteChunk` changes it.
pub open spec fn step_memory(region: MemoryRegion, mem: Seq<u8>, m: HostMessageView) -> Seq<u8> {
    match m {
        HostMessageView::WriteChunk { address, data } => if is_writable_spec(
            region,
            address,
            data.len() as u32,
        ) {
            write_seq(mem, address - region.writable_start, data)
        } else {
            mem
        },
        _ => mem,
    }
}

/// Where a command leaves the dispatcher: only a validated `Execute` enters
/// the terminal `Handoff` state.
pub open spec fn step_state(region: MemoryRegion, m: HostMessageView) -> DispatcherState {
    match m {
        HostMessageView::Execute { entry_point } => if is_writable_spec(region, entry_point, 1) {
            DispatcherState::Handoff { entry_point }
        } else {
            DispatcherState::Idle
        },
        _ => DispatcherState::Idle,
    }
}

/// Idempotence of writes: a validated `WriteChunk` is acknowledged, and
/// issuing it a second time in a row is acknowledged again and leaves
/// memory exactly as the first issue left it.
pub proof fn lemma_write_idempotent(
    region: MemoryRegion,
    mem: Seq<u8>,
    address: u32,
    data: Seq<u8>,
)
    requires
        is_writable_spec(region, address, data.len() as u32),
    ensures
        ({
            let m = HostMessageView::WriteChunk { address, data };
            let once = step_memory(region, mem, m);
            &&& step_response(region, m) == Target2HostMessage::Ack
            &&& step_memory(region, once, m) == once
        }),
{
    crate::memory::lemma_write_seq_idempotent(mem, address - region.writable_start, data);
}

/// The running bootloader is never overwritten: no wire-representable
/// command changes a byte of the reserved range.
pub proof fn lemma_reserved_never_written(
    region: MemoryRegion,
    mem: Seq<u8>,
    m: HostMessageView,
    address: u32,
)
    requires
        region.wf(),
        req_wf(m),
        mem.len() == region.writable_end - region.writable_start,
        region.reserved_start <= address < region.reserved_end,
    ensures
        step_memory(region, mem, m)[address - region.writable_start] == mem[address
            - region.writable_start],
{
    if let HostMessageView::WriteChunk { address: waddr, data } = m {
        if is_writable_spec(region, waddr, data.len() as u32) {
            crate::memory::lemma_write_seq_frame(
                mem,
                waddr - region.writable_start,
                data,
                address - region.writable_start,
            );
        }
    }
}

/// A `Ping` earns exactly one `Pong`, never touches memory, and leaves the
/// dispatcher idle.
pub proof fn lemma_ping_pure(region: MemoryRegion, mem: Seq<u8>)
    ensures
        step_response(region, HostMessageView::Ping) == Target2HostMessage::Pong,
        step_memory(region, mem, HostMessageView::Ping) == mem,
        step_state(region, HostMessageView::Ping) == DispatcherState::Idle,
{
}

/// Owns the memory layout description, the memory image, and the abstract
/// indicator; applies one command at a time, run to completion.
pub struct Dispatcher {
    region: MemoryRegion,
    memory: Memory,
    state: DispatcherState,
    indicator: IndicatorState,
}

impl Dispatcher {
    /// The device's memory layout, fixed at construction.
    pub closed spec fn region_spec(&self) -> MemoryRegion {
        self.region
    }

    /// Contents of the writable range; index 0 is `writable_start`.
    pub closed spec fn mem_spec(&self) -> Seq<u8> {
        self.memory@
    }

    pub closed spec fn state_spec(&self) -> DispatcherState {
        self.state
    }

    pub closed spec fn indicator_spec(&self) -> IndicatorState {
        self.indicator
    }

    /// The layout is well formed and the image covers exactly the writable
    /// range.
    pub closed spec fn wf(self) -> bool {
        &&& self.region.wf()
        &&& self.memory.wf()
        &&& self.memory.base_spec() == self.region.writable_start
        &&& self.memory.base_spec() + self.memory@.len() == self.region.writable_end
    }

    /// Take ownership of the layout description and the memory image; start
    /// idle.
    pub fn new(region: MemoryRegion, memory: Memory) -> (r: Dispatcher)
        requires
            region.wf(),
            memory.wf(),
            memory.base_spec() == region.writable_start,
            memory.base_spec() + memory@.len() == region.writable_end,
        ensures
            r.wf(),
            r.region_spec() == region,
            r.mem_spec() == memory@,
            r.state_spec() == DispatcherState::Idle,
            r.indicator_spec() == IndicatorState::Idle,
    {
        Dispatcher { region, memory, state: DispatcherState::Idle, indicator: IndicatorState::Idle }
    }

    /// Apply one decoded command: validate, write if allowed, answer, and
    /// move the state machine. The response is produced before any handoff
    /// so the host always observes confirmation first.
    pub fn handle_request(&mut self, request: &Host2TargetMessage) -> (response:
        Target2HostMessage)
        requires
            old(self).wf(),
            old(self).state_spec() is Idle,
            req_wf(request@),
        ensures
            final(self).wf(),
            final(self).region_spec() == old(self).region_spec(),
            response == step_response(old(self).region_spec(), request@),
            final(self).mem_spec() == step_memory(
                old(self).region_spec(),
                old(self).mem_spec(),
                request@,
            ),
            final(self).state_spec() == step_state(old(self).region_spec(), request@),
            final(self).indicator_spec() == IndicatorState::Idle,
    {
        let response = match request {
            Host2TargetMessage::Ping => Target2HostMessage::Pong,
            Host2TargetMessage::WriteChunk { address, data } => {
                // Visible on the device while the write is in flight;
                // reverted to idle below, before the response goes out.
                self.indicator = IndicatorState::Receiving;
                let length: u32 = data.len() as u32;
                if is_writable(&self.region, *address, length) {
                    self.memory.write(*address, data.as_slice());
                    Target2HostMessage::Ack
                } else {
                    let reason = match address.checked_add(length) {
                        None => ErrorKind::OutOfBounds,
                        Some(end) => {
                            if self.region.writable_start <= *address && end
                                <= self.region.writable_end {
                                ErrorKind::OverlapsReserved
                            } else {
                                ErrorKind::OutOfBounds
                            }
                        },
                    };
                    Target2HostMessage::Nack { reason }
                }
            },
            Host2TargetMessage::Execute { entry_point } => {
                if is_writable(&self.region, *entry_point, 1) {
                    self.state = DispatcherState::Handoff { entry_point: *entry_point };
                    Target2HostMessage::Ack
                } else {
                    Target2HostMessage::Nack { reason: ErrorKind::OutOfBounds }
                }
            },
        };
        self.indicator = IndicatorState::Idle;
        response
    }

    /// Record that a malformed frame or message was discarded: no response
    /// is owed, but the indicator must show the error.
    pub fn note_decode_error(&mut self)
        requires
            old(self).wf(),
        ensures
            final(self).wf(),
            final(self).region_spec() == old(self).region_spec(),
            final(self).mem_spec() == old(self).mem_spec(),
            final(self).state_spec() == old(self).state_spec(),
            final(self).indicator_spec() == IndicatorState::Error,
    {
        self.indicator = IndicatorState::Error;
    }

    /// The entry point a validated `Execute` armed, if any.
    pub fn pending_handoff(&self) -> (r: Option<u32>)
        ensures
            match self.state_spec() {
                DispatcherState::Handoff { entry_point } => r == Some(entry_point),
                DispatcherState::Idle => r is None,
            },
    {
        match self.state {
            DispatcherState::Handoff { entry_point } => Some(entry_point),
            DispatcherState::Idle => None,
        }
    }

    pub fn indicator(&self) -> (r: IndicatorState)
        ensures
            r == self.indicator_spec(),
    {
        self.indicator
    }

    /// The byte at an absolute address of the writable range.
    pub fn read_byte(&self, address: u32) -> (r: u8)
        requires
            self.wf(),
            self.region_spec().writable_start <= address,
            address - self.region_spec().writable_start < self.mem_spec().len(),
        ensures
            r == self.mem_spec()[address - self.region_spec().writable_start],
    {
        self.memory.read_byte(address)
    }
}

} // verus!
