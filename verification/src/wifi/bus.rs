//! State of the Wi-Fi bus that its threads and the network device share.

use std::collections::VecDeque;

use vstd::prelude::*;

use crate::wifi::codec::{has_room, FRAME_PADDING};

verus! {

/// Frames that may wait for transmission.
pub const MAX_TX_QUEUE_LEN: usize = 128;

/// Interface number while there is no connection.
pub const VIF_NONE: u8 = 0xFF;

/// Whether the bus is in use.
#[derive(Clone, Copy, Debug, PartialEq, Eq, Structural)]
pub enum BusState {
    /// In use.
    Up,
    /// Shut down.
    Down,
}

/// An Ethernet frame that waits for transmission.
#[derive(Debug)]
pub struct TxFrame {
    /// The frame.
    pub data: Vec<u8>,
    /// Its priority.
    pub priority: u8,
}

/// The command channel.
#[derive(Debug)]
pub struct CmdChannel {
    /// A command frame that waits for transmission.
    pub pending: Option<Vec<u8>>,
    /// There is a command to be sent.
    pub pending_flag: bool,
    /// The command could not be sent, so no response will come.
    pub rsp_error: bool,
}

/// The transmit queue.
#[derive(Debug)]
pub struct TxQueue {
    /// Frames in the order in which they came.
    pub queue: VecDeque<TxFrame>,
    /// Their number.
    pub pktcnt: u32,
}

/// The receive queue.
#[derive(Debug)]
pub struct RxQueue {
    /// Ethernet frames in the order in which they came.
    pub data_queue: VecDeque<Vec<u8>>,
}

/// The connection.
#[derive(Clone, Copy, Debug, PartialEq, Eq, Structural)]
pub struct Connection {
    /// Interface number, `VIF_NONE` while there is no connection.
    pub vif_idx: u8,
    /// Station number.
    pub sta_idx: u8,
}

/// State of the Wi-Fi bus.
#[derive(Debug)]
pub struct WifiBus {
    /// Whether the bus is in use.
    pub state: BusState,
    /// The command channel.
    pub cmd: CmdChannel,
    /// The transmit queue.
    pub tx: TxQueue,
    /// The receive queue.
    pub rx: RxQueue,
    /// The connection.
    pub conn: Connection,
}

/// A waiting frame as a value.
#[verifier::ext_equal]
pub struct FrameModel {
    /// The frame.
    pub data: Seq<u8>,
    /// Its priority.
    pub priority: u8,
}

/// The bus as a value.
#[verifier::ext_equal]
pub struct BusModel {
    /// Whether the bus is in use.
    pub state: BusState,
    /// A command frame that waits for transmission.
    pub pending: Option<Seq<u8>>,
    /// There is a command to be sent.
    pub pending_flag: bool,
    /// The command could not be sent.
    pub rsp_error: bool,
    /// Frames that wait for transmission.
    pub queue: Seq<FrameModel>,
    /// Their number.
    pub pktcnt: u32,
    /// Frames that have been received.
    pub received: Seq<Seq<u8>>,
    /// The connection.
    pub conn: Connection,
}

impl View for TxFrame {
    type V = FrameModel;

    open spec fn view(&self) -> FrameModel {
        FrameModel { data: self.data@, priority: self.priority }
    }
}

impl View for WifiBus {
    type V = BusModel;

    open spec fn view(&self) -> BusModel {
        BusModel {
            state: self.state,
            pending: match self.cmd.pending {
                Some(cmd) => Some(cmd@),
                None => None,
            },
            pending_flag: self.cmd.pending_flag,
            rsp_error: self.cmd.rsp_error,
            queue: self.tx.queue@.map_values(|frame: TxFrame| frame@),
            pktcnt: self.tx.pktcnt,
            received: self.rx.data_queue@.map_values(|frame: Vec<u8>| frame@),
            conn: self.conn,
        }
    }
}

impl BusModel {
    /// The counter counts the waiting frames, there are not more than may wait, and
    /// each of them, and the command, can be padded.
    pub open spec fn wf(self) -> bool {
        &&& self.pktcnt == self.queue.len()
        &&& self.queue.len() <= MAX_TX_QUEUE_LEN
        &&& forall|i: int| 0 <= i < self.queue.len() ==> has_room((#[trigger] self.queue[i]).data.len() as int)
        &&& self.pending matches Some(cmd) ==> has_room(cmd.len() as int)
    }

    /// There is something to transmit.
    pub open spec fn has_work(self) -> bool {
        self.pending_flag || self.pktcnt > 0
    }

    /// There is a connection.
    pub open spec fn connected(self) -> bool {
        self.conn.vif_idx != VIF_NONE
    }

    /// The bus with one more frame waiting.
    pub open spec fn with_frame(self, data: Seq<u8>) -> BusModel {
        BusModel {
            queue: self.queue.push(FrameModel { data, priority: 0 }),
            pktcnt: (self.pktcnt + 1) as u32,
            ..self
        }
    }

    /// The bus without the frame that has waited longest.
    pub open spec fn without_first(self) -> BusModel {
        BusModel {
            queue: self.queue.drop_first(),
            pktcnt: (self.pktcnt - 1) as u32,
            ..self
        }
    }

    /// The bus with a command that is to be sent and whose response is awaited.
    pub open spec fn with_command(self, frame: Seq<u8>) -> BusModel {
        BusModel { pending: Some(frame), pending_flag: true, rsp_error: false, ..self }
    }

    /// The bus without any waiting frame.
    pub open spec fn without_frames(self) -> BusModel {
        BusModel { queue: Seq::empty(), pktcnt: 0, ..self }
    }
}

impl WifiBus {
    /// A bus in use, with nothing waiting and no connection.
    pub fn new() -> (bus: WifiBus)
        ensures
            bus@ == (BusModel {
                state: BusState::Up,
                pending: None,
                pending_flag: false,
                rsp_error: false,
                queue: Seq::empty(),
                pktcnt: 0,
                received: Seq::empty(),
                conn: Connection { vif_idx: VIF_NONE, sta_idx: 0 },
            }),
            bus@.wf(),
    {
        let bus: WifiBus = WifiBus {
            state: BusState::Up,
            cmd: CmdChannel { pending: None, pending_flag: false, rsp_error: false },
            tx: TxQueue { queue: VecDeque::new(), pktcnt: 0 },
            rx: RxQueue { data_queue: VecDeque::new() },
            conn: Connection { vif_idx: VIF_NONE, sta_idx: 0 },
        };
        assert(bus@.queue =~= Seq::empty());
        assert(bus@.received =~= Seq::empty());
        bus
    }

    /// Takes the frame that has waited longest.
    pub fn pop_frame(&mut self) -> (frame: Option<Vec<u8>>)
        requires
            old(self)@.wf(),
        ensures
            final(self)@.wf(),
            match frame {
                Some(data) => {
                    &&& old(self)@.queue.len() > 0
                    &&& data@ == old(self)@.queue[0].data
                    &&& final(self)@ == old(self)@.without_first()
                },
                None => {
                    &&& old(self)@.queue.len() == 0
                    &&& final(self)@ == old(self)@
                },
            },
    {
        let ghost before = *self;
        match self.tx.queue.pop_front() {
            Some(frame) => {
                proof {
                    assert(before@.queue[0] == before.tx.queue@[0]@);
                    assert(self@.queue =~= before@.queue.drop_first());
                    assert forall|i: int| 0 <= i < self@.queue.len() implies has_room(
                        (#[trigger] self@.queue[i]).data.len() as int,
                    ) by {
                        assert(self@.queue[i] == before@.queue[i + 1]);
                    }
                }
                self.tx.pktcnt = self.tx.pktcnt - 1;
                Some(frame.data)
            },
            None => {
                assert(self@.queue =~= before@.queue);
                None
            },
        }
    }

    /// Hands a command frame to the transmit thread, which has to be woken, in place of one
    /// that still waits. One that is too long to be padded is refused.
    pub fn submit_cmd(&mut self, frame: Vec<u8>) -> (accepted: bool)
        requires
            old(self)@.wf(),
        ensures
            final(self)@.wf(),
            accepted == has_room(frame@.len() as int),
            final(self)@ == (if accepted {
                old(self)@.with_command(frame@)
            } else {
                old(self)@
            }),
    {
        if frame.len() > usize::MAX - FRAME_PADDING {
            return false;
        }
        self.cmd.rsp_error = false;
        self.cmd.pending = Some(frame);
        self.cmd.pending_flag = true;
        true
    }

    /// Drops every waiting frame.
    pub fn clear_frames(&mut self)
        ensures
            final(self)@ == old(self)@.without_frames(),
    {
        self.tx.queue.clear();
        self.tx.pktcnt = 0;
        assert(self@.queue =~= Seq::empty());
    }
}

// ---- Laws ----

/// The bus as a value is the bus: every field, every waiting frame and every received frame
/// in its place.
pub proof fn law_bus_is_its_fields(bus: WifiBus)
    ensures
        bus@.state == bus.state,
        bus@.pending is Some <==> bus.cmd.pending is Some,
        bus.cmd.pending matches Some(cmd) ==> bus@.pending == Some(cmd@),
        bus@.pending_flag == bus.cmd.pending_flag,
        bus@.rsp_error == bus.cmd.rsp_error,
        bus@.pktcnt == bus.tx.pktcnt,
        bus@.conn == bus.conn,
        bus@.queue.len() == bus.tx.queue@.len(),
        forall|i: int|
            0 <= i < bus.tx.queue@.len() ==> (#[trigger] bus@.queue[i]).data
                == bus.tx.queue@[i].data@ && bus@.queue[i].priority == bus.tx.queue@[i].priority,
        bus@.received.len() == bus.rx.data_queue@.len(),
        forall|i: int|
            0 <= i < bus.rx.data_queue@.len() ==> #[trigger] bus@.received[i]
                == bus.rx.data_queue@[i]@,
{
}

/// A frame that is handed over is the last to wait, and the only thing that changes; a frame
/// that is taken is the first; what is handed over to an empty queue is what is taken next.
pub proof fn law_queue_is_a_queue(bus: BusModel, data: Seq<u8>)
    requires
        bus.wf(),
        bus.queue.len() < MAX_TX_QUEUE_LEN,
    ensures
        ({
            let next = bus.with_frame(data);
            &&& next.queue.len() == bus.queue.len() + 1
            &&& next.pktcnt == next.queue.len()
            &&& next.queue.last().data == data
            &&& next.queue.last().priority == 0
            &&& forall|i: int| 0 <= i < bus.queue.len() ==> #[trigger] next.queue[i] == bus.queue[i]
            &&& same_but_queue(next, bus)
            &&& bus.queue.len() == 0 ==> next.queue[0].data == data
        }),
        bus.queue.len() > 0 ==> {
            let next = bus.without_first();
            &&& next.queue.len() == bus.queue.len() - 1
            &&& next.pktcnt == next.queue.len()
            &&& forall|i: int|
                0 <= i < next.queue.len() ==> #[trigger] next.queue[i] == bus.queue[i + 1]
            &&& same_but_queue(next, bus)
        },
        ({
            let next = bus.without_frames();
            &&& next.queue.len() == 0
            &&& next.pktcnt == 0
            &&& same_but_queue(next, bus)
        }),
{
}

/// Two buses that differ at most in the frames that wait for transmission.
pub open spec fn same_but_queue(a: BusModel, b: BusModel) -> bool {
    &&& a.state == b.state
    &&& a.pending == b.pending
    &&& a.pending_flag == b.pending_flag
    &&& a.rsp_error == b.rsp_error
    &&& a.received == b.received
    &&& a.conn == b.conn
}

/// A command that is handed over is the one to be sent, and is marked as such; no response
/// has been given up for it; data and connection are left alone.
pub proof fn law_command_is_handed_over(bus: BusModel, frame: Seq<u8>)
    ensures
        ({
            let next = bus.with_command(frame);
            &&& next.pending == Some(frame)
            &&& next.pending_flag
            &&& !next.rsp_error
            &&& next.state == bus.state
            &&& next.queue == bus.queue
            &&& next.pktcnt == bus.pktcnt
            &&& next.received == bus.received
            &&& next.conn == bus.conn
        }),
{
}

/// There is work exactly where a command or a frame waits; there is a connection exactly
/// where the interface has a number other than 255; at most 128 frames wait.
pub proof fn law_what_a_bus_has(bus: BusModel)
    ensures
        bus.wf() ==> (bus.has_work() <==> bus.pending_flag || bus.queue.len() != 0),
        bus.connected() <==> bus.conn.vif_idx != 255,
        bus.wf() ==> bus.queue.len() <= 128 && bus.pktcnt == bus.queue.len(),
        MAX_TX_QUEUE_LEN == 128,
{
}

} // verus!
