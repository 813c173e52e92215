//! The transmit path: commands first, then data in batches.

use vstd::prelude::*;

use crate::wifi::bus::{BusModel, BusState, FrameModel, TxFrame, WifiBus, MAX_TX_QUEUE_LEN};
use crate::wifi::codec::{
    block_padded, build_data_frame, data_frame, has_room, pad_cmd_frame, ETH_HEADER_LEN,
};

verus! {

/// Why a frame is not accepted for transmission.
#[derive(Clone, Copy, Debug, PartialEq, Eq, Structural)]
pub enum TxError {
    /// Too many frames wait already.
    QueueFull,
}

/// Queues an Ethernet frame for transmission. Where it is accepted, the transmit
/// thread has to be woken.
pub fn enqueue_data_frame(bus: &mut WifiBus, eth_frame: Vec<u8>) -> (result: Result<(), TxError>)
    requires
        old(bus)@.wf(),
        has_room(eth_frame@.len() as int),
    ensures
        final(bus)@.wf(),
        result is Err <==> old(bus)@.queue.len() >= MAX_TX_QUEUE_LEN,
        result matches Err(e) ==> e == TxError::QueueFull && final(bus)@ == old(bus)@,
        result is Ok ==> final(bus)@ == old(bus)@.with_frame(eth_frame@),
        old(bus)@.queue.len() < 128 ==> result is Ok && final(bus)@.queue.last().data == eth_frame@
            && final(bus)@.queue.drop_last() == old(bus)@.queue,
{
    if bus.tx.queue.len() >= MAX_TX_QUEUE_LEN {
        return Err(TxError::QueueFull);
    }
    let ghost before = *bus;
    let ghost data = eth_frame@;
    bus.tx.queue.push_back(TxFrame { data: eth_frame, priority: 0 });
    bus.tx.pktcnt = bus.tx.pktcnt + 1;
    proof {
        assert(bus@.queue =~= before@.queue.push(FrameModel { data, priority: 0 }));
        assert(bus@.queue.drop_last() =~= before@.queue);
    }
    Ok(())
}

/// There is something to transmit.
pub fn has_pending_work(bus: &WifiBus) -> (work: bool)
    ensures
        work == bus@.has_work(),
        bus@.pending_flag || bus@.pktcnt != 0 <==> work,
{
    bus.cmd.pending_flag || bus.tx.pktcnt > 0
}

/// Parameters of the transmit path.
#[derive(Clone, Copy, Debug, PartialEq, Eq, Structural)]
pub struct TxConfig {
    /// The chip is of the third generation.
    pub is_v3: bool,
    /// Data frames sent in one go.
    pub batch_limit: u32,
    /// Buffers of the chip that have to stay free.
    pub flow_threshold: u32,
}

/// Function of the chip that frames are written to.
pub const WIFI_FUNC: u8 = 1;

/// How often the chip is asked for room for a command.
pub const CMD_FLOW_ATTEMPTS: u32 = 10;

/// How often the chip is asked for a free buffer.
pub const DATA_FLOW_ATTEMPTS: u32 = 50;

/// Where the sending of data stands.
#[derive(Clone, Copy, Debug, PartialEq, Eq, Structural)]
pub struct Batch {
    /// Interface that the data goes through.
    pub vif_idx: u8,
    /// Station that it goes to.
    pub sta_idx: u8,
    /// Frames sent.
    pub sent: u32,
    /// Something has been sent, a command or data.
    pub did_work: bool,
}

/// Where the transmit path stands; `B` is how a frame is represented.
#[derive(Debug)]
pub enum TxPhase<B> {
    /// Not begun.
    Begin,
    /// Masking the card interrupt for a command.
    CmdMask { cmd: B },
    /// Waiting for room for it.
    CmdFlow { cmd: B },
    /// Writing it.
    CmdWrite,
    /// Telling whom it concerns.
    CmdReport { did_work: bool },
    /// Unmasking the card interrupt.
    CmdUnmask { did_work: bool },
    /// Asking for a free buffer, not for the first time if `asked` is above 1.
    DataFlow { batch: Batch, asked: u32 },
    /// Giving way after such a question.
    DataYield { batch: Batch, asked: u32 },
    /// Writing a data frame.
    DataWrite { batch: Batch },
    /// Over.
    Over { did_work: bool },
}

/// What the transmit path asks for; `B` is how a frame is represented.
#[derive(Debug)]
pub enum TxAction<B> {
    /// Mask the card interrupt.
    MaskCardIrq,
    /// Let the card interrupt through.
    UnmaskCardIrq,
    /// Wait for room for that many bytes. Answered by a value where there is.
    WaitFlowCtrl { len: usize, attempts: u32 },
    /// Ask how many buffers are free. Answered by their number.
    ReadFlowCtrl,
    /// Write a frame to the data register of a function of the chip. Answered by a value
    /// where that went well.
    WriteFifo { func: u8, frame: B },
    /// Give way to other tasks.
    Yield,
    /// Wake the receive thread.
    WakeRx,
    /// Wake whoever waits for the response to a command.
    WakeRsp,
    /// Over; says whether anything has been sent.
    Done { did_work: bool },
}

/// A phase whose frames are sequences of bytes.
pub type PhaseModel = TxPhase<Seq<u8>>;

/// An action whose frames are sequences of bytes.
pub type ActionModel = TxAction<Seq<u8>>;

/// A turn of the transmit path.
#[verifier::ext_equal]
pub struct TxTurn {
    /// Where it stands then.
    pub phase: PhaseModel,
    /// The bus then.
    pub bus: BusModel,
    /// What it asks for.
    pub action: ActionModel,
}

impl View for TxPhase<Vec<u8>> {
    type V = TxPhase<Seq<u8>>;

    open spec fn view(&self) -> TxPhase<Seq<u8>> {
        match *self {
            TxPhase::Begin => TxPhase::Begin,
            TxPhase::CmdMask { cmd } => TxPhase::CmdMask { cmd: cmd@ },
            TxPhase::CmdFlow { cmd } => TxPhase::CmdFlow { cmd: cmd@ },
            TxPhase::CmdWrite => TxPhase::CmdWrite,
            TxPhase::CmdReport { did_work } => TxPhase::CmdReport { did_work },
            TxPhase::CmdUnmask { did_work } => TxPhase::CmdUnmask { did_work },
            TxPhase::DataFlow { batch, asked } => TxPhase::DataFlow { batch, asked },
            TxPhase::DataYield { batch, asked } => TxPhase::DataYield { batch, asked },
            TxPhase::DataWrite { batch } => TxPhase::DataWrite { batch },
            TxPhase::Over { did_work } => TxPhase::Over { did_work },
        }
    }
}

impl View for TxAction<Vec<u8>> {
    type V = TxAction<Seq<u8>>;

    open spec fn view(&self) -> TxAction<Seq<u8>> {
        match *self {
            TxAction::MaskCardIrq => TxAction::MaskCardIrq,
            TxAction::UnmaskCardIrq => TxAction::UnmaskCardIrq,
            TxAction::WaitFlowCtrl { len, attempts } => TxAction::WaitFlowCtrl { len, attempts },
            TxAction::ReadFlowCtrl => TxAction::ReadFlowCtrl,
            TxAction::WriteFifo { func, frame } => TxAction::WriteFifo { func, frame: frame@ },
            TxAction::Yield => TxAction::Yield,
            TxAction::WakeRx => TxAction::WakeRx,
            TxAction::WakeRsp => TxAction::WakeRsp,
            TxAction::Done { did_work } => TxAction::Done { did_work },
        }
    }
}

impl TxPhase<Seq<u8>> {
    /// While data is sent, the batch is not full.
    pub open spec fn wf(self, cfg: TxConfig) -> bool {
        match self {
            TxPhase::CmdMask { cmd } => cmd.len() <= usize::MAX,
            TxPhase::CmdFlow { cmd } => cmd.len() <= usize::MAX,
            TxPhase::DataFlow { batch, asked } => batch.sent < cfg.batch_limit && 1 <= asked
                <= DATA_FLOW_ATTEMPTS,
            TxPhase::DataYield { batch, asked } => batch.sent < cfg.batch_limit && 1 <= asked
                <= DATA_FLOW_ATTEMPTS,
            TxPhase::DataWrite { batch } => batch.sent < cfg.batch_limit,
            _ => true,
        }
    }

    /// The card interrupt is masked, or about to be.
    pub open spec fn masked(self) -> bool {
        self is CmdMask || self is CmdFlow || self is CmdWrite || self is CmdReport
    }
}

/// The transmit path ends.
pub open spec fn tx_over(bus: BusModel, did_work: bool) -> TxTurn {
    TxTurn { phase: TxPhase::Over { did_work }, bus, action: TxAction::Done { did_work } }
}

/// The next data frame may be sent: there is one, the batch is not full, no command
/// waits and the bus is in use.
pub open spec fn may_send_data(cfg: TxConfig, bus: BusModel, sent: u32) -> bool {
    &&& bus.pktcnt > 0
    &&& sent < cfg.batch_limit
    &&& !bus.pending_flag
    &&& bus.state != BusState::Down
}

/// Goes on to the next data frame, or ends.
pub open spec fn next_data(cfg: TxConfig, bus: BusModel, batch: Batch) -> TxTurn {
    if may_send_data(cfg, bus, batch.sent) {
        TxTurn {
            phase: TxPhase::DataFlow { batch, asked: 1 },
            bus,
            action: TxAction::ReadFlowCtrl,
        }
    } else {
        tx_over(bus, batch.did_work)
    }
}

/// Begins with the data. Without a connection every waiting frame is dropped.
pub open spec fn begin_data(cfg: TxConfig, bus: BusModel, did_work: bool) -> TxTurn {
    if !bus.connected() {
        tx_over(bus.without_frames(), did_work)
    } else {
        next_data(
            cfg,
            bus,
            Batch { vif_idx: bus.conn.vif_idx, sta_idx: bus.conn.sta_idx, sent: 0, did_work },
        )
    }
}

/// Begins with a command, where there is one, else with the data.
pub open spec fn begin_cmd(cfg: TxConfig, bus: BusModel) -> TxTurn {
    match bus.pending {
        Some(cmd) if bus.pending_flag => TxTurn {
            phase: TxPhase::CmdMask { cmd: block_padded(cmd) },
            bus: BusModel { pending: None, pending_flag: false, ..bus },
            action: TxAction::MaskCardIrq,
        },
        _ => begin_data(cfg, bus, false),
    }
}

/// Sends the frame that has waited longest; one that is too short is dropped.
pub open spec fn send_data(cfg: TxConfig, bus: BusModel, batch: Batch) -> TxTurn {
    if bus.queue.len() == 0 {
        next_data(cfg, bus, batch)
    } else {
        let eth = bus.queue[0].data;
        if eth.len() < ETH_HEADER_LEN {
            next_data(cfg, bus.without_first(), batch)
        } else {
            TxTurn {
                phase: TxPhase::DataWrite { batch },
                bus: bus.without_first(),
                action: TxAction::WriteFifo {
                    func: WIFI_FUNC,
                    frame: data_frame(eth, batch.vif_idx, batch.sta_idx, cfg.is_v3),
                },
            }
        }
    }
}

/// What the transmit path does when it is resumed. `reply` answers what it asked for:
/// `None` says that it failed.
pub open spec fn tx_turn(
    cfg: TxConfig,
    phase: PhaseModel,
    bus: BusModel,
    reply: Option<u32>,
) -> TxTurn {
    match phase {
        TxPhase::Begin => if bus.state == BusState::Down {
            tx_over(bus, false)
        } else {
            begin_cmd(cfg, bus)
        },
        TxPhase::CmdMask { cmd } => TxTurn {
            phase: TxPhase::CmdFlow { cmd },
            bus,
            action: TxAction::WaitFlowCtrl {
                len: cmd.len() as usize,
                attempts: CMD_FLOW_ATTEMPTS,
            },
        },
        TxPhase::CmdFlow { cmd } => if reply is Some {
            TxTurn {
                phase: TxPhase::CmdWrite,
                bus,
                action: TxAction::WriteFifo { func: WIFI_FUNC, frame: cmd },
            }
        } else {
            TxTurn {
                phase: TxPhase::CmdReport { did_work: false },
                bus: BusModel { rsp_error: true, ..bus },
                action: TxAction::WakeRsp,
            }
        },
        TxPhase::CmdWrite => if reply is Some {
            TxTurn {
                phase: TxPhase::CmdReport { did_work: true },
                bus,
                action: TxAction::WakeRx,
            }
        } else {
            TxTurn {
                phase: TxPhase::CmdUnmask { did_work: false },
                bus,
                action: TxAction::UnmaskCardIrq,
            }
        },
        TxPhase::CmdReport { did_work } => TxTurn {
            phase: TxPhase::CmdUnmask { did_work },
            bus,
            action: TxAction::UnmaskCardIrq,
        },
        TxPhase::CmdUnmask { did_work } => begin_data(cfg, bus, did_work),
        TxPhase::DataFlow { batch, asked } => match reply {
            Some(free) if free > cfg.flow_threshold => send_data(cfg, bus, batch),
            _ => TxTurn {
                phase: TxPhase::DataYield { batch, asked },
                bus,
                action: TxAction::Yield,
            },
        },
        TxPhase::DataYield { batch, asked } => if asked < DATA_FLOW_ATTEMPTS {
            TxTurn {
                phase: TxPhase::DataFlow { batch, asked: (asked + 1) as u32 },
                bus,
                action: TxAction::ReadFlowCtrl,
            }
        } else {
            tx_over(bus, batch.did_work)
        },
        TxPhase::DataWrite { batch } => if reply is Some {
            next_data(
                cfg,
                bus,
                Batch { sent: (batch.sent + 1) as u32, did_work: true, ..batch },
            )
        } else {
            next_data(cfg, bus, batch)
        },
        TxPhase::Over { did_work } => tx_over(bus, did_work),
    }
}

/// One pass of the transmit thread over the bus.
#[derive(Debug)]
pub struct TxProcess {
    /// Parameters.
    pub cfg: TxConfig,
    /// Where the pass stands.
    pub phase: TxPhase<Vec<u8>>,
}

/// A pass over the bus that has not begun: commands first, then data.
pub fn tx_process(cfg: TxConfig) -> (pass: TxProcess)
    ensures
        pass.cfg == cfg,
        pass.phase@ == PhaseModel::Begin,
        pass.phase@.wf(cfg),
{
    TxProcess { cfg, phase: TxPhase::Begin }
}

impl TxProcess {
    fn over(self, did_work: bool) -> (next: (TxProcess, TxAction<Vec<u8>>))
        ensures
            next.0.cfg == self.cfg,
            next.0.phase@ == (PhaseModel::Over { did_work }),
            next.1@ == (ActionModel::Done { did_work }),
    {
        (
            TxProcess { cfg: self.cfg, phase: TxPhase::Over { did_work } },
            TxAction::Done { did_work },
        )
    }

    fn go(self, phase: TxPhase<Vec<u8>>, action: TxAction<Vec<u8>>) -> (next: (
        TxProcess,
        TxAction<Vec<u8>>,
    ))
        ensures
            next.0.cfg == self.cfg,
            next.0.phase@ == phase@,
            next.1@ == action@,
    {
        (TxProcess { cfg: self.cfg, phase }, action)
    }

    /// Takes the pending command, where there is one, or goes on to the data.
    pub fn process_cmd_tx(self, bus: &mut WifiBus) -> (next: (TxProcess, TxAction<Vec<u8>>))
        requires
            old(bus)@.wf(),
        ensures
            final(bus)@.wf(),
            next.0.cfg == self.cfg,
            next.0.phase@.wf(self.cfg),
            (TxTurn { phase: next.0.phase@, bus: final(bus)@, action: next.1@ }) == begin_cmd(
                self.cfg,
                old(bus)@,
            ),
    {
        if !bus.cmd.pending_flag {
            return self.process_data_tx(bus, false);
        }
        let ghost before = bus@;
        match bus.cmd.pending.take() {
            None => {
                assert(bus@ =~= before);
                self.process_data_tx(bus, false)
            },
            Some(mut cmd) => {
                bus.cmd.pending_flag = false;
                pad_cmd_frame(&mut cmd);
                self.go(TxPhase::CmdMask { cmd }, TxAction::MaskCardIrq)
            },
        }
    }

    /// Sends the command where there is room for it, else reports that no response
    /// will come.
    pub fn perform_cmd_flow_control_and_send(
        self,
        bus: &mut WifiBus,
        cmd: Vec<u8>,
        room: bool,
    ) -> (next: (TxProcess, TxAction<Vec<u8>>))
        requires
            old(bus)@.wf(),
        ensures
            final(bus)@.wf(),
            next.0.cfg == self.cfg,
            next.0.phase@.wf(self.cfg),
            room ==> final(bus)@ == old(bus)@ && next.0.phase@ == PhaseModel::CmdWrite
                && next.1@ == (TxAction::WriteFifo { func: WIFI_FUNC, frame: cmd@ }),
            !room ==> final(bus)@ == (BusModel { rsp_error: true, ..old(bus)@ }) && next.0.phase@
                == (PhaseModel::CmdReport { did_work: false }) && next.1@ == ActionModel::WakeRsp,
    {
        if room {
            self.go(TxPhase::CmdWrite, TxAction::WriteFifo { func: WIFI_FUNC, frame: cmd })
        } else {
            bus.cmd.rsp_error = true;
            self.go(TxPhase::CmdReport { did_work: false }, TxAction::WakeRsp)
        }
    }

    /// Begins with the data, or drops it where there is no connection.
    pub fn process_data_tx(self, bus: &mut WifiBus, did_work: bool) -> (next: (
        TxProcess,
        TxAction<Vec<u8>>,
    ))
        requires
            old(bus)@.wf(),
        ensures
            final(bus)@.wf(),
            next.0.cfg == self.cfg,
            next.0.phase@.wf(self.cfg),
            (TxTurn { phase: next.0.phase@, bus: final(bus)@, action: next.1@ }) == begin_data(
                self.cfg,
                old(bus)@,
                did_work,
            ),
    {
        let vif_idx: u8 = bus.conn.vif_idx;
        let sta_idx: u8 = bus.conn.sta_idx;
        if vif_idx == crate::wifi::bus::VIF_NONE {
            bus.clear_frames();
            return self.over(did_work);
        }
        self.next_data_frame(bus, Batch { vif_idx, sta_idx, sent: 0, did_work })
    }

    fn next_data_frame(self, bus: &WifiBus, batch: Batch) -> (next: (TxProcess, TxAction<Vec<u8>>))
        ensures
            next.0.cfg == self.cfg,
            next.0.phase@.wf(self.cfg),
            (TxTurn { phase: next.0.phase@, bus: bus@, action: next.1@ }) == next_data(
                self.cfg,
                bus@,
                batch,
            ),
    {
        let down: bool = match bus.state {
            BusState::Down => true,
            BusState::Up => false,
        };
        if bus.tx.pktcnt > 0 && batch.sent < self.cfg.batch_limit && !bus.cmd.pending_flag && !down {
            self.go(TxPhase::DataFlow { batch, asked: 1 }, TxAction::ReadFlowCtrl)
        } else {
            self.over(batch.did_work)
        }
    }

    /// Takes the frame that has waited longest and sends it.
    pub fn send_single_data_frame(self, bus: &mut WifiBus, batch: Batch) -> (next: (
        TxProcess,
        TxAction<Vec<u8>>,
    ))
        requires
            old(bus)@.wf(),
            batch.sent < self.cfg.batch_limit,
        ensures
            final(bus)@.wf(),
            next.0.cfg == self.cfg,
            next.0.phase@.wf(self.cfg),
            (TxTurn { phase: next.0.phase@, bus: final(bus)@, action: next.1@ }) == send_data(
                self.cfg,
                old(bus)@,
                batch,
            ),
    {
        let eth_frame: Vec<u8> = match bus.pop_frame() {
            None => return self.next_data_frame(bus, batch),
            Some(eth_frame) => eth_frame,
        };
        match build_data_frame(
            eth_frame.as_slice(),
            batch.vif_idx,
            batch.sta_idx,
            self.cfg.is_v3,
        ) {
            Err(_) => self.next_data_frame(bus, batch),
            Ok(frame) => self.go(
                TxPhase::DataWrite { batch },
                TxAction::WriteFifo { func: WIFI_FUNC, frame },
            ),
        }
    }

    /// Goes on with the data where enough buffers are free, else asks again after
    /// giving way.
    pub fn check_data_flow_control(
        self,
        bus: &mut WifiBus,
        batch: Batch,
        asked: u32,
        free: Option<u32>,
    ) -> (next: (TxProcess, TxAction<Vec<u8>>))
        requires
            old(bus)@.wf(),
            batch.sent < self.cfg.batch_limit,
            1 <= asked <= DATA_FLOW_ATTEMPTS,
        ensures
            final(bus)@.wf(),
            next.0.cfg == self.cfg,
            next.0.phase@.wf(self.cfg),
            (TxTurn { phase: next.0.phase@, bus: final(bus)@, action: next.1@ }) == tx_turn(
                self.cfg,
                TxPhase::DataFlow { batch, asked },
                old(bus)@,
                free,
            ),
            free matches Some(count) && count > self.cfg.flow_threshold && old(bus)@.queue.len() > 0
                ==> final(bus)@.queue == old(bus)@.queue.drop_first(),
            !(free matches Some(count) && count > self.cfg.flow_threshold) ==> final(bus)@ == old(
                bus,
            )@ && next.1@ is Yield,
    {
        if let Some(free) = free {
            if free > self.cfg.flow_threshold {
                return self.send_single_data_frame(bus, batch);
            }
        }
        self.go(TxPhase::DataYield { batch, asked }, TxAction::Yield)
    }

    /// Takes the pass one step further. `reply` answers the last action; it does not
    /// matter where that has no answer.
    pub fn step(self, bus: &mut WifiBus, reply: Option<u32>) -> (next: (
        TxProcess,
        TxAction<Vec<u8>>,
    ))
        requires
            old(bus)@.wf(),
            self.phase@.wf(self.cfg),
        ensures
            final(bus)@.wf(),
            next.0.cfg == self.cfg,
            next.0.phase@.wf(self.cfg),
            (TxTurn { phase: next.0.phase@, bus: final(bus)@, action: next.1@ }) == tx_turn(
                self.cfg,
                self.phase@,
                old(bus)@,
                reply,
            ),
    {
        let this: TxProcess = TxProcess { cfg: self.cfg, phase: TxPhase::Begin };
        match self.phase {
            TxPhase::Begin => match bus.state {
                BusState::Down => this.over(false),
                BusState::Up => this.process_cmd_tx(bus),
            },
            TxPhase::CmdMask { cmd } => {
                let len: usize = cmd.len();
                this.go(
                    TxPhase::CmdFlow { cmd },
                    TxAction::WaitFlowCtrl { len, attempts: CMD_FLOW_ATTEMPTS },
                )
            },
            TxPhase::CmdFlow { cmd } => this.perform_cmd_flow_control_and_send(
                bus,
                cmd,
                reply.is_some(),
            ),
            TxPhase::CmdWrite => if reply.is_some() {
                this.go(TxPhase::CmdReport { did_work: true }, TxAction::WakeRx)
            } else {
                this.go(TxPhase::CmdUnmask { did_work: false }, TxAction::UnmaskCardIrq)
            },
            TxPhase::CmdReport { did_work } => this.go(
                TxPhase::CmdUnmask { did_work },
                TxAction::UnmaskCardIrq,
            ),
            TxPhase::CmdUnmask { did_work } => this.process_data_tx(bus, did_work),
            TxPhase::DataFlow { batch, asked } => this.check_data_flow_control(
                bus,
                batch,
                asked,
                reply,
            ),
            TxPhase::DataYield { batch, asked } => if asked < DATA_FLOW_ATTEMPTS {
                this.go(TxPhase::DataFlow { batch, asked: asked + 1 }, TxAction::ReadFlowCtrl)
            } else {
                this.over(batch.did_work)
            },
            TxPhase::DataWrite { batch } => if reply.is_some() {
                this.next_data_frame(
                    bus,
                    Batch { sent: batch.sent + 1, did_work: true, ..batch },
                )
            } else {
                this.next_data_frame(bus, batch)
            },
            TxPhase::Over { did_work } => this.over(did_work),
        }
    }
}

/// What the transmit thread does between two passes.
#[derive(Clone, Copy, Debug, PartialEq, Eq, Structural)]
pub struct TxPoll {
    /// Have the thread polled again at once.
    pub again: bool,
    /// Wake whoever waits for the response to a command.
    pub wake_rsp: bool,
}

/// The transmit thread ends: the bus has been shut down.
pub fn tx_thread_ends(bus: &WifiBus) -> (ends: bool)
    ensures
        ends == (bus@.state == BusState::Down),
{
    match bus.state {
        BusState::Down => true,
        BusState::Up => false,
    }
}

/// What the transmit thread does after a pass, once it has registered to be woken. It
/// looks once more for work, which may have come before that.
pub fn tx_thread_poll(bus: &WifiBus, did_work: bool) -> (poll: TxPoll)
    ensures
        poll == (TxPoll { again: did_work || bus@.has_work(), wake_rsp: bus@.rsp_error }),
        poll.again <==> did_work || bus@.pending_flag || bus@.pktcnt != 0,
        poll.wake_rsp <==> bus@.rsp_error,
{
    let pending: bool = has_pending_work(bus);
    TxPoll { again: did_work || pending, wake_rsp: bus.cmd.rsp_error }
}

} // verus!
