//! Whole passes of the transmit path and what holds of them.

use vstd::prelude::*;

use crate::wifi::bus::{same_but_queue, BusModel, BusState, FrameModel};
use crate::wifi::codec::{
    block_padded, data_frame, has_bytes, law_data_frame_bytes, law_padding_keeps_frame,
    ETH_HEADER_LEN,
};
use crate::wifi::tx::{
    tx_turn, ActionModel, Batch, PhaseModel, TxAction, TxConfig, TxPhase, TxTurn, DATA_FLOW_ATTEMPTS,
    WIFI_FUNC,
};

verus! {

/// What the transmit path finds when it is resumed.
#[verifier::ext_equal]
pub struct TxInput {
    /// The bus.
    pub bus: BusModel,
    /// The answer to its last action.
    pub reply: Option<u32>,
}

/// The turns of a pass that begins in a phase and finds given inputs. Others may change
/// the bus in between.
pub open spec fn tx_turns(cfg: TxConfig, phase: PhaseModel, inputs: Seq<TxInput>) -> Seq<TxTurn>
    decreases inputs.len(),
{
    if inputs.len() == 0 {
        Seq::empty()
    } else {
        let before = tx_turns(cfg, phase, inputs.drop_last());
        before.push(
            tx_turn(cfg, phase_after(phase, before), inputs.last().bus, inputs.last().reply),
        )
    }
}

/// Where a pass stands after some turns.
pub open spec fn phase_after(phase: PhaseModel, turns: Seq<TxTurn>) -> PhaseModel {
    if turns.len() == 0 {
        phase
    } else {
        turns.last().phase
    }
}

/// How often the card interrupt has been masked beyond being unmasked.
pub open spec fn mask_depth(turns: Seq<TxTurn>) -> int
    decreases turns.len(),
{
    if turns.len() == 0 {
        0
    } else {
        mask_depth(turns.drop_last()) + match turns.last().action {
            TxAction::MaskCardIrq => 1int,
            TxAction::UnmaskCardIrq => -1int,
            _ => 0int,
        }
    }
}

/// The card interrupt is masked exactly while a command is being sent. In particular
/// it is not masked when a pass ends.
pub proof fn law_mask_is_undone(cfg: TxConfig, inputs: Seq<TxInput>)
    ensures
        ({
            let turns = tx_turns(cfg, PhaseModel::Begin, inputs);
            let phase = phase_after(PhaseModel::Begin, turns);
            &&& mask_depth(turns) == (if phase.masked() {
                1int
            } else {
                0int
            })
            &&& turns.len() > 0 && turns.last().action is Done ==> mask_depth(turns) == 0
        }),
    decreases inputs.len(),
{
    if inputs.len() > 0 {
        law_mask_is_undone(cfg, inputs.drop_last());
        let before = tx_turns(cfg, PhaseModel::Begin, inputs.drop_last());
        let turns = tx_turns(cfg, PhaseModel::Begin, inputs);
        assert(turns.drop_last() =~= before);
    }
}

/// Data frames that a pass has written and that have got through.
pub open spec fn data_sent(cfg: TxConfig, phase: PhaseModel, inputs: Seq<TxInput>) -> nat
    decreases inputs.len(),
{
    if inputs.len() == 0 {
        0
    } else {
        let before = tx_turns(cfg, phase, inputs.drop_last());
        data_sent(cfg, phase, inputs.drop_last()) + (if phase_after(phase, before) is DataWrite
            && inputs.last().reply is Some {
            1nat
        } else {
            0nat
        })
    }
}

/// The count of a pass is exact while it sends data, and a pass sends no more data
/// frames than a batch holds.
pub proof fn law_batch_is_bounded(cfg: TxConfig, inputs: Seq<TxInput>)
    ensures
        data_sent(cfg, PhaseModel::Begin, inputs) <= cfg.batch_limit,
        match phase_after(PhaseModel::Begin, tx_turns(cfg, PhaseModel::Begin, inputs)) {
            TxPhase::DataFlow { batch, .. } => batch.sent == data_sent(
                cfg,
                PhaseModel::Begin,
                inputs,
            ) && batch.sent < cfg.batch_limit,
            TxPhase::DataYield { batch, .. } => batch.sent == data_sent(
                cfg,
                PhaseModel::Begin,
                inputs,
            ) && batch.sent < cfg.batch_limit,
            TxPhase::DataWrite { batch } => batch.sent == data_sent(cfg, PhaseModel::Begin, inputs)
                && batch.sent < cfg.batch_limit,
            TxPhase::Over { .. } => true,
            _ => data_sent(cfg, PhaseModel::Begin, inputs) == 0,
        },
    decreases inputs.len(),
{
    if inputs.len() > 0 {
        law_batch_is_bounded(cfg, inputs.drop_last());
    }
}

/// A command or a data frame has been written and has got through.
pub open spec fn something_sent(cfg: TxConfig, phase: PhaseModel, inputs: Seq<TxInput>) -> bool
    decreases inputs.len(),
{
    if inputs.len() == 0 {
        false
    } else {
        let now = phase_after(phase, tx_turns(cfg, phase, inputs.drop_last()));
        something_sent(cfg, phase, inputs.drop_last()) || ((now is CmdWrite || now is DataWrite)
            && inputs.last().reply is Some)
    }
}

/// What a pass knows of having sent something.
pub open spec fn knows_sent(phase: PhaseModel) -> bool {
    match phase {
        TxPhase::CmdReport { did_work } => did_work,
        TxPhase::CmdUnmask { did_work } => did_work,
        TxPhase::DataFlow { batch, .. } => batch.did_work,
        TxPhase::DataYield { batch, .. } => batch.did_work,
        TxPhase::DataWrite { batch } => batch.did_work,
        TxPhase::Over { did_work } => did_work,
        _ => false,
    }
}

/// A pass answers that it has done something exactly where the command, or at least one
/// data frame, has been written and has got through.
pub proof fn law_answer_is_true(cfg: TxConfig, inputs: Seq<TxInput>)
    ensures
        ({
            let turns = tx_turns(cfg, PhaseModel::Begin, inputs);
            &&& knows_sent(phase_after(PhaseModel::Begin, turns)) == something_sent(
                cfg,
                PhaseModel::Begin,
                inputs,
            )
            &&& turns.len() > 0 ==> (turns.last().action matches TxAction::Done { did_work }
                ==> did_work == something_sent(cfg, PhaseModel::Begin, inputs))
        }),
    decreases inputs.len(),
{
    if inputs.len() > 0 {
        law_answer_is_true(cfg, inputs.drop_last());
    }
}

/// A command that waits goes out before any data: a pass on a bus in use begins by
/// masking the card interrupt for it, padded to whole blocks, takes it off the bus, and
/// leaves the data alone.
pub proof fn law_command_goes_first(cfg: TxConfig, bus: BusModel, cmd: Seq<u8>, reply: Option<u32>)
    requires
        bus.state == BusState::Up,
        bus.pending_flag,
        bus.pending == Some(cmd),
    ensures
        ({
            let turn = tx_turn(cfg, PhaseModel::Begin, bus, reply);
            &&& turn.action is MaskCardIrq
            &&& turn.phase == (PhaseModel::CmdMask { cmd: block_padded(cmd) })
            &&& turn.bus == (BusModel { pending: None, pending_flag: false, ..bus })
        }),
{
}

/// While a command waits, no data is written but what is already on its way.
pub proof fn law_command_interrupts_data(
    cfg: TxConfig,
    phase: PhaseModel,
    bus: BusModel,
    reply: Option<u32>,
)
    requires
        bus.pending_flag,
    ensures
        phase is DataWrite ==> tx_turn(cfg, phase, bus, reply).action is Done,
        phase is CmdUnmask ==> tx_turn(cfg, phase, bus, reply).action is Done,
{
}

/// A bus that has been shut down is left as it is, and nothing is asked for.
pub proof fn law_down_is_quiet(cfg: TxConfig, bus: BusModel, reply: Option<u32>)
    requires
        bus.state == BusState::Down,
    ensures
        tx_turn(cfg, PhaseModel::Begin, bus, reply) == (TxTurn {
            phase: PhaseModel::Over { did_work: false },
            bus,
            action: ActionModel::Done { did_work: false },
        }),
{
}

/// Nothing is written unless the chip has just said that there is room: for a command
/// that its bytes fit, for data that more buffers are free than have to stay so.
pub proof fn law_writes_have_room(
    cfg: TxConfig,
    phase: PhaseModel,
    bus: BusModel,
    reply: Option<u32>,
)
    ensures
        tx_turn(cfg, phase, bus, reply).action is WriteFifo ==> match phase {
            TxPhase::CmdFlow { cmd } => reply is Some && tx_turn(cfg, phase, bus, reply).action == (
            ActionModel::WriteFifo { func: WIFI_FUNC, frame: cmd }),
            TxPhase::DataFlow { .. } => reply matches Some(free) && free > cfg.flow_threshold,
            _ => false,
        },
{
}

/// A turn takes waiting frames off the bus only from the front, one at a time, unless
/// there is no connection, when it drops them all. The frame taken is the one written,
/// or it is too short for an Ethernet frame.
pub proof fn law_frames_leave_in_order(
    cfg: TxConfig,
    phase: PhaseModel,
    bus: BusModel,
    reply: Option<u32>,
)
    requires
        bus.wf(),
    ensures
        ({
            let turn = tx_turn(cfg, phase, bus, reply);
            &&& turn.bus.wf()
            &&& turn.bus.queue == bus.queue || turn.bus == bus.without_first() || (
            !bus.connected() && turn.bus.queue.len() == 0)
            &&& turn.action matches TxAction::WriteFifo { frame, .. } ==> match phase {
                TxPhase::DataFlow { batch, .. } => turn.bus == bus.without_first() && frame
                    == data_frame(bus.queue[0].data, batch.vif_idx, batch.sta_idx, cfg.is_v3),
                _ => turn.bus == bus,
            }
            &&& phase is DataFlow && turn.bus != bus && !(turn.action is WriteFifo)
                ==> bus.queue[0].data.len() < ETH_HEADER_LEN
        }),
{
    if bus.queue.len() > 0 {
        let rest = bus.without_first();
        assert forall|i: int| 0 <= i < rest.queue.len() implies crate::wifi::codec::has_room(
            (#[trigger] rest.queue[i]).data.len() as int,
        ) by {
            assert(rest.queue[i] == bus.queue[i + 1]);
        }
    }
}

/// The response to a command is given up exactly where there was no room for it.
pub proof fn law_response_is_given_up(
    cfg: TxConfig,
    phase: PhaseModel,
    bus: BusModel,
    reply: Option<u32>,
)
    ensures
        tx_turn(cfg, phase, bus, reply).bus.rsp_error == (bus.rsp_error || (phase is CmdFlow
            && reply is None)),
        tx_turn(cfg, phase, bus, reply).action is WakeRsp <==> phase is CmdFlow && reply is None,
{
}

/// A pass that nobody disturbs, and that finds given answers.
#[verifier::ext_equal]
pub struct TxRun {
    /// Where it stands.
    pub phase: PhaseModel,
    /// The bus.
    pub bus: BusModel,
    /// Data frames that it has written.
    pub written: Seq<Seq<u8>>,
}

/// The frame that a turn writes, where it is data.
pub open spec fn data_written(phase: PhaseModel, action: ActionModel) -> Seq<Seq<u8>> {
    match action {
        TxAction::WriteFifo { frame, .. } if phase is DataFlow => seq![frame],
        _ => Seq::empty(),
    }
}

/// A pass over a bus that nobody else changes.
pub open spec fn tx_alone(
    cfg: TxConfig,
    phase: PhaseModel,
    bus: BusModel,
    replies: Seq<Option<u32>>,
) -> TxRun
    decreases replies.len(),
{
    if replies.len() == 0 {
        TxRun { phase, bus, written: Seq::empty() }
    } else {
        let run = tx_alone(cfg, phase, bus, replies.drop_last());
        let turn = tx_turn(cfg, run.phase, run.bus, replies.last());
        TxRun {
            phase: turn.phase,
            bus: turn.bus,
            written: run.written + data_written(run.phase, turn.action),
        }
    }
}

/// What is written for some waiting frames: those that are long enough, in their order.
pub open spec fn frames_for(
    cfg: TxConfig,
    queue: Seq<FrameModel>,
    vif_idx: u8,
    sta_idx: u8,
) -> Seq<Seq<u8>>
    decreases queue.len(),
{
    if queue.len() == 0 {
        Seq::empty()
    } else {
        let before = frames_for(cfg, queue.drop_last(), vif_idx, sta_idx);
        if queue.last().data.len() < ETH_HEADER_LEN {
            before
        } else {
            before.push(data_frame(queue.last().data, vif_idx, sta_idx, cfg.is_v3))
        }
    }
}

/// The frames of a batch go where the connection says.
pub open spec fn addressed(phase: PhaseModel, bus: BusModel) -> bool {
    match phase {
        TxPhase::DataFlow { batch, .. } => batch.vif_idx == bus.conn.vif_idx && batch.sta_idx
            == bus.conn.sta_idx,
        TxPhase::DataYield { batch, .. } => batch.vif_idx == bus.conn.vif_idx && batch.sta_idx
            == bus.conn.sta_idx,
        TxPhase::DataWrite { batch } => batch.vif_idx == bus.conn.vif_idx && batch.sta_idx
            == bus.conn.sta_idx,
        _ => true,
    }
}

/// A pass over a connected bus writes the waiting frames in the order in which they came,
/// each once, and keeps those that it does not come to.
#[verifier::rlimit(40)]
pub proof fn law_data_keeps_order(cfg: TxConfig, bus: BusModel, replies: Seq<Option<u32>>)
    requires
        bus.wf(),
        bus.connected(),
    ensures
        ({
            let run = tx_alone(cfg, PhaseModel::Begin, bus, replies);
            let taken = bus.queue.len() - run.bus.queue.len();
            &&& run.bus.wf()
            &&& run.bus.conn == bus.conn
            &&& addressed(run.phase, run.bus)
            &&& 0 <= taken <= bus.queue.len()
            &&& run.bus.queue == bus.queue.skip(taken)
            &&& run.written == frames_for(
                cfg,
                bus.queue.take(taken),
                bus.conn.vif_idx,
                bus.conn.sta_idx,
            )
        }),
    decreases replies.len(),
{
    if replies.len() == 0 {
        assert(bus.queue.skip(0) =~= bus.queue);
        assert(bus.queue.take(0) =~= Seq::empty());
    } else {
        law_data_keeps_order(cfg, bus, replies.drop_last());
        let run = tx_alone(cfg, PhaseModel::Begin, bus, replies.drop_last());
        let next = tx_alone(cfg, PhaseModel::Begin, bus, replies);
        let turn = tx_turn(cfg, run.phase, run.bus, replies.last());
        law_frames_leave_in_order(cfg, run.phase, run.bus, replies.last());
        let taken = bus.queue.len() - run.bus.queue.len();
        if turn.bus.queue == run.bus.queue {
            assert(data_written(run.phase, turn.action) =~= Seq::empty());
            assert(next.written =~= run.written);
        } else {
            assert(turn.bus == run.bus.without_first());
            assert(run.phase is DataFlow);
            assert(turn.bus.queue =~= bus.queue.skip(taken + 1));
            let more = bus.queue.take(taken + 1);
            assert(more.drop_last() =~= bus.queue.take(taken));
            assert(more.last() == run.bus.queue[0]);
            if more.last().data.len() < ETH_HEADER_LEN {
                assert(next.written =~= run.written);
            } else {
                assert(next.written =~= run.written.push(
                    data_frame(
                        more.last().data,
                        bus.conn.vif_idx,
                        bus.conn.sta_idx,
                        cfg.is_v3,
                    ),
                ));
            }
        }
    }
}

/// Without a connection a pass writes no data, and when it ends on a bus in use every
/// waiting frame has been dropped.
pub proof fn law_unconnected_drops_data(cfg: TxConfig, bus: BusModel, replies: Seq<Option<u32>>)
    requires
        bus.wf(),
        !bus.connected(),
        bus.state == BusState::Up,
    ensures
        ({
            let run = tx_alone(cfg, PhaseModel::Begin, bus, replies);
            &&& run.written.len() == 0
            &&& !(run.phase is DataFlow || run.phase is DataYield || run.phase is DataWrite)
            &&& run.bus.conn == bus.conn
            &&& run.bus.state == bus.state
            &&& run.phase is Over ==> run.bus.queue.len() == 0 && run.bus.pktcnt == 0
        }),
    decreases replies.len(),
{
    if replies.len() > 0 {
        law_unconnected_drops_data(cfg, bus, replies.drop_last());
    }
}

/// Turns that a pass may still take on a bus that nobody else changes.
pub open spec fn turns_left(phase: PhaseModel, waiting: nat) -> int {
    2 * DATA_FLOW_ATTEMPTS * waiting + match phase {
        TxPhase::Over { .. } => -2 * DATA_FLOW_ATTEMPTS * waiting,
        TxPhase::DataFlow { asked, .. } => 2 * (DATA_FLOW_ATTEMPTS - asked) + 2,
        TxPhase::DataYield { asked, .. } => 2 * (DATA_FLOW_ATTEMPTS - asked) + 1,
        TxPhase::DataWrite { .. } => 2 * DATA_FLOW_ATTEMPTS + 1,
        TxPhase::CmdUnmask { .. } => 2 * DATA_FLOW_ATTEMPTS + 1,
        TxPhase::CmdReport { .. } => 2 * DATA_FLOW_ATTEMPTS + 2,
        TxPhase::CmdWrite => 2 * DATA_FLOW_ATTEMPTS + 3,
        TxPhase::CmdFlow { .. } => 2 * DATA_FLOW_ATTEMPTS + 4,
        TxPhase::CmdMask { .. } => 2 * DATA_FLOW_ATTEMPTS + 5,
        TxPhase::Begin => 2 * DATA_FLOW_ATTEMPTS + 6,
    }
}

#[verifier::rlimit(40)]
proof fn lemma_turn_leaves_fewer(
    cfg: TxConfig,
    phase: PhaseModel,
    bus: BusModel,
    reply: Option<u32>,
)
    requires
        bus.wf(),
        phase.wf(cfg),
        !(phase is Over),
    ensures
        ({
            let turn = tx_turn(cfg, phase, bus, reply);
            &&& turn.phase.wf(cfg)
            &&& turn.bus.wf()
            &&& turns_left(turn.phase, turn.bus.queue.len()) < turns_left(phase, bus.queue.len())
        }),
{
    law_frames_leave_in_order(cfg, phase, bus, reply);
    let turn = tx_turn(cfg, phase, bus, reply);
    let waiting = bus.queue.len() as int;
    assert(2 * DATA_FLOW_ATTEMPTS * waiting == 100 * waiting) by (nonlinear_arith)
        requires
            DATA_FLOW_ATTEMPTS == 50,
    ;
    assert(2 * DATA_FLOW_ATTEMPTS * (waiting - 1) == 100 * waiting - 100) by (nonlinear_arith)
        requires
            DATA_FLOW_ATTEMPTS == 50,
    ;
    let then = turn.bus.queue.len() as int;
    assert(2 * DATA_FLOW_ATTEMPTS * then == 100 * then) by (nonlinear_arith)
        requires
            DATA_FLOW_ATTEMPTS == 50,
    ;
    assert(-2 * DATA_FLOW_ATTEMPTS * then == -100 * then) by (nonlinear_arith)
        requires
            DATA_FLOW_ATTEMPTS == 50,
    ;
}

/// A pass over a bus that nobody else changes ends, whatever the answers: after at most
/// two turns for each question for a buffer, asked the full number of times for each
/// waiting frame and once more, and six for the rest.
pub proof fn law_pass_ends(cfg: TxConfig, bus: BusModel, replies: Seq<Option<u32>>)
    requires
        bus.wf(),
        replies.len() >= 100 * bus.queue.len() + 106,
    ensures
        tx_alone(cfg, PhaseModel::Begin, bus, replies).phase is Over,
{
    lemma_pass_counts_down(cfg, bus, replies);
    let waiting = bus.queue.len() as int;
    assert(2 * DATA_FLOW_ATTEMPTS * waiting == 100 * waiting) by (nonlinear_arith)
        requires
            DATA_FLOW_ATTEMPTS == 50,
    ;
}

proof fn lemma_pass_counts_down(cfg: TxConfig, bus: BusModel, replies: Seq<Option<u32>>)
    requires
        bus.wf(),
    ensures
        ({
            let run = tx_alone(cfg, PhaseModel::Begin, bus, replies);
            &&& run.phase.wf(cfg)
            &&& run.bus.wf()
            &&& run.phase is Over || turns_left(run.phase, run.bus.queue.len()) + replies.len()
                <= turns_left(PhaseModel::Begin, bus.queue.len())
            &&& run.phase is Over || turns_left(run.phase, run.bus.queue.len()) > 0
        }),
    decreases replies.len(),
{
    if replies.len() > 0 {
        lemma_pass_counts_down(cfg, bus, replies.drop_last());
        let run = tx_alone(cfg, PhaseModel::Begin, bus, replies.drop_last());
        if !(run.phase is Over) {
            lemma_turn_leaves_fewer(cfg, run.phase, run.bus, replies.last());
        }
        let next = tx_alone(cfg, PhaseModel::Begin, bus, replies);
        let waiting = next.bus.queue.len() as int;
        assert(2 * DATA_FLOW_ATTEMPTS * waiting == 100 * waiting) by (nonlinear_arith)
            requires
                DATA_FLOW_ATTEMPTS == 50,
        ;
    }
}

/// Room means progress: while a pass asks for a free buffer, every answer above the threshold,
/// however large, makes that very turn take the frame that has waited longest off the queue,
/// and nothing else off the bus; a frame with a whole Ethernet header is written, every byte
/// of it, to function 1 of the chip; a shorter one is dropped.
pub proof fn law_room_means_progress(
    cfg: TxConfig,
    batch: Batch,
    asked: u32,
    bus: BusModel,
    free: u32,
)
    requires
        bus.wf(),
        bus.queue.len() > 0,
        free > cfg.flow_threshold,
    ensures
        ({
            let turn = tx_turn(cfg, PhaseModel::DataFlow { batch, asked }, bus, Some(free));
            let eth = bus.queue[0].data;
            &&& turn.bus.queue.len() == bus.queue.len() - 1
            &&& turn.bus.pktcnt == turn.bus.queue.len()
            &&& forall|i: int|
                0 <= i < turn.bus.queue.len() ==> #[trigger] turn.bus.queue[i] == bus.queue[i + 1]
            &&& same_but_queue(turn.bus, bus)
            &&& eth.len() >= 14 ==> {
                &&& turn.action matches TxAction::WriteFifo { func, frame } && func == 1
                    && has_bytes(frame, eth, batch.vif_idx, batch.sta_idx, cfg.is_v3)
                &&& turn.phase == (PhaseModel::DataWrite { batch })
            }
            &&& eth.len() < 14 ==> turn.action is ReadFlowCtrl || turn.action is Done
        }),
{
    let eth = bus.queue[0].data;
    if eth.len() >= 14 {
        law_data_frame_bytes(eth, batch.vif_idx, batch.sta_idx, cfg.is_v3);
    }
}

/// Room is room: how much of it there is beyond the threshold makes no difference.
pub proof fn law_room_is_room(
    cfg: TxConfig,
    batch: Batch,
    asked: u32,
    bus: BusModel,
    free: u32,
    more: u32,
)
    requires
        free > cfg.flow_threshold,
        more > cfg.flow_threshold,
    ensures
        tx_turn(cfg, PhaseModel::DataFlow { batch, asked }, bus, Some(free)) == tx_turn(
            cfg,
            PhaseModel::DataFlow { batch, asked },
            bus,
            Some(more),
        ),
{
}

/// Without room nothing is lost: the pass gives way and leaves the bus as it is; then it asks
/// again, until it has asked fifty times, and ends.
pub proof fn law_no_room_loses_nothing(
    cfg: TxConfig,
    batch: Batch,
    asked: u32,
    bus: BusModel,
    later: BusModel,
    reply: Option<u32>,
    ignored: Option<u32>,
)
    requires
        1 <= asked <= 50,
        reply matches Some(free) ==> free <= cfg.flow_threshold,
    ensures
        ({
            let turn = tx_turn(cfg, PhaseModel::DataFlow { batch, asked }, bus, reply);
            let next = tx_turn(cfg, turn.phase, later, ignored);
            &&& turn.bus == bus
            &&& turn.action is Yield
            &&& next.bus == later
            &&& asked < 50 ==> next.action is ReadFlowCtrl && next.phase == (PhaseModel::DataFlow {
                batch,
                asked: (asked + 1) as u32,
            })
            &&& asked == 50 ==> next.action == (ActionModel::Done { did_work: batch.did_work })
        }),
{
}

/// A pass that finds no command begins with the data, where there is some, the bus is in use
/// and connected, and the batch has room: it asks for a free buffer, for the interface and
/// the station of the connection, and touches nothing. Without a connection every waiting
/// frame is dropped. It ends where there is nothing to do.
pub proof fn law_pass_begins_with_data(cfg: TxConfig, bus: BusModel, reply: Option<u32>)
    requires
        bus.wf(),
        bus.state == BusState::Up,
        !bus.pending_flag || bus.pending is None,
    ensures
        ({
            let turn = tx_turn(cfg, PhaseModel::Begin, bus, reply);
            let linked = bus.conn.vif_idx != 255;
            let data = !bus.pending_flag && bus.queue.len() > 0 && cfg.batch_limit > 0;
            &&& !linked ==> turn.bus.queue.len() == 0 && turn.bus.pktcnt == 0 && turn.action == (
            ActionModel::Done { did_work: false })
            &&& same_but_queue(turn.bus, bus)
            &&& linked ==> turn.bus == bus
            &&& linked && data ==> {
                &&& turn.action is ReadFlowCtrl
                &&& turn.phase == (PhaseModel::DataFlow {
                    batch: Batch {
                        vif_idx: bus.conn.vif_idx,
                        sta_idx: bus.conn.sta_idx,
                        sent: 0,
                        did_work: false,
                    },
                    asked: 1,
                })
            }
            &&& linked && !data ==> turn.action == (
            ActionModel::Done { did_work: false })
        }),
{
}

/// Behind a command the data has its turn in the same way, unless the next command waits
/// already or the bus has been shut down.
pub proof fn law_data_follows_command(
    cfg: TxConfig,
    bus: BusModel,
    did_work: bool,
    reply: Option<u32>,
)
    requires
        bus.wf(),
    ensures
        ({
            let turn = tx_turn(cfg, PhaseModel::CmdUnmask { did_work }, bus, reply);
            let linked = bus.conn.vif_idx != 255;
            let free = !bus.pending_flag && bus.state == BusState::Up;
            &&& !linked ==> turn.bus.queue.len() == 0 && turn.bus.pktcnt == 0 && turn.action == (
            ActionModel::Done { did_work })
            &&& same_but_queue(turn.bus, bus)
            &&& linked ==> turn.bus == bus
            &&& linked && free && bus.queue.len() > 0 && cfg.batch_limit > 0 ==> {
                &&& turn.action is ReadFlowCtrl
                &&& turn.phase == (PhaseModel::DataFlow {
                    batch: Batch {
                        vif_idx: bus.conn.vif_idx,
                        sta_idx: bus.conn.sta_idx,
                        sent: 0,
                        did_work,
                    },
                    asked: 1,
                })
            }
            &&& linked && !(free && bus.queue.len() > 0 && cfg.batch_limit > 0) ==> turn.action == (
            ActionModel::Done { did_work })
        }),
{
}

/// Once a data frame has been written, or has not got through, the pass goes on to the next
/// exactly where one waits, the batch is not full, no command waits and the bus is in use;
/// only a frame that got through counts. The bus is left alone.
pub proof fn law_goes_on_with_data(
    cfg: TxConfig,
    batch: Batch,
    bus: BusModel,
    reply: Option<u32>,
)
    requires
        bus.wf(),
        batch.sent < cfg.batch_limit,
    ensures
        ({
            let turn = tx_turn(cfg, PhaseModel::DataWrite { batch }, bus, reply);
            let sent = if reply is Some {
                batch.sent + 1
            } else {
                batch.sent as int
            };
            let did_work = batch.did_work || reply is Some;
            &&& turn.bus == bus
            &&& if bus.queue.len() > 0 && sent < cfg.batch_limit && !bus.pending_flag && bus.state
                == BusState::Up {
                &&& turn.action is ReadFlowCtrl
                &&& turn.phase == (PhaseModel::DataFlow {
                    batch: Batch {
                        vif_idx: batch.vif_idx,
                        sta_idx: batch.sta_idx,
                        sent: sent as u32,
                        did_work,
                    },
                    asked: 1,
                })
            } else {
                turn.action == (ActionModel::Done { did_work })
            }
        }),
{
}

/// A command from beginning to end, whatever happens to the bus meanwhile: the card interrupt
/// is masked; the chip is asked, up to ten times, for room for as many bytes as the command
/// has in whole blocks; those bytes are written to function 1; the receive thread is woken;
/// the card interrupt is unmasked.
pub proof fn law_command_takes_its_course(
    cfg: TxConfig,
    cmd: Seq<u8>,
    buses: Seq<BusModel>,
    room: u32,
    written: u32,
    ignored: Option<u32>,
)
    requires
        buses.len() == 5,
        buses[0].state == BusState::Up,
        buses[0].pending_flag,
        buses[0].pending == Some(cmd),
        cmd.len() + 512 <= usize::MAX,
    ensures
        ({
            let t0 = tx_turn(cfg, PhaseModel::Begin, buses[0], ignored);
            let t1 = tx_turn(cfg, t0.phase, buses[1], ignored);
            let t2 = tx_turn(cfg, t1.phase, buses[2], Some(room));
            let t3 = tx_turn(cfg, t2.phase, buses[3], Some(written));
            let t4 = tx_turn(cfg, t3.phase, buses[4], ignored);
            &&& t0.action is MaskCardIrq
            &&& t0.bus.pending is None && !t0.bus.pending_flag
            &&& t0.bus.queue == buses[0].queue && t0.bus.pktcnt == buses[0].pktcnt
            &&& t0.bus.state == buses[0].state && t0.bus.conn == buses[0].conn
            &&& t0.bus.received == buses[0].received && t0.bus.rsp_error == buses[0].rsp_error
            &&& t1.action matches TxAction::WaitFlowCtrl { len, attempts } && attempts == 10 && len
                as int % 512 == 0 && cmd.len() <= len < cmd.len() + 512
            &&& t2.action matches TxAction::WriteFifo { func, frame } && func == 1 && (
            t1.action matches TxAction::WaitFlowCtrl { len, .. } && frame.len() == len)
                && frame.len() >= cmd.len() && (forall|i: int|
                0 <= i < frame.len() ==> #[trigger] frame[i] == (if i < cmd.len() {
                    cmd[i]
                } else {
                    0
                }))
            &&& t3.action is WakeRx
            &&& t4.action is UnmaskCardIrq
            &&& t4.phase == (PhaseModel::CmdUnmask { did_work: true })
            &&& t1.bus == buses[1] && t2.bus == buses[2] && t3.bus == buses[3] && t4.bus == buses[4]
        }),
{
    law_padding_keeps_frame(cmd);
    let padded = block_padded(cmd);
    assert forall|i: int| 0 <= i < padded.len() implies #[trigger] padded[i] == (if i < cmd.len() {
        cmd[i]
    } else {
        0
    }) by {
        if i < cmd.len() {
            assert(padded.take(cmd.len() as int)[i] == cmd[i]);
        }
    }
}

/// A command that the chip has no room for is not written: whoever waits for its response is
/// woken, and finds that there will be none; one that does not get through wakes nobody. The
/// card interrupt is unmasked in either case, and nothing has been sent.
pub proof fn law_command_fails(
    cfg: TxConfig,
    cmd: Seq<u8>,
    bus: BusModel,
    later: BusModel,
    ignored: Option<u32>,
)
    ensures
        ({
            let no_room = tx_turn(cfg, PhaseModel::CmdFlow { cmd }, bus, None);
            let after = tx_turn(cfg, no_room.phase, later, ignored);
            let lost = tx_turn(cfg, PhaseModel::CmdWrite, bus, None);
            &&& no_room.action is WakeRsp
            &&& no_room.bus.rsp_error
            &&& no_room.bus == (BusModel { rsp_error: true, ..bus })
            &&& after.action is UnmaskCardIrq
            &&& after.phase == (PhaseModel::CmdUnmask { did_work: false })
            &&& after.bus == later
            &&& lost.action is UnmaskCardIrq
            &&& lost.phase == (PhaseModel::CmdUnmask { did_work: false })
            &&& lost.bus == bus
        }),
{
}

/// The chip has room for another frame whenever it is asked.
pub open spec fn generous(cfg: TxConfig, replies: Seq<Option<u32>>) -> bool {
    forall|i: int|
        0 <= i < replies.len() ==> (#[trigger] replies[i]) is Some && replies[i].unwrap()
            > cfg.flow_threshold
}

/// A pass over a connected bus in use, without a command, to a chip that has room: it writes
/// frame after frame, two turns for each, until none waits or the batch is full, and then
/// ends. So a waiting frame gets through as soon as there is room for it.
pub proof fn law_pass_empties_queue(
    cfg: TxConfig,
    bus: BusModel,
    replies: Seq<Option<u32>>,
    k: nat,
)
    requires
        bus.wf(),
        bus.state == BusState::Up,
        !bus.pending_flag,
        bus.conn.vif_idx != 255,
        forall|i: int| 0 <= i < bus.queue.len() ==> (#[trigger] bus.queue[i]).data.len() >= 14,
        generous(cfg, replies),
        k <= bus.queue.len(),
        k <= cfg.batch_limit,
        replies.len() == 2 * k + 1,
    ensures
        ({
            let run = tx_alone(cfg, PhaseModel::Begin, bus, replies);
            &&& run.written.len() == k
            &&& run.bus.queue == bus.queue.skip(k as int)
            &&& run.bus.state == BusState::Up && !run.bus.pending_flag
            &&& run.bus.wf()
            &&& k < bus.queue.len() && k < cfg.batch_limit ==> run.phase == (PhaseModel::DataFlow {
                batch: Batch {
                    vif_idx: bus.conn.vif_idx,
                    sta_idx: bus.conn.sta_idx,
                    sent: k as u32,
                    did_work: k > 0,
                },
                asked: 1,
            })
            &&& k == bus.queue.len() || k == cfg.batch_limit ==> run.phase == (PhaseModel::Over {
                did_work: k > 0,
            })
        }),
    decreases k,
{
    if k == 0 {
        let first = replies.drop_last();
        assert(first.len() == 0);
        assert(tx_alone(cfg, PhaseModel::Begin, bus, first).written =~= Seq::empty());
        assert(bus.queue.skip(0) =~= bus.queue);
        let run = tx_alone(cfg, PhaseModel::Begin, bus, replies);
        assert(run.written =~= Seq::empty());
    } else {
        let m = (k - 1) as nat;
        let first = replies.drop_last();
        let before = first.drop_last();
        assert(generous(cfg, before)) by {
            assert forall|i: int| 0 <= i < before.len() implies (#[trigger] before[i]) is Some
                && before[i].unwrap() > cfg.flow_threshold by {
                assert(before[i] == replies[i]);
            }
        }
        assert(replies[2 * k - 1] is Some && replies[(2 * k) as int] is Some);
        law_pass_empties_queue(cfg, bus, before, m);
        let at = tx_alone(cfg, PhaseModel::Begin, bus, before);
        let wrote = tx_alone(cfg, PhaseModel::Begin, bus, first);
        assert(at.bus.queue[0] == bus.queue[m as int]);
        assert(first.last() == replies[2 * k - 1]);
        law_frames_leave_in_order(cfg, at.phase, at.bus, first.last());
        assert(wrote.phase is DataWrite);
        assert(wrote.bus.queue =~= bus.queue.skip(k as int));
        let run = tx_alone(cfg, PhaseModel::Begin, bus, replies);
        assert(run.bus == wrote.bus);
        assert(run.written =~= wrote.written);
    }
}

/// An action as a value is the action, with the bytes that it has.
pub proof fn law_action_is_itself(action: TxAction<Vec<u8>>)
    ensures
        action matches TxAction::WriteFifo { func, frame } ==> action@ == (ActionModel::WriteFifo {
            func,
            frame: frame@,
        }),
        action matches TxAction::WaitFlowCtrl { len, attempts } ==> action@ == (
        ActionModel::WaitFlowCtrl { len, attempts }),
        action matches TxAction::Done { did_work } ==> action@ == (ActionModel::Done { did_work }),
        action is MaskCardIrq <==> action@ is MaskCardIrq,
        action is UnmaskCardIrq <==> action@ is UnmaskCardIrq,
        action is ReadFlowCtrl <==> action@ is ReadFlowCtrl,
        action is Yield <==> action@ is Yield,
        action is WakeRx <==> action@ is WakeRx,
        action is WakeRsp <==> action@ is WakeRsp,
{
}

/// A phase as a value is the phase, with the bytes that it has.
pub proof fn law_phase_is_itself(phase: TxPhase<Vec<u8>>)
    ensures
        phase is Begin <==> phase@ is Begin,
        phase is CmdWrite <==> phase@ is CmdWrite,
        phase matches TxPhase::CmdMask { cmd } ==> phase@ == (PhaseModel::CmdMask { cmd: cmd@ }),
        phase matches TxPhase::CmdFlow { cmd } ==> phase@ == (PhaseModel::CmdFlow { cmd: cmd@ }),
        phase matches TxPhase::CmdReport { did_work } ==> phase@ == (PhaseModel::CmdReport {
            did_work,
        }),
        phase matches TxPhase::CmdUnmask { did_work } ==> phase@ == (PhaseModel::CmdUnmask {
            did_work,
        }),
        phase matches TxPhase::DataFlow { batch, asked } ==> phase@ == (PhaseModel::DataFlow {
            batch,
            asked,
        }),
        phase matches TxPhase::DataYield { batch, asked } ==> phase@ == (PhaseModel::DataYield {
            batch,
            asked,
        }),
        phase matches TxPhase::DataWrite { batch } ==> phase@ == (PhaseModel::DataWrite { batch }),
        phase matches TxPhase::Over { did_work } ==> phase@ == (PhaseModel::Over { did_work }),
{
}

/// A pass that is over stays so: it leaves the bus alone and keeps giving its answer.
pub proof fn law_over_stays_over(cfg: TxConfig, did_work: bool, bus: BusModel, reply: Option<u32>)
    ensures
        ({
            let turn = tx_turn(cfg, PhaseModel::Over { did_work }, bus, reply);
            &&& turn.bus == bus
            &&& turn.phase == (PhaseModel::Over { did_work })
            &&& turn.action == (ActionModel::Done { did_work })
        }),
{
}

} // verus!
