//! What an operation asks for, one request after the other, and what it answers.

use vstd::prelude::*;

use crate::error::{Answer, SdioError};
use crate::irq::IrqFlag;
use crate::regs::{
    CCCR_IO_ENABLE, CCCR_IO_READY, CC_SD_CLK_EN, FBR_STRIDE, IO_BLOCK_SIZE_MAX,
    IO_BLOCK_SIZE_OFFSET, MAX_DIVISOR, SDHCI_ARGUMENT, SDHCI_BLOCK_COUNT, SDHCI_BLOCK_SIZE, SDHCI_CAPABILITIES,
    SDHCI_CLOCK_CONTROL, SDHCI_COMMAND, SDHCI_RESPONSE, SDHCI_SOFTWARE_RESET, SDHCI_TRANSFER_MODE,
    SDIO_ADDR_MASK, SWRST_DAT_LINE,
};
use crate::sdhci::card::{EnableFunc, EnablePhase, SetBlockSize, READY_PAUSE, READY_POLLS};
use crate::sdhci::clock::{
    base_clock_of, clock_divided, clock_stopped, divisor_of, law_divisor_keeps_rate, rate_within,
    reachable, SetClock,
};
use crate::sdhci::command::{command_word, flags_of, r5_answer, Cmd52, SendCmd};
use crate::sdhci::config::HostConfig;
use crate::sdhci::frame::{Frame, Io, IrqOp, Out, ERROR_TAKEN};
use crate::sdhci::transfer::{shape_word, Cmd53, Fifo, Pio, Transfer, TransferPlan};
use crate::sdhci::wait::{
    error_of, Poll, PollCond, ResetDat, WaitIrq, WaitPhase, WAIT_SPINS, WAIT_YIELDS,
};

verus! {

/// What an operation has become once it has been resumed `n` times; `inputs(i)` is what
/// it is resumed with after `i` times.
#[verifier::opaque]
pub open spec fn frame_after(
    frame: Frame,
    cfg: HostConfig,
    inputs: spec_fn(int) -> Answer,
    n: nat,
) -> Frame
    decreases n,
{
    if n == 0 {
        frame
    } else {
        frame_after(frame, cfg, inputs, (n - 1) as nat).next(cfg, inputs(n - 1)).frame
    }
}

/// What an operation asks for when it is resumed after `n` times.
#[verifier::opaque]
pub open spec fn ask(
    frame: Frame,
    cfg: HostConfig,
    inputs: spec_fn(int) -> Answer,
    n: nat,
) -> Out {
    frame_after(frame, cfg, inputs, n).next(cfg, inputs(n as int)).out
}

/// One more time: where an operation has become `now`, what it asks for, and what it
/// becomes, is up to `now`.
#[verifier::rlimit(40)]
pub proof fn lemma_advance(
    frame: Frame,
    cfg: HostConfig,
    inputs: spec_fn(int) -> Answer,
    n: nat,
    now: Frame,
)
    requires
        frame_after(frame, cfg, inputs, n) == now,
    ensures
        ask(frame, cfg, inputs, n) == now.next(cfg, inputs(n as int)).out,
        frame_after(frame, cfg, inputs, n + 1) == now.next(cfg, inputs(n as int)).frame,
{
    reveal(ask);
    reveal_with_fuel(frame_after, 2);
}

/// An operation that has not been resumed is what it is.
#[verifier::rlimit(40)]
pub proof fn lemma_not_resumed(frame: Frame, cfg: HostConfig, inputs: spec_fn(int) -> Answer)
    ensures
        frame_after(frame, cfg, inputs, 0) == frame,
{
    reveal_with_fuel(frame_after, 1);
}

/// The first `n` requests have been answered without a failure.
pub open spec fn well_until(inputs: spec_fn(int) -> Answer, n: nat) -> bool
    decreases n,
{
    n > 0 ==> well_until(inputs, (n - 1) as nat) && inputs(n as int) is Ok
}

/// The operation has been resumed before.
pub open spec fn begun(frame: Frame) -> bool {
    match frame {
        Frame::Poll(f) => f.asked,
        Frame::ResetDat(_) => false,
        Frame::WaitIrq(f) => f.phase is Error || f.phase is Flag,
        Frame::SendCmd(f) => !(f.phase is Begin),
        Frame::Cmd52(f) => f.sent,
        Frame::Cmd53(f) => !(f.phase is Begin) && f.transfer.is_supported(),
        Frame::Pio(f) => !(f.phase is Block),
        Frame::Fifo(f) => !(f.phase is Begin),
        Frame::CisPtr(f) => f.asked != 0,
        Frame::Manfid(f) => !(f.phase is Begin),
        Frame::SetBlockSize(f) => !(f.phase is Begin),
        Frame::EnableFunc(f) => !(f.phase is Begin),
        Frame::SetClock(f) => !(f.phase is Begin),
        Frame::Init(f) => !(f.phase is Begin),
    }
}

/// A failure of what an operation has asked for ends the operation, with that failure as
/// its answer. The one exception is that the identification is looked for in a second
/// place.
#[verifier::rlimit(40)]
pub proof fn law_failure_ends(frame: Frame, cfg: HostConfig, error: SdioError)
    requires
        begun(frame),
        !(frame matches Frame::Init(f) && f.phase is FuncIds),
    ensures
        frame.next(cfg, Err(error)).out == Out::Return(Err(error)),
{
}

/// The inputs of a poll where `reads(k)` is what its read number `k` gives.
pub open spec fn poll_inputs(reads: spec_fn(int) -> u32) -> spec_fn(int) -> Answer {
    |i: int| Ok(reads(i / 2))
}

/// A register is read again and again, with a pause in between. As long as no read gives
/// the value waited for, there is a next read, up to the number allowed; the first that
/// gives it ends the poll; after the last, the poll gives up.
pub proof fn law_poll(
    cond: PollCond,
    polls: u32,
    cfg: HostConfig,
    reads: spec_fn(int) -> u32,
    k: nat,
)
    requires
        k <= polls,
        forall|j: int| 0 <= j < k ==> !cond.met_by(#[trigger] reads(j)),
    ensures
        k < polls ==> {
            &&& ask(Poll::of(cond, polls), cfg, poll_inputs(reads), 2 * k) == Out::Io(
                cond.register(),
            )
            &&& ask(Poll::of(cond, polls), cfg, poll_inputs(reads), 2 * k + 1) == (
            if cond.met_by(reads(k as int)) {
                Out::Return(Ok(0))
            } else {
                Out::Io(Io::Spin { times: 1 })
            })
        },
        k == polls ==> ask(Poll::of(cond, polls), cfg, poll_inputs(reads), 2 * k) == Out::Return(
            cond.gives_up_with(),
        ),
{
    lemma_poll_goes_on(cond, polls, cfg, reads, k);
    let frame = Poll::of(cond, polls);
    let inputs = poll_inputs(reads);
    let i = 2 * k as int;
    assert(inputs(i + 1) == Ok::<u32, SdioError>(reads(k as int)));
    lemma_advance(frame, cfg, inputs, i as nat, Poll::of(cond, (polls - k) as u32));
    if k < polls {
        let left = (polls - k - 1) as u32;
        let asked = Frame::Poll(Poll { cond, left, asked: true });
        lemma_advance(frame, cfg, inputs, (i + 1) as nat, asked);
    }
}

proof fn lemma_poll_goes_on(
    cond: PollCond,
    polls: u32,
    cfg: HostConfig,
    reads: spec_fn(int) -> u32,
    k: nat,
)
    requires
        k <= polls,
        forall|j: int| 0 <= j < k ==> !cond.met_by(#[trigger] reads(j)),
    ensures
        frame_after(Poll::of(cond, polls), cfg, poll_inputs(reads), 2 * k) == Poll::of(
            cond,
            (polls - k) as u32,
        ),
    decreases k,
{
    let frame = Poll::of(cond, polls);
    let inputs = poll_inputs(reads);
    if k == 0 {
        lemma_not_resumed(frame, cfg, inputs);
    } else {
        let m = (k - 1) as nat;
        lemma_poll_goes_on(cond, polls, cfg, reads, m);
        let i = 2 * m as int;
        assert(inputs(i + 1) == Ok::<u32, SdioError>(reads(m as int)));
        let left = (polls - k) as u32;
        lemma_advance(frame, cfg, inputs, i as nat, Poll::of(cond, (left + 1) as u32));
        let asked = Frame::Poll(Poll { cond, left, asked: true });
        lemma_advance(frame, cfg, inputs, (i + 1) as nat, asked);
    }
}

/// What a look at the interrupt state gives: the answers to taking the error and to
/// taking the flag.
pub struct Look {
    /// 0, or an error status marked as such.
    pub error: u32,
    /// 0, if the flag is down.
    pub flag: u32,
}

impl Look {
    /// Nothing has happened.
    pub open spec fn is_quiet(self) -> bool {
        self.error < ERROR_TAKEN && self.flag == 0
    }
}

/// The inputs of a wait where `looks(k)` is what its look number `k` gives.
pub open spec fn wait_inputs(looks: spec_fn(int) -> Look) -> spec_fn(int) -> Answer {
    |i: int|
        if i % 3 == 1 {
            Ok(looks(i / 3).error)
        } else if i % 3 == 2 {
            Ok(looks(i / 3).flag)
        } else {
            Ok(0)
        }
}

/// A wait looks at the interrupt state again and again: first for an error, then for the
/// flag. The first look that finds something ends it. An error goes before a flag that
/// is up too: the data line is reset, and whatever comes of that, the answer is the
/// error. Between two looks there is a short pause at first, and then other tasks get
/// their turn; after the last look the wait times out.
#[verifier::rlimit(40)]
pub proof fn law_wait(flag: IrqFlag, cfg: HostConfig, looks: spec_fn(int) -> Look, k: nat)
    requires
        k <= WAIT_SPINS + WAIT_YIELDS,
        forall|j: int| 0 <= j < k ==> (#[trigger] looks(j)).is_quiet(),
    ensures
        k < WAIT_SPINS + WAIT_YIELDS ==> {
            let wait = WaitIrq::of(flag);
            let inputs = wait_inputs(looks);
            let look = looks(k as int);
            &&& ask(wait, cfg, inputs, 3 * k) == Out::Irq(IrqOp::TakeError)
            &&& look.error >= ERROR_TAKEN ==> {
                &&& ask(wait, cfg, inputs, 3 * k + 1) == Out::Call(ResetDat::of())
                &&& ask(wait, cfg, inputs, 3 * k + 2) == Out::Return(
                    Err(error_of((look.error - ERROR_TAKEN) as u16)),
                )
            }
            &&& look.error < ERROR_TAKEN ==> {
                &&& ask(wait, cfg, inputs, 3 * k + 1) == Out::Irq(IrqOp::Take(flag))
                &&& ask(wait, cfg, inputs, 3 * k + 2) == (if look.flag != 0 {
                    Out::Return(Ok(0))
                } else if k < WAIT_SPINS {
                    Out::Io(Io::Spin { times: 1 })
                } else {
                    Out::Io(Io::Yield)
                })
            }
        },
        k == WAIT_SPINS + WAIT_YIELDS ==> ask(
            WaitIrq::of(flag),
            cfg,
            wait_inputs(looks),
            3 * k,
        ) == Out::Return(Err(SdioError::Timeout)),
{
    lemma_wait_goes_on(flag, cfg, looks, k);
    let wait = WaitIrq::of(flag);
    let inputs = wait_inputs(looks);
    let look = looks(k as int);
    let i = 3 * k as int;
    let left = (WAIT_SPINS + WAIT_YIELDS - k) as u32;
    assert(inputs(i + 1) == Ok::<u32, SdioError>(look.error));
    assert(inputs(i + 2) == Ok::<u32, SdioError>(look.flag));
    lemma_advance(
        wait,
        cfg,
        inputs,
        i as nat,
        Frame::WaitIrq(WaitIrq { flag, left, phase: WaitPhase::Look }),
    );
    if k < WAIT_SPINS + WAIT_YIELDS {
        let looking = WaitIrq { flag, left: (left - 1) as u32, phase: WaitPhase::Error };
        lemma_advance(wait, cfg, inputs, (i + 1) as nat, Frame::WaitIrq(looking));
        if look.error >= ERROR_TAKEN {
            let status = (look.error - ERROR_TAKEN) as u16;
            let failed = looking.at(WaitPhase::Failed { status });
            lemma_advance(wait, cfg, inputs, (i + 2) as nat, failed);
        } else {
            lemma_advance(wait, cfg, inputs, (i + 2) as nat, looking.at(WaitPhase::Flag));
        }
    }
}

proof fn lemma_wait_goes_on(flag: IrqFlag, cfg: HostConfig, looks: spec_fn(int) -> Look, k: nat)
    requires
        k <= WAIT_SPINS + WAIT_YIELDS,
        forall|j: int| 0 <= j < k ==> (#[trigger] looks(j)).is_quiet(),
    ensures
        frame_after(WaitIrq::of(flag), cfg, wait_inputs(looks), 3 * k) == Frame::WaitIrq(
            WaitIrq {
                flag,
                left: (WAIT_SPINS + WAIT_YIELDS - k) as u32,
                phase: WaitPhase::Look,
            },
        ),
    decreases k,
{
    let wait = WaitIrq::of(flag);
    let inputs = wait_inputs(looks);
    if k == 0 {
        lemma_not_resumed(wait, cfg, inputs);
    } else {
        let m = (k - 1) as nat;
        lemma_wait_goes_on(flag, cfg, looks, m);
        let i = 3 * m as int;
        let left = (WAIT_SPINS + WAIT_YIELDS - k) as u32;
        let looking = WaitIrq { flag, left, phase: WaitPhase::Error };
        assert(looks(m as int).is_quiet());
        assert(inputs(i + 1) == Ok::<u32, SdioError>(looks(m as int).error));
        assert(inputs(i + 2) == Ok::<u32, SdioError>(looks(m as int).flag));
        lemma_advance(
            wait,
            cfg,
            inputs,
            i as nat,
            Frame::WaitIrq(WaitIrq { flag, left: (left + 1) as u32, phase: WaitPhase::Look }),
        );
        lemma_advance(wait, cfg, inputs, (i + 1) as nat, Frame::WaitIrq(looking));
        lemma_advance(wait, cfg, inputs, (i + 2) as nat, looking.at(WaitPhase::Flag));
    }
}

/// The inputs of a reset of the data line where `reads(k)` is what its read number `k`
/// gives.
pub open spec fn reset_inputs(reads: spec_fn(int) -> u32) -> spec_fn(int) -> Answer {
    |i: int| Ok(reads(i / 2 - 1))
}

/// A reset of the data line is requested once. Then the register is read, with a pause in
/// between, until it shows the end of the reset, or as often as allowed; the answer is
/// success either way.
pub proof fn law_reset_dat(cfg: HostConfig, reads: spec_fn(int) -> u32, k: nat)
    requires
        k <= cfg.reset_polls,
        forall|j: int|
            0 <= j < k ==> !PollCond::DatLineReset.met_by(#[trigger] reads(j)),
    ensures
        ({
            let reset = ResetDat::of();
            let inputs = reset_inputs(reads);
            &&& ask(reset, cfg, inputs, 0) == Out::Io(
                Io::Write8 { off: SDHCI_SOFTWARE_RESET, value: SWRST_DAT_LINE },
            )
            &&& k < cfg.reset_polls ==> {
                &&& ask(reset, cfg, inputs, 2 * k + 1) == Out::Io(
                    Io::Read8 { off: SDHCI_SOFTWARE_RESET },
                )
                &&& ask(reset, cfg, inputs, 2 * k + 2) == (
                if PollCond::DatLineReset.met_by(reads(k as int)) {
                    Out::Return(Ok(0))
                } else {
                    Out::Io(Io::Spin { times: 1 })
                })
            }
            &&& k == cfg.reset_polls ==> ask(reset, cfg, inputs, 2 * k + 1) == Out::Return(Ok(0))
        }),
{
    lemma_reset_goes_on(cfg, reads, k);
    let reset = ResetDat::of();
    let inputs = reset_inputs(reads);
    let i = 2 * k as int;
    assert(inputs(i + 2) == Ok::<u32, SdioError>(reads(k as int)));
    lemma_not_resumed(reset, cfg, inputs);
    lemma_advance(reset, cfg, inputs, 0, reset);
    let left = (cfg.reset_polls - k) as u32;
    lemma_advance(reset, cfg, inputs, (i + 1) as nat, resetting(cfg, left));
    if k < cfg.reset_polls {
        let asked = Poll { cond: PollCond::DatLineReset, left: (left - 1) as u32, asked: true };
        lemma_advance(reset, cfg, inputs, (i + 2) as nat, Frame::Poll(asked));
    }
}

/// The reset once it has been requested and `left` reads are allowed.
spec fn resetting(cfg: HostConfig, left: u32) -> Frame {
    if left == cfg.reset_polls {
        Frame::ResetDat(ResetDat { requested: true })
    } else {
        Poll::of(PollCond::DatLineReset, left)
    }
}

proof fn lemma_reset_goes_on(cfg: HostConfig, reads: spec_fn(int) -> u32, k: nat)
    requires
        k <= cfg.reset_polls,
        forall|j: int|
            0 <= j < k ==> !PollCond::DatLineReset.met_by(#[trigger] reads(j)),
    ensures
        frame_after(ResetDat::of(), cfg, reset_inputs(reads), 2 * k + 1) == resetting(
            cfg,
            (cfg.reset_polls - k) as u32,
        ),
    decreases k,
{
    let reset = ResetDat::of();
    let inputs = reset_inputs(reads);
    if k == 0 {
        lemma_not_resumed(reset, cfg, inputs);
        lemma_advance(reset, cfg, inputs, 0, reset);
    } else {
        let m = (k - 1) as nat;
        lemma_reset_goes_on(cfg, reads, m);
        let i = 2 * m as int;
        assert(inputs(i + 2) == Ok::<u32, SdioError>(reads(m as int)));
        let left = (cfg.reset_polls - k) as u32;
        lemma_advance(reset, cfg, inputs, (i + 1) as nat, resetting(cfg, (left + 1) as u32));
        let asked = Poll { cond: PollCond::DatLineReset, left, asked: true };
        lemma_advance(reset, cfg, inputs, (i + 2) as nat, Frame::Poll(asked));
    }
}

/// Sending a command: the command line has to be idle; what interrupts left behind is
/// dropped before the command goes out, so that what is waited for is its own
/// completion; argument before command; the answer is the response. A command without
/// known flags is never issued.
#[verifier::rlimit(40)]
pub proof fn law_send_cmd(index: u8, arg: u32, cfg: HostConfig, inputs: spec_fn(int) -> Answer)
    ensures
        ({
            let send = SendCmd::of(index, arg);
            &&& ask(send, cfg, inputs, 0) == Out::Call(
                Poll::of(PollCond::CmdIdle, cfg.cmd_idle_polls),
            )
            &&& well_until(inputs, 1) ==> ask(send, cfg, inputs, 1) == Out::Irq(IrqOp::Drain)
            &&& well_until(inputs, 2) ==> ask(send, cfg, inputs, 2) == Out::Io(
                Io::Write32 { off: SDHCI_ARGUMENT, value: arg },
            )
            &&& well_until(inputs, 3) ==> ask(send, cfg, inputs, 3) == match flags_of(index) {
                None => Out::Return(Err(SdioError::Unsupported)),
                Some(flags) => Out::Io(
                    Io::Write16 { off: SDHCI_COMMAND, value: command_word(index, flags) },
                ),
            }
            &&& flags_of(index) is Some ==> {
                &&& well_until(inputs, 4) ==> ask(send, cfg, inputs, 4) == Out::Call(
                    WaitIrq::of(IrqFlag::CmdComplete),
                )
                &&& well_until(inputs, 5) ==> ask(send, cfg, inputs, 5) == Out::Io(
                    Io::Read32 { off: SDHCI_RESPONSE },
                )
                &&& well_until(inputs, 6) ==> ask(send, cfg, inputs, 6) == Out::Return(inputs(6))
            }
        }),
{
    reveal(ask);
    reveal_with_fuel(frame_after, 8);
    reveal_with_fuel(well_until, 8);
}

/// Accessing a card register: an address that does not fit is refused at once; otherwise
/// one command goes out, and the answer is what its response says.
#[verifier::rlimit(40)]
pub proof fn law_cmd52(
    func: u8,
    addr: u32,
    flags: u32,
    value: u8,
    cfg: HostConfig,
    inputs: spec_fn(int) -> Answer,
)
    ensures
        ({
            let access = Cmd52 { func, addr, flags, value, sent: false };
            let frame = Cmd52::of(func, addr, flags, value);
            &&& addr > SDIO_ADDR_MASK ==> ask(frame, cfg, inputs, 0) == Out::Return(
                Err(SdioError::Unsupported),
            )
            &&& addr <= SDIO_ADDR_MASK ==> {
                &&& ask(frame, cfg, inputs, 0) == Out::Call(SendCmd::of(52, access.argument()))
                &&& ask(frame, cfg, inputs, 1) == Out::Return(
                    match inputs(1) {
                        Ok(resp) => r5_answer(resp),
                        Err(e) => Err(e),
                    },
                )
            }
        }),
{
    reveal(ask);
    reveal_with_fuel(frame_after, 3);
}

/// Opening a data transfer: one that no command can open is refused before anything is
/// written; otherwise block size, block count and mode are in place before the command
/// goes out.
#[verifier::rlimit(40)]
pub proof fn law_cmd53(transfer: Transfer, cfg: HostConfig, inputs: spec_fn(int) -> Answer)
    ensures
        ({
            let plan = transfer.plan_of();
            let open = Cmd53::of(transfer);
            &&& !transfer.is_supported() ==> ask(open, cfg, inputs, 0) == Out::Return(
                Err(SdioError::Unsupported),
            )
            &&& transfer.is_supported() ==> {
                &&& ask(open, cfg, inputs, 0) == Out::Io(
                    Io::Write16 { off: SDHCI_BLOCK_SIZE, value: plan.block_size },
                )
                &&& well_until(inputs, 1) ==> ask(open, cfg, inputs, 1) == Out::Io(
                    Io::Write16 { off: SDHCI_BLOCK_COUNT, value: plan.blocks },
                )
                &&& well_until(inputs, 2) ==> ask(open, cfg, inputs, 2) == Out::Io(
                    Io::Write16 { off: SDHCI_TRANSFER_MODE, value: plan.mode },
                )
                &&& well_until(inputs, 3) ==> ask(open, cfg, inputs, 3) == Out::Call(
                    SendCmd::of(53, plan.arg),
                )
                &&& well_until(inputs, 4) ==> ask(open, cfg, inputs, 4) == Out::Return(
                    Ok(shape_word(plan)),
                )
            }
        }),
{
    reveal(ask);
    reveal_with_fuel(frame_after, 6);
    reveal_with_fuel(well_until, 6);
}

/// Block size and number of blocks can be told apart again.
pub proof fn law_shape_round_trip(plan: TransferPlan)
    ensures
        (shape_word(plan) % 0x1_0000) as u16 == plan.block_size,
        (shape_word(plan) / 0x1_0000) as u16 == plan.blocks,
{
}

/// A whole data transfer: it is opened, as many blocks of the size it was opened with are
/// moved, and its completion is waited for.
#[verifier::rlimit(40)]
pub proof fn law_fifo(transfer: Transfer, cfg: HostConfig, inputs: spec_fn(int) -> Answer)
    requires
        transfer.is_supported(),
        inputs(1) == Ok::<u32, SdioError>(shape_word(transfer.plan_of())),
    ensures
        ({
            let plan = transfer.plan_of();
            let fifo = Fifo::of(transfer);
            &&& ask(fifo, cfg, inputs, 0) == Out::Call(Cmd53::of(transfer))
            &&& ask(fifo, cfg, inputs, 1) == Out::Call(
                Pio::of(transfer.write, plan.block_size, plan.blocks, transfer.len),
            )
            &&& well_until(inputs, 2) ==> ask(fifo, cfg, inputs, 2) == Out::Call(
                WaitIrq::of(IrqFlag::XferComplete),
            )
            &&& well_until(inputs, 3) ==> ask(fifo, cfg, inputs, 3) == Out::Return(Ok(0))
        }),
{
    law_shape_round_trip(transfer.plan_of());
    reveal(ask);
    reveal_with_fuel(frame_after, 5);
    reveal_with_fuel(well_until, 5);
}

/// Setting the bus clock: the divisor follows from the capabilities; the clock is stopped
/// before the divisor changes, and let out again only once the internal clock is stable.
#[verifier::rlimit(40)]
pub proof fn law_set_clock(hz: u32, cfg: HostConfig, inputs: spec_fn(int) -> Answer)
    requires
        hz > 0,
        well_until(inputs, 7),
        reachable(base_clock_of(cfg, inputs(1).unwrap()), hz),
    ensures
        ({
            let set = SetClock::of(hz);
            let divisor = divisor_of(base_clock_of(cfg, inputs(1).unwrap()), hz).unwrap();
            let stopped = clock_stopped(inputs(2).unwrap() as u16);
            &&& ask(set, cfg, inputs, 0) == Out::Io(Io::Read32 { off: SDHCI_CAPABILITIES })
            &&& ask(set, cfg, inputs, 1) == Out::Io(Io::Read16 { off: SDHCI_CLOCK_CONTROL })
            &&& ask(set, cfg, inputs, 2) == Out::Io(
                Io::Write16 { off: SDHCI_CLOCK_CONTROL, value: stopped },
            )
            &&& ask(set, cfg, inputs, 3) == Out::Io(
                Io::Write16 { off: SDHCI_CLOCK_CONTROL, value: clock_divided(stopped, divisor) },
            )
            &&& ask(set, cfg, inputs, 4) == Out::Call(
                Poll::of(PollCond::ClockStable, cfg.clock_stable_polls),
            )
            &&& ask(set, cfg, inputs, 5) == Out::Io(Io::Read16 { off: SDHCI_CLOCK_CONTROL })
            &&& ask(set, cfg, inputs, 6) == Out::Io(
                Io::Write16 {
                    off: SDHCI_CLOCK_CONTROL,
                    value: (inputs(6).unwrap() as u16) | CC_SD_CLK_EN,
                },
            )
            &&& ask(set, cfg, inputs, 7) == Out::Return(Ok(0))
        }),
{
    reveal(ask);
    reveal_with_fuel(frame_after, 9);
    reveal_with_fuel(well_until, 9);
}

/// A bus clock that the divider cannot make slow enough is refused, after one read of the
/// capabilities and before the clock is touched.
#[verifier::rlimit(40)]
pub proof fn law_unreachable_clock_is_refused(
    hz: u32,
    cfg: HostConfig,
    inputs: spec_fn(int) -> Answer,
)
    requires
        hz > 0,
        inputs(1) matches Ok(caps) && !reachable(base_clock_of(cfg, caps), hz),
    ensures
        ask(SetClock::of(hz), cfg, inputs, 0) == Out::Io(Io::Read32 { off: SDHCI_CAPABILITIES }),
        ask(SetClock::of(hz), cfg, inputs, 1) == Out::Return(Err(SdioError::Unsupported)),
{
    reveal(ask);
    reveal_with_fuel(frame_after, 3);
}

/// The operation has not ended within its first `n` requests.
pub open spec fn goes_on(
    frame: Frame,
    cfg: HostConfig,
    inputs: spec_fn(int) -> Answer,
    n: nat,
) -> bool {
    forall|i: nat| i < n ==> !((#[trigger] ask(frame, cfg, inputs, i)) is Return)
}

/// The bus clock is never let out faster than asked for: a setting that gets as far as
/// letting it out, as every one does that succeeds, has put a divisor into the register
/// that keeps the rate, whatever the registers read as.
#[verifier::rlimit(40)]
pub proof fn law_clock_keeps_rate(hz: u32, cfg: HostConfig, inputs: spec_fn(int) -> Answer, n: nat)
    requires
        hz > 0,
        goes_on(SetClock::of(hz), cfg, inputs, n),
        n >= 6,
    ensures
        ({
            let set = SetClock::of(hz);
            let base = base_clock_of(cfg, inputs(1).unwrap());
            &&& inputs(1) is Ok
            &&& divisor_of(base, hz) matches Some(divisor) && {
                &&& rate_within(base, divisor, hz)
                &&& divisor <= MAX_DIVISOR
                &&& ask(set, cfg, inputs, 3) == Out::Io(
                    Io::Write16 {
                        off: SDHCI_CLOCK_CONTROL,
                        value: clock_divided(
                            clock_stopped(inputs(2).unwrap() as u16),
                            divisor,
                        ),
                    },
                )
            }
        }),
{
    let set = SetClock::of(hz);
    assert(!(ask(set, cfg, inputs, 0) is Return) && !(ask(set, cfg, inputs, 1) is Return));
    assert(!(ask(set, cfg, inputs, 2) is Return) && !(ask(set, cfg, inputs, 3) is Return));
    law_divisor_keeps_rate(base_clock_of(cfg, inputs(1).unwrap()), hz);
    reveal(ask);
    reveal_with_fuel(frame_after, 5);
}

/// A setting of the bus clock that succeeds has let the clock out, and so gone on for seven
/// requests.
#[verifier::rlimit(40)]
pub proof fn law_clock_success_is_late(
    hz: u32,
    cfg: HostConfig,
    inputs: spec_fn(int) -> Answer,
    n: nat,
)
    requires
        hz > 0,
        goes_on(SetClock::of(hz), cfg, inputs, n),
        ask(SetClock::of(hz), cfg, inputs, n) matches Out::Return(Ok(_)),
    ensures
        n >= 7,
{
    let set = SetClock::of(hz);
    assert(n > 0 ==> !(ask(set, cfg, inputs, 0) is Return));
    assert(n > 1 ==> !(ask(set, cfg, inputs, 1) is Return));
    assert(n > 2 ==> !(ask(set, cfg, inputs, 2) is Return));
    assert(n > 3 ==> !(ask(set, cfg, inputs, 3) is Return));
    assert(n > 4 ==> !(ask(set, cfg, inputs, 4) is Return));
    assert(n > 5 ==> !(ask(set, cfg, inputs, 5) is Return));
    reveal(ask);
    reveal_with_fuel(frame_after, 8);
}

/// A clock that does not become stable is not let out: the register is not written again.
#[verifier::rlimit(40)]
pub proof fn law_unstable_clock_stays_off(hz: u32, cfg: HostConfig, inputs: spec_fn(int) -> Answer)
    requires
        hz > 0,
        well_until(inputs, 4),
        inputs(5) is Err,
    ensures
        ask(SetClock::of(hz), cfg, inputs, 5) == Out::Return(inputs(5)),
{
    reveal(ask);
    reveal_with_fuel(frame_after, 7);
    reveal_with_fuel(well_until, 7);
}

/// Setting a block size: both bytes are written, then read back, and the answer is
/// success exactly where what comes back is what was asked for.
#[verifier::rlimit(40)]
pub proof fn law_set_block_size(
    func: u8,
    size: u16,
    cfg: HostConfig,
    inputs: spec_fn(int) -> Answer,
)
    requires
        func <= 7,
        0 < size <= IO_BLOCK_SIZE_MAX,
        well_until(inputs, 4),
    ensures
        ({
            let set = SetBlockSize::of(func, size);
            let addr = (FBR_STRIDE * func + IO_BLOCK_SIZE_OFFSET) as u32;
            let next = (addr + 1) as u32;
            let back = (inputs(3).unwrap() as u8) + (inputs(4).unwrap() as u8) * 0x100;
            &&& ask(set, cfg, inputs, 0) == Out::Call(
                Cmd52::write_of(0, addr, (size % 0x100) as u8),
            )
            &&& ask(set, cfg, inputs, 1) == Out::Call(
                Cmd52::write_of(0, next, (size / 0x100) as u8),
            )
            &&& ask(set, cfg, inputs, 2) == Out::Call(Cmd52::read_of(0, addr))
            &&& ask(set, cfg, inputs, 3) == Out::Call(Cmd52::read_of(0, next))
            &&& ask(set, cfg, inputs, 4) == Out::Return(
                if back == size {
                    Ok(0)
                } else {
                    Err(SdioError::IoError)
                },
            )
        }),
{
    reveal(ask);
    reveal_with_fuel(frame_after, 6);
    reveal_with_fuel(well_until, 6);
}

/// The inputs of the enabling of a function where `enabled` is what the enable register
/// reads as and `answers(k)` is what the ready register reads as the `k`th time.
pub open spec fn enable_inputs(enabled: u32, answers: spec_fn(int) -> u32) -> spec_fn(
    int,
) -> Answer {
    |i: int|
        if i == 1 {
            Ok(enabled)
        } else {
            Ok(answers((i - 3) / 2))
        }
}

/// Enabling a function: its bit is added to what the enable register reads as, and then
/// the card is asked whether the function is ready. The first answer with the bit set ends
/// it with success; after every other there is a pause and the next question, up to the
/// number allowed; after the last, it times out.
pub proof fn law_enable_func(
    func: u8,
    cfg: HostConfig,
    enabled: u32,
    answers: spec_fn(int) -> u32,
    k: nat,
)
    requires
        1 <= func <= 7,
        k <= READY_POLLS,
        forall|j: int| 0 <= j < k ==> (#[trigger] answers(j) as u8) & (1u8 << func) == 0,
    ensures
        ({
            let enable = EnableFunc::of(func);
            let inputs = enable_inputs(enabled, answers);
            &&& ask(enable, cfg, inputs, 0) == Out::Call(Cmd52::read_of(0, CCCR_IO_ENABLE))
            &&& ask(enable, cfg, inputs, 1) == Out::Call(
                Cmd52::write_of(0, CCCR_IO_ENABLE, (enabled as u8) | (1u8 << func)),
            )
            &&& k < READY_POLLS ==> {
                &&& ask(enable, cfg, inputs, 2 * k + 2) == Out::Call(
                    Cmd52::read_of(0, CCCR_IO_READY),
                )
                &&& ask(enable, cfg, inputs, 2 * k + 3) == (if (answers(k as int) as u8) & (1u8
                    << func) != 0 {
                    Out::Return(Ok(0))
                } else {
                    Out::Io(Io::Spin { times: READY_PAUSE })
                })
            }
            &&& k == READY_POLLS ==> ask(enable, cfg, inputs, 2 * k + 2) == Out::Return(
                Err(SdioError::Timeout),
            )
        }),
{
    let enable = EnableFunc::of(func);
    let inputs = enable_inputs(enabled, answers);
    let started = EnableFunc { func, left: READY_POLLS, phase: EnablePhase::Enabled };
    lemma_not_resumed(enable, cfg, inputs);
    lemma_advance(enable, cfg, inputs, 0, enable);
    lemma_advance(enable, cfg, inputs, 1, Frame::EnableFunc(started));
    lemma_enable_goes_on(func, cfg, enabled, answers, k);
    let i = 2 * k as int;
    let left = (READY_POLLS - k) as u32;
    assert(inputs(i + 3) == Ok::<u32, SdioError>(answers(k as int)));
    lemma_advance(enable, cfg, inputs, (i + 2) as nat, enabling(func, left));
    if k < READY_POLLS {
        let asked = EnableFunc { func, left: (left - 1) as u32, phase: EnablePhase::Ready };
        lemma_advance(enable, cfg, inputs, (i + 3) as nat, Frame::EnableFunc(asked));
    }
}

/// The enabling while it is about to ask and `left` questions are allowed.
spec fn enabling(func: u8, left: u32) -> Frame {
    let phase = if left == READY_POLLS {
        EnablePhase::Enable
    } else {
        EnablePhase::Pause
    };
    Frame::EnableFunc(EnableFunc { func, left, phase })
}

proof fn lemma_enable_goes_on(
    func: u8,
    cfg: HostConfig,
    enabled: u32,
    answers: spec_fn(int) -> u32,
    k: nat,
)
    requires
        1 <= func <= 7,
        k <= READY_POLLS,
        forall|j: int| 0 <= j < k ==> (#[trigger] answers(j) as u8) & (1u8 << func) == 0,
    ensures
        frame_after(EnableFunc::of(func), cfg, enable_inputs(enabled, answers), 2 * k + 2)
            == enabling(func, (READY_POLLS - k) as u32),
    decreases k,
{
    let enable = EnableFunc::of(func);
    let inputs = enable_inputs(enabled, answers);
    if k == 0 {
        let started = EnableFunc { func, left: READY_POLLS, phase: EnablePhase::Enabled };
        lemma_not_resumed(enable, cfg, inputs);
        lemma_advance(enable, cfg, inputs, 0, enable);
        lemma_advance(enable, cfg, inputs, 1, Frame::EnableFunc(started));
    } else {
        let m = (k - 1) as nat;
        lemma_enable_goes_on(func, cfg, enabled, answers, m);
        let i = 2 * m as int;
        let left = (READY_POLLS - k) as u32;
        assert(answers(m as int) as u8 & (1u8 << func) == 0);
        assert(inputs(i + 3) == Ok::<u32, SdioError>(answers(m as int)));
        lemma_advance(enable, cfg, inputs, (i + 2) as nat, enabling(func, (left + 1) as u32));
        let asked = EnableFunc { func, left, phase: EnablePhase::Ready };
        lemma_advance(enable, cfg, inputs, (i + 3) as nat, Frame::EnableFunc(asked));
    }
}

/// A run can be taken apart: what an operation does after its first `m` requests is what
/// the operation that it has become by then does from the beginning.
pub proof fn law_runs_chain(
    frame: Frame,
    cfg: HostConfig,
    inputs: spec_fn(int) -> Answer,
    m: nat,
    n: nat,
)
    ensures
        frame_after(frame, cfg, inputs, m + n) == frame_after(
            frame_after(frame, cfg, inputs, m),
            cfg,
            |i: int| inputs(m + i),
            n,
        ),
        ask(frame, cfg, inputs, m + n) == ask(
            frame_after(frame, cfg, inputs, m),
            cfg,
            |i: int| inputs(m + i),
            n,
        ),
    decreases n,
{
    let middle = frame_after(frame, cfg, inputs, m);
    let later = |i: int| inputs(m + i);
    if n == 0 {
        lemma_not_resumed(middle, cfg, later);
    } else {
        let k = (n - 1) as nat;
        law_runs_chain(frame, cfg, inputs, m, k);
        let now = frame_after(frame, cfg, inputs, m + k);
        lemma_advance(frame, cfg, inputs, m + k, now);
        lemma_advance(middle, cfg, later, k, now);
    }
    let end = frame_after(frame, cfg, inputs, m + n);
    lemma_advance(frame, cfg, inputs, m + n, end);
    lemma_advance(middle, cfg, later, n, end);
}

} // verus!
