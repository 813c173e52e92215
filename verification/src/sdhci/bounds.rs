//! Every operation ends: how many steps it may take at most.

use vstd::prelude::*;

use crate::error::Answer;
use crate::sdhci::card::{
    BlockPhase, CisPtr, EnableFunc, EnablePhase, Manfid, ManfidPhase, SetBlockSize,
    CIS_TUPLES, READY_POLLS,
};
use crate::sdhci::clock::{ClockPhase, SetClock};
use crate::sdhci::command::{Cmd52, SendCmd, SendPhase};
use crate::sdhci::config::HostConfig;
use crate::sdhci::frame::{Frame, Out, Step};
use crate::sdhci::init::{Init, InitPhase};
use crate::sdhci::transfer::{Cmd53, Fifo, FifoPhase, OpenPhase, Pio, PioPhase};
use crate::sdhci::wait::{Poll, ResetDat, WaitIrq, WaitPhase, WAIT_SPINS, WAIT_YIELDS};

verus! {

/// Steps of a poll that may read `left` times.
pub open spec fn poll_steps(left: int) -> int {
    2 * left + 1
}

/// Steps of a reset of the data line.
pub open spec fn reset_steps(cfg: HostConfig) -> int {
    poll_steps(cfg.reset_polls as int) + 1
}

/// Steps of a wait for an interrupt flag.
pub open spec fn wait_steps(cfg: HostConfig) -> int {
    3 * (WAIT_SPINS + WAIT_YIELDS) + reset_steps(cfg) + 3
}

/// Steps of a command.
pub open spec fn send_steps(cfg: HostConfig) -> int {
    wait_steps(cfg) + poll_steps(cfg.cmd_idle_polls as int) + 7
}

/// Steps of an access to a card register.
pub open spec fn access_steps(cfg: HostConfig) -> int {
    send_steps(cfg) + 2
}

/// Steps of a clock setting.
pub open spec fn clock_steps(cfg: HostConfig) -> int {
    poll_steps(cfg.clock_stable_polls as int) + 8
}

/// Steps for each block of `words` words.
pub open spec fn block_steps(words: int, cfg: HostConfig) -> int {
    2 * words + wait_steps(cfg) + 1
}

/// Steps of the longest move of data.
pub open spec fn move_steps_max(cfg: HostConfig) -> int {
    0xFFFF * block_steps(0x4000, cfg) + 1
}

impl Poll {
    /// Steps that may still be taken.
    pub open spec fn budget(self) -> int {
        poll_steps(self.left as int) + (if self.asked { 1int } else { 0int })
    }
}

impl ResetDat {
    /// Steps that may still be taken.
    pub open spec fn budget(self, cfg: HostConfig) -> int {
        if self.requested {
            reset_steps(cfg) - 1
        } else {
            reset_steps(cfg)
        }
    }
}

impl WaitIrq {
    /// Steps that may still be taken.
    pub open spec fn budget(self, cfg: HostConfig) -> int {
        match self.phase {
            WaitPhase::Look => 3 * self.left + reset_steps(cfg) + 3,
            WaitPhase::Flag => 3 * self.left + reset_steps(cfg) + 4,
            WaitPhase::Error => 3 * self.left + reset_steps(cfg) + 5,
            WaitPhase::Failed { .. } => 1,
        }
    }
}

impl SendCmd {
    /// Steps that may still be taken.
    pub open spec fn budget(self, cfg: HostConfig) -> int {
        match self.phase {
            SendPhase::Response => 1,
            SendPhase::Complete => 2,
            SendPhase::Command => wait_steps(cfg) + 3,
            SendPhase::Argument => wait_steps(cfg) + 4,
            SendPhase::Drain => wait_steps(cfg) + 5,
            SendPhase::Idle => wait_steps(cfg) + 6,
            SendPhase::Begin => send_steps(cfg),
        }
    }
}

impl Cmd52 {
    /// Steps that may still be taken.
    pub open spec fn budget(self, cfg: HostConfig) -> int {
        if self.sent {
            1
        } else {
            access_steps(cfg)
        }
    }
}

impl Cmd53 {
    /// Steps that may still be taken.
    pub open spec fn budget(self, cfg: HostConfig) -> int {
        match self.phase {
            OpenPhase::Send => 1,
            OpenPhase::Mode => send_steps(cfg) + 2,
            OpenPhase::Count => send_steps(cfg) + 3,
            OpenPhase::Size => send_steps(cfg) + 4,
            OpenPhase::Begin => send_steps(cfg) + 5,
        }
    }
}

impl Pio {
    /// Steps that may still be taken.
    pub open spec fn budget(self, cfg: HostConfig) -> int {
        self.blocks_left * block_steps(self.words as int, cfg) + 1 + match self.phase {
            PioPhase::Block => 0,
            PioPhase::Ready => 2 * self.words,
            PioPhase::Word => 2 * self.words_left + 1,
            PioPhase::Moved => 2 * self.words_left,
        }
    }
}

impl Fifo {
    /// Steps that may still be taken.
    pub open spec fn budget(self, cfg: HostConfig) -> int {
        match self.phase {
            FifoPhase::Complete => 1,
            FifoPhase::Move => wait_steps(cfg) + 2,
            FifoPhase::Open => wait_steps(cfg) + move_steps_max(cfg) + 3,
            FifoPhase::Begin => wait_steps(cfg) + move_steps_max(cfg) + send_steps(cfg) + 9,
        }
    }
}

impl CisPtr {
    /// Steps that may still be taken.
    pub open spec fn budget(self, cfg: HostConfig) -> int {
        if self.asked == 0 {
            3 * access_steps(cfg) + 4
        } else if self.asked == 1 {
            2 * access_steps(cfg) + 3
        } else if self.asked == 2 {
            access_steps(cfg) + 2
        } else {
            1
        }
    }
}

/// Steps of a search that may look at `left` more tuples and reads a code.
pub open spec fn code_steps(left: int, cfg: HostConfig) -> int {
    left * (2 * access_steps(cfg) + 3) + 5 * access_steps(cfg) + 10
}

impl Manfid {
    /// Steps that may still be taken.
    pub open spec fn budget(self, cfg: HostConfig) -> int {
        match self.phase {
            ManfidPhase::Begin => code_steps(self.left as int, cfg) + 4 * access_steps(cfg) + 5,
            ManfidPhase::Pointer => code_steps(self.left as int, cfg) + access_steps(cfg),
            ManfidPhase::Code => code_steps(self.left as int, cfg),
            ManfidPhase::Link { .. } => code_steps(self.left as int, cfg) - access_steps(cfg) - 1,
            ManfidPhase::Bytes { have, .. } => (3 - have) * (access_steps(cfg) + 1) + 1,
        }
    }
}

impl SetBlockSize {
    /// Steps that may still be taken.
    pub open spec fn budget(self, cfg: HostConfig) -> int {
        match self.phase {
            BlockPhase::Begin => 4 * access_steps(cfg) + 5,
            BlockPhase::WriteLow => 3 * access_steps(cfg) + 4,
            BlockPhase::WriteHigh => 2 * access_steps(cfg) + 3,
            BlockPhase::ReadLow => access_steps(cfg) + 2,
            BlockPhase::ReadHigh { .. } => 1,
        }
    }
}

impl EnableFunc {
    /// Steps that may still be taken.
    pub open spec fn budget(self, cfg: HostConfig) -> int {
        self.left * (access_steps(cfg) + 2) + match self.phase {
            EnablePhase::Begin => 2 * access_steps(cfg) + 3,
            EnablePhase::Enabled => access_steps(cfg) + 2,
            EnablePhase::Enable => 1,
            EnablePhase::Ready => 2,
            EnablePhase::Pause => 1,
        }
    }
}

impl SetClock {
    /// Steps that may still be taken.
    pub open spec fn budget(self, cfg: HostConfig) -> int {
        match self.phase {
            ClockPhase::Release => 1,
            ClockPhase::Reread => 2,
            ClockPhase::Stable => 3,
            ClockPhase::Divide => clock_steps(cfg) - 4,
            ClockPhase::Stop { .. } => clock_steps(cfg) - 3,
            ClockPhase::Current { .. } => clock_steps(cfg) - 2,
            ClockPhase::Caps => clock_steps(cfg) - 1,
            ClockPhase::Begin => clock_steps(cfg),
        }
    }
}

/// Steps of a whole search for the identification.
pub open spec fn ids_steps(cfg: HostConfig) -> int {
    code_steps(CIS_TUPLES as int, cfg) + 4 * access_steps(cfg) + 5
}

/// Steps of the bring-up once the bus width has been set.
pub open spec fn finish_steps(cfg: HostConfig) -> int {
    2 * ids_steps(cfg) + READY_POLLS * (access_steps(cfg) + 2) + 6 * access_steps(cfg) + 14
}

/// Steps of the bring-up once the card has been asked for its address.
pub open spec fn address_steps(cfg: HostConfig) -> int {
    finish_steps(cfg) + 4 * access_steps(cfg) + clock_steps(cfg) + send_steps(cfg) + 12
}

/// Steps of the bring-up while `left` more questions for readiness are allowed.
pub open spec fn ready_steps(left: int, cfg: HostConfig) -> int {
    left * (send_steps(cfg) + 2) + address_steps(cfg) + send_steps(cfg) + 2
}

impl Init {
    /// Steps that may still be taken.
    pub open spec fn budget(self, cfg: HostConfig) -> int {
        let done = finish_steps(cfg);
        let access = access_steps(cfg);
        let ready = ready_steps(cfg.ocr_retries as int, cfg) + send_steps(cfg);
        match self.phase {
            InitPhase::KeepIds => 1,
            InitPhase::CommonIds => 2,
            InitPhase::FuncIds => ids_steps(cfg) + 3,
            InitPhase::BlockSize => 2 * ids_steps(cfg) + 4,
            InitPhase::Enable => 2 * ids_steps(cfg) + 4 * access + 10,
            InitPhase::HostWidthSet => done,
            InitPhase::HostWidth => done + 1,
            InitPhase::WidthSet => done + 2,
            InitPhase::Width => done + access + 3,
            InitPhase::Clock => done + 2 * access + 4,
            InitPhase::TimingSet => done + 2 * access + clock_steps(cfg) + 5,
            InitPhase::Timing => done + 2 * access + clock_steps(cfg) + 6,
            InitPhase::SpeedSet => done + 2 * access + clock_steps(cfg) + 7,
            InitPhase::Speed => done + 3 * access + clock_steps(cfg) + 8,
            InitPhase::Select => done + 4 * access + clock_steps(cfg) + 9,
            InitPhase::KeepAddress { .. } => address_steps(cfg) - 1,
            InitPhase::Address => address_steps(cfg),
            InitPhase::Ready { left, .. } => ready_steps(left as int, cfg),
            InitPhase::ReadyPause { left, .. } => ready_steps(left as int, cfg) - 1,
            InitPhase::Query => ready_steps(cfg.ocr_retries as int, cfg) - 1,
            InitPhase::ErrSignal => ready,
            InitPhase::NormSignal => ready + 1,
            InitPhase::ErrStatus => ready + 2,
            InitPhase::NormStatus => ready + 3,
            InitPhase::Attach => ready + 4,
            InitPhase::InitClock => ready + 5,
            InitPhase::Power => ready + clock_steps(cfg) + 6,
            InitPhase::DetectSet => ready + clock_steps(cfg) + 7,
            InitPhase::Detect => ready + clock_steps(cfg) + 8,
            InitPhase::ResetDone => ready + clock_steps(cfg) + 9,
            InitPhase::Reset => ready + clock_steps(cfg) + reset_steps(cfg) + 10,
            InitPhase::Begin => ready + clock_steps(cfg) + reset_steps(cfg) + 11,
        }
    }
}

impl Frame {
    /// Steps that the operation and those that it calls may still take.
    pub open spec fn budget(self, cfg: HostConfig) -> int {
        match self {
            Frame::Poll(f) => f.budget(),
            Frame::ResetDat(f) => f.budget(cfg),
            Frame::WaitIrq(f) => f.budget(cfg),
            Frame::SendCmd(f) => f.budget(cfg),
            Frame::Cmd52(f) => f.budget(cfg),
            Frame::Cmd53(f) => f.budget(cfg),
            Frame::Pio(f) => f.budget(cfg),
            Frame::Fifo(f) => f.budget(cfg),
            Frame::CisPtr(f) => f.budget(cfg),
            Frame::Manfid(f) => f.budget(cfg),
            Frame::SetBlockSize(f) => f.budget(cfg),
            Frame::EnableFunc(f) => f.budget(cfg),
            Frame::SetClock(f) => f.budget(cfg),
            Frame::Init(f) => f.budget(cfg),
        }
    }
}

/// A step is paid for: what is left for the operation, and for the one that it calls, is
/// less than what it had.
pub open spec fn paid(frame: Frame, step: Step, cfg: HostConfig) -> bool {
    match step.out {
        Out::Return(_) => frame.budget(cfg) >= 1,
        Out::Call(callee) => {
            &&& step.frame.budget(cfg) >= 1
            &&& callee.budget(cfg) >= 1
            &&& step.frame.budget(cfg) + callee.budget(cfg) < frame.budget(cfg)
        },
        _ => {
            &&& step.frame.budget(cfg) >= 1
            &&& step.frame.budget(cfg) < frame.budget(cfg)
        },
    }
}

proof fn lemma_times(n: int, each: int)
    ensures
        (n - 1) * each == n * each - each,
        n == 0 ==> n * each == 0,
        n >= 0 && each >= 0 ==> n * each >= 0,
{
    assert((n - 1) * each == n * each - each) by (nonlinear_arith);
    assert(n == 0 ==> n * each == 0) by (nonlinear_arith);
    assert(n >= 0 && each >= 0 ==> n * each >= 0) by (nonlinear_arith);
}

proof fn lemma_wait_paid(f: WaitIrq, cfg: HostConfig, input: Answer)
    ensures
        paid(Frame::WaitIrq(f), f.next(input), cfg),
{
}

proof fn lemma_send_paid(f: SendCmd, cfg: HostConfig, input: Answer)
    ensures
        paid(Frame::SendCmd(f), f.next(cfg, input), cfg),
{
}

proof fn lemma_open_paid(f: Cmd53, cfg: HostConfig, input: Answer)
    ensures
        paid(Frame::Cmd53(f), f.next(input), cfg),
{
}

proof fn lemma_pio_paid(f: Pio, cfg: HostConfig, input: Answer)
    ensures
        paid(Frame::Pio(f), f.next(input), cfg),
{
    lemma_times(f.blocks_left as int, block_steps(f.words as int, cfg));
    lemma_times(f.blocks_left - 1, block_steps(f.words as int, cfg));
}

proof fn lemma_longest_move(write: bool, block_size: u16, blocks: u16, len: usize, cfg: HostConfig)
    ensures
        1 <= Pio::of(write, block_size, blocks, len).budget(cfg) <= move_steps_max(cfg),
{
    let words = crate::sdhci::transfer::words_for(block_size) as int;
    let each = block_steps(words, cfg);
    let most = block_steps(0x4000, cfg);
    assert(0 <= each <= most);
    assert(0 <= blocks * each <= 0xFFFF * most) by (nonlinear_arith)
        requires
            0 <= blocks <= 0xFFFF,
            0 <= each <= most,
    ;
}

proof fn lemma_fifo_paid(f: Fifo, cfg: HostConfig, input: Answer)
    ensures
        paid(Frame::Fifo(f), f.next(input), cfg),
{
    if let Ok(shape) = input {
        lemma_longest_move(
            f.transfer.write,
            (shape % 0x1_0000) as u16,
            (shape / 0x1_0000) as u16,
            f.transfer.len,
            cfg,
        );
    }
    assert(move_steps_max(cfg) >= 1) by {
        lemma_longest_move(true, 0, 0, 0, cfg);
    }
}

#[verifier::rlimit(40)]
proof fn lemma_manfid_paid(f: Manfid, cfg: HostConfig, input: Answer)
    requires
        f.wf(),
    ensures
        paid(Frame::Manfid(f), f.next(input), cfg),
{
    let access = access_steps(cfg);
    lemma_times(f.left as int, 2 * access + 3);
    lemma_times(f.left - 1, 2 * access + 3);
    if let ManfidPhase::Bytes { have, bytes } = f.phase {
        lemma_times(3 - have, access + 1);
        lemma_times(2 - have, access + 1);
    }
    assert((3 - 0) * (access + 1) == 3 * access + 3);
}

proof fn lemma_enable_paid(f: EnableFunc, cfg: HostConfig, input: Answer)
    ensures
        paid(Frame::EnableFunc(f), f.next(input), cfg),
{
    lemma_times(f.left as int, access_steps(cfg) + 2);
    lemma_times(f.left - 1, access_steps(cfg) + 2);
}

proof fn lemma_callees(cfg: HostConfig)
    ensures
        reset_steps(cfg) >= 2,
        clock_steps(cfg) >= 9,
        send_steps(cfg) >= 1,
        access_steps(cfg) == send_steps(cfg) + 2,
        ids_steps(cfg) >= 1,
        finish_steps(cfg) >= 2 * ids_steps(cfg) + 4 * access_steps(cfg) + 10,
        address_steps(cfg) >= 1,
{
    lemma_times(CIS_TUPLES as int, 2 * access_steps(cfg) + 3);
    lemma_times(READY_POLLS as int, access_steps(cfg) + 2);
}

#[verifier::rlimit(40)]
proof fn lemma_init_host_paid(f: Init, cfg: HostConfig, input: Answer)
    requires
        f.phase is Begin || f.phase is Reset || f.phase is ResetDone || f.phase is Detect
            || f.phase is DetectSet || f.phase is Power || f.phase is InitClock
            || f.phase is Attach || f.phase is NormStatus || f.phase is ErrStatus
            || f.phase is NormSignal || f.phase is ErrSignal,
    ensures
        paid(Frame::Init(f), f.next(cfg, input), cfg),
{
    lemma_callees(cfg);
    lemma_times(cfg.ocr_retries as int, send_steps(cfg) + 2);
}

#[verifier::rlimit(40)]
proof fn lemma_init_ready_paid(f: Init, cfg: HostConfig, input: Answer)
    requires
        f.phase is Query || f.phase is Ready || f.phase is ReadyPause,
    ensures
        paid(Frame::Init(f), f.next(cfg, input), cfg),
{
    lemma_callees(cfg);
    let send = send_steps(cfg);
    lemma_times(cfg.ocr_retries as int, send + 2);
    lemma_times(cfg.ocr_retries - 1, send + 2);
    match f.phase {
        InitPhase::Ready { left, .. } => {
            lemma_times(left as int, send + 2);
        },
        InitPhase::ReadyPause { left, .. } => {
            lemma_times(left as int, send + 2);
            lemma_times(left - 1, send + 2);
        },
        _ => {},
    }
}

#[verifier::rlimit(40)]
proof fn lemma_init_bus_paid(f: Init, cfg: HostConfig, input: Answer)
    requires
        f.phase is Address || f.phase is KeepAddress || f.phase is Select || f.phase is Speed
            || f.phase is SpeedSet || f.phase is Timing || f.phase is TimingSet
            || f.phase is Clock || f.phase is Width || f.phase is WidthSet
            || f.phase is HostWidth,
    ensures
        paid(Frame::Init(f), f.next(cfg, input), cfg),
{
    lemma_callees(cfg);
}

#[verifier::rlimit(40)]
proof fn lemma_init_finish_paid(f: Init, cfg: HostConfig, input: Answer)
    requires
        f.phase is HostWidthSet || f.phase is Enable || f.phase is BlockSize || f.phase is FuncIds
            || f.phase is CommonIds || f.phase is KeepIds,
    ensures
        paid(Frame::Init(f), f.next(cfg, input), cfg),
{
    lemma_callees(cfg);
    lemma_times(READY_POLLS as int, access_steps(cfg) + 2);
}

proof fn lemma_init_paid(f: Init, cfg: HostConfig, input: Answer)
    ensures
        paid(Frame::Init(f), f.next(cfg, input), cfg),
{
    if f.phase is Query || f.phase is Ready || f.phase is ReadyPause {
        lemma_init_ready_paid(f, cfg, input);
    } else if f.phase is HostWidthSet || f.phase is Enable || f.phase is BlockSize
        || f.phase is FuncIds || f.phase is CommonIds || f.phase is KeepIds {
        lemma_init_finish_paid(f, cfg, input);
    } else if f.phase is Address || f.phase is KeepAddress || f.phase is Select
        || f.phase is Speed || f.phase is SpeedSet || f.phase is Timing || f.phase is TimingSet
        || f.phase is Clock || f.phase is Width || f.phase is WidthSet || f.phase is HostWidth {
        lemma_init_bus_paid(f, cfg, input);
    } else {
        lemma_init_host_paid(f, cfg, input);
    }
}

/// Every step of every operation is paid for.
#[verifier::rlimit(40)]
pub proof fn law_steps_are_paid(frame: Frame, cfg: HostConfig, input: Answer)
    requires
        frame.wf(),
    ensures
        paid(frame, frame.next(cfg, input), cfg),
{
    match frame {
        Frame::WaitIrq(f) => lemma_wait_paid(f, cfg, input),
        Frame::SendCmd(f) => lemma_send_paid(f, cfg, input),
        Frame::Cmd53(f) => lemma_open_paid(f, cfg, input),
        Frame::Pio(f) => lemma_pio_paid(f, cfg, input),
        Frame::Fifo(f) => lemma_fifo_paid(f, cfg, input),
        Frame::Manfid(f) => lemma_manfid_paid(f, cfg, input),
        Frame::EnableFunc(f) => lemma_enable_paid(f, cfg, input),
        Frame::Init(f) => lemma_init_paid(f, cfg, input),
        _ => {},
    }
}

} // verus!
