//! Card registers as memory: what the operations on them come to.

use vstd::prelude::*;

use crate::error::{Answer, SdioError};
use crate::regs::{
    CCCR_IO_ENABLE, CCCR_IO_READY, CISTPL_END, CISTPL_MANFID, CISTPL_NULL, CMD52_RW_FLAG,
    SDIO_ADDR_MASK,
};
use crate::sdhci::card::{
    cis_ptr_addr, pow256, BlockPhase, CisPtr, EnableFunc, EnablePhase, Manfid, ManfidPhase,
    SetBlockSize, CIS_TUPLES, READY_POLLS,
};
use crate::sdhci::command::Cmd52;
use crate::sdhci::config::HostConfig;
use crate::sdhci::frame::{Frame, Out};

verus! {

/// Number of registers of a card.
pub const CARD_REGS: usize = 0x2_0000;

/// An operation on a card whose registers are plain memory.
#[verifier::ext_equal]
pub struct OnCard {
    /// The operation.
    pub frame: Frame,
    /// What it is resumed with.
    pub input: Answer,
    /// The registers.
    pub card: Seq<u8>,
    /// Its answer, once it is over.
    pub answer: Option<Answer>,
}

/// What a card answers to an access.
pub open spec fn card_answer(card: Seq<u8>, access: Cmd52) -> Answer {
    if access.addr > SDIO_ADDR_MASK {
        Err(SdioError::Unsupported)
    } else if access.flags & CMD52_RW_FLAG != 0 {
        Ok(access.value as u32)
    } else {
        Ok(card[access.addr as int] as u32)
    }
}

/// The registers after an access.
pub open spec fn card_after(card: Seq<u8>, access: Cmd52) -> Seq<u8> {
    if access.addr <= SDIO_ADDR_MASK && access.flags & CMD52_RW_FLAG != 0 {
        card.update(access.addr as int, access.value)
    } else {
        card
    }
}

/// The CIS pointer of a function.
pub open spec fn cis_pointer(card: Seq<u8>, func: u8) -> u32 {
    let at = cis_ptr_addr(func) as int;
    (card[at] + card[at + 1] * 0x100 + card[at + 2] * 0x1_0000) as u32
}

impl OnCard {
    /// An operation that begins.
    pub open spec fn begins(frame: Frame, card: Seq<u8>) -> OnCard {
        OnCard { frame, input: Ok(0), card, answer: None }
    }

    /// The operation after one more step. One that is over stays as it is.
    pub open spec fn stepped(self, cfg: HostConfig) -> OnCard {
        if self.answer is Some {
            self
        } else {
            let step = self.frame.next(cfg, self.input);
            let next = OnCard { frame: step.frame, input: Ok(0), ..self };
            match step.out {
                Out::Call(Frame::Cmd52(access)) => OnCard {
                    input: card_answer(self.card, access),
                    card: card_after(self.card, access),
                    ..next
                },
                Out::Call(Frame::CisPtr(f)) => OnCard {
                    input: Ok(cis_pointer(self.card, f.func)),
                    ..next
                },
                Out::Return(answer) => OnCard { answer: Some(answer), ..next },
                _ => next,
            }
        }
    }

    /// The operation after `n` more steps.
    pub open spec fn run(self, cfg: HostConfig, n: nat) -> OnCard
        decreases n,
    {
        if n == 0 {
            self
        } else {
            self.stepped(cfg).run(cfg, (n - 1) as nat)
        }
    }
}

proof fn lemma_over_stays(p: OnCard, cfg: HostConfig, n: nat)
    requires
        p.answer is Some,
    ensures
        p.run(cfg, n) == p,
    decreases n,
{
    if n > 0 {
        lemma_over_stays(p, cfg, (n - 1) as nat);
    }
}

proof fn lemma_flags()
    ensures
        0u32 & CMD52_RW_FLAG == 0,
        CMD52_RW_FLAG & CMD52_RW_FLAG != 0,
{
    assert(0u32 & 0x8000_0000u32 == 0 && 0x8000_0000u32 & 0x8000_0000u32 != 0) by (bit_vector);
}

/// Reading a CIS pointer gives the three bytes of the register as a number, low byte
/// first, and changes nothing.
pub proof fn law_cis_pointer(func: u8, card: Seq<u8>, cfg: HostConfig, n: nat)
    requires
        card.len() == CARD_REGS,
        n >= 4,
    ensures
        ({
            let end = OnCard::begins(CisPtr::of(func), card).run(cfg, n);
            &&& end.answer == Some(Ok::<u32, SdioError>(cis_pointer(card, func)))
            &&& end.card == card
        }),
{
    lemma_flags();
    let p = OnCard::begins(CisPtr::of(func), card);
    let p1 = p.stepped(cfg);
    let p2 = p1.stepped(cfg);
    let p3 = p2.stepped(cfg);
    let p4 = p3.stepped(cfg);
    assert(p4.answer == Some(Ok::<u32, SdioError>(cis_pointer(card, func))));
    lemma_four_steps(p, cfg, n);
}

proof fn lemma_four_steps(p: OnCard, cfg: HostConfig, n: nat)
    requires
        n >= 4,
        p.stepped(cfg).stepped(cfg).stepped(cfg).stepped(cfg).answer is Some,
    ensures
        p.run(cfg, n) == p.stepped(cfg).stepped(cfg).stepped(cfg).stepped(cfg),
{
    let p4 = p.stepped(cfg).stepped(cfg).stepped(cfg).stepped(cfg);
    lemma_over_stays(p4, cfg, (n - 4) as nat);
    lemma_split(p, cfg, 4, (n - 4) as nat);
    reveal_with_fuel(OnCard::run, 6);
}

proof fn lemma_split(p: OnCard, cfg: HostConfig, m: nat, n: nat)
    ensures
        p.run(cfg, m + n) == p.run(cfg, m).run(cfg, n),
    decreases m,
{
    if m > 0 {
        lemma_split(p.stepped(cfg), cfg, (m - 1) as nat, n);
    }
}

/// Four bytes of a card as a number, low byte first.
pub open spec fn long_at(card: Seq<u8>, at: int) -> u32 {
    (card[at] + card[at + 1] * 0x100 + card[at + 2] * 0x1_0000 + card[at + 3] * 0x100_0000) as u32
}

/// The identification in a chain of tuples that begins at `addr` and of which `tuples`
/// may be looked at: the first tuple of that kind with at least four bytes has it. There
/// is none where the chain ends before, is too long or leaves the card.
pub open spec fn identification(card: Seq<u8>, addr: int, tuples: nat) -> Answer
    decreases tuples,
{
    if tuples == 0 || addr > SDIO_ADDR_MASK || card[addr] == CISTPL_END {
        Err(SdioError::Unsupported)
    } else if card[addr] == CISTPL_NULL {
        identification(card, addr + 1, (tuples - 1) as nat)
    } else if addr + 1 > SDIO_ADDR_MASK {
        Err(SdioError::Unsupported)
    } else if card[addr] == CISTPL_MANFID && card[addr + 1] >= 4 {
        if addr + 5 > SDIO_ADDR_MASK {
            Err(SdioError::Unsupported)
        } else {
            Ok(long_at(card, addr + 2))
        }
    } else {
        identification(card, addr + 2 + card[addr + 1], (tuples - 1) as nat)
    }
}

/// The search while the code of the tuple at `addr` is being read.
pub open spec fn at_code(card: Seq<u8>, func: u8, addr: u32, left: u32) -> OnCard {
    OnCard {
        frame: Frame::Manfid(Manfid { func, addr, left, phase: ManfidPhase::Code }),
        input: card_answer(card, Cmd52 { func: 0, addr, flags: 0, value: 0, sent: false }),
        card,
        answer: None,
    }
}

#[verifier::rlimit(40)]
proof fn lemma_bytes_read(card: Seq<u8>, func: u8, addr: u32, left: u32, cfg: HostConfig, n: nat)
    requires
        card.len() == CARD_REGS,
        addr + 1 <= SDIO_ADDR_MASK,
        n >= 4,
    ensures
        ({
            let p = OnCard {
                frame: Frame::Manfid(
                    Manfid { func, addr, left, phase: ManfidPhase::Bytes { have: 0, bytes: 0 } },
                ),
                input: card_answer(
                    card,
                    Cmd52 { func: 0, addr: (addr + 2) as u32, flags: 0, value: 0, sent: false },
                ),
                card,
                answer: None,
            };
            let end = p.run(cfg, n);
            &&& end.card == card
            &&& end.answer == Some(
                if addr + 5 > SDIO_ADDR_MASK {
                    Err(SdioError::Unsupported)
                } else {
                    Ok::<u32, SdioError>(long_at(card, addr + 2))
                },
            )
        }),
{
    lemma_flags();
    reveal_with_fuel(pow256, 5);
    let p = OnCard {
        frame: Frame::Manfid(
            Manfid { func, addr, left, phase: ManfidPhase::Bytes { have: 0, bytes: 0 } },
        ),
        input: card_answer(
            card,
            Cmd52 { func: 0, addr: (addr + 2) as u32, flags: 0, value: 0, sent: false },
        ),
        card,
        answer: None,
    };
    let p1 = p.stepped(cfg);
    let p2 = p1.stepped(cfg);
    let p3 = p2.stepped(cfg);
    let p4 = p3.stepped(cfg);
    if addr + 5 > SDIO_ADDR_MASK {
        assert(p4.answer == Some(Err::<u32, SdioError>(SdioError::Unsupported)));
    } else {
        assert(p4.answer == Some(Ok::<u32, SdioError>(long_at(card, addr + 2))));
    }
    lemma_four_steps(p, cfg, n);
}

#[verifier::rlimit(40)]
proof fn lemma_search(card: Seq<u8>, func: u8, addr: u32, left: u32, cfg: HostConfig, n: nat)
    requires
        card.len() == CARD_REGS,
        left < CIS_TUPLES,
        addr <= 0x00FF_FFFF + (CIS_TUPLES - left) * 257,
        n >= 2 * left + 6,
    ensures
        ({
            let end = at_code(card, func, addr, left).run(cfg, n);
            &&& end.card == card
            &&& end.answer == Some(identification(card, addr as int, (left + 1) as nat))
        }),
    decreases left,
{
    lemma_flags();
    reveal_with_fuel(identification, 2);
    let p = at_code(card, func, addr, left);
    let p1 = p.stepped(cfg);
    let p2 = p1.stepped(cfg);
    assert(p.run(cfg, n) == p1.run(cfg, (n - 1) as nat));
    assert(p1.run(cfg, (n - 1) as nat) == p2.run(cfg, (n - 2) as nat));
    if addr > SDIO_ADDR_MASK || card[addr as int] == CISTPL_END {
        lemma_over_stays(p1, cfg, (n - 1) as nat);
    } else if card[addr as int] == CISTPL_NULL {
        if left == 0 {
            lemma_over_stays(p1, cfg, (n - 1) as nat);
        } else {
            let next = at_code(card, func, (addr + 1) as u32, (left - 1) as u32);
            assert(p1 == next);
            lemma_search(
                card,
                func,
                (addr + 1) as u32,
                (left - 1) as u32,
                cfg,
                (n - 1) as nat,
            );
        }
    } else if addr + 1 > SDIO_ADDR_MASK {
        lemma_over_stays(p2, cfg, (n - 2) as nat);
    } else {
        let link = card[addr + 1];
        if card[addr as int] == CISTPL_MANFID && link >= 4 {
            lemma_bytes_read(card, func, addr, left, cfg, (n - 2) as nat);
        } else if left == 0 {
            lemma_over_stays(p2, cfg, (n - 2) as nat);
        } else {
            let to = (addr + 2 + link) as u32;
            assert(p2 == at_code(card, func, to, (left - 1) as u32));
            lemma_search(card, func, to, (left - 1) as u32, cfg, (n - 2) as nat);
        }
    }
}

/// Looking for the identification finds it where the chain of the function has one, says
/// so where it has none, and changes nothing.
pub proof fn law_identification(func: u8, card: Seq<u8>, cfg: HostConfig, n: nat)
    requires
        card.len() == CARD_REGS,
        n >= 2 * CIS_TUPLES + 6,
    ensures
        ({
            let end = OnCard::begins(Manfid::of(func), card).run(cfg, n);
            &&& end.card == card
            &&& end.answer == Some(
                identification(card, cis_pointer(card, func) as int, CIS_TUPLES as nat),
            )
        }),
{
    lemma_flags();
    let ptr = cis_pointer(card, func);
    assert(ptr & 0x00FF_FFFF == ptr) by (bit_vector)
        requires
            ptr <= 0x00FF_FFFF,
    ;
    let p = OnCard::begins(Manfid::of(func), card);
    let p1 = p.stepped(cfg);
    let p2 = p1.stepped(cfg);
    assert(p.run(cfg, n) == p1.run(cfg, (n - 1) as nat));
    assert(p1.run(cfg, (n - 1) as nat) == p2.run(cfg, (n - 2) as nat));
    assert(p2 == at_code(card, func, ptr, (CIS_TUPLES - 1) as u32));
    lemma_search(card, func, ptr, (CIS_TUPLES - 1) as u32, cfg, (n - 2) as nat);
}

/// Setting a block size that exists writes its two bytes, low one first, nothing else,
/// and succeeds. One that does not exist is refused, and nothing is written.
pub proof fn law_block_size_is_set(func: u8, size: u16, card: Seq<u8>, cfg: HostConfig, n: nat)
    requires
        card.len() == CARD_REGS,
        n >= 5,
    ensures
        ({
            let set = SetBlockSize { func, size, phase: BlockPhase::Begin };
            let end = OnCard::begins(SetBlockSize::of(func, size), card).run(cfg, n);
            if set.is_supported() {
                &&& end.answer == Some(Ok::<u32, SdioError>(0))
                &&& end.card == card.update(set.addr(), (size % 0x100) as u8).update(
                    set.addr() + 1,
                    (size / 0x100) as u8,
                )
            } else {
                &&& end.answer == Some(Err::<u32, SdioError>(SdioError::Unsupported))
                &&& end.card == card
            }
        }),
{
    lemma_flags();
    let p = OnCard::begins(SetBlockSize::of(func, size), card);
    let p1 = p.stepped(cfg);
    let p2 = p1.stepped(cfg);
    let p3 = p2.stepped(cfg);
    let p4 = p3.stepped(cfg);
    let p5 = p4.stepped(cfg);
    assert(p.run(cfg, n) == p1.run(cfg, (n - 1) as nat));
    assert(p5.answer is Some);
    lemma_four_steps(p1, cfg, (n - 1) as nat);
}

/// What is read back after a block size has been set is that size.
pub proof fn law_block_size_reads_back(func: u8, size: u16, card: Seq<u8>, cfg: HostConfig, n: nat)
    requires
        card.len() == CARD_REGS,
        n >= 5,
        (SetBlockSize { func, size, phase: BlockPhase::Begin }).is_supported(),
    ensures
        ({
            let at = (SetBlockSize { func, size, phase: BlockPhase::Begin }).addr();
            let end = OnCard::begins(SetBlockSize::of(func, size), card).run(cfg, n).card;
            end[at] + end[at + 1] * 0x100 == size
        }),
{
    law_block_size_is_set(func, size, card, cfg, n);
}

/// The registers with one more function enabled.
pub open spec fn card_enabled(card: Seq<u8>, func: u8) -> Seq<u8> {
    card.update(
        CCCR_IO_ENABLE as int,
        card[CCCR_IO_ENABLE as int] | (1u8 << func),
    )
}

/// The function says that it is ready.
pub open spec fn is_ready(card: Seq<u8>, func: u8) -> bool {
    card[CCCR_IO_READY as int] & (1u8 << func) != 0
}

proof fn lemma_asks_until_ready(func: u8, left: u32, card: Seq<u8>, cfg: HostConfig, n: nat)
    requires
        card.len() == CARD_REGS,
        1 <= func <= 7,
        n >= 2 * left + 2,
    ensures
        ({
            let p = OnCard {
                frame: Frame::EnableFunc(EnableFunc { func, left, phase: EnablePhase::Ready }),
                input: Ok(card[CCCR_IO_READY as int] as u32),
                card,
                answer: None,
            };
            let end = p.run(cfg, n);
            &&& end.card == card
            &&& end.answer == Some(
                if is_ready(card, func) {
                    Ok(0)
                } else {
                    Err::<u32, SdioError>(SdioError::Timeout)
                },
            )
        }),
    decreases left,
{
    lemma_flags();
    let p = OnCard {
        frame: Frame::EnableFunc(EnableFunc { func, left, phase: EnablePhase::Ready }),
        input: Ok(card[CCCR_IO_READY as int] as u32),
        card,
        answer: None,
    };
    let p1 = p.stepped(cfg);
    let p2 = p1.stepped(cfg);
    assert(p.run(cfg, n) == p1.run(cfg, (n - 1) as nat));
    assert(p1.run(cfg, (n - 1) as nat) == p2.run(cfg, (n - 2) as nat));
    if is_ready(card, func) {
        lemma_over_stays(p1, cfg, (n - 1) as nat);
    } else if left == 0 {
        lemma_over_stays(p2, cfg, (n - 2) as nat);
    } else {
        lemma_asks_until_ready(func, (left - 1) as u32, card, cfg, (n - 2) as nat);
    }
}

/// Enabling a function adds it to those that are enabled and writes nothing else; it
/// succeeds where the card says that the function is ready, and times out where it does
/// not. A function that cannot be enabled is refused, and nothing is written.
pub proof fn law_function_is_enabled(func: u8, card: Seq<u8>, cfg: HostConfig, n: nat)
    requires
        card.len() == CARD_REGS,
        n >= 2 * READY_POLLS + 4,
    ensures
        ({
            let end = OnCard::begins(EnableFunc::of(func), card).run(cfg, n);
            if 1 <= func <= 7 {
                &&& end.card == card_enabled(card, func)
                &&& end.answer == Some(
                    if is_ready(card, func) {
                        Ok(0)
                    } else {
                        Err::<u32, SdioError>(SdioError::Timeout)
                    },
                )
            } else {
                &&& end.card == card
                &&& end.answer == Some(Err::<u32, SdioError>(SdioError::Unsupported))
            }
        }),
{
    lemma_flags();
    let p = OnCard::begins(EnableFunc::of(func), card);
    let p1 = p.stepped(cfg);
    let p2 = p1.stepped(cfg);
    let p3 = p2.stepped(cfg);
    assert(p.run(cfg, n) == p1.run(cfg, (n - 1) as nat));
    assert(p1.run(cfg, (n - 1) as nat) == p2.run(cfg, (n - 2) as nat));
    assert(p2.run(cfg, (n - 2) as nat) == p3.run(cfg, (n - 3) as nat));
    if 1 <= func <= 7 {
        let after = card_enabled(card, func);
        assert(after[CCCR_IO_READY as int] == card[CCCR_IO_READY as int]);
        lemma_asks_until_ready(func, (READY_POLLS - 1) as u32, after, cfg, (n - 3) as nat);
    } else {
        lemma_over_stays(p1, cfg, (n - 1) as nat);
    }
}

/// A function that has been enabled is enabled, and the others are as they were.
pub proof fn law_enabling_is_local(card: Seq<u8>, func: u8, other: u8)
    requires
        card.len() == CARD_REGS,
        1 <= func <= 7,
        1 <= other <= 7,
        other != func,
    ensures
        card_enabled(card, func)[CCCR_IO_ENABLE as int] & (1u8 << func) != 0,
        card_enabled(card, func)[CCCR_IO_ENABLE as int] & (1u8 << other)
            == card[CCCR_IO_ENABLE as int] & (1u8 << other),
{
    let now = card[CCCR_IO_ENABLE as int];
    assert((now | (1u8 << func)) & (1u8 << func) != 0 && (now | (1u8 << func)) & (1u8 << other)
        == now & (1u8 << other)) by (bit_vector)
        requires
            1 <= func <= 7,
            1 <= other <= 7,
            other != func,
    ;
}

/// Where tuple number `k` of a chain that begins at `addr` is: each follows the one before,
/// a null tuple at once, any other behind its code, its link and as many bytes as that says.
pub open spec fn tuple_at(card: Seq<u8>, addr: int, k: nat) -> int
    decreases k,
{
    if k == 0 {
        addr
    } else {
        let at = tuple_at(card, addr, (k - 1) as nat);
        if card[at] == 0x00 {
            at + 1
        } else {
            at + 2 + card[at + 1]
        }
    }
}

/// A tuple on the card that neither ends the chain nor is an identification of at least four
/// bytes.
pub open spec fn passed_over(card: Seq<u8>, at: int) -> bool {
    &&& 0 <= at < 0x2_0000
    &&& card[at] != 0xFF
    &&& card[at] == 0x00 || (at + 1 < 0x2_0000 && !(card[at] == 0x20 && card[at + 1] >= 4))
}

proof fn lemma_tuples_passed(card: Seq<u8>, addr: int, tuples: nat, k: nat)
    requires
        card.len() == CARD_REGS,
        addr >= 0,
        k <= tuples,
        forall|j: nat| j < k ==> passed_over(card, #[trigger] tuple_at(card, addr, j)),
    ensures
        tuple_at(card, addr, k) >= 0,
        identification(card, addr, tuples) == identification(
            card,
            tuple_at(card, addr, k),
            (tuples - k) as nat,
        ),
    decreases k,
{
    if k > 0 {
        let m = (k - 1) as nat;
        lemma_tuples_passed(card, addr, tuples, m);
        assert(passed_over(card, tuple_at(card, addr, m)));
        reveal_with_fuel(identification, 2);
    }
}

/// The identification of a chain is that of its first tuple of that kind with at least four
/// bytes: behind code and link, two bytes of the vendor and two of the device, low byte first.
/// There is none where the chain ends before, or leaves the card, or where as many tuples have
/// been looked at as may be.
pub proof fn law_first_identification_counts(card: Seq<u8>, addr: int, tuples: nat, k: nat)
    requires
        card.len() == CARD_REGS,
        addr >= 0,
        k <= tuples,
        forall|j: nat| j < k ==> passed_over(card, #[trigger] tuple_at(card, addr, j)),
    ensures
        ({
            let at = tuple_at(card, addr, k);
            let found = identification(card, addr, tuples);
            let vendor = card[at + 2] + card[at + 3] * 0x100;
            let device = card[at + 4] + card[at + 5] * 0x100;
            &&& k == tuples ==> found == Err::<u32, SdioError>(SdioError::Unsupported)
            &&& at >= 0x2_0000 || card[at] == 0xFF ==> found == Err::<u32, SdioError>(
                SdioError::Unsupported,
            )
            &&& k < tuples && at + 5 < 0x2_0000 && card[at] == 0x20 && card[at + 1] >= 4 ==> {
                &&& found == Ok::<u32, SdioError>((vendor + device * 0x1_0000) as u32)
                &&& found->Ok_0 % 0x1_0000 == vendor
                &&& found->Ok_0 / 0x1_0000 == device
            }
            &&& k < tuples && !passed_over(card, at) && !(at + 5 < 0x2_0000 && card[at] == 0x20
                && card[at + 1] >= 4) ==> found == Err::<u32, SdioError>(SdioError::Unsupported)
        }),
{
    lemma_tuples_passed(card, addr, tuples, k);
    reveal_with_fuel(identification, 2);
}

/// Three registers of a function, 9 behind its first, point to its chain, low byte first.
pub proof fn law_pointer_bytes(card: Seq<u8>, func: u8)
    requires
        card.len() == CARD_REGS,
    ensures
        ({
            let at = 0x100 * func + 9;
            cis_pointer(card, func) == card[at] + card[at + 1] * 0x100 + card[at + 2] * 0x1_0000
        }),
{
}

} // verus!
