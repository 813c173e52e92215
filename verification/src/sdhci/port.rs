//! The data of a transfer at the buffer data port.

use vstd::prelude::*;

use crate::error::{Answer, SdioError};
use crate::regs::SDHCI_BUFFER;
use crate::sdhci::buffer::{byte_of, padded, stored, word_at};
use crate::sdhci::frame::{Frame, Io, Out};
use crate::sdhci::transfer::{words_for, Pio, PioPhase};

verus! {

/// A move of data with a controller whose buffer is always ready.
#[verifier::ext_equal]
pub struct Port {
    /// The move.
    pub pio: Pio,
    /// What it is resumed with.
    pub input: Answer,
    /// The transfer buffer.
    pub buf: Seq<u8>,
    /// Words that have been written to the port.
    pub sent: Seq<u32>,
    /// Number of words that have been read from the port.
    pub taken: nat,
    /// How often the controller's buffer has been waited for.
    pub waits: nat,
    /// Its answer, once it is over.
    pub answer: Option<Answer>,
}

impl Port {
    /// A move of `blocks` blocks of `block_size` bytes that has not begun.
    pub open spec fn begins(write: bool, block_size: u16, blocks: u16, buf: Seq<u8>) -> Port {
        Port {
            pio: Pio::of(write, block_size, blocks, buf.len() as usize)->Pio_0,
            input: Ok(0),
            buf,
            sent: Seq::empty(),
            taken: 0,
            waits: 0,
            answer: None,
        }
    }

    /// The move after one more step, where the port gives out `card(k)` when it is read
    /// for the `k`th time. One that is over stays as it is.
    pub open spec fn stepped(self, card: spec_fn(int) -> u32) -> Port {
        if self.answer is Some {
            self
        } else {
            let step = self.pio.next(self.input);
            let next = Port { pio: step.frame->Pio_0, input: Ok(0), ..self };
            match step.out {
                Out::Fetch { at } => Port { input: Ok(word_at(self.buf, at as int)), ..next },
                Out::Store { at, word } => Port { buf: stored(self.buf, at as int, word), ..next },
                Out::Io(Io::Write32 { off, value }) if off == SDHCI_BUFFER => Port {
                    sent: self.sent.push(value),
                    ..next
                },
                Out::Io(Io::Read32 { off }) if off == SDHCI_BUFFER => Port {
                    input: Ok(card(self.taken as int)),
                    taken: self.taken + 1,
                    ..next
                },
                Out::Call(Frame::WaitIrq(wait)) if wait.flag == self.pio.ready_flag() => Port {
                    waits: self.waits + 1,
                    ..next
                },
                Out::Return(answer) => Port { answer: Some(answer), ..next },
                _ => next,
            }
        }
    }

    /// The move after `n` more steps.
    pub open spec fn run(self, card: spec_fn(int) -> u32, n: nat) -> Port
        decreases n,
    {
        if n == 0 {
            self
        } else {
            self.run(card, (n - 1) as nat).stepped(card)
        }
    }

    /// Words of the blocks to come, and of this one.
    pub open spec fn words_to_come(self) -> int {
        self.pio.blocks_left * self.pio.words + match self.pio.phase {
            PioPhase::Block => 0,
            PioPhase::Ready => self.pio.words as int,
            PioPhase::Word => self.pio.words_left + 1,
            PioPhase::Moved => self.pio.words_left as int,
        }
    }

    /// Steps to come.
    pub open spec fn steps_to_come(self) -> int {
        if self.answer is Some {
            0
        } else {
            self.pio.blocks_left * (2 * self.pio.words + 1) + 1 + match self.pio.phase {
                PioPhase::Block => 0,
                PioPhase::Ready => 2 * self.pio.words,
                PioPhase::Word => 2 * self.pio.words_left + 1,
                PioPhase::Moved => 2 * self.pio.words_left,
            }
        }
    }

    /// Words that have been moved.
    pub open spec fn moved(self) -> int {
        if self.pio.write {
            self.sent.len() as int
        } else if self.pio.phase is Word {
            self.taken - 1
        } else {
            self.taken as int
        }
    }
}

/// The lesser of two numbers.
pub open spec fn least(a: int, b: int) -> int {
    if a < b {
        a
    } else {
        b
    }
}

/// A buffer after the first `n` words of a port have been stored.
pub open spec fn filled(buf: Seq<u8>, card: spec_fn(int) -> u32, n: int) -> Seq<u8> {
    Seq::new(
        buf.len(),
        |j: int|
            if j < 4 * n {
                byte_of(card(j / 4), j % 4)
            } else {
                buf[j]
            },
    )
}

/// What holds of a move all along: `write` and the buffer it began with.
pub open spec fn moving(
    p: Port,
    card: spec_fn(int) -> u32,
    write: bool,
    words: u16,
    buf: Seq<u8>,
    blocks: u16,
) -> bool {
    &&& p.pio.write == write
    &&& p.pio.words == words
    &&& p.pio.len == buf.len()
    &&& p.pio.at == least(4 * p.moved(), buf.len() as int)
    &&& p.moved() >= 0
    &&& p.moved() + p.words_to_come() == blocks * words
    &&& p.waits + p.pio.blocks_left == blocks
    &&& p.answer is Some ==> p.answer == Some(Ok::<u32, SdioError>(0)) && p.words_to_come() == 0
        && p.pio.blocks_left == 0 && !(p.pio.phase is Word)
    &&& p.input is Ok
    &&& if write {
        &&& p.buf == buf
        &&& p.taken == 0
        &&& forall|k: int| 0 <= k < p.sent.len() ==> #[trigger] p.sent[k] == word_at(buf, 4 * k)
        &&& p.answer is None && p.pio.phase is Word ==> p.input == Ok::<u32, SdioError>(
            word_at(buf, 4 * p.moved()),
        )
    } else {
        &&& p.sent.len() == 0
        &&& p.buf == filled(buf, card, p.moved())
        &&& p.answer is None && p.pio.phase is Word ==> p.input == Ok::<u32, SdioError>(
            card(p.moved()),
        )
    }
}

pub proof fn lemma_word_beyond(buf: Seq<u8>, k: int)
    requires
        k >= 0,
    ensures
        word_at(buf, least(4 * k, buf.len() as int)) == word_at(buf, 4 * k),
{
    if 4 * k >= buf.len() {
        let at = buf.len() as int;
        assert(padded(buf, at) == 0 && padded(buf, at + 1) == 0 && padded(buf, at + 2) == 0
            && padded(buf, at + 3) == 0);
    }
}

pub proof fn lemma_stored_next(buf: Seq<u8>, card: spec_fn(int) -> u32, k: int)
    requires
        k >= 0,
    ensures
        stored(filled(buf, card, k), least(4 * k, buf.len() as int), card(k)) == filled(
            buf,
            card,
            k + 1,
        ),
{
    let before = filled(buf, card, k);
    let at = least(4 * k, buf.len() as int);
    let after = stored(before, at, card(k));
    assert forall|j: int| 0 <= j < buf.len() implies after[j] == filled(buf, card, k + 1)[j] by {
        if 4 * k <= j < 4 * k + 4 {
            assert(j / 4 == k);
            assert(j % 4 == j - 4 * k);
        }
    }
    assert(after =~= filled(buf, card, k + 1));
}

#[verifier::rlimit(40)]
proof fn lemma_move_steps(
    p: Port,
    card: spec_fn(int) -> u32,
    write: bool,
    words: u16,
    buf: Seq<u8>,
    blocks: u16,
)
    requires
        moving(p, card, write, words, buf, blocks),
        buf.len() <= usize::MAX,
        p.answer is None,
    ensures
        moving(p.stepped(card), card, write, words, buf, blocks),
        p.stepped(card).steps_to_come() == p.steps_to_come() - 1,
{
    let b = p.pio.blocks_left as int;
    let w = words as int;
    assert((b - 1) * w == b * w - w) by (nonlinear_arith);
    assert((b - 1) * (2 * w + 1) == b * (2 * w + 1) - (2 * w + 1)) by (nonlinear_arith);
    assert(b == 0 ==> b * w == 0) by (nonlinear_arith);
    assert(b == 0 ==> b * (2 * w + 1) == 0) by (nonlinear_arith);
    lemma_word_beyond(buf, p.moved());
    if p.pio.phase is Word {
        lemma_stored_next(buf, card, p.moved());
    }
}

proof fn lemma_move_runs(
    write: bool,
    block_size: u16,
    blocks: u16,
    buf: Seq<u8>,
    card: spec_fn(int) -> u32,
    n: nat,
)
    requires
        buf.len() <= usize::MAX,
        n <= move_steps(block_size, blocks),
    ensures
        ({
            let p = Port::begins(write, block_size, blocks, buf).run(card, n);
            &&& moving(p, card, write, words_for(block_size), buf, blocks)
            &&& p.steps_to_come() == move_steps(block_size, blocks) - n
        }),
    decreases n,
{
    let start = Port::begins(write, block_size, blocks, buf);
    let words = words_for(block_size);
    if n == 0 {
        assert(filled(buf, card, 0) =~= buf);
    } else {
        lemma_move_runs(write, block_size, blocks, buf, card, (n - 1) as nat);
        lemma_move_steps(start.run(card, (n - 1) as nat), card, write, words, buf, blocks);
    }
}

/// Words that a move of `blocks` blocks of `block_size` bytes makes up.
pub open spec fn move_words(block_size: u16, blocks: u16) -> int {
    blocks * words_for(block_size)
}

/// Steps that it takes: for each block one, and two for each of its words; one to end.
pub open spec fn move_steps(block_size: u16, blocks: u16) -> int {
    blocks * (2 * words_for(block_size) + 1) + 1
}

proof fn lemma_move_is_over(
    write: bool,
    block_size: u16,
    blocks: u16,
    buf: Seq<u8>,
    card: spec_fn(int) -> u32,
)
    requires
        buf.len() <= usize::MAX,
    ensures
        move_steps(block_size, blocks) > 0,
        ({
            let p = Port::begins(write, block_size, blocks, buf).run(
                card,
                move_steps(block_size, blocks) as nat,
            );
            &&& moving(p, card, write, words_for(block_size), buf, blocks)
            &&& p.answer is Some
        }),
{
    let words = words_for(block_size) as int;
    assert(blocks * (2 * words + 1) >= 0) by (nonlinear_arith)
        requires
            words >= 0,
    ;
    let n = move_steps(block_size, blocks) as nat;
    lemma_move_runs(write, block_size, blocks, buf, card, n);
    let p = Port::begins(write, block_size, blocks, buf).run(card, n);
    assert(p.pio.blocks_left * (2 * p.pio.words + 1) >= 0) by (nonlinear_arith)
        requires
            p.pio.words >= 0,
            p.pio.blocks_left >= 0,
    ;
}

/// A write hands the whole buffer to the port, in order and padded with zeros to whole
/// words, waits for the controller's buffer once for each block, and leaves the transfer
/// buffer as it is.
pub proof fn law_write_sends_buffer(
    block_size: u16,
    blocks: u16,
    buf: Seq<u8>,
    card: spec_fn(int) -> u32,
)
    requires
        buf.len() <= usize::MAX,
    ensures
        move_steps(block_size, blocks) > 0,
        ({
            let p = Port::begins(true, block_size, blocks, buf).run(
                card,
                move_steps(block_size, blocks) as nat,
            );
            &&& p.answer == Some(Ok::<u32, SdioError>(0))
            &&& p.buf == buf
            &&& p.waits == blocks
            &&& p.taken == 0
            &&& p.sent.len() == move_words(block_size, blocks)
            &&& forall|k: int| 0 <= k < p.sent.len() ==> #[trigger] p.sent[k] == word_at(buf, 4 * k)
        }),
{
    lemma_move_is_over(true, block_size, blocks, buf, card);
}

/// A read takes every word of the transfer from the port, waits for the controller's buffer
/// once for each block, and fills the transfer buffer with the words, in order, as far as
/// both reach.
pub proof fn law_read_fills_buffer(
    block_size: u16,
    blocks: u16,
    buf: Seq<u8>,
    card: spec_fn(int) -> u32,
)
    requires
        buf.len() <= usize::MAX,
    ensures
        move_steps(block_size, blocks) > 0,
        ({
            let p = Port::begins(false, block_size, blocks, buf).run(
                card,
                move_steps(block_size, blocks) as nat,
            );
            &&& p.answer == Some(Ok::<u32, SdioError>(0))
            &&& p.sent.len() == 0
            &&& p.waits == blocks
            &&& p.taken == move_words(block_size, blocks)
            &&& p.buf == filled(buf, card, move_words(block_size, blocks))
        }),
{
    lemma_move_is_over(false, block_size, blocks, buf, card);
}

} // verus!
