//! The transfer buffer: bytes in memory, little-endian words at the data port.

use vstd::prelude::*;

verus! {

/// Byte `i` of a little-endian word, for `i` below 4.
pub open spec fn byte_of(word: u32, i: int) -> u8 {
    if i == 0 {
        (word % 0x100) as u8
    } else if i == 1 {
        (word / 0x100 % 0x100) as u8
    } else if i == 2 {
        (word / 0x1_0000 % 0x100) as u8
    } else {
        (word / 0x100_0000) as u8
    }
}

/// Byte `i` of a buffer that goes on with zeros.
pub open spec fn padded(buf: Seq<u8>, i: int) -> u8 {
    if 0 <= i < buf.len() { buf[i] } else { 0 }
}

/// The word that the buffer holds from `at` on.
pub open spec fn word_at(buf: Seq<u8>, at: int) -> u32 {
    (padded(buf, at) + padded(buf, at + 1) * 0x100 + padded(buf, at + 2) * 0x1_0000 + padded(
        buf,
        at + 3,
    ) * 0x100_0000) as u32
}

/// The buffer with the bytes of a word from `at` on, as far as it reaches.
pub open spec fn stored(buf: Seq<u8>, at: int, word: u32) -> Seq<u8> {
    Seq::new(buf.len(), |j: int| if at <= j < at + 4 { byte_of(word, j - at) } else { buf[j] })
}

fn byte_or_zero(buf: &Vec<u8>, at: usize, i: usize) -> (byte: u8)
    ensures
        byte == padded(buf@, at + i),
{
    if at < buf.len() && i < buf.len() - at {
        buf[at + i]
    } else {
        0
    }
}

/// The word that the buffer holds from `at` on.
pub fn fetch_word(buf: &Vec<u8>, at: usize) -> (word: u32)
    ensures
        word == word_at(buf@, at as int),
{
    let b0: u8 = byte_or_zero(buf, at, 0);
    let b1: u8 = byte_or_zero(buf, at, 1);
    let b2: u8 = byte_or_zero(buf, at, 2);
    let b3: u8 = byte_or_zero(buf, at, 3);
    b0 as u32 + b1 as u32 * 0x100 + b2 as u32 * 0x1_0000 + b3 as u32 * 0x100_0000
}

/// Puts the bytes of a word into the buffer from `at` on, as far as it reaches.
pub fn store_word(buf: &mut Vec<u8>, at: usize, word: u32)
    ensures
        final(buf)@ == stored(old(buf)@, at as int, word),
{
    let bytes: [u8; 4] = [
        (word % 0x100) as u8,
        (word / 0x100 % 0x100) as u8,
        (word / 0x1_0000 % 0x100) as u8,
        (word / 0x100_0000) as u8,
    ];
    let len: usize = buf.len();
    if at >= len {
        return;
    }
    let count: usize = if len - at < 4 { len - at } else { 4 };
    let ghost before = buf@;
    let mut i: usize = 0;
    while i < count
        invariant
            i <= count <= 4,
            at + count <= len,
            buf.len() == len,
            before.len() == len,
            bytes@ == seq![byte_of(word, 0), byte_of(word, 1), byte_of(word, 2), byte_of(word, 3)],
            forall|j: int|
                0 <= j < len ==> #[trigger] buf@[j] == (if at <= j < at + i {
                    byte_of(word, j - at)
                } else {
                    before[j]
                }),
        decreases count - i,
    {
        buf[at + i] = bytes[i];
        i = i + 1;
    }
}

// ---- Laws ----

/// A word stored where it was fetched puts back what was there: the card gets every
/// byte of a buffer, and a buffer every byte of the card.
pub proof fn law_word_round_trip(source: Seq<u8>, target: Seq<u8>, at: int)
    requires
        source.len() == target.len(),
        0 <= at,
    ensures
        forall|j: int|
            at <= j < at + 4 && j < target.len() ==> #[trigger] stored(
                target,
                at,
                word_at(source, at),
            )[j] == source[j],
        forall|j: int|
            0 <= j < target.len() && !(at <= j < at + 4) ==> #[trigger] stored(
                target,
                at,
                word_at(source, at),
            )[j] == target[j],
{
    let word = word_at(source, at);
    let b0 = padded(source, at);
    let b1 = padded(source, at + 1);
    let b2 = padded(source, at + 2);
    let b3 = padded(source, at + 3);
    lemma_bytes_of_word(b0, b1, b2, b3);
    assert forall|j: int| at <= j < at + 4 && j < target.len() implies #[trigger] stored(
        target,
        at,
        word,
    )[j] == source[j] by {
        assert(j - at == 0 || j - at == 1 || j - at == 2 || j - at == 3);
    }
}

proof fn lemma_bytes_of_word(b0: u8, b1: u8, b2: u8, b3: u8)
    ensures
        ({
            let word = (b0 + b1 * 0x100 + b2 * 0x1_0000 + b3 * 0x100_0000) as u32;
            &&& byte_of(word, 0) == b0
            &&& byte_of(word, 1) == b1
            &&& byte_of(word, 2) == b2
            &&& byte_of(word, 3) == b3
        }),
{
    let word = b0 + b1 * 0x100 + b2 * 0x1_0000 + b3 * 0x100_0000;
    assert(word / 0x100 == b1 + b2 * 0x100 + b3 * 0x1_0000);
    assert(word / 0x1_0000 == b2 + b3 * 0x100);
}

/// The buffer once the words fetched from `source` at the offsets below `4 * n` have
/// been stored into `target`.
pub open spec fn copied(source: Seq<u8>, target: Seq<u8>, n: nat) -> Seq<u8>
    decreases n,
{
    if n == 0 {
        target
    } else {
        let at = 4 * (n - 1);
        stored(copied(source, target, (n - 1) as nat), at, word_at(source, at))
    }
}

/// Enough words carry a whole buffer over.
pub proof fn law_words_carry_buffer(source: Seq<u8>, target: Seq<u8>, n: nat)
    requires
        source.len() == target.len(),
        source.len() <= 4 * n,
    ensures
        copied(source, target, n) == source,
{
    lemma_copied_prefix(source, target, n);
    assert(copied(source, target, n) =~= source);
}

proof fn lemma_copied_prefix(source: Seq<u8>, target: Seq<u8>, n: nat)
    requires
        source.len() == target.len(),
    ensures
        copied(source, target, n).len() == source.len(),
        forall|j: int|
            0 <= j < source.len() ==> #[trigger] copied(source, target, n)[j] == (if j < 4 * n {
                source[j]
            } else {
                target[j]
            }),
    decreases n,
{
    if n > 0 {
        let before = copied(source, target, (n - 1) as nat);
        lemma_copied_prefix(source, target, (n - 1) as nat);
        law_word_round_trip(source, before, 4 * (n - 1));
    }
}

/// The word that a buffer holds from a place on has the byte there lowest, then the next
/// three; beyond the end of the buffer it has zeros.
pub proof fn law_word_bytes(buf: Seq<u8>, at: int)
    requires
        at >= 0,
    ensures
        ({
            let w = word_at(buf, at) as int;
            let byte = |i: int| if i < buf.len() { buf[i] as int } else { 0 };
            &&& w % 0x100 == byte(at)
            &&& w / 0x100 % 0x100 == byte(at + 1)
            &&& w / 0x1_0000 % 0x100 == byte(at + 2)
            &&& w / 0x100_0000 == byte(at + 3)
        }),
{
    lemma_bytes_of_word(
        padded(buf, at),
        padded(buf, at + 1),
        padded(buf, at + 2),
        padded(buf, at + 3),
    );
}

/// A word that is stored at a place puts its lowest byte there, then the next three, as far
/// as the buffer reaches, and changes no other byte.
pub proof fn law_stored_bytes(buf: Seq<u8>, at: int, word: u32)
    requires
        at >= 0,
    ensures
        ({
            let after = stored(buf, at, word);
            let w = word as int;
            &&& after.len() == buf.len()
            &&& at < buf.len() ==> after[at] == w % 0x100
            &&& at + 1 < buf.len() ==> after[at + 1] == w / 0x100 % 0x100
            &&& at + 2 < buf.len() ==> after[at + 2] == w / 0x1_0000 % 0x100
            &&& at + 3 < buf.len() ==> after[at + 3] == w / 0x100_0000
            &&& forall|j: int|
                0 <= j < buf.len() && !(at <= j < at + 4) ==> #[trigger] after[j] == buf[j]
        }),
{
}

} // verus!
