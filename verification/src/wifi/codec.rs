//! Frames on the SDIO bus.

use vstd::arithmetic::power2::{is_pow2, pow2};
use vstd::prelude::*;

verus! {

/// Frames are padded to a multiple of this.
pub const TX_ALIGNMENT: usize = 4;

/// Zeros that end a frame which does not fill its last block.
pub const TAIL_LEN: usize = 4;

/// Block size of the Wi-Fi function.
pub const SDIOWIFI_FUNC_BLOCKSIZE: usize = 512;

/// Type of a frame that carries data.
pub const SDIO_TYPE_DATA: u8 = 0x00;

/// Bytes before the descriptor of a data frame.
pub const SDIO_HEADER_LEN: usize = 4;

/// Bytes of the descriptor.
pub const HOSTDESC_SIZE: usize = 28;

/// Bytes of an Ethernet header.
pub const ETH_HEADER_LEN: usize = 14;

/// The least multiple of `align` that is not below `val`.
pub open spec fn round_up(val: int, align: int) -> int {
    (val + align - 1) / align * align
}

/// Bytes that padding and headers add to a frame at most.
pub const FRAME_PADDING: usize = 1024;

/// A frame of this length can be padded without leaving the address range.
pub open spec fn has_room(len: int) -> bool {
    len + FRAME_PADDING <= usize::MAX
}

/// `n` zeros.
pub open spec fn zeros(n: int) -> Seq<u8> {
    Seq::new(n as nat, |i: int| 0u8)
}

proof fn lemma_pow2_exponent(align: usize) -> (n: nat)
    requires
        is_pow2(align as int),
    ensures
        pow2(n) == align,
        n < usize::BITS,
{
    vstd::arithmetic::power2::is_pow2_equiv(align as int);
    let n = choose|i: nat| vstd::arithmetic::power::pow(2, i) == align as int;
    assert(vstd::arithmetic::power::pow(2, n) == align as int);
    if n >= usize::BITS {
        vstd::arithmetic::power2::lemma2_to64();
        vstd::arithmetic::power2::lemma2_to64_rest();
        if n > usize::BITS {
            vstd::arithmetic::power2::lemma_pow2_strictly_increases(usize::BITS as nat, n);
        }
    }
    n
}

/// The least multiple of `align`, a power of two, that is not below `val`.
pub fn align_up(val: usize, align: usize) -> (aligned: usize)
    requires
        is_pow2(align as int),
        val + align - 1 <= usize::MAX,
    ensures
        aligned == round_up(val as int, align as int),
        val <= aligned < val + align,
        aligned % align == 0,
{
    proof {
        let n = lemma_pow2_exponent(align);
        vstd::arithmetic::power2::lemma_pow2_pos(n);
        let x = (val + align - 1) as usize;
        let m = (align - 1) as usize;
        assert(x & !m == x - (x & m)) by (bit_vector);
        vstd::bits::lemma_usize_low_bits_mask_is_mod(x, n);
        vstd::arithmetic::div_mod::lemma_fundamental_div_mod(x as int, align as int);
        vstd::arithmetic::div_mod::lemma_mod_bound(x as int, align as int);
        vstd::arithmetic::mul::lemma_mul_is_commutative(align as int, x as int / align as int);
        vstd::arithmetic::div_mod::lemma_mod_multiples_basic(x as int / align as int, align as int);
    }
    (val + (align - 1)) & !(align - 1)
}

proof fn lemma_tx_sizes_are_powers()
    ensures
        is_pow2(TX_ALIGNMENT as int),
        is_pow2(SDIOWIFI_FUNC_BLOCKSIZE as int),
{
    reveal_with_fuel(is_pow2, 11);
}

/// Frames are a multiple of four before the tail is added, so the tail always fits
/// into the last block.
proof fn lemma_tail_fits(len: int, aligned: int)
    requires
        len >= 0,
        aligned == round_up(len, 4),
    ensures
        aligned % 512 != 0 ==> round_up(aligned + 4, 512) == round_up(len, 512),
        aligned % 512 == 0 ==> aligned == round_up(len, 512),
{
    let a = (len + 3) / 4;
    let b = (len + 511) / 512;
    assert(aligned == 4 * a && len <= 4 * a < len + 4);
    assert(len <= 512 * b < len + 512);
    assert(a <= 128 * b);
    if aligned % 512 != 0 {
        assert(a < 128 * b);
        assert((aligned + 4 + 511) / 512 == b);
    } else {
        assert(a % 128 == 0);
        assert(a == 128 * (a / 128));
        assert(a / 128 == b);
    }
}

/// The frame with zeros up to a whole number of blocks.
pub open spec fn block_padded(frame: Seq<u8>) -> Seq<u8> {
    frame + zeros(round_up(frame.len() as int, SDIOWIFI_FUNC_BLOCKSIZE as int) - frame.len())
}

fn extend_zeros(buf: &mut Vec<u8>, len: usize)
    requires
        len >= old(buf)@.len(),
    ensures
        final(buf)@ == old(buf)@ + zeros(len - old(buf)@.len()),
{
    let ghost before = buf@;
    buf.resize(len, 0);
    assert forall|i: int| 0 <= i < before.len() implies #[trigger] buf@[i] == before[i] by {
        assert(buf@.subrange(0, before.len() as int)[i] == before[i]);
    }
    assert(buf@ =~= before + zeros(len - before.len()));
}

/// Pads a command frame with zeros up to a whole number of blocks and returns its
/// new length.
pub fn pad_cmd_frame(cmd: &mut Vec<u8>) -> (len: usize)
    requires
        has_room(old(cmd)@.len() as int),
    ensures
        final(cmd)@ == block_padded(old(cmd)@),
        len == final(cmd)@.len(),
        len % SDIOWIFI_FUNC_BLOCKSIZE == 0,
{
    proof {
        lemma_tx_sizes_are_powers();
    }
    let ghost before = cmd@;
    let aligned: usize = align_up(cmd.len(), TX_ALIGNMENT);
    extend_zeros(cmd, aligned);
    proof {
        lemma_tail_fits(before.len() as int, aligned as int);
    }
    if cmd.len() % SDIOWIFI_FUNC_BLOCKSIZE != 0 {
        extend_zeros(cmd, aligned + TAIL_LEN);
    }
    let final_len: usize = align_up(cmd.len(), SDIOWIFI_FUNC_BLOCKSIZE);
    extend_zeros(cmd, final_len);
    assert(cmd@ =~= block_padded(before));
    final_len
}

/// One message bit through the CRC register: the register is shifted, and reduced by
/// the polynomial x^8 + x^2 + x + 1 where the bit shifted out and the message bit
/// differ.
pub open spec fn crc8_bit(crc: u8, bit: bool) -> u8 {
    let shifted = (crc << 1u8) as u8;
    if (crc & 0x80 != 0) != bit { shifted ^ 0x07 } else { shifted }
}

/// The eight bits of a message byte, most significant first.
pub open spec fn crc8_byte(crc: u8, byte: u8) -> u8 {
    let c = crc8_bit(crc, byte & 0x80 != 0);
    let c = crc8_bit(c, byte & 0x40 != 0);
    let c = crc8_bit(c, byte & 0x20 != 0);
    let c = crc8_bit(c, byte & 0x10 != 0);
    let c = crc8_bit(c, byte & 0x08 != 0);
    let c = crc8_bit(c, byte & 0x04 != 0);
    let c = crc8_bit(c, byte & 0x02 != 0);
    crc8_bit(c, byte & 0x01 != 0)
}

/// The CRC of a message.
pub open spec fn crc8(data: Seq<u8>) -> u8
    decreases data.len(),
{
    if data.len() == 0 {
        0
    } else {
        crc8_byte(crc8(data.drop_last()), data.last())
    }
}

fn crc8_feed(crc: u8, bit: bool) -> (next: u8)
    ensures
        next == crc8_bit(crc, bit),
{
    let shifted: u8 = crc << 1u8;
    if (crc & 0x80 != 0) != bit {
        shifted ^ 0x07
    } else {
        shifted
    }
}

/// The CRC of a message, with the polynomial x^8 + x^2 + x + 1.
pub fn crc8_ponl_107(data: &[u8]) -> (crc: u8)
    ensures
        crc == crc8(data@),
{
    let mut crc: u8 = 0;
    let mut i: usize = 0;
    assert(data@.take(0) =~= Seq::<u8>::empty());
    while i < data.len()
        invariant
            i <= data.len(),
            crc == crc8(data@.take(i as int)),
        decreases data.len() - i,
    {
        let byte: u8 = data[i];
        proof {
            assert(data@.take(i + 1).drop_last() =~= data@.take(i as int));
        }
        crc = crc8_feed(crc, byte & 0x80 != 0);
        crc = crc8_feed(crc, byte & 0x40 != 0);
        crc = crc8_feed(crc, byte & 0x20 != 0);
        crc = crc8_feed(crc, byte & 0x10 != 0);
        crc = crc8_feed(crc, byte & 0x08 != 0);
        crc = crc8_feed(crc, byte & 0x04 != 0);
        crc = crc8_feed(crc, byte & 0x02 != 0);
        crc = crc8_feed(crc, byte & 0x01 != 0);
        i = i + 1;
    }
    assert(data@.take(i as int) =~= data@);
    crc
}

/// Why a data frame cannot be built.
#[derive(Clone, Copy, Debug, PartialEq, Eq, Structural)]
pub enum DataFrameBuildError {
    /// The Ethernet frame is shorter than its header.
    InvalidFrameLength,
}

/// The descriptor of a data frame for an Ethernet frame: payload length, a host id
/// that asks for a confirmation, destination, source, type, best-effort traffic, and
/// the interface and station that it goes through.
pub open spec fn hostdesc(eth: Seq<u8>, vif_idx: u8, sta_idx: u8) -> Seq<u8> {
    let payload_len = eth.len() - ETH_HEADER_LEN;
    seq![(payload_len % 0x100) as u8, (payload_len / 0x100 % 0x100) as u8, 0, 0] + seq![
        0x01u8,
        0x00,
        0x00,
        0x80,
    ] + eth.subrange(0, 14) + seq![0u8, 0, vif_idx, sta_idx, 0, 0]
}

/// The header of a data frame that holds `frame_len` bytes with it. The length has
/// twelve bits.
pub open spec fn sdio_header(frame_len: int, is_v3: bool) -> Seq<u8> {
    let len = frame_len - SDIO_HEADER_LEN;
    let head = seq![(len % 0x100) as u8, (len / 0x100 % 0x10) as u8, SDIO_TYPE_DATA];
    head.push(if is_v3 { crc8(head) } else { 0 })
}

/// The data frame for an Ethernet frame.
pub open spec fn data_frame(eth: Seq<u8>, vif_idx: u8, sta_idx: u8, is_v3: bool) -> Seq<u8> {
    let payload = eth.subrange(ETH_HEADER_LEN as int, eth.len() as int);
    let raw_len = SDIO_HEADER_LEN + HOSTDESC_SIZE + payload.len();
    block_padded(
        sdio_header(round_up(raw_len as int, TX_ALIGNMENT as int), is_v3) + hostdesc(
            eth,
            vif_idx,
            sta_idx,
        ) + payload,
    )
}

fn put_bytes(buf: &mut Vec<u8>, at: usize, bytes: &[u8])
    requires
        at + bytes@.len() <= old(buf)@.len(),
    ensures
        final(buf)@ == old(buf)@.subrange(0, at as int) + bytes@ + old(buf)@.subrange(
            at + bytes@.len(),
            old(buf)@.len() as int,
        ),
{
    let ghost before = buf@;
    let n: usize = bytes.len();
    let total: usize = buf.len();
    let mut i: usize = 0;
    while i < n
        invariant
            i <= n,
            n == bytes@.len(),
            at + n <= total,
            before.len() == total,
            buf@.len() == total,
            forall|j: int|
                0 <= j < before.len() ==> #[trigger] buf@[j] == (if at <= j < at + i {
                    bytes@[j - at]
                } else {
                    before[j]
                }),
        decreases n - i,
    {
        buf[at + i] = bytes[i];
        i = i + 1;
    }
    assert(buf@ =~= before.subrange(0, at as int) + bytes@ + before.subrange(
        at + n,
        before.len() as int,
    ));
}

/// Fills in the descriptor of a data frame whose bytes are still zero.
pub fn fill_hostdesc(
    buf: &mut Vec<u8>,
    payload_len: usize,
    eth_dest: &[u8],
    eth_src: &[u8],
    ethertype: &[u8],
    vif_idx: u8,
    sta_idx: u8,
)
    requires
        old(buf)@.len() >= SDIO_HEADER_LEN + HOSTDESC_SIZE,
        eth_dest@.len() == 6,
        eth_src@.len() == 6,
        ethertype@.len() == 2,
    ensures
        final(buf)@ == old(buf)@.subrange(0, 4) + seq![
            (payload_len as int % 0x100) as u8,
            (payload_len as int / 0x100 % 0x100) as u8,
        ] + old(buf)@.subrange(6, 8) + seq![0x01u8, 0x00, 0x00, 0x80] + eth_dest@ + eth_src@
            + ethertype@ + seq![0u8, 0, vif_idx, sta_idx] + old(buf)@.subrange(
            30,
            old(buf)@.len() as int,
        ),
{
    let ghost before = buf@;
    let len_bytes: [u8; 2] = [(payload_len % 0x100) as u8, (payload_len / 0x100 % 0x100) as u8];
    let host_id: [u8; 4] = [0x01, 0x00, 0x00, 0x80];
    let tail: [u8; 4] = [0, 0, vif_idx, sta_idx];
    put_bytes(buf, SDIO_HEADER_LEN, len_bytes.as_slice());
    put_bytes(buf, SDIO_HEADER_LEN + 4, host_id.as_slice());
    put_bytes(buf, SDIO_HEADER_LEN + 8, eth_dest);
    put_bytes(buf, SDIO_HEADER_LEN + 14, eth_src);
    put_bytes(buf, SDIO_HEADER_LEN + 20, ethertype);
    put_bytes(buf, SDIO_HEADER_LEN + 22, tail.as_slice());
    assert(buf@ =~= before.subrange(0, 4) + len_bytes@ + before.subrange(6, 8) + host_id@
        + eth_dest@ + eth_src@ + ethertype@ + tail@ + before.subrange(30, before.len() as int));
    assert(len_bytes@ =~= seq![
        (payload_len as int % 0x100) as u8,
        (payload_len as int / 0x100 % 0x100) as u8,
    ]);
    assert(host_id@ =~= seq![0x01u8, 0x00, 0x00, 0x80]);
    assert(tail@ =~= seq![0u8, 0, vif_idx, sta_idx]);
}

proof fn lemma_desc_in_place(header: Seq<u8>, eth: Seq<u8>, vif_idx: u8, sta_idx: u8, room: int)
    requires
        header.len() == 4,
        eth.len() >= ETH_HEADER_LEN,
        room >= HOSTDESC_SIZE,
    ensures
        ({
            let before = header + zeros(room);
            let payload_len = eth.len() - ETH_HEADER_LEN;
            before.subrange(0, 4) + seq![
                (payload_len % 0x100) as u8,
                (payload_len / 0x100 % 0x100) as u8,
            ] + before.subrange(6, 8) + seq![0x01u8, 0x00, 0x00, 0x80] + eth.subrange(0, 6)
                + eth.subrange(6, 12) + eth.subrange(12, 14) + seq![0u8, 0, vif_idx, sta_idx]
                + before.subrange(30, before.len() as int) == header + hostdesc(
                eth,
                vif_idx,
                sta_idx,
            ) + zeros(room - HOSTDESC_SIZE)
        }),
{
    let before = header + zeros(room);
    assert(before.subrange(0, 4) =~= header);
    assert(before.subrange(6, 8) =~= seq![0u8, 0]);
    assert(before.subrange(30, before.len() as int) =~= seq![0u8, 0] + zeros(room - 28));
    assert(eth.subrange(0, 14) =~= eth.subrange(0, 6) + eth.subrange(6, 12) + eth.subrange(12, 14));
    let payload_len = eth.len() - ETH_HEADER_LEN;
    let low = (payload_len % 0x100) as u8;
    let high = (payload_len / 0x100 % 0x100) as u8;
    assert(seq![low, high, 0, 0] =~= seq![low, high] + seq![0u8, 0]);
    assert(seq![0u8, 0, vif_idx, sta_idx, 0, 0] =~= seq![0u8, 0, vif_idx, sta_idx] + seq![0u8, 0]);
    let id = seq![0x01u8, 0x00, 0x00, 0x80];
    let tail = seq![0u8, 0, vif_idx, sta_idx];
    assert(header + (seq![low, high] + seq![0u8, 0] + id + (eth.subrange(0, 6) + eth.subrange(
        6,
        12,
    ) + eth.subrange(12, 14)) + (tail + seq![0u8, 0])) + zeros(room - 28) =~= header + seq![
        low,
        high,
    ] + seq![0u8, 0] + id + eth.subrange(0, 6) + eth.subrange(6, 12) + eth.subrange(12, 14) + tail
        + (seq![0u8, 0] + zeros(room - 28)));
}

proof fn lemma_zeros_replaced(front: Seq<u8>, bytes: Seq<u8>, room: int)
    requires
        room >= bytes.len(),
    ensures
        ({
            let before = front + zeros(room);
            before.subrange(0, front.len() as int) + bytes + before.subrange(
                (front.len() + bytes.len()) as int,
                before.len() as int,
            ) == front + bytes + zeros(room - bytes.len())
        }),
{
    let before = front + zeros(room);
    assert(before.subrange(0, front.len() as int) =~= front);
    assert(before.subrange((front.len() + bytes.len()) as int, before.len() as int) =~= zeros(
        room - bytes.len(),
    ));
}

/// The lengths of a data frame with `payload_len` bytes of payload: up to the end of
/// the payload in whole words, and in whole blocks.
fn data_frame_lens(payload_len: usize) -> (lens: (usize, usize))
    requires
        has_room(payload_len as int),
    ensures
        lens.0 == round_up(payload_len + 32, TX_ALIGNMENT as int),
        lens.1 == round_up(payload_len + 32, SDIOWIFI_FUNC_BLOCKSIZE as int),
        lens.0 >= payload_len + 32,
        lens.1 >= payload_len + 32,
{
    proof {
        lemma_tx_sizes_are_powers();
    }
    let raw_len: usize = payload_len + HOSTDESC_SIZE + SDIO_HEADER_LEN;
    let aligned_len: usize = align_up(raw_len, TX_ALIGNMENT);
    proof {
        lemma_tail_fits(raw_len as int, aligned_len as int);
    }
    let final_len: usize = if aligned_len % SDIOWIFI_FUNC_BLOCKSIZE != 0 {
        align_up(aligned_len + TAIL_LEN, SDIOWIFI_FUNC_BLOCKSIZE)
    } else {
        aligned_len
    };
    (aligned_len, final_len)
}

/// The header of a data frame that holds `frame_len` bytes with it.
fn data_frame_header(frame_len: usize, is_v3: bool) -> (header: [u8; 4])
    requires
        frame_len >= SDIO_HEADER_LEN,
    ensures
        header@ == sdio_header(frame_len as int, is_v3),
{
    let sdio_hdr_len: usize = frame_len - SDIO_HEADER_LEN;
    let head: [u8; 3] = [
        (sdio_hdr_len % 0x100) as u8,
        (sdio_hdr_len / 0x100 % 0x10) as u8,
        SDIO_TYPE_DATA,
    ];
    assert(head@ =~= seq![
        (sdio_hdr_len as int % 0x100) as u8,
        (sdio_hdr_len as int / 0x100 % 0x10) as u8,
        SDIO_TYPE_DATA,
    ]);
    let check: u8 = if is_v3 {
        crc8_ponl_107(head.as_slice())
    } else {
        0x00
    };
    let header: [u8; 4] = [head[0], head[1], head[2], check];
    assert(header@ =~= head@.push(check));
    header
}

/// Builds the data frame for an Ethernet frame.
#[verifier::rlimit(40)]
pub fn build_data_frame(
    eth_frame: &[u8],
    vif_idx: u8,
    sta_idx: u8,
    is_v3: bool,
) -> (frame: Result<Vec<u8>, DataFrameBuildError>)
    requires
        has_room(eth_frame@.len() as int),
    ensures
        frame is Err <==> eth_frame@.len() < ETH_HEADER_LEN,
        frame matches Ok(buf) ==> buf@ == data_frame(eth_frame@, vif_idx, sta_idx, is_v3),
        frame is Ok <==> eth_frame@.len() >= 14,
        frame matches Ok(buf) ==> has_bytes(buf@, eth_frame@, vif_idx, sta_idx, is_v3),
{
    if eth_frame.len() < ETH_HEADER_LEN {
        return Err(DataFrameBuildError::InvalidFrameLength);
    }
    let eth_dest: &[u8] = vstd::slice::slice_subrange(eth_frame, 0, 6);
    let eth_src: &[u8] = vstd::slice::slice_subrange(eth_frame, 6, 12);
    let ethertype: &[u8] = vstd::slice::slice_subrange(eth_frame, 12, 14);
    let payload: &[u8] = vstd::slice::slice_subrange(eth_frame, ETH_HEADER_LEN, eth_frame.len());
    let payload_len: usize = payload.len();
    let (aligned_len, final_len): (usize, usize) = data_frame_lens(payload_len);
    let header: [u8; 4] = data_frame_header(aligned_len, is_v3);

    let mut buf: Vec<u8> = vec![0u8; final_len];
    let ghost desc = hostdesc(eth_frame@, vif_idx, sta_idx);
    assert(buf@ =~= Seq::<u8>::empty() + zeros(final_len as int));
    put_bytes(&mut buf, 0, header.as_slice());
    proof {
        lemma_zeros_replaced(Seq::empty(), header@, final_len as int);
        assert(Seq::<u8>::empty() + header@ =~= header@);
    }
    fill_hostdesc(&mut buf, payload_len, eth_dest, eth_src, ethertype, vif_idx, sta_idx);
    proof {
        lemma_desc_in_place(header@, eth_frame@, vif_idx, sta_idx, final_len - 4);
    }
    put_bytes(&mut buf, SDIO_HEADER_LEN + HOSTDESC_SIZE, payload);
    proof {
        lemma_zeros_replaced(header@ + desc, payload@, final_len - 32);
        law_data_frame_bytes(eth_frame@, vif_idx, sta_idx, is_v3);
    }
    Ok(buf)
}

// ---- Laws ----

/// Rounding up gives the least multiple that is not below.
pub proof fn law_round_up_is_least(val: int, align: int, other: int)
    requires
        align > 0,
        other >= val,
        other % align == 0,
    ensures
        val <= round_up(val, align) <= other,
        round_up(val, align) % align == 0,
{
    let x = val + align - 1;
    vstd::arithmetic::div_mod::lemma_fundamental_div_mod(x, align);
    vstd::arithmetic::div_mod::lemma_mod_bound(x, align);
    vstd::arithmetic::mul::lemma_mul_is_commutative(align, x / align);
    vstd::arithmetic::div_mod::lemma_mod_multiples_basic(x / align, align);
    vstd::arithmetic::div_mod::lemma_fundamental_div_mod(other, align);
    assert(x / align <= other / align) by (nonlinear_arith)
        requires
            align > 0,
            other == align * (other / align),
            align * (x / align) <= x,
            x <= other + align - 1,
    ;
    assert(x / align * align <= other) by (nonlinear_arith)
        requires
            align > 0,
            x / align <= other / align,
            other == align * (other / align),
    ;
}

/// A padded frame fills whole blocks, begins with the frame, and adds less than a
/// block of zeros.
#[verifier::rlimit(40)]
pub proof fn law_padding_keeps_frame(frame: Seq<u8>)
    ensures
        block_padded(frame).len() % SDIOWIFI_FUNC_BLOCKSIZE as nat == 0,
        block_padded(frame).len() < frame.len() + SDIOWIFI_FUNC_BLOCKSIZE,
        block_padded(frame).take(frame.len() as int) == frame,
        forall|i: int|
            frame.len() <= i < block_padded(frame).len() ==> #[trigger] block_padded(frame)[i] == 0,
{
    assert(block_padded(frame).take(frame.len() as int) =~= frame);
}

/// Padding a frame that has been padded changes nothing: one that fills whole blocks, the
/// empty one too, gets no more.
#[verifier::rlimit(40)]
pub proof fn law_padding_is_idempotent(frame: Seq<u8>)
    ensures
        block_padded(block_padded(frame)) == block_padded(frame),
        frame.len() % SDIOWIFI_FUNC_BLOCKSIZE as nat == 0 ==> block_padded(frame) == frame,
{
    law_padding_keeps_frame(frame);
    let once = block_padded(frame);
    assert(block_padded(once) =~= once);
    if frame.len() % SDIOWIFI_FUNC_BLOCKSIZE as nat == 0 {
        assert(block_padded(frame) =~= frame);
    }
}

/// A message with its CRC behind it has the CRC zero: that is how a receiver checks
/// it.
pub proof fn law_crc_of_checked_message(data: Seq<u8>)
    ensures
        crc8(data.push(crc8(data))) == 0,
{
    let c = crc8(data);
    assert(data.push(c).drop_last() =~= data);
    assert(crc8_byte(c, c) == 0) by (bit_vector);
}

/// The header of a frame for third-generation chips checks.
#[verifier::rlimit(40)]
pub proof fn law_v3_header_checks(eth: Seq<u8>, vif_idx: u8, sta_idx: u8)
    requires
        eth.len() >= ETH_HEADER_LEN,
    ensures
        crc8(data_frame(eth, vif_idx, sta_idx, true).subrange(0, 4)) == 0,
{
    let raw_len = SDIO_HEADER_LEN + HOSTDESC_SIZE + (eth.len() - ETH_HEADER_LEN);
    let len = round_up(raw_len as int, 4) - 4;
    let head = seq![(len % 0x100) as u8, (len / 0x100 % 0x10) as u8, SDIO_TYPE_DATA];
    law_crc_of_checked_message(head);
    assert(data_frame(eth, vif_idx, sta_idx, true).subrange(0, 4) =~= head.push(crc8(head)));
}

/// Frames for third-generation chips and for others differ in one byte only: the last of
/// the header is the CRC of the three before it, or zero.
#[verifier::rlimit(40)]
pub proof fn law_generations_differ_in_check_byte(eth: Seq<u8>, vif_idx: u8, sta_idx: u8)
    requires
        eth.len() >= ETH_HEADER_LEN,
    ensures
        ({
            let plain = data_frame(eth, vif_idx, sta_idx, false);
            let checked = data_frame(eth, vif_idx, sta_idx, true);
            &&& plain.len() == checked.len()
            &&& plain.len() > 3
            &&& forall|i: int| 0 <= i < plain.len() && i != 3 ==> #[trigger] plain[i] == checked[i]
            &&& plain[3] == 0
            &&& checked[3] == crc8(checked.subrange(0, 3))
        }),
{
    let raw_len = SDIO_HEADER_LEN + HOSTDESC_SIZE + (eth.len() - ETH_HEADER_LEN);
    let len = round_up(raw_len as int, 4) - 4;
    let head = seq![(len % 0x100) as u8, (len / 0x100 % 0x10) as u8, SDIO_TYPE_DATA];
    let checked = data_frame(eth, vif_idx, sta_idx, true);
    assert(checked.subrange(0, 3) =~= head);
}

/// What a receiver reads from a data frame: the header holds the length, as far as
/// twelve bits do, and the type; the descriptor holds the payload length, as far as
/// sixteen bits do, the addresses, the type, the interface and the station; the payload
/// follows; and the whole fills whole blocks.
pub open spec fn carries(frame: Seq<u8>, eth: Seq<u8>, vif_idx: u8, sta_idx: u8) -> bool {
    let payload_len = eth.len() - ETH_HEADER_LEN;
    &&& frame.len() == round_up(payload_len + 32, 512)
    &&& frame.len() % 512 == 0
    &&& frame[0] + frame[1] * 0x100 == (round_up(payload_len + 32, 4) - 4) % 0x1000
    &&& frame[2] == SDIO_TYPE_DATA
    &&& frame[4] + frame[5] * 0x100 == payload_len % 0x1_0000
    &&& frame.subrange(12, 26) == eth.subrange(0, 14)
    &&& frame[28] == vif_idx
    &&& frame[29] == sta_idx
    &&& frame.subrange(32, 32 + payload_len) == eth.subrange(14, eth.len() as int)
}

/// Where the parts of a data frame stand.
#[verifier::rlimit(40)]
proof fn lemma_frame_parts(header: Seq<u8>, desc: Seq<u8>, payload: Seq<u8>)
    requires
        header.len() == 4,
        desc.len() == 28,
    ensures
        ({
            let frame = block_padded(header + desc + payload);
            &&& frame.len() == round_up(payload.len() as int + 32, 512)
            &&& frame.len() % 512 == 0
            &&& frame.len() >= payload.len() + 32
            &&& frame.subrange(0, 4) == header
            &&& frame.subrange(4, 32) == desc
            &&& frame.subrange(32, 32 + payload.len() as int) == payload
        }),
{
    let frame = block_padded(header + desc + payload);
    assert(frame.subrange(0, 4) =~= header);
    assert(frame.subrange(4, 32) =~= desc);
    assert(frame.subrange(32, 32 + payload.len() as int) =~= payload);
}

/// Two bytes of a length, low one first.
proof fn lemma_length_bytes(len: int)
    requires
        len >= 0,
    ensures
        (len % 0x100) as u8 + ((len / 0x100 % 0x10) as u8) * 0x100 == len % 0x1000,
        (len % 0x100) as u8 + ((len / 0x100 % 0x100) as u8) * 0x100 == len % 0x1_0000,
{
}

/// What the descriptor holds.
#[verifier::rlimit(40)]
proof fn lemma_hostdesc(eth: Seq<u8>, vif_idx: u8, sta_idx: u8)
    requires
        eth.len() >= ETH_HEADER_LEN,
    ensures
        ({
            let desc = hostdesc(eth, vif_idx, sta_idx);
            let payload_len = eth.len() - ETH_HEADER_LEN;
            &&& desc.len() == 28
            &&& desc[0] == (payload_len % 0x100) as u8
            &&& desc[1] == (payload_len / 0x100 % 0x100) as u8
            &&& desc.subrange(8, 22) == eth.subrange(0, 14)
            &&& desc[24] == vif_idx
            &&& desc[25] == sta_idx
        }),
{
    let desc = hostdesc(eth, vif_idx, sta_idx);
    assert(desc.subrange(8, 22) =~= eth.subrange(0, 14));
}

/// Everything that goes into a data frame can be read back from it.
#[verifier::rlimit(40)]
pub proof fn law_data_frame_decodes(eth: Seq<u8>, vif_idx: u8, sta_idx: u8, is_v3: bool)
    requires
        eth.len() >= ETH_HEADER_LEN,
    ensures
        carries(data_frame(eth, vif_idx, sta_idx, is_v3), eth, vif_idx, sta_idx),
{
    let frame = data_frame(eth, vif_idx, sta_idx, is_v3);
    let payload_len = eth.len() - ETH_HEADER_LEN;
    let header = sdio_header(round_up(payload_len + 32, 4), is_v3);
    let desc = hostdesc(eth, vif_idx, sta_idx);
    let payload = eth.subrange(14, eth.len() as int);
    lemma_hostdesc(eth, vif_idx, sta_idx);
    lemma_frame_parts(header, desc, payload);
    assert(frame == block_padded(header + desc + payload));
    lemma_length_bytes(round_up(payload_len + 32, 4) - 4);
    lemma_length_bytes(payload_len);
    assert(frame[0] == header[0] && frame[1] == header[1] && frame[2] == header[2]) by {
        assert(frame.subrange(0, 4)[0] == header[0] && frame.subrange(0, 4)[1] == header[1]
            && frame.subrange(0, 4)[2] == header[2]);
    }
    assert(frame[4] == desc[0] && frame[5] == desc[1] && frame[28] == desc[24] && frame[29]
        == desc[25]) by {
        let part = frame.subrange(4, 32);
        assert(part[0] == desc[0] && part[1] == desc[1] && part[24] == desc[24] && part[25]
            == desc[25]);
    }
    assert(frame.subrange(12, 26) =~= frame.subrange(4, 32).subrange(8, 22));
}

/// Two Ethernet frames with a payload that the descriptor can count have the same data
/// frame only if they are the same, and go through the same interface and station.
#[verifier::rlimit(40)]
pub proof fn law_data_frame_is_faithful(
    a: Seq<u8>,
    vif_a: u8,
    sta_a: u8,
    b: Seq<u8>,
    vif_b: u8,
    sta_b: u8,
    is_v3: bool,
)
    requires
        ETH_HEADER_LEN <= a.len() < ETH_HEADER_LEN + 0x1_0000,
        ETH_HEADER_LEN <= b.len() < ETH_HEADER_LEN + 0x1_0000,
        data_frame(a, vif_a, sta_a, is_v3) == data_frame(b, vif_b, sta_b, is_v3),
    ensures
        a == b,
        vif_a == vif_b,
        sta_a == sta_b,
{
    let frame = data_frame(a, vif_a, sta_a, is_v3);
    law_data_frame_decodes(a, vif_a, sta_a, is_v3);
    law_data_frame_decodes(b, vif_b, sta_b, is_v3);
    lemma_carries_one(frame, a, vif_a, sta_a, b, vif_b, sta_b);
}

proof fn lemma_carries_one(
    frame: Seq<u8>,
    a: Seq<u8>,
    vif_a: u8,
    sta_a: u8,
    b: Seq<u8>,
    vif_b: u8,
    sta_b: u8,
)
    requires
        ETH_HEADER_LEN <= a.len() < ETH_HEADER_LEN + 0x1_0000,
        ETH_HEADER_LEN <= b.len() < ETH_HEADER_LEN + 0x1_0000,
        carries(frame, a, vif_a, sta_a),
        carries(frame, b, vif_b, sta_b),
    ensures
        a == b,
        vif_a == vif_b,
        sta_a == sta_b,
{
    assert(a.len() == b.len());
    assert(a =~= a.subrange(0, 14) + a.subrange(14, a.len() as int));
    assert(b =~= b.subrange(0, 14) + b.subrange(14, b.len() as int));
}

/// Bytes behind the header of a data frame: the descriptor, and the payload in whole words.
pub open spec fn bytes_behind(payload: int) -> int {
    28 + (payload + 3) / 4 * 4
}

/// Every byte of a data frame. The header says how many bytes follow it, up to the end of the
/// payload in whole words, in twelve bits, and that they are data. The descriptor has the
/// length of the payload in sixteen bits, a host id that asks for a confirmation, the
/// Ethernet header as it is, best-effort traffic, interface and station. The payload follows
/// as it is, then zeros up to a whole number of blocks.
pub open spec fn has_bytes(
    frame: Seq<u8>,
    eth: Seq<u8>,
    vif_idx: u8,
    sta_idx: u8,
    is_v3: bool,
) -> bool {
    let payload = eth.len() - 14;
    let follows = bytes_behind(payload);
    &&& frame.len() as int % 512 == 0
    &&& eth.len() + 18 <= frame.len() < eth.len() + 18 + 512
    &&& frame[0] == follows % 0x100
    &&& frame[1] == follows / 0x100 % 0x10
    &&& frame[2] == 0
    &&& !is_v3 ==> frame[3] == 0
    &&& is_v3 ==> frame[3] == crc8(frame.subrange(0, 3))
    &&& frame[4] == payload % 0x100
    &&& frame[5] == payload / 0x100 % 0x100
    &&& frame[6] == 0 && frame[7] == 0
    &&& frame[8] == 0x01 && frame[9] == 0 && frame[10] == 0 && frame[11] == 0x80
    &&& forall|i: int| 0 <= i < 14 ==> frame[12 + i] == #[trigger] eth[i]
    &&& frame[26] == 0 && frame[27] == 0
    &&& frame[28] == vif_idx && frame[29] == sta_idx
    &&& frame[30] == 0 && frame[31] == 0
    &&& forall|i: int| 14 <= i < eth.len() ==> frame[18 + i] == #[trigger] eth[i]
    &&& forall|j: int| eth.len() + 18 <= j < frame.len() ==> #[trigger] frame[j] == 0
}

/// A data frame has exactly the bytes that it should have.
#[verifier::rlimit(40)]
pub proof fn law_data_frame_bytes(eth: Seq<u8>, vif_idx: u8, sta_idx: u8, is_v3: bool)
    requires
        eth.len() >= 14,
    ensures
        has_bytes(data_frame(eth, vif_idx, sta_idx, is_v3), eth, vif_idx, sta_idx, is_v3),
{
    let frame_len = round_up(eth.len() - 14 + 32, 4);
    let header = sdio_header(frame_len, is_v3);
    let desc = hostdesc(eth, vif_idx, sta_idx);
    let payload = eth.subrange(14, eth.len() as int);
    lemma_hostdesc_bytes(eth, vif_idx, sta_idx);
    lemma_header_bytes(frame_len, is_v3);
    assert(frame_len == bytes_behind(eth.len() - 14) + 4);
    lemma_assembled(header, desc, payload, eth, vif_idx, sta_idx, is_v3);
}

/// What the descriptor holds, byte by byte.
spec fn desc_has_bytes(desc: Seq<u8>, eth: Seq<u8>, vif_idx: u8, sta_idx: u8) -> bool {
    let payload_len = eth.len() - 14;
    &&& desc.len() == 28
    &&& desc[0] == payload_len % 0x100
    &&& desc[1] == payload_len / 0x100 % 0x100
    &&& desc[2] == 0 && desc[3] == 0
    &&& desc[4] == 0x01 && desc[5] == 0 && desc[6] == 0 && desc[7] == 0x80
    &&& forall|i: int| 0 <= i < 14 ==> desc[8 + i] == #[trigger] eth[i]
    &&& desc[22] == 0 && desc[23] == 0
    &&& desc[24] == vif_idx && desc[25] == sta_idx
    &&& desc[26] == 0 && desc[27] == 0
}

/// What the header holds, byte by byte.
spec fn header_has_bytes(header: Seq<u8>, frame_len: int, is_v3: bool) -> bool {
    &&& header.len() == 4
    &&& header[0] == (frame_len - 4) % 0x100
    &&& header[1] == (frame_len - 4) / 0x100 % 0x10
    &&& header[2] == 0
    &&& !is_v3 ==> header[3] == 0
    &&& is_v3 ==> header[3] == crc8(header.subrange(0, 3))
}

#[verifier::rlimit(40)]
proof fn lemma_assembled(
    header: Seq<u8>,
    desc: Seq<u8>,
    payload: Seq<u8>,
    eth: Seq<u8>,
    vif_idx: u8,
    sta_idx: u8,
    is_v3: bool,
)
    requires
        eth.len() >= 14,
        payload == eth.subrange(14, eth.len() as int),
        header_has_bytes(header, bytes_behind(eth.len() - 14) + 4, is_v3),
        desc_has_bytes(desc, eth, vif_idx, sta_idx),
    ensures
        has_bytes(block_padded(header + desc + payload), eth, vif_idx, sta_idx, is_v3),
{
    lemma_frame_positions(header, desc, payload);
    lemma_positions_are_bytes(
        block_padded(header + desc + payload),
        header,
        desc,
        payload,
        eth,
        vif_idx,
        sta_idx,
        is_v3,
    );
}

#[verifier::rlimit(40)]
proof fn lemma_positions_are_bytes(
    frame: Seq<u8>,
    header: Seq<u8>,
    desc: Seq<u8>,
    payload: Seq<u8>,
    eth: Seq<u8>,
    vif_idx: u8,
    sta_idx: u8,
    is_v3: bool,
)
    requires
        eth.len() >= 14,
        payload == eth.subrange(14, eth.len() as int),
        header_has_bytes(header, bytes_behind(eth.len() - 14) + 4, is_v3),
        desc_has_bytes(desc, eth, vif_idx, sta_idx),
        in_positions(frame, header, desc, payload),
    ensures
        has_bytes(frame, eth, vif_idx, sta_idx, is_v3),
{
    assert forall|i: int| 0 <= i < 14 implies frame[12 + i] == #[trigger] eth[i] by {
        assert(frame[4 + (8 + i)] == desc[8 + i]);
    }
    assert forall|i: int| 14 <= i < eth.len() implies frame[18 + i] == #[trigger] eth[i] by {
        assert(frame[32 + (i - 14)] == payload[i - 14]);
    }
    assert(frame[0] == header[0] && frame[1] == header[1] && frame[2] == header[2] && frame[3]
        == header[3]);
    assert(frame[4] == desc[0] && frame[5] == desc[1] && frame[6] == desc[2] && frame[7] == desc[3]
        && frame[8] == desc[4] && frame[9] == desc[5] && frame[10] == desc[6] && frame[11]
        == desc[7]);
    assert(frame[26] == desc[22] && frame[27] == desc[23] && frame[28] == desc[24] && frame[29]
        == desc[25] && frame[30] == desc[26] && frame[31] == desc[27]);
    assert(frame.subrange(0, 3) =~= header.subrange(0, 3));
}

#[verifier::rlimit(40)]
proof fn lemma_hostdesc_bytes(eth: Seq<u8>, vif_idx: u8, sta_idx: u8)
    requires
        eth.len() >= 14,
    ensures
        desc_has_bytes(hostdesc(eth, vif_idx, sta_idx), eth, vif_idx, sta_idx),
{
    lemma_hostdesc(eth, vif_idx, sta_idx);
    let desc = hostdesc(eth, vif_idx, sta_idx);
    assert forall|i: int| 0 <= i < 14 implies desc[8 + i] == #[trigger] eth[i] by {
        assert(desc.subrange(8, 22)[i] == eth.subrange(0, 14)[i]);
    }
}

#[verifier::rlimit(40)]
proof fn lemma_header_bytes(frame_len: int, is_v3: bool)
    requires
        frame_len >= 4,
    ensures
        header_has_bytes(sdio_header(frame_len, is_v3), frame_len, is_v3),
{
    let len = frame_len - 4;
    let head = seq![(len % 0x100) as u8, (len / 0x100 % 0x10) as u8, SDIO_TYPE_DATA];
    assert(sdio_header(frame_len, is_v3).subrange(0, 3) =~= head);
}

/// Header, descriptor and payload stand one behind the other, and zeros behind them.
spec fn in_positions(frame: Seq<u8>, header: Seq<u8>, desc: Seq<u8>, payload: Seq<u8>) -> bool {
    &&& frame.len() as int % 512 == 0
    &&& payload.len() + 32 <= frame.len() < payload.len() + 32 + 512
    &&& forall|i: int| 0 <= i < 4 ==> frame[i] == #[trigger] header[i]
    &&& forall|i: int| 0 <= i < 28 ==> frame[4 + i] == #[trigger] desc[i]
    &&& forall|i: int| 0 <= i < payload.len() ==> frame[32 + i] == #[trigger] payload[i]
    &&& forall|j: int| payload.len() + 32 <= j < frame.len() ==> #[trigger] frame[j] == 0
}

#[verifier::rlimit(40)]
proof fn lemma_frame_positions(header: Seq<u8>, desc: Seq<u8>, payload: Seq<u8>)
    requires
        header.len() == 4,
        desc.len() == 28,
    ensures
        in_positions(block_padded(header + desc + payload), header, desc, payload),
{
    law_padding_keeps_frame(header + desc + payload);
}

/// The product, without carries, of a byte and the polynomial x^8 + x^2 + x + 1.
pub open spec fn times_poly(q: u8) -> u32 {
    (((q as u32) << 8) ^ ((q as u32) << 2)) ^ (((q as u32) << 1) ^ (q as u32))
}

/// The CRC is the remainder of a division by the polynomial x^8 + x^2 + x + 1: that of no
/// message is zero, and with one more byte, the CRC so far and that byte, moved up by eight
/// bits, differ from the CRC then by a multiple of the polynomial.
pub proof fn law_crc_is_remainder(data: Seq<u8>, byte: u8)
    ensures
        crc8(Seq::empty()) == 0,
        exists|q: u8|
            #[trigger] times_poly(q) == (((crc8(data) ^ byte) as u32) << 8) ^ (crc8(
                data.push(byte),
            ) as u32),
{
    let crc = crc8(data);
    assert(data.push(byte).drop_last() =~= data);
    let r = crc8_byte(crc, byte);
    let v = crc ^ byte;
    let q = v ^ (v >> 6) ^ (v >> 7);
    assert((((q as u32) << 8) ^ ((q as u32) << 2)) ^ (((q as u32) << 1) ^ (q as u32)) == (((crc
        ^ byte) as u32) << 8) ^ (crc8_byte(crc, byte) as u32)) by (bit_vector)
        requires
            q == (crc ^ byte) ^ ((crc ^ byte) >> 6) ^ ((crc ^ byte) >> 7),
    ;
    assert(times_poly(q) == ((v as u32) << 8) ^ (r as u32));
}

/// There is only one such remainder.
pub proof fn law_remainder_is_unique(v: u8, r: u8, s: u8, q: u8, p: u8)
    requires
        times_poly(q) == ((v as u32) << 8) ^ (r as u32),
        times_poly(p) == ((v as u32) << 8) ^ (s as u32),
    ensures
        r == s,
{
    assert(r == s) by (bit_vector)
        requires
            (((q as u32) << 8) ^ ((q as u32) << 2)) ^ (((q as u32) << 1) ^ (q as u32)) == ((v
                as u32) << 8) ^ (r as u32),
            (((p as u32) << 8) ^ ((p as u32) << 2)) ^ (((p as u32) << 1) ^ (p as u32)) == ((v
                as u32) << 8) ^ (s as u32),
    ;
}

/// The sizes that frames are made of.
pub proof fn law_frame_sizes(len: int)
    ensures
        TX_ALIGNMENT == 4,
        TAIL_LEN == 4,
        SDIOWIFI_FUNC_BLOCKSIZE == 512,
        SDIO_TYPE_DATA == 0,
        SDIO_HEADER_LEN == 4,
        HOSTDESC_SIZE == 28,
        ETH_HEADER_LEN == 14,
        has_room(len) <==> len + 1024 <= usize::MAX,
{
}

} // verus!
