//! WS2812 (NeoPixel) color handling and SPI encoding.
use vstd::prelude::*;

verus! {

/// Animation step interval in milliseconds (50 Hz update rate).
pub const STEP_MS: u64 = 20;

/// SPI clock rate for WS2812 encoding. At about 6.4 MHz each SPI bit lasts about 156 ns, and
/// each WS2812 bit is encoded as 4 SPI bits (about 625 ns), within the protocol's timing.
pub const SPI_CLOCK_HZ: u32 = 6_400_000;

/// WS2812 reset frame: 50 microseconds of low signal, about 40 zero bytes at 6.4 MHz.
pub const RESET_BYTES: usize = 40;

/// Red, green and blue channels of a 0xRRGGBB color.
pub fn color_to_rgb(color: u32) -> (r: (u8, u8, u8))
    ensures
        r.0 == (color / 0x10000) % 0x100,
        r.1 == (color / 0x100) % 0x100,
        r.2 == color % 0x100,
{
    let red = ((color >> 16u32) & 0xFF) as u8;
    let green = ((color >> 8u32) & 0xFF) as u8;
    let blue = (color & 0xFF) as u8;
    assert(((color >> 16u32) & 0xFF) == (color / 0x10000) % 0x100) by (bit_vector);
    assert(((color >> 8u32) & 0xFF) == (color / 0x100) % 0x100) by (bit_vector);
    assert((color & 0xFF) == color % 0x100) by (bit_vector);
    (red, green, blue)
}

/// Whether bit `n` (0 = least significant) of `byte` is set.
pub open spec fn bit_set(byte: u8, n: u8) -> bool {
    (byte >> n) & 1 == 1
}

/// The SPI nibble for one WS2812 bit: 0b1100 for a one, 0b1000 for a zero.
pub open spec fn ws_nibble(one: bool) -> u8 {
    if one {
        0xC
    } else {
        0x8
    }
}

/// The SPI byte carrying two WS2812 bits, the first in the high nibble.
pub open spec fn ws_pair(first: bool, second: bool) -> u8 {
    (ws_nibble(first) * 16 + ws_nibble(second)) as u8
}

/// The four SPI bytes for one WS2812 byte, most significant bit first.
pub open spec fn encode_spec(byte: u8) -> Seq<u8> {
    seq![
        ws_pair(bit_set(byte, 7), bit_set(byte, 6)),
        ws_pair(bit_set(byte, 5), bit_set(byte, 4)),
        ws_pair(bit_set(byte, 3), bit_set(byte, 2)),
        ws_pair(bit_set(byte, 1), bit_set(byte, 0)),
    ]
}

/// The WS2812 bit carried by an SPI nibble: the bit after the leading one.
pub open spec fn nibble_bit(nibble: u8) -> bool {
    (nibble >> 2u8) & 1 == 1
}

/// The WS2812 byte carried by four SPI bytes.
pub open spec fn decode_spec(spi: Seq<u8>) -> u8 {
    let b = |k: int, high: bool|
        if high {
            nibble_bit(spi[k] >> 4u8)
        } else {
            nibble_bit(spi[k] & 0xF)
        };
    ((if b(0, true) { 128int } else { 0 }) + (if b(0, false) { 64int } else { 0 }) + (if b(1, true) { 32int } else { 0 })
        + (if b(1, false) { 16int } else { 0 }) + (if b(2, true) { 8int } else { 0 }) + (if b(2, false) { 4int } else { 0 })
        + (if b(3, true) { 2int } else { 0 }) + (if b(3, false) { 1int } else { 0 })) as u8
}

/// The SPI byte for two WS2812 bits.
fn pair_byte(first: bool, second: bool) -> (r: u8)
    ensures
        r == ws_pair(first, second),
{
    let hi: u8 = if first {
        0xC0
    } else {
        0x80
    };
    let lo: u8 = if second {
        0x0C
    } else {
        0x08
    };
    hi + lo
}

/// Whether bit `n` of `byte` is set.
fn test_bit(byte: u8, n: u8) -> (r: bool)
    requires
        n < 8,
    ensures
        r == bit_set(byte, n),
{
    (byte >> n) & 1 == 1
}

/// Encode one WS2812 byte as four SPI bytes: each WS2812 bit becomes the four SPI bits
/// 1100 (one) or 1000 (zero), most significant bit first.
pub fn encode_byte(byte: u8) -> (r: [u8; 4])
    ensures
        r@ == encode_spec(byte),
{
    let r = [
        pair_byte(test_bit(byte, 7), test_bit(byte, 6)),
        pair_byte(test_bit(byte, 5), test_bit(byte, 4)),
        pair_byte(test_bit(byte, 3), test_bit(byte, 2)),
        pair_byte(test_bit(byte, 1), test_bit(byte, 0)),
    ];
    assert(r@ =~= encode_spec(byte));
    r
}

/// The SPI bytes of one WS2812 byte give the byte back.
pub proof fn lemma_encode_decode(byte: u8)
    ensures
        decode_spec(encode_spec(byte)) == byte,
{
    let e = encode_spec(byte);
    assert(forall|x: bool, y: bool|
        #![trigger ws_pair(x, y)]
        nibble_bit(ws_pair(x, y) >> 4u8) == x && nibble_bit(ws_pair(x, y) & 0xF) == y) by {
        assert(nibble_bit(0xCCu8 >> 4u8) && nibble_bit(0xCCu8 & 0xFu8)) by (bit_vector);
        assert(nibble_bit(0xC8u8 >> 4u8) && !nibble_bit(0xC8u8 & 0xFu8)) by (bit_vector);
        assert(!nibble_bit(0x8Cu8 >> 4u8) && nibble_bit(0x8Cu8 & 0xFu8)) by (bit_vector);
        assert(!nibble_bit(0x88u8 >> 4u8) && !nibble_bit(0x88u8 & 0xFu8)) by (bit_vector);
    }
    assert(e[0] == ws_pair(bit_set(byte, 7), bit_set(byte, 6)));
    assert(e[1] == ws_pair(bit_set(byte, 5), bit_set(byte, 4)));
    assert(e[2] == ws_pair(bit_set(byte, 3), bit_set(byte, 2)));
    assert(e[3] == ws_pair(bit_set(byte, 1), bit_set(byte, 0)));
    assert(((if (byte >> 7u8) & 1 == 1 { 128int } else { 0 }) + (if (byte >> 6u8) & 1 == 1 { 64int } else { 0 }) + (
    if (byte >> 5u8) & 1 == 1 { 32int } else { 0 }) + (if (byte >> 4u8) & 1 == 1 { 16int } else { 0 }) + (if (byte
        >> 3u8) & 1 == 1 { 8int } else { 0 }) + (if (byte >> 2u8) & 1 == 1 { 4int } else { 0 }) + (if (byte >> 1u8) & 1
        == 1 { 2int } else { 0 }) + (if (byte >> 0u8) & 1 == 1 { 1int } else { 0 })) == byte) by (bit_vector);
}

/// The SPI stream for a strip: for each LED, its green, red and blue bytes encoded in that
/// order (12 bytes), then the reset frame of zero bytes.
pub open spec fn spi_buffer_spec(colors: Seq<(u8, u8, u8)>) -> Seq<u8> {
    Seq::new(
        (12 * colors.len() + RESET_BYTES) as nat,
        |j: int|
            if j < 12 * colors.len() {
                let c = colors[j / 12];
                let channel = if (j % 12) / 4 == 0 {
                    c.1
                } else if (j % 12) / 4 == 1 {
                    c.0
                } else {
                    c.2
                };
                encode_spec(channel)[j % 4]
            } else {
                0u8
            },
    )
}

/// Append the four SPI bytes of one WS2812 byte.
fn push_encoded(buf: &mut Vec<u8>, byte: u8)
    ensures
        final(buf)@ == old(buf)@ + encode_spec(byte),
{
    let e = encode_byte(byte);
    buf.push(e[0]);
    buf.push(e[1]);
    buf.push(e[2]);
    buf.push(e[3]);
    assert(final(buf)@ =~= old(buf)@ + encode_spec(byte));
}

/// Build the SPI buffer for a strip of LEDs: GRB bytes per LED, then the reset frame.
pub fn build_spi_buffer(colors: &[(u8, u8, u8)]) -> (r: Vec<u8>)
    requires
        12 * colors@.len() + RESET_BYTES <= usize::MAX,
    ensures
        r@ == spi_buffer_spec(colors@),
{
    let ghost target = spi_buffer_spec(colors@);
    let mut buf: Vec<u8> = Vec::new();
    let mut i: usize = 0;
    while i < colors.len()
        invariant
            i <= colors@.len(),
            target == spi_buffer_spec(colors@),
            buf@ == target.subrange(0, 12 * i),
            12 * colors@.len() + RESET_BYTES <= usize::MAX,
        decreases colors@.len() - i,
    {
        let (r, g, b) = colors[i];
        push_encoded(&mut buf, g);
        push_encoded(&mut buf, r);
        push_encoded(&mut buf, b);
        proof {
            assert forall|j: int| 12 * i <= j < 12 * (i + 1) implies #[trigger] target[j] == buf@[j] by {
                assert(j / 12 == i as int);
                assert(j < 12 * colors@.len());
            }
            assert(buf@ =~= target.subrange(0, 12 * (i + 1)));
        }
        i = i + 1;
    }
    let mut k: usize = 0;
    while k < RESET_BYTES
        invariant
            k <= RESET_BYTES,
            i == colors@.len(),
            target == spi_buffer_spec(colors@),
            buf@ == target.subrange(0, 12 * i + k),
        decreases RESET_BYTES - k,
    {
        buf.push(0u8);
        proof {
            assert(buf@ =~= target.subrange(0, 12 * i + k + 1));
        }
        k = k + 1;
    }
    proof {
        assert(target.subrange(0, 12 * i + RESET_BYTES) =~= target);
    }
    buf
}

} // verus!
