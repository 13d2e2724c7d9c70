use vstd::prelude::*;

use vstd::arithmetic::div_mod::{
    lemma_div_denominator, lemma_fundamental_div_mod, lemma_small_mod,
};

use crate::tick::Tick;

verus! {

/// Largest hour timestamp the pipeline accepts: the first instant of the
/// year 10000. Keeping hour buckets below this bound keeps every decoded
/// tick time well inside `i64` even after the 32-bit offset is added.
pub const MAX_TIMESTAMP: i64 = 253402300800;

/// The value of four bytes read as a big-endian 32-bit unsigned integer.
pub open spec fn be_u32(b: Seq<u8>) -> int
    recommends
        b.len() == 4,
{
    b[0] * 0x1000000 + b[1] * 0x10000 + b[2] * 0x100 + b[3]
}

/// The tick encoded by one 20-byte record, relative to an hour bucket.
pub open spec fn tick_of(hour_secs: int, rec: Seq<u8>) -> Tick
    recommends
        rec.len() == 20,
{
    Tick {
        time: (hour_secs + be_u32(rec.subrange(0, 4))) as i64,
        ask_scaled: be_u32(rec.subrange(4, 8)) as u32,
        bid_scaled: be_u32(rec.subrange(8, 12)) as u32,
        ask_volume_bits: be_u32(rec.subrange(12, 16)) as u32,
        bid_volume_bits: be_u32(rec.subrange(16, 20)) as u32,
    }
}

/// The ticks encoded by a raw buffer: one per consecutive 20-byte window,
/// in buffer order; a trailing partial window is dropped.
pub open spec fn ticks_of(hour_secs: int, buf: Seq<u8>) -> Seq<Tick> {
    Seq::new((buf.len() / 20) as nat, |i: int| tick_of(hour_secs, buf.subrange(20 * i, 20 * i + 20)))
}

/// The four big-endian bytes that encode the 32-bit value `x`.
pub open spec fn be_bytes_of(x: int) -> Seq<u8>
    recommends
        0 <= x < 0x100000000,
{
    seq![
        (x / 0x1000000 % 0x100) as u8,
        (x / 0x10000 % 0x100) as u8,
        (x / 0x100 % 0x100) as u8,
        (x % 0x100) as u8,
    ]
}

/// The 20-byte record that encodes the given field values.
pub open spec fn record_bytes_of(
    offset_ms: u32,
    ask_scaled: u32,
    bid_scaled: u32,
    ask_volume_bits: u32,
    bid_volume_bits: u32,
) -> Seq<u8> {
    be_bytes_of(offset_ms as int) + be_bytes_of(ask_scaled as int) + be_bytes_of(bid_scaled as int)
        + be_bytes_of(ask_volume_bits as int) + be_bytes_of(bid_volume_bits as int)
}

/// Reading four big-endian bytes undoes encoding a value into them.
proof fn lemma_be_u32_of_be_bytes(x: int)
    requires
        0 <= x < 0x100000000,
    ensures
        be_u32(be_bytes_of(x)) == x,
{
    lemma_fundamental_div_mod(x, 0x100);
    lemma_fundamental_div_mod(x / 0x100, 0x100);
    lemma_fundamental_div_mod(x / 0x10000, 0x100);
    lemma_fundamental_div_mod(x, 0x1000000);
    lemma_div_denominator(x, 0x100, 0x100);
    lemma_div_denominator(x, 0x10000, 0x100);
    assert(0 <= x / 0x1000000 < 0x100);
    lemma_small_mod((x / 0x1000000) as nat, 0x100);
}

/// Law: for every well-formed 20-byte record, parsing recovers exactly the
/// time offset, the scaled prices and the volume bit patterns that the
/// record encodes — the offset added directly to the hour's epoch seconds,
/// with no other arithmetic applied to any field.
pub proof fn lemma_parse_recovers_record(
    hour_secs: int,
    offset_ms: u32,
    ask_scaled: u32,
    bid_scaled: u32,
    ask_volume_bits: u32,
    bid_volume_bits: u32,
)
    requires
        0 <= hour_secs <= MAX_TIMESTAMP,
    ensures
        ticks_of(
            hour_secs,
            record_bytes_of(offset_ms, ask_scaled, bid_scaled, ask_volume_bits, bid_volume_bits),
        ) == seq![
            Tick {
                time: (hour_secs + offset_ms) as i64,
                ask_scaled,
                bid_scaled,
                ask_volume_bits,
                bid_volume_bits,
            },
        ],
{
    let rec = record_bytes_of(offset_ms, ask_scaled, bid_scaled, ask_volume_bits, bid_volume_bits);
    assert(rec.len() == 20);
    assert(rec.subrange(0, 4) =~= be_bytes_of(offset_ms as int));
    assert(rec.subrange(4, 8) =~= be_bytes_of(ask_scaled as int));
    assert(rec.subrange(8, 12) =~= be_bytes_of(bid_scaled as int));
    assert(rec.subrange(12, 16) =~= be_bytes_of(ask_volume_bits as int));
    assert(rec.subrange(16, 20) =~= be_bytes_of(bid_volume_bits as int));
    lemma_be_u32_of_be_bytes(offset_ms as int);
    lemma_be_u32_of_be_bytes(ask_scaled as int);
    lemma_be_u32_of_be_bytes(bid_scaled as int);
    lemma_be_u32_of_be_bytes(ask_volume_bits as int);
    lemma_be_u32_of_be_bytes(bid_volume_bits as int);
    assert(rec.subrange(0, 20) =~= rec);
    assert(ticks_of(hour_secs, rec) =~= seq![
        Tick {
            time: (hour_secs + offset_ms) as i64,
            ask_scaled,
            bid_scaled,
            ask_volume_bits,
            bid_volume_bits,
        },
    ]);
}

/// Law: an absent or empty payload holds no records, so it parses to no
/// ticks at all, with no error raised.
pub proof fn lemma_empty_buffer_yields_no_ticks(hour_secs: int)
    ensures
        ticks_of(hour_secs, Seq::<u8>::empty()) == Seq::<Tick>::empty(),
{
    assert(ticks_of(hour_secs, Seq::<u8>::empty()) =~= Seq::<Tick>::empty());
}

/// Reads the big-endian 32-bit value stored at `off`.
fn read_be_u32(bytes: &[u8], off: usize) -> (r: u32)
    requires
        off + 4 <= bytes@.len(),
    ensures
        r == be_u32(bytes@.subrange(off as int, off + 4)),
{
    let b0 = bytes[off] as u32;
    let b1 = bytes[off + 1] as u32;
    let b2 = bytes[off + 2] as u32;
    let b3 = bytes[off + 3] as u32;
    b0 * 0x1000000 + b1 * 0x10000 + b2 * 0x100 + b3
}

/// Decodes the 20-byte record starting at `off` into a tick.
pub fn decode_record(hour_secs: i64, bytes: &[u8], off: usize) -> (t: Tick)
    requires
        off + 20 <= bytes@.len(),
        0 <= hour_secs <= MAX_TIMESTAMP,
    ensures
        t == tick_of(hour_secs as int, bytes@.subrange(off as int, off + 20)),
{
    let n: usize = bytes.len();
    assert(off + 20 <= n);
    let offset_ms = read_be_u32(bytes, off);
    let ask_scaled = read_be_u32(bytes, off + 4);
    let bid_scaled = read_be_u32(bytes, off + 8);
    let ask_volume_bits = read_be_u32(bytes, off + 12);
    let bid_volume_bits = read_be_u32(bytes, off + 16);
    proof {
        let rec = bytes@.subrange(off as int, off + 20);
        assert(bytes@.subrange(off as int, off + 4) =~= rec.subrange(0, 4));
        assert(bytes@.subrange(off + 4, off + 8) =~= rec.subrange(4, 8));
        assert(bytes@.subrange(off + 8, off + 12) =~= rec.subrange(8, 12));
        assert(bytes@.subrange(off + 12, off + 16) =~= rec.subrange(12, 16));
        assert(bytes@.subrange(off + 16, off + 20) =~= rec.subrange(16, 20));
    }
    Tick {
        time: hour_secs + offset_ms as i64,
        ask_scaled,
        bid_scaled,
        ask_volume_bits,
        bid_volume_bits,
    }
}

} // verus!
