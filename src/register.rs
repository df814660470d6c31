//! Register layout and the bus protocol of one 24-bit register.
use vstd::prelude::*;

verus! {

/// Largest value that a 24-bit register can hold.
pub const REGISTER_MAX: u32 = 0x00FF_FFFF;

/// The mask of the `width` lowest bits.
pub open spec fn low_mask(width: u32) -> u32 {
    !(0xFFFF_FFFFu32 << width)
}

/// The field of `width` bits that starts at bit `offset` of `value`.
pub open spec fn field(value: u32, offset: u32, width: u32) -> u32 {
    (value >> offset) & low_mask(width)
}

/// `value` with the field of `width` bits at bit `offset` replaced by `x`.
pub open spec fn with_field(value: u32, offset: u32, width: u32, x: u32) -> u32 {
    (value & !(low_mask(width) << offset)) | ((x & low_mask(width)) << offset)
}

/// Whether a field lies inside the 24 bits of a register.
pub open spec fn field_fits(offset: u32, width: u32) -> bool {
    1 <= width && offset + width <= 24
}

pub proof fn lemma_low_mask_values()
    ensures
        low_mask(1) == 1,
        low_mask(3) == 7,
        low_mask(4) == 15,
        low_mask(6) == 63,
        low_mask(16) == 0xFFFF,
        low_mask(24) == 0xFF_FFFF,
{
    assert(!(0xFFFF_FFFFu32 << 1u32) == 1u32 && !(0xFFFF_FFFFu32 << 3u32) == 7u32
        && !(0xFFFF_FFFFu32 << 4u32) == 15u32 && !(0xFFFF_FFFFu32 << 6u32) == 63u32
        && !(0xFFFF_FFFFu32 << 16u32) == 0xFFFFu32 && !(0xFFFF_FFFFu32 << 24u32)
        == 0xFF_FFFFu32) by (bit_vector);
}

/// Reading back a field that was just written gives the value written.
pub proof fn lemma_field_of_with_field(value: u32, offset: u32, width: u32, x: u32)
    requires
        field_fits(offset, width),
        x <= low_mask(width),
    ensures
        field(with_field(value, offset, width, x), offset, width) == x,
{
    assert(1 <= width && offset + width <= 24 && x <= !(0xFFFF_FFFFu32 << width) ==> (((value
        & !(!(0xFFFF_FFFFu32 << width) << offset)) | ((x & !(0xFFFF_FFFFu32 << width))
        << offset)) >> offset) & !(0xFFFF_FFFFu32 << width) == x) by (bit_vector);
}

/// Writing a field leaves every field that does not overlap it as it was.
pub proof fn lemma_field_of_other(value: u32, offset: u32, width: u32, x: u32, o: u32, w: u32)
    requires
        field_fits(offset, width),
        field_fits(o, w),
        o + w <= offset || offset + width <= o,
    ensures
        field(with_field(value, offset, width, x), o, w) == field(value, o, w),
{
    assert(1 <= width && offset + width <= 24 && 1 <= w && o + w <= 24 && (o + w <= offset
        || offset + width <= o) ==> (((value & !(!(0xFFFF_FFFFu32 << width) << offset)) | ((x
        & !(0xFFFF_FFFFu32 << width)) << offset)) >> o) & !(0xFFFF_FFFFu32 << w) == (value
        >> o) & !(0xFFFF_FFFFu32 << w)) by (bit_vector);
}

/// A register value stays within 24 bits when one of its fields is written.
pub proof fn lemma_with_field_bound(value: u32, offset: u32, width: u32, x: u32)
    requires
        field_fits(offset, width),
        value <= REGISTER_MAX,
    ensures
        with_field(value, offset, width, x) <= REGISTER_MAX,
{
    assert(1 <= width && offset + width <= 24 && value <= 0xFF_FFFFu32 ==> ((value
        & !(!(0xFFFF_FFFFu32 << width) << offset)) | ((x & !(0xFFFF_FFFFu32 << width))
        << offset)) <= 0xFF_FFFFu32) by (bit_vector);
}

/// A field never exceeds its mask.
pub proof fn lemma_field_bound(value: u32, offset: u32, width: u32)
    ensures
        field(value, offset, width) <= low_mask(width),
{
    assert((value >> offset) & !(0xFFFF_FFFFu32 << width) <= !(0xFFFF_FFFFu32 << width))
        by (bit_vector);
}

/// Reads the field of `width` bits at bit `offset`.
pub fn get_field(value: u32, offset: u32, width: u32) -> (r: u32)
    requires
        field_fits(offset, width),
    ensures
        r == field(value, offset, width),
        r <= low_mask(width),
{
    proof {
        lemma_field_bound(value, offset, width);
    }
    (value >> offset) & !(0xFFFF_FFFFu32 << width)
}

/// Replaces the field of `width` bits at bit `offset` by `x`.
pub fn set_field(value: u32, offset: u32, width: u32, x: u32) -> (r: u32)
    requires
        field_fits(offset, width),
        value <= REGISTER_MAX,
        x <= low_mask(width),
    ensures
        r == with_field(value, offset, width, x),
        r <= REGISTER_MAX,
        field(r, offset, width) == x,
{
    proof {
        lemma_with_field_bound(value, offset, width, x);
        lemma_field_of_with_field(value, offset, width, x);
    }
    (value & !(!(0xFFFF_FFFFu32 << width) << offset)) | ((x & !(0xFFFF_FFFFu32 << width))
        << offset)
}

} // verus!

verus! {

/// One transfer handed to the bus: a write of some bytes, or a read of up to `len` bytes with
/// the bytes that came back (none when the read failed).
pub enum Transfer {
    Write { address: u8, bytes: Seq<u8> },
    Read { address: u8, len: usize, answer: Seq<u8> },
}

/// A blocking two-wire bus, addressed by the device's 7-bit address.
///
/// `transfers` is the log of every transfer handed to the bus, in order, whether or not it
/// succeeded; an implementation only has to record what it was asked to do.
pub trait I2cBus {
    /// The bus's own error.
    type Error;

    /// Every transfer handed to the bus so far. The default is for implementations outside
    /// verified code; the library's proofs, generic over the bus, never rely on it.
    closed spec fn transfers(&self) -> Seq<Transfer> {
        Seq::empty()
    }

    /// Writes `bytes` to the device at `address`.
    fn write(&mut self, address: u8, bytes: &[u8]) -> (r: Result<(), Self::Error>)
        ensures
            final(self).transfers() == old(self).transfers().push(
                Transfer::Write { address, bytes: bytes@ },
            ),
    ;

    /// Reads up to `len` bytes from the device at `address`.
    fn read(&mut self, address: u8, len: usize) -> (r: Result<Vec<u8>, Self::Error>)
        ensures
            final(self).transfers() == old(self).transfers().push(
                Transfer::Read {
                    address,
                    len,
                    answer: match r {
                        Ok(v) => v@,
                        Err(_) => Seq::<u8>::empty(),
                    },
                },
            ),
    ;
}

/// Whether the log went from `before` to `after` by handing over the transfers `ops`: all of
/// them when `ok`, else a first part of them, at least one, the last of which failed.
pub open spec fn did(before: Seq<Transfer>, after: Seq<Transfer>, ops: Seq<Transfer>, ok: bool) -> bool {
    if ok {
        after == before + ops
    } else {
        before.len() < after.len() <= before.len() + ops.len() && after == (before + ops).take(
            after.len() as int,
        )
    }
}

/// Handing over `a` in full and then `b` is handing over `a + b`.
pub proof fn lemma_did_then(
    before: Seq<Transfer>,
    mid: Seq<Transfer>,
    after: Seq<Transfer>,
    a: Seq<Transfer>,
    b: Seq<Transfer>,
    ok: bool,
)
    requires
        did(before, mid, a, true),
        did(mid, after, b, ok),
    ensures
        did(before, after, a + b, ok),
{
    assert(before + (a + b) =~= (before + a) + b);
}

/// Stopping part way through `a` is stopping part way through `a + b`.
pub proof fn lemma_did_stop(before: Seq<Transfer>, after: Seq<Transfer>, a: Seq<Transfer>, b: Seq<Transfer>)
    requires
        did(before, after, a, false),
    ensures
        did(before, after, a + b, false),
{
    assert((before + (a + b)).take(after.len() as int) =~= (before + a).take(after.len() as int));
}

/// A log that grew by the first `k` of `ops`, at least one, is one that handed over `ops`, or a
/// first part of them.
pub proof fn lemma_did_take(before: Seq<Transfer>, after: Seq<Transfer>, ops: Seq<Transfer>, k: int)
    requires
        0 < k <= ops.len(),
        after =~= before + ops.take(k),
    ensures
        did(before, after, ops, false),
        k == ops.len() ==> did(before, after, ops, true),
{
    assert((before + ops).take(after.len() as int) =~= after);
    if k == ops.len() {
        assert(ops.take(k) =~= ops);
    }
}

/// The 24-bit value of an answer of at least three bytes.
pub open spec fn answer_value(answer: Seq<u8>) -> u32 {
    value_of_bytes(answer[0], answer[1], answer[2])
}

/// The write of `value` into the register at `reg_addr` of the device at `address`.
pub open spec fn write_transfer(address: u8, reg_addr: u8, value: u32) -> Transfer {
    Transfer::Write { address, bytes: write_frame_spec(reg_addr, value) }
}

/// The transfers that read the register at `reg_addr`, `answer` being what the bus returned:
/// for a configuration register, the read-enable frame, the address byte, a read of three bytes
/// and the read-disable frame; for another register, the address byte and the read.
pub open spec fn read_transfers(address: u8, reg_addr: u8, answer: Seq<u8>) -> Seq<Transfer> {
    if is_config_register(reg_addr) {
        seq![
            Transfer::Write { address, bytes: read_enable_frame_spec() },
            Transfer::Write { address, bytes: seq![reg_addr] },
            Transfer::Read { address, len: 3, answer },
            Transfer::Write { address, bytes: read_disable_frame_spec() },
        ]
    } else {
        seq![Transfer::Write { address, bytes: seq![reg_addr] }, Transfer::Read { address, len: 3, answer }]
    }
}

/// Whether a register is a configuration register, whose reading must be enabled first.
pub open spec fn is_config_register(reg_addr: u8) -> bool {
    reg_addr < 0x2a || (0x2f < reg_addr && reg_addr < 0x3f)
}

/// The frame that writes `value` into the register at `reg_addr`: the address, then the
/// value's three bytes, most significant first.
pub open spec fn write_frame_spec(reg_addr: u8, value: u32) -> Seq<u8> {
    seq![reg_addr, (value / 0x1_0000) as u8, ((value / 0x100) % 0x100) as u8, (value % 0x100) as u8]
}

/// The 24-bit value that three bytes, most significant first, stand for.
pub open spec fn value_of_bytes(b0: u8, b1: u8, b2: u8) -> u32 {
    (b0 * 0x1_0000 + b1 * 0x100 + b2) as u32
}

/// The frame that sets the read-enable bit of register 00h.
pub open spec fn read_enable_frame_spec() -> Seq<u8> {
    seq![0u8, 0u8, 0u8, 1u8]
}

/// The frame that clears the read-enable bit of register 00h.
pub open spec fn read_disable_frame_spec() -> Seq<u8> {
    seq![0u8, 0u8, 0u8, 0u8]
}

/// Whether a register can be read back: the bus answered at least three bytes.
pub open spec fn answer_fits<E>(answer: Seq<u8>, r: Result<u32, crate::error::AfeError<E>>) -> bool {
    if answer.len() < 3 {
        r == Err::<u32, crate::error::AfeError<E>>(
            crate::error::AfeError::IncorrectAnswerLength { expected: 3, received: answer.len() as usize },
        )
    } else {
        r == Ok::<u32, crate::error::AfeError<E>>(value_of_bytes(answer[0], answer[1], answer[2]))
    }
}

/// Builds the frame that writes `value` into the register at `reg_addr`.
pub fn write_frame(reg_addr: u8, value: u32) -> (r: Vec<u8>)
    requires
        value <= REGISTER_MAX,
    ensures
        r@ == write_frame_spec(reg_addr, value),
{
    let r = vec![reg_addr, (value / 0x1_0000) as u8, ((value / 0x100) % 0x100) as u8, (value % 0x100) as u8];
    assert(r@ =~= write_frame_spec(reg_addr, value));
    r
}

/// Decoding the bytes of a write frame gives back the value written.
pub proof fn lemma_frame_round_trip(reg_addr: u8, value: u32)
    requires
        value <= REGISTER_MAX,
    ensures
        write_frame_spec(reg_addr, value)[0] == reg_addr,
        value_of_bytes(
            write_frame_spec(reg_addr, value)[1],
            write_frame_spec(reg_addr, value)[2],
            write_frame_spec(reg_addr, value)[3],
        ) == value,
{
}

/// Decodes the answer to a register read.
pub fn decode_answer<E>(answer: &Vec<u8>) -> (r: Result<u32, crate::error::AfeError<E>>)
    ensures
        answer_fits(answer@, r),
        r matches Ok(v) ==> v <= REGISTER_MAX,
{
    if answer.len() < 3 {
        Err(crate::error::AfeError::IncorrectAnswerLength { expected: 3, received: answer.len() })
    } else {
        Ok(answer[0] as u32 * 0x1_0000 + answer[1] as u32 * 0x100 + answer[2] as u32)
    }
}

/// Whether reading the register at `reg_addr` must be enabled first.
pub fn needs_read_enable(reg_addr: u8) -> (r: bool)
    ensures
        r == is_config_register(reg_addr),
{
    reg_addr < 0x2a || (0x2f < reg_addr && reg_addr < 0x3f)
}

/// The frame that sets the read-enable bit of register 00h.
pub fn read_enable_frame() -> (r: Vec<u8>)
    ensures
        r@ == read_enable_frame_spec(),
{
    let r = vec![0u8, 0u8, 0u8, 1u8];
    assert(r@ =~= read_enable_frame_spec());
    r
}

/// The frame that clears the read-enable bit of register 00h.
pub fn read_disable_frame() -> (r: Vec<u8>)
    ensures
        r@ == read_disable_frame_spec(),
{
    let r = vec![0u8, 0u8, 0u8, 0u8];
    assert(r@ =~= read_disable_frame_spec());
    r
}

/// Reads the register at `reg_addr` of the device at `address`.
///
/// For a configuration register the read-enable frame comes first and the read-disable frame
/// last; the address byte, then a read of three bytes, stand between. The first failure ends it.
pub fn read_register<B: I2cBus>(bus: &mut B, address: u8, reg_addr: u8) -> (r: Result<
    u32,
    crate::error::AfeError<B::Error>,
>)
    ensures
        r matches Ok(v) ==> v <= REGISTER_MAX,
        r matches Err(e) ==> (e is I2CError || e is IncorrectAnswerLength),
        exists|answer: Seq<u8>|
            #[trigger] did(old(bus).transfers(), final(bus).transfers(), read_transfers(address, reg_addr, answer), r is Ok)
                && (r matches Ok(v) ==> answer.len() >= 3 && v == answer_value(answer))
                && ((r matches Err(e) && e is IncorrectAnswerLength) ==> answer.len() < 3),
{
    let ghost before = bus.transfers();
    let config = needs_read_enable(reg_addr);
    let ghost k0: int = if config { 1 } else { 0 };
    if config {
        let enable = read_enable_frame();
        if let Err(e) = bus.write(address, enable.as_slice()) {
            proof {
                lemma_did_take(before, bus.transfers(), read_transfers(address, reg_addr, Seq::empty()), 1);
            }
            return Err(crate::error::AfeError::I2CError(e));
        }
    }
    assert(bus.transfers() =~= before + read_transfers(address, reg_addr, Seq::empty()).take(k0));
    let addr = vec![reg_addr];
    assert(addr@ =~= seq![reg_addr]);
    let ghost mid = bus.transfers();
    if let Err(e) = bus.write(address, addr.as_slice()) {
        proof {
            lemma_did_take(before, bus.transfers(), read_transfers(address, reg_addr, Seq::empty()), k0 + 1);
        }
        return Err(crate::error::AfeError::I2CError(e));
    }
    assert(bus.transfers() =~= before + read_transfers(address, reg_addr, Seq::empty()).take(k0 + 1));
    let ghost mid2 = bus.transfers();
    let answer = match bus.read(address, 3) {
        Ok(a) => a,
        Err(e) => {
            proof {
                assert(bus.transfers() =~= mid2.push(Transfer::Read { address, len: 3, answer: Seq::empty() }));
                lemma_did_take(before, bus.transfers(), read_transfers(address, reg_addr, Seq::empty()), k0 + 2);
            }
            return Err(crate::error::AfeError::I2CError(e));
        },
    };
    assert(bus.transfers() =~= before + read_transfers(address, reg_addr, answer@).take(k0 + 2));
    let value = match decode_answer(&answer) {
        Ok(v) => v,
        Err(e) => {
            proof {
                lemma_did_take(before, bus.transfers(), read_transfers(address, reg_addr, answer@), k0 + 2);
            }
            return Err(e);
        },
    };
    let ghost mid3 = bus.transfers();
    if config {
        let disable = read_disable_frame();
        if let Err(e) = bus.write(address, disable.as_slice()) {
            proof {
                lemma_did_take(before, bus.transfers(), read_transfers(address, reg_addr, answer@), 4);
            }
            return Err(crate::error::AfeError::I2CError(e));
        }
    }
    proof {
        if config {
            assert(bus.transfers() =~= mid3.push(Transfer::Write { address, bytes: read_disable_frame_spec() }));
        }
        let n: int = if config { 4 } else { 2 };
        lemma_did_take(before, bus.transfers(), read_transfers(address, reg_addr, answer@), n);
    }
    Ok(value)
}

/// Writes `value` into the register at `reg_addr` of the device at `address`, in one frame.
pub fn write_register<B: I2cBus>(bus: &mut B, address: u8, reg_addr: u8, value: u32) -> (r: Result<
    (),
    crate::error::AfeError<B::Error>,
>)
    requires
        value <= REGISTER_MAX,
    ensures
        r matches Err(e) ==> e is I2CError,
        did(old(bus).transfers(), final(bus).transfers(), seq![write_transfer(address, reg_addr, value)], r is Ok),
{
    let frame = write_frame(reg_addr, value);
    let r = match bus.write(address, frame.as_slice()) {
        Ok(()) => Ok(()),
        Err(e) => Err(crate::error::AfeError::I2CError(e)),
    };
    proof {
        lemma_did_take(old(bus).transfers(), bus.transfers(), seq![write_transfer(address, reg_addr, value)], 1);
    }
    r
}

} // verus!

verus! {

/// A register value assembled from zero by writing each `(offset, width, value)` field in turn.
pub open spec fn pack(fields: Seq<(u32, u32, u32)>) -> u32
    decreases fields.len(),
{
    if fields.len() == 0 {
        0
    } else {
        let f = fields.last();
        with_field(pack(fields.drop_last()), f.0, f.1, f.2)
    }
}

/// Whether the fields fit in 24 bits, do not overlap, and each value fits its width.
pub open spec fn well_laid(fields: Seq<(u32, u32, u32)>) -> bool {
    &&& forall|i: int| 0 <= i < fields.len() ==> {
        &&& field_fits(#[trigger] fields[i].0, fields[i].1)
        &&& fields[i].2 <= low_mask(fields[i].1)
    }
    &&& forall|i: int, j: int|
        0 <= i < j < fields.len() ==> #[trigger] fields[i].0 + fields[i].1 <= #[trigger] fields[j].0
}

/// Each field of a packed register reads back as the value packed into it.
pub proof fn lemma_pack_fields(fields: Seq<(u32, u32, u32)>)
    requires
        well_laid(fields),
    ensures
        pack(fields) <= REGISTER_MAX,
        forall|i: int|
            0 <= i < fields.len() ==> field(pack(fields), #[trigger] fields[i].0, fields[i].1)
                == fields[i].2,
    decreases fields.len(),
{
    if fields.len() > 0 {
        let init = fields.drop_last();
        let f = fields.last();
        assert(well_laid(init)) by {
            assert forall|i: int, j: int| 0 <= i < j < init.len() implies #[trigger] init[i].0
                + init[i].1 <= #[trigger] init[j].0 by {
                assert(fields[i] == init[i] && fields[j] == init[j]);
            }
            assert forall|i: int| 0 <= i < init.len() implies field_fits(#[trigger] init[i].0, init[i].1)
                && init[i].2 <= low_mask(init[i].1) by {
                assert(fields[i] == init[i]);
            }
        }
        lemma_pack_fields(init);
        assert(field_fits(fields[fields.len() - 1].0, fields[fields.len() - 1].1));
        lemma_with_field_bound(pack(init), f.0, f.1, f.2);
        lemma_field_of_with_field(pack(init), f.0, f.1, f.2);
        assert forall|i: int| 0 <= i < fields.len() implies field(
            pack(fields),
            #[trigger] fields[i].0,
            fields[i].1,
        ) == fields[i].2 by {
            if i < fields.len() - 1 {
                assert(fields[i] == init[i]);
                assert(field_fits(fields[i].0, fields[i].1));
                assert(fields[i].0 + fields[i].1 <= fields[fields.len() - 1].0);
                lemma_field_of_other(pack(init), f.0, f.1, f.2, fields[i].0, fields[i].1);
            }
        }
    } else {
        assert(0u32 <= REGISTER_MAX);
    }
}

} // verus!

verus! {

/// A value that fits a field starting at bit 0 reads back unchanged.
pub proof fn lemma_field_low(value: u32, width: u32)
    requires
        1 <= width <= 24,
        value <= low_mask(width),
    ensures
        field(value, 0, width) == value,
{
    assert(1 <= width && width <= 24 && value <= !(0xFFFF_FFFFu32 << width) ==> (value >> 0u32)
        & !(0xFFFF_FFFFu32 << width) == value) by (bit_vector);
}

} // verus!
