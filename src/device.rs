//! The device handle: one bus, one address, one clock frequency, and a lighting mode fixed
//! by its type.
use vstd::prelude::*;

use crate::error::AfeError;
use crate::modes::{LedMode, ThreeLedsMode, TwoLedsMode, UninitializedMode};
use crate::register::{
    answer_value, did, lemma_did_stop, lemma_did_take, lemma_did_then, read_register, read_transfers,
    write_register, write_transfer, I2cBus, Transfer, REGISTER_MAX,
};

verus! {

/// Whether an error came from the bus rather than from the request.
pub open spec fn is_bus_error<E>(e: AfeError<E>) -> bool {
    e is I2CError || e is IncorrectAnswerLength
}

/// The transfers that read the registers `regs` in turn, `answers` being what the bus returned
/// for each.
pub open spec fn reads_transfers(address: u8, regs: Seq<u8>, answers: Seq<Seq<u8>>) -> Seq<Transfer>
    decreases regs.len(),
{
    if regs.len() == 0 {
        Seq::empty()
    } else {
        reads_transfers(address, regs.drop_last(), answers.drop_last()) + read_transfers(
            address,
            regs.last(),
            answers.last(),
        )
    }
}

/// The transfers that write each `(register, value)` of `writes` in turn, one frame each.
pub open spec fn writes_transfers(address: u8, writes: Seq<(u8, u32)>) -> Seq<Transfer> {
    writes.map_values(|w: (u8, u32)| write_transfer(address, w.0, w.1))
}

/// The register values that the answers stand for.
pub open spec fn values(answers: Seq<Seq<u8>>) -> Seq<u32> {
    answers.map_values(|a: Seq<u8>| answer_value(a))
}

/// Whether every answer holds the three bytes of a register.
pub open spec fn answered(answers: Seq<Seq<u8>>) -> bool {
    forall|i: int| 0 <= i < answers.len() ==> #[trigger] answers[i].len() >= 3
}

/// Whether the log went from `before` to `after` by reading the registers `regs` in turn, with
/// the answers `answers`, and then writing `writes` in turn: all of it when `ok` (and then every
/// answer held three bytes), else a first part of it ending with the transfer that failed.
pub open spec fn exchanged(
    before: Seq<Transfer>,
    after: Seq<Transfer>,
    address: u8,
    regs: Seq<u8>,
    answers: Seq<Seq<u8>>,
    writes: Seq<(u8, u32)>,
    ok: bool,
) -> bool {
    &&& answers.len() == regs.len()
    &&& did(before, after, reads_transfers(address, regs, answers) + writes_transfers(address, writes), ok)
    &&& ok ==> answered(answers)
}

/// The list of one register.
pub open spec fn one_reg(a: u8) -> Seq<u8> {
    seq![a]
}

/// The list of two registers.
pub open spec fn two_regs(a: u8, b: u8) -> Seq<u8> {
    seq![a, b]
}

/// Whether an operation went through all its transfers: it did not stop on a bus failure.
pub open spec fn finished<T, E>(r: Result<T, AfeError<E>>) -> bool {
    !(r matches Err(e) && is_bus_error(e))
}

/// Reading in full and then writing is an exchange.
pub proof fn lemma_exchange(
    before: Seq<Transfer>,
    mid: Seq<Transfer>,
    after: Seq<Transfer>,
    address: u8,
    regs: Seq<u8>,
    answers: Seq<Seq<u8>>,
    writes: Seq<(u8, u32)>,
    ok: bool,
)
    requires
        answers.len() == regs.len(),
        exchanged(before, mid, address, regs, answers, Seq::empty(), true),
        did(mid, after, writes_transfers(address, writes), ok),
    ensures
        exchanged(before, after, address, regs, answers, writes, ok),
{
    assert(reads_transfers(address, regs, answers) + writes_transfers(address, Seq::empty())
        =~= reads_transfers(address, regs, answers));
    lemma_did_then(before, mid, after, reads_transfers(address, regs, answers), writes_transfers(address, writes), ok);
}

/// Writing alone is an exchange that reads nothing.
pub proof fn lemma_exchange_writes(
    before: Seq<Transfer>,
    after: Seq<Transfer>,
    address: u8,
    writes: Seq<(u8, u32)>,
    ok: bool,
)
    requires
        did(before, after, writes_transfers(address, writes), ok),
    ensures
        exchanged(before, after, address, Seq::empty(), Seq::empty(), writes, ok),
{
    assert(reads_transfers(address, Seq::empty(), Seq::empty()) + writes_transfers(address, writes)
        =~= writes_transfers(address, writes));
}

/// Stopping part way through reading the first `j` registers is stopping part way through
/// reading the first `m`.
pub proof fn lemma_reads_stop(
    before: Seq<Transfer>,
    after: Seq<Transfer>,
    address: u8,
    regs: Seq<u8>,
    answers: Seq<Seq<u8>>,
    j: int,
    m: int,
)
    requires
        0 <= j <= m <= regs.len(),
        answers.len() == regs.len(),
        did(before, after, reads_transfers(address, regs.take(j), answers.take(j)), false),
    ensures
        did(before, after, reads_transfers(address, regs.take(m), answers.take(m)), false),
    decreases m - j,
{
    if m > j {
        lemma_reads_stop(before, after, address, regs, answers, j, m - 1);
        assert(regs.take(m).drop_last() =~= regs.take(m - 1));
        assert(answers.take(m).drop_last() =~= answers.take(m - 1));
        lemma_did_stop(
            before,
            after,
            reads_transfers(address, regs.take(m - 1), answers.take(m - 1)),
            read_transfers(address, regs[m - 1], answers[m - 1]),
        );
    }
}

/// Represents the device, reached over the bus `B` and set up for the lighting mode `MODE`.
pub struct AFE4404<B: I2cBus, MODE: LedMode> {
    bus: B,
    address: u8,
    clock: u32,
    mode: core::marker::PhantomData<MODE>,
}

impl<B: I2cBus> AFE4404<B, UninitializedMode> {
    /// Creates a device handle for three LEDs, clocked at `clock_hz` hertz.
    pub fn with_three_leds(i2c: B, address: u8, clock_hz: u32) -> (r: AFE4404<B, ThreeLedsMode>)
        requires
            clock_hz > 0,
        ensures
            r.clock_hz() == clock_hz,
            r.address_spec() == address,
    {
        AFE4404 { bus: i2c, address, clock: clock_hz, mode: core::marker::PhantomData }
    }

    /// Creates a device handle for two LEDs, clocked at `clock_hz` hertz.
    pub fn with_two_leds(i2c: B, address: u8, clock_hz: u32) -> (r: AFE4404<B, TwoLedsMode>)
        requires
            clock_hz > 0,
        ensures
            r.clock_hz() == clock_hz,
            r.address_spec() == address,
    {
        AFE4404 { bus: i2c, address, clock: clock_hz, mode: core::marker::PhantomData }
    }
}

impl<B: I2cBus, MODE: LedMode> AFE4404<B, MODE> {
    /// The frequency of the clock that drives the device, in hertz.
    pub closed spec fn clock_hz(&self) -> u32 {
        self.clock
    }

    /// The device's address on the bus.
    pub closed spec fn address_spec(&self) -> u8 {
        self.address
    }

    /// Every transfer handed to the bus so far.
    pub closed spec fn log(&self) -> Seq<Transfer> {
        self.bus.transfers()
    }

    /// Whether `self` addresses the same device at the same clock as `other`.
    pub open spec fn same_device(&self, other: &Self) -> bool {
        self.clock_hz() == other.clock_hz() && self.address_spec() == other.address_spec()
    }

    /// The frequency of the clock that drives the device, in hertz.
    pub fn clock(&self) -> (r: u32)
        ensures
            r == self.clock_hz(),
    {
        self.clock
    }

    /// Gives the bus back.
    pub fn release(self) -> (r: B) {
        self.bus
    }

    pub(crate) fn read_reg(&mut self, reg_addr: u8) -> (r: Result<u32, AfeError<B::Error>>)
        ensures
            final(self).same_device(old(self)),
            r matches Ok(v) ==> v <= REGISTER_MAX,
            r matches Err(e) ==> is_bus_error(e),
            exists|answer: Seq<u8>|
                #[trigger] did(old(self).log(), final(self).log(), read_transfers(old(self).address_spec(), reg_addr, answer), r is Ok)
                    && (r matches Ok(v) ==> answer.len() >= 3 && v == answer_value(answer)),
    {
        let ghost before = self.bus.transfers();
        let r = read_register(&mut self.bus, self.address, reg_addr);
        proof {
            let a = choose|a: Seq<u8>|
                #[trigger] did(before, self.bus.transfers(), read_transfers(self.address, reg_addr, a), r is Ok)
                    && (r matches Ok(v) ==> a.len() >= 3 && v == answer_value(a))
                    && ((r matches Err(e) && e is IncorrectAnswerLength) ==> a.len() < 3);
            assert(did(old(self).log(), self.log(), read_transfers(old(self).address_spec(), reg_addr, a), r is Ok));
        }
        r
    }

    pub(crate) fn write_reg(&mut self, reg_addr: u8, value: u32) -> (r: Result<(), AfeError<B::Error>>)
        requires
            value <= REGISTER_MAX,
        ensures
            final(self).same_device(old(self)),
            r matches Err(e) ==> e is I2CError,
            did(old(self).log(), final(self).log(), seq![write_transfer(old(self).address_spec(), reg_addr, value)], r is Ok),
    {
        write_register(&mut self.bus, self.address, reg_addr, value)
    }

    /// Reads the registers `regs` in turn, stopping at the first failure.
    pub(crate) fn read_regs(&mut self, regs: &Vec<u8>) -> (out: (
        Result<Vec<u32>, AfeError<B::Error>>,
        Ghost<Seq<Seq<u8>>>,
    ))
        ensures
            final(self).same_device(old(self)),
            ({
                let (r, answers) = (out.0, out.1@);
                &&& r matches Ok(v) ==> v@.len() == regs@.len() && forall|i: int|
                    0 <= i < v@.len() ==> #[trigger] v@[i] <= REGISTER_MAX
                &&& r matches Err(e) ==> is_bus_error(e)
                &&& answers.len() == regs@.len()
                &&& r matches Ok(v) ==> v@ == values(answers) && exchanged(
                    old(self).log(),
                    final(self).log(),
                    old(self).address_spec(),
                    regs@,
                    answers,
                    Seq::empty(),
                    true,
                )
                &&& r is Err ==> forall|w: Seq<(u8, u32)>|
                    #[trigger] exchanged(
                        old(self).log(),
                        final(self).log(),
                        old(self).address_spec(),
                        regs@,
                        answers,
                        w,
                        false,
                    )
            }),
    {
        let ghost start = self.log();
        let ghost address = self.address_spec();
        let ghost mut answers: Seq<Seq<u8>> = Seq::empty();
        let mut vals: Vec<u32> = Vec::new();
        let mut i: usize = 0;
        while i < regs.len()
            invariant
                self.same_device(old(self)),
                start == old(self).log(),
                address == old(self).address_spec(),
                i <= regs@.len(),
                answers.len() == i,
                vals@.len() == i,
                self.log() == start + reads_transfers(address, regs@.take(i as int), answers),
                vals@ == values(answers),
                answered(answers),
                forall|k: int| 0 <= k < i ==> #[trigger] vals@[k] <= REGISTER_MAX,
            decreases regs@.len() - i,
        {
            let ghost mid = self.log();
            let res = self.read_reg(regs[i]);
            let ghost a = choose|a: Seq<u8>|
                #[trigger] did(mid, self.log(), read_transfers(address, regs@[i as int], a), res is Ok)
                    && (res matches Ok(v) ==> a.len() >= 3 && v == answer_value(a));
            proof {
                assert(regs@.take(i + 1).drop_last() =~= regs@.take(i as int));
                assert(answers.push(a).drop_last() =~= answers);
                assert(did(start, mid, reads_transfers(address, regs@.take(i as int), answers), true));
                lemma_did_then(
                    start,
                    mid,
                    self.log(),
                    reads_transfers(address, regs@.take(i as int), answers),
                    read_transfers(address, regs@[i as int], a),
                    res is Ok,
                );
            }
            match res {
                Ok(v) => {
                    vals.push(v);
                    proof {
                        answers = answers.push(a);
                        assert(values(answers) =~= vals@);
                    }
                },
                Err(e) => {
                    let ghost full = answers.push(a) + Seq::new((regs@.len() - i - 1) as nat, |k: int| Seq::<u8>::empty());
                    proof {
                        assert(full.take(i + 1) =~= answers.push(a));
                        lemma_reads_stop(start, self.log(), address, regs@, full, i + 1, regs@.len() as int);
                        assert(regs@.take(regs@.len() as int) =~= regs@);
                        assert(full.take(regs@.len() as int) =~= full);
                        assert(did(start, self.log(), reads_transfers(address, regs@, full), false));
                        assert forall|w: Seq<(u8, u32)>| #[trigger] exchanged(start, self.log(), address, regs@, full, w, false) by {
                            lemma_did_stop(start, self.log(), reads_transfers(address, regs@, full), writes_transfers(address, w));
                        }
                    }
                    return (Err(e), Ghost(full));
                },
            }
            i = i + 1;
        }
        proof {
            assert(regs@.take(regs@.len() as int) =~= regs@);
            assert(did(start, self.log(), reads_transfers(address, regs@, answers), true));
            assert(reads_transfers(address, regs@, answers) + writes_transfers(address, Seq::empty())
                =~= reads_transfers(address, regs@, answers));
        }
        (Ok(vals), Ghost(answers))
    }

    /// Writes each `(register, value)` of `writes` in turn, one frame each, stopping at the first
    /// failure.
    pub(crate) fn run_writes(&mut self, writes: &Vec<(u8, u32)>) -> (r: Result<(), AfeError<B::Error>>)
        requires
            forall|i: int| 0 <= i < writes@.len() ==> #[trigger] writes@[i].1 <= REGISTER_MAX,
        ensures
            final(self).same_device(old(self)),
            r matches Err(e) ==> e is I2CError,
            writes@.len() > 0 || r is Ok,
            did(old(self).log(), final(self).log(), writes_transfers(old(self).address_spec(), writes@), r is Ok),
    {
        let ghost start = self.log();
        let ghost address = self.address_spec();
        let mut i: usize = 0;
        while i < writes.len()
            invariant
                self.same_device(old(self)),
                start == old(self).log(),
                address == old(self).address_spec(),
                i <= writes@.len(),
                forall|k: int| 0 <= k < writes@.len() ==> #[trigger] writes@[k].1 <= REGISTER_MAX,
                self.log() == start + writes_transfers(address, writes@).take(i as int),
            decreases writes@.len() - i,
        {
            let ghost mid = self.log();
            let (reg, value) = writes[i];
            let res = self.write_reg(reg, value);
            proof {
                assert(writes_transfers(address, writes@).take(i + 1) =~= writes_transfers(address, writes@).take(i as int).push(
                    write_transfer(address, reg, value),
                ));
                assert(self.log() =~= start + writes_transfers(address, writes@).take(i + 1));
            }
            if let Err(e) = res {
                proof {
                    lemma_did_take(start, self.log(), writes_transfers(address, writes@), i + 1);
                }
                return Err(e);
            }
            i = i + 1;
        }
        proof {
            assert(writes_transfers(address, writes@).take(writes@.len() as int) =~= writes_transfers(address, writes@));
            assert(self.log() =~= start + writes_transfers(address, writes@));
        }
        Ok(())
    }
}

} // verus!
