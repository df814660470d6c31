//! Power states of the device's blocks.
use vstd::prelude::*;

use crate::device::{
    exchanged, finished, is_bus_error, lemma_exchange, lemma_exchange_writes, one_reg, values, AFE4404,
};
use crate::error::AfeError;
use crate::modes::LedMode;
use crate::register::{field, get_field, set_field, with_field, I2cBus};

verus! {

/// Offset of the DYNAMIC1 bit (transmitter) of register 23h.
pub const DYNAMIC1_OFFSET: u32 = 20;

/// Offset of the DYNAMIC2 bit (ADC) of register 23h.
pub const DYNAMIC2_OFFSET: u32 = 14;

/// Offset of the DYNAMIC3 bit (TIA) of register 23h.
pub const DYNAMIC3_OFFSET: u32 = 4;

/// Offset of the DYNAMIC4 bit (rest of the ADC) of register 23h.
pub const DYNAMIC4_OFFSET: u32 = 3;

/// Offset of the PDNRX bit of register 23h.
pub const PDNRX_OFFSET: u32 = 1;

/// Offset of the PDNAFE bit of register 23h.
pub const PDNAFE_OFFSET: u32 = 0;

/// Offset of the PD_DISCONNECT bit of register 31h.
pub const PD_DISCONNECT_OFFSET: u32 = 10;

/// Offset of the SW_RESET bit of register 00h.
pub const SW_RESET_OFFSET: u32 = 3;

/// Represents the power state of a dynamic block.
#[derive(Debug, Clone, Copy, PartialEq, Eq, Structural)]
pub enum State {
    /// The block is powered on.
    Enabled,
    /// The block is powered off.
    Disabled,
}

/// The state that a register bit stands for: a set bit disables the block.
pub open spec fn state_of_bit(b: bool) -> State {
    if b {
        State::Disabled
    } else {
        State::Enabled
    }
}

impl From<bool> for State {
    fn from(val: bool) -> (r: State) {
        if val {
            State::Disabled
        } else {
            State::Enabled
        }
    }
}

impl vstd::std_specs::convert::FromSpecImpl<bool> for State {
    open spec fn obeys_from_spec() -> bool {
        true
    }

    open spec fn from_spec(v: bool) -> State {
        state_of_bit(v)
    }
}

impl From<State> for bool {
    fn from(val: State) -> (r: bool) {
        match val {
            State::Disabled => true,
            State::Enabled => false,
        }
    }
}

impl vstd::std_specs::convert::FromSpecImpl<State> for bool {
    open spec fn obeys_from_spec() -> bool {
        true
    }

    open spec fn from_spec(v: State) -> bool {
        v == State::Disabled
    }
}

impl State {
    /// The register bit of a state: set when the block is disabled.
    pub fn bit(self) -> (r: u32)
        ensures
            r == (if self == State::Disabled {
                1u32
            } else {
                0u32
            }),
    {
        match self {
            State::Disabled => 1,
            State::Enabled => 0,
        }
    }

    /// The state of a register bit.
    pub fn of_bit(b: u32) -> (r: State)
        ensures
            r == state_of_bit(b == 1),
    {
        if b == 1 {
            State::Disabled
        } else {
            State::Enabled
        }
    }
}

/// Represents the dynamic blocks of the device.
#[derive(Debug, Clone, Copy, PartialEq, Eq, Structural)]
pub struct DynamicConfiguration {
    /// Supply voltage for LEDs.
    pub transmitter: State,
    /// ADC.
    pub adc: State,
    /// TIA.
    pub tia: State,
    /// Rest of ADC.
    pub rest_of_adc: State,
}

} // verus!

verus! {

/// Register 23h with the four dynamic power-down bits of `c` written.
pub open spec fn with_dynamic(r23h: u32, c: DynamicConfiguration) -> u32 {
    with_field(
        with_field(
            with_field(
                with_field(r23h, DYNAMIC1_OFFSET, 1, if c.transmitter == State::Disabled { 1 } else { 0 }),
                DYNAMIC2_OFFSET,
                1,
                if c.adc == State::Disabled { 1 } else { 0 },
            ),
            DYNAMIC3_OFFSET,
            1,
            if c.tia == State::Disabled { 1 } else { 0 },
        ),
        DYNAMIC4_OFFSET,
        1,
        if c.rest_of_adc == State::Disabled { 1 } else { 0 },
    )
}

/// The dynamic power-down configuration that register 23h holds.
pub open spec fn dynamic_of(r23h: u32) -> DynamicConfiguration {
    DynamicConfiguration {
        transmitter: state_of_bit(field(r23h, DYNAMIC1_OFFSET, 1) == 1),
        adc: state_of_bit(field(r23h, DYNAMIC2_OFFSET, 1) == 1),
        tia: state_of_bit(field(r23h, DYNAMIC3_OFFSET, 1) == 1),
        rest_of_adc: state_of_bit(field(r23h, DYNAMIC4_OFFSET, 1) == 1),
    }
}

/// Writing a dynamic configuration into register 23h and reading it back gives it again.
pub proof fn lemma_dynamic_round_trip(r23h: u32, c: DynamicConfiguration)
    ensures
        dynamic_of(with_dynamic(r23h, c)) == c,
{
    crate::register::lemma_low_mask_values();
    let b1: u32 = if c.transmitter == State::Disabled { 1 } else { 0 };
    let b2: u32 = if c.adc == State::Disabled { 1 } else { 0 };
    let b3: u32 = if c.tia == State::Disabled { 1 } else { 0 };
    let b4: u32 = if c.rest_of_adc == State::Disabled { 1 } else { 0 };
    let v1 = with_field(r23h, DYNAMIC1_OFFSET, 1, b1);
    let v2 = with_field(v1, DYNAMIC2_OFFSET, 1, b2);
    let v3 = with_field(v2, DYNAMIC3_OFFSET, 1, b3);
    let v4 = with_field(v3, DYNAMIC4_OFFSET, 1, b4);
    crate::register::lemma_field_of_with_field(r23h, DYNAMIC1_OFFSET, 1, b1);
    crate::register::lemma_field_of_with_field(v1, DYNAMIC2_OFFSET, 1, b2);
    crate::register::lemma_field_of_with_field(v2, DYNAMIC3_OFFSET, 1, b3);
    crate::register::lemma_field_of_with_field(v3, DYNAMIC4_OFFSET, 1, b4);
    crate::register::lemma_field_of_other(v1, DYNAMIC2_OFFSET, 1, b2, DYNAMIC1_OFFSET, 1);
    crate::register::lemma_field_of_other(v2, DYNAMIC3_OFFSET, 1, b3, DYNAMIC1_OFFSET, 1);
    crate::register::lemma_field_of_other(v3, DYNAMIC4_OFFSET, 1, b4, DYNAMIC1_OFFSET, 1);
    crate::register::lemma_field_of_other(v2, DYNAMIC3_OFFSET, 1, b3, DYNAMIC2_OFFSET, 1);
    crate::register::lemma_field_of_other(v3, DYNAMIC4_OFFSET, 1, b4, DYNAMIC2_OFFSET, 1);
    crate::register::lemma_field_of_other(v3, DYNAMIC4_OFFSET, 1, b4, DYNAMIC3_OFFSET, 1);
}

/// The register bit of a state: set when the block is disabled.
pub open spec fn state_bit(s: State) -> u32 {
    if s == State::Disabled {
        1
    } else {
        0
    }
}

/// The register write that sets the bit at `offset` of a register that held `value`.
pub open spec fn bit_writes(reg_addr: u8, value: u32, offset: u32, bit: u32) -> Seq<(u8, u32)> {
    seq![(reg_addr, with_field(value, offset, 1, bit))]
}

impl<B: I2cBus, MODE: LedMode> AFE4404<B, MODE> {
    /// Reads the register at `reg_addr` and writes it back with the bit at `offset` set to `bit`.
    fn update_bit(&mut self, reg_addr: u8, offset: u32, bit: u32) -> (r: Result<(), AfeError<B::Error>>)
        requires
            offset < 24,
            bit <= 1,
        ensures
            final(self).same_device(old(self)),
            r matches Err(e) ==> is_bus_error(e),
            exists|answers: Seq<Seq<u8>>|
                #[trigger] exchanged(
                    old(self).log(),
                    final(self).log(),
                    old(self).address_spec(),
                    one_reg(reg_addr),
                    answers,
                    bit_writes(reg_addr, values(answers)[0], offset, bit),
                    r is Ok,
                ),
    {
        let ghost before = self.log();
        let ghost address = self.address_spec();
        let regs = vec![reg_addr];
        assert(regs@ =~= one_reg(reg_addr));
        let (res, got) = self.read_regs(&regs);
        let ghost answers = got@;
        let vals = match res {
            Ok(v) => v,
            Err(e) => {
                assert(exchanged(before, self.log(), address, regs@, answers, bit_writes(reg_addr, values(answers)[0], offset, bit), false));
                return Err(e);
            },
        };
        proof {
            crate::register::lemma_low_mask_values();
        }
        let mut writes: Vec<(u8, u32)> = Vec::new();
        writes.push((reg_addr, set_field(vals[0], offset, 1, bit)));
        assert(writes@ =~= bit_writes(reg_addr, values(answers)[0], offset, bit));
        let ghost mid = self.log();
        let wr = self.run_writes(&writes);
        proof {
            lemma_exchange(before, mid, self.log(), address, regs@, answers, writes@, wr is Ok);
        }
        wr
    }

    /// Resets every register of the device to its default: register 00h is written with
    /// SW_RESET set.
    pub fn sw_reset(&mut self) -> (r: Result<(), AfeError<B::Error>>)
        ensures
            final(self).same_device(old(self)),
            r matches Err(e) ==> is_bus_error(e),
            exchanged(
                old(self).log(),
                final(self).log(),
                old(self).address_spec(),
                Seq::empty(),
                Seq::empty(),
                seq![(0x00u8, with_field(0, SW_RESET_OFFSET, 1, 1))],
                r is Ok,
            ),
    {
        proof {
            crate::register::lemma_low_mask_values();
        }
        let ghost before = self.log();
        let mut writes: Vec<(u8, u32)> = Vec::new();
        writes.push((0x00, set_field(0, SW_RESET_OFFSET, 1, 1)));
        let wr = self.run_writes(&writes);
        proof {
            lemma_exchange_writes(before, self.log(), self.address_spec(), writes@, wr is Ok);
        }
        wr
    }

    /// Powers the whole device down: PDNAFE of register 23h is set.
    pub fn sw_power_down(&mut self) -> (r: Result<(), AfeError<B::Error>>)
        ensures
            final(self).same_device(old(self)),
            r matches Err(e) ==> is_bus_error(e),
            exists|answers: Seq<Seq<u8>>|
                #[trigger] exchanged(
                    old(self).log(),
                    final(self).log(),
                    old(self).address_spec(),
                    one_reg(0x23u8),
                    answers,
                    bit_writes(0x23u8, values(answers)[0], PDNAFE_OFFSET, 1),
                    r is Ok,
                ),
    {
        self.update_bit(0x23, PDNAFE_OFFSET, 1)
    }

    /// Powers the whole device up: PDNAFE of register 23h is cleared.
    pub fn sw_power_up(&mut self) -> (r: Result<(), AfeError<B::Error>>)
        ensures
            final(self).same_device(old(self)),
            r matches Err(e) ==> is_bus_error(e),
            exists|answers: Seq<Seq<u8>>|
                #[trigger] exchanged(
                    old(self).log(),
                    final(self).log(),
                    old(self).address_spec(),
                    one_reg(0x23u8),
                    answers,
                    bit_writes(0x23u8, values(answers)[0], PDNAFE_OFFSET, 0),
                    r is Ok,
                ),
    {
        self.update_bit(0x23, PDNAFE_OFFSET, 0)
    }

    /// Powers the receiver down: PDNRX of register 23h is set.
    pub fn sw_power_down_rx(&mut self) -> (r: Result<(), AfeError<B::Error>>)
        ensures
            final(self).same_device(old(self)),
            r matches Err(e) ==> is_bus_error(e),
            exists|answers: Seq<Seq<u8>>|
                #[trigger] exchanged(
                    old(self).log(),
                    final(self).log(),
                    old(self).address_spec(),
                    one_reg(0x23u8),
                    answers,
                    bit_writes(0x23u8, values(answers)[0], PDNRX_OFFSET, 1),
                    r is Ok,
                ),
    {
        self.update_bit(0x23, PDNRX_OFFSET, 1)
    }

    /// Powers the receiver up: PDNRX of register 23h is cleared.
    pub fn sw_power_up_rx(&mut self) -> (r: Result<(), AfeError<B::Error>>)
        ensures
            final(self).same_device(old(self)),
            r matches Err(e) ==> is_bus_error(e),
            exists|answers: Seq<Seq<u8>>|
                #[trigger] exchanged(
                    old(self).log(),
                    final(self).log(),
                    old(self).address_spec(),
                    one_reg(0x23u8),
                    answers,
                    bit_writes(0x23u8, values(answers)[0], PDNRX_OFFSET, 0),
                    r is Ok,
                ),
    {
        self.update_bit(0x23, PDNRX_OFFSET, 0)
    }

    /// Sets which blocks are powered down between the active phases of the window: register 23h
    /// is read and written back with its four dynamic bits.
    pub fn set_dynamic(&mut self, configuration: &DynamicConfiguration) -> (r: Result<
        DynamicConfiguration,
        AfeError<B::Error>,
    >)
        ensures
            final(self).same_device(old(self)),
            r matches Ok(c) ==> c == *configuration,
            r matches Err(e) ==> is_bus_error(e),
            exists|answers: Seq<Seq<u8>>|
                #[trigger] exchanged(
                    old(self).log(),
                    final(self).log(),
                    old(self).address_spec(),
                    one_reg(0x23u8),
                    answers,
                    seq![(0x23u8, with_dynamic(values(answers)[0], *configuration))],
                    r is Ok,
                ),
    {
        let ghost before = self.log();
        let ghost address = self.address_spec();
        let regs = vec![0x23u8];
        assert(regs@ =~= one_reg(0x23u8));
        let (res, got) = self.read_regs(&regs);
        let ghost answers = got@;
        let ghost target = seq![(0x23u8, with_dynamic(values(answers)[0], *configuration))];
        let vals = match res {
            Ok(v) => v,
            Err(e) => {
                assert(exchanged(before, self.log(), address, regs@, answers, target, false));
                return Err(e);
            },
        };
        proof {
            crate::register::lemma_low_mask_values();
        }
        let v = set_field(vals[0], DYNAMIC1_OFFSET, 1, configuration.transmitter.bit());
        let v = set_field(v, DYNAMIC2_OFFSET, 1, configuration.adc.bit());
        let v = set_field(v, DYNAMIC3_OFFSET, 1, configuration.tia.bit());
        let v = set_field(v, DYNAMIC4_OFFSET, 1, configuration.rest_of_adc.bit());
        assert(v == with_dynamic(vals[0], *configuration));
        let mut writes: Vec<(u8, u32)> = Vec::new();
        writes.push((0x23, v));
        assert(writes@ =~= target);
        let ghost mid = self.log();
        let wr = self.run_writes(&writes);
        proof {
            lemma_exchange(before, mid, self.log(), address, regs@, answers, writes@, wr is Ok);
        }
        let r = match wr {
            Ok(()) => Ok(*configuration),
            Err(e) => Err(e),
        };
        assert(exchanged(before, self.log(), address, regs@, answers, target, r is Ok));
        r
    }

    /// Gets which blocks are powered down between the active phases of the window.
    pub fn get_dynamic(&mut self) -> (r: Result<DynamicConfiguration, AfeError<B::Error>>)
        ensures
            final(self).same_device(old(self)),
            r matches Err(e) ==> is_bus_error(e),
            exists|answers: Seq<Seq<u8>>|
                #[trigger] exchanged(
                    old(self).log(),
                    final(self).log(),
                    old(self).address_spec(),
                    one_reg(0x23u8),
                    answers,
                    Seq::empty(),
                    finished(r),
                ) && (r matches Ok(x) ==> x == dynamic_of(values(answers)[0])),
    {
        proof {
            crate::register::lemma_low_mask_values();
        }
        let ghost before = self.log();
        let ghost address = self.address_spec();
        let regs = vec![0x23u8];
        assert(regs@ =~= one_reg(0x23u8));
        let (res, got) = self.read_regs(&regs);
        let ghost answers = got@;
        let r = match res {
            Ok(vals) => Ok(
                DynamicConfiguration {
                    transmitter: State::of_bit(get_field(vals[0], DYNAMIC1_OFFSET, 1)),
                    adc: State::of_bit(get_field(vals[0], DYNAMIC2_OFFSET, 1)),
                    tia: State::of_bit(get_field(vals[0], DYNAMIC3_OFFSET, 1)),
                    rest_of_adc: State::of_bit(get_field(vals[0], DYNAMIC4_OFFSET, 1)),
                },
            ),
            Err(e) => Err(e),
        };
        assert(exchanged(before, self.log(), address, regs@, answers, Seq::empty(), finished(r)));
        r
    }

    /// Connects or disconnects the photodiode: PD_DISCONNECT of register 31h is set when
    /// `state` disables it.
    pub fn set_photodiode(&mut self, state: State) -> (r: Result<State, AfeError<B::Error>>)
        ensures
            final(self).same_device(old(self)),
            r matches Ok(s) ==> s == state,
            r matches Err(e) ==> is_bus_error(e),
            exists|answers: Seq<Seq<u8>>|
                #[trigger] exchanged(
                    old(self).log(),
                    final(self).log(),
                    old(self).address_spec(),
                    one_reg(0x31u8),
                    answers,
                    bit_writes(0x31u8, values(answers)[0], PD_DISCONNECT_OFFSET, state_bit(state)),
                    r is Ok,
                ),
    {
        let b = state.bit();
        assert(b == state_bit(state));
        let ghost before = self.log();
        let wr = self.update_bit(0x31, PD_DISCONNECT_OFFSET, b);
        let r = match wr {
            Ok(()) => Ok(state),
            Err(e) => Err(e),
        };
        proof {
            let a = choose|a: Seq<Seq<u8>>|
                #[trigger] exchanged(before, self.log(), old(self).address_spec(), one_reg(0x31u8), a, bit_writes(0x31u8, values(a)[0], PD_DISCONNECT_OFFSET, b), wr is Ok);
            assert(exchanged(before, self.log(), old(self).address_spec(), one_reg(0x31u8), a, bit_writes(0x31u8, values(a)[0], PD_DISCONNECT_OFFSET, state_bit(state)), r is Ok));
        }
        r
    }

    /// Gets whether the photodiode is connected.
    pub fn get_photodiode(&mut self) -> (r: Result<State, AfeError<B::Error>>)
        ensures
            final(self).same_device(old(self)),
            r matches Err(e) ==> is_bus_error(e),
            exists|answers: Seq<Seq<u8>>|
                #[trigger] exchanged(
                    old(self).log(),
                    final(self).log(),
                    old(self).address_spec(),
                    one_reg(0x31u8),
                    answers,
                    Seq::empty(),
                    finished(r),
                ) && (r matches Ok(x) ==> x == state_of_bit(field(values(answers)[0], PD_DISCONNECT_OFFSET, 1) == 1)),
    {
        proof {
            crate::register::lemma_low_mask_values();
        }
        let ghost before = self.log();
        let ghost address = self.address_spec();
        let regs = vec![0x31u8];
        assert(regs@ =~= one_reg(0x31u8));
        let (res, got) = self.read_regs(&regs);
        let ghost answers = got@;
        let r = match res {
            Ok(vals) => Ok(State::of_bit(get_field(vals[0], PD_DISCONNECT_OFFSET, 1))),
            Err(e) => Err(e),
        };
        assert(exchanged(before, self.log(), address, regs@, answers, Seq::empty(), finished(r)));
        r
    }
}

} // verus!
