use vstd::prelude::*;

verus! {

/// Number of bits in one GPIO register.
pub const REGISTER_BITS: usize = 32;

/// The level of one GPIO line.
#[derive(Clone, Copy, Debug, PartialEq, Eq, Structural)]
pub enum PinValue {
    Low,
    High,
}

/// The direction of one GPIO line.
#[derive(Clone, Copy, Debug, PartialEq, Eq, Structural)]
pub enum PinMode {
    Output,
    Input,
}

/// The order in which the bits of a byte go out on a serial line.
#[derive(Clone, Copy, Debug, PartialEq, Eq, Structural)]
pub enum BitOrder {
    LSBFirst,
    MSBFirst,
}

/// The mask of bit `i` of a register.
pub open spec fn bit_mask(i: usize) -> u32 {
    (1u32 << (i as u32))
}

/// Whether bit `i` of `bits` is set.
pub open spec fn bit_set(bits: u32, i: usize) -> bool {
    bits & bit_mask(i) != 0
}

/// `bits` with bit `i` forced to the level `v`, every other bit kept.
pub open spec fn with_bit(bits: u32, i: usize, v: PinValue) -> u32 {
    match v {
        PinValue::Low => bits & !bit_mask(i),
        PinValue::High => bits | bit_mask(i),
    }
}

/// The level that a set or a clear bit stands for.
pub open spec fn value_of(b: bool) -> PinValue {
    if b { PinValue::High } else { PinValue::Low }
}

/// The other level.
pub open spec fn flipped(v: PinValue) -> PinValue {
    match v {
        PinValue::Low => PinValue::High,
        PinValue::High => PinValue::Low,
    }
}

/// The direction register after setting line `i` to `mode`: the bit is
/// cleared for `Input` and set for `Output`, every other bit kept.
pub open spec fn direction_after(bits: u32, i: usize, mode: PinMode) -> u32 {
    match mode {
        PinMode::Input => bits & !bit_mask(i),
        PinMode::Output => bits | bit_mask(i),
    }
}

/// Flips a level.
pub fn flip(v: PinValue) -> (r: PinValue)
    ensures
        r == flipped(v),
{
    match v {
        PinValue::Low => PinValue::High,
        PinValue::High => PinValue::Low,
    }
}


/// Bit `j` of `bits` with bit `i` cleared: clear at `i`, unchanged elsewhere.
proof fn lemma_clear_bit(bits: u32, i: u32, j: u32)
    requires
        i < 32,
        j < 32,
    ensures
        ((bits & !(1u32 << i)) & (1u32 << j) != 0) == (j != i && bits & (1u32 << j) != 0),
{
    assert(((bits & !(1u32 << i)) & (1u32 << j) != 0) == (j != i && bits & (1u32 << j) != 0))
        by (bit_vector)
        requires
            i < 32,
            j < 32,
    ;
}

/// Bit `j` of `bits` with bit `i` set: set at `i`, unchanged elsewhere.
proof fn lemma_set_bit(bits: u32, i: u32, j: u32)
    requires
        i < 32,
        j < 32,
    ensures
        ((bits | (1u32 << i)) & (1u32 << j) != 0) == (j == i || bits & (1u32 << j) != 0),
{
    assert(((bits | (1u32 << i)) & (1u32 << j) != 0) == (j == i || bits & (1u32 << j) != 0))
        by (bit_vector)
        requires
            i < 32,
            j < 32,
    ;
}

/// Forcing a bit to a level sets that bit to the level and keeps every other
/// bit of the register.
pub proof fn lemma_with_bit(bits: u32, i: usize, v: PinValue)
    requires
        i < REGISTER_BITS,
    ensures
        bit_set(with_bit(bits, i, v), i) == (v == PinValue::High),
        forall|j: usize| j < REGISTER_BITS && j != i ==> bit_set(with_bit(bits, i, v), j) == bit_set(bits, j),
{
    assert forall|j: usize| j < REGISTER_BITS implies bit_set(with_bit(bits, i, v), j) == (if j == i {
        v == PinValue::High
    } else {
        bit_set(bits, j)
    }) by {
        lemma_clear_bit(bits, i as u32, j as u32);
        lemma_set_bit(bits, i as u32, j as u32);
    }
}

/// Setting a line to input and then straight back to output leaves that line
/// with the output encoding (a set bit) and every other line of the
/// direction register as it was.
pub proof fn lemma_mode_round_trip(bits: u32, i: usize)
    requires
        i < REGISTER_BITS,
    ensures
        bit_set(direction_after(direction_after(bits, i, PinMode::Input), i, PinMode::Output), i),
        forall|j: usize| j < REGISTER_BITS && j != i
            ==> bit_set(direction_after(direction_after(bits, i, PinMode::Input), i, PinMode::Output), j)
                == bit_set(bits, j),
{
    let once = direction_after(bits, i, PinMode::Input);
    let twice = direction_after(once, i, PinMode::Output);
    assert forall|j: usize| j < REGISTER_BITS implies bit_set(twice, j) == (j == i || bit_set(bits, j)) by {
        lemma_clear_bit(bits, i as u32, j as u32);
        lemma_set_bit(once, i as u32, j as u32);
    }
}

/// The image of the three registers of one GPIO bank that the driver uses:
/// the direction (output enable) register, the output data register and the
/// input data register. A line is addressed by its bit index, below
/// `REGISTER_BITS`.
pub struct Gpio {
    pub oe: u32,
    pub dataout: u32,
    pub datain: u32,
}

impl Gpio {
    /// Sets the direction of line `bit_index`: read, modify, write back the
    /// direction register.
    pub fn pin_mode(&mut self, bit_index: usize, mode: PinMode)
        requires
            bit_index < REGISTER_BITS,
        ensures
            final(self).oe == direction_after(old(self).oe, bit_index, mode),
            bit_set(final(self).oe, bit_index) == (mode == PinMode::Output),
            forall|j: usize| j < REGISTER_BITS && j != bit_index
                ==> bit_set(final(self).oe, j) == bit_set(old(self).oe, j),
            final(self).dataout == old(self).dataout,
            final(self).datain == old(self).datain,
    {
        proof {
            assert forall|j: usize| j < REGISTER_BITS implies bit_set(
                direction_after(self.oe, bit_index, mode),
                j,
            ) == (if j == bit_index {
                mode == PinMode::Output
            } else {
                bit_set(self.oe, j)
            }) by {
                lemma_clear_bit(self.oe, bit_index as u32, j as u32);
                lemma_set_bit(self.oe, bit_index as u32, j as u32);
            }
            lemma_clear_bit(self.oe, bit_index as u32, bit_index as u32);
            lemma_set_bit(self.oe, bit_index as u32, bit_index as u32);
        }
        let mask: u32 = 1u32 << (bit_index as u32);
        let mut bits: u32 = self.oe;
        bits = match mode {
            PinMode::Input => bits & !mask,
            PinMode::Output => bits | mask,
        };
        self.oe = bits;
    }

    /// Drives line `bit_index` to `value`: read, modify, write back the output
    /// data register, keeping every other bit.
    pub fn digital_write(&mut self, bit_index: usize, value: PinValue)
        requires
            bit_index < REGISTER_BITS,
        ensures
            final(self).dataout == with_bit(old(self).dataout, bit_index, value),
            bit_set(final(self).dataout, bit_index) == (value == PinValue::High),
            forall|j: usize| j < REGISTER_BITS && j != bit_index
                ==> bit_set(final(self).dataout, j) == bit_set(old(self).dataout, j),
            final(self).oe == old(self).oe,
            final(self).datain == old(self).datain,
    {
        proof {
            lemma_with_bit(self.dataout, bit_index, value);
        }
        let mask: u32 = 1u32 << (bit_index as u32);
        let bits: u32 = self.dataout;
        self.dataout = match value {
            PinValue::Low => bits & !mask,
            PinValue::High => bits | mask,
        };
    }

    pub open spec fn digital_read_spec(self, bit_index: usize) -> PinValue {
        value_of(bit_set(self.datain, bit_index))
    }

    /// The level read on line `bit_index` from the input data register.
    pub fn digital_read(&self, bit_index: usize) -> (r: PinValue)
        requires
            bit_index < REGISTER_BITS,
        ensures
            r == self.digital_read_spec(bit_index),
    {
        let mask: u32 = 1u32 << (bit_index as u32);
        if self.datain & mask != 0 {
            PinValue::High
        } else {
            PinValue::Low
        }
    }
}


/// One operation on a line of a GPIO bank, as the controller sees it: the
/// level in a `Write` is the one that lands in the output data register.
#[derive(Clone, Copy, Debug, PartialEq, Eq, Structural)]
pub enum Command {
    Mode { bank: usize, index: usize, mode: PinMode },
    Write { bank: usize, index: usize, value: PinValue },
}

impl Command {
    /// The bit index that the command addresses.
    pub open spec fn line(self) -> usize {
        match self {
            Command::Mode { index, .. } => index,
            Command::Write { index, .. } => index,
        }
    }
}

impl Gpio {
    /// Carries out `command` on this bank (its `bank` field is not read).
    pub fn perform(&mut self, command: Command)
        requires
            command.line() < REGISTER_BITS,
        ensures
            match command {
                Command::Mode { index, mode, .. } => final(self).oe == direction_after(
                    old(self).oe,
                    index,
                    mode,
                ) && final(self).dataout == old(self).dataout,
                Command::Write { index, value, .. } => final(self).dataout == with_bit(
                    old(self).dataout,
                    index,
                    value,
                ) && final(self).oe == old(self).oe,
            },
            final(self).datain == old(self).datain,
    {
        match command {
            Command::Mode { index, mode, .. } => self.pin_mode(index, mode),
            Command::Write { index, value, .. } => self.digital_write(index, value),
        }
    }
}

/// One line of a GPIO bank: the bank's number, the bit index, and whether
/// the line is inverted, in which case both writes and reads are flipped.
#[derive(Clone, Copy, Debug, PartialEq, Eq, Structural)]
pub struct Pin {
    pub bank: usize,
    pub index: usize,
    pub invert: bool,
}

impl Pin {
    pub open spec fn wf(self) -> bool {
        self.index < REGISTER_BITS
    }

    /// The level on the wire for the logical level `v`, and back: the
    /// inversion is its own inverse.
    pub open spec fn physical(self, v: PinValue) -> PinValue {
        if self.invert {
            flipped(v)
        } else {
            v
        }
    }

    /// The command that drives this line to the logical level `v`.
    pub open spec fn write_command(self, v: PinValue) -> Command {
        Command::Write { bank: self.bank, index: self.index, value: self.physical(v) }
    }

    /// The command that sets this line's direction to `mode`.
    pub open spec fn mode_command(self, mode: PinMode) -> Command {
        Command::Mode { bank: self.bank, index: self.index, mode }
    }

    pub fn new(bank: usize, index: usize, invert: bool) -> (r: Pin)
        requires
            index < REGISTER_BITS,
        ensures
            r == (Pin { bank, index, invert }),
            r.wf(),
    {
        Pin { bank, index, invert }
    }

    /// The logical level of this line, read from its bank's input register.
    pub fn digital_read(&self, gpio: &Gpio) -> (r: PinValue)
        requires
            self.wf(),
        ensures
            r == self.physical(value_of(bit_set(gpio.datain, self.index))),
            self.invert ==> r == flipped(gpio.digital_read_spec(self.index)),
            !self.invert ==> r == gpio.digital_read_spec(self.index),
    {
        let value = gpio.digital_read(self.index);
        if self.invert {
            flip(value)
        } else {
            value
        }
    }

    /// Appends to `commands` the write that drives this line to the logical
    /// level `value`.
    pub fn digital_write(&self, commands: &mut Vec<Command>, value: PinValue)
        requires
            self.wf(),
        ensures
            final(commands)@ == old(commands)@.push(self.write_command(value)),
    {
        let value = if self.invert {
            flip(value)
        } else {
            value
        };
        commands.push(Command::Write { bank: self.bank, index: self.index, value });
    }

    /// Appends to `commands` the change of this line's direction to `mode`.
    pub fn mode(&self, commands: &mut Vec<Command>, mode: PinMode)
        requires
            self.wf(),
        ensures
            final(commands)@ == old(commands)@.push(self.mode_command(mode)),
    {
        commands.push(Command::Mode { bank: self.bank, index: self.index, mode });
    }

    /// Appends to `commands` the serial transfer of `value` on `data_pin`,
    /// clocked by `clock_pin`: eight times, the next bit on the data line,
    /// then the clock High and Low.
    pub fn shift_out(
        data_pin: &Pin,
        clock_pin: &Pin,
        bit_order: BitOrder,
        value: u8,
        commands: &mut Vec<Command>,
    )
        requires
            data_pin.wf(),
            clock_pin.wf(),
        ensures
            final(commands)@ == old(commands)@ + shift_commands(*data_pin, *clock_pin, bit_order, value),
    {
        let ghost start = old(commands)@;
        let ghost all = shift_commands(*data_pin, *clock_pin, bit_order, value);
        let mut i: u8 = 0;
        while i < 8
            invariant
                i <= 8,
                data_pin.wf(),
                clock_pin.wf(),
                all == shift_commands(*data_pin, *clock_pin, bit_order, value),
                commands@ == start + all.take(3 * i),
            decreases 8 - i,
        {
            let bit = match bit_order {
                BitOrder::LSBFirst => value & (1u8 << i) != 0,
                BitOrder::MSBFirst => value & (1u8 << (7 - i)) != 0,
            };
            let level = if bit {
                PinValue::High
            } else {
                PinValue::Low
            };
            data_pin.digital_write(commands, level);
            clock_pin.digital_write(commands, PinValue::High);
            clock_pin.digital_write(commands, PinValue::Low);
            assert(commands@ =~= start + all.take(3 * (i + 1)));
            i = i + 1;
        }
        assert(all.take(24) =~= all);
    }
}

/// On an inverted line, the write of a logical level puts the opposite level
/// in the bank's output register, and a read flips the bank's input bit.
pub proof fn lemma_inverted_line(pin: Pin, gpio: Gpio, v: PinValue)
    requires
        pin.wf(),
        pin.invert,
    ensures
        pin.write_command(v) == (Command::Write {
            bank: pin.bank,
            index: pin.index,
            value: flipped(v),
        }),
        bit_set(with_bit(gpio.dataout, pin.index, pin.physical(v)), pin.index) == (v
            == PinValue::Low),
        pin.physical(gpio.digital_read_spec(pin.index)) == flipped(
            gpio.digital_read_spec(pin.index),
        ),
{
    lemma_with_bit(gpio.dataout, pin.index, pin.physical(v));
}

/// Whether the `i`-th bit sent of `value` is set: bit `i` when the least
/// significant bit goes first, bit `7 - i` when the most significant does.
pub open spec fn sent_bit(order: BitOrder, value: u8, i: int) -> bool {
    match order {
        BitOrder::LSBFirst => value & (1u8 << (i as u8)) != 0,
        BitOrder::MSBFirst => value & (1u8 << ((7 - i) as u8)) != 0,
    }
}

/// The 24 commands that send `value`: for each of the eight bits, the bit on
/// the data line, then the clock High, then the clock Low.
pub open spec fn shift_commands(data: Pin, clock: Pin, order: BitOrder, value: u8) -> Seq<Command> {
    Seq::new(
        24,
        |k: int|
            if k % 3 == 0 {
                data.write_command(value_of(sent_bit(order, value, k / 3)))
            } else if k % 3 == 1 {
                clock.write_command(PinValue::High)
            } else {
                clock.write_command(PinValue::Low)
            },
    )
}

} // verus!
