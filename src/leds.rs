use crate::gpio::{shift_commands, BitOrder, Command, Pin, PinMode, PinValue};
use vstd::prelude::*;

verus! {

// Segment bits of one digit:
//       __2
//      4  0
//     /_6/
//    1  5
//   /_3/ .7
// The colon position lights bit 0 (bottom dot) and bit 2 (top dot).
pub const TOP_RIGHT: u8 = 1 << 0;

pub const BOTTOM_LEFT: u8 = 1 << 1;

pub const TOP: u8 = 1 << 2;

pub const BOTTOM: u8 = 1 << 3;

pub const TOP_LEFT: u8 = 1 << 4;

pub const BOTTOM_RIGHT: u8 = 1 << 5;

pub const MIDDLE: u8 = 1 << 6;

pub const COLON_TOP: u8 = 1 << 2;

pub const COLON_BOTTOM: u8 = 1 << 0;

pub const DOT: u8 = 1 << 7;

/// The segments lit for decimal digit `n`, below 10.
pub open spec fn digit_segments(n: int) -> u8 {
    if n == 0 {
        BOTTOM_LEFT | TOP_LEFT | TOP | TOP_RIGHT | BOTTOM_RIGHT | BOTTOM
    } else if n == 1 {
        TOP_RIGHT | BOTTOM_RIGHT
    } else if n == 2 {
        TOP | TOP_RIGHT | MIDDLE | BOTTOM_LEFT | BOTTOM
    } else if n == 3 {
        TOP | TOP_RIGHT | BOTTOM_RIGHT | BOTTOM | MIDDLE
    } else if n == 4 {
        TOP_LEFT | MIDDLE | TOP_RIGHT | BOTTOM_RIGHT
    } else if n == 5 {
        TOP | TOP_LEFT | MIDDLE | BOTTOM_RIGHT | BOTTOM
    } else if n == 6 {
        TOP | TOP_LEFT | MIDDLE | BOTTOM_RIGHT | BOTTOM | BOTTOM_LEFT
    } else if n == 7 {
        TOP | TOP_RIGHT | BOTTOM_RIGHT
    } else if n == 8 {
        TOP | TOP_LEFT | MIDDLE | TOP_RIGHT | BOTTOM_LEFT | BOTTOM | BOTTOM_RIGHT
    } else {
        TOP | TOP_LEFT | MIDDLE | TOP_RIGHT | BOTTOM | BOTTOM_RIGHT
    }
}

/// The table of segment patterns, indexed by digit.
pub fn digits() -> (r: [u8; 10])
    ensures
        forall|n: int| 0 <= n < 10 ==> r@[n] == digit_segments(n),
{
    let r: [u8; 10] = [
        BOTTOM_LEFT | TOP_LEFT | TOP | TOP_RIGHT | BOTTOM_RIGHT | BOTTOM,
        TOP_RIGHT | BOTTOM_RIGHT,
        TOP | TOP_RIGHT | MIDDLE | BOTTOM_LEFT | BOTTOM,
        TOP | TOP_RIGHT | BOTTOM_RIGHT | BOTTOM | MIDDLE,
        TOP_LEFT | MIDDLE | TOP_RIGHT | BOTTOM_RIGHT,
        TOP | TOP_LEFT | MIDDLE | BOTTOM_RIGHT | BOTTOM,
        TOP | TOP_LEFT | MIDDLE | BOTTOM_RIGHT | BOTTOM | BOTTOM_LEFT,
        TOP | TOP_RIGHT | BOTTOM_RIGHT,
        TOP | TOP_LEFT | MIDDLE | TOP_RIGHT | BOTTOM_LEFT | BOTTOM | BOTTOM_RIGHT,
        TOP | TOP_LEFT | MIDDLE | TOP_RIGHT | BOTTOM | BOTTOM_RIGHT,
    ];
    r
}

/// The pattern of the tens digit of `n`.
pub fn left_digit(n: u8) -> (r: u8)
    requires
        n < 100,
    ensures
        r == digit_segments(n as int / 10),
{
    let table = digits();
    table[(n / 10) as usize]
}

/// The pattern of the units digit of `n`.
pub fn right_digit(n: u8) -> (r: u8)
    ensures
        r == digit_segments(n as int % 10),
{
    let table = digits();
    table[(n % 10) as usize]
}


/// Whether the clock shows the date rather than the time in second `second`
/// of a minute: during seconds 30 to 34 and 55 to 59.
pub open spec fn shows_date(second: u32) -> bool {
    (55 <= second < 60) || (30 <= second < 35)
}

/// The five patterns that the clock shows: the day (with the dot after it)
/// and the month during `shows_date`, else the hour and the minute with the
/// colon lit.
pub open spec fn frame_spec(hour: u8, minute: u8, day: u8, month: u8, second: u32) -> Seq<u8> {
    if shows_date(second) {
        seq![
            digit_segments(day as int / 10),
            digit_segments(day as int % 10) | DOT,
            digit_segments(month as int / 10),
            digit_segments(month as int % 10),
            0u8,
        ]
    } else {
        seq![
            digit_segments(hour as int / 10),
            digit_segments(hour as int % 10),
            digit_segments(minute as int / 10),
            digit_segments(minute as int % 10),
            COLON_BOTTOM | COLON_TOP,
        ]
    }
}

/// The five patterns that the clock shows at the given time.
pub fn clock_frame(hour: u8, minute: u8, day: u8, month: u8, second: u32) -> (r: [u8; 5])
    requires
        hour < 100,
        minute < 100,
        day < 100,
        month < 100,
    ensures
        r@ == frame_spec(hour, minute, day, month, second),
{
    let r: [u8; 5] = if (55 <= second && second < 60) || (30 <= second && second < 35) {
        [left_digit(day), right_digit(day) | DOT, left_digit(month), right_digit(month), 0]
    } else {
        [
            left_digit(hour),
            right_digit(hour),
            left_digit(minute),
            right_digit(minute),
            COLON_BOTTOM | COLON_TOP,
        ]
    };
    assert(r@ =~= frame_spec(hour, minute, day, month, second));
    r
}

/// The serial data input of the shift register chain.
pub open spec fn sdi_pin() -> Pin {
    Pin { bank: 1, index: 12, invert: true }
}

/// The output enable of the chain: at logical Low the segments are lit.
pub open spec fn oe_pin() -> Pin {
    Pin { bank: 1, index: 14, invert: true }
}

/// The shift clock of the chain.
pub open spec fn clk_pin() -> Pin {
    Pin { bank: 0, index: 26, invert: true }
}

/// The latch enable of the chain: its rising edge shows what was shifted in.
pub open spec fn le_pin() -> Pin {
    Pin { bank: 2, index: 1, invert: true }
}

/// What `Leds::new` issues: the four lines become outputs, then the
/// segments are switched dark before any data is shifted.
pub open spec fn startup_commands() -> Seq<Command> {
    seq![
        sdi_pin().mode_command(PinMode::Output),
        clk_pin().mode_command(PinMode::Output),
        oe_pin().mode_command(PinMode::Output),
        le_pin().mode_command(PinMode::Output),
        oe_pin().write_command(PinValue::High),
    ]
}

/// The transfer of `bytes` in order, each least significant bit first.
pub open spec fn shift_stream(bytes: Seq<u8>) -> Seq<Command>
    decreases bytes.len(),
{
    if bytes.len() == 0 {
        Seq::empty()
    } else {
        shift_stream(bytes.drop_last()) + shift_commands(
            sdi_pin(),
            clk_pin(),
            BitOrder::LSBFirst,
            bytes.last(),
        )
    }
}

/// The lines set to a known level before a transfer: latch, data and clock
/// Low, then the data line High.
pub open spec fn refresh_prefix() -> Seq<Command> {
    seq![
        le_pin().write_command(PinValue::Low),
        sdi_pin().write_command(PinValue::Low),
        clk_pin().write_command(PinValue::Low),
        sdi_pin().write_command(PinValue::High),
    ]
}

/// After a transfer: the clock Low, then a pulse on the latch.
pub open spec fn refresh_suffix() -> Seq<Command> {
    seq![
        clk_pin().write_command(PinValue::Low),
        le_pin().write_command(PinValue::High),
        le_pin().write_command(PinValue::Low),
    ]
}

/// One full refresh showing the five patterns `a` to `e`.
pub open spec fn refresh_commands(a: u8, b: u8, c: u8, d: u8, e: u8) -> Seq<Command> {
    refresh_prefix() + shift_stream(seq![a, b, c, d, e]) + refresh_suffix()
}

/// The display: five digit positions behind a chain of latched shift
/// registers, driven through four fixed lines. It queues the commands for
/// the GPIO banks in the order they must be carried out.
pub struct Leds {
    commands: Vec<Command>,
}

impl View for Leds {
    type V = Seq<Command>;

    /// The commands issued and not yet taken.
    closed spec fn view(&self) -> Seq<Command> {
        self.commands@
    }
}

impl Leds {
    /// Sets up the four lines as outputs and switches the segments dark.
    pub fn new() -> (r: Leds)
        ensures
            r@ == startup_commands(),
    {
        let mut leds = Leds { commands: Vec::new() };
        let sdi = leds.sdi();
        let clk = leds.clk();
        let oe = leds.oe();
        let le = leds.le();
        sdi.mode(&mut leds.commands, PinMode::Output);
        clk.mode(&mut leds.commands, PinMode::Output);
        oe.mode(&mut leds.commands, PinMode::Output);
        le.mode(&mut leds.commands, PinMode::Output);
        oe.digital_write(&mut leds.commands, PinValue::High);
        assert(leds.commands@ =~= startup_commands());
        leds
    }

    fn sdi(&self) -> (r: Pin)
        ensures
            r == sdi_pin(),
            r.wf(),
    {
        Pin::new(1, 12, true)
    }

    fn oe(&self) -> (r: Pin)
        ensures
            r == oe_pin(),
            r.wf(),
    {
        Pin::new(1, 14, true)
    }

    fn clk(&self) -> (r: Pin)
        ensures
            r == clk_pin(),
            r.wf(),
    {
        Pin::new(0, 26, true)
    }

    fn le(&self) -> (r: Pin)
        ensures
            r == le_pin(),
            r.wf(),
    {
        Pin::new(2, 1, true)
    }

    /// Lights the segments with what was last latched.
    pub fn enable_output(&mut self)
        ensures
            final(self)@ == old(self)@.push(oe_pin().write_command(PinValue::Low)),
    {
        let oe = self.oe();
        oe.digital_write(&mut self.commands, PinValue::Low);
    }

    /// Switches the segments dark.
    pub fn disable_output(&mut self)
        ensures
            final(self)@ == old(self)@.push(oe_pin().write_command(PinValue::High)),
    {
        let oe = self.oe();
        oe.digital_write(&mut self.commands, PinValue::High);
    }

    /// Shifts the patterns `a` to `e` into the chain, in that order and each
    /// least significant bit first, then latches them.
    pub fn set(&mut self, a: u8, b: u8, c: u8, d: u8, e: u8)
        ensures
            final(self)@ == old(self)@ + refresh_commands(a, b, c, d, e),
    {
        let data: [u8; 5] = [a, b, c, d, e];
        let sdi = self.sdi();
        let clk = self.clk();
        let le = self.le();
        let ghost start = self.commands@;

        le.digital_write(&mut self.commands, PinValue::Low);
        sdi.digital_write(&mut self.commands, PinValue::Low);
        clk.digital_write(&mut self.commands, PinValue::Low);
        sdi.digital_write(&mut self.commands, PinValue::High);
        assert(self.commands@ =~= start + refresh_prefix());

        let mut k: usize = 0;
        while k < 5
            invariant
                k <= 5,
                data@ == seq![a, b, c, d, e],
                sdi == sdi_pin(),
                clk == clk_pin(),
                self.commands@ == start + refresh_prefix() + shift_stream(data@.take(k as int)),
            decreases 5 - k,
        {
            Pin::shift_out(&sdi, &clk, BitOrder::LSBFirst, data[k], &mut self.commands);
            assert(data@.take(k + 1).drop_last() =~= data@.take(k as int));
            assert(self.commands@ =~= start + refresh_prefix() + shift_stream(data@.take(k + 1)));
            k = k + 1;
        }
        assert(data@.take(5) =~= seq![a, b, c, d, e]);

        clk.digital_write(&mut self.commands, PinValue::Low);
        le.digital_write(&mut self.commands, PinValue::High);
        le.digital_write(&mut self.commands, PinValue::Low);
        assert(self.commands@ =~= start + refresh_commands(a, b, c, d, e));
    }

    /// Hands over the queued commands, oldest first, and empties the queue.
    pub fn take_commands(&mut self) -> (r: Vec<Command>)
        ensures
            r@ == old(self)@,
            final(self)@ == Seq::<Command>::empty(),
    {
        let mut taken: Vec<Command> = Vec::new();
        std::mem::swap(&mut taken, &mut self.commands);
        taken
    }
}

} // verus!
