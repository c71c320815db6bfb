use ledclock::gpio::{flip, BitOrder, Command, Gpio, Pin, PinMode, PinValue};

fn bank(oe: u32, dataout: u32, datain: u32) -> Gpio {
    Gpio { oe, dataout, datain }
}

/// The data levels present at each rising clock edge, both taken as logical
/// levels of the given pins.
fn clocked(commands: &[Command], data: &Pin, clock: &Pin) -> Vec<bool> {
    let mut level = false;
    let mut clk = false;
    let mut out = Vec::new();
    for c in commands {
        if let Command::Write { bank, index, value } = *c {
            let raw = value == PinValue::High;
            if bank == data.bank && index == data.index {
                level = raw != data.invert;
            } else if bank == clock.bank && index == clock.index {
                let now = raw != clock.invert;
                if now && !clk {
                    out.push(level);
                }
                clk = now;
            }
        }
    }
    out
}

#[test]
fn flip_swaps_levels() {
    assert_eq!(flip(PinValue::High), PinValue::Low);
    assert_eq!(flip(PinValue::Low), PinValue::High);
}

#[test]
fn pin_mode_output_sets_only_that_bit() {
    let mut g = bank(0x0000_0001, 7, 9);
    g.pin_mode(5, PinMode::Output);
    assert_eq!(g.oe, 0x0000_0021);
    assert_eq!(g.dataout, 7);
    assert_eq!(g.datain, 9);
}

#[test]
fn pin_mode_input_clears_only_that_bit() {
    let mut g = bank(0x8000_0001, 0, 0);
    g.pin_mode(31, PinMode::Input);
    assert_eq!(g.oe, 0x0000_0001);
}

#[test]
fn mode_round_trip_keeps_other_bits() {
    let before: u32 = 0xA5A5_5A5A;
    let mut g = bank(before, 0, 0);
    g.pin_mode(3, PinMode::Input);
    g.pin_mode(3, PinMode::Output);
    assert_eq!(g.oe, before | (1 << 3));
    g.pin_mode(3, PinMode::Input);
    assert_eq!(g.oe, before & !(1 << 3));
}

#[test]
fn digital_write_sets_and_clears_one_bit() {
    let mut g = bank(0, 0x0000_00F0, 0);
    g.digital_write(0, PinValue::High);
    assert_eq!(g.dataout, 0x0000_00F1);
    g.digital_write(4, PinValue::Low);
    assert_eq!(g.dataout, 0x0000_00E1);
    g.digital_write(31, PinValue::High);
    assert_eq!(g.dataout, 0x8000_00E1);
    assert_eq!(g.oe, 0);
}

#[test]
fn digital_read_reports_input_bit() {
    let g = bank(0, 0xFFFF_FFFF, 1 << 12);
    assert_eq!(g.digital_read(12), PinValue::High);
    assert_eq!(g.digital_read(11), PinValue::Low);
}

#[test]
fn perform_applies_commands() {
    let mut g = bank(0x0000_0100, 0, 0);
    g.perform(Command::Mode { bank: 1, index: 2, mode: PinMode::Output });
    g.perform(Command::Write { bank: 1, index: 2, value: PinValue::High });
    assert_eq!(g.oe, 0x0000_0104);
    g.perform(Command::Mode { bank: 1, index: 8, mode: PinMode::Input });
    assert_eq!(g.oe, 0x0000_0004);
    assert_eq!(g.dataout, 4);
}

#[test]
fn pin_new_keeps_fields() {
    let p = Pin::new(2, 1, true);
    assert_eq!(p, Pin { bank: 2, index: 1, invert: true });
}

#[test]
fn inverted_write_lands_flipped() {
    let p = Pin::new(1, 14, true);
    let mut cmds = Vec::new();
    p.digital_write(&mut cmds, PinValue::High);
    p.digital_write(&mut cmds, PinValue::Low);
    assert_eq!(
        cmds,
        vec![
            Command::Write { bank: 1, index: 14, value: PinValue::Low },
            Command::Write { bank: 1, index: 14, value: PinValue::High },
        ]
    );
    let mut g = bank(0, 1 << 14, 0);
    g.perform(cmds[0]);
    assert_eq!(g.dataout & (1 << 14), 0);
    g.perform(cmds[1]);
    assert_eq!(g.dataout & (1 << 14), 1 << 14);
}

#[test]
fn plain_write_lands_as_is() {
    let p = Pin::new(0, 3, false);
    let mut cmds = Vec::new();
    p.digital_write(&mut cmds, PinValue::High);
    assert_eq!(cmds, vec![Command::Write { bank: 0, index: 3, value: PinValue::High }]);
}

#[test]
fn inverted_read_flips_input_bit() {
    let p = Pin::new(0, 7, true);
    let q = Pin::new(0, 7, false);
    let high = bank(0, 0, 1 << 7);
    let low = bank(0, 0, 0);
    assert_eq!(p.digital_read(&high), PinValue::Low);
    assert_eq!(p.digital_read(&low), PinValue::High);
    assert_eq!(q.digital_read(&high), PinValue::High);
    assert_eq!(q.digital_read(&low), PinValue::Low);
}

#[test]
fn mode_queues_direction_change() {
    let p = Pin::new(1, 12, true);
    let mut cmds = Vec::new();
    p.mode(&mut cmds, PinMode::Input);
    assert_eq!(cmds, vec![Command::Mode { bank: 1, index: 12, mode: PinMode::Input }]);
}

#[test]
fn shift_out_lsb_first_one() {
    let data = Pin::new(0, 1, false);
    let clock = Pin::new(0, 2, false);
    let mut cmds = Vec::new();
    Pin::shift_out(&data, &clock, BitOrder::LSBFirst, 0b0000_0001, &mut cmds);
    assert_eq!(cmds.len(), 24);
    assert_eq!(
        clocked(&cmds, &data, &clock),
        vec![true, false, false, false, false, false, false, false]
    );
    for i in 0..8 {
        assert_eq!(cmds[3 * i + 1], Command::Write { bank: 0, index: 2, value: PinValue::High });
        assert_eq!(cmds[3 * i + 2], Command::Write { bank: 0, index: 2, value: PinValue::Low });
    }
}

#[test]
fn shift_out_msb_first_high_bit() {
    let data = Pin::new(0, 1, false);
    let clock = Pin::new(0, 2, false);
    let mut cmds = Vec::new();
    Pin::shift_out(&data, &clock, BitOrder::MSBFirst, 0b1000_0000, &mut cmds);
    assert_eq!(
        clocked(&cmds, &data, &clock),
        vec![true, false, false, false, false, false, false, false]
    );
}

#[test]
fn shift_out_msb_first_low_bit() {
    let data = Pin::new(0, 1, false);
    let clock = Pin::new(0, 2, false);
    let mut cmds = Vec::new();
    Pin::shift_out(&data, &clock, BitOrder::MSBFirst, 0b0000_0001, &mut cmds);
    assert_eq!(
        clocked(&cmds, &data, &clock),
        vec![false, false, false, false, false, false, false, true]
    );
}

#[test]
fn shift_out_through_inverted_pins() {
    let data = Pin::new(1, 12, true);
    let clock = Pin::new(0, 26, true);
    let mut cmds = vec![Command::Write { bank: 0, index: 26, value: PinValue::High }];
    Pin::shift_out(&data, &clock, BitOrder::LSBFirst, 0b1010_0110, &mut cmds);
    assert_eq!(cmds.len(), 25);
    assert_eq!(cmds[1], Command::Write { bank: 1, index: 12, value: PinValue::High });
    assert_eq!(
        clocked(&cmds, &data, &clock),
        vec![false, true, true, false, false, true, false, true]
    );
}
