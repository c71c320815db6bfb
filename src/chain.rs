//! A model of the shift register chain as it sees the commands: the logical
//! levels of its data, clock and latch lines, the bits clocked in so far, and
//! the bits that the last latch pulse made visible.
use crate::gpio::{sent_bit, shift_commands, BitOrder, Command, PinValue};
use crate::leds::{
    clk_pin, le_pin, oe_pin, refresh_commands, refresh_prefix, refresh_suffix, sdi_pin,
    shift_stream, startup_commands,
};
use vstd::prelude::*;

verus! {

pub struct ChainState {
    pub data: bool,
    pub clock: bool,
    pub latch: bool,
    pub shifted: Seq<bool>,
    pub latched: Seq<bool>,
}

/// The chain after one command: a write to the data line sets the data level;
/// a rising clock edge clocks the data level in; a rising latch edge shows
/// what was clocked in. Other commands leave the chain as it is.
pub open spec fn step(st: ChainState, cmd: Command) -> ChainState {
    match cmd {
        Command::Write { bank, index, value } => {
            if bank == sdi_pin().bank && index == sdi_pin().index {
                ChainState {
                    data: sdi_pin().physical(value) == PinValue::High,
                    clock: st.clock,
                    latch: st.latch,
                    shifted: st.shifted,
                    latched: st.latched,
                }
            } else if bank == clk_pin().bank && index == clk_pin().index {
                let level = clk_pin().physical(value) == PinValue::High;
                ChainState {
                    data: st.data,
                    clock: level,
                    latch: st.latch,
                    shifted: if level && !st.clock {
                        st.shifted.push(st.data)
                    } else {
                        st.shifted
                    },
                    latched: st.latched,
                }
            } else if bank == le_pin().bank && index == le_pin().index {
                let level = le_pin().physical(value) == PinValue::High;
                ChainState {
                    data: st.data,
                    clock: st.clock,
                    latch: level,
                    shifted: st.shifted,
                    latched: if level && !st.latch {
                        st.shifted
                    } else {
                        st.latched
                    },
                }
            } else {
                st
            }
        },
        Command::Mode { .. } => st,
    }
}

/// The chain after `cmds`, carried out in order from `st`.
pub open spec fn run(st: ChainState, cmds: Seq<Command>) -> ChainState
    decreases cmds.len(),
{
    if cmds.len() == 0 {
        st
    } else {
        step(run(st, cmds.drop_last()), cmds.last())
    }
}

/// The eight bits of `x`, least significant first.
pub open spec fn lsb_bits(x: u8) -> Seq<bool> {
    Seq::new(8, |i: int| sent_bit(BitOrder::LSBFirst, x, i))
}

/// The bits of `bytes` in order, each byte least significant bit first.
pub open spec fn lsb_stream(bytes: Seq<u8>) -> Seq<bool>
    decreases bytes.len(),
{
    if bytes.len() == 0 {
        Seq::empty()
    } else {
        lsb_stream(bytes.drop_last()) + lsb_bits(bytes.last())
    }
}

/// Carrying out two runs of commands one after the other.
pub proof fn lemma_run_concat(st: ChainState, s1: Seq<Command>, s2: Seq<Command>)
    ensures
        run(st, s1 + s2) == run(run(st, s1), s2),
    decreases s2.len(),
{
    if s2.len() == 0 {
        assert(s1 + s2 =~= s1);
    } else {
        lemma_run_concat(st, s1, s2.drop_last());
        assert((s1 + s2).drop_last() =~= s1 + s2.drop_last());
    }
}

proof fn lemma_shift_prefix(st: ChainState, x: u8, i: int)
    requires
        !st.clock,
        0 <= i <= 8,
    ensures
        !run(st, shift_commands(sdi_pin(), clk_pin(), BitOrder::LSBFirst, x).take(3 * i)).clock,
        run(st, shift_commands(sdi_pin(), clk_pin(), BitOrder::LSBFirst, x).take(3 * i)).shifted
            == st.shifted + lsb_bits(x).take(i),
        run(st, shift_commands(sdi_pin(), clk_pin(), BitOrder::LSBFirst, x).take(3 * i)).latch
            == st.latch,
        run(st, shift_commands(sdi_pin(), clk_pin(), BitOrder::LSBFirst, x).take(3 * i)).latched
            == st.latched,
    decreases i,
{
    let sc = shift_commands(sdi_pin(), clk_pin(), BitOrder::LSBFirst, x);
    if i == 0 {
        assert(sc.take(0) =~= Seq::<Command>::empty());
        assert(lsb_bits(x).take(0) =~= Seq::<bool>::empty());
        assert(st.shifted + Seq::<bool>::empty() =~= st.shifted);
    } else {
        lemma_shift_prefix(st, x, i - 1);
        let j = 3 * (i - 1);
        let r0 = run(st, sc.take(j));
        assert(sc.take(j + 1).drop_last() =~= sc.take(j));
        let r1 = run(st, sc.take(j + 1));
        assert(r1 == step(r0, sc[j]));
        assert(sc.take(j + 2).drop_last() =~= sc.take(j + 1));
        let r2 = run(st, sc.take(j + 2));
        assert(r2 == step(r1, sc[j + 1]));
        assert(sc.take(j + 3).drop_last() =~= sc.take(j + 2));
        let r3 = run(st, sc.take(j + 3));
        assert(r3 == step(r2, sc[j + 2]));
        assert(j % 3 == 0 && j / 3 == i - 1);
        assert((j + 1) % 3 == 1);
        assert((j + 2) % 3 == 2);
        assert(r1.data == sent_bit(BitOrder::LSBFirst, x, i - 1));
        assert(r3.shifted =~= st.shifted + lsb_bits(x).take(i));
    }
}

/// Sending one byte with the clock Low clocks in its eight bits, least
/// significant first, and leaves the clock Low and the latch as it was.
pub proof fn lemma_shift_byte(st: ChainState, x: u8)
    requires
        !st.clock,
    ensures
        !run(st, shift_commands(sdi_pin(), clk_pin(), BitOrder::LSBFirst, x)).clock,
        run(st, shift_commands(sdi_pin(), clk_pin(), BitOrder::LSBFirst, x)).shifted
            == st.shifted + lsb_bits(x),
        run(st, shift_commands(sdi_pin(), clk_pin(), BitOrder::LSBFirst, x)).latch == st.latch,
        run(st, shift_commands(sdi_pin(), clk_pin(), BitOrder::LSBFirst, x)).latched
            == st.latched,
{
    let sc = shift_commands(sdi_pin(), clk_pin(), BitOrder::LSBFirst, x);
    lemma_shift_prefix(st, x, 8);
    assert(sc.take(24) =~= sc);
    assert(lsb_bits(x).take(8) =~= lsb_bits(x));
}

/// Sending a run of bytes with the clock Low clocks in all their bits in
/// order, and leaves the clock Low and the latch as it was.
pub proof fn lemma_shift_stream(st: ChainState, bytes: Seq<u8>)
    requires
        !st.clock,
    ensures
        !run(st, shift_stream(bytes)).clock,
        run(st, shift_stream(bytes)).shifted == st.shifted + lsb_stream(bytes),
        run(st, shift_stream(bytes)).latch == st.latch,
        run(st, shift_stream(bytes)).latched == st.latched,
    decreases bytes.len(),
{
    if bytes.len() == 0 {
        assert(st.shifted + Seq::<bool>::empty() =~= st.shifted);
    } else {
        let head = shift_stream(bytes.drop_last());
        let tail = shift_commands(sdi_pin(), clk_pin(), BitOrder::LSBFirst, bytes.last());
        lemma_shift_stream(st, bytes.drop_last());
        lemma_run_concat(st, head, tail);
        lemma_shift_byte(run(st, head), bytes.last());
        assert(st.shifted + lsb_stream(bytes.drop_last()) + lsb_bits(bytes.last())
            =~= st.shifted + lsb_stream(bytes));
    }
}


/// The eight bits clocked in give back the byte they came from.
pub proof fn lemma_lsb_bits_determine_byte(x: u8, y: u8)
    requires
        lsb_bits(x) == lsb_bits(y),
    ensures
        x == y,
{
    let bx = lsb_bits(x);
    let by_ = lsb_bits(y);
    assert(bx[0] == by_[0] && bx[1] == by_[1] && bx[2] == by_[2] && bx[3] == by_[3]);
    assert(bx[4] == by_[4] && bx[5] == by_[5] && bx[6] == by_[6] && bx[7] == by_[7]);
    assert(x == y) by (bit_vector)
        requires
            (x & (1u8 << 0u8) != 0) == (y & (1u8 << 0u8) != 0),
            (x & (1u8 << 1u8) != 0) == (y & (1u8 << 1u8) != 0),
            (x & (1u8 << 2u8) != 0) == (y & (1u8 << 2u8) != 0),
            (x & (1u8 << 3u8) != 0) == (y & (1u8 << 3u8) != 0),
            (x & (1u8 << 4u8) != 0) == (y & (1u8 << 4u8) != 0),
            (x & (1u8 << 5u8) != 0) == (y & (1u8 << 5u8) != 0),
            (x & (1u8 << 6u8) != 0) == (y & (1u8 << 6u8) != 0),
            (x & (1u8 << 7u8) != 0) == (y & (1u8 << 7u8) != 0),
    ;
}

/// Whether `cmd` writes one of the chain's data, clock or latch lines.
pub open spec fn touches_chain(cmd: Command) -> bool {
    match cmd {
        Command::Write { bank, index, .. } => (bank == sdi_pin().bank && index == sdi_pin().index)
            || (bank == clk_pin().bank && index == clk_pin().index)
            || (bank == le_pin().bank && index == le_pin().index),
        Command::Mode { .. } => false,
    }
}

/// Commands that write none of the chain's lines leave the chain as it is.
pub proof fn lemma_run_untouched(st: ChainState, cmds: Seq<Command>)
    requires
        forall|k: int| 0 <= k < cmds.len() ==> !touches_chain(#[trigger] cmds[k]),
    ensures
        run(st, cmds) == st,
    decreases cmds.len(),
{
    if cmds.len() > 0 {
        let rest = cmds.drop_last();
        assert forall|k: int| 0 <= k < rest.len() implies !touches_chain(#[trigger] rest[k]) by {
            assert(rest[k] == cmds[k]);
        }
        lemma_run_untouched(st, rest);
        assert(!touches_chain(cmds[cmds.len() - 1]));
    }
}

proof fn lemma_run_take_step(st: ChainState, s: Seq<Command>, k: int)
    requires
        0 <= k < s.len(),
    ensures
        run(st, s.take(k + 1)) == step(run(st, s.take(k)), s[k]),
{
    assert(s.take(k + 1).drop_last() =~= s.take(k));
}

/// The bits of five bytes, written out.
pub proof fn lemma_lsb_stream_five(a: u8, b: u8, c: u8, d: u8, e: u8)
    ensures
        lsb_stream(seq![a, b, c, d, e]) == lsb_bits(a) + lsb_bits(b) + lsb_bits(c) + lsb_bits(d)
            + lsb_bits(e),
{
    let s5 = seq![a, b, c, d, e];
    assert(s5.drop_last() =~= seq![a, b, c, d]);
    assert(seq![a, b, c, d].drop_last() =~= seq![a, b, c]);
    assert(seq![a, b, c].drop_last() =~= seq![a, b]);
    assert(seq![a, b].drop_last() =~= seq![a]);
    assert(seq![a].drop_last() =~= Seq::<u8>::empty());
    assert(lsb_stream(Seq::<u8>::empty()) == Seq::<bool>::empty());
    assert(lsb_stream(seq![a]) == lsb_stream(Seq::<u8>::empty()) + lsb_bits(a));
    assert(lsb_stream(seq![a]) =~= lsb_bits(a));
    assert(lsb_stream(seq![a, b]) == lsb_stream(seq![a]) + lsb_bits(b));
    assert(lsb_stream(seq![a, b, c]) == lsb_stream(seq![a, b]) + lsb_bits(c));
    assert(lsb_stream(seq![a, b, c, d]) == lsb_stream(seq![a, b, c]) + lsb_bits(d));
    assert(lsb_stream(s5) == lsb_stream(seq![a, b, c, d]) + lsb_bits(e));
}

/// Setting up the display, one refresh with the patterns `a` to `e`, then
/// switching the segments on, latches exactly the 40 bits of `a`, `b`, `c`,
/// `d` and `e`, in that order and each least significant bit first, behind
/// whatever the chain held before; the clock and the latch end Low.
pub proof fn lemma_refresh_latches(st: ChainState, a: u8, b: u8, c: u8, d: u8, e: u8)
    ensures
        run(
            st,
            startup_commands() + refresh_commands(a, b, c, d, e) + seq![
                oe_pin().write_command(PinValue::Low),
            ],
        ).latched == st.shifted + lsb_bits(a) + lsb_bits(b) + lsb_bits(c) + lsb_bits(d) + lsb_bits(
            e,
        ),
        !run(
            st,
            startup_commands() + refresh_commands(a, b, c, d, e) + seq![
                oe_pin().write_command(PinValue::Low),
            ],
        ).clock,
        !run(
            st,
            startup_commands() + refresh_commands(a, b, c, d, e) + seq![
                oe_pin().write_command(PinValue::Low),
            ],
        ).latch,
{
    let bytes = seq![a, b, c, d, e];
    let enable = seq![oe_pin().write_command(PinValue::Low)];
    let su = startup_commands();
    let pre = refresh_prefix();
    let mid = shift_stream(bytes);
    let suf = refresh_suffix();
    // startup touches none of the chain's lines
    lemma_run_untouched(st, su);
    let s0 = run(st, su);
    // the prefix brings latch and clock Low
    lemma_run_take_step(s0, pre, 0);
    lemma_run_take_step(s0, pre, 1);
    lemma_run_take_step(s0, pre, 2);
    lemma_run_take_step(s0, pre, 3);
    assert(pre.take(4) =~= pre);
    let s1 = run(s0, pre);
    assert(!s1.clock && !s1.latch && s1.shifted == st.shifted);
    // the transfer clocks in every bit
    lemma_shift_stream(s1, bytes);
    let s2 = run(s1, mid);
    lemma_lsb_stream_five(a, b, c, d, e);
    // the suffix pulses the latch
    lemma_run_take_step(s2, suf, 0);
    lemma_run_take_step(s2, suf, 1);
    lemma_run_take_step(s2, suf, 2);
    assert(suf.take(3) =~= suf);
    let s3 = run(s2, suf);
    assert(s3.latched == s2.shifted && !s3.latch && !s3.clock);
    // switching the segments on touches none of the chain's lines
    lemma_run_untouched(s3, enable);
    // putting the pieces together
    lemma_run_concat(st, su, pre);
    lemma_run_concat(st, su + pre, mid);
    lemma_run_concat(st, su + pre + mid, suf);
    lemma_run_concat(st, su + pre + mid + suf, enable);
    assert(su + refresh_commands(a, b, c, d, e) + enable =~= su + pre + mid + suf + enable);
}

} // verus!
