//! The digital front end as a mathematical model: mid-bit sampling of the
//! chip stream, the four-state Manchester decoder, and the sliding-window
//! frame register. The executable decoder's contracts are stated over these
//! functions, and the round-trip law is proved of them.

use vstd::prelude::*;
use crate::crc::{SYNC_MASK, SYNC_PATTERN};

verus! {

/// Phase of the Manchester line-code decoder.
#[derive(Clone, Copy, PartialEq, Eq, Structural, Debug)]
pub enum ManchesterState {
    LowPhaseA,
    LowPhaseB,
    HighPhaseA,
    HighPhaseB,
}

/// State transition of the Manchester decoder for one mid-bit chip.
pub open spec fn manchester_next(s: ManchesterState, chip: bool) -> ManchesterState {
    match s {
        ManchesterState::LowPhaseA => if chip {
            ManchesterState::HighPhaseB
        } else {
            ManchesterState::LowPhaseA
        },
        ManchesterState::LowPhaseB => if chip {
            ManchesterState::HighPhaseA
        } else {
            ManchesterState::LowPhaseA
        },
        ManchesterState::HighPhaseA => if chip {
            ManchesterState::HighPhaseA
        } else {
            ManchesterState::LowPhaseB
        },
        ManchesterState::HighPhaseB => if chip {
            ManchesterState::HighPhaseA
        } else {
            ManchesterState::LowPhaseA
        },
    }
}

/// The bit the decoder emits when evaluated in a state, before the transition
/// for the current chip is applied.
pub open spec fn manchester_emits(s: ManchesterState) -> Option<bool> {
    match s {
        ManchesterState::LowPhaseB => Some(false),
        ManchesterState::HighPhaseB => Some(true),
        _ => None,
    }
}

/// One decoded bit shifted into the 64-bit frame register, newest bit in the
/// low-order position, overflow discarded.
pub open spec fn frame_shift(reg: u64, bit: bool) -> u64 {
    (reg << 1u64) | (if bit {
        1u64
    } else {
        0u64
    })
}

/// Whether the register's high-order 16 bits match the sync pattern.
pub open spec fn frame_matches(reg: u64) -> bool {
    reg & SYNC_MASK == SYNC_PATTERN
}

/// The frame assembler's step: shift the bit in; on a sync match hand the
/// full register out and reset it to zero.
pub open spec fn frame_step(reg: u64, bit: bool) -> (u64, Option<u64>) {
    let shifted = frame_shift(reg, bit);
    if frame_matches(shifted) {
        (0u64, Some(shifted))
    } else {
        (shifted, None)
    }
}

/// The digital decoder state upstream of payload handling: edge tracking,
/// Manchester phase and the frame register.
pub struct PipelineState {
    pub last_sample: bool,
    pub samples_since_edge: u32,
    pub manchester: ManchesterState,
    pub frame: u64,
}

/// The state a freshly constructed decoder starts in.
pub open spec fn pipeline_init() -> PipelineState {
    PipelineState {
        last_sample: false,
        samples_since_edge: 0,
        manchester: ManchesterState::LowPhaseA,
        frame: 0,
    }
}

/// A Manchester evaluation on one mid-bit chip: the phase advances, and an
/// emitted bit runs through the frame assembler.
pub open spec fn midbit_step(p: PipelineState, chip: bool) -> (PipelineState, Option<u64>) {
    let emitted = manchester_emits(p.manchester);
    let next = manchester_next(p.manchester, chip);
    match emitted {
        Some(bit) => {
            let fr = frame_step(p.frame, bit);
            (
                PipelineState { manchester: next, frame: fr.0, ..p },
                fr.1,
            )
        },
        None => (PipelineState { manchester: next, ..p }, None),
    }
}

/// The since-edge counter advanced by one sample, wrapping at the top.
pub open spec fn next_count(c: u32) -> u32 {
    if c == u32::MAX {
        0u32
    } else {
        (c + 1) as u32
    }
}

/// One chip through the bit synchronizer: out-of-range inputs are ignored; an
/// edge re-anchors the since-edge counter at one; otherwise the counter
/// advances and the chip is taken as a mid-bit sample whenever the counter is
/// at half the chip period modulo the period.
pub open spec fn chip_step(p: PipelineState, data: u8) -> (PipelineState, Option<u64>) {
    if data != 0 && data != 1 {
        (p, None)
    } else {
        let this = data == 1;
        if this == p.last_sample {
            let cnt = next_count(p.samples_since_edge);
            if cnt % 8 == 4 {
                let m = midbit_step(p, this);
                (
                    PipelineState { last_sample: this, samples_since_edge: cnt, ..m.0 },
                    m.1,
                )
            } else {
                (PipelineState { last_sample: this, samples_since_edge: cnt, ..p }, None)
            }
        } else {
            (PipelineState { last_sample: this, samples_since_edge: 1, ..p }, None)
        }
    }
}

/// A chip sequence run through the pipeline, collecting every dispatched
/// payload in order.
pub open spec fn run_chips(p: PipelineState, chips: Seq<u8>) -> (PipelineState, Seq<u64>)
    decreases chips.len(),
{
    if chips.len() == 0 {
        (p, Seq::empty())
    } else {
        let prefix = run_chips(p, chips.drop_last());
        let step = chip_step(prefix.0, chips.last());
        (
            step.0,
            match step.1 {
                Some(pl) => prefix.1.push(pl),
                None => prefix.1,
            },
        )
    }
}

/// A mid-bit chip sequence run through Manchester decoding and framing alone.
pub open spec fn run_midbits(m: ManchesterState, reg: u64, chips: Seq<bool>) -> (
    ManchesterState,
    u64,
    Seq<u64>,
)
    decreases chips.len(),
{
    if chips.len() == 0 {
        (m, reg, Seq::empty())
    } else {
        let prefix = run_midbits(m, reg, chips.drop_last());
        let p = PipelineState {
            last_sample: false,
            samples_since_edge: 0,
            manchester: prefix.0,
            frame: prefix.1,
        };
        let step = midbit_step(p, chips.last());
        (
            step.0.manchester,
            step.0.frame,
            match step.1 {
                Some(pl) => prefix.2.push(pl),
                None => prefix.2,
            },
        )
    }
}

/// The bits of a payload, most significant first.
pub open spec fn payload_bits(payload: u64) -> Seq<bool> {
    Seq::new(64, |i: int| (payload >> (63 - i) as u64) & 1 == 1)
}

/// Manchester line coding of a bit sequence: each logical bit becomes two
/// chips of opposite level, the bit value in the second position.
pub open spec fn manchester_pairs(bits: Seq<bool>) -> Seq<bool>
    decreases bits.len(),
{
    if bits.len() == 0 {
        Seq::empty()
    } else {
        manchester_pairs(bits.drop_last()) + seq![!bits.last(), bits.last()]
    }
}

/// One mid-bit chip held for a whole chip period of the bit synchronizer.
pub open spec fn held_chip(c: bool) -> Seq<u8> {
    Seq::new(8, |i: int| if c {
        1u8
    } else {
        0u8
    })
}

/// A mid-bit chip sequence expanded to the sample rate the bit synchronizer
/// sees: every chip held for one period.
pub open spec fn expand_chips(chips: Seq<bool>) -> Seq<u8>
    decreases chips.len(),
{
    if chips.len() == 0 {
        Seq::empty()
    } else {
        expand_chips(chips.drop_last()) + held_chip(chips.last())
    }
}

/// The complete synthetic transmission of one payload: its bits Manchester
/// encoded, one trailing low chip to flush the final bit, each chip held for
/// one period.
pub open spec fn encode_payload(payload: u64) -> Seq<u8> {
    expand_chips(manchester_pairs(payload_bits(payload)).push(false))
}

/// A decoded bit sequence run through the frame assembler alone.
pub open spec fn run_bits(reg: u64, bits: Seq<bool>) -> (u64, Seq<u64>)
    decreases bits.len(),
{
    if bits.len() == 0 {
        (reg, Seq::empty())
    } else {
        let prefix = run_bits(reg, bits.drop_last());
        let step = frame_step(prefix.0, bits.last());
        (
            step.0,
            match step.1 {
                Some(pl) => prefix.1.push(pl),
                None => prefix.1,
            },
        )
    }
}

/// A dispatch turned into the sequence of payloads it contributes.
pub open spec fn dispatch_seq(d: Option<u64>) -> Seq<u64> {
    match d {
        Some(pl) => seq![pl],
        None => Seq::empty(),
    }
}

/// Running the pipeline over a concatenation is running it over the parts in
/// turn.
pub proof fn lemma_run_chips_concat(p: PipelineState, s: Seq<u8>, t: Seq<u8>)
    ensures
        run_chips(p, s + t).0 == run_chips(run_chips(p, s).0, t).0,
        run_chips(p, s + t).1 == run_chips(p, s).1 + run_chips(run_chips(p, s).0, t).1,
    decreases t.len(),
{
    let a = run_chips(p, s);
    if t.len() == 0 {
        assert(s + t =~= s);
        assert(a.1 + run_chips(a.0, t).1 =~= a.1);
    } else {
        lemma_run_chips_concat(p, s, t.drop_last());
        assert((s + t).drop_last() =~= s + t.drop_last());
        assert((s + t).last() == t.last());
        let b1 = run_chips(a.0, t.drop_last());
        let st = chip_step(b1.0, t.last());
        match st.1 {
            Some(pl) => {
                assert(a.1 + b1.1.push(pl) =~= (a.1 + b1.1).push(pl));
            },
            None => {},
        }
    }
}

/// The same composition for the Manchester-and-framing stage.
pub proof fn lemma_run_midbits_concat(m: ManchesterState, reg: u64, s: Seq<bool>, t: Seq<bool>)
    ensures
        run_midbits(m, reg, s + t).0 == run_midbits(
            run_midbits(m, reg, s).0,
            run_midbits(m, reg, s).1,
            t,
        ).0,
        run_midbits(m, reg, s + t).1 == run_midbits(
            run_midbits(m, reg, s).0,
            run_midbits(m, reg, s).1,
            t,
        ).1,
        run_midbits(m, reg, s + t).2 == run_midbits(m, reg, s).2 + run_midbits(
            run_midbits(m, reg, s).0,
            run_midbits(m, reg, s).1,
            t,
        ).2,
    decreases t.len(),
{
    let a = run_midbits(m, reg, s);
    if t.len() == 0 {
        assert(s + t =~= s);
        assert(a.2 + run_midbits(a.0, a.1, t).2 =~= a.2);
    } else {
        lemma_run_midbits_concat(m, reg, s, t.drop_last());
        assert((s + t).drop_last() =~= s + t.drop_last());
        assert((s + t).last() == t.last());
        let b1 = run_midbits(a.0, a.1, t.drop_last());
        let pstate = PipelineState {
            last_sample: false,
            samples_since_edge: 0,
            manchester: b1.0,
            frame: b1.1,
        };
        let st = midbit_step(pstate, t.last());
        match st.1 {
            Some(pl) => {
                assert(a.2 + b1.2.push(pl) =~= (a.2 + b1.2).push(pl));
            },
            None => {},
        }
    }
}

/// Advancing the since-edge counter steps its residue, wrapping included.
proof fn lemma_next_count_mod(x: u32, r: u32)
    by (bit_vector)
    requires
        x % 8 == r,
    ensures
        r < 7 ==> next_count(x) % 8 == (r + 1) as u32,
        r == 7 ==> next_count(x) % 8 == 0,
{
}

/// One chip held for a whole period, fed to the bit synchronizer from a
/// period boundary, produces exactly one mid-bit evaluation of that chip: the
/// first `j` samples of the period leave the Manchester stage untouched until
/// the period midpoint and evaluated afterwards, and the counter ends back on
/// a period boundary.
proof fn lemma_run_block_prefix(p: PipelineState, c: bool, j: int)
    requires
        p.samples_since_edge % 8 == 0,
        0 <= j <= 8,
    ensures
        ({
            let r = run_chips(p, held_chip(c).take(j));
            let m = midbit_step(p, c);
            &&& (j == 0 ==> r.0 == p && r.1 == Seq::<u64>::empty())
            &&& (j >= 1 ==> {
                &&& r.0.last_sample == c
                &&& r.0.samples_since_edge % 8 == j % 8
                &&& (j < 4 ==> r.0.manchester == p.manchester && r.0.frame == p.frame && r.1
                    == Seq::<u64>::empty())
                &&& (j >= 4 ==> r.0.manchester == m.0.manchester && r.0.frame == m.0.frame && r.1
                    == dispatch_seq(m.1))
            })
        }),
    decreases j,
{
    let hc = held_chip(c);
    if j == 0 {
        assert(hc.take(0) =~= Seq::<u8>::empty());
    } else {
        lemma_run_block_prefix(p, c, j - 1);
        assert(hc.take(j).drop_last() =~= hc.take(j - 1));
        assert(hc.take(j).last() == (if c {
            1u8
        } else {
            0u8
        }));
        let prev = run_chips(p, hc.take(j - 1));
        let data: u8 = if c {
            1u8
        } else {
            0u8
        };
        let st = chip_step(prev.0, data);
        if j == 1 {
            if c == p.last_sample {
                lemma_next_count_mod(p.samples_since_edge, 0);
            }
        } else {
            lemma_next_count_mod(prev.0.samples_since_edge, ((j - 1) % 8) as u32);
        }
    }
}

/// Chips held for whole periods drive the Manchester-and-framing stage just
/// as the bare mid-bit chips do, and leave the counter on a period boundary
/// with the last chip as the remembered level.
proof fn lemma_expand_runs(p: PipelineState, mchips: Seq<bool>)
    requires
        p.samples_since_edge % 8 == 0,
    ensures
        ({
            let r = run_chips(p, expand_chips(mchips));
            let m = run_midbits(p.manchester, p.frame, mchips);
            &&& r.0.manchester == m.0
            &&& r.0.frame == m.1
            &&& r.1 == m.2
            &&& r.0.samples_since_edge % 8 == 0
            &&& r.0.last_sample == (if mchips.len() == 0 {
                p.last_sample
            } else {
                mchips.last()
            })
        }),
    decreases mchips.len(),
{
    if mchips.len() > 0 {
        lemma_expand_runs(p, mchips.drop_last());
        lemma_run_chips_concat(p, expand_chips(mchips.drop_last()), held_chip(mchips.last()));
        let mid = run_chips(p, expand_chips(mchips.drop_last())).0;
        lemma_run_block_prefix(mid, mchips.last(), 8);
        assert(held_chip(mchips.last()).take(8) =~= held_chip(mchips.last()));
        let mpre = run_midbits(p.manchester, p.frame, mchips.drop_last());
        let pstate = PipelineState {
            last_sample: false,
            samples_since_edge: 0,
            manchester: mpre.0,
            frame: mpre.1,
        };
        assert(midbit_step(mid, mchips.last()).0.manchester == midbit_step(
            pstate,
            mchips.last(),
        ).0.manchester);
        let r = run_chips(p, expand_chips(mchips));
        let m = run_midbits(p.manchester, p.frame, mchips);
        assert(r.1 =~= m.2);
    }
}

/// The phase the decoder rests in while the second chip of a bit's pair is
/// pending.
pub open spec fn pending_phase(bit: bool) -> ManchesterState {
    if bit {
        ManchesterState::HighPhaseB
    } else {
        ManchesterState::LowPhaseB
    }
}

/// Decoding the Manchester pairs of a bit sequence that starts with a one
/// bit, from the rest phase: every bit but the last has been emitted into the
/// frame assembler, and the machine holds the last bit pending.
proof fn lemma_pairs_decode(reg: u64, bits: Seq<bool>)
    requires
        bits.len() >= 1,
        bits[0] == true,
    ensures
        ({
            let r = run_midbits(ManchesterState::LowPhaseA, reg, manchester_pairs(bits));
            let f = run_bits(reg, bits.drop_last());
            &&& r.0 == pending_phase(bits.last())
            &&& r.1 == f.0
            &&& r.2 == f.1
        }),
    decreases bits.len(),
{
    let pairs = manchester_pairs(bits);
    let b = bits.last();
    if bits.len() == 1 {
        reveal_with_fuel(run_midbits, 4);
        reveal_with_fuel(run_bits, 2);
        assert(manchester_pairs(bits.drop_last()) =~= Seq::<bool>::empty());
        assert(pairs =~= seq![!b, b]);
        assert(seq![!b, b].drop_last() =~= seq![!b]);
        assert(seq![!b].drop_last() =~= Seq::<bool>::empty());
        assert(bits.drop_last() =~= Seq::<bool>::empty());
        assert(run_midbits(ManchesterState::LowPhaseA, reg, pairs) == run_midbits(
            ManchesterState::LowPhaseA,
            reg,
            seq![!b, b],
        ));
        assert(run_midbits(ManchesterState::LowPhaseA, reg, seq![!b, b]).2 =~= Seq::<
            u64,
        >::empty());
    } else {
        reveal_with_fuel(run_midbits, 4);
        let head = bits.drop_last();
        lemma_pairs_decode(reg, head);
        lemma_run_midbits_concat(ManchesterState::LowPhaseA, reg, manchester_pairs(head), seq![
            !b,
            b,
        ]);
        assert(pairs =~= manchester_pairs(head) + seq![!b, b]);
        let rp = run_midbits(ManchesterState::LowPhaseA, reg, manchester_pairs(head));
        assert(seq![!b, b].drop_last() =~= seq![!b]);
        assert(seq![!b].drop_last() =~= Seq::<bool>::empty());
        let fpp = run_bits(reg, head.drop_last());
        let mid = run_midbits(rp.0, rp.1, seq![!b]);
        let tail = run_midbits(rp.0, rp.1, seq![!b, b]);
        let f = run_bits(reg, head);
        let d = dispatch_seq(frame_step(fpp.0, head.last()).1);
        assert(mid.2 =~= d);
        assert(tail.2 =~= d);
        assert(f.1 =~= fpp.1 + d);
        let r = run_midbits(ManchesterState::LowPhaseA, reg, pairs);
        assert(r.2 =~= f.1);
    }
}

/// With the flush chip appended, the whole bit sequence has run through the
/// frame assembler and the machine is back at rest.
proof fn lemma_encode_decodes(reg: u64, bits: Seq<bool>)
    requires
        bits.len() >= 1,
        bits[0] == true,
    ensures
        ({
            let r = run_midbits(
                ManchesterState::LowPhaseA,
                reg,
                manchester_pairs(bits).push(false),
            );
            let f = run_bits(reg, bits);
            &&& r.0 == ManchesterState::LowPhaseA
            &&& r.1 == f.0
            &&& r.2 == f.1
        }),
{
    reveal_with_fuel(run_midbits, 3);
    lemma_pairs_decode(reg, bits);
    lemma_run_midbits_concat(
        ManchesterState::LowPhaseA,
        reg,
        manchester_pairs(bits),
        seq![false],
    );
    assert(manchester_pairs(bits).push(false) =~= manchester_pairs(bits) + seq![false]);
    assert(seq![false].drop_last() =~= Seq::<bool>::empty());
    let rp = run_midbits(ManchesterState::LowPhaseA, reg, manchester_pairs(bits));
    let tail = run_midbits(rp.0, rp.1, seq![false]);
    let r = run_midbits(ManchesterState::LowPhaseA, reg, manchester_pairs(bits).push(false));
    let f = run_bits(reg, bits);
    assert(tail.2 =~= dispatch_seq(frame_step(run_bits(reg, bits.drop_last()).0, bits.last()).1));
    assert(r.2 =~= f.1);
}

/// The frame register while a sync-led payload is shifting in: after `j` of
/// its bits the register holds exactly those bits and nothing has been
/// dispatched, because the still-incomplete window cannot show the sync
/// pattern.
proof fn lemma_run_bits_prefix(payload: u64, j: int)
    requires
        payload & SYNC_MASK == SYNC_PATTERN,
        1 <= j <= 63,
    ensures
        run_bits(0, payload_bits(payload).take(j)).0 == payload >> ((64 - j) as u64),
        run_bits(0, payload_bits(payload).take(j)).1 == Seq::<u64>::empty(),
    decreases j,
{
    reveal_with_fuel(run_bits, 2);
    let bits = payload_bits(payload);
    assert(bits.take(j).drop_last() =~= bits.take(j - 1));
    assert(bits.take(j).last() == bits[j - 1]);
    let s = (64 - j) as u64;
    if j == 1 {
        assert(bits.take(0) =~= Seq::<bool>::empty());
        assert(run_bits(0, Seq::<bool>::empty()).0 == 0);
        assert((payload >> 63u64) & 1 == 1 && ((0u64 << 1u64) | 1u64) == payload >> 63u64 && (
        payload >> 63u64) & 0xFFFF_0000_0000_0000 != 0xFFFE_0000_0000_0000) by (bit_vector)
            requires
                payload & 0xFFFF_0000_0000_0000 == 0xFFFE_0000_0000_0000u64,
        ;
    } else {
        lemma_run_bits_prefix(payload, j - 1);
        let prev = run_bits(0, bits.take(j - 1)).0;
        let bitv = (payload >> s) & 1;
        assert(bitv == 0 || bitv == 1) by (bit_vector)
            requires
                bitv == (payload >> s) & 1,
        ;
        if bitv == 1 {
            assert(((payload >> ((s + 1) as u64)) << 1u64) | 1u64 == payload >> s && (payload
                >> s) & 0xFFFF_0000_0000_0000 != 0xFFFE_0000_0000_0000) by (bit_vector)
                requires
                    1 <= s <= 62u64,
                    (payload >> s) & 1 == 1u64,
            ;
        } else {
            assert(((payload >> ((s + 1) as u64)) << 1u64) | 0u64 == payload >> s && (payload
                >> s) & 0xFFFF_0000_0000_0000 != 0xFFFE_0000_0000_0000) by (bit_vector)
                requires
                    1 <= s <= 62u64,
                    (payload >> s) & 1 == 0u64,
            ;
        }
    }
}

/// A payload whose high bits are the sync pattern, shifted bit by bit into
/// an empty frame register, is dispatched exactly once, whole, at its final
/// bit, and the register is clean again afterwards.
pub proof fn lemma_frame_roundtrip(payload: u64)
    requires
        payload & SYNC_MASK == SYNC_PATTERN,
    ensures
        run_bits(0, payload_bits(payload)).0 == 0,
        run_bits(0, payload_bits(payload)).1 == seq![payload],
{
    reveal_with_fuel(run_bits, 2);
    let bits = payload_bits(payload);
    lemma_run_bits_prefix(payload, 63);
    assert(bits.take(64) =~= bits);
    assert(bits.take(64).drop_last() =~= bits.take(63));
    assert(bits.take(64).last() == bits[63]);
    let bitv = (payload >> 0u64) & 1;
    assert(bitv == 0 || bitv == 1) by (bit_vector)
        requires
            bitv == (payload >> 0u64) & 1,
    ;
    if bitv == 1 {
        assert(((payload >> 1u64) << 1u64) | 1u64 == payload) by (bit_vector)
            requires
                (payload >> 0u64) & 1 == 1u64,
        ;
    } else {
        assert(((payload >> 1u64) << 1u64) | 0u64 == payload) by (bit_vector)
            requires
                (payload >> 0u64) & 1 == 0u64,
        ;
    }
    assert((payload >> ((64 - 63) as u64)) == payload >> 1u64);
    assert(run_bits(0, bits).1 =~= seq![payload]);
}

/// The round trip of the digital stage: a synthetically Manchester-encoded
/// transmission of any payload whose high-order bits are the sync pattern,
/// run chip by chip through bit synchronization, Manchester decoding and
/// frame assembly from the start state, dispatches exactly that payload and
/// leaves the frame register clean.
pub proof fn lemma_round_trip(payload: u64)
    requires
        payload & SYNC_MASK == SYNC_PATTERN,
    ensures
        run_chips(pipeline_init(), encode_payload(payload)).1 == seq![payload],
        run_chips(pipeline_init(), encode_payload(payload)).0.frame == 0,
        run_chips(pipeline_init(), encode_payload(payload)).0.manchester
            == ManchesterState::LowPhaseA,
{
    let bits = payload_bits(payload);
    assert((payload >> 63u64) & 1 == 1) by (bit_vector)
        requires
            payload & 0xFFFF_0000_0000_0000 == 0xFFFE_0000_0000_0000u64,
    ;
    assert(bits[0] == true);
    lemma_expand_runs(pipeline_init(), manchester_pairs(bits).push(false));
    lemma_encode_decodes(0, bits);
    lemma_frame_roundtrip(payload);
}

} // verus!
