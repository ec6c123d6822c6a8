//! Playback decisions: which row plays next, what each row's cells do to the
//! four channels and to speed and tempo, and how each per-tick effect changes a
//! channel. The renderer drives these decisions tick by tick and mixes the
//! channels' sample data into PCM.
//!
//! Row-level commands (`C`, `D`, `B`, `F`) are decided once, when a row is
//! latched; per-tick effects (`0`, `1`, `2`, `3`, `4`, `A`) first change the
//! sounding state on tick 1.
pub mod effects;

use vstd::prelude::*;

use crate::parser::patterns::min_len;
use crate::parser::{Cell, Module, Sample, CHANNELS, PATTERN_BYTES, PATTERN_DATA_OFFSET};
use self::effects::arpeggio::{arpeggio_semitones, is_shifted_period, period_for_tick};
use self::effects::portamento::{clamp_int, slide_period, spec_slide_period, spec_tone_step, tone_portamento_step};
use self::effects::sequencing::{decode_pattern_break_row, decode_position_jump, spec_pattern_break_row};
use self::effects::vibrato::{period_offset_for_tick, spec_next_phase, spec_vibrato_offset};
use self::effects::volume::{spec_volume_slide, VOLUME_MAX};

verus! {

/// Ticks per row before any `F` effect.
pub const DEFAULT_SPEED: u32 = 6;

/// Tempo in BPM before any `F` effect.
pub const DEFAULT_BPM: u32 = 125;

/// The per-tick effect a channel runs during the current row.
#[derive(Clone, Copy, Debug, PartialEq, Eq, Structural)]
pub enum RowEffect {
    NoEffect,
    Arpeggio,
    Slide,
    TonePortamento,
    Vibrato,
    VolumeSlide,
}

/// The integer state of one playback channel.
#[derive(Clone, Copy, Debug)]
pub struct Channel {
    /// 0-based index of the sample playing, if any.
    pub sample_idx: Option<usize>,
    /// Volume, 0..=64.
    pub volume: u8,
    /// Whether the channel is sounding.
    pub playing: bool,
    /// Period set by the last note trigger; arpeggio and vibrato work from it.
    pub base_period: u16,
    /// Working period that slides and tone portamento change tick by tick.
    pub current_period: u16,
    /// This row's per-tick effect, latched when the row starts.
    pub row_effect: RowEffect,
    /// This row's effect parameter.
    pub row_param: u8,
    /// For `Slide`: the effect nibble (1 up, 2 down).
    pub slide_nibble: u8,
    /// Tone portamento's target period.
    pub tone_target: u16,
    /// Vibrato phase, carried across rows and note triggers.
    pub vibrato_phase: u8,
}

/// A channel's invariant: a sample index, when present, came from a sample
/// number (at most 255).
pub open spec fn channel_wf(ch: Channel) -> bool {
    ch.sample_idx matches Some(i) ==> i < 255
}

/// `ch` is silent with nothing latched: no sample, volume 0, every period,
/// parameter, target and phase 0.
pub open spec fn is_idle(ch: Channel) -> bool {
    &&& ch.sample_idx is None
    &&& ch.volume == 0
    &&& !ch.playing
    &&& ch.base_period == 0
    &&& ch.current_period == 0
    &&& ch.row_effect == RowEffect::NoEffect
    &&& ch.row_param == 0
    &&& ch.slide_nibble == 0
    &&& ch.tone_target == 0
    &&& ch.vibrato_phase == 0
}

impl Channel {
    /// A silent channel with nothing latched.
    pub fn idle() -> (ch: Channel)
        ensures
            ch.sample_idx is None,
            ch.volume == 0,
            !ch.playing,
            ch.base_period == 0,
            ch.current_period == 0,
            ch.row_effect == RowEffect::NoEffect,
            ch.row_param == 0,
            ch.slide_nibble == 0,
            ch.tone_target == 0,
            ch.vibrato_phase == 0,
    {
        Channel {
            sample_idx: None,
            volume: 0,
            playing: false,
            base_period: 0,
            current_period: 0,
            row_effect: RowEffect::NoEffect,
            row_param: 0,
            slide_nibble: 0,
            tone_target: 0,
            vibrato_phase: 0,
        }
    }
}

/// The channel after the effect part of `cell` is latched: the row effect is
/// cleared unless the cell names a per-tick effect, and `C` sets the volume.
pub open spec fn latch_effect(ch: Channel, cell: Cell) -> Channel {
    let cleared = Channel { row_effect: RowEffect::NoEffect, ..ch };
    if cell.effect == 0 && cell.param == 0 {
        cleared
    } else if cell.effect == 0 {
        Channel { row_effect: RowEffect::Arpeggio, row_param: cell.param, ..cleared }
    } else if cell.effect == 1 || cell.effect == 2 {
        Channel {
            row_effect: RowEffect::Slide,
            row_param: cell.param,
            slide_nibble: cell.effect,
            ..cleared
        }
    } else if cell.effect == 3 {
        Channel {
            row_effect: RowEffect::TonePortamento,
            row_param: cell.param,
            tone_target: if cell.period != 0 {
                cell.period
            } else {
                ch.tone_target
            },
            ..cleared
        }
    } else if cell.effect == 4 {
        Channel { row_effect: RowEffect::Vibrato, row_param: cell.param, ..cleared }
    } else if cell.effect == 0xA {
        Channel { row_effect: RowEffect::VolumeSlide, row_param: cell.param, ..cleared }
    } else if cell.effect == 0xC {
        Channel {
            volume: if cell.param <= VOLUME_MAX {
                cell.param
            } else {
                VOLUME_MAX
            },
            ..cleared
        }
    } else {
        cleared
    }
}

/// The 1-based sample number a note in `cell` would play: the cell's own, or
/// else the one the channel last played.
pub open spec fn trigger_instrument(ch: Channel, cell: Cell) -> Option<int> {
    if cell.sample != 0 {
        Some(cell.sample as int)
    } else {
        match ch.sample_idx {
            Some(i) => Some(i + 1),
            None => None,
        }
    }
}

/// `cell` starts a note on the channel: it has a period, is not tone
/// portamento (which glides instead), and names an existing, non-empty sample.
pub open spec fn triggers(ch: Channel, cell: Cell, samples: Seq<Sample>, pcm: Seq<Vec<i8>>) -> bool {
    &&& cell.period != 0
    &&& cell.effect != 3
    &&& match trigger_instrument(ch, cell) {
        Some(n) => 1 <= n <= samples.len() && pcm[n - 1]@.len() > 0,
        None => false,
    }
}

/// The channel after `cell` is latched at the start of a row. A triggered note
/// restarts the sample at the cell's period and the sample's volume, unless
/// the same cell's `C` sets the volume, which then stands; the vibrato phase is
/// left as it was.
pub open spec fn latch_cell(ch: Channel, cell: Cell, samples: Seq<Sample>, pcm: Seq<Vec<i8>>) -> Channel {
    let latched = latch_effect(ch, cell);
    if triggers(ch, cell, samples, pcm) {
        let n = trigger_instrument(ch, cell)->Some_0;
        Channel {
            sample_idx: Some((n - 1) as usize),
            base_period: cell.period,
            current_period: cell.period,
            volume: if cell.effect == 0xC {
                latched.volume
            } else {
                samples[n - 1].volume
            },
            playing: true,
            ..latched
        }
    } else {
        latched
    }
}

/// The row-level state that a row's cells change, in channel order.
pub struct RowCommands {
    pub speed: u32,
    pub bpm: u32,
    pub pattern_break: Option<u8>,
    pub position_jump: Option<u8>,
    /// Which effect nibbles have been reported as out of scope.
    pub warned: Seq<bool>,
    /// Nibbles newly reported on this row, in order.
    pub warn: Seq<u8>,
}

/// Effect nibbles outside the implemented set: `5`-`9` and `E`.
pub open spec fn out_of_scope_effect(effect: u8) -> bool {
    (5 <= effect <= 9) || effect == 0xE
}

/// The row-level effect of one cell: `F` sets speed (below `0x20`) or tempo,
/// where `F00` sets speed 0: a row then plays no ticks and playback moves on to
/// the next row as usual, so it never freezes on a row;
/// `D` records a pattern break to its BCD row, `B` a position jump, and an
/// out-of-scope nibble is reported the first time it is seen.
pub open spec fn apply_command(st: RowCommands, cell: Cell) -> RowCommands {
    if cell.effect == 0xF {
        if cell.param < 0x20 {
            RowCommands { speed: cell.param as u32, ..st }
        } else {
            RowCommands { bpm: cell.param as u32, ..st }
        }
    } else if cell.effect == 0xD {
        RowCommands { pattern_break: Some(spec_pattern_break_row(cell.param) as u8), ..st }
    } else if cell.effect == 0xB {
        RowCommands { position_jump: Some(cell.param), ..st }
    } else if out_of_scope_effect(cell.effect) && !st.warned[cell.effect as int] {
        RowCommands {
            warned: st.warned.update(cell.effect as int, true),
            warn: st.warn.push(cell.effect),
            ..st
        }
    } else {
        st
    }
}

/// The row-level state after the first `k` cells of `row`.
pub open spec fn apply_commands(st: RowCommands, row: Seq<Cell>, k: nat) -> RowCommands
    decreases k,
{
    if k == 0 {
        st
    } else {
        apply_command(apply_commands(st, row, (k - 1) as nat), row[k - 1])
    }
}

/// The number of order-table entries that play: the song length, at most the
/// table's size.
pub open spec fn song_len(m: Module) -> int {
    min_len(m.header.song_length as int, m.header.order@.len() as int)
}

/// Order slot `o`, row `r` exists: the slot is within the song, names a stored
/// pattern, and that pattern has row `r`.
pub open spec fn playable(m: Module, o: int, r: int) -> bool {
    &&& 0 <= o < song_len(m)
    &&& m.header.order@[o] < m.patterns@.len()
    &&& 0 <= r < m.patterns@[m.header.order@[o] as int]@.len()
}

/// The cells of row `r` of the pattern that order slot `o` names.
pub open spec fn row_at(m: Module, o: int, r: int) -> Seq<Cell> {
    m.patterns@[m.header.order@[o] as int]@[r]@
}

/// The first playable position at or after slot `o`, row `r`: slots naming a
/// missing pattern, and rows past a pattern's end, move on to row 0 of the next
/// slot. A position at or past the song's end is where the song ends.
pub open spec fn seek_pos(m: Module, o: int, r: int) -> (int, int)
    decreases song_len(m) - o,
{
    if o < 0 || o >= song_len(m) || playable(m, o, r) {
        (o, r)
    } else {
        seek_pos(m, o + 1, 0)
    }
}

/// Where playback goes after row `r` of slot `o`, a pattern of `pattern_len`
/// rows: a `B` jump picks the slot (bounded by the order table) and a
/// co-occurring `D` the row within it; a lone `D` breaks to its row of the next
/// slot; otherwise the next row, or row 0 of the next slot after the last row.
pub open spec fn next_position(
    o: int,
    r: int,
    pattern_len: int,
    position_jump: Option<u8>,
    pattern_break: Option<u8>,
    order_table_len: int,
) -> (int, int) {
    match position_jump {
        Some(slot) => (
            if slot <= order_table_len - 1 {
                slot as int
            } else {
                order_table_len - 1
            },
            match pattern_break {
                Some(b) => b as int,
                None => 0,
            },
        ),
        None => match pattern_break {
            Some(b) => (o + 1, b as int),
            None => if r + 1 >= pattern_len {
                (o + 1, 0)
            } else {
                (o, r + 1)
            },
        },
    }
}

/// What the cells of one row did, for the renderer to act on.
pub struct RowEvents {
    /// Per channel: a note was triggered, so the sample restarts.
    pub triggered: Vec<bool>,
    /// Effect nibbles out of scope, newly seen on this row.
    pub warn: Vec<u8>,
    /// A `D` on this row: the row to break to.
    pub pattern_break: Option<u8>,
    /// A `B` on this row: the order slot to jump to.
    pub position_jump: Option<u8>,
}

/// Song position, timing and channel state of a playback.
pub struct Player {
    pub channels: Vec<Channel>,
    /// Ticks per row.
    pub speed: u32,
    /// Tempo in BPM.
    pub bpm: u32,
    /// Current order-table slot.
    pub order_idx: usize,
    /// Current row within the slot's pattern.
    pub row_idx: usize,
    /// Which effect nibbles have been reported as out of scope.
    pub warned: Vec<bool>,
}

impl Player {
    /// Four well-formed channels and one flag per effect nibble.
    pub open spec fn wf(&self) -> bool {
        &&& self.channels@.len() == CHANNELS
        &&& self.warned@.len() == 16
        &&& forall|c: int| 0 <= c < 4 ==> channel_wf(#[trigger] self.channels@[c])
    }

    /// The row-level state before this player's current row is latched.
    pub open spec fn commands(&self) -> RowCommands {
        RowCommands {
            speed: self.speed,
            bpm: self.bpm,
            pattern_break: None,
            position_jump: None,
            warned: self.warned@,
            warn: Seq::empty(),
        }
    }

    /// A player at the start of the song: speed 6, 125 BPM, idle channels.
    pub fn new() -> (p: Player)
        ensures
            p.wf(),
            p.speed == DEFAULT_SPEED,
            p.bpm == DEFAULT_BPM,
            p.order_idx == 0,
            p.row_idx == 0,
            forall|c: int| 0 <= c < 4 ==> is_idle(#[trigger] p.channels@[c]),
            forall|i: int| 0 <= i < 16 ==> !(#[trigger] p.warned@[i]),
    {
        let mut channels: Vec<Channel> = Vec::new();
        let mut i: usize = 0;
        while i < CHANNELS
            invariant
                i <= 4,
                channels@.len() == i,
                forall|c: int| 0 <= c < i ==> channel_wf(#[trigger] channels@[c]),
                forall|c: int| 0 <= c < i ==> is_idle(#[trigger] channels@[c]),
            decreases 4 - i,
        {
            channels.push(Channel::idle());
            i = i + 1;
        }
        let mut warned: Vec<bool> = Vec::new();
        let mut j: usize = 0;
        while j < 16
            invariant
                j <= 16,
                warned@.len() == j,
                forall|k: int| 0 <= k < j ==> !(#[trigger] warned@[k]),
            decreases 16 - j,
        {
            warned.push(false);
            j = j + 1;
        }
        Player {
            channels,
            speed: DEFAULT_SPEED,
            bpm: DEFAULT_BPM,
            order_idx: 0,
            row_idx: 0,
            warned,
        }
    }

    /// Moves to the first playable position at or after the current one and
    /// says whether there is one (`false`: the song has ended).
    pub fn seek(&mut self, module: &Module) -> (found: bool)
        requires
            old(self).wf(),
        ensures
            final(self).wf(),
            (final(self).order_idx as int, final(self).row_idx as int) == seek_pos(
                *module,
                old(self).order_idx as int,
                old(self).row_idx as int,
            ),
            found == playable(*module, final(self).order_idx as int, final(self).row_idx as int),
            final(self).channels == old(self).channels,
            final(self).speed == old(self).speed,
            final(self).bpm == old(self).bpm,
            final(self).warned == old(self).warned,
    {
        let end: usize = if (module.header.song_length as usize) < module.header.order.len() {
            module.header.song_length as usize
        } else {
            module.header.order.len()
        };
        while self.order_idx < end
            invariant
                self.wf(),
                end == song_len(*module),
                seek_pos(*module, self.order_idx as int, self.row_idx as int) == seek_pos(
                    *module,
                    old(self).order_idx as int,
                    old(self).row_idx as int,
                ),
                self.channels == old(self).channels,
                self.speed == old(self).speed,
                self.bpm == old(self).bpm,
                self.warned == old(self).warned,
            decreases end - self.order_idx,
        {
            let block = module.header.order[self.order_idx] as usize;
            if block < module.patterns.len() && self.row_idx < module.patterns[block].len() {
                return true;
            }
            self.order_idx = self.order_idx + 1;
            self.row_idx = 0;
        }
        false
    }

    /// Latches the cells of the current row into the channels and the
    /// row-level state, and reports what happened.
    pub fn latch_row(&mut self, module: &Module, pcm: &Vec<Vec<i8>>) -> (ev: RowEvents)
        requires
            old(self).wf(),
            playable(*module, old(self).order_idx as int, old(self).row_idx as int),
            pcm@.len() >= module.samples@.len(),
            forall|c: int|
                0 <= c < 4 ==> (#[trigger] row_at(
                    *module,
                    old(self).order_idx as int,
                    old(self).row_idx as int,
                )[c]).effect < 16,
        ensures
            final(self).wf(),
            ({
                let row = row_at(*module, old(self).order_idx as int, old(self).row_idx as int);
                let cmds = apply_commands(old(self).commands(), row, 4);
                &&& forall|c: int|
                    0 <= c < 4 ==> #[trigger] final(self).channels@[c] == latch_cell(
                        old(self).channels@[c],
                        row[c],
                        module.samples@,
                        pcm@,
                    )
                &&& ev.triggered@.len() == 4
                &&& forall|c: int|
                    0 <= c < 4 ==> #[trigger] ev.triggered@[c] == triggers(
                        old(self).channels@[c],
                        row[c],
                        module.samples@,
                        pcm@,
                    )
                &&& final(self).speed == cmds.speed
                &&& final(self).bpm == cmds.bpm
                &&& ev.pattern_break == cmds.pattern_break
                &&& ev.position_jump == cmds.position_jump
                &&& final(self).warned@ == cmds.warned
                &&& ev.warn@ == cmds.warn
            }),
            final(self).order_idx == old(self).order_idx,
            final(self).row_idx == old(self).row_idx,
    {
        let block = module.header.order[self.order_idx] as usize;
        let row: [Cell; CHANNELS] = module.patterns[block][self.row_idx];
        let ghost old_channels = self.channels@;
        let ghost start = self.commands();
        let mut triggered: Vec<bool> = Vec::new();
        let mut warn: Vec<u8> = Vec::new();
        let mut pattern_break: Option<u8> = None;
        let mut position_jump: Option<u8> = None;
        let mut c: usize = 0;
        while c < CHANNELS
            invariant
                c <= 4,
                self.wf(),
                self.order_idx == old(self).order_idx,
                self.row_idx == old(self).row_idx,
                old_channels == old(self).channels@,
                start == old(self).commands(),
                row@ == row_at(*module, old(self).order_idx as int, old(self).row_idx as int),
                pcm@.len() >= module.samples@.len(),
                forall|k: int| 0 <= k < 4 ==> (#[trigger] row@[k]).effect < 16,
                triggered@.len() == c,
                forall|k: int|
                    0 <= k < c ==> #[trigger] self.channels@[k] == latch_cell(
                        old_channels[k],
                        row@[k],
                        module.samples@,
                        pcm@,
                    ),
                forall|k: int|
                    c <= k < 4 ==> #[trigger] self.channels@[k] == old_channels[k],
                forall|k: int|
                    0 <= k < c ==> #[trigger] triggered@[k] == triggers(
                        old_channels[k],
                        row@[k],
                        module.samples@,
                        pcm@,
                    ),
                ({
                    let cmds = apply_commands(start, row@, c as nat);
                    &&& self.speed == cmds.speed
                    &&& self.bpm == cmds.bpm
                    &&& pattern_break == cmds.pattern_break
                    &&& position_jump == cmds.position_jump
                    &&& self.warned@ == cmds.warned
                    &&& warn@ == cmds.warn
                }),
            decreases 4 - c,
        {
            let cell = row[c];
            let mut ch = self.channels[c];
            let fired = latch_channel(&mut ch, cell, &module.samples, pcm);
            let ghost before = self.channels@;
            self.channels.set(c, ch);
            triggered.push(fired);
            proof {
                assert forall|k: int| 0 <= k < 4 implies channel_wf(#[trigger] self.channels@[k]) by {
                    if k != c {
                        assert(self.channels@[k] == before[k]);
                    }
                }
            }
            // Row-level commands.
            let effect = cell.effect;
            if effect == 0xF {
                if cell.param < 0x20 {
                    self.speed = cell.param as u32;
                } else {
                    self.bpm = cell.param as u32;
                }
            } else if effect == 0xD {
                pattern_break = Some(decode_pattern_break_row(cell.param));
            } else if effect == 0xB {
                position_jump = Some(decode_position_jump(cell.param));
            } else if ((5 <= effect && effect <= 9) || effect == 0xE) && !self.warned[effect as usize] {
                self.warned.set(effect as usize, true);
                warn.push(effect);
            }
            c = c + 1;
        }
        RowEvents { triggered, warn, pattern_break, position_jump }
    }

    /// Runs tick `tick` (1 or later) of the current row on every sounding
    /// channel and returns each channel's period for the tick: the period to
    /// resample at, or 0 where the channel is silent or its period is 0.
    pub fn advance_tick(&mut self, tick: u32) -> (periods: Vec<u16>)
        requires
            old(self).wf(),
        ensures
            final(self).wf(),
            periods@.len() == 4,
            forall|c: int|
                0 <= c < 4 ==> #[trigger] channel_tick(
                    old(self).channels@[c],
                    tick,
                    final(self).channels@[c],
                    periods@[c] as int,
                ),
            final(self).speed == old(self).speed,
            final(self).bpm == old(self).bpm,
            final(self).order_idx == old(self).order_idx,
            final(self).row_idx == old(self).row_idx,
            final(self).warned == old(self).warned,
    {
        let ghost old_channels = self.channels@;
        let mut periods: Vec<u16> = Vec::new();
        let mut c: usize = 0;
        while c < CHANNELS
            invariant
                c <= 4,
                self.wf(),
                old_channels == old(self).channels@,
                self.speed == old(self).speed,
                self.bpm == old(self).bpm,
                self.order_idx == old(self).order_idx,
                self.row_idx == old(self).row_idx,
                self.warned == old(self).warned,
                periods@.len() == c,
                forall|k: int|
                    0 <= k < c ==> #[trigger] channel_tick(
                        old_channels[k],
                        tick,
                        self.channels@[k],
                        periods@[k] as int,
                    ),
                forall|k: int| c <= k < 4 ==> #[trigger] self.channels@[k] == old_channels[k],
            decreases 4 - c,
        {
            let mut ch = self.channels[c];
            if ch.playing {
                let p = tick_channel(&mut ch, tick);
                let ghost before = self.channels@;
                self.channels.set(c, ch);
                periods.push(p);
                proof {
                    assert(channel_tick(old_channels[c as int], tick, self.channels@[c as int], periods@[c as int] as int));
                    assert forall|k: int| 0 <= k < c + 1 implies #[trigger] channel_tick(
                        old_channels[k],
                        tick,
                        self.channels@[k],
                        periods@[k] as int,
                    ) by {
                        if k < c {
                            assert(self.channels@[k] == before[k]);
                        }
                    }
                    assert forall|k: int| 0 <= k < 4 implies channel_wf(#[trigger] self.channels@[k]) by {
                        if k != c {
                            assert(self.channels@[k] == before[k]);
                        }
                    }
                }
            } else {
                periods.push(0);
                proof {
                    assert(channel_tick(old_channels[c as int], tick, self.channels@[c as int], periods@[c as int] as int));
                }
            }
            c = c + 1;
        }
        periods
    }

    /// Moves past the current row, honouring the row's `D` and `B`.
    pub fn finish_row(&mut self, module: &Module, ev: &RowEvents)
        requires
            old(self).wf(),
            playable(*module, old(self).order_idx as int, old(self).row_idx as int),
        ensures
            final(self).wf(),
            (final(self).order_idx as int, final(self).row_idx as int) == next_position(
                old(self).order_idx as int,
                old(self).row_idx as int,
                module.patterns@[module.header.order@[old(self).order_idx as int] as int]@.len() as int,
                ev.position_jump,
                ev.pattern_break,
                module.header.order@.len() as int,
            ),
            final(self).channels == old(self).channels,
            final(self).speed == old(self).speed,
            final(self).bpm == old(self).bpm,
            final(self).warned == old(self).warned,
    {
        let block = module.header.order[self.order_idx] as usize;
        let pattern_len = module.patterns[block].len();
        let order_table_len = module.header.order.len();
        match ev.position_jump {
            Some(slot) => {
                let last = order_table_len - 1;
                self.order_idx = if (slot as usize) <= last {
                    slot as usize
                } else {
                    last
                };
                self.row_idx = match ev.pattern_break {
                    Some(b) => b as usize,
                    None => 0,
                };
            },
            None => match ev.pattern_break {
                Some(b) => {
                    self.order_idx = self.order_idx + 1;
                    self.row_idx = b as usize;
                },
                None => {
                    if self.row_idx + 1 >= pattern_len {
                        self.order_idx = self.order_idx + 1;
                        self.row_idx = 0;
                    } else {
                        self.row_idx = self.row_idx + 1;
                    }
                },
            },
        }
    }
}

/// Latches `cell` into one channel; returns whether a note was triggered.
fn latch_channel(ch: &mut Channel, cell: Cell, samples: &Vec<Sample>, pcm: &Vec<Vec<i8>>) -> (fired: bool)
    requires
        channel_wf(*old(ch)),
        pcm@.len() >= samples@.len(),
    ensures
        channel_wf(*final(ch)),
        *final(ch) == latch_cell(*old(ch), cell, samples@, pcm@),
        fired == triggers(*old(ch), cell, samples@, pcm@),
{
    ch.row_effect = RowEffect::NoEffect;
    if cell.effect == 0x0 && cell.param == 0 {
    } else if cell.effect == 0x0 {
        ch.row_effect = RowEffect::Arpeggio;
        ch.row_param = cell.param;
    } else if cell.effect == 0x1 || cell.effect == 0x2 {
        ch.row_effect = RowEffect::Slide;
        ch.row_param = cell.param;
        ch.slide_nibble = cell.effect;
    } else if cell.effect == 0x3 {
        ch.row_effect = RowEffect::TonePortamento;
        ch.row_param = cell.param;
        if cell.period != 0 {
            ch.tone_target = cell.period;
        }
    } else if cell.effect == 0x4 {
        ch.row_effect = RowEffect::Vibrato;
        ch.row_param = cell.param;
    } else if cell.effect == 0xA {
        ch.row_effect = RowEffect::VolumeSlide;
        ch.row_param = cell.param;
    } else if cell.effect == 0xC {
        ch.volume = effects::volume::set(cell.param);
    }
    if cell.period != 0 && cell.effect != 0x3 {
        let instrument: Option<usize> = if cell.sample != 0 {
            Some(cell.sample as usize)
        } else {
            match ch.sample_idx {
                Some(i) => Some(i + 1),
                None => None,
            }
        };
        if let Some(instr) = instrument {
            if instr >= 1 && instr <= samples.len() && pcm[instr - 1].len() > 0 {
                ch.sample_idx = Some(instr - 1);
                ch.base_period = cell.period;
                ch.current_period = cell.period;
                if cell.effect != 0xC {
                    ch.volume = samples[instr - 1].volume;
                }
                ch.playing = true;
                return true;
            }
        }
    }
    false
}

/// The channel `new` and period `period` are what tick `tick` of the row
/// makes of channel `ch`, for its latched per-tick effect.
pub open spec fn tick_result(ch: Channel, tick: u32, new: Channel, period: int) -> bool {
    match ch.row_effect {
        RowEffect::NoEffect => new == ch && period == ch.current_period,
        RowEffect::Arpeggio => new == ch && is_shifted_period(
            ch.base_period as int,
            arpeggio_semitones(ch.row_param, tick),
            period,
        ),
        RowEffect::Slide => {
            let p = spec_slide_period(ch.current_period, ch.row_param, ch.slide_nibble);
            new == Channel { current_period: p as u16, ..ch } && period == p
        },
        RowEffect::TonePortamento => {
            let p = spec_tone_step(ch.current_period as int, ch.tone_target as int, ch.row_param as int);
            new == Channel { current_period: p as u16, ..ch } && period == p
        },
        RowEffect::Vibrato => {
            let phase = spec_next_phase(ch.row_param, ch.vibrato_phase);
            new == Channel { vibrato_phase: phase as u8, ..ch } && period == clamp_int(
                ch.base_period + spec_vibrato_offset(ch.row_param, phase),
                1,
                0xFFFF,
            )
        },
        RowEffect::VolumeSlide => new == Channel {
            volume: spec_volume_slide(ch.volume, ch.row_param) as u8,
            ..ch
        } && period == ch.current_period,
    }
}

/// One tick of one channel: a sounding channel runs its per-tick effect, a
/// silent one is left alone and reports period 0.
pub open spec fn channel_tick(ch: Channel, tick: u32, new: Channel, period: int) -> bool {
    if ch.playing {
        tick_result(ch, tick, new, period)
    } else {
        new == ch && period == 0
    }
}

/// Runs one tick (1 or later) of the channel's latched per-tick effect and
/// returns the period it sounds at.
pub fn tick_channel(ch: &mut Channel, tick: u32) -> (period: u16)
    requires
        channel_wf(*old(ch)),
    ensures
        channel_wf(*final(ch)),
        tick_result(*old(ch), tick, *final(ch), period as int),
{
    match ch.row_effect {
        RowEffect::NoEffect => ch.current_period,
        RowEffect::Arpeggio => period_for_tick(ch.base_period, ch.row_param, tick),
        RowEffect::Slide => {
            ch.current_period = slide_period(ch.current_period, ch.row_param, ch.slide_nibble);
            ch.current_period
        },
        RowEffect::TonePortamento => {
            ch.current_period = tone_portamento_step(ch.current_period, ch.tone_target, ch.row_param);
            ch.current_period
        },
        RowEffect::Vibrato => {
            let param = ch.row_param;
            let offset = period_offset_for_tick(param, &mut ch.vibrato_phase);
            let p: i32 = ch.base_period as i32 + offset as i32;
            if p < 1 {
                1
            } else if p > 0xFFFF {
                0xFFFF
            } else {
                p as u16
            }
        },
        RowEffect::VolumeSlide => {
            ch.volume = effects::volume::slide(ch.volume, ch.row_param);
            ch.current_period
        },
    }
}

/// Byte offset in the file of sample `i`'s PCM data: sample data follows the
/// last pattern block, one sample after another in header order.
pub open spec fn pcm_offset(m: Module, i: int) -> int
    decreases i,
{
    if i <= 0 {
        1084 + 1024 * (m.patterns@.len() as int)
    } else {
        pcm_offset(m, i - 1) + m.samples@[i - 1].length_bytes
    }
}

/// The signed 8-bit PCM value stored as byte `b`.
pub open spec fn sample_value(b: u8) -> i8 {
    if b < 128 {
        b as i8
    } else {
        (b - 256) as i8
    }
}

/// The PCM data of a sample `len` bytes long stored at `off`, cut short where
/// the file ends.
pub open spec fn pcm_at(bytes: Seq<u8>, off: int, len: int) -> Seq<i8> {
    let start = min_len(off, bytes.len() as int);
    let end = min_len(off + len, bytes.len() as int);
    bytes.subrange(start, end).map_values(|b: u8| sample_value(b))
}

proof fn lemma_pcm_offset_monotone(m: Module, i: int, j: int)
    requires
        0 <= i <= j,
    ensures
        pcm_offset(m, i) <= pcm_offset(m, j),
    decreases j - i,
{
    if i < j {
        lemma_pcm_offset_monotone(m, i, j - 1);
    }
}

/// Copies every sample's signed 8-bit PCM data out of the module file.
pub fn extract_pcm(bytes: &[u8], module: &Module) -> (pcm: Vec<Vec<i8>>)
    requires
        pcm_offset(*module, module.samples@.len() as int) <= usize::MAX,
    ensures
        pcm@.len() == module.samples@.len(),
        forall|i: int|
            0 <= i < pcm@.len() ==> (#[trigger] pcm@[i])@ == pcm_at(
                bytes@,
                pcm_offset(*module, i),
                module.samples@[i].length_bytes as int,
            ),
{
    let n = module.samples.len();
    proof {
        lemma_pcm_offset_monotone(*module, 0, n as int);
    }
    let mut offset: usize = PATTERN_DATA_OFFSET + module.patterns.len() * PATTERN_BYTES;
    let mut pcm: Vec<Vec<i8>> = Vec::new();
    let mut i: usize = 0;
    while i < n
        invariant
            n == module.samples@.len(),
            i <= n,
            offset == pcm_offset(*module, i as int),
            pcm_offset(*module, n as int) <= usize::MAX,
            pcm@.len() == i,
            forall|k: int|
                0 <= k < i ==> (#[trigger] pcm@[k])@ == pcm_at(
                    bytes@,
                    pcm_offset(*module, k),
                    module.samples@[k].length_bytes as int,
                ),
        decreases n - i,
    {
        proof {
            lemma_pcm_offset_monotone(*module, i + 1, n as int);
        }
        let len = module.samples[i].length_bytes as usize;
        let start = if offset < bytes.len() {
            offset
        } else {
            bytes.len()
        };
        let end = if offset + len < bytes.len() {
            offset + len
        } else {
            bytes.len()
        };
        let mut data: Vec<i8> = Vec::new();
        let mut k = start;
        while k < end
            invariant
                start <= k <= end <= bytes@.len(),
                data@ == bytes@.subrange(start as int, k as int).map_values(|b: u8| sample_value(b)),
            decreases end - k,
        {
            let b = bytes[k];
            let v: i8 = if b < 128 {
                b as i8
            } else {
                (b as i16 - 256) as i8
            };
            data.push(v);
            proof {
                assert(bytes@.subrange(start as int, k + 1).map_values(|b: u8| sample_value(b)) =~= bytes@.subrange(
                    start as int,
                    k as int,
                ).map_values(|b: u8| sample_value(b)).push(sample_value(b)));
            }
            k = k + 1;
        }
        pcm.push(data);
        offset = offset + len;
        i = i + 1;
    }
    pcm
}

/// A note trigger does not reset the vibrato phase: latching a row never
/// changes it, so vibrato continues across a retriggered note.
pub proof fn lemma_latch_keeps_vibrato_phase(ch: Channel, cell: Cell, samples: Seq<Sample>, pcm: Seq<Vec<i8>>)
    ensures
        latch_cell(ch, cell, samples, pcm).vibrato_phase == ch.vibrato_phase,
{
}

/// A per-tick effect never carries into a row that does not name one: after
/// latching a cell without `0xy` (nonzero), `1`, `2`, `3`, `4` or `A`, the
/// channel runs no per-tick effect.
pub proof fn lemma_effect_latch_is_per_row(ch: Channel, cell: Cell, samples: Seq<Sample>, pcm: Seq<Vec<i8>>)
    requires
        !(cell.effect == 0 && cell.param != 0),
        cell.effect != 1,
        cell.effect != 2,
        cell.effect != 3,
        cell.effect != 4,
        cell.effect != 0xA,
    ensures
        latch_cell(ch, cell, samples, pcm).row_effect == RowEffect::NoEffect,
{
}

/// Tick 0 plays the plain note: latching a row changes the working period only
/// through a note trigger, which sets it to the cell's period.
pub proof fn lemma_tick_zero_is_plain_note(ch: Channel, cell: Cell, samples: Seq<Sample>, pcm: Seq<Vec<i8>>)
    ensures
        latch_cell(ch, cell, samples, pcm).current_period == if triggers(ch, cell, samples, pcm) {
            cell.period
        } else {
            ch.current_period
        },
        latch_cell(ch, cell, samples, pcm).base_period == if triggers(ch, cell, samples, pcm) {
            cell.period
        } else {
            ch.base_period
        },
{
}

/// Tone portamento glides without restarting the sample: a `3xx` cell never
/// triggers a note.
pub proof fn lemma_tone_portamento_does_not_retrigger(ch: Channel, cell: Cell, samples: Seq<Sample>, pcm: Seq<Vec<i8>>)
    requires
        cell.effect == 3,
    ensures
        !triggers(ch, cell, samples, pcm),
        latch_cell(ch, cell, samples, pcm).tone_target == if cell.period != 0 {
            cell.period
        } else {
            ch.tone_target
        },
{
}

/// The index of the last cell among the first `k` of `row` with effect
/// `effect`, or -1.
pub open spec fn last_with_effect(row: Seq<Cell>, k: int, effect: u8) -> int
    decreases k,
{
    if k <= 0 {
        -1
    } else if row[k - 1].effect == effect {
        k - 1
    } else {
        last_with_effect(row, k - 1, effect)
    }
}

/// When several channels carry `B` or `D`, the last one of each wins: the
/// row's jump is the parameter of its last `B`, its break the BCD row of its
/// last `D`; speed and tempo likewise come from its last `F` on each side of
/// `0x20`.
pub proof fn lemma_row_commands_last_wins(st: RowCommands, row: Seq<Cell>, k: nat)
    requires
        k <= row.len(),
        st.warned.len() == 16,
        forall|i: int| 0 <= i < k ==> (#[trigger] row[i]).effect < 16,
    ensures
        ({
            let r = apply_commands(st, row, k);
            let jb = last_with_effect(row, k as int, 0xB);
            let jd = last_with_effect(row, k as int, 0xD);
            &&& r.position_jump == if jb < 0 {
                st.position_jump
            } else {
                Some(row[jb].param)
            }
            &&& r.pattern_break == if jd < 0 {
                st.pattern_break
            } else {
                Some(spec_pattern_break_row(row[jd].param) as u8)
            }
            &&& r.warned.len() == 16
        }),
    decreases k,
{
    if k > 0 {
        lemma_row_commands_last_wins(st, row, (k - 1) as nat);
    }
}

/// Out-of-scope effects are reported once each: every nibble reported on a
/// row was not reported before, is marked reported afterwards, and marks only
/// grow.
pub proof fn lemma_warnings_reported_once(st: RowCommands, row: Seq<Cell>, k: nat)
    requires
        k <= row.len(),
        st.warned.len() == 16,
        st.warn.len() == 0,
        forall|i: int| 0 <= i < k ==> (#[trigger] row[i]).effect < 16,
    ensures
        ({
            let r = apply_commands(st, row, k);
            &&& r.warned.len() == 16
            &&& forall|n: int| 0 <= n < 16 && st.warned[n] ==> #[trigger] r.warned[n]
            &&& forall|j: int|
                0 <= j < r.warn.len() ==> r.warn[j] < 16 && !st.warned[r.warn[j] as int]
                    && r.warned[#[trigger] r.warn[j] as int]
            &&& forall|i: int, j: int|
                0 <= i < j < r.warn.len() ==> #[trigger] r.warn[i] != #[trigger] r.warn[j]
        }),
    decreases k,
{
    if k > 0 {
        lemma_warnings_reported_once(st, row, (k - 1) as nat);
        let prev = apply_commands(st, row, (k - 1) as nat);
        let r = apply_commands(st, row, k);
        let cell = row[k - 1];
        if out_of_scope_effect(cell.effect) && !prev.warned[cell.effect as int] && cell.effect != 0xF
            && cell.effect != 0xD && cell.effect != 0xB {
            assert forall|j: int| 0 <= j < prev.warn.len() implies #[trigger] prev.warn[j] != cell.effect by {
                assert(prev.warned[prev.warn[j] as int]);
            }
        }
    }
}

/// `C` on a row that also triggers a note sets the volume: the cell's `C`
/// value, clamped to 64, is what the channel plays at.
pub proof fn lemma_set_volume_wins_over_trigger(ch: Channel, cell: Cell, samples: Seq<Sample>, pcm: Seq<Vec<i8>>)
    requires
        cell.effect == 0xC,
    ensures
        latch_cell(ch, cell, samples, pcm).volume == if cell.param <= VOLUME_MAX {
            cell.param
        } else {
            VOLUME_MAX
        },
{
}

/// Without a `B` jump, finishing a row always moves playback forward: to a
/// later row of the same slot or to a later slot. So a song without `B` ends,
/// whatever its speed (`F00` included).
pub proof fn lemma_row_step_moves_forward(
    o: int,
    r: int,
    pattern_len: int,
    pattern_break: Option<u8>,
    order_table_len: int,
)
    ensures
        ({
            let (o2, r2) = next_position(o, r, pattern_len, None, pattern_break, order_table_len);
            o2 > o || (o2 == o && r2 > r)
        }),
{
}

/// A note written without a sample number replays the channel's last sample:
/// when the cell has a period, sample number 0 and no tone portamento, and the
/// channel last played sample index `i` (non-empty), latching the cell
/// triggers sample `i` at the cell's period.
pub proof fn lemma_note_without_sample_reuses_last_sample(
    ch: Channel,
    cell: Cell,
    samples: Seq<Sample>,
    pcm: Seq<Vec<i8>>,
    i: usize,
)
    requires
        cell.period != 0,
        cell.sample == 0,
        cell.effect != 3,
        ch.sample_idx == Some(i),
        i < samples.len(),
        pcm[i as int]@.len() > 0,
    ensures
        trigger_instrument(ch, cell) == Some(i + 1),
        triggers(ch, cell, samples, pcm),
        latch_cell(ch, cell, samples, pcm).sample_idx == Some(i),
        latch_cell(ch, cell, samples, pcm).base_period == cell.period,
        latch_cell(ch, cell, samples, pcm).current_period == cell.period,
        latch_cell(ch, cell, samples, pcm).playing,
{
}

/// A note with a sample number plays that sample (1-based) when it exists and
/// is non-empty, whatever the channel played before.
pub proof fn lemma_note_with_sample_plays_it(ch: Channel, cell: Cell, samples: Seq<Sample>, pcm: Seq<Vec<i8>>)
    requires
        cell.period != 0,
        cell.sample != 0,
        cell.effect != 3,
        cell.sample <= samples.len(),
        pcm[cell.sample - 1]@.len() > 0,
    ensures
        triggers(ch, cell, samples, pcm),
        latch_cell(ch, cell, samples, pcm).sample_idx == Some((cell.sample - 1) as usize),
        latch_cell(ch, cell, samples, pcm).base_period == cell.period,
{
}

/// The sum of the lengths of the first `k` samples.
pub open spec fn total_length(samples: Seq<Sample>, k: int) -> int
    decreases k,
{
    if k <= 0 {
        0
    } else {
        total_length(samples, k - 1) + samples[k - 1].length_bytes
    }
}

/// Sample data is laid out back to back after the pattern blocks: sample `k`
/// starts after all pattern blocks and all preceding samples' data.
pub proof fn lemma_pcm_offset_closed_form(m: Module, k: int)
    requires
        0 <= k <= m.samples@.len(),
    ensures
        pcm_offset(m, k) == 1084 + 1024 * (m.patterns@.len() as int) + total_length(m.samples@, k),
    decreases k,
{
    if k > 0 {
        lemma_pcm_offset_closed_form(m, k - 1);
    }
}

/// The PCM data of the first `k` samples, one after another.
pub open spec fn pcm_prefix(bytes: Seq<u8>, m: Module, k: int) -> Seq<i8>
    decreases k,
{
    if k <= 0 {
        Seq::empty()
    } else {
        pcm_prefix(bytes, m, k - 1) + pcm_at(bytes, pcm_offset(m, k - 1), m.samples@[k - 1].length_bytes as int)
    }
}

/// When the file holds the sample data of the first `k` samples, their PCM,
/// read one after another, is exactly the file's bytes from the end of the
/// pattern data up to the end of sample `k - 1`: no byte is skipped or read
/// twice.
pub proof fn lemma_pcm_partitions_sample_pool(bytes: Seq<u8>, m: Module, k: int)
    requires
        0 <= k <= m.samples@.len(),
        pcm_offset(m, k) <= bytes.len(),
    ensures
        pcm_prefix(bytes, m, k) == bytes.subrange(pcm_offset(m, 0), pcm_offset(m, k)).map_values(
            |b: u8| sample_value(b),
        ),
    decreases k,
{
    let base = pcm_offset(m, 0);
    if k == 0 {
        assert(bytes.subrange(base, base).map_values(|b: u8| sample_value(b)) =~= Seq::<i8>::empty());
    } else {
        lemma_pcm_offset_monotone(m, k - 1, k);
        lemma_pcm_offset_monotone(m, 0, k - 1);
        lemma_pcm_partitions_sample_pool(bytes, m, k - 1);
        let a = pcm_offset(m, k - 1);
        let e = pcm_offset(m, k);
        assert(e == a + m.samples@[k - 1].length_bytes);
        assert(bytes.subrange(base, e).map_values(|b: u8| sample_value(b)) =~= bytes.subrange(base, a).map_values(
            |b: u8| sample_value(b),
        ) + bytes.subrange(a, e).map_values(|b: u8| sample_value(b)));
    }
}

} // verus!
