//! Playback-decision tests on modules built as values.
use modmill::engine::{Player, RowEffect};
use modmill::parser::{Cell, Header, Module, Sample};

fn empty() -> Cell {
    Cell { sample: 0, period: 0, effect: 0, param: 0 }
}

fn sample(volume: u8, length: u32) -> Sample {
    Sample {
        name: "s".to_string(),
        length_bytes: length,
        finetune: 0,
        volume,
        loop_start_bytes: 0,
        loop_len_bytes: length,
    }
}

fn module(order: Vec<u8>, song_length: u8, patterns: Vec<Vec<[Cell; 4]>>) -> Module {
    Module {
        header: Header { name: "synthetic".to_string(), song_length, restart_position: 0, order },
        samples: vec![sample(64, 64), sample(40, 64)],
        patterns,
    }
}

fn pcm() -> Vec<Vec<i8>> {
    vec![vec![1i8; 64], vec![2i8; 64]]
}

fn row(cells: [Cell; 4]) -> Vec<[Cell; 4]> {
    let mut rows = vec![cells];
    rows.resize(64, [empty(); 4]);
    rows
}

#[test]
fn vibrato_phase_is_not_reset_on_a_plain_new_note() {
    let vib = Cell { sample: 1, period: 428, effect: 0x4, param: 0x1F };
    let mut rows = vec![[vib, empty(), empty(), empty()]; 2];
    rows.resize(64, [empty(); 4]);
    let m = module(vec![0], 1, vec![rows]);
    let pcm = pcm();
    let mut p = Player::new();

    assert!(p.seek(&m));
    let ev = p.latch_row(&m, &pcm);
    assert!(ev.triggered[0]);
    for tick in 1..p.speed {
        p.advance_tick(tick);
    }
    assert_eq!(p.channels[0].vibrato_phase, 5);
    p.finish_row(&m, &ev);

    assert!(p.seek(&m));
    let ev = p.latch_row(&m, &pcm);
    assert!(ev.triggered[0], "row 2 retriggers the note");
    assert_eq!(p.channels[0].vibrato_phase, 5, "phase carried across the retrigger");
    let periods = p.advance_tick(1);
    assert_eq!(p.channels[0].vibrato_phase, 6);
    // phase 6: (141 * 15) >> 7 = 16
    assert_eq!(periods[0], 428 + 16);
}

#[test]
fn pattern_break_and_position_jump_combine() {
    let d = Cell { sample: 0, period: 0, effect: 0xD, param: 0x10 };
    let b = Cell { sample: 0, period: 0, effect: 0xB, param: 0x02 };
    let m = module(vec![0, 1, 2], 3, vec![row([d, b, empty(), empty()]), row([empty(); 4]), row([empty(); 4])]);
    let mut p = Player::new();
    assert!(p.seek(&m));
    let ev = p.latch_row(&m, &pcm());
    assert_eq!(ev.pattern_break, Some(10));
    assert_eq!(ev.position_jump, Some(2));
    p.finish_row(&m, &ev);
    assert_eq!((p.order_idx, p.row_idx), (2, 10));
}

#[test]
fn lone_pattern_break_goes_to_the_next_slot() {
    let d = Cell { sample: 0, period: 0, effect: 0xD, param: 0x10 };
    let m = module(vec![0, 1], 2, vec![row([d, empty(), empty(), empty()]), row([empty(); 4])]);
    let mut p = Player::new();
    assert!(p.seek(&m));
    let ev = p.latch_row(&m, &pcm());
    p.finish_row(&m, &ev);
    assert_eq!((p.order_idx, p.row_idx), (1, 10));
}

#[test]
fn position_jump_is_bounded_by_the_order_table() {
    let b = Cell { sample: 0, period: 0, effect: 0xB, param: 200 };
    let m = module(vec![0, 0, 0], 3, vec![row([b, empty(), empty(), empty()])]);
    let mut p = Player::new();
    assert!(p.seek(&m));
    let ev = p.latch_row(&m, &pcm());
    p.finish_row(&m, &ev);
    assert_eq!((p.order_idx, p.row_idx), (2, 0));
}

#[test]
fn rows_advance_and_the_song_ends() {
    let m = module(vec![0], 1, vec![row([empty(); 4])]);
    let mut p = Player::new();
    let mut rows = 0;
    while p.seek(&m) {
        let ev = p.latch_row(&m, &pcm());
        p.finish_row(&m, &ev);
        rows += 1;
    }
    assert_eq!(rows, 64);
    assert_eq!(p.order_idx, 1);
}

#[test]
fn seek_skips_slots_naming_missing_patterns() {
    let m = module(vec![5, 0], 2, vec![row([empty(); 4])]);
    let mut p = Player::new();
    assert!(p.seek(&m));
    assert_eq!((p.order_idx, p.row_idx), (1, 0));
}

#[test]
fn speed_and_tempo_share_the_f_effect() {
    let speed = Cell { sample: 0, period: 0, effect: 0xF, param: 0x03 };
    let tempo = Cell { sample: 0, period: 0, effect: 0xF, param: 0x78 };
    let m = module(vec![0], 1, vec![row([speed, tempo, empty(), empty()])]);
    let mut p = Player::new();
    assert_eq!((p.speed, p.bpm), (6, 125));
    assert!(p.seek(&m));
    p.latch_row(&m, &pcm());
    assert_eq!((p.speed, p.bpm), (3, 120));
}

#[test]
fn out_of_scope_effects_are_reported_once() {
    let e5 = Cell { sample: 0, period: 0, effect: 0x5, param: 0x11 };
    let e8 = Cell { sample: 0, period: 0, effect: 0x8, param: 0 };
    let mut rows = vec![[e5, e5, e8, empty()]; 2];
    rows.resize(64, [empty(); 4]);
    let m = module(vec![0], 1, vec![rows]);
    let mut p = Player::new();
    assert!(p.seek(&m));
    let ev = p.latch_row(&m, &pcm());
    assert_eq!(ev.warn, vec![5, 8]);
    p.finish_row(&m, &ev);
    assert!(p.seek(&m));
    let ev = p.latch_row(&m, &pcm());
    assert!(ev.warn.is_empty());
}

#[test]
fn note_trigger_and_set_volume() {
    let note = Cell { sample: 2, period: 339, effect: 0xC, param: 0x20 };
    let vol = Cell { sample: 0, period: 0, effect: 0xC, param: 0x20 };
    let m = module(vec![0], 1, vec![row([note, vol, empty(), empty()])]);
    let mut p = Player::new();
    assert!(p.seek(&m));
    let ev = p.latch_row(&m, &pcm());
    assert_eq!(ev.triggered, vec![true, false, false, false]);
    // `C` on the same cell as the note sets the volume
    assert_eq!(p.channels[0].volume, 32);
    assert_eq!(p.channels[0].sample_idx, Some(1));
    assert_eq!(p.channels[0].base_period, 339);
    assert!(p.channels[0].playing);
    assert_eq!(p.channels[1].volume, 32);
    assert!(!p.channels[1].playing);
}

#[test]
fn empty_sample_does_not_trigger() {
    let note = Cell { sample: 1, period: 428, effect: 0, param: 0 };
    let m = module(vec![0], 1, vec![row([note, empty(), empty(), empty()])]);
    let silent: Vec<Vec<i8>> = vec![vec![], vec![]];
    let mut p = Player::new();
    assert!(p.seek(&m));
    let ev = p.latch_row(&m, &silent);
    assert!(!ev.triggered[0]);
    assert!(!p.channels[0].playing);
}

#[test]
fn tone_portamento_glides_without_retrigger() {
    let note = Cell { sample: 1, period: 428, effect: 0, param: 0 };
    let porta = Cell { sample: 1, period: 400, effect: 3, param: 12 };
    let mut rows = vec![[note, empty(), empty(), empty()], [porta, empty(), empty(), empty()]];
    rows.resize(64, [empty(); 4]);
    let m = module(vec![0], 1, vec![rows]);
    let mut p = Player::new();
    assert!(p.seek(&m));
    let ev = p.latch_row(&m, &pcm());
    p.finish_row(&m, &ev);
    assert!(p.seek(&m));
    let ev = p.latch_row(&m, &pcm());
    assert!(!ev.triggered[0]);
    assert_eq!(p.channels[0].row_effect, RowEffect::TonePortamento);
    assert_eq!(p.advance_tick(1)[0], 416);
    assert_eq!(p.advance_tick(2)[0], 404);
    assert_eq!(p.advance_tick(3)[0], 400);
    assert_eq!(p.channels[0].base_period, 428);
}

#[test]
fn per_tick_effects_on_sounding_channels_only() {
    let arp = Cell { sample: 1, period: 428, effect: 0, param: 0x37 };
    let slide = Cell { sample: 0, period: 0, effect: 1, param: 8 };
    let volslide = Cell { sample: 2, period: 300, effect: 0xA, param: 0x03 };
    let m = module(vec![0], 1, vec![row([arp, slide, volslide, empty()])]);
    let mut p = Player::new();
    assert!(p.seek(&m));
    p.latch_row(&m, &pcm());
    let t1 = p.advance_tick(1);
    assert_eq!(t1, vec![360, 0, 300, 0]);
    assert_eq!(p.channels[2].volume, 37);
    let t2 = p.advance_tick(2);
    assert_eq!(t2[0], 286);
    let t3 = p.advance_tick(3);
    assert_eq!(t3[0], 428);
    assert_eq!(p.channels[2].volume, 31);
}

#[test]
fn row_effect_does_not_carry_into_the_next_row() {
    let slide = Cell { sample: 1, period: 428, effect: 1, param: 8 };
    let mut rows = vec![[slide, empty(), empty(), empty()], [empty(); 4]];
    rows.resize(64, [empty(); 4]);
    let m = module(vec![0], 1, vec![rows]);
    let mut p = Player::new();
    assert!(p.seek(&m));
    let ev = p.latch_row(&m, &pcm());
    assert_eq!(p.advance_tick(1)[0], 420);
    p.finish_row(&m, &ev);
    assert!(p.seek(&m));
    p.latch_row(&m, &pcm());
    assert_eq!(p.channels[0].row_effect, RowEffect::NoEffect);
    assert_eq!(p.advance_tick(1)[0], 420);
}

#[test]
fn last_jump_and_break_of_a_row_win() {
    let b1 = Cell { sample: 0, period: 0, effect: 0xB, param: 1 };
    let b2 = Cell { sample: 0, period: 0, effect: 0xB, param: 2 };
    let d1 = Cell { sample: 0, period: 0, effect: 0xD, param: 0x05 };
    let d2 = Cell { sample: 0, period: 0, effect: 0xD, param: 0x32 };
    let m = module(vec![0, 0, 0], 3, vec![row([b1, d1, b2, d2])]);
    let mut p = Player::new();
    assert!(p.seek(&m));
    let ev = p.latch_row(&m, &pcm());
    assert_eq!(ev.position_jump, Some(2));
    assert_eq!(ev.pattern_break, Some(32));
}

#[test]
fn note_without_set_volume_takes_the_sample_volume() {
    let note = Cell { sample: 2, period: 339, effect: 0, param: 0 };
    let m = module(vec![0], 1, vec![row([note, empty(), empty(), empty()])]);
    let mut p = Player::new();
    assert!(p.seek(&m));
    p.latch_row(&m, &pcm());
    assert_eq!(p.channels[0].volume, 40);
}

#[test]
fn new_player_starts_with_idle_channels() {
    let p = Player::new();
    assert_eq!(p.channels.len(), 4);
    for ch in &p.channels {
        assert_eq!(ch.sample_idx, None);
        assert_eq!(ch.volume, 0);
        assert!(!ch.playing);
        assert_eq!(ch.base_period, 0);
        assert_eq!(ch.current_period, 0);
        assert_eq!(ch.row_effect, RowEffect::NoEffect);
        assert_eq!(ch.tone_target, 0);
        assert_eq!(ch.vibrato_phase, 0);
    }
    assert!(p.warned.iter().all(|w| !w));
}

#[test]
fn note_without_sample_on_a_fresh_channel_plays_nothing() {
    let note = Cell { sample: 0, period: 428, effect: 0, param: 0 };
    let m = module(vec![0], 1, vec![row([note, empty(), empty(), empty()])]);
    let mut p = Player::new();
    assert!(p.seek(&m));
    let ev = p.latch_row(&m, &pcm());
    assert!(!ev.triggered[0]);
    assert!(!p.channels[0].playing);
}

#[test]
fn speed_zero_still_advances_the_row() {
    let f00 = Cell { sample: 0, period: 0, effect: 0xF, param: 0 };
    let m = module(vec![0], 1, vec![row([f00, empty(), empty(), empty()])]);
    let mut p = Player::new();
    assert!(p.seek(&m));
    let ev = p.latch_row(&m, &pcm());
    assert_eq!(p.speed, 0);
    p.finish_row(&m, &ev);
    assert_eq!((p.order_idx, p.row_idx), (0, 1));
}
