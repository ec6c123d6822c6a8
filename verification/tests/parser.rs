//! Parser tests on modules built byte for byte, following the layout and the
//! fixture dumps in the format notes.
use modmill::parser::patterns::decode_cell;
use modmill::parser::{header, parse, patterns, samples, Cell, ParseError};

struct SampleSpec {
    name: &'static str,
    length_words: u16,
    finetune: u8,
    volume: u8,
    loop_start_words: u16,
    loop_len_words: u16,
}

/// Builds a module: name, sample headers (the rest empty), song length,
/// restart byte, order table prefix, `M.K.`, cells placed as
/// `(block, row, channel, bytes)` in `blocks` pattern blocks, then `pcm`.
fn build_mod(
    name: &str,
    sample_specs: &[SampleSpec],
    song_length: u8,
    order_prefix: &[u8],
    blocks: usize,
    cells: &[(usize, usize, usize, [u8; 4])],
    pcm: &[u8],
) -> Vec<u8> {
    let mut out = Vec::new();
    let mut name_field = [0u8; 20];
    name_field[..name.len()].copy_from_slice(name.as_bytes());
    out.extend_from_slice(&name_field);
    for i in 0..31 {
        if let Some(s) = sample_specs.get(i) {
            let mut n = [0u8; 22];
            n[..s.name.len()].copy_from_slice(s.name.as_bytes());
            out.extend_from_slice(&n);
            out.extend_from_slice(&s.length_words.to_be_bytes());
            out.push(s.finetune);
            out.push(s.volume);
            out.extend_from_slice(&s.loop_start_words.to_be_bytes());
            out.extend_from_slice(&s.loop_len_words.to_be_bytes());
        } else {
            out.extend_from_slice(&[0u8; 30]);
        }
    }
    out.push(song_length);
    out.push(0x7F);
    let mut order = [0u8; 128];
    order[..order_prefix.len()].copy_from_slice(order_prefix);
    out.extend_from_slice(&order);
    out.extend_from_slice(b"M.K.");
    let mut pattern_data = vec![0u8; blocks * 1024];
    for &(b, r, c, bytes) in cells {
        let off = b * 1024 + r * 16 + c * 4;
        pattern_data[off..off + 4].copy_from_slice(&bytes);
    }
    out.extend_from_slice(&pattern_data);
    out.extend_from_slice(pcm);
    out
}

fn minimal_mod() -> Vec<u8> {
    build_mod(
        "minimal",
        &[SampleSpec { name: "basic", length_words: 16, finetune: 0, volume: 64, loop_start_words: 0, loop_len_words: 1 }],
        1,
        &[0],
        1,
        &[(0, 0, 0, [0x01, 0xAC, 0x10, 0x00])],
        &[1u8; 32],
    )
}

fn jump_mod() -> Vec<u8> {
    build_mod(
        "jump",
        &[SampleSpec { name: "basic", length_words: 16, finetune: 0, volume: 64, loop_start_words: 0, loop_len_words: 1 }],
        3,
        &[0, 1, 2],
        3,
        &[
            (0, 0, 0, [0x01, 0xAC, 0x1D, 0x10]),
            (1, 0, 0, [0x01, 0x7D, 0x1B, 0x02]),
            (2, 0, 0, [0x01, 0x53, 0x10, 0x00]),
        ],
        &[1u8; 32],
    )
}

fn effects_mod() -> Vec<u8> {
    build_mod(
        "effects",
        &[SampleSpec { name: "basic", length_words: 16, finetune: 0, volume: 64, loop_start_words: 0, loop_len_words: 1 }],
        1,
        &[0],
        1,
        &[
            (0, 0, 0, [0x01, 0xAC, 0x10, 0x37]),
            (0, 1, 0, [0x00, 0x00, 0x01, 0x08]),
            (0, 2, 0, [0x00, 0x00, 0x02, 0x08]),
            (0, 3, 0, [0x01, 0x53, 0x13, 0x04]),
            (0, 4, 0, [0x01, 0xAC, 0x14, 0x64]),
            (0, 5, 0, [0x00, 0x00, 0x0A, 0x0F]),
            (0, 6, 0, [0x00, 0x00, 0x0A, 0xF0]),
            (0, 7, 0, [0x00, 0x00, 0x0C, 0x20]),
        ],
        &[1u8; 32],
    )
}

#[test]
fn parses_minimal() {
    let bytes = minimal_mod();
    let header = header::parse(&bytes).unwrap();
    assert_eq!(header.name, "minimal");
    assert_eq!(header.song_length, 1);
    assert_eq!(header.restart_position, 0x7F);
    assert_eq!(&header.order[..1], &[0]);
    assert_eq!(header.order.len(), 128);
}

#[test]
fn parses_jump_order_table() {
    let bytes = jump_mod();
    let header = header::parse(&bytes).unwrap();
    assert_eq!(header.name, "jump");
    assert_eq!(header.song_length, 3);
    assert_eq!(&header.order[..3], &[0, 1, 2]);
}

#[test]
fn rejects_bad_tag() {
    let mut bytes = minimal_mod();
    bytes[1080] = b'X';
    assert!(header::parse(&bytes).is_err());
}

#[test]
fn bad_tag_is_reported_with_its_bytes() {
    let mut bytes = minimal_mod();
    bytes[1080..1084].copy_from_slice(b"8CHN");
    match parse(&bytes) {
        Err(ParseError::UnsupportedTag { tag }) => assert_eq!(&tag, b"8CHN"),
        other => panic!("expected an unsupported tag, got {:?}", other.map(|m| m.header.name)),
    }
}

#[test]
fn short_file_is_missing_its_tag() {
    let bytes = vec![0u8; 1083];
    assert!(matches!(header::parse(&bytes), Err(ParseError::MissingTag)));
    assert!(matches!(parse(&bytes), Err(ParseError::MissingTag)));
}

#[test]
fn effects_mod_raw_effect_bytes() {
    let bytes = effects_mod();
    let order = [0u8; 128];
    let patterns = patterns::parse(&bytes, &order, 1).expect("parse effects.mod");
    assert_eq!(patterns.len(), 1);
    let pat = &patterns[0];

    // (period, sample, effect, param) expected per row, channel 0.
    let expected = [
        (428u16, 1u8, 0x00u8, 0x37u8), // arpeggio +3 +7
        (0, 0, 0x01, 0x08),            // slide up
        (0, 0, 0x02, 0x08),            // slide down
        (339, 1, 0x03, 0x04),          // tone portamento toward E-3
        (428, 1, 0x04, 0x64),          // vibrato speed 6 depth 4
        (0, 0, 0x0A, 0x0F),            // volume slide
        (0, 0, 0x0A, 0xF0),            // volume slide
        (0, 0, 0x0C, 0x20),            // set volume 32
    ];

    for (row, &(period, sample, effect, param)) in expected.iter().enumerate() {
        let cell = pat[row][0];
        assert_eq!(cell.period, period, "row {row} period");
        assert_eq!(cell.sample, sample, "row {row} sample");
        assert_eq!(cell.effect, effect, "row {row} effect");
        assert_eq!(cell.param, param, "row {row} param");
    }
}

#[test]
fn jump_mod_three_blocks_raw_db_bytes() {
    let bytes = jump_mod();
    let mut order = [0u8; 128];
    order[0] = 0;
    order[1] = 1;
    order[2] = 2;
    let patterns = patterns::parse(&bytes, &order, 3).expect("parse jump.mod");
    assert_eq!(patterns.len(), 3);

    let cell0 = patterns[0][0][0];
    assert_eq!(cell0.sample, 1);
    assert_eq!(cell0.period, 428);
    assert_eq!(cell0.effect, 0x0D);
    assert_eq!(cell0.param, 0x10);

    let cell1 = patterns[1][0][0];
    assert_eq!(cell1.sample, 1);
    assert_eq!(cell1.period, 381);
    assert_eq!(cell1.effect, 0x0B);
    assert_eq!(cell1.param, 0x02);

    let cell2 = patterns[2][0][0];
    assert_eq!(cell2.sample, 1);
    assert_eq!(cell2.period, 339);
    assert_eq!(cell2.effect, 0x00);
    assert_eq!(cell2.param, 0x00);
}

#[test]
fn block_count_is_max_order_entry_plus_one() {
    // Order [2, 0]: three blocks are stored even though two slots play.
    let bytes = build_mod("x", &[], 2, &[2, 0], 3, &[(2, 63, 3, [0xF1, 0x23, 0x4C, 0x40])], &[]);
    let patterns = patterns::parse(&bytes, &bytes[952..1080], 2).unwrap();
    assert_eq!(patterns.len(), 3);
    assert_eq!(patterns[2].len(), 64);
    assert_eq!(patterns[2][63][3], Cell { sample: 0xF4, period: 0x123, effect: 0xC, param: 0x40 });
}

#[test]
fn order_entries_past_song_length_are_ignored() {
    let bytes = build_mod("x", &[], 1, &[0, 5], 1, &[], &[]);
    let patterns = patterns::parse(&bytes, &bytes[952..1080], 1).unwrap();
    assert_eq!(patterns.len(), 1);
}

#[test]
fn truncated_pattern_block_is_reported() {
    let mut bytes = jump_mod();
    bytes.truncate(1084 + 2 * 1024 + 100);
    match patterns::parse(&bytes, &bytes[952..1080], 3) {
        Err(ParseError::TruncatedPattern { block, needed }) => {
            assert_eq!(block, 2);
            assert_eq!(needed, 1084 + 3 * 1024);
        }
        _ => panic!("expected a truncated pattern"),
    }
}

#[test]
fn zero_song_length_has_no_patterns() {
    let bytes = build_mod("x", &[], 0, &[0], 1, &[], &[]);
    assert!(matches!(patterns::parse(&bytes, &bytes[952..1080], 0), Err(ParseError::NoPatterns)));
    assert!(matches!(parse(&bytes), Err(ParseError::NoPatterns)));
}

#[test]
fn sample_headers_convert_words_to_bytes() {
    let bytes = build_mod(
        "loop",
        &[
            SampleSpec { name: "loopy", length_words: 32, finetune: 0, volume: 48, loop_start_words: 8, loop_len_words: 16 },
            SampleSpec { name: "basic", length_words: 16, finetune: 0x0F, volume: 200, loop_start_words: 0, loop_len_words: 1 },
            SampleSpec { name: "over", length_words: 10, finetune: 0x17, volume: 64, loop_start_words: 6, loop_len_words: 8 },
            SampleSpec { name: "past", length_words: 4, finetune: 7, volume: 0, loop_start_words: 9, loop_len_words: 2 },
        ],
        1,
        &[0],
        1,
        &[],
        &[],
    );
    let s = samples::parse(&bytes).unwrap();
    assert_eq!(s.len(), 31);
    assert_eq!(s[0].name, "loopy");
    assert_eq!(s[0].length_bytes, 64);
    assert_eq!(s[0].volume, 48);
    assert_eq!(s[0].loop_start_bytes, 16);
    assert_eq!(s[0].loop_len_bytes, 32);
    // loop length of one word: no loop; volume clamped; finetune nibble 0xF = -1.
    assert_eq!(s[1].loop_start_bytes, 0);
    assert_eq!(s[1].loop_len_bytes, 0);
    assert_eq!(s[1].volume, 64);
    assert_eq!(s[1].finetune, -1);
    // loop past the end is clamped to the sample; stray high bits ignored.
    assert_eq!(s[2].finetune, 7);
    assert_eq!(s[2].loop_start_bytes, 12);
    assert_eq!(s[2].loop_len_bytes, 8);
    assert_eq!(s[3].loop_start_bytes, 8);
    assert_eq!(s[3].loop_len_bytes, 0);
    assert_eq!(s[3].finetune, 7);
    // empty headers
    assert_eq!(s[30].name, "");
    assert_eq!(s[30].length_bytes, 0);
}

#[test]
fn sample_headers_need_950_bytes() {
    assert!(matches!(samples::parse(&[0u8; 949]), Err(ParseError::TruncatedSampleHeaders)));
    assert_eq!(samples::parse(&[0u8; 950]).unwrap().len(), 31);
}

#[test]
fn invalid_utf8_in_a_name_is_replaced() {
    let mut bytes = minimal_mod();
    bytes[0] = 0xFF;
    let header = header::parse(&bytes).unwrap();
    assert_eq!(header.name, "\u{FFFD}inimal");
}

#[test]
fn whole_module_parses() {
    let bytes = jump_mod();
    let module = parse(&bytes).unwrap();
    assert_eq!(module.header.name, "jump");
    assert_eq!(module.samples.len(), 31);
    assert_eq!(module.samples[0].name, "basic");
    assert_eq!(module.samples[0].length_bytes, 32);
    assert_eq!(module.patterns.len(), 3);
    assert_eq!(module.patterns[1][0][0], Cell { sample: 1, period: 381, effect: 0xB, param: 2 });
}

/// The documented four-byte layout of a cell.
fn encode_cell(c: Cell) -> [u8; 4] {
    [
        (c.sample & 0xF0) | ((c.period >> 8) as u8 & 0x0F),
        (c.period & 0xFF) as u8,
        ((c.sample & 0x0F) << 4) | c.effect,
        c.param,
    ]
}

#[test]
fn cells_roundtrip_through_the_documented_layout() {
    let cells = [
        Cell { sample: 31, period: 856, effect: 0xF, param: 0x78 },
        Cell { sample: 0, period: 0, effect: 0, param: 0 },
        Cell { sample: 0xFF, period: 0xFFF, effect: 0xF, param: 0xFF },
        Cell { sample: 0x10, period: 113, effect: 0x3, param: 0x01 },
    ];
    let placed: Vec<(usize, usize, usize, [u8; 4])> =
        cells.iter().enumerate().map(|(i, c)| (0, 5, i, encode_cell(*c))).collect();
    let bytes = build_mod("x", &[], 1, &[0], 1, &placed, &[]);
    let module = parse(&bytes).unwrap();
    for (i, c) in cells.iter().enumerate() {
        assert_eq!(module.patterns[0][5][i], *c);
    }
}

#[test]
fn decode_cell_inverts_the_documented_packing() {
    for &(sample, period, effect, param) in
        &[(0u8, 0u16, 0u8, 0u8), (31, 856, 0xF, 0x78), (0xFF, 0xFFF, 0xF, 0xFF), (0x10, 113, 0x3, 0x01), (1, 428, 0xD, 0x10)]
    {
        let c = Cell { sample, period, effect, param };
        let b = encode_cell(c);
        assert_eq!(decode_cell(&b, 0), c);
        let mut padded = vec![9u8; 3];
        padded.extend_from_slice(&b);
        assert_eq!(decode_cell(&padded, 3), c);
    }
}

#[test]
fn ascii_names_read_back_unchanged() {
    let bytes = minimal_mod();
    let module = parse(&bytes).unwrap();
    assert_eq!(module.header.name, "minimal");
    assert_eq!(module.samples[0].name, "basic");
}

#[test]
fn default_cell_is_empty() {
    assert_eq!(Cell::default(), Cell { sample: 0, period: 0, effect: 0, param: 0 });
}
