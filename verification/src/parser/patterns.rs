//! The 4-channel, 64-row cell grid of every pattern block.
//!
//! A cell is four bytes: `byte0 = (sample & 0xF0) | (period >> 8)`,
//! `byte1 = period & 0xFF`, `byte2 = ((sample & 0x0F) << 4) | effect`,
//! `byte3 = param`. Only the raw fields are extracted here; effect parameters
//! are interpreted by the engine.
use vstd::prelude::*;

use super::{Cell, ParseError, Pattern, CHANNELS, PATTERN_BYTES, PATTERN_DATA_OFFSET, ROWS_PER_PATTERN};

verus! {

/// The cell whose four bytes start at `off`.
pub open spec fn cell_at(bytes: Seq<u8>, off: int) -> Cell {
    Cell {
        sample: ((bytes[off] / 16) * 16 + bytes[off + 2] / 16) as u8,
        period: ((bytes[off] % 16) * 256 + bytes[off + 1]) as u16,
        effect: bytes[off + 2] % 16,
        param: bytes[off + 3],
    }
}

/// The four bytes that store `c` (the inverse of `cell_at`).
pub open spec fn cell_bytes(c: Cell) -> Seq<u8> {
    seq![
        ((c.sample / 16) * 16 + c.period / 256) as u8,
        (c.period % 256) as u8,
        ((c.sample % 16) * 16 + c.effect) as u8,
        c.param,
    ]
}

/// Byte offset of channel `c` of row `r` of pattern block `b`.
pub open spec fn cell_offset(b: int, r: int, c: int) -> int {
    1084 + 1024 * b + 16 * r + 4 * c
}

/// The largest entry of a non-empty sequence.
pub open spec fn seq_max(s: Seq<u8>) -> int
    decreases s.len(),
{
    if s.len() <= 1 {
        s[0] as int
    } else {
        let m = seq_max(s.drop_last());
        if s.last() > m {
            s.last() as int
        } else {
            m
        }
    }
}

/// How many pattern blocks the file stores: one past the largest block index
/// among the first `song_length` order-table entries (blocks are stored in
/// index order, not play order), and none when that part is empty.
pub open spec fn spec_block_count(order: Seq<u8>, song_length: u8) -> int {
    let used = order.take(min_len(song_length as int, order.len() as int));
    if used.len() == 0 {
        0
    } else {
        seq_max(used) + 1
    }
}

/// `a` or `b`, whichever is smaller.
pub open spec fn min_len(a: int, b: int) -> int {
    if a <= b {
        a
    } else {
        b
    }
}

/// The first pattern block that a file of `len` bytes does not hold whole.
pub open spec fn first_truncated_block(len: int) -> int {
    if len < 1084 {
        0
    } else {
        (len - 1084) / 1024
    }
}

/// The error that pattern parsing reports for a file of `len` bytes whose
/// order table uses `count` blocks, if any.
pub open spec fn pattern_error(len: int, count: int) -> Option<ParseError> {
    if count == 0 {
        Some(ParseError::NoPatterns)
    } else if first_truncated_block(len) < count {
        let b = first_truncated_block(len);
        Some(ParseError::TruncatedPattern { block: b as usize, needed: (1084 + 1024 * (b + 1)) as usize })
    } else {
        None
    }
}

/// `p` holds the first `count` pattern blocks of `bytes`, cell for cell.
pub open spec fn patterns_match(p: Seq<Pattern>, bytes: Seq<u8>, count: int) -> bool {
    &&& p.len() == count
    &&& forall|b: int| 0 <= b < count ==> (#[trigger] p[b])@.len() == 64
    &&& forall|b: int, r: int, c: int|
        0 <= b < count && 0 <= r < 64 && 0 <= c < 4 ==> #[trigger] p[b]@[r]@[c] == cell_at(
            bytes,
            cell_offset(b, r, c),
        )
}

/// Decodes the four-byte cell at `off`.
pub fn decode_cell(bytes: &[u8], off: usize) -> (cell: Cell)
    requires
        off + 4 <= bytes@.len(),
    ensures
        cell == cell_at(bytes@, off as int),
{
    let b0 = bytes[off];
    let b1 = bytes[off + 1];
    let b2 = bytes[off + 2];
    let b3 = bytes[off + 3];
    assert((b0 & 0xF0) | (b2 >> 4) == (b0 / 16) * 16 + b2 / 16) by (bit_vector);
    assert(b2 & 0x0F == b2 % 16) by (bit_vector);
    let hi: u16 = (b0 & 0x0F) as u16;
    assert(hi == b0 % 16) by (bit_vector)
        requires
            hi == (b0 & 0x0F) as u16,
    ;
    let lo: u16 = b1 as u16;
    assert((hi << 8) | lo == hi * 256 + lo) by (bit_vector)
        requires
            hi < 16,
            lo < 256,
    ;
    Cell { sample: (b0 & 0xF0) | (b2 >> 4), period: (hi << 8) | lo, effect: b2 & 0x0F, param: b3 }
}

/// The number of pattern blocks that the used part of the order table needs.
fn block_count(order: &[u8], song_length: u8) -> (count: usize)
    ensures
        count == spec_block_count(order@, song_length),
        count <= 256,
{
    let n: usize = if (song_length as usize) < order.len() {
        song_length as usize
    } else {
        order.len()
    };
    let ghost used = order@.take(n as int);
    if n == 0 {
        return 0;
    }
    let mut m: u8 = order[0];
    let mut i: usize = 1;
    proof {
        assert(used.take(1).len() == 1);
    }
    while i < n
        invariant
            1 <= i <= n <= order@.len(),
            used == order@.take(n as int),
            m == seq_max(used.take(i as int)),
        decreases n - i,
    {
        proof {
            assert(used.take(i + 1).drop_last() =~= used.take(i as int));
        }
        if order[i] > m {
            m = order[i];
        }
        i = i + 1;
    }
    proof {
        assert(used.take(n as int) =~= used);
    }
    m as usize + 1
}

/// Reads the pattern blocks that the first `song_length` entries of `order`
/// use: `max(order[..song_length]) + 1` blocks of 64 rows of 4 cells.
pub fn parse(bytes: &[u8], order: &[u8], song_length: u8) -> (res: Result<Vec<Pattern>, ParseError>)
    ensures
        ({
            let count = spec_block_count(order@, song_length);
            match res {
                Ok(p) => pattern_error(bytes@.len() as int, count) is None && patterns_match(
                    p@,
                    bytes@,
                    count,
                ),
                Err(e) => pattern_error(bytes@.len() as int, count) == Some(e),
            }
        }),
{
    let count = block_count(order, song_length);
    let ghost len = bytes@.len() as int;
    let mut patterns: Vec<Pattern> = Vec::new();
    let mut block: usize = 0;
    while block < count
        invariant
            block <= count <= 256,
            count == spec_block_count(order@, song_length),
            len == bytes@.len(),
            PATTERN_DATA_OFFSET + PATTERN_BYTES * block <= len || block == 0,
            patterns_match(patterns@, bytes@, block as int),
        decreases count - block,
    {
        let start: usize = PATTERN_DATA_OFFSET + block * PATTERN_BYTES;
        let end: usize = start + PATTERN_BYTES;
        if end > bytes.len() {
            proof {
                assert(first_truncated_block(len) == block) by (nonlinear_arith)
                    requires
                        block == 0 || 1084 + 1024 * block <= len,
                        len < 1084 + 1024 * (block + 1),
                        first_truncated_block(len) == if len < 1084 {
                            0
                        } else {
                            (len - 1084) / 1024
                        },
                        block >= 0,
                ;
            }
            return Err(ParseError::TruncatedPattern { block, needed: end });
        }
        let mut pattern: Pattern = Vec::new();
        let mut row: usize = 0;
        while row < ROWS_PER_PATTERN
            invariant
                row <= 64,
                block < count <= 256,
                start == 1084 + 1024 * block,
                start + 1024 <= bytes@.len(),
                pattern@.len() == row,
                forall|r: int, c: int|
                    0 <= r < row && 0 <= c < 4 ==> #[trigger] pattern@[r]@[c] == cell_at(
                        bytes@,
                        cell_offset(block as int, r, c),
                    ),
            decreases 64 - row,
        {
            let base = start + row * 16;
            let c0 = decode_cell(bytes, base);
            let c1 = decode_cell(bytes, base + 4);
            let c2 = decode_cell(bytes, base + 8);
            let c3 = decode_cell(bytes, base + 12);
            let cells: [Cell; CHANNELS] = [c0, c1, c2, c3];
            pattern.push(cells);
            row = row + 1;
        }
        let ghost prev = patterns@;
        patterns.push(pattern);
        proof {
            assert forall|b: int, r: int, c: int|
                0 <= b < block + 1 && 0 <= r < 64 && 0 <= c < 4 implies #[trigger] patterns@[b]@[r]@[c]
                == cell_at(bytes@, cell_offset(b, r, c)) by {
                if b < block {
                    assert(patterns@[b] == prev[b]);
                }
            }
        }
        block = block + 1;
    }
    if count == 0 {
        return Err(ParseError::NoPatterns);
    }
    proof {
        assert(first_truncated_block(len) >= count) by (nonlinear_arith)
            requires
                1084 + 1024 * count <= len,
                count >= 1,
                first_truncated_block(len) == if len < 1084 {
                    0
                } else {
                    (len - 1084) / 1024
                },
        ;
    }
    Ok(patterns)
}

/// Decoding inverts the documented cell layout: every cell with a 12-bit
/// period and a 4-bit effect reads back from its four bytes unchanged.
pub proof fn lemma_cell_layout_roundtrip(c: Cell)
    requires
        c.period < 4096,
        c.effect < 16,
    ensures
        cell_at(cell_bytes(c), 0) == c,
{
    let s = cell_bytes(c);
    assert(s[0] / 16 == c.sample / 16 && s[0] % 16 == c.period / 256);
    assert(s[2] / 16 == c.sample % 16 && s[2] % 16 == c.effect);
}

/// Every four bytes are the layout of the cell decoded from them: decoding
/// loses nothing.
pub proof fn lemma_cell_bytes_of_decoded(bytes: Seq<u8>, off: int)
    requires
        0 <= off,
        off + 4 <= bytes.len(),
    ensures
        cell_bytes(cell_at(bytes, off)) == bytes.subrange(off, off + 4),
{
    let c = cell_at(bytes, off);
    assert(c.period / 256 == bytes[off] % 16 && c.period % 256 == bytes[off + 1]);
    assert(c.sample / 16 == bytes[off] / 16 && c.sample % 16 == bytes[off + 2] / 16);
    assert(cell_bytes(c) =~= bytes.subrange(off, off + 4));
}

/// `cell_bytes` is the documented bit packing of a cell:
/// `byte0 = (sample & 0xF0) | ((period >> 8) & 0x0F)`, `byte1 = period & 0xFF`,
/// `byte2 = ((sample & 0x0F) << 4) | effect`, `byte3 = param`.
pub proof fn lemma_cell_bytes_are_documented_packing(c: Cell)
    requires
        c.period < 4096,
        c.effect < 16,
    ensures
        cell_bytes(c) == seq![
            (c.sample & 0xF0) | ((c.period >> 8) as u8 & 0x0F),
            (c.period & 0xFF) as u8,
            ((c.sample & 0x0F) << 4) | c.effect,
            c.param,
        ],
{
    let sample = c.sample;
    let period = c.period;
    let effect = c.effect;
    assert((sample & 0xF0) | ((period >> 8) as u8 & 0x0F) == ((sample / 16) * 16 + period / 256) as u8)
        by (bit_vector)
        requires
            period < 4096,
    ;
    assert((period & 0xFF) as u8 == (period % 256) as u8) by (bit_vector);
    assert(((sample & 0x0F) << 4) | effect == ((sample % 16) * 16 + effect) as u8) by (bit_vector)
        requires
            effect < 16,
    ;
    assert(cell_bytes(c) =~= seq![
        (c.sample & 0xF0) | ((c.period >> 8) as u8 & 0x0F),
        (c.period & 0xFF) as u8,
        ((c.sample & 0x0F) << 4) | c.effect,
        c.param,
    ]);
}

} // verus!
