//! The parse tree of a 31-sample ProTracker `.mod` file, and the entry point
//! that reads one from bytes.
//!
//! Layout (byte offsets): song name `0..20`; 31 sample headers of 30 bytes
//! from 20; song length at 950; restart position at 951; the 128-entry order
//! table at `952..1080`; the `M.K.` tag at `1080..1084`; pattern blocks of
//! 1024 bytes from 1084; sample PCM data after the last pattern block.
pub mod header;
pub mod patterns;
pub mod samples;
pub mod text;

use vstd::prelude::*;

use self::header::{has_mk_tag, header_error, header_matches};
use self::patterns::{pattern_error, patterns_match, spec_block_count};
use self::samples::samples_match;

verus! {

/// Number of sample headers in a 31-sample module.
pub const SAMPLE_COUNT: usize = 31;

/// Rows in every pattern.
pub const ROWS_PER_PATTERN: usize = 64;

/// Channels in an `M.K.` module.
pub const CHANNELS: usize = 4;

/// Byte offset of the first sample header.
pub const SAMPLE_HEADERS_OFFSET: usize = 20;

/// Bytes per sample header.
pub const SAMPLE_HEADER_BYTES: usize = 30;

/// Byte offset of the song-length byte, just after the 31 sample headers.
pub const SONG_LENGTH_OFFSET: usize = 950;

/// Byte offset of the restart-position byte.
pub const RESTART_OFFSET: usize = 951;

/// Byte offset of the 128-entry order table.
pub const ORDER_OFFSET: usize = 952;

/// Entries in the order table.
pub const ORDER_LEN: usize = 128;

/// Byte offset of the four-byte format tag.
pub const TAG_OFFSET: usize = 1080;

/// Byte offset where pattern data begins.
pub const PATTERN_DATA_OFFSET: usize = 1084;

/// Bytes per pattern block: 64 rows of 4 cells of 4 bytes.
pub const PATTERN_BYTES: usize = 1024;

/// Song metadata: name, song length, restart position, order table.
#[derive(Debug, Clone)]
pub struct Header {
    pub name: String,
    pub song_length: u8,
    pub restart_position: u8,
    pub order: Vec<u8>,
}

/// One sample header. Lengths and loop points are in bytes; a sample without
/// a loop has `loop_len_bytes == 0`.
#[derive(Debug, Clone)]
pub struct Sample {
    pub name: String,
    pub length_bytes: u32,
    pub finetune: i8,
    pub volume: u8,
    pub loop_start_bytes: u32,
    pub loop_len_bytes: u32,
}

/// One pattern cell: sample number (0 = none), period (0 = no note), effect
/// command nibble and its parameter.
#[derive(Debug, Clone, Copy, PartialEq, Eq, Structural)]
pub struct Cell {
    pub sample: u8,
    pub period: u16,
    pub effect: u8,
    pub param: u8,
}

impl Default for Cell {
    /// The empty cell: no sample, no note, no effect.
    fn default() -> (c: Cell)
        ensures
            c.sample == 0,
            c.period == 0,
            c.effect == 0,
            c.param == 0,
    {
        Cell { sample: 0, period: 0, effect: 0, param: 0 }
    }
}

/// A pattern: 64 rows of one cell per channel.
pub type Pattern = Vec<[Cell; CHANNELS]>;

/// A parsed module.
#[derive(Debug, Clone)]
pub struct Module {
    pub header: Header,
    pub samples: Vec<Sample>,
    pub patterns: Vec<Pattern>,
}

/// Why a byte string is not a module in scope.
#[derive(Debug, Clone, Copy)]
pub enum ParseError {
    /// The file ends before the four-byte format tag at offset 1080.
    MissingTag,
    /// The format tag is not `M.K.`; only 31-sample `M.K.` modules are in scope.
    UnsupportedTag { tag: [u8; 4] },
    /// The file ends inside the 31 sample headers.
    TruncatedSampleHeaders,
    /// The file ends inside pattern block `block`, which needs `needed` bytes.
    TruncatedPattern { block: usize, needed: usize },
    /// The used part of the order table names no pattern block.
    NoPatterns,
}

/// The number of pattern blocks that the order table of `bytes` uses.
pub open spec fn spec_file_block_count(bytes: Seq<u8>) -> int {
    spec_block_count(bytes.subrange(952, 1080), bytes[950])
}

/// The error that parsing `bytes` reports, if any: a header error first, then
/// a pattern error.
pub open spec fn parse_error(bytes: Seq<u8>) -> Option<ParseError> {
    match header_error(bytes) {
        Some(e) => Some(e),
        None => pattern_error(bytes.len() as int, spec_file_block_count(bytes)),
    }
}

/// `m` is the module that `bytes` holds.
pub open spec fn module_matches(m: Module, bytes: Seq<u8>) -> bool {
    &&& header_matches(m.header, bytes)
    &&& samples_match(m.samples@, bytes)
    &&& patterns_match(m.patterns@, bytes, spec_file_block_count(bytes))
}

/// Parses a 31-sample `M.K.` module: header, sample headers, pattern blocks.
pub fn parse(bytes: &[u8]) -> (res: Result<Module, ParseError>)
    ensures
        match res {
            Ok(m) => parse_error(bytes@) is None && module_matches(m, bytes@),
            Err(e) => parse_error(bytes@) == Some(e),
        },
{
    let header = match header::parse(bytes) {
        Ok(h) => h,
        Err(e) => return Err(e),
    };
    let samples = match samples::parse(bytes) {
        Ok(s) => s,
        Err(e) => return Err(e),
    };
    let patterns = match patterns::parse(bytes, header.order.as_slice(), header.song_length) {
        Ok(p) => p,
        Err(e) => return Err(e),
    };
    Ok(Module { header, samples, patterns })
}

/// Only 31-sample `M.K.` modules parse: every accepted file carries the tag.
pub proof fn lemma_parse_accepts_only_mk(bytes: Seq<u8>)
    ensures
        parse_error(bytes) is None ==> has_mk_tag(bytes),
        !has_mk_tag(bytes) ==> parse_error(bytes) is Some,
{
}

} // verus!
