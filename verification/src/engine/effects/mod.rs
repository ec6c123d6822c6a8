pub mod sequencing;
pub mod wide;
pub mod arpeggio;
pub mod portamento;
pub mod vibrato;
pub mod volume;
