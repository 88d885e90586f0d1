//! Trainer parties of a Nuzlocke generator: the records, the id-indexed
//! collection that holds them, and the reader and writer of the `.party`
//! text format of the pokeemerald expansion project.

pub mod options;
pub mod parties;
pub mod text;
