//! Reading and writing the `.party` text format of the pokeemerald expansion
//! project.

use crate::parties::emerald_expansion::fields::{parties_from_blocks, trainers_of};
use crate::parties::emerald_expansion::fitting::lemma_read_fits;
use crate::parties::emerald_expansion::grammar::{blocks_of, read_blocks};
use crate::parties::emerald_expansion::patterns::{
    pattern_blocks, read_blocks_by_patterns, Patterns, PatternsView,
};
use crate::parties::emerald_expansion::round_trip::all_fit;
use crate::parties::error::{PartyError, PartyErrorView};
use crate::parties::{ids_of, index_of, Parties, TrainerView};
use crate::text::{read_lines, split_lines};
use vstd::prelude::*;
use vstd::string::StringExecFns;

pub mod diagnostics;
pub mod fields;
pub mod fitting;
pub mod grammar;
pub mod patterns;
pub mod round_trip;
pub mod theorems;
pub mod writer;

pub use writer::to_emerald_expansion_format;
pub use writer::PushLn;

verus! {

/// What the text of a party file means: the trainers that its blocks
/// describe, in the order of the text, or the first fault in it.
pub open spec fn parse_text(text: Seq<char>) -> Result<Seq<TrainerView>, PartyErrorView> {
    trainers_of(blocks_of(split_lines(text)))
}

/// Reads the text of a party file.
///
/// The result holds the trainers of the text in its order and the index of
/// their ids. The format can hold each of them, so that they can be written
/// again. Nothing is returned of a text with a fault: a block in which
/// no field of the trainer is found, a party of more than six, a member
/// whose first line does not begin with a species, a code of a gender that
/// is not known, a level or a happiness that is no number from 0 to 255.
pub fn from_emerald_expansion_format(file_content: &str) -> (r: Result<Parties, PartyError>)
    ensures
        match r {
            Ok(p) => parse_text(file_content@) == Ok::<Seq<TrainerView>, PartyErrorView>(p@)
                && all_fit(p@) && p.wf() && p.index() == index_of(ids_of(p.trainers())),
            Err(e) => parse_text(file_content@) == Err::<Seq<TrainerView>, PartyErrorView>(e@),
        },
{
    let lines = read_lines(file_content);
    let blocks = read_blocks(&lines);
    proof {
        if parse_text(file_content@) is Ok {
            lemma_read_fits(file_content@);
        }
    }
    parties_from_blocks(&blocks)
}

/// The grammar by which a party file is read: the grammar of this library,
/// or one that the caller hands in as three regular expressions.
#[derive(Debug)]
pub struct ParsingConfig {
    patterns: Option<Patterns>,
}

impl ParsingConfig {
    /// The patterns of the grammar, or `None` for the grammar of this
    /// library.
    pub closed spec fn patterns(&self) -> Option<PatternsView> {
        match self.patterns {
            Some(p) => Some(p@),
            None => None,
        }
    }

    /// The grammar of three patterns. The first finds the blocks of the
    /// trainers and captures the groups `name`, `details` and `mons`; the
    /// second and the third capture the fields of a trainer and of a party
    /// member in groups that bear the fields' names. Whether the patterns
    /// are regular expressions shows when the grammar is used.
    pub fn with_patterns(
        trainer_regex: &str,
        trainer_fields_regex: &str,
        pokemon_fields_regex: &str,
    ) -> (r: Self)
        ensures
            r.patterns() == Some(
                PatternsView {
                    trainer_regex: trainer_regex@,
                    trainer_fields_regex: trainer_fields_regex@,
                    pokemon_fields_regex: pokemon_fields_regex@,
                },
            ),
    {
        ParsingConfig {
            patterns: Some(
                Patterns {
                    trainer_regex: String::from_str(trainer_regex),
                    trainer_fields_regex: String::from_str(trainer_fields_regex),
                    pokemon_fields_regex: String::from_str(pokemon_fields_regex),
                },
            ),
        }
    }
}

impl Default for ParsingConfig {
    /// The grammar of this library.
    fn default() -> (r: Self)
        ensures
            r.patterns() is None,
    {
        ParsingConfig { patterns: None }
    }
}

/// What the text of a party file means under a grammar.
pub open spec fn parse_text_with(patterns: Option<PatternsView>, text: Seq<char>) -> Result<
    Seq<TrainerView>,
    PartyErrorView,
> {
    match patterns {
        None => parse_text(text),
        Some(p) => match pattern_blocks(p, text) {
            Ok(blocks) => trainers_of(blocks),
            Err(e) => Err(e),
        },
    }
}

/// Reads the text of a party file by the given grammar.
///
/// With the grammar of this library this is
/// [`from_emerald_expansion_format`]. With a grammar of three patterns the
/// blocks and their fields are what the patterns capture; a pattern that is
/// no regular expression is reported, and so is a first pattern that leaves
/// out one of its three groups. What is captured becomes trainers and party
/// members as under the grammar of this library, with the same faults.
pub fn from_emerald_expansion_format_config(file_content: &str, config: &ParsingConfig) -> (r:
    Result<Parties, PartyError>)
    ensures
        match r {
            Ok(p) => parse_text_with(config.patterns(), file_content@) == Ok::<
                Seq<TrainerView>,
                PartyErrorView,
            >(p@) && p.wf() && p.index() == index_of(ids_of(p.trainers())),
            Err(e) => parse_text_with(config.patterns(), file_content@) == Err::<
                Seq<TrainerView>,
                PartyErrorView,
            >(e@),
        },
{
    match &config.patterns {
        None => from_emerald_expansion_format(file_content),
        Some(p) => match read_blocks_by_patterns(file_content, p) {
            Ok(blocks) => parties_from_blocks(&blocks),
            Err(e) => Err(e),
        },
    }
}

} // verus!
