//! A grammar that the caller hands in as regular expressions.
//!
//! Three patterns make such a grammar. The first finds the blocks of the
//! trainers in the text of a file and captures, of each, the id, the lines
//! of the trainer's fields and the lines of the party, in groups named
//! `name`, `details` and `mons`. The second is matched once against the
//! lines of the trainer's fields and the third again and again against the
//! lines of the party; both capture each field in a group that bears the
//! field's name. The patterns are matched by the `regex` crate.

use crate::parties::emerald_expansion::fields::{
    after, blocks_view, clone_text, mons_view, opt_fields, Block, BlockView, PokemonFields,
    PokemonFieldsView, TrainerFields, TrainerFieldsView,
};
use crate::parties::error::{PartyError, PartyErrorView};
use crate::text::opt_text;
use vstd::prelude::*;

verus! {

/// What `Regex::new` of the `regex` crate makes of a pattern: whether it
/// returns a regular expression and no error. The pattern is neither
/// malformed nor too large for the limits that the crate sets by itself.
pub uninterp spec fn pattern_compiles(pattern: Seq<char>) -> bool;

/// What `Regex::captures_iter` of the `regex` crate finds with the regular
/// expression of a pattern in a text: the matches in the order in which the
/// iterator yields them and, for each of them, what `Captures::name` gives
/// for each of the names, `None` for a name whose group took no part in the
/// match or that the pattern does not have.
pub uninterp spec fn pattern_captures(
    pattern: Seq<char>,
    names: Seq<Seq<char>>,
    text: Seq<char>,
) -> Seq<Seq<Option<Seq<char>>>>;

/// The texts of a sequence of names.
pub open spec fn names_view(names: Seq<&str>) -> Seq<Seq<char>> {
    names.map_values(|n: &str| n@)
}

/// The texts of the groups of one match.
pub open spec fn groups_view(groups: Seq<Option<String>>) -> Seq<Option<Seq<char>>> {
    groups.map_values(|g: Option<String>| opt_text(g))
}

/// The texts of the groups of a sequence of matches.
pub open spec fn captures_view(found: Seq<Vec<Option<String>>>) -> Seq<Seq<Option<Seq<char>>>> {
    found.map_values(|groups: Vec<Option<String>>| groups_view(groups@))
}

/// Calls `Regex::new` of the `regex` crate on the pattern and, if that
/// returns a regular expression, `Regex::captures_iter` on the text and
/// `Captures::name` on each match with each of the names.
///
/// The claim is that the outcome depends on the three arguments alone, so
/// that it has a name, and that each match comes with one entry for each
/// name. Nothing is claimed about what a pattern matches.
#[verifier::external_body]
fn capture_all(pattern: &str, names: &Vec<&str>, text: &str) -> (r: Option<
    Vec<Vec<Option<String>>>,
>)
    ensures
        r is Some == pattern_compiles(pattern@),
        r matches Some(found) ==> captures_view(found@) == pattern_captures(
            pattern@,
            names_view(names@),
            text@,
        ),
        r matches Some(found) ==> forall|i: int|
            0 <= i < found@.len() ==> (#[trigger] found@[i]).len() == names.len(),
{
    let re = regex::Regex::new(pattern).ok()?;
    let found = re.captures_iter(text).map(
        |c| names.iter().map(|n| c.name(n).map(|m| m.as_str().to_string())).collect(),
    ).collect();
    Some(found)
}

/// The three patterns of a grammar.
#[derive(Debug)]
pub struct Patterns {
    /// Finds the blocks of the trainers; its groups are `name`, `details`
    /// and `mons`.
    pub trainer_regex: String,
    /// Captures the fields of a trainer from what `details` captured.
    pub trainer_fields_regex: String,
    /// Captures the fields of one party member after the other from what
    /// `mons` captured.
    pub pokemon_fields_regex: String,
}

/// What [`Patterns`] hold, as mathematical values.
pub ghost struct PatternsView {
    pub trainer_regex: Seq<char>,
    pub trainer_fields_regex: Seq<char>,
    pub pokemon_fields_regex: Seq<char>,
}

impl View for Patterns {
    type V = PatternsView;

    open spec fn view(&self) -> PatternsView {
        PatternsView {
            trainer_regex: self.trainer_regex@,
            trainer_fields_regex: self.trainer_fields_regex@,
            pokemon_fields_regex: self.pokemon_fields_regex@,
        }
    }
}

/// The names of the groups of a block, in the order in which they are
/// asked for.
pub open spec fn block_names() -> Seq<Seq<char>> {
    seq!["name"@, "details"@, "mons"@]
}

/// The names of the groups of a trainer's fields, in the order in which
/// they are asked for.
pub open spec fn trainer_names() -> Seq<Seq<char>> {
    seq![
        "name"@,
        "pic"@,
        "class"@,
        "gender"@,
        "music"@,
        "items"@,
        "double_battle"@,
        "ai"@,
        "mugshot"@,
        "starting_status"@,
    ]
}

/// The names of the groups of a party member's fields, in the order in
/// which they are asked for.
pub open spec fn pokemon_names() -> Seq<Seq<char>> {
    seq![
        "species"@,
        "gender"@,
        "held_item"@,
        "level"@,
        "individual_values"@,
        "effort_values"@,
        "ball"@,
        "happiness"@,
        "nature"@,
        "shiny"@,
        "tera_type"@,
        "move_1"@,
        "move_2"@,
        "move_3"@,
        "move_4"@,
    ]
}

/// The group at a position of a match, `None` where the match has no such
/// position.
pub open spec fn group(groups: Seq<Option<Seq<char>>>, i: int) -> Option<Seq<char>> {
    if 0 <= i < groups.len() {
        groups[i]
    } else {
        None
    }
}

/// The fields of a trainer that a match captured, its groups standing in
/// the order of [`trainer_names`].
pub open spec fn trainer_fields_from(groups: Seq<Option<Seq<char>>>) -> TrainerFieldsView {
    TrainerFieldsView {
        name: group(groups, 0),
        pic: group(groups, 1),
        class: group(groups, 2),
        gender: group(groups, 3),
        music: group(groups, 4),
        items: group(groups, 5),
        double_battle: group(groups, 6),
        ai: group(groups, 7),
        mugshot: group(groups, 8),
        starting_status: group(groups, 9),
    }
}

/// The fields of a party member that a match captured, its groups standing
/// in the order of [`pokemon_names`].
pub open spec fn pokemon_fields_from(groups: Seq<Option<Seq<char>>>) -> PokemonFieldsView {
    PokemonFieldsView {
        species: group(groups, 0),
        gender: group(groups, 1),
        held_item: group(groups, 2),
        level: group(groups, 3),
        individual_values: group(groups, 4),
        effort_values: group(groups, 5),
        ball: group(groups, 6),
        happiness: group(groups, 7),
        nature: group(groups, 8),
        shiny: group(groups, 9),
        tera_type: group(groups, 10),
        move_1: group(groups, 11),
        move_2: group(groups, 12),
        move_3: group(groups, 13),
        move_4: group(groups, 14),
    }
}

/// The fields of a trainer that the matches of the second pattern capture:
/// those of the first match, and none where nothing matched.
pub open spec fn header_from(found: Seq<Seq<Option<Seq<char>>>>) -> Option<TrainerFieldsView> {
    if found.len() == 0 {
        None
    } else {
        Some(trainer_fields_from(found[0]))
    }
}

/// The fields of the party members that the matches of the third pattern
/// capture, match by match.
pub open spec fn mons_from(found: Seq<Seq<Option<Seq<char>>>>) -> Seq<PokemonFieldsView> {
    found.map_values(|groups: Seq<Option<Seq<char>>>| pokemon_fields_from(groups))
}

/// The block that one match of the first pattern stands for, its groups
/// standing in the order of [`block_names`].
///
/// A match in which one of the three groups took no part shows a first
/// pattern that does not fit, and a second or third pattern that is no
/// regular expression cannot be matched: each is a fault of the grammar and
/// is reported with the pattern.
pub open spec fn block_from(p: PatternsView, groups: Seq<Option<Seq<char>>>) -> Result<
    BlockView,
    PartyErrorView,
> {
    if group(groups, 0) is None || group(groups, 1) is None || group(groups, 2) is None {
        Err(PartyErrorView::GrammarCompileError(p.trainer_regex))
    } else if !pattern_compiles(p.trainer_fields_regex) {
        Err(PartyErrorView::GrammarCompileError(p.trainer_fields_regex))
    } else if !pattern_compiles(p.pokemon_fields_regex) {
        Err(PartyErrorView::GrammarCompileError(p.pokemon_fields_regex))
    } else {
        Ok(
            BlockView {
                id: group(groups, 0)->0,
                fields: header_from(
                    pattern_captures(p.trainer_fields_regex, trainer_names(), group(groups, 1)->0),
                ),
                mons: mons_from(
                    pattern_captures(p.pokemon_fields_regex, pokemon_names(), group(groups, 2)->0),
                ),
            },
        )
    }
}

/// The blocks that the matches of the first pattern stand for, in their
/// order, or the first fault of the grammar that is met.
pub open spec fn blocks_from(p: PatternsView, found: Seq<Seq<Option<Seq<char>>>>) -> Result<
    Seq<BlockView>,
    PartyErrorView,
>
    decreases found.len(),
{
    if found.len() == 0 {
        Ok(Seq::empty())
    } else {
        match block_from(p, found[0]) {
            Err(e) => Err(e),
            Ok(b) => match blocks_from(p, found.drop_first()) {
                Err(e) => Err(e),
                Ok(rest) => Ok(seq![b] + rest),
            },
        }
    }
}

/// The blocks that a grammar of three patterns finds in a text. A pattern
/// that is no regular expression is reported before any block is made, the
/// first of them in the order of the three.
pub open spec fn pattern_blocks(p: PatternsView, text: Seq<char>) -> Result<
    Seq<BlockView>,
    PartyErrorView,
> {
    if !pattern_compiles(p.trainer_regex) {
        Err(PartyErrorView::GrammarCompileError(p.trainer_regex))
    } else if !pattern_compiles(p.trainer_fields_regex) {
        Err(PartyErrorView::GrammarCompileError(p.trainer_fields_regex))
    } else if !pattern_compiles(p.pokemon_fields_regex) {
        Err(PartyErrorView::GrammarCompileError(p.pokemon_fields_regex))
    } else {
        blocks_from(p, pattern_captures(p.trainer_regex, block_names(), text))
    }
}

/// A copy of the group at a position of a match.
pub fn group_at(groups: &Vec<Option<String>>, i: usize) -> (r: Option<String>)
    ensures
        opt_text(r) == group(groups_view(groups@), i as int),
{
    if i < groups.len() {
        clone_text(&groups[i])
    } else {
        None
    }
}

/// Makes the fields of a trainer from the groups of a match.
pub fn trainer_fields_from_groups(groups: &Vec<Option<String>>) -> (r: TrainerFields)
    ensures
        r@ == trainer_fields_from(groups_view(groups@)),
{
    TrainerFields {
        name: group_at(groups, 0),
        pic: group_at(groups, 1),
        class: group_at(groups, 2),
        gender: group_at(groups, 3),
        music: group_at(groups, 4),
        items: group_at(groups, 5),
        double_battle: group_at(groups, 6),
        ai: group_at(groups, 7),
        mugshot: group_at(groups, 8),
        starting_status: group_at(groups, 9),
    }
}

/// Makes the fields of a party member from the groups of a match.
pub fn pokemon_fields_from_groups(groups: &Vec<Option<String>>) -> (r: PokemonFields)
    ensures
        r@ == pokemon_fields_from(groups_view(groups@)),
{
    PokemonFields {
        species: group_at(groups, 0),
        gender: group_at(groups, 1),
        held_item: group_at(groups, 2),
        level: group_at(groups, 3),
        individual_values: group_at(groups, 4),
        effort_values: group_at(groups, 5),
        ball: group_at(groups, 6),
        happiness: group_at(groups, 7),
        nature: group_at(groups, 8),
        shiny: group_at(groups, 9),
        tera_type: group_at(groups, 10),
        move_1: group_at(groups, 11),
        move_2: group_at(groups, 12),
        move_3: group_at(groups, 13),
        move_4: group_at(groups, 14),
    }
}

/// Makes the fields of a trainer from the matches of the second pattern.
pub fn header_from_captures(found: &Vec<Vec<Option<String>>>) -> (r: Option<TrainerFields>)
    ensures
        opt_fields(r) == header_from(captures_view(found@)),
{
    if found.len() == 0 {
        None
    } else {
        Some(trainer_fields_from_groups(&found[0]))
    }
}

/// Makes the fields of the party members from the matches of the third
/// pattern.
pub fn mons_from_captures(found: &Vec<Vec<Option<String>>>) -> (r: Vec<PokemonFields>)
    ensures
        mons_view(r@) == mons_from(captures_view(found@)),
{
    let mut mons: Vec<PokemonFields> = Vec::new();
    let mut i: usize = 0;
    while i < found.len()
        invariant
            i <= found.len(),
            mons_view(mons@) == mons_from(captures_view(found@).take(i as int)),
        decreases found.len() - i,
    {
        let fields = pokemon_fields_from_groups(&found[i]);
        let ghost before = mons_view(mons@);
        mons.push(fields);
        i += 1;
        assert(mons_view(mons@) =~= mons_from(captures_view(found@).take(i as int))) by {
            assert(mons_view(mons@) =~= before.push(fields@));
            assert(captures_view(found@).take(i as int)[i - 1] == groups_view(found@[i - 1]@));
        }
    }
    assert(captures_view(found@).take(i as int) =~= captures_view(found@));
    mons
}

/// Makes the block that one match of the first pattern stands for: matches
/// the second pattern against what `details` captured, and the third
/// against what `mons` captured.
pub fn block_from_groups(p: &Patterns, groups: &Vec<Option<String>>) -> (r: Result<
    Block,
    PartyError,
>)
    ensures
        match r {
            Ok(b) => block_from(p@, groups_view(groups@)) == Ok::<BlockView, PartyErrorView>(b@),
            Err(e) => block_from(p@, groups_view(groups@)) == Err::<BlockView, PartyErrorView>(e@),
        },
{
    let (Some(id), Some(details), Some(mons)) = (
        group_at(groups, 0),
        group_at(groups, 1),
        group_at(groups, 2),
    ) else {
        return Err(PartyError::GrammarCompileError(p.trainer_regex.clone()));
    };
    let header_groups = vec![
        "name",
        "pic",
        "class",
        "gender",
        "music",
        "items",
        "double_battle",
        "ai",
        "mugshot",
        "starting_status",
    ];
    assert(names_view(header_groups@) =~= trainer_names());
    let Some(header) = capture_all(
        p.trainer_fields_regex.as_str(),
        &header_groups,
        details.as_str(),
    ) else {
        return Err(PartyError::GrammarCompileError(p.trainer_fields_regex.clone()));
    };
    let member_groups = vec![
        "species",
        "gender",
        "held_item",
        "level",
        "individual_values",
        "effort_values",
        "ball",
        "happiness",
        "nature",
        "shiny",
        "tera_type",
        "move_1",
        "move_2",
        "move_3",
        "move_4",
    ];
    assert(names_view(member_groups@) =~= pokemon_names());
    let Some(members) = capture_all(
        p.pokemon_fields_regex.as_str(),
        &member_groups,
        mons.as_str(),
    ) else {
        return Err(PartyError::GrammarCompileError(p.pokemon_fields_regex.clone()));
    };
    Ok(Block { id, fields: header_from_captures(&header), mons: mons_from_captures(&members) })
}

/// Finds the blocks of a text with a grammar of three patterns.
pub fn read_blocks_by_patterns(file_content: &str, p: &Patterns) -> (r: Result<
    Vec<Block>,
    PartyError,
>)
    ensures
        match r {
            Ok(blocks) => pattern_blocks(p@, file_content@) == Ok::<Seq<BlockView>, PartyErrorView>(
                blocks_view(blocks@),
            ),
            Err(e) => pattern_blocks(p@, file_content@) == Err::<Seq<BlockView>, PartyErrorView>(e@),
        },
{
    let block_groups = vec!["name", "details", "mons"];
    assert(names_view(block_groups@) =~= block_names());
    let Some(found) = capture_all(p.trainer_regex.as_str(), &block_groups, file_content) else {
        return Err(PartyError::GrammarCompileError(p.trainer_regex.clone()));
    };
    let no_groups: Vec<&str> = Vec::new();
    if capture_all(p.trainer_fields_regex.as_str(), &no_groups, "").is_none() {
        return Err(PartyError::GrammarCompileError(p.trainer_fields_regex.clone()));
    }
    if capture_all(p.pokemon_fields_regex.as_str(), &no_groups, "").is_none() {
        return Err(PartyError::GrammarCompileError(p.pokemon_fields_regex.clone()));
    }
    let ghost all = captures_view(found@);
    let mut blocks: Vec<Block> = Vec::new();
    let mut i: usize = 0;
    proof {
        assert(all.skip(0) =~= all);
        match blocks_from(p@, all) {
            Ok(r) => assert(blocks_view(blocks@) + r =~= r),
            Err(_) => {},
        }
    }
    while i < found.len()
        invariant
            i <= found.len(),
            all == captures_view(found@),
            pattern_blocks(p@, file_content@) == blocks_from(p@, all),
            blocks_from(p@, all) == after(blocks_view(blocks@), blocks_from(p@, all.skip(i as int))),
        decreases found.len() - i,
    {
        let ghost rest = all.skip(i as int);
        let ghost before = blocks_view(blocks@);
        assert(rest[0] == groups_view(found@[i as int]@));
        assert(rest.drop_first() =~= all.skip(i as int + 1));
        match block_from_groups(p, &found[i]) {
            Err(e) => {
                return Err(e);
            },
            Ok(block) => {
                proof {
                    match blocks_from(p@, all.skip(i as int + 1)) {
                        Ok(r) => assert(before + (seq![block@] + r) =~= before.push(block@) + r),
                        Err(_) => {},
                    }
                }
                blocks.push(block);
                assert(blocks_view(blocks@) =~= before.push(block@));
            },
        }
        i += 1;
    }
    proof {
        assert(all.skip(i as int) =~= Seq::empty());
        assert(blocks_view(blocks@) + Seq::<BlockView>::empty() =~= blocks_view(blocks@));
    }
    Ok(blocks)
}

} // verus!
