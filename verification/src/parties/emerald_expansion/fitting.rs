//! What is read can be written.
//!
//! The lemmas of this file lead to one statement: the trainers that a text
//! means are trainers that the format can hold.

use crate::parties::emerald_expansion::fields::{
    members_of, party_of, pokemon_of, slots_of, trainer_of, trainers_of, BlockView,
    PokemonFieldsView, TrainerFieldsView,
};
use crate::parties::emerald_expansion::grammar::{
    block_of, blocks_of, body_run, delimiter_id, filled_run, first_line_of, in_class, is_id,
    is_species, is_word, last_field, last_nature, lemma_body_run_bound,
    lemma_filled_run_bound, mons_of, move_in, moves_in, nth_move, pokemon_fields_of,
    species_len, starts_with, value_after, CharClass,
};
use crate::parties::emerald_expansion::parse_text;
use crate::parties::emerald_expansion::round_trip::{
    all_fit, members_fit, opt_plain, pokemon_fits, trainer_fits,
};
use crate::parties::party_well_formed;
use crate::text::{lemma_line_end_bound, line_end, no_newline, split_lines};
use vstd::prelude::*;

verus! {

/// No line of a run has a line feed.
pub open spec fn all_plain(lines: Seq<Seq<char>>) -> bool {
    forall|k: int| 0 <= k < lines.len() ==> no_newline(#[trigger] lines[k])
}

/// No line of a text has a line feed.
pub proof fn lemma_split_lines_plain(text: Seq<char>)
    ensures
        all_plain(split_lines(text)),
    decreases text.len(),
{
    let n = line_end(text) as int;
    lemma_line_end_bound(text);
    if n >= text.len() {
        assert(text.take(n) =~= text);
    } else {
        lemma_split_lines_plain(text.skip(n + 1));
        let rest = split_lines(text.skip(n + 1));
        let all = seq![text.take(n)] + rest;
        assert forall|k: int| 0 <= k < all.len() implies no_newline(#[trigger] all[k]) by {
            if k > 0 {
                assert(all[k] == rest[k - 1]);
            }
        }
    }
}

/// A part of a run of lines without line feeds has none either.
pub proof fn lemma_plain_part(lines: Seq<Seq<char>>, from: int, to: int)
    requires
        all_plain(lines),
        0 <= from <= to <= lines.len(),
    ensures
        all_plain(lines.subrange(from, to)),
{
    let part = lines.subrange(from, to);
    assert forall|k: int| 0 <= k < part.len() implies no_newline(#[trigger] part[k]) by {
        assert(part[k] == lines[from + k]);
    }
}

/// What stands behind a mark on a line without line feed has none either.
pub proof fn lemma_value_plain(line: Seq<char>, mark: Seq<char>)
    requires
        no_newline(line),
    ensures
        opt_plain(value_after(line, mark)),
{
    if starts_with(line, mark) {
        let rest = line.skip(mark.len() as int);
        assert forall|i: int| 0 <= i < rest.len() implies rest[i] != '\n' by {
            assert(rest[i] == line[mark.len() + i]);
        }
        if rest.len() > 0 {
            assert forall|i: int| 0 <= i < rest.drop_first().len() implies rest.drop_first()[i]
                != '\n' by {
                assert(rest.drop_first()[i] == rest[i + 1]);
            }
        }
    }
}

/// The value of a field in lines without line feeds has none either.
pub proof fn lemma_last_field_plain(lines: Seq<Seq<char>>, label: Seq<char>)
    requires
        all_plain(lines),
    ensures
        opt_plain(last_field(lines, label)),
    decreases lines.len(),
{
    if lines.len() > 0 {
        assert(no_newline(lines[lines.len() - 1]));
        lemma_value_plain(lines.last(), label.push(':'));
        lemma_plain_part(lines, 0, lines.len() - 1);
        assert(lines.drop_last() =~= lines.subrange(0, lines.len() - 1));
        lemma_last_field_plain(lines.drop_last(), label);
    }
}

/// A nature that is read is a word.
pub proof fn lemma_last_nature_word(lines: Seq<Seq<char>>)
    ensures
        last_nature(lines) is Some ==> is_word(last_nature(lines)->0),
    decreases lines.len(),
{
    if lines.len() > 0 {
        lemma_last_nature_word(lines.drop_last());
    }
}

/// The moves in lines without line feeds have none either.
pub proof fn lemma_moves_plain(lines: Seq<Seq<char>>)
    requires
        all_plain(lines),
    ensures
        all_plain(moves_in(lines)),
    decreases lines.len(),
{
    if lines.len() > 0 {
        assert(no_newline(lines[lines.len() - 1]));
        lemma_value_plain(lines.last(), seq!['-']);
        lemma_plain_part(lines, 0, lines.len() - 1);
        assert(lines.drop_last() =~= lines.subrange(0, lines.len() - 1));
        lemma_moves_plain(lines.drop_last());
        let before = moves_in(lines.drop_last());
        match move_in(lines.last()) {
            Some(v) => {
                assert forall|k: int| 0 <= k < before.push(v).len() implies no_newline(
                    #[trigger] before.push(v)[k],
                ) by {
                    if k < before.len() {
                        assert(before.push(v)[k] == before[k]);
                    }
                }
            },
            None => {},
        }
    }
}

/// The characters that are counted at the start of a line can stand in a
/// species.
pub proof fn lemma_species_prefix(line: Seq<char>)
    ensures
        species_len(line) <= line.len(),
        forall|i: int| 0 <= i < species_len(line) ==> in_class(#[trigger] line[i], CharClass::Species),
    decreases line.len(),
{
    if line.len() == 0 || !in_class(line[0], CharClass::Species) {
    } else {
        let rest = line.drop_first();
        lemma_species_prefix(rest);
        assert forall|i: int| 0 <= i < species_len(line) implies in_class(
            #[trigger] line[i],
            CharClass::Species,
        ) by {
            if i > 0 {
                assert(rest[i - 1] == line[i]);
            }
        }
    }
}

/// Captured fields of a party member as the grammar of this library
/// captures them.
pub open spec fn fields_fit(f: PokemonFieldsView) -> bool {
    &&& (f.species is Some ==> is_species(f.species->0))
    &&& opt_plain(f.held_item)
    &&& opt_plain(f.individual_values)
    &&& opt_plain(f.effort_values)
    &&& opt_plain(f.ball)
    &&& (f.nature is Some ==> is_word(f.nature->0))
    &&& f.shiny is None
    &&& opt_plain(f.tera_type)
    &&& opt_plain(f.move_1)
    &&& opt_plain(f.move_2)
    &&& opt_plain(f.move_3)
    &&& opt_plain(f.move_4)
    &&& (f.move_2 is Some ==> f.move_1 is Some)
    &&& (f.move_3 is Some ==> f.move_2 is Some)
    &&& (f.move_4 is Some ==> f.move_3 is Some)
}

/// What the first line of a party member captures of a line without line
/// feed is a species and a held item without line feed.
pub proof fn lemma_first_line_fits(line: Seq<char>)
    requires
        no_newline(line),
    ensures
        first_line_of(line) is Some ==> is_species(first_line_of(line)->0.species) && opt_plain(
            first_line_of(line)->0.held_item,
        ),
{
    lemma_species_prefix(line);
    let n = species_len(line) as int;
    if first_line_of(line) is Some {
        let species = line.take(n);
        assert forall|i: int| 0 <= i < species.len() implies in_class(
            #[trigger] species[i],
            CharClass::Species,
        ) by {
            assert(species[i] == line[i]);
        }
        let rest = line.skip(n);
        let has_gender = rest.len() >= 4 && rest[0] == ' ' && rest[1] == '(' && rest[3] == ')';
        let tail = if has_gender {
            rest.skip(4)
        } else {
            rest
        };
        let at = " @ "@;
        if tail.len() > 0 {
            let item = tail.skip(at.len() as int);
            assert forall|i: int| 0 <= i < item.len() implies item[i] != '\n' by {
                if has_gender {
                    assert(item[i] == line[n + 4 + at.len() + i]);
                } else {
                    assert(item[i] == line[n + at.len() + i]);
                }
            }
        }
    }
}

/// What the lines of one party member capture, if they have no line feeds,
/// is as the grammar of this library captures it.
pub proof fn lemma_pokemon_fields_fit(lines: Seq<Seq<char>>)
    requires
        lines.len() > 0,
        all_plain(lines),
    ensures
        fields_fit(pokemon_fields_of(lines)),
{
    let rest = lines.drop_first();
    assert(no_newline(lines[0]));
    lemma_first_line_fits(lines[0]);
    lemma_plain_part(lines, 1, lines.len() as int);
    assert(rest =~= lines.subrange(1, lines.len() as int));
    lemma_last_field_plain(rest, "IVs"@);
    lemma_last_field_plain(rest, "EVs"@);
    lemma_last_field_plain(rest, "Ball"@);
    lemma_last_field_plain(rest, "Tera Type"@);
    lemma_last_nature_word(rest);
    lemma_moves_plain(rest);
    let moves = moves_in(rest);
    assert(opt_plain(nth_move(moves, 0)));
    assert(opt_plain(nth_move(moves, 1)));
    assert(opt_plain(nth_move(moves, 2)));
    assert(opt_plain(nth_move(moves, 3)));
}

/// Every party member that is captured from lines without line feeds is as
/// the grammar of this library captures it.
pub proof fn lemma_mons_fit(lines: Seq<Seq<char>>)
    requires
        all_plain(lines),
    ensures
        forall|i: int| 0 <= i < mons_of(lines).len() ==> fields_fit(#[trigger] mons_of(lines)[i]),
    decreases lines.len(),
{
    if lines.len() == 0 {
    } else if lines[0].len() == 0 {
        lemma_plain_part(lines, 1, lines.len() as int);
        assert(lines.drop_first() =~= lines.subrange(1, lines.len() as int));
        lemma_mons_fit(lines.drop_first());
        assert(mons_of(lines) == mons_of(lines.drop_first()));
    } else {
        let n = filled_run(lines) as int;
        lemma_filled_run_bound(lines);
        lemma_plain_part(lines, 0, n);
        lemma_plain_part(lines, n, lines.len() as int);
        assert(lines.take(n) =~= lines.subrange(0, n));
        assert(lines.skip(n) =~= lines.subrange(n, lines.len() as int));
        lemma_pokemon_fields_fit(lines.take(n));
        lemma_mons_fit(lines.skip(n));
        let rest = mons_of(lines.skip(n));
        let all = seq![pokemon_fields_of(lines.take(n))] + rest;
        assert forall|i: int| 0 <= i < all.len() implies fields_fit(#[trigger] all[i]) by {
            if i > 0 {
                assert(all[i] == rest[i - 1]);
            }
        }
        assert(mons_of(lines) == all);
    }
}

/// No captured field of a trainer has a line feed.
pub open spec fn header_plain(f: TrainerFieldsView) -> bool {
    &&& opt_plain(f.name)
    &&& opt_plain(f.pic)
    &&& opt_plain(f.class)
    &&& opt_plain(f.gender)
    &&& opt_plain(f.music)
    &&& opt_plain(f.items)
    &&& opt_plain(f.double_battle)
    &&& opt_plain(f.ai)
    &&& opt_plain(f.mugshot)
    &&& opt_plain(f.starting_status)
}

/// A block as the grammar of this library captures it.
pub open spec fn block_fits(b: BlockView) -> bool {
    &&& is_id(b.id)
    &&& (b.fields is Some ==> header_plain(b.fields->0))
    &&& forall|i: int| 0 <= i < b.mons.len() ==> fields_fit(#[trigger] b.mons[i])
}

/// The block that is captured from lines without line feeds behind a
/// delimiter line is as the grammar of this library captures it.
pub proof fn lemma_block_fits(id: Seq<char>, body: Seq<Seq<char>>)
    requires
        is_id(id),
        all_plain(body),
    ensures
        block_fits(block_of(id, body)),
{
    let h = filled_run(body) as int;
    lemma_filled_run_bound(body);
    let head = body.take(h);
    lemma_plain_part(body, 0, h);
    lemma_plain_part(body, h, body.len() as int);
    assert(head =~= body.subrange(0, h));
    assert(body.skip(h) =~= body.subrange(h, body.len() as int));
    lemma_last_field_plain(head, "Name"@);
    lemma_last_field_plain(head, "Pic"@);
    lemma_last_field_plain(head, "Class"@);
    lemma_last_field_plain(head, "Gender"@);
    lemma_last_field_plain(head, "Music"@);
    lemma_last_field_plain(head, "Items"@);
    lemma_last_field_plain(head, "Double Battle"@);
    lemma_last_field_plain(head, "AI"@);
    lemma_last_field_plain(head, "Mugshot"@);
    lemma_last_field_plain(head, "Starting Status"@);
    lemma_mons_fit(body.skip(h));
}

/// Every block that is captured from lines without line feeds is as the
/// grammar of this library captures it.
pub proof fn lemma_blocks_fit(lines: Seq<Seq<char>>)
    requires
        all_plain(lines),
    ensures
        forall|i: int| 0 <= i < blocks_of(lines).len() ==> block_fits(#[trigger] blocks_of(lines)[i]),
    decreases lines.len(),
{
    if lines.len() > 0 {
        let rest = lines.drop_first();
        lemma_plain_part(lines, 1, lines.len() as int);
        assert(rest =~= lines.subrange(1, lines.len() as int));
        match delimiter_id(lines[0]) {
            None => {
                lemma_blocks_fit(rest);
                assert(blocks_of(lines) == blocks_of(rest));
            },
            Some(id) => {
                let n = body_run(rest) as int;
                lemma_body_run_bound(rest);
                lemma_plain_part(lines, 1, 1 + n);
                lemma_plain_part(lines, 1 + n, lines.len() as int);
                assert(lines.skip(1 + n) =~= lines.subrange(1 + n, lines.len() as int));
                lemma_block_fits(id, lines.subrange(1, 1 + n));
                lemma_blocks_fit(lines.skip(1 + n));
                let behind = blocks_of(lines.skip(1 + n));
                let all = seq![block_of(id, lines.subrange(1, 1 + n))] + behind;
                assert forall|i: int| 0 <= i < all.len() implies block_fits(#[trigger] all[i]) by {
                    if i > 0 {
                        assert(all[i] == behind[i - 1]);
                    }
                }
                assert(blocks_of(lines) == all);
            },
        }
    }
}

/// The party member that captured fields describe is one that the format
/// can hold, if the fields are as the grammar of this library captures
/// them.
pub proof fn lemma_pokemon_of_fits(f: PokemonFieldsView)
    requires
        fields_fit(f),
        pokemon_of(f) is Ok,
    ensures
        pokemon_fits(pokemon_of(f)->Ok_0),
{
}

/// The party members that captured fields describe are members that the
/// format can hold, and no more than the party has room for.
pub proof fn lemma_members_of_fit(mons: Seq<PokemonFieldsView>, taken: nat)
    requires
        forall|i: int| 0 <= i < mons.len() ==> fields_fit(#[trigger] mons[i]),
        members_of(mons, taken) is Ok,
    ensures
        forall|i: int|
            0 <= i < members_of(mons, taken)->Ok_0.len() ==> pokemon_fits(
                #[trigger] members_of(mons, taken)->Ok_0[i],
            ),
        members_of(mons, taken)->Ok_0.len() == 0 || taken + members_of(mons, taken)->Ok_0.len() <= 6,
    decreases mons.len(),
{
    if mons.len() > 0 {
        let rest = mons.drop_first();
        assert(fields_fit(mons[0]));
        lemma_pokemon_of_fits(mons[0]);
        assert forall|i: int| 0 <= i < rest.len() implies fields_fit(#[trigger] rest[i]) by {
            assert(rest[i] == mons[i + 1]);
        }
        lemma_members_of_fit(rest, taken + 1);
        let p = pokemon_of(mons[0])->Ok_0;
        let behind = members_of(rest, taken + 1)->Ok_0;
        let all = seq![p] + behind;
        assert forall|i: int| 0 <= i < all.len() implies pokemon_fits(#[trigger] all[i]) by {
            if i > 0 {
                assert(all[i] == behind[i - 1]);
            }
        }
    }
}

/// The party that captured fields describe is well formed, and the format
/// can hold its members.
pub proof fn lemma_party_of_fits(mons: Seq<PokemonFieldsView>)
    requires
        forall|i: int| 0 <= i < mons.len() ==> fields_fit(#[trigger] mons[i]),
        party_of(mons) is Ok,
    ensures
        party_well_formed(party_of(mons)->Ok_0),
        members_fit(party_of(mons)->Ok_0),
{
    lemma_members_of_fit(mons, 0);
    let ms = members_of(mons, 0)->Ok_0;
    let party = slots_of(ms);
    assert forall|i: int| 0 <= i < 6 && party[i] is Some implies (#[trigger] party[i])->0.species.len()
        > 0 && pokemon_fits(party[i]->0) by {
        assert(party[i]->0 == ms[i]);
    }
}

/// The trainer that a block describes is one that the format can hold, if
/// the block is as the grammar of this library captures it.
pub proof fn lemma_trainer_of_fits(b: BlockView)
    requires
        block_fits(b),
        trainer_of(b) is Ok,
    ensures
        trainer_fits(trainer_of(b)->Ok_0),
{
    lemma_party_of_fits(b.mons);
}

/// The trainers that blocks describe are trainers that the format can
/// hold, if the blocks are as the grammar of this library captures them.
pub proof fn lemma_trainers_of_fit(blocks: Seq<BlockView>)
    requires
        forall|i: int| 0 <= i < blocks.len() ==> block_fits(#[trigger] blocks[i]),
        trainers_of(blocks) is Ok,
    ensures
        all_fit(trainers_of(blocks)->Ok_0),
    decreases blocks.len(),
{
    if blocks.len() > 0 {
        let rest = blocks.drop_first();
        assert(block_fits(blocks[0]));
        lemma_trainer_of_fits(blocks[0]);
        assert forall|i: int| 0 <= i < rest.len() implies block_fits(#[trigger] rest[i]) by {
            assert(rest[i] == blocks[i + 1]);
        }
        lemma_trainers_of_fit(rest);
        let t = trainer_of(blocks[0])->Ok_0;
        let behind = trainers_of(rest)->Ok_0;
        let all = seq![t] + behind;
        assert forall|i: int| 0 <= i < all.len() implies trainer_fits(#[trigger] all[i]) by {
            if i > 0 {
                assert(all[i] == behind[i - 1]);
            }
        }
    }
}

/// What is read can be written: the trainers that a text means are
/// trainers that the format can hold.
pub proof fn lemma_read_fits(text: Seq<char>)
    requires
        parse_text(text) is Ok,
    ensures
        all_fit(parse_text(text)->Ok_0),
{
    lemma_split_lines_plain(text);
    lemma_blocks_fit(split_lines(text));
    lemma_trainers_of_fit(blocks_of(split_lines(text)));
}

} // verus!
