//! What holds of reading and writing, whatever the text and the trainers.

use crate::parties::emerald_expansion::fields::{
    members_of, party_of, pokemon_of, species_message, too_many_message, trainer_with,
    PokemonFieldsView,
};
use crate::parties::emerald_expansion::fitting::lemma_read_fits;
use crate::parties::emerald_expansion::grammar::{
    first_line_of, is_species, pokemon_fields_of, trainer_captures,
};
use crate::parties::emerald_expansion::parse_text;
use crate::parties::emerald_expansion::round_trip::{
    lemma_attr_lines, lemma_pokemon_fields_written, lemma_pokemon_of_written,
    lemma_trainer_captures_written, lemma_written_is_read, pokemon_fits,
};
use crate::parties::emerald_expansion::writer::{
    all_well_formed, labeled_line, optional_line, pokemon_lines, trainer_field_lines,
    trainers_lines,
};
use crate::parties::error::PartyErrorView;
use crate::parties::party::PokemonView;
use crate::parties::TrainerView;
use crate::text::join_lines;
use vstd::prelude::*;

verus! {

/// Reading, writing and reading again gives what the first reading gave:
/// the trainers that a text means can be written, and the text that is
/// written of them means the same trainers.
pub proof fn read_write_read(text: Seq<char>)
    requires
        parse_text(text) is Ok,
    ensures
        all_well_formed(parse_text(text)->Ok_0),
        parse_text(join_lines(trainers_lines(parse_text(text)->Ok_0))) == parse_text(text),
{
    let ts = parse_text(text)->Ok_0;
    lemma_read_fits(text);
    lemma_written_is_read(ts);
    assert forall|i: int| 0 <= i < ts.len() implies (#[trigger] ts[i]).well_formed() by {}
}

/// From any of the first six captures on, more than six captures of which
/// the first six describe members are refused for their number.
pub proof fn lemma_too_many(mons: Seq<PokemonFieldsView>, k: int)
    requires
        mons.len() > 6,
        0 <= k <= 6,
        forall|i: int| 0 <= i < 6 ==> pokemon_of(#[trigger] mons[i]) is Ok,
    ensures
        members_of(mons.skip(k), k as nat) == Err::<Seq<PokemonView>, PartyErrorView>(
            PartyErrorView::ParsingError(too_many_message()),
        ),
    decreases 6 - k,
{
    let rest = mons.skip(k);
    if k < 6 {
        assert(rest[0] == mons[k]);
        assert(rest.drop_first() =~= mons.skip(k + 1));
        lemma_too_many(mons, k + 1);
    }
}

/// A seventh party member is one too many: captures of more than six
/// members, of which the first six describe members, are refused for their
/// number, and none of them is left out in silence.
pub proof fn seventh_member_is_refused(mons: Seq<PokemonFieldsView>)
    requires
        mons.len() > 6,
        forall|i: int| 0 <= i < 6 ==> pokemon_of(#[trigger] mons[i]) is Ok,
    ensures
        party_of(mons) == Err::<Seq<Option<PokemonView>>, PartyErrorView>(
            PartyErrorView::ParsingError(too_many_message()),
        ),
{
    lemma_too_many(mons, 0);
    assert(mons.skip(0) =~= mons);
}

/// The members that a run of captures describes are as many as the
/// captures, each described by the capture at its position, and the party
/// has room for them.
pub proof fn lemma_members_of_all(mons: Seq<PokemonFieldsView>, taken: nat)
    requires
        members_of(mons, taken) is Ok,
    ensures
        members_of(mons, taken)->Ok_0.len() == mons.len(),
        mons.len() == 0 || taken + mons.len() <= 6,
        forall|i: int|
            0 <= i < mons.len() ==> pokemon_of(#[trigger] mons[i]) == Ok::<
                PokemonView,
                PartyErrorView,
            >(members_of(mons, taken)->Ok_0[i]),
    decreases mons.len(),
{
    if mons.len() > 0 {
        let rest = mons.drop_first();
        lemma_members_of_all(rest, taken + 1);
        let p = pokemon_of(mons[0])->Ok_0;
        let behind = members_of(rest, taken + 1)->Ok_0;
        let all = seq![p] + behind;
        assert forall|i: int| 0 <= i < mons.len() implies pokemon_of(#[trigger] mons[i]) == Ok::<
            PokemonView,
            PartyErrorView,
        >(all[i]) by {
            if i > 0 {
                assert(rest[i - 1] == mons[i]);
                assert(all[i] == behind[i - 1]);
            }
        }
    }
}

/// A party that is read holds every member that was captured, each in the
/// slot of its position, and nothing else.
pub proof fn every_member_is_kept(mons: Seq<PokemonFieldsView>)
    requires
        party_of(mons) is Ok,
    ensures
        mons.len() <= 6,
        party_of(mons)->Ok_0.len() == 6,
        forall|i: int|
            0 <= i < mons.len() ==> pokemon_of(#[trigger] mons[i]) is Ok && party_of(mons)->Ok_0[i]
                == Some(pokemon_of(mons[i])->Ok_0),
        forall|i: int| mons.len() <= i < 6 ==> (#[trigger] party_of(mons)->Ok_0[i]) is None,
{
    lemma_members_of_all(mons, 0);
}

/// Lines of a party member whose first line captures nothing describe no
/// member: reading fails for want of a species.
pub proof fn member_without_species_is_refused(lines: Seq<Seq<char>>)
    requires
        lines.len() > 0,
        first_line_of(lines[0]) is None,
    ensures
        pokemon_of(pokemon_fields_of(lines)) == Err::<PokemonView, PartyErrorView>(
            PartyErrorView::ParsingError(species_message()),
        ),
{
}

/// A line that holds a species and nothing else describes the member of
/// that species with nothing else set.
pub proof fn species_alone_is_a_member(species: Seq<char>)
    requires
        is_species(species),
    ensures
        pokemon_of(pokemon_fields_of(seq![species])) == Ok::<PokemonView, PartyErrorView>(
            PokemonView { species, ..PokemonView::unset() },
        ),
{
    let p = PokemonView { species, ..PokemonView::unset() };
    assert(pokemon_fits(p));
    lemma_attr_lines(p);
    assert(pokemon_lines(p) =~= seq![species]);
    lemma_pokemon_fields_written(p);
    lemma_pokemon_of_written(p);
}

/// The flag for double battles is kept: a trainer who fights double
/// battles is written with the line `Double Battle: Yes`, and what is read
/// from the lines of any trainer's fields has the flag of that trainer.
pub proof fn double_battle_is_kept(t: TrainerView)
    ensures
        t.double_battle ==> trainer_field_lines(t).contains(
            labeled_line("Double Battle"@, "Yes"@),
        ),
        trainer_with(t.id, trainer_captures(trainer_field_lines(t))).double_battle
            == t.double_battle,
{
    lemma_trainer_captures_written(t);
    reveal_strlit("Yes");
    reveal_strlit("No");
    assert("Yes"@.len() != "No"@.len());
    let before = seq![labeled_line("Name"@, t.name), labeled_line("Pic"@, t.pic)] + optional_line(
        "Class"@,
        t.class,
    ) + optional_line("Gender"@, t.gender) + optional_line("Music"@, t.music) + optional_line(
        "Items"@,
        t.items,
    );
    let k = before.len() as int;
    assert(trainer_field_lines(t)[k] == labeled_line(
        "Double Battle"@,
        crate::parties::emerald_expansion::writer::yes_no(t.double_battle),
    ));
}

} // verus!
