//! From captured text to records.
//!
//! A grammar captures the fields of a block as raw text, each one either
//! present or absent. What is in this file turns such captures into trainers
//! and party members: it fills in what is absent, reads the numbers and the
//! gender, and rejects what cannot be a record.

use crate::parties::error::{PartyError, PartyErrorView};
use crate::parties::party::{Pokemon, PokemonGender, PokemonView};
use crate::parties::{party_view, trainers_view, Parties, Trainer, TrainerView};
use crate::text::{opt_text, parse_u8, u8_of_text};
use vstd::prelude::*;
use vstd::string::StringExecFns;

verus! {

/// The captured fields of a party member.
#[derive(Debug)]
pub struct PokemonFields {
    pub species: Option<String>,
    pub gender: Option<String>,
    pub held_item: Option<String>,
    pub level: Option<String>,
    pub individual_values: Option<String>,
    pub effort_values: Option<String>,
    pub ball: Option<String>,
    pub happiness: Option<String>,
    pub nature: Option<String>,
    pub shiny: Option<String>,
    pub tera_type: Option<String>,
    pub move_1: Option<String>,
    pub move_2: Option<String>,
    pub move_3: Option<String>,
    pub move_4: Option<String>,
}

/// What [`PokemonFields`] hold, as mathematical values.
pub ghost struct PokemonFieldsView {
    pub species: Option<Seq<char>>,
    pub gender: Option<Seq<char>>,
    pub held_item: Option<Seq<char>>,
    pub level: Option<Seq<char>>,
    pub individual_values: Option<Seq<char>>,
    pub effort_values: Option<Seq<char>>,
    pub ball: Option<Seq<char>>,
    pub happiness: Option<Seq<char>>,
    pub nature: Option<Seq<char>>,
    pub shiny: Option<Seq<char>>,
    pub tera_type: Option<Seq<char>>,
    pub move_1: Option<Seq<char>>,
    pub move_2: Option<Seq<char>>,
    pub move_3: Option<Seq<char>>,
    pub move_4: Option<Seq<char>>,
}

impl View for PokemonFields {
    type V = PokemonFieldsView;

    open spec fn view(&self) -> PokemonFieldsView {
        PokemonFieldsView {
            species: opt_text(self.species),
            gender: opt_text(self.gender),
            held_item: opt_text(self.held_item),
            level: opt_text(self.level),
            individual_values: opt_text(self.individual_values),
            effort_values: opt_text(self.effort_values),
            ball: opt_text(self.ball),
            happiness: opt_text(self.happiness),
            nature: opt_text(self.nature),
            shiny: opt_text(self.shiny),
            tera_type: opt_text(self.tera_type),
            move_1: opt_text(self.move_1),
            move_2: opt_text(self.move_2),
            move_3: opt_text(self.move_3),
            move_4: opt_text(self.move_4),
        }
    }
}

/// The captured fields of a trainer.
#[derive(Debug)]
pub struct TrainerFields {
    pub name: Option<String>,
    pub pic: Option<String>,
    pub class: Option<String>,
    pub gender: Option<String>,
    pub music: Option<String>,
    pub items: Option<String>,
    pub double_battle: Option<String>,
    pub ai: Option<String>,
    pub mugshot: Option<String>,
    pub starting_status: Option<String>,
}

/// What [`TrainerFields`] hold, as mathematical values.
pub ghost struct TrainerFieldsView {
    pub name: Option<Seq<char>>,
    pub pic: Option<Seq<char>>,
    pub class: Option<Seq<char>>,
    pub gender: Option<Seq<char>>,
    pub music: Option<Seq<char>>,
    pub items: Option<Seq<char>>,
    pub double_battle: Option<Seq<char>>,
    pub ai: Option<Seq<char>>,
    pub mugshot: Option<Seq<char>>,
    pub starting_status: Option<Seq<char>>,
}

impl View for TrainerFields {
    type V = TrainerFieldsView;

    open spec fn view(&self) -> TrainerFieldsView {
        TrainerFieldsView {
            name: opt_text(self.name),
            pic: opt_text(self.pic),
            class: opt_text(self.class),
            gender: opt_text(self.gender),
            music: opt_text(self.music),
            items: opt_text(self.items),
            double_battle: opt_text(self.double_battle),
            ai: opt_text(self.ai),
            mugshot: opt_text(self.mugshot),
            starting_status: opt_text(self.starting_status),
        }
    }
}

/// What a grammar captures of one trainer's block: the id of its delimiter,
/// the trainer's fields unless the grammar found none, and the fields of
/// each party member that it found, in the order of the text.
#[derive(Debug)]
pub struct Block {
    pub id: String,
    pub fields: Option<TrainerFields>,
    pub mons: Vec<PokemonFields>,
}

/// What a [`Block`] holds, as mathematical values.
pub ghost struct BlockView {
    pub id: Seq<char>,
    pub fields: Option<TrainerFieldsView>,
    pub mons: Seq<PokemonFieldsView>,
}

/// What a sequence of captured party members holds.
pub open spec fn mons_view(mons: Seq<PokemonFields>) -> Seq<PokemonFieldsView> {
    mons.map_values(|f: PokemonFields| f@)
}

impl View for Block {
    type V = BlockView;

    open spec fn view(&self) -> BlockView {
        BlockView {
            id: self.id@,
            fields: match self.fields {
                Some(f) => Some(f@),
                None => None,
            },
            mons: mons_view(self.mons@),
        }
    }
}

/// What a sequence of blocks holds.
pub open spec fn blocks_view(blocks: Seq<Block>) -> Seq<BlockView> {
    blocks.map_values(|b: Block| b@)
}

/// The message of the error for a party member without species.
pub open spec fn species_message() -> Seq<char> {
    "Error parsing Pokemon species."@
}

/// The message of the error for a party of more than six.
pub open spec fn too_many_message() -> Seq<char> {
    "More than 6 pokemon found in party"@
}

/// The message of the error for a block in which no field of the trainer was
/// found: it names the trainer.
pub open spec fn header_message(id: Seq<char>) -> Seq<char> {
    "Could not parse trainer fields of "@ + id
}

/// The number that a captured text stands for, if there is a text: a text
/// that is no number from 0 to 255 is an error that carries the text.
pub open spec fn number_of(text: Option<Seq<char>>) -> Result<Option<u8>, PartyErrorView> {
    match text {
        None => Ok(None),
        Some(t) => match u8_of_text(t) {
            Some(n) => Ok(Some(n)),
            None => Err(PartyErrorView::ParseIntError(t)),
        },
    }
}

/// The text of a capture, empty if there is none.
pub open spec fn text_or_empty(text: Option<Seq<char>>) -> Seq<char> {
    match text {
        Some(t) => t,
        None => Seq::empty(),
    }
}

/// The party member that captured fields describe.
///
/// The species must have been captured and not be empty. A gender that was
/// not captured counts as the empty code. Of several faults the first in
/// this order is reported: species, gender, level, happiness. The member is
/// shiny if the text `Yes` was captured for it.
pub open spec fn pokemon_of(f: PokemonFieldsView) -> Result<PokemonView, PartyErrorView> {
    if f.species is None || f.species->0.len() == 0 {
        Err(PartyErrorView::ParsingError(species_message()))
    } else if PokemonGender::of_code(text_or_empty(f.gender)) is None {
        Err(PartyErrorView::GenderConversionError(text_or_empty(f.gender)))
    } else if number_of(f.level) is Err {
        Err(number_of(f.level)->Err_0)
    } else if number_of(f.happiness) is Err {
        Err(number_of(f.happiness)->Err_0)
    } else {
        Ok(
            PokemonView {
                species: f.species->0,
                gender: PokemonGender::of_code(text_or_empty(f.gender))->0,
                held_item: f.held_item,
                level: number_of(f.level)->Ok_0,
                ivs: f.individual_values,
                evs: f.effort_values,
                ball: f.ball,
                happiness: number_of(f.happiness)->Ok_0,
                nature: f.nature,
                shiny: f.shiny == Some("Yes"@),
                dynamax_level: None,
                gigantamax: false,
                tera_type: f.tera_type,
                move_1: f.move_1,
                move_2: f.move_2,
                move_3: f.move_3,
                move_4: f.move_4,
            },
        )
    }
}

/// The party members that a run of captures describes, in its order, when
/// `taken` slots of the party are taken already.
///
/// The captures are gone through in their order, and the first fault ends
/// it: a capture for which no slot is left, or one that describes no member.
pub open spec fn members_of(mons: Seq<PokemonFieldsView>, taken: nat) -> Result<
    Seq<PokemonView>,
    PartyErrorView,
>
    decreases mons.len(),
{
    if mons.len() == 0 {
        Ok(Seq::empty())
    } else if taken >= 6 {
        Err(PartyErrorView::ParsingError(too_many_message()))
    } else {
        match pokemon_of(mons[0]) {
            Err(e) => Err(e),
            Ok(p) => match members_of(mons.drop_first(), taken + 1) {
                Err(e) => Err(e),
                Ok(rest) => Ok(seq![p] + rest),
            },
        }
    }
}

/// The six slots of a party with the given members: the members stand in
/// the first slots in their order, and the slots behind them are empty.
pub open spec fn slots_of(members: Seq<PokemonView>) -> Seq<Option<PokemonView>> {
    Seq::new(
        6,
        |i: int|
            if i < members.len() {
                Some(members[i])
            } else {
                None
            },
    )
}

/// The party that a run of captures describes.
pub open spec fn party_of(mons: Seq<PokemonFieldsView>) -> Result<
    Seq<Option<PokemonView>>,
    PartyErrorView,
> {
    match members_of(mons, 0) {
        Ok(members) => Ok(slots_of(members)),
        Err(e) => Err(e),
    }
}

/// The trainer with the given id that captured fields describe, with an
/// empty party. A name or a picture that was not captured is empty, and the
/// trainer fights double battles if the text `Yes` was captured for it.
pub open spec fn trainer_with(id: Seq<char>, f: TrainerFieldsView) -> TrainerView {
    TrainerView {
        id,
        name: text_or_empty(f.name),
        pic: text_or_empty(f.pic),
        class: f.class,
        gender: f.gender,
        music: f.music,
        items: f.items,
        double_battle: f.double_battle == Some("Yes"@),
        ai: f.ai,
        mugshot: f.mugshot,
        starting_status: f.starting_status,
        party: Seq::new(6, |i: int| None),
    }
}

/// The trainer with the given id that captured fields describe, with an
/// empty party, or the error for a block in which no field was found.
pub open spec fn trainer_fields_of(id: Seq<char>, fields: Option<TrainerFieldsView>) -> Result<
    TrainerView,
    PartyErrorView,
> {
    match fields {
        None => Err(PartyErrorView::ParsingError(header_message(id))),
        Some(f) => Ok(trainer_with(id, f)),
    }
}

/// The trainer that a block describes. A fault of the trainer's fields is
/// reported before one of the party.
pub open spec fn trainer_of(block: BlockView) -> Result<TrainerView, PartyErrorView> {
    match trainer_fields_of(block.id, block.fields) {
        Err(e) => Err(e),
        Ok(t) => match party_of(block.mons) {
            Err(e) => Err(e),
            Ok(party) => Ok(TrainerView { party, ..t }),
        },
    }
}

/// The trainers that a run of blocks describes, in its order, or the first
/// fault that is met.
pub open spec fn trainers_of(blocks: Seq<BlockView>) -> Result<Seq<TrainerView>, PartyErrorView>
    decreases blocks.len(),
{
    if blocks.len() == 0 {
        Ok(Seq::empty())
    } else {
        match trainer_of(blocks[0]) {
            Err(e) => Err(e),
            Ok(t) => match trainers_of(blocks.drop_first()) {
                Err(e) => Err(e),
                Ok(rest) => Ok(seq![t] + rest),
            },
        }
    }
}

/// The outcome of a run that has come to `done` and goes on with `rest`.
pub open spec fn after<T>(done: Seq<T>, rest: Result<Seq<T>, PartyErrorView>) -> Result<
    Seq<T>,
    PartyErrorView,
> {
    match rest {
        Ok(r) => Ok(done + r),
        Err(e) => Err(e),
    }
}

/// A copy of an optional string.
pub fn clone_text(o: &Option<String>) -> (r: Option<String>)
    ensures
        r == *o,
{
    match o {
        Some(s) => Some(s.clone()),
        None => None,
    }
}

/// Reads a captured text as a number, if there is a text.
pub fn parse_number(text: &Option<String>) -> (r: Result<Option<u8>, PartyError>)
    ensures
        match r {
            Ok(n) => number_of(opt_text(*text)) == Ok::<Option<u8>, PartyErrorView>(n),
            Err(e) => number_of(opt_text(*text)) == Err::<Option<u8>, PartyErrorView>(e@),
        },
{
    match text {
        None => Ok(None),
        Some(t) => match parse_u8(t.as_str()) {
            Some(n) => Ok(Some(n)),
            None => Err(PartyError::ParseIntError(t.clone())),
        },
    }
}

/// `text` was captured and is the word `Yes`.
pub fn is_yes(text: &Option<String>) -> (r: bool)
    ensures
        r == (opt_text(*text) == Some("Yes"@)),
{
    match text {
        Some(t) => *t == String::from_str("Yes"),
        None => false,
    }
}

/// Makes the party member that captured fields describe.
pub fn pokemon_from_fields(f: &PokemonFields) -> (r: Result<Pokemon, PartyError>)
    ensures
        match r {
            Ok(p) => pokemon_of(f@) == Ok::<PokemonView, PartyErrorView>(p@),
            Err(e) => pokemon_of(f@) == Err::<PokemonView, PartyErrorView>(e@),
        },
{
    let species = match &f.species {
        Some(s) => s.clone(),
        None => String::new(),
    };
    if species.as_str().is_empty() {
        return Err(PartyError::ParsingError(String::from_str("Error parsing Pokemon species.")));
    }
    let code = match &f.gender {
        Some(s) => s.clone(),
        None => String::new(),
    };
    let gender = match PokemonGender::try_from(code.as_str()) {
        Ok(g) => g,
        Err(e) => {
            return Err(e);
        },
    };
    let level = match parse_number(&f.level) {
        Ok(n) => n,
        Err(e) => {
            return Err(e);
        },
    };
    let happiness = match parse_number(&f.happiness) {
        Ok(n) => n,
        Err(e) => {
            return Err(e);
        },
    };
    Ok(
        Pokemon {
            species,
            gender,
            held_item: clone_text(&f.held_item),
            level,
            ivs: clone_text(&f.individual_values),
            evs: clone_text(&f.effort_values),
            ball: clone_text(&f.ball),
            happiness,
            nature: clone_text(&f.nature),
            shiny: is_yes(&f.shiny),
            dynamax_level: None,
            gigantamax: false,
            tera_type: clone_text(&f.tera_type),
            move_1: clone_text(&f.move_1),
            move_2: clone_text(&f.move_2),
            move_3: clone_text(&f.move_3),
            move_4: clone_text(&f.move_4),
        },
    )
}

/// The text of a capture, empty if there is none, as a string.
pub fn text_or_default(text: &Option<String>) -> (r: String)
    ensures
        r@ == text_or_empty(opt_text(*text)),
{
    match text {
        Some(t) => t.clone(),
        None => String::new(),
    }
}

/// What optional captured fields of a trainer hold.
pub open spec fn opt_fields(fields: Option<TrainerFields>) -> Option<TrainerFieldsView> {
    match fields {
        Some(f) => Some(f@),
        None => None,
    }
}

/// Makes the party that a run of captures describes.
pub fn parse_mons_fields(mons: &Vec<PokemonFields>) -> (r: Result<[Option<Pokemon>; 6], PartyError>)
    ensures
        match r {
            Ok(party) => party_of(mons_view(mons@)) == Ok::<
                Seq<Option<PokemonView>>,
                PartyErrorView,
            >(party_view(party@)),
            Err(e) => party_of(mons_view(mons@)) == Err::<Seq<Option<PokemonView>>, PartyErrorView>(
                e@,
            ),
        },
{
    let mut party: [Option<Pokemon>; 6] = [None, None, None, None, None, None];
    let ghost all = mons_view(mons@);
    let ghost mut done: Seq<PokemonView> = Seq::empty();
    let mut i: usize = 0;
    proof {
        assert(all.skip(0) =~= all);
        assert(party_view(party@) =~= slots_of(done));
        match members_of(all, 0) {
            Ok(r) => assert(done + r =~= r),
            Err(_) => {},
        }
    }
    while i < mons.len()
        invariant
            i <= mons.len(),
            i <= 6,
            all == mons_view(mons@),
            done.len() == i,
            members_of(all, 0) == after(done, members_of(all.skip(i as int), i as nat)),
            party_view(party@) == slots_of(done),
        decreases mons.len() - i,
    {
        let ghost rest = all.skip(i as int);
        assert(rest[0] == mons@[i as int]@);
        assert(rest.drop_first() =~= all.skip(i as int + 1));
        if i > 5 {
            return Err(
                PartyError::ParsingError(String::from_str("More than 6 pokemon found in party")),
            );
        }
        match pokemon_from_fields(&mons[i]) {
            Err(e) => {
                return Err(e);
            },
            Ok(mon) => {
                proof {
                    match members_of(all.skip(i as int + 1), i as nat + 1) {
                        Ok(r) => assert(done + (seq![mon@] + r) =~= done.push(mon@) + r),
                        Err(_) => {},
                    }
                    done = done.push(mon@);
                }
                let ghost before = party@;
                party[i] = Some(mon);
                assert(party@ =~= before.update(i as int, party@[i as int]));
                assert forall|k: int| 0 <= k < 6 implies #[trigger] party_view(party@)[k] == slots_of(
                    done,
                )[k] by {
                    if k != i {
                        assert(party_view(before)[k] == slots_of(done.drop_last())[k]);
                    }
                }
                assert(party_view(party@) =~= slots_of(done));
            },
        }
        i += 1;
    }
    proof {
        assert(all.skip(i as int) =~= Seq::empty());
        assert(done + Seq::<PokemonView>::empty() =~= done);
    }
    Ok(party)
}

/// Makes the trainer with the given id that captured fields describe, with
/// an empty party. Where the grammar captured no field at all, there is no
/// trainer, and the error names the id.
pub fn parse_trainer_fields(id: &str, fields: &Option<TrainerFields>) -> (r: Result<
    Trainer,
    PartyError,
>)
    ensures
        match r {
            Ok(t) => trainer_fields_of(id@, opt_fields(*fields)) == Ok::<TrainerView, PartyErrorView>(
                t@,
            ),
            Err(e) => trainer_fields_of(id@, opt_fields(*fields)) == Err::<
                TrainerView,
                PartyErrorView,
            >(e@),
        },
{
    let Some(f) = fields else {
        let mut error = String::from_str("Could not parse trainer fields of ");
        error.append(id);
        return Err(PartyError::ParsingError(error));
    };
    let trainer = Trainer {
        id: String::from_str(id),
        name: text_or_default(&f.name),
        pic: text_or_default(&f.pic),
        class: clone_text(&f.class),
        gender: clone_text(&f.gender),
        music: clone_text(&f.music),
        items: clone_text(&f.items),
        double_battle: is_yes(&f.double_battle),
        ai: clone_text(&f.ai),
        mugshot: clone_text(&f.mugshot),
        starting_status: clone_text(&f.starting_status),
        party: [None, None, None, None, None, None],
    };
    assert(trainer@.party =~= trainer_with(id@, f@).party);
    Ok(trainer)
}

/// Makes the trainer that a block describes.
pub fn trainer_from_block(block: &Block) -> (r: Result<Trainer, PartyError>)
    ensures
        match r {
            Ok(t) => trainer_of(block@) == Ok::<TrainerView, PartyErrorView>(t@),
            Err(e) => trainer_of(block@) == Err::<TrainerView, PartyErrorView>(e@),
        },
{
    let mut trainer = match parse_trainer_fields(block.id.as_str(), &block.fields) {
        Ok(t) => t,
        Err(e) => {
            return Err(e);
        },
    };
    let mons = match parse_mons_fields(&block.mons) {
        Ok(m) => m,
        Err(e) => {
            return Err(e);
        },
    };
    trainer.party = mons;
    Ok(trainer)
}

/// Makes the collection of the trainers that a run of blocks describes.
pub fn parties_from_blocks(blocks: &Vec<Block>) -> (r: Result<Parties, PartyError>)
    ensures
        match r {
            Ok(p) => trainers_of(blocks_view(blocks@)) == Ok::<Seq<TrainerView>, PartyErrorView>(p@)
                && p.wf() && p.index() == crate::parties::index_of(
                crate::parties::ids_of(p.trainers()),
            ),
            Err(e) => trainers_of(blocks_view(blocks@)) == Err::<Seq<TrainerView>, PartyErrorView>(
                e@,
            ),
        },
{
    let mut parties: Vec<Trainer> = Vec::new();
    let ghost all = blocks_view(blocks@);
    let mut i: usize = 0;
    proof {
        assert(all.skip(0) =~= all);
        match trainers_of(all) {
            Ok(r) => assert(trainers_view(parties@) + r =~= r),
            Err(_) => {},
        }
    }
    while i < blocks.len()
        invariant
            i <= blocks.len(),
            all == blocks_view(blocks@),
            trainers_of(all) == after(trainers_view(parties@), trainers_of(all.skip(i as int))),
        decreases blocks.len() - i,
    {
        let ghost rest = all.skip(i as int);
        let ghost before = trainers_view(parties@);
        assert(rest[0] == blocks@[i as int]@);
        assert(rest.drop_first() =~= all.skip(i as int + 1));
        match trainer_from_block(&blocks[i]) {
            Err(e) => {
                return Err(e);
            },
            Ok(trainer) => {
                proof {
                    match trainers_of(all.skip(i as int + 1)) {
                        Ok(r) => assert(before + (seq![trainer@] + r) =~= before.push(trainer@) + r),
                        Err(_) => {},
                    }
                }
                parties.push(trainer);
                assert(trainers_view(parties@) =~= before.push(trainer@));
            },
        }
        i += 1;
    }
    proof {
        assert(all.skip(i as int) =~= Seq::empty());
        assert(trainers_view(parties@) + Seq::<TrainerView>::empty() =~= trainers_view(parties@));
    }
    Ok(Parties::new(parties))
}

} // verus!
