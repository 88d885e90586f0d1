//! Writing trainers and their parties as text.

use crate::parties::emerald_expansion::parse_text;
use crate::parties::emerald_expansion::round_trip::{all_fit, lemma_written_is_read};
use crate::parties::error::{PartyError, PartyErrorView};
use crate::parties::party::{Pokemon, PokemonGender, PokemonView};
use crate::parties::{party_view, party_well_formed, Parties, Trainer, TrainerView};
use crate::text::{join_lines, lemma_join_lines_add, text_of_u8, u8_to_string};
use vstd::prelude::*;
use vstd::string::StringExecFns;

verus! {

/// The line of a field that has a label: the label, a colon, a space and the
/// value.
pub open spec fn labeled_line(label: Seq<char>, value: Seq<char>) -> Seq<char> {
    label + seq![':', ' '] + value
}

/// The line of a field that may be missing: none when it is.
pub open spec fn optional_line(label: Seq<char>, value: Option<Seq<char>>) -> Seq<Seq<char>> {
    match value {
        Some(v) => seq![labeled_line(label, v)],
        None => Seq::empty(),
    }
}

/// The numeral of a number that may be missing.
pub open spec fn opt_numeral(n: Option<u8>) -> Option<Seq<char>> {
    match n {
        Some(n) => Some(text_of_u8(n)),
        None => None,
    }
}

/// The line that opens the block of the trainer with the given id.
pub open spec fn delimiter_line(id: Seq<char>) -> Seq<char> {
    "=== "@ + id + " ==="@
}

/// How the flag for double battles is written.
pub open spec fn yes_no(flag: bool) -> Seq<char> {
    if flag {
        "Yes"@
    } else {
        "No"@
    }
}

/// The lines of a trainer's own fields: name and picture, then the optional
/// fields that are set, in a fixed order, with the flag for double battles
/// always among them.
pub open spec fn trainer_field_lines(t: TrainerView) -> Seq<Seq<char>> {
    seq![labeled_line("Name"@, t.name), labeled_line("Pic"@, t.pic)]
        + optional_line("Class"@, t.class)
        + optional_line("Gender"@, t.gender)
        + optional_line("Music"@, t.music)
        + optional_line("Items"@, t.items)
        + seq![labeled_line("Double Battle"@, yes_no(t.double_battle))]
        + optional_line("AI"@, t.ai)
        + optional_line("Mugshot"@, t.mugshot)
        + optional_line("Starting Status"@, t.starting_status)
}

/// The first line of a party member: the species, the gender in parentheses
/// unless it is unspecified, and the held item behind an at sign if there is
/// one.
pub open spec fn pokemon_first_line(p: PokemonView) -> Seq<char> {
    p.species
        + (if p.gender == PokemonGender::Unspecified {
            Seq::empty()
        } else {
            " ("@ + p.gender.code() + ")"@
        })
        + (match p.held_item {
            Some(item) => " @ "@ + item,
            None => Seq::empty(),
        })
}

/// The line of a nature.
pub open spec fn nature_line(nature: Option<Seq<char>>) -> Seq<Seq<char>> {
    match nature {
        Some(n) => seq![n + " Nature"@],
        None => Seq::empty(),
    }
}

/// The line of a move.
pub open spec fn move_line(m: Option<Seq<char>>) -> Seq<Seq<char>> {
    match m {
        Some(m) => seq!["- "@ + m],
        None => Seq::empty(),
    }
}

/// The lines of a party member: the first line, the attributes that are set
/// in a fixed order, and the moves that are set in the order of their slots.
pub open spec fn pokemon_lines(p: PokemonView) -> Seq<Seq<char>> {
    seq![pokemon_first_line(p)]
        + optional_line("Level"@, opt_numeral(p.level))
        + optional_line("IVs"@, p.ivs)
        + optional_line("EVs"@, p.evs)
        + optional_line("Ball"@, p.ball)
        + optional_line("Happiness"@, opt_numeral(p.happiness))
        + nature_line(p.nature)
        + optional_line("Tera Type"@, p.tera_type)
        + move_line(p.move_1)
        + move_line(p.move_2)
        + move_line(p.move_3)
        + move_line(p.move_4)
}

/// The lines of what one slot holds: those of the member and an empty line
/// behind them, or nothing for an empty slot.
pub open spec fn slot_lines(slot: Option<PokemonView>) -> Seq<Seq<char>> {
    match slot {
        Some(p) => pokemon_lines(p).push(Seq::empty()),
        None => Seq::empty(),
    }
}

/// The lines of a party: those of its slots in their order.
pub open spec fn party_lines(party: Seq<Option<PokemonView>>) -> Seq<Seq<char>>
    decreases party.len(),
{
    if party.len() == 0 {
        Seq::empty()
    } else {
        party_lines(party.drop_last()) + slot_lines(party.last())
    }
}

/// The lines of a trainer's block: the delimiter, the trainer's fields, an
/// empty line, the party, and one more empty line.
pub open spec fn trainer_lines(t: TrainerView) -> Seq<Seq<char>> {
    seq![delimiter_line(t.id)] + trainer_field_lines(t).push(Seq::empty()) + party_lines(
        t.party,
    ).push(Seq::empty())
}

/// The lines of a file: the blocks of its trainers in their order.
pub open spec fn trainers_lines(ts: Seq<TrainerView>) -> Seq<Seq<char>>
    decreases ts.len(),
{
    if ts.len() == 0 {
        Seq::empty()
    } else {
        trainers_lines(ts.drop_last()) + trainer_lines(ts.last())
    }
}

/// Every trainer of the sequence has a well-formed party.
pub open spec fn all_well_formed(ts: Seq<TrainerView>) -> bool {
    forall|i: int| 0 <= i < ts.len() ==> (#[trigger] ts[i]).well_formed()
}

/// The message of the error for a party that cannot be written.
pub open spec fn malformed_party_message() -> Seq<char> {
    "Party has a member behind an empty slot or a member without species"@
}

/// The text of lines with one more line behind them is the text of the
/// lines with this line and a line feed behind it.
pub proof fn lemma_join_push(lines: Seq<Seq<char>>, line: Seq<char>)
    ensures
        join_lines(lines.push(line)) == join_lines(lines) + line + seq!['\n'],
{
    assert(lines.push(line).drop_last() =~= lines);
}

/// Appending with a line feed behind: a helper that saves the caller from
/// writing the line feed with every line.
pub trait PushLn {
    /// The text that the value holds.
    spec fn text(&self) -> Seq<char>;

    /// Appends `string` and a line feed.
    fn push_ln(&mut self, string: &str)
        ensures
            final(self).text() == old(self).text() + string@ + seq!['\n'],
    ;
}

impl PushLn for String {
    open spec fn text(&self) -> Seq<char> {
        self@
    }

    fn push_ln(&mut self, string: &str) {
        self.append(string);
        self.push('\n');
    }
}

/// Appends the line of a labeled field to `res` if the field is set.
pub fn push_field_if_some(field: &Option<String>, name: &str, res: &mut String)
    ensures
        final(res)@ == old(res)@ + join_lines(optional_line(name@, opt_text_ref(field))),
{
    if let Some(value) = field {
        let mut line = String::from_str(name);
        line.append(": ");
        line.append(value.as_str());
        proof {
            reveal_strlit(": ");
            assert(line@ =~= labeled_line(name@, value@));
            lemma_join_push(Seq::empty(), line@);
            assert(Seq::<Seq<char>>::empty().push(line@) =~= optional_line(name@, Some(value@)));
            assert(join_lines(Seq::empty()) =~= Seq::<char>::empty());
        }
        res.push_ln(line.as_str());
        assert(res@ =~= old(res)@ + join_lines(optional_line(name@, opt_text_ref(field))));
    } else {
        assert(join_lines(Seq::empty()) =~= Seq::<char>::empty());
        assert(res@ =~= old(res)@ + join_lines(optional_line(name@, opt_text_ref(field))));
    }
}

/// The text of an optional string that is borrowed.
pub open spec fn opt_text_ref(o: &Option<String>) -> Option<Seq<char>> {
    crate::text::opt_text(*o)
}

/// Appends the line of a labeled field to `res`.
pub fn push_field(value: &str, name: &str, res: &mut String)
    ensures
        final(res)@ == old(res)@ + join_lines(seq![labeled_line(name@, value@)]),
{
    let mut line = String::from_str(name);
    line.append(": ");
    line.append(value);
    proof {
        reveal_strlit(": ");
        assert(line@ =~= labeled_line(name@, value@));
        lemma_join_push(Seq::empty(), line@);
        assert(Seq::<Seq<char>>::empty().push(line@) =~= seq![labeled_line(name@, value@)]);
        assert(join_lines(Seq::empty()) =~= Seq::<char>::empty());
    }
    res.push_ln(line.as_str());
    assert(res@ =~= old(res)@ + join_lines(seq![labeled_line(name@, value@)]));
}

/// Appends the line of a move to `res` if the move is set.
pub fn push_move_if_some(field: &Option<String>, res: &mut String)
    ensures
        final(res)@ == old(res)@ + join_lines(move_line(opt_text_ref(field))),
{
    if let Some(value) = field {
        let mut line = String::from_str("- ");
        line.append(value.as_str());
        proof {
            lemma_join_push(Seq::empty(), line@);
            assert(Seq::<Seq<char>>::empty().push(line@) =~= move_line(Some(value@)));
            assert(join_lines(Seq::empty()) =~= Seq::<char>::empty());
        }
        res.push_ln(line.as_str());
        assert(res@ =~= old(res)@ + join_lines(move_line(opt_text_ref(field))));
    } else {
        assert(join_lines(Seq::empty()) =~= Seq::<char>::empty());
        assert(res@ =~= old(res)@ + join_lines(move_line(opt_text_ref(field))));
    }
}

/// The numeral of a number that may be missing, as a string.
pub fn numeral_if_some(n: Option<u8>) -> (r: Option<String>)
    ensures
        opt_text_ref(&r) == opt_numeral(n),
{
    match n {
        Some(v) => Some(u8_to_string(v)),
        None => None,
    }
}

/// Writes the lines of one party member, each with its line feed.
pub fn write_mon(pokemon: &Pokemon) -> (r: String)
    ensures
        r@ == join_lines(pokemon_lines(pokemon@)),
{
    let mut mon_fields = String::new();
    let ghost p = pokemon@;

    mon_fields.append(pokemon.species.as_str());
    match pokemon.gender {
        PokemonGender::Unspecified => {},
        _ => {
            let code = pokemon.gender.to_code();
            mon_fields.append(" (");
            mon_fields.append(code.as_str());
            mon_fields.append(")");
        },
    }
    if let Some(ref value) = pokemon.held_item {
        mon_fields.append(" @ ");
        mon_fields.append(value.as_str());
    }
    assert(mon_fields@ =~= pokemon_first_line(p));
    mon_fields.push('\n');
    let ghost mut acc: Seq<Seq<char>> = seq![pokemon_first_line(p)];
    proof {
        lemma_join_push(Seq::empty(), pokemon_first_line(p));
        assert(Seq::<Seq<char>>::empty().push(pokemon_first_line(p)) =~= acc);
        assert(join_lines(Seq::empty()) =~= Seq::<char>::empty());
        assert(mon_fields@ =~= join_lines(acc));
    }

    let level = numeral_if_some(pokemon.level);
    push_field_if_some(&level, "Level", &mut mon_fields);
    proof {
        let l = optional_line("Level"@, opt_numeral(p.level));
        lemma_join_lines_add(acc, l);
        acc = acc + l;
    }
    push_field_if_some(&pokemon.ivs, "IVs", &mut mon_fields);
    proof {
        let l = optional_line("IVs"@, p.ivs);
        lemma_join_lines_add(acc, l);
        acc = acc + l;
    }
    push_field_if_some(&pokemon.evs, "EVs", &mut mon_fields);
    proof {
        let l = optional_line("EVs"@, p.evs);
        lemma_join_lines_add(acc, l);
        acc = acc + l;
    }
    push_field_if_some(&pokemon.ball, "Ball", &mut mon_fields);
    proof {
        let l = optional_line("Ball"@, p.ball);
        lemma_join_lines_add(acc, l);
        acc = acc + l;
    }
    let happiness = numeral_if_some(pokemon.happiness);
    push_field_if_some(&happiness, "Happiness", &mut mon_fields);
    proof {
        let l = optional_line("Happiness"@, opt_numeral(p.happiness));
        lemma_join_lines_add(acc, l);
        acc = acc + l;
    }
    if let Some(ref value) = pokemon.nature {
        let mut line = String::from_str(value.as_str());
        line.append(" Nature");
        proof {
            lemma_join_push(acc, line@);
            assert(acc.push(line@) =~= acc + nature_line(p.nature));
        }
        mon_fields.push_ln(line.as_str());
    }
    proof {
        assert(acc + Seq::<Seq<char>>::empty() =~= acc);
        acc = acc + nature_line(p.nature);
        assert(mon_fields@ =~= join_lines(acc));
    }
    push_field_if_some(&pokemon.tera_type, "Tera Type", &mut mon_fields);
    proof {
        let l = optional_line("Tera Type"@, p.tera_type);
        lemma_join_lines_add(acc, l);
        acc = acc + l;
    }
    push_move_if_some(&pokemon.move_1, &mut mon_fields);
    proof {
        lemma_join_lines_add(acc, move_line(p.move_1));
        acc = acc + move_line(p.move_1);
    }
    push_move_if_some(&pokemon.move_2, &mut mon_fields);
    proof {
        lemma_join_lines_add(acc, move_line(p.move_2));
        acc = acc + move_line(p.move_2);
    }
    push_move_if_some(&pokemon.move_3, &mut mon_fields);
    proof {
        lemma_join_lines_add(acc, move_line(p.move_3));
        acc = acc + move_line(p.move_3);
    }
    push_move_if_some(&pokemon.move_4, &mut mon_fields);
    proof {
        lemma_join_lines_add(acc, move_line(p.move_4));
        acc = acc + move_line(p.move_4);
        assert(acc =~= pokemon_lines(p));
    }
    mon_fields
}

/// Writes the members of a party, each followed by an empty line. A party
/// that is not well formed is not written.
pub fn write_mons_field(mons: &[Option<Pokemon>; 6]) -> (r: Result<String, PartyError>)
    ensures
        match r {
            Ok(s) => party_well_formed(party_view(mons@)) && s@ == join_lines(
                party_lines(party_view(mons@)),
            ),
            Err(e) => !party_well_formed(party_view(mons@)) && e@ == PartyErrorView::ParsingError(
                malformed_party_message(),
            ),
        },
{
    let mut result = String::new();
    let ghost party = party_view(mons@);
    let mut gap = false;
    let ghost mut gap_at: int = 0;
    let mut i: usize = 0;
    assert(party.take(0) =~= Seq::empty());
    assert(join_lines(Seq::empty()) =~= Seq::<char>::empty());
    while i < 6
        invariant
            i <= 6,
            party == party_view(mons@),
            party.len() == 6,
            result@ == join_lines(party_lines(party.take(i as int))),
            gap ==> 0 <= gap_at < i && party[gap_at] is None,
            !gap ==> forall|a: int| 0 <= a < i ==> party[a] is Some,
            forall|a: int, b: int| 0 <= a < b < i && party[b] is Some ==> party[a] is Some,
            forall|a: int| 0 <= a < i && party[a] is Some ==> (#[trigger] party[a])->0.species.len() > 0,
        decreases 6 - i,
    {
        let ghost before = party.take(i as int);
        let ghost after = party.take(i as int + 1);
        assert(after.drop_last() =~= before);
        assert(after.last() == party[i as int]);
        assert(party[i as int] == crate::parties::opt_pokemon(mons@[i as int]));
        match &mons[i] {
            None => {
                proof {
                    gap_at = i as int;
                    assert(party_lines(after) =~= party_lines(before));
                }
                gap = true;
            },
            Some(pokemon) => {
                if gap || pokemon.species.as_str().is_empty() {
                    return Err(
                        PartyError::ParsingError(
                            String::from_str(
                                "Party has a member behind an empty slot or a member without species",
                            ),
                        ),
                    );
                }
                let mon_fields = write_mon(pokemon);
                proof {
                    let lines = pokemon_lines(pokemon@);
                    lemma_join_push(lines, Seq::empty());
                    lemma_join_lines_add(party_lines(before), lines.push(Seq::empty()));
                }
                result.push_ln(mon_fields.as_str());
            },
        }
        i += 1;
    }
    assert(party.take(6) =~= party);
    Ok(result)
}

/// Writes the lines of a trainer's own fields, each with its line feed.
pub fn write_trainer_fields(trainer: &Trainer) -> (r: Result<String, PartyError>)
    ensures
        r matches Ok(s) && s@ == join_lines(trainer_field_lines(trainer@)),
{
    let mut result = String::new();
    let ghost t = trainer@;
    let ghost mut acc: Seq<Seq<char>> = Seq::empty();

    push_field(trainer.name.as_str(), "Name", &mut result);
    push_field(trainer.pic.as_str(), "Pic", &mut result);
    proof {
        let a = seq![labeled_line("Name"@, t.name)];
        let b = seq![labeled_line("Pic"@, t.pic)];
        lemma_join_lines_add(a, b);
        acc = seq![labeled_line("Name"@, t.name), labeled_line("Pic"@, t.pic)];
        assert(a + b =~= acc);
        assert(result@ =~= join_lines(acc));
    }
    push_field_if_some(&trainer.class, "Class", &mut result);
    proof {
        let l = optional_line("Class"@, t.class);
        lemma_join_lines_add(acc, l);
        acc = acc + l;
        assert(result@ =~= join_lines(acc));
    }
    push_field_if_some(&trainer.gender, "Gender", &mut result);
    proof {
        let l = optional_line("Gender"@, t.gender);
        lemma_join_lines_add(acc, l);
        acc = acc + l;
        assert(result@ =~= join_lines(acc));
    }
    push_field_if_some(&trainer.music, "Music", &mut result);
    proof {
        let l = optional_line("Music"@, t.music);
        lemma_join_lines_add(acc, l);
        acc = acc + l;
        assert(result@ =~= join_lines(acc));
    }
    push_field_if_some(&trainer.items, "Items", &mut result);
    proof {
        let l = optional_line("Items"@, t.items);
        lemma_join_lines_add(acc, l);
        acc = acc + l;
        assert(result@ =~= join_lines(acc));
    }
    push_field(if trainer.double_battle { "Yes" } else { "No" }, "Double Battle", &mut result);
    proof {
        let l = seq![labeled_line("Double Battle"@, yes_no(t.double_battle))];
        lemma_join_lines_add(acc, l);
        acc = acc + l;
        assert(result@ =~= join_lines(acc));
    }
    push_field_if_some(&trainer.ai, "AI", &mut result);
    proof {
        let l = optional_line("AI"@, t.ai);
        lemma_join_lines_add(acc, l);
        acc = acc + l;
        assert(result@ =~= join_lines(acc));
    }
    push_field_if_some(&trainer.mugshot, "Mugshot", &mut result);
    proof {
        let l = optional_line("Mugshot"@, t.mugshot);
        lemma_join_lines_add(acc, l);
        acc = acc + l;
        assert(result@ =~= join_lines(acc));
    }
    push_field_if_some(&trainer.starting_status, "Starting Status", &mut result);
    proof {
        let l = optional_line("Starting Status"@, t.starting_status);
        lemma_join_lines_add(acc, l);
        acc = acc + l;
        assert(result@ =~= join_lines(acc));
        assert(acc == trainer_field_lines(t));
    }
    Ok(result)
}

/// The text of a trainer's block is made of its parts.
pub proof fn lemma_join_trainer_lines(t: TrainerView)
    ensures
        join_lines(trainer_lines(t)) == delimiter_line(t.id) + seq!['\n'] + join_lines(
            trainer_field_lines(t),
        ) + seq!['\n'] + join_lines(party_lines(t.party)) + seq!['\n'],
{
    let head = seq![delimiter_line(t.id)];
    let fields = trainer_field_lines(t).push(Seq::empty());
    let party = party_lines(t.party).push(Seq::empty());
    lemma_join_lines_add(head + fields, party);
    lemma_join_lines_add(head, fields);
    lemma_join_push(Seq::empty(), delimiter_line(t.id));
    assert(Seq::<Seq<char>>::empty().push(delimiter_line(t.id)) =~= head);
    assert(join_lines(Seq::empty()) =~= Seq::<char>::empty());
    lemma_join_push(trainer_field_lines(t), Seq::empty());
    lemma_join_push(party_lines(t.party), Seq::empty());
    assert(join_lines(trainer_lines(t)) =~= delimiter_line(t.id) + seq!['\n'] + join_lines(
        trainer_field_lines(t),
    ) + seq!['\n'] + join_lines(party_lines(t.party)) + seq!['\n']);
}

/// Writes the trainers of a collection as the text of a party file: the
/// blocks of the trainers in their order. A collection that holds a trainer
/// whose party is not well formed is not written. What is written of
/// trainers that the format can hold is read as these trainers.
pub fn to_emerald_expansion_format(parties: &Parties) -> (r: Result<String, PartyError>)
    ensures
        match r {
            Ok(s) => all_well_formed(parties@) && s@ == join_lines(trainers_lines(parties@)),
            Err(e) => !all_well_formed(parties@) && e@ == PartyErrorView::ParsingError(
                malformed_party_message(),
            ),
        },
        r is Ok && all_fit(parties@) ==> parse_text(r->Ok_0@) == Ok::<
            Seq<TrainerView>,
            PartyErrorView,
        >(parties@),
{
    proof {
        if all_fit(parties@) {
            lemma_written_is_read(parties@);
        }
    }
    let trainers = parties.as_vec();
    let ghost all = parties@;
    let mut result = String::new();
    let mut i: usize = 0;
    assert(all.take(0) =~= Seq::empty());
    assert(join_lines(Seq::empty()) =~= Seq::<char>::empty());
    while i < trainers.len()
        invariant
            i <= trainers.len(),
            trainers@ == parties.trainers(),
            all == parties@,
            all.len() == trainers.len(),
            result@ == join_lines(trainers_lines(all.take(i as int))),
            forall|k: int| 0 <= k < i ==> (#[trigger] all[k]).well_formed(),
        decreases trainers.len() - i,
    {
        let trainer = &trainers[i];
        let ghost t = trainer@;
        assert(all[i as int] == t);
        assert(all.take(i as int + 1).drop_last() =~= all.take(i as int));
        assert(all.take(i as int + 1).last() == t);
        let mut line = String::from_str("=== ");
        line.append(trainer.id.as_str());
        line.append(" ===");
        assert(line@ =~= delimiter_line(t.id));
        result.push_ln(line.as_str());
        let fields = match write_trainer_fields(trainer) {
            Ok(f) => f,
            Err(e) => {
                return Err(e);
            },
        };
        result.push_ln(fields.as_str());
        let mons = match write_mons_field(&trainer.party) {
            Ok(m) => m,
            Err(e) => {
                return Err(e);
            },
        };
        result.push_ln(mons.as_str());
        proof {
            lemma_join_trainer_lines(t);
            lemma_join_lines_add(trainers_lines(all.take(i as int)), trainer_lines(t));
            assert(result@ =~= join_lines(trainers_lines(all.take(i as int))) + join_lines(
                trainer_lines(t),
            ));
        }
        i += 1;
    }
    assert(all.take(i as int) =~= all);
    Ok(result)
}

} // verus!
