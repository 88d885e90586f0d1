//! What is written can be read again.
//!
//! The lemmas of this file lead to one statement: the text that the writer
//! makes of trainers that the format can hold is read as these trainers.

use crate::parties::emerald_expansion::fields::{
    members_of, number_of, party_of, pokemon_of, slots_of, text_or_empty, trainer_of,
    trainer_with, trainers_of, BlockView, PokemonFieldsView, TrainerFieldsView,
};
use crate::parties::emerald_expansion::grammar::{
    block_of, blocks_of, body_run, delimiter_id, ends_with, field_in, filled_run,
    first_line_of, header_fields_of, in_class, is_delimiter, is_id, is_species, is_word,
    last_field, last_nature, mons_of, move_in, moves_in, nature_in, nth_move,
    pokemon_fields_of, species_len, starts_with, trainer_captures, CharClass, FirstLine,
};
use crate::parties::emerald_expansion::parse_text;
use crate::parties::emerald_expansion::writer::{
    delimiter_line, labeled_line, move_line, nature_line, opt_numeral, optional_line,
    party_lines, pokemon_first_line, pokemon_lines, slot_lines, trainer_field_lines,
    trainer_lines, trainers_lines, yes_no,
};
use crate::parties::error::PartyErrorView;
use crate::parties::party::{PokemonGender, PokemonView};
use crate::parties::{party_well_formed, TrainerView};
use crate::text::{join_lines, lemma_split_join, lemma_u8_text_round_trip, no_newline};
use vstd::prelude::*;

verus! {

/// A label of a field: it is not empty, does not begin with a hyphen or an
/// equals sign, and holds neither a colon nor a line feed.
pub open spec fn is_label(l: Seq<char>) -> bool {
    &&& l.len() > 0
    &&& l[0] != '-'
    &&& l[0] != '='
    &&& forall|i: int| 0 <= i < l.len() ==> #[trigger] l[i] != ':' && l[i] != '\n'
}

/// The line of a field holds that field and no field with another label.
pub proof fn lemma_field_in_labeled(l: Seq<char>, v: Seq<char>, t: Seq<char>)
    requires
        is_label(l),
        is_label(t),
    ensures
        field_in(labeled_line(l, v), t) == (if l == t {
            Some(v)
        } else {
            None
        }),
{
    let line = labeled_line(l, v);
    let mark = t.push(':');
    if l == t {
        assert(starts_with(line, mark)) by {
            assert forall|i: int| 0 <= i < mark.len() implies line[i] == #[trigger] mark[i] by {}
        }
        let rest = line.skip(mark.len() as int);
        assert(rest[0] == ' ');
        assert(rest.drop_first() =~= v);
    } else if starts_with(line, mark) {
        if t.len() == l.len() {
            assert forall|i: int| 0 <= i < l.len() implies l[i] == t[i] by {
                assert(line[i] == mark[i]);
            }
            assert(l =~= t);
        } else if t.len() < l.len() {
            assert(line[t.len() as int] == mark[t.len() as int]);
            assert(l[t.len() as int] == ':');
        } else {
            assert(line[l.len() as int] == mark[l.len() as int]);
            assert(t[l.len() as int] == ':');
        }
    }
}

/// A line that holds a colon or a hyphen holds no nature.
pub proof fn lemma_no_nature(line: Seq<char>, k: int)
    requires
        0 <= k < line.len(),
        line[k] == ':' || line[k] == '-',
    ensures
        nature_in(line) is None,
{
    let close = " Nature"@;
    reveal_strlit(" Nature");
    let n = line.len() - close.len();
    if close.len() < line.len() && ends_with(line, close) && is_word(line.take(n)) {
        if k < n {
            assert(line.take(n)[k] == line[k]);
        } else {
            assert(line[n + (k - n)] == close[k - n]);
        }
    }
}

/// The line of a nature holds that nature.
pub proof fn lemma_nature_in_line(word: Seq<char>)
    requires
        is_word(word),
    ensures
        nature_in(word + " Nature"@) == Some(word),
{
    let close = " Nature"@;
    let line = word + close;
    reveal_strlit(" Nature");
    assert(line.take(line.len() - close.len()) =~= word);
    assert(ends_with(line, close)) by {
        assert forall|i: int| 0 <= i < close.len() implies line[line.len() - close.len() + i]
            == #[trigger] close[i] by {}
    }
}

/// The line of a move holds that move.
pub proof fn lemma_move_in_line(m: Seq<char>)
    ensures
        move_in("- "@ + m) == Some(m),
{
    reveal_strlit("- ");
    let line = "- "@ + m;
    let mark = seq!['-'];
    assert(starts_with(line, mark)) by {
        assert forall|i: int| 0 <= i < mark.len() implies line[i] == #[trigger] mark[i] by {}
    }
    let rest = line.skip(1);
    assert(rest[0] == ' ');
    assert(rest.drop_first() =~= m);
}

/// A line that does not begin with a hyphen holds no move.
pub proof fn lemma_no_move(line: Seq<char>)
    requires
        line.len() == 0 || line[0] != '-',
    ensures
        move_in(line) is None,
{
    let mark = seq!['-'];
    if starts_with(line, mark) {
        assert(line[0] == mark[0]);
    }
}

/// A line that begins otherwise than a label, or that has another character
/// than a colon where the colon of the label would stand, holds no field
/// with that label.
pub proof fn lemma_no_field(line: Seq<char>, t: Seq<char>, k: int)
    requires
        0 <= k <= t.len(),
        k < line.len() ==> line[k] != t.push(':')[k],
    ensures
        field_in(line, t) is None,
{
    let mark = t.push(':');
    if starts_with(line, mark) {
        assert(line[k] == mark[k]);
    }
}

/// The labels of the grammar are labels, and no two of them are the same.
pub proof fn lemma_labels()
    ensures
        is_label("Name"@) && "Name"@[0] == 'N',
        is_label("Pic"@) && "Pic"@[0] == 'P',
        is_label("Class"@) && "Class"@[0] == 'C',
        is_label("Gender"@) && "Gender"@[0] == 'G',
        is_label("Music"@) && "Music"@[0] == 'M' && "Music"@[2] == 's',
        is_label("Items"@) && "Items"@[0] == 'I' && "Items"@[1] == 't',
        is_label("Double Battle"@) && "Double Battle"@[0] == 'D',
        is_label("AI"@) && "AI"@[0] == 'A',
        is_label("Mugshot"@) && "Mugshot"@[0] == 'M' && "Mugshot"@[2] == 'g',
        is_label("Starting Status"@) && "Starting Status"@[0] == 'S',
        is_label("Level"@) && "Level"@[0] == 'L',
        is_label("IVs"@) && "IVs"@[0] == 'I' && "IVs"@[1] == 'V',
        is_label("EVs"@) && "EVs"@[0] == 'E',
        is_label("Ball"@) && "Ball"@[0] == 'B',
        is_label("Happiness"@) && "Happiness"@[0] == 'H',
        is_label("Tera Type"@) && "Tera Type"@[0] == 'T',
{
    reveal_strlit("Name");
    reveal_strlit("Pic");
    reveal_strlit("Class");
    reveal_strlit("Gender");
    reveal_strlit("Music");
    reveal_strlit("Items");
    reveal_strlit("Double Battle");
    reveal_strlit("AI");
    reveal_strlit("Mugshot");
    reveal_strlit("Starting Status");
    reveal_strlit("Level");
    reveal_strlit("IVs");
    reveal_strlit("EVs");
    reveal_strlit("Ball");
    reveal_strlit("Happiness");
    reveal_strlit("Tera Type");
}

/// Behind a run of lines, the line of a field that is set gives the field
/// its value, and changes no field with another label.
pub proof fn lemma_last_field_step(
    lines: Seq<Seq<char>>,
    l: Seq<char>,
    value: Option<Seq<char>>,
    t: Seq<char>,
)
    requires
        is_label(l),
        is_label(t),
    ensures
        last_field(lines + optional_line(l, value), t) == (if value is Some && l == t {
            value
        } else {
            last_field(lines, t)
        }),
{
    match value {
        None => {
            assert(lines + optional_line(l, value) =~= lines);
        },
        Some(v) => {
            let all = lines + optional_line(l, value);
            assert(all.last() == labeled_line(l, v));
            assert(all.drop_last() =~= lines);
            lemma_field_in_labeled(l, v, t);
        },
    }
}

/// What the lines of a trainer's fields capture when one more field is
/// written behind them.
pub open spec fn with_trainer_field(
    f: TrainerFieldsView,
    l: Seq<char>,
    value: Option<Seq<char>>,
) -> TrainerFieldsView {
    let set = |t: Seq<char>, old: Option<Seq<char>>|
        if value is Some && l == t {
            value
        } else {
            old
        };
    TrainerFieldsView {
        name: set("Name"@, f.name),
        pic: set("Pic"@, f.pic),
        class: set("Class"@, f.class),
        gender: set("Gender"@, f.gender),
        music: set("Music"@, f.music),
        items: set("Items"@, f.items),
        double_battle: set("Double Battle"@, f.double_battle),
        ai: set("AI"@, f.ai),
        mugshot: set("Mugshot"@, f.mugshot),
        starting_status: set("Starting Status"@, f.starting_status),
    }
}

/// Behind a run of lines, the line of a field that is set changes what is
/// captured of a trainer in this field alone.
pub proof fn lemma_trainer_captures_step(
    lines: Seq<Seq<char>>,
    l: Seq<char>,
    value: Option<Seq<char>>,
)
    requires
        is_label(l),
    ensures
        trainer_captures(lines + optional_line(l, value)) == with_trainer_field(
            trainer_captures(lines),
            l,
            value,
        ),
{
    lemma_labels();
    lemma_last_field_step(lines, l, value, "Name"@);
    lemma_last_field_step(lines, l, value, "Pic"@);
    lemma_last_field_step(lines, l, value, "Class"@);
    lemma_last_field_step(lines, l, value, "Gender"@);
    lemma_last_field_step(lines, l, value, "Music"@);
    lemma_last_field_step(lines, l, value, "Items"@);
    lemma_last_field_step(lines, l, value, "Double Battle"@);
    lemma_last_field_step(lines, l, value, "AI"@);
    lemma_last_field_step(lines, l, value, "Mugshot"@);
    lemma_last_field_step(lines, l, value, "Starting Status"@);
}

/// The fields that the lines of a trainer's fields stand for.
pub open spec fn trainer_fields_written(t: TrainerView) -> TrainerFieldsView {
    TrainerFieldsView {
        name: Some(t.name),
        pic: Some(t.pic),
        class: t.class,
        gender: t.gender,
        music: t.music,
        items: t.items,
        double_battle: Some(yes_no(t.double_battle)),
        ai: t.ai,
        mugshot: t.mugshot,
        starting_status: t.starting_status,
    }
}

/// The lines of a trainer's fields capture these fields.
pub proof fn lemma_trainer_captures_written(t: TrainerView)
    ensures
        trainer_captures(trainer_field_lines(t)) == trainer_fields_written(t),
{
    lemma_labels();
    let a0 = Seq::<Seq<char>>::empty();
    let a1 = a0 + optional_line("Name"@, Some(t.name));
    let a2 = a1 + optional_line("Pic"@, Some(t.pic));
    let a3 = a2 + optional_line("Class"@, t.class);
    let a4 = a3 + optional_line("Gender"@, t.gender);
    let a5 = a4 + optional_line("Music"@, t.music);
    let a6 = a5 + optional_line("Items"@, t.items);
    let a7 = a6 + optional_line("Double Battle"@, Some(yes_no(t.double_battle)));
    let a8 = a7 + optional_line("AI"@, t.ai);
    let a9 = a8 + optional_line("Mugshot"@, t.mugshot);
    let a10 = a9 + optional_line("Starting Status"@, t.starting_status);
    assert(a2 =~= seq![labeled_line("Name"@, t.name), labeled_line("Pic"@, t.pic)]);
    assert(a10 == trainer_field_lines(t));
    lemma_trainer_captures_step(a0, "Name"@, Some(t.name));
    lemma_trainer_captures_step(a1, "Pic"@, Some(t.pic));
    lemma_trainer_captures_step(a2, "Class"@, t.class);
    lemma_trainer_captures_step(a3, "Gender"@, t.gender);
    lemma_trainer_captures_step(a4, "Music"@, t.music);
    lemma_trainer_captures_step(a5, "Items"@, t.items);
    lemma_trainer_captures_step(a6, "Double Battle"@, Some(yes_no(t.double_battle)));
    lemma_trainer_captures_step(a7, "AI"@, t.ai);
    lemma_trainer_captures_step(a8, "Mugshot"@, t.mugshot);
    lemma_trainer_captures_step(a9, "Starting Status"@, t.starting_status);
}

/// What the lines behind the first line of a party member capture.
pub ghost struct AttrView {
    pub level: Option<Seq<char>>,
    pub ivs: Option<Seq<char>>,
    pub evs: Option<Seq<char>>,
    pub ball: Option<Seq<char>>,
    pub happiness: Option<Seq<char>>,
    pub nature: Option<Seq<char>>,
    pub tera_type: Option<Seq<char>>,
    pub moves: Seq<Seq<char>>,
}

/// What a run of lines behind the first line of a party member captures.
pub open spec fn attrs_in(lines: Seq<Seq<char>>) -> AttrView {
    AttrView {
        level: last_field(lines, "Level"@),
        ivs: last_field(lines, "IVs"@),
        evs: last_field(lines, "EVs"@),
        ball: last_field(lines, "Ball"@),
        happiness: last_field(lines, "Happiness"@),
        nature: last_nature(lines),
        tera_type: last_field(lines, "Tera Type"@),
        moves: moves_in(lines),
    }
}

/// What is captured when one more field is written behind a run of lines.
pub open spec fn with_attr(a: AttrView, l: Seq<char>, value: Option<Seq<char>>) -> AttrView {
    let set = |t: Seq<char>, old: Option<Seq<char>>|
        if value is Some && l == t {
            value
        } else {
            old
        };
    AttrView {
        level: set("Level"@, a.level),
        ivs: set("IVs"@, a.ivs),
        evs: set("EVs"@, a.evs),
        ball: set("Ball"@, a.ball),
        happiness: set("Happiness"@, a.happiness),
        nature: a.nature,
        tera_type: set("Tera Type"@, a.tera_type),
        moves: a.moves,
    }
}

/// The text of an optional value as a run of at most one element.
pub open spec fn one_or_none(value: Option<Seq<char>>) -> Seq<Seq<char>> {
    match value {
        Some(v) => seq![v],
        None => Seq::empty(),
    }
}

/// Behind a run of lines, the line of a field that is set changes what is
/// captured of a party member in this field alone.
pub proof fn lemma_attrs_field_step(lines: Seq<Seq<char>>, l: Seq<char>, value: Option<Seq<char>>)
    requires
        is_label(l),
    ensures
        attrs_in(lines + optional_line(l, value)) == with_attr(attrs_in(lines), l, value),
{
    lemma_labels();
    lemma_last_field_step(lines, l, value, "Level"@);
    lemma_last_field_step(lines, l, value, "IVs"@);
    lemma_last_field_step(lines, l, value, "EVs"@);
    lemma_last_field_step(lines, l, value, "Ball"@);
    lemma_last_field_step(lines, l, value, "Happiness"@);
    lemma_last_field_step(lines, l, value, "Tera Type"@);
    match value {
        None => {
            assert(lines + optional_line(l, value) =~= lines);
        },
        Some(v) => {
            let line = labeled_line(l, v);
            let all = lines + optional_line(l, value);
            assert(all.last() == line);
            assert(all.drop_last() =~= lines);
            assert(line[l.len() as int] == ':');
            assert(line[0] == l[0]);
            lemma_no_nature(line, l.len() as int);
            lemma_no_move(line);
        },
    }
}

/// Behind a run of lines, the line of a nature changes what is captured of
/// a party member in the nature alone.
pub proof fn lemma_attrs_nature_step(lines: Seq<Seq<char>>, nature: Option<Seq<char>>)
    requires
        nature is Some ==> is_word(nature->0),
    ensures
        attrs_in(lines + nature_line(nature)) == (AttrView {
            nature: if nature is Some {
                nature
            } else {
                attrs_in(lines).nature
            },
            ..attrs_in(lines)
        }),
{
    lemma_labels();
    match nature {
        None => {
            assert(lines + nature_line(nature) =~= lines);
        },
        Some(w) => {
            let line = w + " Nature"@;
            let all = lines + nature_line(nature);
            reveal_strlit(" Nature");
            assert(all.last() == line);
            assert(all.drop_last() =~= lines);
            lemma_nature_in_line(w);
            assert(line[0] == w[0]);
            lemma_no_move(line);
            assert forall|k: int| 0 <= k < line.len() implies line[k] != ':' by {
                if k < w.len() {
                    assert(line[k] == w[k]);
                } else {
                    assert(line[k] == " Nature"@[k - w.len()]);
                }
            }
            lemma_no_field(line, "Level"@, "Level"@.len() as int);
            lemma_no_field(line, "IVs"@, "IVs"@.len() as int);
            lemma_no_field(line, "EVs"@, "EVs"@.len() as int);
            lemma_no_field(line, "Ball"@, "Ball"@.len() as int);
            lemma_no_field(line, "Happiness"@, "Happiness"@.len() as int);
            lemma_no_field(line, "Tera Type"@, "Tera Type"@.len() as int);
        },
    }
}

/// Behind a run of lines, the line of a move adds this move to the moves
/// that are captured and changes nothing else.
pub proof fn lemma_attrs_move_step(lines: Seq<Seq<char>>, m: Option<Seq<char>>)
    ensures
        attrs_in(lines + move_line(m)) == (AttrView {
            moves: attrs_in(lines).moves + one_or_none(m),
            ..attrs_in(lines)
        }),
{
    lemma_labels();
    match m {
        None => {
            assert(lines + move_line(m) =~= lines);
            assert(moves_in(lines) + one_or_none(m) =~= moves_in(lines));
        },
        Some(v) => {
            let line = "- "@ + v;
            let all = lines + move_line(m);
            reveal_strlit("- ");
            assert(all.last() == line);
            assert(all.drop_last() =~= lines);
            lemma_move_in_line(v);
            assert(line[0] == '-');
            lemma_no_nature(line, 0);
            lemma_no_field(line, "Level"@, 0);
            lemma_no_field(line, "IVs"@, 0);
            lemma_no_field(line, "EVs"@, 0);
            lemma_no_field(line, "Ball"@, 0);
            lemma_no_field(line, "Happiness"@, 0);
            lemma_no_field(line, "Tera Type"@, 0);
            assert(moves_in(lines).push(v) =~= moves_in(lines) + one_or_none(m));
        },
    }
}

/// Runs of lines that are put together can be put together in any grouping.
pub proof fn lemma_add_assoc(a: Seq<Seq<char>>, b: Seq<Seq<char>>, c: Seq<Seq<char>>)
    ensures
        (a + b) + c == a + (b + c),
{
    assert((a + b) + c =~= a + (b + c));
}

/// The lines of a party member behind the first, put together one by one.
pub open spec fn attr_lines(p: PokemonView) -> Seq<Seq<char>> {
    optional_line("Level"@, opt_numeral(p.level)) + optional_line("IVs"@, p.ivs) + optional_line(
        "EVs"@,
        p.evs,
    ) + optional_line("Ball"@, p.ball) + optional_line(
        "Happiness"@,
        opt_numeral(p.happiness),
    ) + nature_line(p.nature) + optional_line("Tera Type"@, p.tera_type) + move_line(p.move_1)
        + move_line(p.move_2) + move_line(p.move_3) + move_line(p.move_4)
}

/// The lines of a party member are its first line and the lines behind it.
pub proof fn lemma_attr_lines(p: PokemonView)
    ensures
        pokemon_lines(p) == seq![pokemon_first_line(p)] + attr_lines(p),
        pokemon_lines(p).drop_first() == attr_lines(p),
        pokemon_lines(p).len() > 0,
        pokemon_lines(p)[0] == pokemon_first_line(p),
{
    let f = seq![pokemon_first_line(p)];
    let s1 = optional_line("Level"@, opt_numeral(p.level));
    let s2 = optional_line("IVs"@, p.ivs);
    let s3 = optional_line("EVs"@, p.evs);
    let s4 = optional_line("Ball"@, p.ball);
    let s5 = optional_line("Happiness"@, opt_numeral(p.happiness));
    let s6 = nature_line(p.nature);
    let s7 = optional_line("Tera Type"@, p.tera_type);
    let s8 = move_line(p.move_1);
    let s9 = move_line(p.move_2);
    let s10 = move_line(p.move_3);
    let s11 = move_line(p.move_4);
    let a1 = s1;
    let a2 = a1 + s2;
    let a3 = a2 + s3;
    let a4 = a3 + s4;
    let a5 = a4 + s5;
    let a6 = a5 + s6;
    let a7 = a6 + s7;
    let a8 = a7 + s8;
    let a9 = a8 + s9;
    let a10 = a9 + s10;
    let a11 = a10 + s11;
    lemma_add_assoc(f, a1, s2);
    lemma_add_assoc(f, a2, s3);
    lemma_add_assoc(f, a3, s4);
    lemma_add_assoc(f, a4, s5);
    lemma_add_assoc(f, a5, s6);
    lemma_add_assoc(f, a6, s7);
    lemma_add_assoc(f, a7, s8);
    lemma_add_assoc(f, a8, s9);
    lemma_add_assoc(f, a9, s10);
    lemma_add_assoc(f, a10, s11);
    assert(pokemon_lines(p) == f + a11);
    assert((f + a11).drop_first() =~= a11);
}

/// The lines behind the first line of a party member capture what was
/// written: each field that is set, the nature, and the moves that are set
/// in the order of their slots.
pub proof fn lemma_attrs_written(p: PokemonView)
    requires
        p.nature is Some ==> is_word(p.nature->0),
    ensures
        attrs_in(pokemon_lines(p).drop_first()) == (AttrView {
            level: opt_numeral(p.level),
            ivs: p.ivs,
            evs: p.evs,
            ball: p.ball,
            happiness: opt_numeral(p.happiness),
            nature: p.nature,
            tera_type: p.tera_type,
            moves: one_or_none(p.move_1) + one_or_none(p.move_2) + one_or_none(p.move_3)
                + one_or_none(p.move_4),
        }),
{
    let none = Seq::<Seq<char>>::empty();
    let a0 = Seq::<Seq<char>>::empty();
    let a1 = a0 + optional_line("Level"@, opt_numeral(p.level));
    let a2 = a1 + optional_line("IVs"@, p.ivs);
    let a3 = a2 + optional_line("EVs"@, p.evs);
    let a4 = a3 + optional_line("Ball"@, p.ball);
    let a5 = a4 + optional_line("Happiness"@, opt_numeral(p.happiness));
    let a6 = a5 + nature_line(p.nature);
    let a7 = a6 + optional_line("Tera Type"@, p.tera_type);
    let a8 = a7 + move_line(p.move_1);
    let a9 = a8 + move_line(p.move_2);
    let a10 = a9 + move_line(p.move_3);
    let a11 = a10 + move_line(p.move_4);
    assert(pokemon_lines(p).drop_first() == a11) by {
        lemma_attr_lines(p);
        assert(a1 =~= optional_line("Level"@, opt_numeral(p.level)));
    }
    let e0 = AttrView {
        level: None,
        ivs: None,
        evs: None,
        ball: None,
        happiness: None,
        nature: None,
        tera_type: None,
        moves: none,
    };
    let e1 = AttrView { level: opt_numeral(p.level), ..e0 };
    let e2 = AttrView { ivs: p.ivs, ..e1 };
    let e3 = AttrView { evs: p.evs, ..e2 };
    let e4 = AttrView { ball: p.ball, ..e3 };
    let e5 = AttrView { happiness: opt_numeral(p.happiness), ..e4 };
    let e6 = AttrView { nature: p.nature, ..e5 };
    let e7 = AttrView { tera_type: p.tera_type, ..e6 };
    let e8 = AttrView { moves: e7.moves + one_or_none(p.move_1), ..e7 };
    let e9 = AttrView { moves: e8.moves + one_or_none(p.move_2), ..e8 };
    let e10 = AttrView { moves: e9.moves + one_or_none(p.move_3), ..e9 };
    let e11 = AttrView { moves: e10.moves + one_or_none(p.move_4), ..e10 };
    assert(attrs_in(a0) == e0) by {
        assert(moves_in(a0) =~= none);
    }
    assert(attrs_in(a1) == e1) by {
        lemma_labels();
        lemma_attrs_field_step(a0, "Level"@, opt_numeral(p.level));
    }
    assert(attrs_in(a2) == e2) by {
        lemma_labels();
        lemma_attrs_field_step(a1, "IVs"@, p.ivs);
    }
    assert(attrs_in(a3) == e3) by {
        lemma_labels();
        lemma_attrs_field_step(a2, "EVs"@, p.evs);
    }
    assert(attrs_in(a4) == e4) by {
        lemma_labels();
        lemma_attrs_field_step(a3, "Ball"@, p.ball);
    }
    assert(attrs_in(a5) == e5) by {
        lemma_labels();
        lemma_attrs_field_step(a4, "Happiness"@, opt_numeral(p.happiness));
    }
    assert(attrs_in(a6) == e6) by {
        lemma_attrs_nature_step(a5, p.nature);
    }
    assert(attrs_in(a7) == e7) by {
        lemma_labels();
        lemma_attrs_field_step(a6, "Tera Type"@, p.tera_type);
    }
    assert(attrs_in(a8) == e8) by {
        lemma_attrs_move_step(a7, p.move_1);
    }
    assert(attrs_in(a9) == e9) by {
        lemma_attrs_move_step(a8, p.move_2);
    }
    assert(attrs_in(a10) == e10) by {
        lemma_attrs_move_step(a9, p.move_3);
    }
    assert(attrs_in(a11) == e11) by {
        lemma_attrs_move_step(a10, p.move_4);
    }
    assert(e11.moves =~= one_or_none(p.move_1) + one_or_none(p.move_2) + one_or_none(p.move_3)
        + one_or_none(p.move_4));
}

/// An optional text without line feed.
pub open spec fn opt_plain(value: Option<Seq<char>>) -> bool {
    value is Some ==> no_newline(value->0)
}

/// A party member that the format can hold: the species is a species, the
/// nature a word, no other text has a line feed, no move stands behind an
/// empty move slot, and nothing is set for which the format has no line.
pub open spec fn pokemon_fits(p: PokemonView) -> bool {
    &&& is_species(p.species)
    &&& opt_plain(p.held_item)
    &&& opt_plain(p.ivs)
    &&& opt_plain(p.evs)
    &&& opt_plain(p.ball)
    &&& (p.nature is Some ==> is_word(p.nature->0))
    &&& opt_plain(p.tera_type)
    &&& opt_plain(p.move_1)
    &&& opt_plain(p.move_2)
    &&& opt_plain(p.move_3)
    &&& opt_plain(p.move_4)
    &&& (p.move_2 is Some ==> p.move_1 is Some)
    &&& (p.move_3 is Some ==> p.move_2 is Some)
    &&& (p.move_4 is Some ==> p.move_3 is Some)
    &&& !p.shiny
    &&& p.dynamax_level is None
    &&& !p.gigantamax
}

/// The code of a gender as the first line shows it: none for a gender that
/// is not specified.
pub open spec fn gender_written(g: PokemonGender) -> Option<Seq<char>> {
    if g == PokemonGender::Unspecified {
        None
    } else {
        Some(g.code())
    }
}

/// A species that is followed by nothing, or by a character that cannot
/// stand in a species, is counted in full.
pub proof fn lemma_species_len(species: Seq<char>, rest: Seq<char>)
    requires
        forall|i: int| 0 <= i < species.len() ==> in_class(#[trigger] species[i], CharClass::Species),
        rest.len() == 0 || !in_class(rest[0], CharClass::Species),
    ensures
        species_len(species + rest) == species.len(),
    decreases species.len(),
{
    let line = species + rest;
    if species.len() == 0 {
        assert(line =~= rest);
    } else {
        assert(line[0] == species[0]);
        let tail = species.drop_first();
        assert(line.drop_first() =~= tail + rest);
        assert forall|i: int| 0 <= i < tail.len() implies in_class(
            #[trigger] tail[i],
            CharClass::Species,
        ) by {
            assert(tail[i] == species[i + 1]);
        }
        lemma_species_len(tail, rest);
    }
}

/// The first line of a party member captures species, gender and held
/// item as they were written.
pub proof fn lemma_first_line_written(p: PokemonView)
    requires
        is_species(p.species),
    ensures
        first_line_of(pokemon_first_line(p)) == Some(
            FirstLine {
                species: p.species,
                gender: gender_written(p.gender),
                held_item: p.held_item,
            },
        ),
{
    reveal_strlit(" (");
    reveal_strlit(")");
    reveal_strlit(" @ ");
    let g = if p.gender == PokemonGender::Unspecified {
        Seq::<char>::empty()
    } else {
        " ("@ + p.gender.code() + ")"@
    };
    let it = match p.held_item {
        Some(item) => " @ "@ + item,
        None => Seq::<char>::empty(),
    };
    let line = pokemon_first_line(p);
    let behind = g + it;
    assert(line =~= p.species + behind);
    assert(behind.len() > 0 ==> behind[0] == ' ');
    lemma_species_len(p.species, behind);
    let n = p.species.len() as int;
    let rest = line.skip(n);
    assert(rest =~= behind);
    assert(line.take(n) =~= p.species);
    let has_gender = rest.len() >= 4 && rest[0] == ' ' && rest[1] == '(' && rest[3] == ')';
    if p.gender == PokemonGender::Unspecified {
        assert(rest =~= it);
        if p.held_item is Some {
            assert(rest[1] == '@');
            assert(starts_with(rest, " @ "@));
            assert(rest.skip(" @ "@.len() as int) =~= p.held_item->0);
        }
    } else {
        assert(g.len() == 4);
        assert(rest[0] == g[0] && rest[1] == g[1] && rest[2] == g[2] && rest[3] == g[3]);
        assert(has_gender);
        assert(seq![rest[2]] =~= p.gender.code());
        assert(rest.skip(4) =~= it);
        if p.held_item is Some {
            assert(starts_with(it, " @ "@));
            assert(it.skip(" @ "@.len() as int) =~= p.held_item->0);
        }
    }
}

/// The fields that the lines of a party member stand for.
pub open spec fn pokemon_fields_written(p: PokemonView) -> PokemonFieldsView {
    PokemonFieldsView {
        species: Some(p.species),
        gender: gender_written(p.gender),
        held_item: p.held_item,
        level: opt_numeral(p.level),
        individual_values: p.ivs,
        effort_values: p.evs,
        ball: p.ball,
        happiness: opt_numeral(p.happiness),
        nature: p.nature,
        shiny: None,
        tera_type: p.tera_type,
        move_1: p.move_1,
        move_2: p.move_2,
        move_3: p.move_3,
        move_4: p.move_4,
    }
}

/// The lines of a party member that the format can hold capture the fields
/// that were written.
pub proof fn lemma_pokemon_fields_written(p: PokemonView)
    requires
        pokemon_fits(p),
    ensures
        pokemon_fields_of(pokemon_lines(p)) == pokemon_fields_written(p),
{
    lemma_attr_lines(p);
    lemma_first_line_written(p);
    lemma_attrs_written(p);
    let moves = one_or_none(p.move_1) + one_or_none(p.move_2) + one_or_none(p.move_3)
        + one_or_none(p.move_4);
    assert(moves_in(pokemon_lines(p).drop_first()) == moves);
    assert(nth_move(moves, 0) == p.move_1);
    assert(nth_move(moves, 1) == p.move_2);
    assert(nth_move(moves, 2) == p.move_3);
    assert(nth_move(moves, 3) == p.move_4);
}

/// The fields that were written of a party member that the format can hold
/// describe this member.
pub proof fn lemma_pokemon_of_written(p: PokemonView)
    requires
        pokemon_fits(p),
    ensures
        pokemon_of(pokemon_fields_written(p)) == Ok::<PokemonView, PartyErrorView>(p),
{
    let f = pokemon_fields_written(p);
    assert(PokemonGender::of_code(text_or_empty(f.gender)) == Some(p.gender)) by {
        assert(seq!['M'].len() == 1 && seq!['F'].len() == 1);
        assert(seq!['M'][0] != seq!['F'][0]);
    }
    if p.level is Some {
        lemma_u8_text_round_trip(p.level->0);
    }
    if p.happiness is Some {
        lemma_u8_text_round_trip(p.happiness->0);
    }
    assert(number_of(f.level) == Ok::<Option<u8>, PartyErrorView>(p.level));
    assert(number_of(f.happiness) == Ok::<Option<u8>, PartyErrorView>(p.happiness));
}

/// A line of the body of a block: it is not empty, does not begin with an
/// equals sign, and has no line feed.
pub open spec fn is_body_line(line: Seq<char>) -> bool {
    line.len() > 0 && line[0] != '=' && no_newline(line)
}

/// Every line of a run is a line of the body of a block.
pub open spec fn all_body_lines(lines: Seq<Seq<char>>) -> bool {
    forall|k: int| 0 <= k < lines.len() ==> is_body_line(#[trigger] lines[k])
}

/// A line that does not begin with an equals sign is no delimiter line.
pub proof fn lemma_not_delimiter(line: Seq<char>)
    requires
        line.len() == 0 || line[0] != '=',
    ensures
        !is_delimiter(line),
{
    reveal_strlit("=== ");
    if starts_with(line, "=== "@) {
        assert(line[0] == "=== "@[0]);
    }
}

/// The delimiter line of an id is read as that id.
pub proof fn lemma_delimiter_written(id: Seq<char>)
    requires
        is_id(id),
    ensures
        delimiter_id(delimiter_line(id)) == Some(id),
        no_newline(delimiter_line(id)),
{
    reveal_strlit("=== ");
    reveal_strlit(" ===");
    let open = "=== "@;
    let close = " ==="@;
    let line = delimiter_line(id);
    assert(line.subrange(open.len() as int, line.len() - close.len()) =~= id);
    assert(starts_with(line, open)) by {
        assert forall|i: int| 0 <= i < open.len() implies line[i] == #[trigger] open[i] by {}
    }
    assert(ends_with(line, close)) by {
        assert forall|i: int| 0 <= i < close.len() implies line[line.len() - close.len() + i]
            == #[trigger] close[i] by {}
    }
    assert forall|k: int| 0 <= k < line.len() implies line[k] != '\n' by {
        if k < 4 {
        } else if k < 4 + id.len() {
            assert(line[k] == id[k - 4]);
        } else {
            assert(line[k] == close[k - 4 - id.len()]);
        }
    }
}

/// The lines of a run that are not empty and are followed by an empty line,
/// or by nothing, are counted in full.
pub proof fn lemma_filled_run(run: Seq<Seq<char>>, rest: Seq<Seq<char>>)
    requires
        forall|k: int| 0 <= k < run.len() ==> (#[trigger] run[k]).len() > 0,
        rest.len() == 0 || rest[0].len() == 0,
    ensures
        filled_run(run + rest) == run.len(),
    decreases run.len(),
{
    let lines = run + rest;
    if run.len() == 0 {
        assert(lines =~= rest);
    } else {
        assert(lines[0] == run[0]);
        let tail = run.drop_first();
        assert(lines.drop_first() =~= tail + rest);
        assert forall|k: int| 0 <= k < tail.len() implies (#[trigger] tail[k]).len() > 0 by {
            assert(tail[k] == run[k + 1]);
        }
        lemma_filled_run(tail, rest);
    }
}

/// The lines of a run that are no delimiter lines and are followed by a
/// delimiter line, or by nothing, are counted in full.
pub proof fn lemma_body_run(run: Seq<Seq<char>>, rest: Seq<Seq<char>>)
    requires
        forall|k: int| 0 <= k < run.len() ==> !is_delimiter(#[trigger] run[k]),
        rest.len() == 0 || is_delimiter(rest[0]),
    ensures
        body_run(run + rest) == run.len(),
    decreases run.len(),
{
    let lines = run + rest;
    if run.len() == 0 {
        assert(lines =~= rest);
    } else {
        assert(lines[0] == run[0]);
        let tail = run.drop_first();
        assert(lines.drop_first() =~= tail + rest);
        assert forall|k: int| 0 <= k < tail.len() implies !is_delimiter(#[trigger] tail[k]) by {
            assert(tail[k] == run[k + 1]);
        }
        lemma_body_run(tail, rest);
    }
}

/// Two runs of lines of the body of a block make one such run.
pub proof fn lemma_body_lines_add(a: Seq<Seq<char>>, b: Seq<Seq<char>>)
    requires
        all_body_lines(a),
        all_body_lines(b),
    ensures
        all_body_lines(a + b),
{
    assert forall|k: int| 0 <= k < (a + b).len() implies is_body_line(#[trigger] (a + b)[k]) by {
        if k < a.len() {
            assert((a + b)[k] == a[k]);
        } else {
            assert((a + b)[k] == b[k - a.len()]);
        }
    }
}

/// The line of a field whose value has no line feed is a line of the body of
/// a block.
pub proof fn lemma_body_lines_field(a: Seq<Seq<char>>, l: Seq<char>, value: Option<Seq<char>>)
    requires
        all_body_lines(a),
        is_label(l),
        opt_plain(value),
    ensures
        all_body_lines(a + optional_line(l, value)),
{
    if value is Some {
        let line = labeled_line(l, value->0);
        assert(line[0] == l[0]);
        assert forall|k: int| 0 <= k < line.len() implies line[k] != '\n' by {
            if k < l.len() {
                assert(line[k] == l[k]);
            } else if k >= l.len() + 2 {
                assert(line[k] == value->0[k - l.len() - 2]);
            }
        }
        assert(is_body_line(optional_line(l, value)[0]));
    }
    lemma_body_lines_add(a, optional_line(l, value));
}

/// The line of a nature is a line of the body of a block.
pub proof fn lemma_body_lines_nature(a: Seq<Seq<char>>, nature: Option<Seq<char>>)
    requires
        all_body_lines(a),
        nature is Some ==> is_word(nature->0),
    ensures
        all_body_lines(a + nature_line(nature)),
{
    if nature is Some {
        let w = nature->0;
        let line = w + " Nature"@;
        reveal_strlit(" Nature");
        assert(line[0] == w[0]);
        assert forall|k: int| 0 <= k < line.len() implies line[k] != '\n' by {
            if k < w.len() {
                assert(line[k] == w[k]);
            } else {
                assert(line[k] == " Nature"@[k - w.len()]);
            }
        }
        assert(is_body_line(nature_line(nature)[0]));
    }
    lemma_body_lines_add(a, nature_line(nature));
}

/// The line of a move without line feed is a line of the body of a block.
pub proof fn lemma_body_lines_move(a: Seq<Seq<char>>, m: Option<Seq<char>>)
    requires
        all_body_lines(a),
        opt_plain(m),
    ensures
        all_body_lines(a + move_line(m)),
{
    if m is Some {
        let line = "- "@ + m->0;
        reveal_strlit("- ");
        assert(line[0] == '-');
        assert forall|k: int| 0 <= k < line.len() implies line[k] != '\n' by {
            if k >= 2 {
                assert(line[k] == m->0[k - 2]);
            }
        }
        assert(is_body_line(move_line(m)[0]));
    }
    lemma_body_lines_add(a, move_line(m));
}

/// The first line of a party member that the format can hold is a line of
/// the body of a block.
pub proof fn lemma_first_line_body(p: PokemonView)
    requires
        pokemon_fits(p),
    ensures
        is_body_line(pokemon_first_line(p)),
{
    reveal_strlit(" (");
    reveal_strlit(")");
    reveal_strlit(" @ ");
    let g = if p.gender == PokemonGender::Unspecified {
        Seq::<char>::empty()
    } else {
        " ("@ + p.gender.code() + ")"@
    };
    let it = match p.held_item {
        Some(item) => " @ "@ + item,
        None => Seq::<char>::empty(),
    };
    let line = pokemon_first_line(p);
    assert(line =~= p.species + g + it);
    assert(line[0] == p.species[0]);
    assert(no_newline(g));
    assert(no_newline(it)) by {
        if p.held_item is Some {
            assert forall|k: int| 0 <= k < it.len() implies it[k] != '\n' by {
                if k >= 3 {
                    assert(it[k] == p.held_item->0[k - 3]);
                }
            }
        }
    }
    assert forall|k: int| 0 <= k < line.len() implies line[k] != '\n' by {
        if k < p.species.len() {
            assert(line[k] == p.species[k]);
            assert(in_class(p.species[k], CharClass::Species));
        } else if k < p.species.len() + g.len() {
            assert(line[k] == g[k - p.species.len()]);
        } else {
            assert(line[k] == it[k - p.species.len() - g.len()]);
        }
    }
}

/// The lines of a party member that the format can hold are lines of the
/// body of a block.
pub proof fn lemma_pokemon_lines_body(p: PokemonView)
    requires
        pokemon_fits(p),
    ensures
        all_body_lines(pokemon_lines(p)),
{
    lemma_labels();
    lemma_first_line_body(p);
    let a0 = seq![pokemon_first_line(p)];
    let a1 = a0 + optional_line("Level"@, opt_numeral(p.level));
    let a2 = a1 + optional_line("IVs"@, p.ivs);
    let a3 = a2 + optional_line("EVs"@, p.evs);
    let a4 = a3 + optional_line("Ball"@, p.ball);
    let a5 = a4 + optional_line("Happiness"@, opt_numeral(p.happiness));
    let a6 = a5 + nature_line(p.nature);
    let a7 = a6 + optional_line("Tera Type"@, p.tera_type);
    let a8 = a7 + move_line(p.move_1);
    let a9 = a8 + move_line(p.move_2);
    let a10 = a9 + move_line(p.move_3);
    assert(all_body_lines(a0));
    lemma_numeral_plain(p.level);
    lemma_numeral_plain(p.happiness);
    lemma_body_lines_field(a0, "Level"@, opt_numeral(p.level));
    lemma_body_lines_field(a1, "IVs"@, p.ivs);
    lemma_body_lines_field(a2, "EVs"@, p.evs);
    lemma_body_lines_field(a3, "Ball"@, p.ball);
    lemma_body_lines_field(a4, "Happiness"@, opt_numeral(p.happiness));
    lemma_body_lines_nature(a5, p.nature);
    lemma_body_lines_field(a6, "Tera Type"@, p.tera_type);
    lemma_body_lines_move(a7, p.move_1);
    lemma_body_lines_move(a8, p.move_2);
    lemma_body_lines_move(a9, p.move_3);
    lemma_body_lines_move(a10, p.move_4);
}

/// A numeral has no line feed.
pub proof fn lemma_numeral_plain(n: Option<u8>)
    ensures
        opt_plain(opt_numeral(n)),
{
}

/// A trainer that the format can hold: the id is an id, no text has a line
/// feed, the party is well formed, and the format can hold its members.
pub open spec fn trainer_fits(t: TrainerView) -> bool {
    &&& is_id(t.id)
    &&& no_newline(t.name)
    &&& no_newline(t.pic)
    &&& opt_plain(t.class)
    &&& opt_plain(t.gender)
    &&& opt_plain(t.music)
    &&& opt_plain(t.items)
    &&& opt_plain(t.ai)
    &&& opt_plain(t.mugshot)
    &&& opt_plain(t.starting_status)
    &&& party_well_formed(t.party)
    &&& forall|i: int|
        0 <= i < t.party.len() && t.party[i] is Some ==> pokemon_fits((#[trigger] t.party[i])->0)
}

/// The format can hold every trainer of the sequence.
pub open spec fn all_fit(ts: Seq<TrainerView>) -> bool {
    forall|i: int| 0 <= i < ts.len() ==> trainer_fits(#[trigger] ts[i])
}

/// The lines of the fields of a trainer that the format can hold are lines
/// of the body of a block.
pub proof fn lemma_trainer_field_lines_body(t: TrainerView)
    requires
        trainer_fits(t),
    ensures
        all_body_lines(trainer_field_lines(t)),
{
    lemma_labels();
    reveal_strlit("Yes");
    reveal_strlit("No");
    let a0 = Seq::<Seq<char>>::empty();
    let a1 = a0 + optional_line("Name"@, Some(t.name));
    let a2 = a1 + optional_line("Pic"@, Some(t.pic));
    let a3 = a2 + optional_line("Class"@, t.class);
    let a4 = a3 + optional_line("Gender"@, t.gender);
    let a5 = a4 + optional_line("Music"@, t.music);
    let a6 = a5 + optional_line("Items"@, t.items);
    let a7 = a6 + optional_line("Double Battle"@, Some(yes_no(t.double_battle)));
    let a8 = a7 + optional_line("AI"@, t.ai);
    let a9 = a8 + optional_line("Mugshot"@, t.mugshot);
    let a10 = a9 + optional_line("Starting Status"@, t.starting_status);
    assert(a2 =~= seq![labeled_line("Name"@, t.name), labeled_line("Pic"@, t.pic)]);
    assert(a10 == trainer_field_lines(t));
    lemma_body_lines_field(a0, "Name"@, Some(t.name));
    lemma_body_lines_field(a1, "Pic"@, Some(t.pic));
    lemma_body_lines_field(a2, "Class"@, t.class);
    lemma_body_lines_field(a3, "Gender"@, t.gender);
    lemma_body_lines_field(a4, "Music"@, t.music);
    lemma_body_lines_field(a5, "Items"@, t.items);
    lemma_body_lines_field(a6, "Double Battle"@, Some(yes_no(t.double_battle)));
    lemma_body_lines_field(a7, "AI"@, t.ai);
    lemma_body_lines_field(a8, "Mugshot"@, t.mugshot);
    lemma_body_lines_field(a9, "Starting Status"@, t.starting_status);
}

/// The members of a party: what its slots hold, in their order.
pub open spec fn members(party: Seq<Option<PokemonView>>) -> Seq<PokemonView>
    decreases party.len(),
{
    if party.len() == 0 {
        Seq::empty()
    } else {
        match party.last() {
            Some(p) => members(party.drop_last()).push(p),
            None => members(party.drop_last()),
        }
    }
}

/// The fields that the lines of a run of party members stand for.
pub open spec fn members_written(ms: Seq<PokemonView>) -> Seq<PokemonFieldsView> {
    ms.map_values(|p: PokemonView| pokemon_fields_written(p))
}

/// The format can hold every member of the party.
pub open spec fn members_fit(party: Seq<Option<PokemonView>>) -> bool {
    forall|i: int| 0 <= i < party.len() && party[i] is Some ==> pokemon_fits((#[trigger] party[i])->0)
}

/// An empty line at the start of the lines of a party is passed over.
pub proof fn lemma_mons_of_blank(rest: Seq<Seq<char>>)
    ensures
        mons_of(seq![Seq::<char>::empty()] + rest) == mons_of(rest),
{
    let lines = seq![Seq::<char>::empty()] + rest;
    assert(lines[0].len() == 0);
    assert(lines.drop_first() =~= rest);
}

/// The lines of one party member, followed by an empty line, are read as
/// one member.
pub proof fn lemma_mons_of_member(p: PokemonView, rest: Seq<Seq<char>>)
    requires
        pokemon_fits(p),
    ensures
        mons_of(slot_lines(Some(p)) + rest) == seq![pokemon_fields_written(p)] + mons_of(rest),
{
    let run = pokemon_lines(p);
    let blank = seq![Seq::<char>::empty()];
    let lines = slot_lines(Some(p)) + rest;
    lemma_pokemon_lines_body(p);
    lemma_attr_lines(p);
    assert(lines =~= run + (blank + rest));
    assert(lines[0] == run[0]);
    assert(is_body_line(run[0]));
    lemma_filled_run(run, blank + rest);
    let n = run.len() as int;
    assert(lines.take(n) =~= run);
    assert(lines.skip(n) =~= blank + rest);
    lemma_mons_of_blank(rest);
    lemma_pokemon_fields_written(p);
}

/// The lines of a party are read as its members.
pub proof fn lemma_mons_of_party(party: Seq<Option<PokemonView>>, rest: Seq<Seq<char>>)
    requires
        members_fit(party),
    ensures
        mons_of(party_lines(party) + rest) == members_written(members(party)) + mons_of(rest),
    decreases party.len(),
{
    if party.len() == 0 {
        assert(party_lines(party) + rest =~= rest);
        assert(members_written(members(party)) + mons_of(rest) =~= mons_of(rest));
    } else {
        let init = party.drop_last();
        let last = party.last();
        assert(members_fit(init)) by {
            assert forall|i: int| 0 <= i < init.len() && init[i] is Some implies pokemon_fits(
                (#[trigger] init[i])->0,
            ) by {
                assert(init[i] == party[i]);
            }
        }
        lemma_add_assoc(party_lines(init), slot_lines(last), rest);
        lemma_mons_of_party(init, slot_lines(last) + rest);
        match last {
            None => {
                assert(slot_lines(last) + rest =~= rest);
            },
            Some(p) => {
                assert(party[party.len() - 1] == last);
                lemma_mons_of_member(p, rest);
                assert(members_written(members(init).push(p)) =~= members_written(members(init))
                    + seq![pokemon_fields_written(p)]);
                assert(members_written(members(init)) + (seq![pokemon_fields_written(p)]
                    + mons_of(rest)) =~= members_written(members(init).push(p)) + mons_of(rest));
            },
        }
    }
}

/// Every line of a run is empty.
pub open spec fn all_blank(lines: Seq<Seq<char>>) -> bool {
    forall|k: int| 0 <= k < lines.len() ==> (#[trigger] lines[k]).len() == 0
}

/// Empty lines hold no party member.
pub proof fn lemma_mons_of_blanks(lines: Seq<Seq<char>>)
    requires
        all_blank(lines),
    ensures
        mons_of(lines) == Seq::<PokemonFieldsView>::empty(),
    decreases lines.len(),
{
    if lines.len() > 0 {
        assert(lines[0].len() == 0);
        assert forall|k: int| 0 <= k < lines.drop_first().len() implies (
        #[trigger] lines.drop_first()[k]).len() == 0 by {
            assert(lines.drop_first()[k] == lines[k + 1]);
        }
        lemma_mons_of_blanks(lines.drop_first());
    }
}

/// Empty lines hold no block.
pub proof fn lemma_blocks_of_blanks(lines: Seq<Seq<char>>)
    requires
        all_blank(lines),
    ensures
        blocks_of(lines) == Seq::<BlockView>::empty(),
    decreases lines.len(),
{
    if lines.len() > 0 {
        assert(lines[0].len() == 0);
        lemma_not_delimiter(lines[0]);
        assert forall|k: int| 0 <= k < lines.drop_first().len() implies (
        #[trigger] lines.drop_first()[k]).len() == 0 by {
            assert(lines.drop_first()[k] == lines[k + 1]);
        }
        lemma_blocks_of_blanks(lines.drop_first());
    }
}

/// The lines of a trainer's block behind the delimiter line.
pub open spec fn body_lines(t: TrainerView) -> Seq<Seq<char>> {
    trainer_field_lines(t).push(Seq::empty()) + party_lines(t.party).push(Seq::empty())
}

/// The block that the lines of a trainer stand for.
pub open spec fn block_written(t: TrainerView) -> BlockView {
    BlockView {
        id: t.id,
        fields: Some(trainer_fields_written(t)),
        mons: members_written(members(t.party)),
    }
}

/// The lines of a trainer's block behind the delimiter line, with any
/// number of empty lines behind them, capture what was written.
pub proof fn lemma_block_of_written(t: TrainerView, blanks: Seq<Seq<char>>)
    requires
        trainer_fits(t),
        all_blank(blanks),
    ensures
        block_of(t.id, body_lines(t) + blanks) == block_written(t),
{
    let blank = seq![Seq::<char>::empty()];
    let fields = trainer_field_lines(t);
    let party = party_lines(t.party);
    let body = body_lines(t) + blanks;
    let behind = blank + (party + (blank + blanks));
    assert(body =~= fields + behind);
    lemma_trainer_field_lines_body(t);
    assert(behind[0].len() == 0);
    lemma_filled_run(fields, behind);
    let h = fields.len() as int;
    assert(body.take(h) =~= fields);
    assert(body.skip(h) =~= behind);
    lemma_trainer_captures_written(t);
    assert(header_fields_of(fields) == Some(trainer_fields_written(t)));
    lemma_mons_of_blank(party + (blank + blanks));
    lemma_mons_of_party(t.party, blank + blanks);
    assert(all_blank(blank + blanks)) by {
        assert forall|k: int| 0 <= k < (blank + blanks).len() implies (#[trigger] (blank
            + blanks)[k]).len() == 0 by {
            if k > 0 {
                assert((blank + blanks)[k] == blanks[k - 1]);
            }
        }
    }
    lemma_mons_of_blanks(blank + blanks);
    assert(members_written(members(t.party)) + Seq::<PokemonFieldsView>::empty()
        =~= members_written(members(t.party)));
}

/// A line that cannot be taken for a delimiter line: it is empty or does
/// not begin with an equals sign, and has no line feed.
pub open spec fn is_quiet(line: Seq<char>) -> bool {
    (line.len() == 0 || line[0] != '=') && no_newline(line)
}

/// No line of a run can be taken for a delimiter line.
pub open spec fn all_quiet(lines: Seq<Seq<char>>) -> bool {
    forall|k: int| 0 <= k < lines.len() ==> is_quiet(#[trigger] lines[k])
}

/// Two runs of lines that cannot be taken for delimiter lines make one such
/// run.
pub proof fn lemma_quiet_add(a: Seq<Seq<char>>, b: Seq<Seq<char>>)
    requires
        all_quiet(a),
        all_quiet(b),
    ensures
        all_quiet(a + b),
{
    assert forall|k: int| 0 <= k < (a + b).len() implies is_quiet(#[trigger] (a + b)[k]) by {
        if k < a.len() {
            assert((a + b)[k] == a[k]);
        } else {
            assert((a + b)[k] == b[k - a.len()]);
        }
    }
}

/// Lines of the body of a block, with an empty line behind them, cannot be
/// taken for delimiter lines.
pub proof fn lemma_quiet_body(lines: Seq<Seq<char>>)
    requires
        all_body_lines(lines),
    ensures
        all_quiet(lines.push(Seq::empty())),
{
    let all = lines.push(Seq::empty());
    assert forall|k: int| 0 <= k < all.len() implies is_quiet(#[trigger] all[k]) by {
        if k < lines.len() {
            assert(all[k] == lines[k]);
            assert(is_body_line(lines[k]));
        }
    }
}

/// The lines of a party cannot be taken for delimiter lines.
pub proof fn lemma_quiet_party(party: Seq<Option<PokemonView>>)
    requires
        members_fit(party),
    ensures
        all_quiet(party_lines(party)),
    decreases party.len(),
{
    if party.len() > 0 {
        let init = party.drop_last();
        assert(members_fit(init)) by {
            assert forall|i: int| 0 <= i < init.len() && init[i] is Some implies pokemon_fits(
                (#[trigger] init[i])->0,
            ) by {
                assert(init[i] == party[i]);
            }
        }
        lemma_quiet_party(init);
        match party.last() {
            Some(p) => {
                assert(party[party.len() - 1] == Some(p));
                lemma_pokemon_lines_body(p);
                lemma_quiet_body(pokemon_lines(p));
            },
            None => {},
        }
        lemma_quiet_add(party_lines(init), slot_lines(party.last()));
    }
}

/// The lines of a trainer's block behind the delimiter line cannot be
/// taken for delimiter lines.
pub proof fn lemma_quiet_block(t: TrainerView)
    requires
        trainer_fits(t),
    ensures
        all_quiet(body_lines(t)),
{
    lemma_trainer_field_lines_body(t);
    lemma_quiet_body(trainer_field_lines(t));
    lemma_quiet_party(t.party);
    let party = party_lines(t.party);
    assert(all_quiet(party.push(Seq::empty()))) by {
        assert forall|k: int| 0 <= k < party.push(Seq::empty()).len() implies is_quiet(
            #[trigger] party.push(Seq::empty())[k],
        ) by {
            if k < party.len() {
                assert(party.push(Seq::empty())[k] == party[k]);
            }
        }
    }
    lemma_quiet_add(trainer_field_lines(t).push(Seq::empty()), party.push(Seq::empty()));
}

/// What may stand behind the block of a trainer: nothing, the block of the
/// next trainer, or empty lines.
pub open spec fn may_follow(rest: Seq<Seq<char>>) -> bool {
    rest.len() == 0 || is_delimiter(rest[0]) || all_blank(rest)
}

/// The lines of a trainer's block are read as the block that was written,
/// and what follows them is read by itself.
pub proof fn lemma_blocks_of_trainer(t: TrainerView, rest: Seq<Seq<char>>)
    requires
        trainer_fits(t),
        may_follow(rest),
    ensures
        blocks_of(trainer_lines(t) + rest) == seq![block_written(t)] + blocks_of(rest),
        trainer_lines(t).len() > 0,
        is_delimiter(trainer_lines(t)[0]),
{
    let body = body_lines(t);
    let head = seq![delimiter_line(t.id)];
    let lines = trainer_lines(t) + rest;
    lemma_delimiter_written(t.id);
    lemma_add_assoc(head, trainer_field_lines(t).push(Seq::empty()), party_lines(t.party).push(Seq::empty()));
    assert(trainer_lines(t) == head + body);
    assert(lines[0] == delimiter_line(t.id));
    assert(trainer_lines(t)[0] == delimiter_line(t.id));
    assert(lines.drop_first() =~= body + rest);
    lemma_quiet_block(t);
    assert forall|k: int| 0 <= k < body.len() implies !is_delimiter(#[trigger] body[k]) by {
        assert(is_quiet(body[k]));
        lemma_not_delimiter(body[k]);
    }
    if rest.len() == 0 || is_delimiter(rest[0]) {
        lemma_body_run(body, rest);
        let n = body.len() as int;
        assert(lines.subrange(1, 1 + n) =~= body + Seq::<Seq<char>>::empty());
        assert(lines.skip(1 + n) =~= rest);
        lemma_block_of_written(t, Seq::empty());
    } else {
        let run = body + rest;
        assert forall|k: int| 0 <= k < run.len() implies !is_delimiter(#[trigger] run[k]) by {
            if k >= body.len() {
                assert(run[k] == rest[k - body.len()]);
                lemma_not_delimiter(run[k]);
            } else {
                assert(run[k] == body[k]);
            }
        }
        lemma_body_run(run, Seq::empty());
        assert(run + Seq::<Seq<char>>::empty() =~= run);
        let n = run.len() as int;
        assert(lines.subrange(1, 1 + n) =~= run);
        assert(lines.skip(1 + n) =~= Seq::<Seq<char>>::empty());
        lemma_block_of_written(t, rest);
        lemma_blocks_of_blanks(rest);
        assert(blocks_of(Seq::<Seq<char>>::empty()) =~= Seq::<BlockView>::empty());
    }
}

/// The blocks that the lines of a run of trainers stand for.
pub open spec fn blocks_written(ts: Seq<TrainerView>) -> Seq<BlockView> {
    ts.map_values(|t: TrainerView| block_written(t))
}

/// The lines of a run of trainers are read as the blocks that were
/// written, and what follows them is read by itself.
pub proof fn lemma_blocks_of_trainers(ts: Seq<TrainerView>, rest: Seq<Seq<char>>)
    requires
        all_fit(ts),
        may_follow(rest),
    ensures
        blocks_of(trainers_lines(ts) + rest) == blocks_written(ts) + blocks_of(rest),
    decreases ts.len(),
{
    if ts.len() == 0 {
        assert(trainers_lines(ts) + rest =~= rest);
        assert(blocks_written(ts) + blocks_of(rest) =~= blocks_of(rest));
    } else {
        let init = ts.drop_last();
        let last = ts.last();
        assert(all_fit(init)) by {
            assert forall|i: int| 0 <= i < init.len() implies trainer_fits(#[trigger] init[i]) by {
                assert(init[i] == ts[i]);
            }
        }
        assert(trainer_fits(last)) by {
            assert(ts[ts.len() - 1] == last);
        }
        lemma_blocks_of_trainer(last, rest);
        let behind = trainer_lines(last) + rest;
        assert(behind[0] == trainer_lines(last)[0]);
        lemma_add_assoc(trainers_lines(init), trainer_lines(last), rest);
        lemma_blocks_of_trainers(init, behind);
        assert(blocks_written(ts) =~= blocks_written(init) + seq![block_written(last)]);
        assert(blocks_written(init) + (seq![block_written(last)] + blocks_of(rest))
            =~= blocks_written(ts) + blocks_of(rest));
    }
}

/// The fields that were written of a run of members that the format can
/// hold describe these members, as long as the party has room for them.
pub proof fn lemma_members_of_written(ms: Seq<PokemonView>, taken: nat)
    requires
        forall|i: int| 0 <= i < ms.len() ==> pokemon_fits(#[trigger] ms[i]),
        taken + ms.len() <= 6,
    ensures
        members_of(members_written(ms), taken) == Ok::<Seq<PokemonView>, PartyErrorView>(ms),
    decreases ms.len(),
{
    let written = members_written(ms);
    if ms.len() == 0 {
        assert(ms =~= Seq::<PokemonView>::empty());
    } else {
        let rest = ms.drop_first();
        assert(written[0] == pokemon_fields_written(ms[0]));
        assert(written.drop_first() =~= members_written(rest));
        lemma_pokemon_of_written(ms[0]);
        assert forall|i: int| 0 <= i < rest.len() implies pokemon_fits(#[trigger] rest[i]) by {
            assert(rest[i] == ms[i + 1]);
        }
        lemma_members_of_written(rest, taken + 1);
        assert(seq![ms[0]] + rest =~= ms);
    }
}

/// In a party in which no member stands behind an empty slot, the members
/// fill the first slots.
pub proof fn lemma_members_fill(party: Seq<Option<PokemonView>>, j: int)
    requires
        0 <= j <= party.len(),
        forall|a: int, b: int| 0 <= a < b < party.len() && party[b] is Some ==> party[a] is Some,
    ensures
        members(party.take(j)).len() <= j,
        forall|i: int|
            0 <= i < members(party.take(j)).len() ==> party[i] == Some(
                #[trigger] members(party.take(j))[i],
            ),
        forall|i: int| members(party.take(j)).len() <= i < j ==> (#[trigger] party[i]) is None,
    decreases j,
{
    if j > 0 {
        lemma_members_fill(party, j - 1);
        let before = members(party.take(j - 1));
        assert(party.take(j).drop_last() =~= party.take(j - 1));
        assert(party.take(j).last() == party[j - 1]);
        if party[j - 1] is Some {
            if before.len() < j - 1 {
                assert(party[before.len() as int] is None);
            }
        }
    } else {
        assert(party.take(0) =~= Seq::<Option<PokemonView>>::empty());
    }
}

/// The fields that were written of the members of a well-formed party
/// describe this party.
pub proof fn lemma_party_of_written(party: Seq<Option<PokemonView>>)
    requires
        party_well_formed(party),
        members_fit(party),
    ensures
        party_of(members_written(members(party))) == Ok::<
            Seq<Option<PokemonView>>,
            PartyErrorView,
        >(party),
{
    lemma_members_fill(party, 6);
    assert(party.take(6) =~= party);
    let ms = members(party);
    assert forall|i: int| 0 <= i < ms.len() implies pokemon_fits(#[trigger] ms[i]) by {
        assert(party[i] == Some(ms[i]));
    }
    lemma_members_of_written(ms, 0);
    assert(slots_of(ms) =~= party);
}

/// The block that was written of a trainer that the format can hold
/// describes this trainer.
pub proof fn lemma_trainer_of_written(t: TrainerView)
    requires
        trainer_fits(t),
    ensures
        trainer_of(block_written(t)) == Ok::<TrainerView, PartyErrorView>(t),
{
    reveal_strlit("Yes");
    reveal_strlit("No");
    let f = trainer_fields_written(t);
    assert((f.double_battle == Some("Yes"@)) == t.double_battle) by {
        assert("Yes"@.len() != "No"@.len());
    }
    lemma_party_of_written(t.party);
    let with = trainer_with(t.id, f);
    assert(TrainerView { party: t.party, ..with } == t);
}

/// The blocks that were written of trainers that the format can hold
/// describe these trainers.
pub proof fn lemma_trainers_of_written(ts: Seq<TrainerView>)
    requires
        all_fit(ts),
    ensures
        trainers_of(blocks_written(ts)) == Ok::<Seq<TrainerView>, PartyErrorView>(ts),
    decreases ts.len(),
{
    let blocks = blocks_written(ts);
    if ts.len() == 0 {
        assert(ts =~= Seq::<TrainerView>::empty());
    } else {
        let rest = ts.drop_first();
        assert(trainer_fits(ts[0]));
        assert(blocks[0] == block_written(ts[0]));
        assert(blocks.drop_first() =~= blocks_written(rest));
        lemma_trainer_of_written(ts[0]);
        assert(all_fit(rest)) by {
            assert forall|i: int| 0 <= i < rest.len() implies trainer_fits(#[trigger] rest[i]) by {
                assert(rest[i] == ts[i + 1]);
            }
        }
        lemma_trainers_of_written(rest);
        assert(seq![ts[0]] + rest =~= ts);
    }
}

/// No line that is written of trainers that the format can hold has a
/// line feed.
pub proof fn lemma_lines_plain(ts: Seq<TrainerView>)
    requires
        all_fit(ts),
    ensures
        forall|k: int|
            0 <= k < trainers_lines(ts).len() ==> no_newline(#[trigger] trainers_lines(ts)[k]),
    decreases ts.len(),
{
    if ts.len() > 0 {
        let init = ts.drop_last();
        let t = ts.last();
        assert(all_fit(init)) by {
            assert forall|i: int| 0 <= i < init.len() implies trainer_fits(#[trigger] init[i]) by {
                assert(init[i] == ts[i]);
            }
        }
        assert(trainer_fits(t)) by {
            assert(ts[ts.len() - 1] == t);
        }
        lemma_lines_plain(init);
        lemma_delimiter_written(t.id);
        lemma_quiet_block(t);
        let head = seq![delimiter_line(t.id)];
        lemma_add_assoc(
            head,
            trainer_field_lines(t).push(Seq::empty()),
            party_lines(t.party).push(Seq::empty()),
        );
        let block = trainer_lines(t);
        assert(block == head + body_lines(t));
        let all = trainers_lines(ts);
        assert forall|k: int| 0 <= k < all.len() implies no_newline(#[trigger] all[k]) by {
            let before = trainers_lines(init);
            if k < before.len() {
                assert(all[k] == before[k]);
            } else {
                let j = k - before.len();
                assert(all[k] == block[j]);
                if j > 0 {
                    assert(block[j] == body_lines(t)[j - 1]);
                    assert(is_quiet(body_lines(t)[j - 1]));
                }
            }
        }
    }
}

/// What is written can be read again: the text that is made of trainers
/// that the format can hold means these trainers.
pub proof fn lemma_written_is_read(ts: Seq<TrainerView>)
    requires
        all_fit(ts),
    ensures
        parse_text(join_lines(trainers_lines(ts))) == Ok::<Seq<TrainerView>, PartyErrorView>(ts),
{
    let lines = trainers_lines(ts);
    let blank = seq![Seq::<char>::empty()];
    lemma_lines_plain(ts);
    lemma_split_join(lines);
    assert(lines.push(Seq::empty()) =~= lines + blank);
    lemma_blocks_of_trainers(ts, blank);
    lemma_blocks_of_blanks(blank);
    assert(blocks_written(ts) + Seq::<BlockView>::empty() =~= blocks_written(ts));
    lemma_trainers_of_written(ts);
}

} // verus!
