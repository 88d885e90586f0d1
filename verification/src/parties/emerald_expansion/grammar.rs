//! The grammar of the party text: which lines open a trainer's block, and
//! what the lines of a block capture.
//!
//! A file is read line by line. A delimiter line opens the block of a
//! trainer, which goes on to the next delimiter line. The lines of a block up
//! to its first empty line hold the fields of the trainer; behind them, each
//! run of lines between empty lines describes one party member. A line that
//! no rule knows is passed over.

use crate::parties::emerald_expansion::fields::{
    blocks_view, mons_view, opt_fields, Block, BlockView, PokemonFields, PokemonFieldsView,
    TrainerFields, TrainerFieldsView,
};
use crate::text::{lines_of, opt_text, string_of, to_chars};
use vstd::prelude::*;

verus! {

/// The kinds of characters that the grammar tells apart.
#[derive(Clone, Copy, Debug)]
pub enum CharClass {
    /// What an id is made of: capital letters, digits and the underscore.
    Id,
    /// What a word is made of: letters, digits and the underscore.
    Word,
    /// What a species is made of: the characters of a word and the hyphen.
    Species,
}

/// `c` is a character of the given kind.
pub open spec fn in_class(c: char, class: CharClass) -> bool {
    let capital = 'A' <= c && c <= 'Z';
    let small = 'a' <= c && c <= 'z';
    let digit = '0' <= c && c <= '9';
    match class {
        CharClass::Id => capital || digit || c == '_',
        CharClass::Word => capital || small || digit || c == '_',
        CharClass::Species => capital || small || digit || c == '_' || c == '-',
    }
}

/// `s` is not empty and made of characters of the given kind.
pub open spec fn made_of(s: Seq<char>, class: CharClass) -> bool {
    s.len() > 0 && forall|i: int| 0 <= i < s.len() ==> in_class(#[trigger] s[i], class)
}

/// `s` is an id.
pub open spec fn is_id(s: Seq<char>) -> bool {
    made_of(s, CharClass::Id)
}

/// `s` is a word.
pub open spec fn is_word(s: Seq<char>) -> bool {
    made_of(s, CharClass::Word)
}

/// `s` is a species.
pub open spec fn is_species(s: Seq<char>) -> bool {
    made_of(s, CharClass::Species)
}

/// `line` begins with `prefix`.
pub open spec fn starts_with(line: Seq<char>, prefix: Seq<char>) -> bool {
    prefix.len() <= line.len() && forall|i: int|
        0 <= i < prefix.len() ==> line[i] == #[trigger] prefix[i]
}

/// `line` ends with `suffix`.
pub open spec fn ends_with(line: Seq<char>, suffix: Seq<char>) -> bool {
    suffix.len() <= line.len() && forall|i: int|
        0 <= i < suffix.len() ==> line[line.len() - suffix.len() + i] == #[trigger] suffix[i]
}

/// The id of a delimiter line: what stands between `=== ` and ` ===` on a
/// line that is made of these two and an id.
pub open spec fn delimiter_id(line: Seq<char>) -> Option<Seq<char>> {
    let open = "=== "@;
    let close = " ==="@;
    let id = line.subrange(open.len() as int, line.len() - close.len());
    if open.len() + close.len() < line.len() && starts_with(line, open) && ends_with(line, close)
        && is_id(id) {
        Some(id)
    } else {
        None
    }
}

/// The line is a delimiter line.
pub open spec fn is_delimiter(line: Seq<char>) -> bool {
    delimiter_id(line) is Some
}

/// What stands behind `mark` on a line that begins with it, without the one
/// space that may follow the mark.
pub open spec fn value_after(line: Seq<char>, mark: Seq<char>) -> Option<Seq<char>> {
    if starts_with(line, mark) {
        let rest = line.skip(mark.len() as int);
        if rest.len() > 0 && rest[0] == ' ' {
            Some(rest.drop_first())
        } else {
            Some(rest)
        }
    } else {
        None
    }
}

/// The value of the field with the given label on a line: what stands
/// behind the label and a colon.
pub open spec fn field_in(line: Seq<char>, label: Seq<char>) -> Option<Seq<char>> {
    value_after(line, label.push(':'))
}

/// The move on a line: what stands behind a hyphen at its start.
pub open spec fn move_in(line: Seq<char>) -> Option<Seq<char>> {
    value_after(line, seq!['-'])
}

/// The nature on a line: the word before ` Nature` on a line that is made of
/// a word and ` Nature`.
pub open spec fn nature_in(line: Seq<char>) -> Option<Seq<char>> {
    let close = " Nature"@;
    let word = line.take(line.len() - close.len());
    if close.len() < line.len() && ends_with(line, close) && is_word(word) {
        Some(word)
    } else {
        None
    }
}

/// The value of a labeled field in a run of lines: that of the last line
/// that has the field.
pub open spec fn last_field(lines: Seq<Seq<char>>, label: Seq<char>) -> Option<Seq<char>>
    decreases lines.len(),
{
    if lines.len() == 0 {
        None
    } else {
        match field_in(lines.last(), label) {
            Some(v) => Some(v),
            None => last_field(lines.drop_last(), label),
        }
    }
}

/// The nature in a run of lines: that of the last line that has one.
pub open spec fn last_nature(lines: Seq<Seq<char>>) -> Option<Seq<char>>
    decreases lines.len(),
{
    if lines.len() == 0 {
        None
    } else {
        match nature_in(lines.last()) {
            Some(v) => Some(v),
            None => last_nature(lines.drop_last()),
        }
    }
}

/// The moves in a run of lines, in the order of the lines.
pub open spec fn moves_in(lines: Seq<Seq<char>>) -> Seq<Seq<char>>
    decreases lines.len(),
{
    if lines.len() == 0 {
        Seq::empty()
    } else {
        match move_in(lines.last()) {
            Some(v) => moves_in(lines.drop_last()).push(v),
            None => moves_in(lines.drop_last()),
        }
    }
}

/// The move at a position, if there are that many.
pub open spec fn nth_move(moves: Seq<Seq<char>>, n: int) -> Option<Seq<char>> {
    if 0 <= n < moves.len() {
        Some(moves[n])
    } else {
        None
    }
}

/// The number of characters at the start of a line that can stand in a
/// species.
pub open spec fn species_len(line: Seq<char>) -> nat
    decreases line.len(),
{
    if line.len() == 0 || !in_class(line[0], CharClass::Species) {
        0
    } else {
        1 + species_len(line.drop_first())
    }
}

/// What the first line of a party member captures.
pub ghost struct FirstLine {
    pub species: Seq<char>,
    pub gender: Option<Seq<char>>,
    pub held_item: Option<Seq<char>>,
}

/// What the first line of a party member captures: the species at its
/// start; behind it, if it is there, a space and one character in
/// parentheses, which is the code of the gender; and behind that, if it is
/// there, ` @ ` and the held item, which goes to the end of the line. A line
/// that does not start with a species, or that goes on in another way,
/// captures nothing.
pub open spec fn first_line_of(line: Seq<char>) -> Option<FirstLine> {
    let n = species_len(line) as int;
    let rest = line.skip(n);
    let has_gender = rest.len() >= 4 && rest[0] == ' ' && rest[1] == '(' && rest[3] == ')';
    let gender = if has_gender {
        Some(seq![rest[2]])
    } else {
        None
    };
    let tail = if has_gender {
        rest.skip(4)
    } else {
        rest
    };
    let at = " @ "@;
    if n == 0 {
        None
    } else if tail.len() == 0 {
        Some(FirstLine { species: line.take(n), gender, held_item: None })
    } else if starts_with(tail, at) {
        Some(FirstLine { species: line.take(n), gender, held_item: Some(tail.skip(at.len() as int)) })
    } else {
        None
    }
}

/// What the lines of one party member capture. The first line gives species,
/// gender and held item; each other field is looked for in the lines behind
/// it. The first four moves fill the four move slots in their order. The
/// grammar has no line for a shiny member.
pub open spec fn pokemon_fields_of(lines: Seq<Seq<char>>) -> PokemonFieldsView
    recommends
        lines.len() > 0,
{
    let first = first_line_of(lines[0]);
    let rest = lines.drop_first();
    let moves = moves_in(rest);
    PokemonFieldsView {
        species: match first {
            Some(f) => Some(f.species),
            None => None,
        },
        gender: match first {
            Some(f) => f.gender,
            None => None,
        },
        held_item: match first {
            Some(f) => f.held_item,
            None => None,
        },
        level: last_field(rest, "Level"@),
        individual_values: last_field(rest, "IVs"@),
        effort_values: last_field(rest, "EVs"@),
        ball: last_field(rest, "Ball"@),
        happiness: last_field(rest, "Happiness"@),
        nature: last_nature(rest),
        shiny: None,
        tera_type: last_field(rest, "Tera Type"@),
        move_1: nth_move(moves, 0),
        move_2: nth_move(moves, 1),
        move_3: nth_move(moves, 2),
        move_4: nth_move(moves, 3),
    }
}

/// What the lines of a trainer's fields capture, field by field.
pub open spec fn trainer_captures(lines: Seq<Seq<char>>) -> TrainerFieldsView {
    TrainerFieldsView {
        name: last_field(lines, "Name"@),
        pic: last_field(lines, "Pic"@),
        class: last_field(lines, "Class"@),
        gender: last_field(lines, "Gender"@),
        music: last_field(lines, "Music"@),
        items: last_field(lines, "Items"@),
        double_battle: last_field(lines, "Double Battle"@),
        ai: last_field(lines, "AI"@),
        mugshot: last_field(lines, "Mugshot"@),
        starting_status: last_field(lines, "Starting Status"@),
    }
}

/// Some field of a trainer was captured.
pub open spec fn any_captured(f: TrainerFieldsView) -> bool {
    f.name is Some || f.pic is Some || f.class is Some || f.gender is Some || f.music is Some
        || f.items is Some || f.double_battle is Some || f.ai is Some || f.mugshot is Some
        || f.starting_status is Some
}

/// What the lines of a trainer's fields capture, unless no line among them
/// holds a field of a trainer.
pub open spec fn header_fields_of(lines: Seq<Seq<char>>) -> Option<TrainerFieldsView> {
    if any_captured(trainer_captures(lines)) {
        Some(trainer_captures(lines))
    } else {
        None
    }
}

/// The number of lines at the start of a run that are not empty.
pub open spec fn filled_run(lines: Seq<Seq<char>>) -> nat
    decreases lines.len(),
{
    if lines.len() == 0 || lines[0].len() == 0 {
        0
    } else {
        1 + filled_run(lines.drop_first())
    }
}

/// The number of lines at the start of a run that are no delimiter lines.
pub open spec fn body_run(lines: Seq<Seq<char>>) -> nat
    decreases lines.len(),
{
    if lines.len() == 0 || is_delimiter(lines[0]) {
        0
    } else {
        1 + body_run(lines.drop_first())
    }
}

/// The run of lines that are not empty is no longer than the lines.
pub proof fn lemma_filled_run_bound(lines: Seq<Seq<char>>)
    ensures
        filled_run(lines) <= lines.len(),
    decreases lines.len(),
{
    if lines.len() > 0 {
        lemma_filled_run_bound(lines.drop_first());
    }
}

/// The run of lines that are no delimiter lines is no longer than the lines.
pub proof fn lemma_body_run_bound(lines: Seq<Seq<char>>)
    ensures
        body_run(lines) <= lines.len(),
    decreases lines.len(),
{
    if lines.len() > 0 {
        lemma_body_run_bound(lines.drop_first());
    }
}

/// What the lines behind a trainer's fields capture of the party: empty
/// lines are passed over, and each run of lines between them is one member.
pub open spec fn mons_of(lines: Seq<Seq<char>>) -> Seq<PokemonFieldsView>
    decreases lines.len(),
{
    if lines.len() == 0 {
        Seq::empty()
    } else if lines[0].len() == 0 {
        mons_of(lines.drop_first())
    } else {
        let n = filled_run(lines) as int;
        proof {
            lemma_filled_run_bound(lines);
        }
        seq![pokemon_fields_of(lines.take(n))] + mons_of(lines.skip(n))
    }
}

/// What the lines of a block behind its delimiter line capture: the lines up
/// to the first empty one hold the fields of the trainer, the others the
/// party.
pub open spec fn block_of(id: Seq<char>, body: Seq<Seq<char>>) -> BlockView {
    let h = filled_run(body) as int;
    BlockView { id, fields: header_fields_of(body.take(h)), mons: mons_of(body.skip(h)) }
}

/// The blocks of a run of lines. Lines before the first delimiter line
/// belong to no block.
pub open spec fn blocks_of(lines: Seq<Seq<char>>) -> Seq<BlockView>
    decreases lines.len(),
{
    if lines.len() == 0 {
        Seq::empty()
    } else {
        match delimiter_id(lines[0]) {
            None => blocks_of(lines.drop_first()),
            Some(id) => {
                let n = body_run(lines.drop_first()) as int;
                proof {
                    lemma_body_run_bound(lines.drop_first());
                }
                seq![block_of(id, lines.subrange(1, 1 + n))] + blocks_of(lines.skip(1 + n))
            },
        }
    }
}

/// Tells whether `c` is a character of the given kind.
pub fn has_class(c: char, class: CharClass) -> (r: bool)
    ensures
        r == in_class(c, class),
{
    let capital = 'A' <= c && c <= 'Z';
    let small = 'a' <= c && c <= 'z';
    let digit = '0' <= c && c <= '9';
    match class {
        CharClass::Id => capital || digit || c == '_',
        CharClass::Word => capital || small || digit || c == '_',
        CharClass::Species => capital || small || digit || c == '_' || c == '-',
    }
}

/// Tells whether the characters of `line` from `from` up to `to` are at
/// least one and all of the given kind.
pub fn is_made_of(line: &Vec<char>, from: usize, to: usize, class: CharClass) -> (r: bool)
    requires
        from <= to <= line.len(),
    ensures
        r == made_of(line@.subrange(from as int, to as int), class),
{
    let ghost s = line@.subrange(from as int, to as int);
    if from == to {
        return false;
    }
    let mut i: usize = from;
    while i < to
        invariant
            from <= i <= to <= line.len(),
            s == line@.subrange(from as int, to as int),
            forall|k: int| 0 <= k < i - from ==> in_class(#[trigger] s[k], class),
        decreases to - i,
    {
        if !has_class(line[i], class) {
            assert(s[i - from] == line@[i as int]);
            return false;
        }
        i += 1;
    }
    true
}

/// Tells whether `line` goes on with `prefix` from position `at`.
pub fn starts_with_at(line: &Vec<char>, at: usize, prefix: &Vec<char>) -> (r: bool)
    requires
        at <= line.len(),
    ensures
        r == starts_with(line@.skip(at as int), prefix@),
{
    let ghost rest = line@.skip(at as int);
    if line.len() - at < prefix.len() {
        return false;
    }
    let mut i: usize = 0;
    while i < prefix.len()
        invariant
            i <= prefix.len() <= line.len() - at,
            rest == line@.skip(at as int),
            forall|k: int| 0 <= k < i ==> rest[k] == #[trigger] prefix@[k],
        decreases prefix.len() - i,
    {
        if line[at + i] != prefix[i] {
            assert(rest[i as int] != prefix@[i as int]);
            return false;
        }
        i += 1;
    }
    true
}

/// Tells whether `line` ends with `suffix`.
pub fn has_suffix(line: &Vec<char>, suffix: &Vec<char>) -> (r: bool)
    ensures
        r == ends_with(line@, suffix@),
{
    if line.len() < suffix.len() {
        return false;
    }
    let start = line.len() - suffix.len();
    let mut i: usize = 0;
    while i < suffix.len()
        invariant
            i <= suffix.len() <= line.len(),
            start == line.len() - suffix.len(),
            forall|k: int| 0 <= k < i ==> line@[start + k] == #[trigger] suffix@[k],
        decreases suffix.len() - i,
    {
        if line[start + i] != suffix[i] {
            return false;
        }
        i += 1;
    }
    true
}

/// Tells whether a line is a delimiter line.
pub fn delimits(line: &Vec<char>) -> (r: bool)
    ensures
        r == is_delimiter(line@),
{
    let open = to_chars("=== ");
    let close = to_chars(" ===");
    let n = line.len();
    assert(line@.skip(0) =~= line@);
    open.len() < n && close.len() < n - open.len() && starts_with_at(line, 0, &open) && has_suffix(
        line,
        &close,
    ) && is_made_of(line, open.len(), n - close.len(), CharClass::Id)
}

/// Reads the id of a delimiter line.
pub fn read_delimiter(line: &Vec<char>) -> (r: Option<String>)
    ensures
        opt_text(r) == delimiter_id(line@),
{
    if delimits(line) {
        let open = to_chars("=== ");
        let close = to_chars(" ===");
        Some(string_of(line, open.len(), line.len() - close.len()))
    } else {
        None
    }
}

/// Reads what stands behind `mark` on a line that begins with it.
pub fn read_value_after(line: &Vec<char>, mark: &Vec<char>) -> (r: Option<String>)
    ensures
        opt_text(r) == value_after(line@, mark@),
{
    assert(line@.skip(0) =~= line@);
    if !starts_with_at(line, 0, mark) {
        return None;
    }
    let mut start = mark.len();
    let ghost rest = line@.skip(mark.len() as int);
    if start < line.len() && line[start] == ' ' {
        assert(rest[0] == ' ');
        start += 1;
        assert(line@.subrange(start as int, line.len() as int) =~= rest.drop_first());
    } else {
        assert(line@.subrange(start as int, line.len() as int) =~= rest);
    }
    Some(string_of(line, start, line.len()))
}

/// Reads the value of the field with the given label on a line.
pub fn read_field(line: &Vec<char>, label: &str) -> (r: Option<String>)
    ensures
        opt_text(r) == field_in(line@, label@),
{
    let mut mark = to_chars(label);
    mark.push(':');
    read_value_after(line, &mark)
}

/// Reads the move on a line.
pub fn read_move(line: &Vec<char>) -> (r: Option<String>)
    ensures
        opt_text(r) == move_in(line@),
{
    let mut mark: Vec<char> = Vec::new();
    mark.push('-');
    assert(mark@ =~= seq!['-']);
    read_value_after(line, &mark)
}

/// Reads the nature on a line.
pub fn read_nature(line: &Vec<char>) -> (r: Option<String>)
    ensures
        opt_text(r) == nature_in(line@),
{
    let close = to_chars(" Nature");
    let n = line.len();
    if close.len() < n && has_suffix(line, &close) && is_made_of(
        line,
        0,
        n - close.len(),
        CharClass::Word,
    ) {
        Some(string_of(line, 0, n - close.len()))
    } else {
        None
    }
}

/// The texts of a sequence of strings.
pub open spec fn texts_of(v: Seq<String>) -> Seq<Seq<char>> {
    v.map_values(|s: String| s@)
}

/// Looks for a labeled field in the lines from `from` up to `to`.
pub fn find_last_field(lines: &Vec<Vec<char>>, from: usize, to: usize, label: &str) -> (r: Option<
    String,
>)
    requires
        from <= to <= lines.len(),
    ensures
        opt_text(r) == last_field(lines_of(lines@).subrange(from as int, to as int), label@),
{
    let ghost all = lines_of(lines@);
    let mut k: usize = to;
    assert(all.subrange(from as int, to as int) =~= all.subrange(from as int, k as int));
    while k > from
        invariant
            from <= k <= to <= lines.len(),
            all == lines_of(lines@),
            last_field(all.subrange(from as int, to as int), label@) == last_field(
                all.subrange(from as int, k as int),
                label@,
            ),
        decreases k,
    {
        let ghost sub = all.subrange(from as int, k as int);
        k -= 1;
        assert(sub.last() == lines@[k as int]@);
        assert(sub.drop_last() =~= all.subrange(from as int, k as int));
        match read_field(&lines[k], label) {
            Some(v) => {
                return Some(v);
            },
            None => {},
        }
    }
    None
}

/// Looks for a nature in the lines from `from` up to `to`.
pub fn find_last_nature(lines: &Vec<Vec<char>>, from: usize, to: usize) -> (r: Option<String>)
    requires
        from <= to <= lines.len(),
    ensures
        opt_text(r) == last_nature(lines_of(lines@).subrange(from as int, to as int)),
{
    let ghost all = lines_of(lines@);
    let mut k: usize = to;
    assert(all.subrange(from as int, to as int) =~= all.subrange(from as int, k as int));
    while k > from
        invariant
            from <= k <= to <= lines.len(),
            all == lines_of(lines@),
            last_nature(all.subrange(from as int, to as int)) == last_nature(
                all.subrange(from as int, k as int),
            ),
        decreases k,
    {
        let ghost sub = all.subrange(from as int, k as int);
        k -= 1;
        assert(sub.last() == lines@[k as int]@);
        assert(sub.drop_last() =~= all.subrange(from as int, k as int));
        match read_nature(&lines[k]) {
            Some(v) => {
                return Some(v);
            },
            None => {},
        }
    }
    None
}

/// Collects the moves in the lines from `from` up to `to`.
pub fn read_moves(lines: &Vec<Vec<char>>, from: usize, to: usize) -> (r: Vec<String>)
    requires
        from <= to <= lines.len(),
    ensures
        texts_of(r@) == moves_in(lines_of(lines@).subrange(from as int, to as int)),
{
    let ghost all = lines_of(lines@);
    let mut moves: Vec<String> = Vec::new();
    let mut k: usize = from;
    assert(texts_of(moves@) =~= moves_in(all.subrange(from as int, k as int)));
    while k < to
        invariant
            from <= k <= to <= lines.len(),
            all == lines_of(lines@),
            texts_of(moves@) == moves_in(all.subrange(from as int, k as int)),
        decreases to - k,
    {
        let ghost sub = all.subrange(from as int, k as int + 1);
        assert(sub.last() == lines@[k as int]@);
        assert(sub.drop_last() =~= all.subrange(from as int, k as int));
        match read_move(&lines[k]) {
            Some(v) => {
                let ghost before = texts_of(moves@);
                moves.push(v);
                assert(texts_of(moves@) =~= before.push(v@));
            },
            None => {},
        }
        k += 1;
    }
    moves
}

/// A copy of the move at a position, if there are that many.
pub fn move_at(moves: &Vec<String>, n: usize) -> (r: Option<String>)
    ensures
        opt_text(r) == nth_move(texts_of(moves@), n as int),
{
    if n < moves.len() {
        Some(moves[n].clone())
    } else {
        None
    }
}

/// Counts the characters at the start of a line that can stand in a species.
pub fn species_end(line: &Vec<char>) -> (n: usize)
    ensures
        n == species_len(line@),
        n <= line.len(),
{
    let mut i: usize = 0;
    assert(line@.skip(0) =~= line@);
    while i < line.len() && has_class(line[i], CharClass::Species)
        invariant
            i <= line.len(),
            species_len(line@) == i + species_len(line@.skip(i as int)),
        decreases line.len() - i,
    {
        assert(line@.skip(i as int)[0] == line@[i as int]);
        assert(line@.skip(i as int).drop_first() =~= line@.skip(i as int + 1));
        i += 1;
    }
    proof {
        if i < line.len() {
            assert(line@.skip(i as int)[0] == line@[i as int]);
        }
    }
    i
}

/// Reads the first line of a party member: species, code of the gender and
/// held item, or nothing at all where the line is no such line.
pub fn read_first_line(line: &Vec<char>) -> (r: (Option<String>, Option<String>, Option<String>))
    ensures
        match first_line_of(line@) {
            Some(f) => opt_text(r.0) == Some(f.species) && opt_text(r.1) == f.gender && opt_text(
                r.2,
            ) == f.held_item,
            None => r.0 is None && r.1 is None && r.2 is None,
        },
{
    let n = species_end(line);
    let len = line.len();
    if n == 0 {
        return (None, None, None);
    }
    let ghost rest = line@.skip(n as int);
    let has_gender = len - n >= 4 && line[n] == ' ' && line[n + 1] == '(' && line[n + 3] == ')';
    let tail: usize = if has_gender {
        n + 4
    } else {
        n
    };
    assert(has_gender == (rest.len() >= 4 && rest[0] == ' ' && rest[1] == '(' && rest[3] == ')'));
    let ghost spec_tail = if has_gender {
        rest.skip(4)
    } else {
        rest
    };
    assert(spec_tail =~= line@.skip(tail as int));
    let at = to_chars(" @ ");
    if tail == len {
        let species = string_of(line, 0, n);
        let gender = if has_gender {
            Some(string_of(line, n + 2, n + 3))
        } else {
            None
        };
        proof {
            assert(line@.subrange(0, n as int) =~= line@.take(n as int));
            if has_gender {
                assert(line@.subrange(n + 2, n + 3) =~= seq![rest[2]]);
            }
        }
        (Some(species), gender, None)
    } else if starts_with_at(line, tail, &at) {
        let species = string_of(line, 0, n);
        let gender = if has_gender {
            Some(string_of(line, n + 2, n + 3))
        } else {
            None
        };
        let item = string_of(line, tail + at.len(), len);
        proof {
            assert(line@.subrange(0, n as int) =~= line@.take(n as int));
            if has_gender {
                assert(line@.subrange(n + 2, n + 3) =~= seq![rest[2]]);
            }
            assert(line@.subrange(tail + at.len(), len as int) =~= spec_tail.skip(at@.len() as int));
        }
        (Some(species), gender, Some(item))
    } else {
        (None, None, None)
    }
}

/// Reads what the lines of one party member capture.
pub fn read_pokemon_fields(lines: &Vec<Vec<char>>, from: usize, to: usize) -> (r: PokemonFields)
    requires
        from < to <= lines.len(),
    ensures
        r@ == pokemon_fields_of(lines_of(lines@).subrange(from as int, to as int)),
{
    let ghost sub = lines_of(lines@).subrange(from as int, to as int);
    assert(sub[0] == lines@[from as int]@);
    assert(sub.drop_first() =~= lines_of(lines@).subrange(from as int + 1, to as int));
    let first = read_first_line(&lines[from]);
    let moves = read_moves(lines, from + 1, to);
    PokemonFields {
        species: first.0,
        gender: first.1,
        held_item: first.2,
        level: find_last_field(lines, from + 1, to, "Level"),
        individual_values: find_last_field(lines, from + 1, to, "IVs"),
        effort_values: find_last_field(lines, from + 1, to, "EVs"),
        ball: find_last_field(lines, from + 1, to, "Ball"),
        happiness: find_last_field(lines, from + 1, to, "Happiness"),
        nature: find_last_nature(lines, from + 1, to),
        shiny: None,
        tera_type: find_last_field(lines, from + 1, to, "Tera Type"),
        move_1: move_at(&moves, 0),
        move_2: move_at(&moves, 1),
        move_3: move_at(&moves, 2),
        move_4: move_at(&moves, 3),
    }
}

/// Reads what the lines of a trainer's fields capture.
pub fn read_header_fields(lines: &Vec<Vec<char>>, from: usize, to: usize) -> (r: Option<
    TrainerFields,
>)
    requires
        from <= to <= lines.len(),
    ensures
        opt_fields(r) == header_fields_of(
            lines_of(lines@).subrange(from as int, to as int),
        ),
{
    let fields = TrainerFields {
        name: find_last_field(lines, from, to, "Name"),
        pic: find_last_field(lines, from, to, "Pic"),
        class: find_last_field(lines, from, to, "Class"),
        gender: find_last_field(lines, from, to, "Gender"),
        music: find_last_field(lines, from, to, "Music"),
        items: find_last_field(lines, from, to, "Items"),
        double_battle: find_last_field(lines, from, to, "Double Battle"),
        ai: find_last_field(lines, from, to, "AI"),
        mugshot: find_last_field(lines, from, to, "Mugshot"),
        starting_status: find_last_field(lines, from, to, "Starting Status"),
    };
    if fields.name.is_some() || fields.pic.is_some() || fields.class.is_some()
        || fields.gender.is_some() || fields.music.is_some() || fields.items.is_some()
        || fields.double_battle.is_some() || fields.ai.is_some() || fields.mugshot.is_some()
        || fields.starting_status.is_some() {
        Some(fields)
    } else {
        None
    }
}

/// Finds the end of the run of lines from `from` that are not empty.
pub fn filled_end(lines: &Vec<Vec<char>>, from: usize, to: usize) -> (end: usize)
    requires
        from <= to <= lines.len(),
    ensures
        from <= end <= to,
        end - from == filled_run(lines_of(lines@).subrange(from as int, to as int)),
{
    let ghost all = lines_of(lines@);
    let mut k: usize = from;
    while k < to && lines[k].len() > 0
        invariant
            from <= k <= to <= lines.len(),
            all == lines_of(lines@),
            filled_run(all.subrange(from as int, to as int)) == (k - from) + filled_run(
                all.subrange(k as int, to as int),
            ),
        decreases to - k,
    {
        let ghost sub = all.subrange(k as int, to as int);
        assert(sub[0] == lines@[k as int]@);
        assert(sub.drop_first() =~= all.subrange(k as int + 1, to as int));
        k += 1;
    }
    proof {
        if k < to {
            assert(all.subrange(k as int, to as int)[0] == lines@[k as int]@);
        }
    }
    k
}

/// Finds the end of the run of lines from `from` that are no delimiter
/// lines.
pub fn body_end(lines: &Vec<Vec<char>>, from: usize) -> (end: usize)
    requires
        from <= lines.len(),
    ensures
        from <= end <= lines.len(),
        end - from == body_run(lines_of(lines@).skip(from as int)),
{
    let ghost all = lines_of(lines@);
    let mut k: usize = from;
    while k < lines.len() && !delimits(&lines[k])
        invariant
            from <= k <= lines.len(),
            all == lines_of(lines@),
            body_run(all.skip(from as int)) == (k - from) + body_run(all.skip(k as int)),
        decreases lines.len() - k,
    {
        let ghost sub = all.skip(k as int);
        assert(sub[0] == lines@[k as int]@);
        assert(sub.drop_first() =~= all.skip(k as int + 1));
        k += 1;
    }
    proof {
        if k < lines.len() {
            assert(all.skip(k as int)[0] == lines@[k as int]@);
        }
    }
    k
}

/// Reads what the lines behind a trainer's fields capture of the party.
pub fn read_mons(lines: &Vec<Vec<char>>, from: usize, to: usize) -> (r: Vec<PokemonFields>)
    requires
        from <= to <= lines.len(),
    ensures
        mons_view(r@) == mons_of(
            lines_of(lines@).subrange(from as int, to as int),
        ),
{
    let ghost all = lines_of(lines@);
    let mut mons: Vec<PokemonFields> = Vec::new();
    let mut k: usize = from;
    assert(mons_view(mons@) + mons_of(
        all.subrange(k as int, to as int),
    ) =~= mons_of(all.subrange(from as int, to as int)));
    while k < to
        invariant
            from <= k <= to <= lines.len(),
            all == lines_of(lines@),
            mons_of(all.subrange(from as int, to as int))
                == mons_view(mons@) + mons_of(
                all.subrange(k as int, to as int),
            ),
        decreases to - k,
    {
        let ghost sub = all.subrange(k as int, to as int);
        assert(sub[0] == lines@[k as int]@);
        if lines[k].len() == 0 {
            assert(sub.drop_first() =~= all.subrange(k as int + 1, to as int));
            k += 1;
        } else {
            let end = filled_end(lines, k, to);
            assert(sub.take(end - k) =~= all.subrange(k as int, end as int));
            assert(sub.skip(end - k) =~= all.subrange(end as int, to as int));
            let fields = read_pokemon_fields(lines, k, end);
            let ghost before = mons_view(mons@);
            mons.push(fields);
            assert(mons_view(mons@) =~= before.push(
                fields@,
            ));
            assert(before + (seq![fields@] + mons_of(all.subrange(end as int, to as int)))
                =~= before.push(fields@) + mons_of(all.subrange(end as int, to as int)));
            k = end;
        }
    }
    assert(mons_of(all.subrange(k as int, to as int)) =~= Seq::empty());
    assert(mons_view(mons@) + Seq::<
        PokemonFieldsView,
    >::empty() =~= mons_view(mons@));
    mons
}

/// Reads what the lines of a block behind its delimiter line capture.
pub fn read_block(id: String, lines: &Vec<Vec<char>>, from: usize, to: usize) -> (r: Block)
    requires
        from <= to <= lines.len(),
    ensures
        r@ == block_of(id@, lines_of(lines@).subrange(from as int, to as int)),
{
    let ghost all = lines_of(lines@);
    let ghost body = all.subrange(from as int, to as int);
    let h = filled_end(lines, from, to);
    assert(body.take(h - from) =~= all.subrange(from as int, h as int));
    assert(body.skip(h - from) =~= all.subrange(h as int, to as int));
    let fields = read_header_fields(lines, from, h);
    let mons = read_mons(lines, h, to);
    Block { id, fields, mons }
}

/// Reads the blocks of a run of lines.
pub fn read_blocks(lines: &Vec<Vec<char>>) -> (r: Vec<Block>)
    ensures
        blocks_view(r@) == blocks_of(lines_of(lines@)),
{
    let ghost all = lines_of(lines@);
    let mut blocks: Vec<Block> = Vec::new();
    let mut k: usize = 0;
    assert(blocks_view(blocks@) + blocks_of(
        all.skip(0),
    ) =~= blocks_of(all)) by {
        assert(all.skip(0) =~= all);
    }
    while k < lines.len()
        invariant
            k <= lines.len(),
            all == lines_of(lines@),
            blocks_of(all) == blocks_view(blocks@)
                + blocks_of(all.skip(k as int)),
        decreases lines.len() - k,
    {
        let ghost sub = all.skip(k as int);
        assert(sub[0] == lines@[k as int]@);
        assert(sub.drop_first() =~= all.skip(k as int + 1));
        match read_delimiter(&lines[k]) {
            None => {
                k += 1;
            },
            Some(id) => {
                let end = body_end(lines, k + 1);
                assert(sub.subrange(1, 1 + (end - (k + 1))) =~= all.subrange(
                    k as int + 1,
                    end as int,
                ));
                assert(sub.skip(1 + (end - (k + 1))) =~= all.skip(end as int));
                let block = read_block(id, lines, k + 1, end);
                let ghost before = blocks_view(blocks@);
                blocks.push(block);
                assert(blocks_view(blocks@)
                    =~= before.push(block@));
                assert(before + (seq![block@] + blocks_of(all.skip(end as int))) =~= before.push(
                    block@,
                ) + blocks_of(all.skip(end as int)));
                k = end;
            },
        }
    }
    assert(blocks_of(all.skip(k as int)) =~= Seq::empty());
    assert(blocks_view(blocks@) + Seq::<
        BlockView,
    >::empty() =~= blocks_view(blocks@));
    blocks
}

} // verus!
