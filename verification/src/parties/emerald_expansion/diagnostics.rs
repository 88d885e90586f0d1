//! The lines that reading passes over.
//!
//! A line within a block that no rule of the grammar knows does not stop
//! the reading. Such lines are found here, so that a caller can report them.

use crate::parties::emerald_expansion::grammar::{
    any_captured, body_end, body_run, delimits, filled_end, filled_run, is_delimiter,
    last_field, last_nature, lemma_body_run_bound, lemma_filled_run_bound, moves_in,
    read_header_fields, read_pokemon_fields, trainer_captures,
};
use crate::text::{lines_of, read_lines, split_lines, string_of};
use vstd::prelude::*;

verus! {

/// A line among the fields of a trainer is known if it holds one of them.
pub open spec fn is_header_line(line: Seq<char>) -> bool {
    any_captured(trainer_captures(seq![line]))
}

/// A line behind the first line of a party member is known if it holds a
/// field of a member, a nature or a move.
pub open spec fn is_member_line(line: Seq<char>) -> bool {
    let lines = seq![line];
    last_field(lines, "Level"@) is Some || last_field(lines, "IVs"@) is Some || last_field(
        lines,
        "EVs"@,
    ) is Some || last_field(lines, "Ball"@) is Some || last_field(lines, "Happiness"@) is Some
        || last_field(lines, "Tera Type"@) is Some || last_nature(lines) is Some || moves_in(
        lines,
    ).len() > 0
}

/// The lines among the fields of a trainer that are not known, in their
/// order.
pub open spec fn unknown_in_header(lines: Seq<Seq<char>>) -> Seq<Seq<char>>
    decreases lines.len(),
{
    if lines.len() == 0 {
        Seq::empty()
    } else if is_header_line(lines.last()) {
        unknown_in_header(lines.drop_last())
    } else {
        unknown_in_header(lines.drop_last()).push(lines.last())
    }
}

/// The lines behind the first line of a party member that are not known,
/// in their order.
pub open spec fn unknown_in_member(lines: Seq<Seq<char>>) -> Seq<Seq<char>>
    decreases lines.len(),
{
    if lines.len() == 0 {
        Seq::empty()
    } else if is_member_line(lines.last()) {
        unknown_in_member(lines.drop_last())
    } else {
        unknown_in_member(lines.drop_last()).push(lines.last())
    }
}

/// The lines of a party that are not known: those of its members, of each
/// the lines behind the first.
pub open spec fn unknown_in_party(lines: Seq<Seq<char>>) -> Seq<Seq<char>>
    decreases lines.len(),
{
    if lines.len() == 0 {
        Seq::empty()
    } else if lines[0].len() == 0 {
        unknown_in_party(lines.drop_first())
    } else {
        let n = filled_run(lines) as int;
        proof {
            lemma_filled_run_bound(lines);
        }
        unknown_in_member(lines.subrange(1, n)) + unknown_in_party(lines.skip(n))
    }
}

/// The lines of a block behind its delimiter line that are not known.
pub open spec fn unknown_in_block(body: Seq<Seq<char>>) -> Seq<Seq<char>> {
    let h = filled_run(body) as int;
    unknown_in_header(body.take(h)) + unknown_in_party(body.skip(h))
}

/// The lines of the blocks of a run of lines that are not known, in their
/// order. Lines before the first block are not counted.
pub open spec fn unknown_in(lines: Seq<Seq<char>>) -> Seq<Seq<char>>
    decreases lines.len(),
{
    if lines.len() == 0 {
        Seq::empty()
    } else if !is_delimiter(lines[0]) {
        unknown_in(lines.drop_first())
    } else {
        let n = body_run(lines.drop_first()) as int;
        proof {
            lemma_body_run_bound(lines.drop_first());
        }
        unknown_in_block(lines.subrange(1, 1 + n)) + unknown_in(lines.skip(1 + n))
    }
}

/// The lines of a text that reading passes over.
pub open spec fn passed_over(text: Seq<char>) -> Seq<Seq<char>> {
    unknown_in(split_lines(text))
}

/// The texts of a sequence of strings.
pub open spec fn texts(v: Seq<String>) -> Seq<Seq<char>> {
    v.map_values(|s: String| s@)
}

/// Adds to `found` the lines among the fields of a trainer, from `from` up
/// to `to`, that are not known.
pub fn find_unknown_in_header(
    lines: &Vec<Vec<char>>,
    from: usize,
    to: usize,
    found: &mut Vec<String>,
)
    requires
        from <= to <= lines.len(),
    ensures
        texts(final(found)@) == texts(old(found)@) + unknown_in_header(
            lines_of(lines@).subrange(from as int, to as int),
        ),
{
    let ghost all = lines_of(lines@);
    let ghost before = texts(found@);
    let mut k: usize = from;
    assert(all.subrange(from as int, from as int) =~= Seq::empty());
    assert(before + Seq::<Seq<char>>::empty() =~= before);
    while k < to
        invariant
            from <= k <= to <= lines.len(),
            all == lines_of(lines@),
            texts(found@) == before + unknown_in_header(all.subrange(from as int, k as int)),
        decreases to - k,
    {
        let ghost sub = all.subrange(from as int, k as int + 1);
        assert(sub.last() == lines@[k as int]@);
        assert(sub.drop_last() =~= all.subrange(from as int, k as int));
        assert(all.subrange(k as int, k as int + 1) =~= seq![lines@[k as int]@]);
        if read_header_fields(lines, k, k + 1).is_none() {
            let line = string_of(&lines[k], 0, lines[k].len());
            assert(line@ =~= lines@[k as int]@);
            let ghost had = texts(found@);
            found.push(line);
            assert(texts(found@) =~= had.push(line@));
            assert(before + unknown_in_header(sub.drop_last()).push(line@) =~= had.push(line@));
        }
        k += 1;
    }
}

/// Adds to `found` the lines of one party member behind the first, from
/// `from` up to `to`, that are not known.
pub fn find_unknown_in_member(
    lines: &Vec<Vec<char>>,
    from: usize,
    to: usize,
    found: &mut Vec<String>,
)
    requires
        0 < from <= to <= lines.len(),
    ensures
        texts(final(found)@) == texts(old(found)@) + unknown_in_member(
            lines_of(lines@).subrange(from as int, to as int),
        ),
{
    let ghost all = lines_of(lines@);
    let ghost before = texts(found@);
    let mut k: usize = from;
    assert(all.subrange(from as int, from as int) =~= Seq::empty());
    assert(before + Seq::<Seq<char>>::empty() =~= before);
    while k < to
        invariant
            0 < from <= k <= to <= lines.len(),
            all == lines_of(lines@),
            texts(found@) == before + unknown_in_member(all.subrange(from as int, k as int)),
        decreases to - k,
    {
        let ghost sub = all.subrange(from as int, k as int + 1);
        assert(sub.last() == lines@[k as int]@);
        assert(sub.drop_last() =~= all.subrange(from as int, k as int));
        let ghost pair = all.subrange(k as int - 1, k as int + 1);
        assert(pair.drop_first() =~= seq![lines@[k as int]@]);
        let f = read_pokemon_fields(lines, k - 1, k + 1);
        let known = f.level.is_some() || f.individual_values.is_some() || f.effort_values.is_some()
            || f.ball.is_some() || f.happiness.is_some() || f.tera_type.is_some()
            || f.nature.is_some() || f.move_1.is_some();
        assert(known == is_member_line(lines@[k as int]@));
        if !known {
            let line = string_of(&lines[k], 0, lines[k].len());
            assert(line@ =~= lines@[k as int]@);
            let ghost had = texts(found@);
            found.push(line);
            assert(texts(found@) =~= had.push(line@));
            assert(before + unknown_in_member(sub.drop_last()).push(line@) =~= had.push(line@));
        }
        k += 1;
    }
}

/// Adds to `found` the lines of a party, from `from` up to `to`, that are
/// not known.
pub fn find_unknown_in_party(
    lines: &Vec<Vec<char>>,
    from: usize,
    to: usize,
    found: &mut Vec<String>,
)
    requires
        from <= to <= lines.len(),
    ensures
        texts(final(found)@) == texts(old(found)@) + unknown_in_party(
            lines_of(lines@).subrange(from as int, to as int),
        ),
{
    let ghost all = lines_of(lines@);
    let ghost before = texts(found@);
    let ghost mut done: Seq<Seq<char>> = Seq::empty();
    let mut k: usize = from;
    assert(before + done =~= before);
    assert(done + unknown_in_party(all.subrange(from as int, to as int)) =~= unknown_in_party(
        all.subrange(from as int, to as int),
    ));
    while k < to
        invariant
            from <= k <= to <= lines.len(),
            all == lines_of(lines@),
            texts(found@) == before + done,
            unknown_in_party(all.subrange(from as int, to as int)) == done + unknown_in_party(
                all.subrange(k as int, to as int),
            ),
        decreases to - k,
    {
        let ghost sub = all.subrange(k as int, to as int);
        assert(sub[0] == lines@[k as int]@);
        if lines[k].len() == 0 {
            assert(sub.drop_first() =~= all.subrange(k as int + 1, to as int));
            k += 1;
        } else {
            let end = filled_end(lines, k, to);
            assert(sub.subrange(1, end - k) =~= all.subrange(k as int + 1, end as int));
            assert(sub.skip(end - k) =~= all.subrange(end as int, to as int));
            find_unknown_in_member(lines, k + 1, end, found);
            proof {
                let here = unknown_in_member(all.subrange(k as int + 1, end as int));
                let rest = unknown_in_party(all.subrange(end as int, to as int));
                assert(done + (here + rest) =~= (done + here) + rest);
                assert(before + done + here =~= before + (done + here));
                done = done + here;
            }
            k = end;
        }
    }
    proof {
        assert(unknown_in_party(all.subrange(k as int, to as int)) =~= Seq::<Seq<char>>::empty());
        assert(done + Seq::<Seq<char>>::empty() =~= done);
    }
}

/// The lines of a text that reading passes over: the lines within the
/// blocks of trainers that do not hold what is looked for at their place.
pub fn lines_passed_over(file_content: &str) -> (r: Vec<String>)
    ensures
        texts(r@) == passed_over(file_content@),
{
    let lines = read_lines(file_content);
    let ghost all = lines_of(lines@);
    let mut found: Vec<String> = Vec::new();
    let ghost mut done: Seq<Seq<char>> = Seq::empty();
    let mut k: usize = 0;
    assert(texts(found@) =~= done);
    assert(done + unknown_in(all.skip(0)) =~= unknown_in(all)) by {
        assert(all.skip(0) =~= all);
    }
    while k < lines.len()
        invariant
            k <= lines.len(),
            all == lines_of(lines@),
            texts(found@) == done,
            unknown_in(all) == done + unknown_in(all.skip(k as int)),
        decreases lines.len() - k,
    {
        let ghost sub = all.skip(k as int);
        assert(sub[0] == lines@[k as int]@);
        assert(sub.drop_first() =~= all.skip(k as int + 1));
        if !delimits(&lines[k]) {
            k += 1;
        } else {
            let end = body_end(&lines, k + 1);
            let ghost body = all.subrange(k as int + 1, end as int);
            assert(sub.subrange(1, 1 + (end - (k + 1))) =~= body);
            assert(sub.skip(1 + (end - (k + 1))) =~= all.skip(end as int));
            let h = filled_end(&lines, k + 1, end);
            assert(body.take(h - (k + 1)) =~= all.subrange(k as int + 1, h as int));
            assert(body.skip(h - (k + 1)) =~= all.subrange(h as int, end as int));
            find_unknown_in_header(&lines, k + 1, h, &mut found);
            find_unknown_in_party(&lines, h, end, &mut found);
            proof {
                let here = unknown_in_block(body);
                let rest = unknown_in(all.skip(end as int));
                assert(texts(found@) =~= done + here);
                assert(done + (here + rest) =~= (done + here) + rest);
                done = done + here;
            }
            k = end;
        }
    }
    proof {
        assert(unknown_in(all.skip(k as int)) =~= Seq::<Seq<char>>::empty());
        assert(done + Seq::<Seq<char>>::empty() =~= done);
    }
    found
}

} // verus!
