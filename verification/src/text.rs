//! Characters, lines and small numbers: what the party text is made of.

use vstd::prelude::*;

verus! {

/// `String::push` of std: the character is appended at the end of the
/// string, and nothing else of it changes.
pub assume_specification[ String::push ](s: &mut String, c: char)
    ensures
        final(s)@ == old(s)@.push(c),
;

/// The text of an optional string.
pub open spec fn opt_text(o: Option<String>) -> Option<Seq<char>> {
    match o {
        Some(s) => Some(s@),
        None => None,
    }
}

/// The texts of a sequence of lines that are held as vectors of characters.
pub open spec fn lines_of(v: Seq<Vec<char>>) -> Seq<Seq<char>> {
    v.map_values(|l: Vec<char>| l@)
}

/// No character of `s` is a line feed.
pub open spec fn no_newline(s: Seq<char>) -> bool {
    forall|i: int| 0 <= i < s.len() ==> s[i] != '\n'
}

/// The number of characters of `text` before its first line feed, or its
/// length if it has none.
pub open spec fn line_end(text: Seq<char>) -> nat
    decreases text.len(),
{
    if text.len() == 0 || text[0] == '\n' {
        0
    } else {
        1 + line_end(text.drop_first())
    }
}

/// The lines of a text: the pieces between its line feeds, in order. A text
/// with n line feeds has n + 1 lines, so one that ends in a line feed has an
/// empty last line.
pub open spec fn split_lines(text: Seq<char>) -> Seq<Seq<char>>
    decreases text.len(),
{
    let n = line_end(text);
    if n >= text.len() {
        seq![text]
    } else {
        seq![text.take(n as int)] + split_lines(text.skip(n as int + 1))
    }
}

/// The text made of the given lines, each followed by a line feed.
pub open spec fn join_lines(lines: Seq<Seq<char>>) -> Seq<char>
    decreases lines.len(),
{
    if lines.len() == 0 {
        Seq::empty()
    } else {
        join_lines(lines.drop_last()) + lines.last() + seq!['\n']
    }
}

/// The end of the first line lies within the text, at a line feed if it is not
/// the end of the text, and no line feed stands before it.
pub proof fn lemma_line_end_bound(text: Seq<char>)
    ensures
        line_end(text) <= text.len(),
        line_end(text) < text.len() ==> text[line_end(text) as int] == '\n',
        no_newline(text.take(line_end(text) as int)),
    decreases text.len(),
{
    if text.len() == 0 || text[0] == '\n' {
    } else {
        let rest = text.drop_first();
        lemma_line_end_bound(rest);
        let n = line_end(rest);
        let head = text.take(n as int + 1);
        assert forall|i: int| 0 <= i < head.len() implies #[trigger] head[i] != '\n' by {
            if i > 0 {
                assert(rest.take(n as int)[i - 1] == text[i]);
            }
        }
    }
}

/// A line without line feed that is followed by a line feed ends there.
pub proof fn lemma_line_end_at(line: Seq<char>, rest: Seq<char>)
    requires
        no_newline(line),
    ensures
        line_end(line + seq!['\n'] + rest) == line.len(),
        line_end(line) == line.len(),
    decreases line.len(),
{
    let text = line + seq!['\n'] + rest;
    if line.len() == 0 {
        assert(text[0] == '\n');
    } else {
        let tail = line.drop_first();
        assert(text[0] == line[0]);
        assert(text.drop_first() =~= tail + seq!['\n'] + rest);
        assert forall|i: int| 0 <= i < tail.len() implies tail[i] != '\n' by {
            assert(tail[i] == line[i + 1]);
        }
        lemma_line_end_at(tail, rest);
    }
}

/// The lines of a text that begins with a line and a line feed are that line
/// and the lines of what follows.
pub proof fn lemma_split_lines_step(line: Seq<char>, rest: Seq<char>)
    requires
        no_newline(line),
    ensures
        split_lines(line + seq!['\n'] + rest) == seq![line] + split_lines(rest),
        split_lines(line) == seq![line],
{
    let text = line + seq!['\n'] + rest;
    lemma_line_end_at(line, rest);
    assert(text.take(line.len() as int) =~= line);
    assert(text.skip(line.len() as int + 1) =~= rest);
}

/// Splitting undoes joining: the lines of a joined text are the lines that
/// were joined, and one empty line after the last line feed.
pub proof fn lemma_split_join(lines: Seq<Seq<char>>)
    requires
        forall|i: int| 0 <= i < lines.len() ==> no_newline(#[trigger] lines[i]),
    ensures
        split_lines(join_lines(lines)) == lines.push(Seq::empty()),
    decreases lines.len(),
{
    if lines.len() == 0 {
        lemma_split_lines_step(Seq::empty(), Seq::empty());
        assert(join_lines(lines) =~= Seq::<char>::empty());
        assert(lines.push(Seq::empty()) =~= seq![Seq::<char>::empty()]);
    } else {
        let first = lines[0];
        let rest = lines.drop_first();
        lemma_join_lines_front(lines);
        lemma_split_join(rest);
        lemma_split_lines_step(first, join_lines(rest));
        assert(seq![first] + rest.push(Seq::empty()) =~= lines.push(Seq::empty()));
    }
}

/// Joining can be unfolded at the front as well as at the back.
pub proof fn lemma_join_lines_front(lines: Seq<Seq<char>>)
    requires
        lines.len() > 0,
    ensures
        join_lines(lines) == lines[0] + seq!['\n'] + join_lines(lines.drop_first()),
    decreases lines.len(),
{
    if lines.len() == 1 {
        assert(lines.drop_last() =~= Seq::<Seq<char>>::empty());
        assert(lines.drop_first() =~= Seq::<Seq<char>>::empty());
        assert(join_lines(lines.drop_last()) =~= Seq::<char>::empty());
        assert(join_lines(lines) =~= lines[0] + seq!['\n'] + join_lines(lines.drop_first()));
    } else {
        let init = lines.drop_last();
        lemma_join_lines_front(init);
        assert(init.drop_first() =~= lines.drop_first().drop_last());
        assert(init[0] == lines[0]);
        assert(lines.drop_first().last() == lines.last());
        assert(join_lines(lines) =~= lines[0] + seq!['\n'] + join_lines(lines.drop_first()));
    }
}

/// Joining two runs of lines joins their texts.
pub proof fn lemma_join_lines_add(a: Seq<Seq<char>>, b: Seq<Seq<char>>)
    ensures
        join_lines(a + b) == join_lines(a) + join_lines(b),
    decreases b.len(),
{
    if b.len() == 0 {
        assert(a + b =~= a);
        assert(join_lines(a) + join_lines(b) =~= join_lines(a));
    } else {
        lemma_join_lines_add(a, b.drop_last());
        assert((a + b).drop_last() =~= a + b.drop_last());
        assert((a + b).last() == b.last());
        assert(join_lines(a + b) =~= join_lines(a) + join_lines(b));
    }
}

/// The characters of a string, in order.
pub fn to_chars(text: &str) -> (v: Vec<char>)
    ensures
        v@ == text@,
{
    let mut v: Vec<char> = Vec::new();
    for c in it: text.chars()
        invariant
            v@ == text@.take(it.index() as int),
            it.seq() == text@,
    {
        v.push(c);
    }
    v
}

/// The string made of the characters of `chars` from `from` up to `to`.
pub fn string_of(chars: &Vec<char>, from: usize, to: usize) -> (s: String)
    requires
        from <= to <= chars.len(),
    ensures
        s@ == chars@.subrange(from as int, to as int),
{
    let mut s = String::new();
    let mut i: usize = from;
    while i < to
        invariant
            from <= i <= to <= chars.len(),
            s@ == chars@.subrange(from as int, i as int),
        decreases to - i,
    {
        s.push(chars[i]);
        i += 1;
        assert(s@ =~= chars@.subrange(from as int, i as int));
    }
    s
}

/// The lines of a text, each as a vector of its characters.
pub fn read_lines(text: &str) -> (lines: Vec<Vec<char>>)
    ensures
        lines_of(lines@) == split_lines(text@),
{
    let mut lines: Vec<Vec<char>> = Vec::new();
    let mut cur: Vec<char> = Vec::new();
    let ghost mut start: int = 0;
    assert(lines_of(lines@) + split_lines(text@.skip(0)) =~= split_lines(text@)) by {
        assert(text@.skip(0) =~= text@);
    }
    for c in it: text.chars()
        invariant
            it.seq() == text@,
            0 <= start <= it.index(),
            cur@ == text@.subrange(start, it.index() as int),
            no_newline(cur@),
            split_lines(text@) == lines_of(lines@) + split_lines(text@.skip(start)),
    {
        let ghost i = it.index() as int;
        if c == '\n' {
            proof {
                let rest = text@.skip(i + 1);
                assert(text@.skip(start) =~= cur@ + seq!['\n'] + rest);
                lemma_split_lines_step(cur@, rest);
                assert(lines_of(lines@.push(cur)) =~= lines_of(lines@) + seq![cur@]);
                start = i + 1;
            }
            lines.push(cur);
            cur = Vec::new();
            assert(cur@ =~= text@.subrange(start, i + 1));
        } else {
            cur.push(c);
            assert(cur@ =~= text@.subrange(start, i + 1));
        }
    }
    proof {
        assert(text@.skip(start) =~= cur@);
        lemma_split_lines_step(cur@, Seq::empty());
        assert(lines_of(lines@.push(cur)) =~= lines_of(lines@) + seq![cur@]);
    }
    lines.push(cur);
    lines
}

/// `c` is one of the ten decimal digits.
pub open spec fn is_digit(c: char) -> bool {
    '0' <= c && c <= '9'
}

/// The number that a decimal digit stands for.
pub open spec fn digit_value(c: char) -> nat {
    (c as int - '0' as int) as nat
}

/// Every character of `s` is a decimal digit.
pub open spec fn all_digits(s: Seq<char>) -> bool {
    forall|i: int| 0 <= i < s.len() ==> is_digit(#[trigger] s[i])
}

/// The number that a run of decimal digits stands for.
pub open spec fn digits_value(s: Seq<char>) -> nat
    decreases s.len(),
{
    if s.len() == 0 {
        0
    } else {
        digits_value(s.drop_last()) * 10 + digit_value(s.last())
    }
}

/// A numeral without the plus sign that may stand before it.
pub open spec fn unsigned(s: Seq<char>) -> Seq<char> {
    if s.len() > 0 && s[0] == '+' {
        s.drop_first()
    } else {
        s
    }
}

/// The number from 0 to 255 that a text stands for: an optional plus sign
/// and at least one decimal digit, with nothing before, between or after.
pub open spec fn u8_of_text(s: Seq<char>) -> Option<u8> {
    let d = unsigned(s);
    if d.len() > 0 && all_digits(d) && digits_value(d) <= 255 {
        Some(digits_value(d) as u8)
    } else {
        None
    }
}

/// The decimal digit of a number below ten.
pub open spec fn digit_char(d: nat) -> char {
    (d + '0' as nat) as char
}

/// The decimal numeral of a number from 0 to 255, without sign or leading
/// zeros.
pub open spec fn text_of_u8(n: u8) -> Seq<char> {
    if n < 10 {
        seq![digit_char(n as nat)]
    } else if n < 100 {
        seq![digit_char(n as nat / 10), digit_char(n as nat % 10)]
    } else {
        seq![digit_char(n as nat / 100), digit_char(n as nat / 10 % 10), digit_char(n as nat % 10)]
    }
}

/// A longer run of digits stands for no smaller number.
pub proof fn lemma_digits_value_grows(s: Seq<char>, k: int)
    requires
        0 <= k <= s.len(),
    ensures
        digits_value(s.take(k)) <= digits_value(s),
    decreases s.len() - k,
{
    if k == s.len() {
        assert(s.take(k) =~= s);
    } else {
        lemma_digits_value_grows(s, k + 1);
        assert(s.take(k + 1).drop_last() =~= s.take(k));
    }
}

/// Reading a text as a number from 0 to 255.
pub fn parse_u8(text: &str) -> (r: Option<u8>)
    ensures
        r == u8_of_text(text@),
{
    let chars = to_chars(text);
    let n = chars.len();
    let first: usize = if n > 0 && chars[0] == '+' { 1 } else { 0 };
    let ghost d = unsigned(text@);
    assert(d =~= chars@.skip(first as int));
    if first == n {
        return None;
    }
    let mut acc: u32 = 0;
    let mut i: usize = first;
    while i < n
        invariant
            first <= i <= n == chars.len(),
            d == chars@.skip(first as int),
            d == unsigned(text@),
            all_digits(d.take(i - first)),
            acc == digits_value(d.take(i - first)),
            acc <= 255,
        decreases n - i,
    {
        let c = chars[i];
        assert(d[i - first] == c);
        let ghost next = d.take(i - first + 1);
        assert(next.drop_last() =~= d.take(i - first));
        assert(next.last() == c);
        if !(c >= '0' && c <= '9') {
            assert(!all_digits(d));
            return None;
        }
        let v: u32 = c as u32 - '0' as u32;
        let sum: u32 = acc * 10 + v;
        assert(sum == digits_value(next));
        if sum > 255 {
            proof {
                lemma_digits_value_grows(d, i - first + 1);
            }
            return None;
        }
        assert(all_digits(next)) by {
            assert forall|j: int| 0 <= j < next.len() implies is_digit(#[trigger] next[j]) by {
                if j < next.len() - 1 {
                    assert(d.take(i - first)[j] == next[j]);
                }
            }
        }
        acc = sum;
        i += 1;
    }
    assert(d.take(i - first) =~= d);
    Some(acc as u8)
}

/// Writing a number from 0 to 255 as a decimal numeral.
pub fn u8_to_string(n: u8) -> (s: String)
    ensures
        s@ == text_of_u8(n),
{
    let mut s = String::new();
    if n >= 100 {
        s.push((48u8 + n / 100) as char);
    }
    if n >= 10 {
        s.push((48u8 + n / 10 % 10) as char);
    }
    s.push((48u8 + n % 10) as char);
    assert(s@ =~= text_of_u8(n));
    s
}

/// Reading undoes writing: the numeral of a number stands for that number.
pub proof fn lemma_u8_text_round_trip(n: u8)
    ensures
        u8_of_text(text_of_u8(n)) == Some(n),
{
    let t = text_of_u8(n);
    assert(unsigned(t) == t);
    assert(all_digits(t));
    reveal_with_fuel(digits_value, 4);
    if n < 10 {
        assert(t.drop_last() =~= Seq::<char>::empty());
    } else if n < 100 {
        assert(t.drop_last() =~= seq![digit_char(n as nat / 10)]);
        assert(t.drop_last().drop_last() =~= Seq::<char>::empty());
    } else {
        assert(t.drop_last() =~= seq![digit_char(n as nat / 100), digit_char(n as nat / 10 % 10)]);
        assert(t.drop_last().drop_last() =~= seq![digit_char(n as nat / 100)]);
        assert(t.drop_last().drop_last().drop_last() =~= Seq::<char>::empty());
    }
}

} // verus!
