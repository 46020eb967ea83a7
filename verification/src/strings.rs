//! Strings as sequences of characters: repetition, decimal numerals and lines.

use vstd::prelude::*;

verus! {

/// [`String::push`] appends the given character to the string.
pub assume_specification[ String::push ](s: &mut String, ch: char)
    ensures
        final(s)@ == old(s)@.push(ch),
;

/// What each of the strings holds.
pub open spec fn strings_view(strings: Seq<String>) -> Seq<Seq<char>> {
    strings.map_values(|s: String| s@)
}

/// `count` times the character `c`.
pub open spec fn repeated(c: char, count: nat) -> Seq<char> {
    Seq::new(count, |i: int| c)
}

/// A string that holds `count` times the character `c`.
pub fn repeat_char(c: char, count: usize) -> (res: String)
    ensures
        res@ == repeated(c, count as nat),
{
    let mut res = String::new();
    let mut i: usize = 0;
    while i < count
        invariant
            i <= count,
            res@ =~= repeated(c, i as nat),
        decreases count - i,
    {
        res.push(c);
        i += 1;
    }
    res
}

/// The decimal digit of value `d`.
pub open spec fn digit(d: nat) -> char {
    (48 + d) as char
}

/// The decimal numeral of `n`, without leading zeros.
pub open spec fn decimal(n: nat) -> Seq<char>
    decreases n,
{
    if n < 10 {
        seq![digit(n)]
    } else {
        decimal(n / 10).push(digit(n % 10))
    }
}

/// `s` with spaces before it, as many as it takes to reach `width` characters.
pub open spec fn pad_start(s: Seq<char>, width: nat) -> Seq<char> {
    if s.len() < width {
        repeated(' ', (width - s.len()) as nat) + s
    } else {
        s
    }
}

/// The decimal numeral of `n`.
pub fn decimal_string(n: u64) -> (res: String)
    ensures
        res@ == decimal(n as nat),
    decreases n,
{
    let d: u8 = (n % 10) as u8;
    let c: char = (48 + d) as char;
    let mut res = if n < 10 {
        String::new()
    } else {
        decimal_string(n / 10)
    };
    res.push(c);
    assert(n < 10 ==> res@ =~= decimal(n as nat));
    res
}

/// `s` right-aligned in a field of `width` characters.
pub fn pad_start_string(s: &str, width: usize) -> (res: String)
    ensures
        res@ == pad_start(s@, width as nat),
{
    let len: usize = s.unicode_len();
    let mut res = if len < width {
        repeat_char(' ', width - len)
    } else {
        String::new()
    };
    res.append(s);
    assert(len >= width ==> res@ =~= s@);
    res
}

/// Whether `s` ends with `suffix`.
pub open spec fn has_suffix(s: Seq<char>, suffix: Seq<char>) -> bool {
    s.len() >= suffix.len() && s.skip(s.len() - suffix.len()) == suffix
}

/// The pieces of `s`, each with the line feed that ends it: the first begins where `s` begins,
/// and another begins after each line feed that is not the last character of `s`.
pub open spec fn lines_with_endings(s: Seq<char>) -> Seq<Seq<char>>
    decreases s.len(),
{
    if s.len() == 0 {
        Seq::empty()
    } else {
        let before = lines_with_endings(s.drop_last());
        if before.len() == 0 || has_suffix(before.last(), seq!['\n']) {
            before.push(seq![s.last()])
        } else {
            before.drop_last().push(before.last().push(s.last()))
        }
    }
}

/// `line` without the line feed that ends it and without a carriage return before that line feed.
pub open spec fn strip_ending(line: Seq<char>) -> Seq<char> {
    if has_suffix(line, seq!['\r', '\n']) {
        line.take(line.len() - 2)
    } else if has_suffix(line, seq!['\n']) {
        line.take(line.len() - 1)
    } else {
        line
    }
}

/// The lines of `s`, without what ends them.
pub open spec fn lines_of(s: Seq<char>) -> Seq<Seq<char>> {
    lines_with_endings(s).map_values(|line: Seq<char>| strip_ending(line))
}

/// The elements of `parts` one after another, `sep` between each two.
pub open spec fn joined(parts: Seq<Seq<char>>, sep: Seq<char>) -> Seq<char>
    decreases parts.len(),
{
    if parts.len() == 0 {
        Seq::empty()
    } else if parts.len() == 1 {
        parts[0]
    } else {
        joined(parts.drop_last(), sep) + sep + parts.last()
    }
}

/// Adding a string adds what it holds.
pub broadcast proof fn lemma_strings_view_push(strings: Seq<String>, s: String)
    ensures
        #[trigger] strings_view(strings.push(s)) == strings_view(strings).push(s@),
{
    assert(strings_view(strings.push(s)) =~= strings_view(strings).push(s@));
}

/// Whether `s` ends with the character `c`.
fn ends_with_char(s: &str, c: char) -> (res: bool)
    ensures
        res == has_suffix(s@, seq![c]),
{
    let len: usize = s.unicode_len();
    if len == 0 {
        return false;
    }
    assert(s@.skip(len - 1) =~= seq![s@[len - 1]]);
    assert(seq![c][0] == c);
    s.get_char(len - 1) == c
}

/// Whether `s` ends with the characters `c` and `d`.
pub fn ends_with_pair(s: &str, c: char, d: char) -> (res: bool)
    ensures
        res == has_suffix(s@, seq![c, d]),
{
    let len: usize = s.unicode_len();
    if len < 2 {
        return false;
    }
    assert(s@.skip(len - 2) =~= seq![s@[len - 2], s@[len - 1]]);
    assert(seq![c, d][0] == c && seq![c, d][1] == d);
    s.get_char(len - 2) == c && s.get_char(len - 1) == d
}

/// The pieces of `s`, each with the line feed that ends it.
pub fn split_lines_with_endings(s: &str) -> (pieces: Vec<String>)
    ensures
        strings_view(pieces@) == lines_with_endings(s@),
{
    let mut pieces: Vec<String> = Vec::new();
    let mut piece = String::new();
    assert(strings_view(pieces@) =~= Seq::empty());
    for c in it: s.chars()
        invariant
            it.seq() == s@,
            piece@.len() == 0 ==> {
                &&& lines_with_endings(s@.take(it.index())) == strings_view(pieces@)
                &&& pieces@.len() == 0 || has_suffix(strings_view(pieces@).last(), seq!['\n'])
            },
            piece@.len() > 0 ==> {
                &&& lines_with_endings(s@.take(it.index())) == strings_view(pieces@).push(piece@)
                &&& !has_suffix(piece@, seq!['\n'])
            },
    {
        broadcast use lemma_strings_view_push;

        let ghost i = it.index();
        assert(s@.take(i + 1).drop_last() =~= s@.take(i));
        assert(s@.take(i + 1).last() == c);
        let ghost old_piece = piece@;
        piece.push(c);
        assert(old_piece.len() == 0 ==> piece@ =~= seq![c]);
        assert(strings_view(pieces@).push(old_piece).drop_last() =~= strings_view(pieces@));
        assert(lines_with_endings(s@.take(i + 1)) == strings_view(pieces@).push(piece@));
        assert(piece@.skip(piece@.len() - 1) =~= seq![c]);
        assert(seq![c][0] == c && seq!['\n'][0] == '\n');
        if c == '\n' {
            pieces.push(piece);
            piece = String::new();
        }
    }
    assert(s@.take(s@.len() as int) =~= s@);
    if !piece.as_str().is_empty() {
        proof {
            lemma_strings_view_push(pieces@, piece);
        }
        pieces.push(piece);
    }
    pieces
}

/// `line` without what ends it.
fn strip_line_ending(line: &str) -> (res: String)
    ensures
        res@ == strip_ending(line@),
{
    let len: usize = line.unicode_len();
    if ends_with_pair(line, '\r', '\n') {
        line.substring_char(0, len - 2).to_owned()
    } else if ends_with_char(line, '\n') {
        line.substring_char(0, len - 1).to_owned()
    } else {
        line.to_owned()
    }
}

/// The lines of `s`, without what ends them.
pub fn split_lines(s: &str) -> (lines: Vec<String>)
    ensures
        strings_view(lines@) == lines_of(s@),
{
    let pieces = split_lines_with_endings(s);
    let mut lines: Vec<String> = Vec::new();
    let mut i: usize = 0;
    while i < pieces.len()
        invariant
            i <= pieces.len(),
            strings_view(pieces@) == lines_with_endings(s@),
            strings_view(lines@) =~= lines_of(s@).take(i as int),
        decreases pieces.len() - i,
    {
        assert(strings_view(pieces@)[i as int] == pieces@[i as int]@);
        let line = strip_line_ending(pieces[i].as_str());
        proof {
            lemma_strings_view_push(lines@, line);
        }
        lines.push(line);
        i += 1;
        assert(lines_of(s@).take(i as int) =~= lines_of(s@).take(i - 1).push(line@));
    }
    assert(lines_of(s@).take(pieces@.len() as int) =~= lines_of(s@));
    lines
}

/// The strings one after another, `sep` between each two.
pub fn join_strings(parts: &Vec<String>, sep: &str) -> (res: String)
    ensures
        res@ == joined(strings_view(parts@), sep@),
{
    let mut res = String::new();
    let mut i: usize = 0;
    assert(strings_view(parts@).take(0) =~= Seq::empty());
    while i < parts.len()
        invariant
            i <= parts.len(),
            res@ == joined(strings_view(parts@).take(i as int), sep@),
        decreases parts.len() - i,
    {
        let ghost before = strings_view(parts@).take(i as int);
        let ghost after = strings_view(parts@).take(i + 1);
        assert(after.drop_last() =~= before);
        assert(after.last() == parts@[i as int]@);
        if i > 0 {
            res.append(sep);
        }
        res.append(parts[i].as_str());
        assert(i == 0 ==> res@ =~= after[0]);
        i += 1;
    }
    assert(strings_view(parts@).take(i as int) =~= strings_view(parts@));
    res
}

} // verus!
