//! What is written can be read back.
//!
//! The text of a unit definition always reads as a unit definition. It reads
//! as the same one, section by section and entry by entry, exactly if no key
//! holds a `=`: the first `=` of a line ends the key, so a key that holds one
//! comes back cut short, with its rest in front of the value.

use vstd::prelude::*;
use crate::parse::{
    escape_letter, find, header_text, hex_value, lemma_find_is, parse_from, parse_line, parse_unit,
    read_char, unescaped, LineView, ParseError,
};
use crate::text::{
    escaped, escaped_char, gap, header_line, hex_digit, needs_escape, pair_lines, section_text,
    unit_text,
};
use crate::unit::{Pairs, Section, UnitView};

verus! {

/// Whether `c` does not occur in `s`.
pub open spec fn free_of(s: Seq<char>, c: char) -> bool {
    forall|i: int| 0 <= i < s.len() ==> s[i] != c
}

/// Whether no key among `pairs` holds a `=`.
pub open spec fn keys_readable(pairs: Pairs) -> bool {
    forall|i: int| 0 <= i < pairs.len() ==> free_of((#[trigger] pairs[i]).0, '=')
}

/// Whether no key of the unit definition holds a `=`.
pub open spec fn readable(unit: UnitView) -> bool {
    &&& keys_readable(unit.unit)
    &&& keys_readable(unit.service)
    &&& keys_readable(unit.install)
}

/// The entry that the line of `pair` reads as: the line is cut at its first
/// `=`, which lies in the key if the key holds one.
pub open spec fn reread_pair(pair: (Seq<char>, Seq<char>)) -> (Seq<char>, Seq<char>) {
    let joined = pair.0 + seq!['='] + pair.1;
    let at = find(joined, '=');
    (joined.take(at), joined.skip(at + 1))
}

/// The entries that the lines of `pairs` read as.
pub open spec fn reread_pairs(pairs: Pairs) -> Pairs {
    Seq::new(pairs.len(), |i: int| reread_pair(pairs[i]))
}

/// The unit definition that the text of `unit` reads as.
pub open spec fn reread(unit: UnitView) -> UnitView {
    UnitView {
        unit: reread_pairs(unit.unit),
        service: reread_pairs(unit.service),
        install: reread_pairs(unit.install),
    }
}

/// The unit definition with `pairs` added to the end of `section`, in order.
pub open spec fn extended(unit: UnitView, section: Section, pairs: Pairs) -> UnitView
    decreases pairs.len(),
{
    if pairs.len() == 0 {
        unit
    } else {
        extended(
            unit.with_entry(section, pairs.first().0, pairs.first().1),
            section,
            pairs.drop_first(),
        )
    }
}

/// A hexadecimal digit stands for the number it was made from.
proof fn lemma_hex_digit_value(n: int)
    requires
        0 <= n < 16,
    ensures
        hex_value(hex_digit(n)) == Some(n),
        hex_digit(n) != '\n',
        hex_digit(n) != '=',
        hex_digit(n) != '\\',
{
}

/// What a character is written as reads as that character and nothing more;
/// it holds no line feed, and a `=` only where the character is one.
proof fn lemma_escaped_char_reads(c: char, rest: Seq<char>)
    ensures
        escaped_char(c).len() >= 1,
        read_char(escaped_char(c) + rest) == Some((c, escaped_char(c).len() as int)),
        free_of(escaped_char(c), '\n'),
        c != '=' ==> free_of(escaped_char(c), '='),
{
    if needs_escape(c) && escape_letter(escaped_char(c)[1]) is None {
        let code = c as u32 as int;
        lemma_hex_digit_value(code / 16);
        lemma_hex_digit_value(code % 16);
    }
}

/// What a string is written as reads as that string; it holds no line feed,
/// and a `=` only where the string holds one.
pub proof fn lemma_escaped_reads(s: Seq<char>)
    ensures
        unescaped(escaped(s)) == Some(s),
        free_of(escaped(s), '\n'),
        free_of(s, '=') ==> free_of(escaped(s), '='),
    decreases s.len(),
{
    if s.len() > 0 {
        let head = escaped_char(s.first());
        let tail = escaped(s.drop_first());
        lemma_escaped_char_reads(s.first(), tail);
        lemma_escaped_reads(s.drop_first());
        assert((head + tail).skip(head.len() as int) =~= tail);
        if free_of(s, '=') {
            assert(free_of(s.drop_first(), '='));
        }
    }
}

/// `find` stays within the sequence, and what it passes over is not `c`.
proof fn lemma_find_bounds(s: Seq<char>, c: char)
    ensures
        0 <= find(s, c) <= s.len(),
        find(s, c) < s.len() ==> s[find(s, c)] == c,
        free_of(s.take(find(s, c)), c),
    decreases s.len(),
{
    if s.len() > 0 && s.first() != c {
        lemma_find_bounds(s.drop_first(), c);
        let at = find(s, c);
        assert forall|j: int| 0 <= j < s.take(at).len() implies s.take(at)[j] != c by {
            if j > 0 {
                assert(s.take(at)[j] == s.drop_first().take(at - 1)[j - 1]);
            }
        }
    }
}

/// Two strings in a row are written as what each is written as, in a row.
proof fn lemma_escaped_concat(a: Seq<char>, b: Seq<char>)
    ensures
        escaped(a + b) == escaped(a) + escaped(b),
    decreases a.len(),
{
    if a.len() > 0 {
        assert((a + b).drop_first() =~= a.drop_first() + b);
        lemma_escaped_concat(a.drop_first(), b);
    }
}

/// An entry reads as itself exactly if its key holds no `=`.
proof fn lemma_reread_pair(pair: (Seq<char>, Seq<char>))
    ensures
        free_of(pair.0, '=') <==> reread_pair(pair) == pair,
        free_of(reread_pair(pair).0, '='),
        escaped(reread_pair(pair).0) + seq!['='] + escaped(reread_pair(pair).1) == escaped(pair.0)
            + seq!['='] + escaped(pair.1),
{
    let joined = pair.0 + seq!['='] + pair.1;
    let at = find(joined, '=');
    let key = joined.take(at);
    let value = joined.skip(at + 1);
    lemma_find_bounds(joined, '=');
    if at > pair.0.len() {
        assert(key[pair.0.len() as int] == '=');
    }
    if free_of(pair.0, '=') {
        assert(forall|j: int| 0 <= j < pair.0.len() ==> joined[j] != '=');
        lemma_find_is(joined, '=', pair.0.len() as int);
        assert(key =~= pair.0);
        assert(value =~= pair.1);
    }
    assert(joined =~= key + seq!['='] + value);
    lemma_escaped_plain(seq!['=']);
    lemma_escaped_concat(pair.0, seq!['=']);
    lemma_escaped_concat(pair.0 + seq!['='], pair.1);
    lemma_escaped_concat(key, seq!['=']);
    lemma_escaped_concat(key + seq!['='], value);
}

/// Entries read as themselves exactly if none of their keys holds a `=`.
proof fn lemma_reread_pairs(pairs: Pairs)
    ensures
        keys_readable(pairs) <==> reread_pairs(pairs) == pairs,
{
    assert forall|i: int| 0 <= i < pairs.len() implies (free_of((#[trigger] pairs[i]).0, '=')
        <==> reread_pair(pairs[i]) == pairs[i]) by {
        lemma_reread_pair(pairs[i]);
    }
    if keys_readable(pairs) {
        assert(reread_pairs(pairs) =~= pairs);
    }
}

/// A string without characters that need an escape is written as it stands.
proof fn lemma_escaped_plain(s: Seq<char>)
    requires
        forall|i: int| 0 <= i < s.len() ==> !needs_escape(#[trigger] s[i]),
    ensures
        escaped(s) == s,
    decreases s.len(),
{
    if s.len() > 0 {
        lemma_escaped_plain(s.drop_first());
    }
}

/// The header line of a section is its header and a line feed; the header
/// holds neither a line feed nor a `=`, and reads as the header of that
/// section.
proof fn lemma_header(section: Section)
    ensures
        header_line(section.name()) == header_text(section) + seq!['\n'],
        free_of(header_text(section), '\n'),
        free_of(header_text(section), '='),
        parse_line(header_text(section)) == LineView::Header(section),
{
    reveal_strlit("Unit");
    reveal_strlit("Service");
    reveal_strlit("Install");
    lemma_escaped_plain(section.name());
    assert(header_text(Section::Service)[1] == 'S');
}

/// Reading a text that begins with a whole line takes that line first.
proof fn lemma_first_line(line: Seq<char>, rest: Seq<char>)
    requires
        free_of(line, '\n'),
    ensures
        find(line + seq!['\n'] + rest, '\n') == line.len(),
        (line + seq!['\n'] + rest).take(line.len() as int) == line,
        (line + seq!['\n'] + rest).skip(line.len() as int + 1) == rest,
{
    let text = line + seq!['\n'] + rest;
    assert(forall|j: int| 0 <= j < line.len() ==> text[j] != '\n');
    lemma_find_is(text, '\n', line.len() as int);
}

/// The line of an entry whose key holds no `=` reads as that entry.
proof fn lemma_entry_line(key: Seq<char>, value: Seq<char>)
    requires
        free_of(key, '='),
    ensures
        free_of(escaped(key) + seq!['='] + escaped(value), '\n'),
        parse_line(escaped(key) + seq!['='] + escaped(value)) == LineView::Entry(key, value),
{
    let line = escaped(key) + seq!['='] + escaped(value);
    let at = escaped(key).len() as int;
    lemma_escaped_reads(key);
    lemma_escaped_reads(value);
    assert(line[at] == '=');
    assert(forall|j: int| 0 <= j < at ==> line[j] != '=');
    lemma_find_is(line, '=', at);
    assert(line.take(at) =~= escaped(key));
    assert(line.skip(at + 1) =~= escaped(value));
    lemma_header(Section::Unit);
    lemma_header(Section::Service);
    lemma_header(Section::Install);
}

/// Reading the lines of a section's entries adds to the current section what
/// they read as, and goes on with what follows.
proof fn lemma_entries(pairs: Pairs, section: Section, unit: UnitView, rest: Seq<char>)
    ensures
        parse_from(pair_lines(pairs) + rest, Some(section), unit) == parse_from(
            rest,
            Some(section),
            extended(unit, section, reread_pairs(pairs)),
        ),
    decreases pairs.len(),
{
    if pairs.len() > 0 {
        let read = reread_pair(pairs.first());
        let line = escaped(read.0) + seq!['='] + escaped(read.1);
        let after = pair_lines(pairs.drop_first()) + rest;
        lemma_reread_pair(pairs.first());
        lemma_entry_line(read.0, read.1);
        lemma_first_line(line, after);
        assert(pair_lines(pairs) + rest =~= line + seq!['\n'] + after);
        assert(reread_pairs(pairs).drop_first() =~= reread_pairs(pairs.drop_first()));
        lemma_entries(pairs.drop_first(), section, unit.with_entry(section, read.0, read.1), rest);
    }
}

/// Adding entries to a section puts them behind those that it has and leaves
/// the other sections as they are.
proof fn lemma_extended(unit: UnitView, section: Section, pairs: Pairs)
    ensures
        extended(unit, section, pairs).section(section) == unit.section(section) + pairs,
        section != Section::Unit ==> extended(unit, section, pairs).unit == unit.unit,
        section != Section::Service ==> extended(unit, section, pairs).service == unit.service,
        section != Section::Install ==> extended(unit, section, pairs).install == unit.install,
    decreases pairs.len(),
{
    if pairs.len() > 0 {
        let next = unit.with_entry(section, pairs.first().0, pairs.first().1);
        lemma_extended(next, section, pairs.drop_first());
    }
}

/// Reading a text that begins with an empty line passes over that line.
proof fn lemma_blank_step(current: Option<Section>, unit: UnitView, rest: Seq<char>)
    ensures
        parse_from(seq!['\n'] + rest, current, unit) == parse_from(rest, current, unit),
{
    let blank = Seq::<char>::empty();
    lemma_first_line(blank, rest);
    assert(seq!['\n'] + rest =~= blank + seq!['\n'] + rest);
}

/// Reading a text that begins with the header line of a section makes that
/// section the current one.
proof fn lemma_header_step(
    section: Section,
    current: Option<Section>,
    unit: UnitView,
    rest: Seq<char>,
)
    ensures
        parse_from(header_line(section.name()) + rest, current, unit) == parse_from(
            rest,
            Some(section),
            unit,
        ),
{
    lemma_header(section);
    lemma_first_line(header_text(section), rest);
    assert(header_line(section.name()) + rest =~= header_text(section) + seq!['\n'] + rest);
}

/// Reading the text of one section, with the empty line before it where
/// `spaced` says so, makes that section the current one and adds to it what
/// the lines of its entries read as; a section without entries gets none.
proof fn lemma_block(
    section: Section,
    pairs: Pairs,
    spaced: bool,
    current: Option<Section>,
    unit: UnitView,
    rest: Seq<char>,
)
    ensures
        parse_from(
            (if spaced {
                seq!['\n']
            } else {
                seq![]
            }) + section_text(section, pairs) + rest,
            current,
            unit,
        ) == parse_from(rest, Some(section), extended(unit, section, reread_pairs(pairs))),
{
    let lines = pair_lines(pairs) + rest;
    let block = section_text(section, pairs) + rest;
    lemma_entries(pairs, section, unit, rest);
    lemma_header_step(section, current, unit, lines);
    assert(block =~= header_line(section.name()) + lines);
    if spaced {
        lemma_blank_step(current, unit, block);
        assert(seq!['\n'] + section_text(section, pairs) + rest =~= seq!['\n'] + block);
    } else {
        assert(Seq::<char>::empty() + section_text(section, pairs) + rest =~= block);
    }
}

/// Reading the text of a unit definition never fails: it gives the three
/// sections back with every entry in its place, each as its line reads.
pub proof fn lemma_reads_back(unit: UnitView)
    ensures
        parse_unit(unit_text(unit)) == Ok::<UnitView, ParseError>(reread(unit)),
{
    let none = Seq::<char>::empty();
    let a = section_text(Section::Unit, unit.unit);
    let b = section_text(Section::Service, unit.service);
    let c = section_text(Section::Install, unit.install);
    let gap_b = gap(unit.unit.len() > 0, unit.service);
    let gap_c = gap(unit.unit.len() > 0 || unit.service.len() > 0, unit.install);
    let start = UnitView::empty();
    let with_a = extended(start, Section::Unit, reread_pairs(unit.unit));
    let with_b = extended(with_a, Section::Service, reread_pairs(unit.service));
    let with_c = extended(with_b, Section::Install, reread_pairs(unit.install));
    let tail_c = gap_c + c + none;
    let tail_b = gap_b + b + tail_c;
    assert(unit_text(unit) =~= none + a + tail_b);
    lemma_extended(start, Section::Unit, reread_pairs(unit.unit));
    lemma_extended(with_a, Section::Service, reread_pairs(unit.service));
    lemma_extended(with_b, Section::Install, reread_pairs(unit.install));
    lemma_block(Section::Unit, unit.unit, false, None, start, tail_b);
    lemma_block(
        Section::Service,
        unit.service,
        gap_b.len() > 0,
        Some(Section::Unit),
        with_a,
        tail_c,
    );
    lemma_block(
        Section::Install,
        unit.install,
        gap_c.len() > 0,
        Some(Section::Service),
        with_b,
        none,
    );
    assert(with_c.unit =~= reread(unit).unit);
    assert(with_c.service =~= reread(unit).service);
    assert(with_c.install =~= reread(unit).install);
    assert(parse_unit(unit_text(unit)) == parse_from(none, Some(Section::Install), with_c));
}

/// Writing a unit definition out and reading the text back gives the same
/// three sections, with the same keys and values in the same order, if no key
/// holds a `=`.
pub proof fn lemma_round_trip(unit: UnitView)
    requires
        readable(unit),
    ensures
        parse_unit(unit_text(unit)) == Ok::<UnitView, ParseError>(unit),
{
    lemma_reads_back(unit);
    lemma_reread_pairs(unit.unit);
    lemma_reread_pairs(unit.service);
    lemma_reread_pairs(unit.install);
}

/// A unit definition with a `=` in a key does not come back as it was.
pub proof fn lemma_round_trip_needs_readable(unit: UnitView)
    requires
        !readable(unit),
    ensures
        parse_unit(unit_text(unit)) != Ok::<UnitView, ParseError>(unit),
{
    lemma_reads_back(unit);
    lemma_reread_pairs(unit.unit);
    lemma_reread_pairs(unit.service);
    lemma_reread_pairs(unit.install);
}

} // verus!
