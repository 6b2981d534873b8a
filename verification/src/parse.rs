//! Reading the text of a unit file back into a unit definition.
//!
//! The text is read line by line. An empty line is passed over. A line that
//! is the header of one of the three sections makes that section the current
//! one. Every other line must hold a `=`: what stands before the first one is
//! the key, what stands behind it the value, both with their escapes undone,
//! and the entry goes to the end of the current section.

use vstd::prelude::*;
use vstd::slice::slice_subrange;
use vstd::string::StrSliceExecFns;
use crate::strings::chars_of;
use crate::unit::{Section, Unit, UnitView};

verus! {

/// Why a text is not the text of a unit file. The first line that is at
/// fault decides.
#[derive(Clone, Copy, Debug, PartialEq, Eq, Structural)]
pub enum ParseError {
    /// A line that is neither empty nor a header holds no `=`.
    MissingSeparator,
    /// A backslash in a key or a value does not begin an escape.
    BadEscape,
    /// An entry stands before the first header.
    OutsideSection,
}

/// Index of the first `c` in `s`, or the length of `s` if there is none.
pub open spec fn find(s: Seq<char>, c: char) -> int
    decreases s.len(),
{
    if s.len() == 0 || s.first() == c {
        0
    } else {
        1 + find(s.drop_first(), c)
    }
}

/// The number that a hexadecimal digit stands for.
pub open spec fn hex_value(c: char) -> Option<int> {
    if '0' <= c <= '9' {
        Some(c as u32 as int - '0' as u32 as int)
    } else if 'a' <= c <= 'f' {
        Some(c as u32 as int - 'a' as u32 as int + 10)
    } else {
        None
    }
}

/// The character that the letter behind a backslash stands for.
pub open spec fn escape_letter(c: char) -> Option<char> {
    if c == '\\' {
        Some('\\')
    } else if c == '0' {
        Some('\0')
    } else if c == 'a' {
        Some('\x07')
    } else if c == 'b' {
        Some('\x08')
    } else if c == 't' {
        Some('\t')
    } else if c == 'n' {
        Some('\n')
    } else if c == 'v' {
        Some('\x0b')
    } else if c == 'f' {
        Some('\x0c')
    } else if c == 'r' {
        Some('\r')
    } else {
        None
    }
}

/// The character that `s` begins with, and how many characters of `s` make
/// it up; `s` is not empty. A character other than the backslash stands for
/// itself. A backslash begins an escape: with one letter behind it, or with
/// `x00` and two hexadecimal digits that give a code below 0x80.
pub open spec fn read_char(s: Seq<char>) -> Option<(char, int)> {
    if s[0] != '\\' {
        Some((s[0], 1))
    } else if s.len() < 2 {
        None
    } else if escape_letter(s[1]) is Some {
        Some((escape_letter(s[1])->0, 2))
    } else if s[1] == 'x' && s.len() >= 6 && s[2] == '0' && s[3] == '0' && hex_value(s[4]) is Some
        && hex_value(s[5]) is Some && hex_value(s[4])->0 < 8 {
        Some(((16 * hex_value(s[4])->0 + hex_value(s[5])->0) as char, 6))
    } else {
        None
    }
}

/// `s` with its escapes undone, if every backslash in it begins an escape.
pub open spec fn unescaped(s: Seq<char>) -> Option<Seq<char>>
    decreases s.len(),
{
    if s.len() == 0 {
        Some(seq![])
    } else {
        match read_char(s) {
            Some((c, used)) => if 0 < used <= s.len() {
                match unescaped(s.skip(used)) {
                    Some(rest) => Some(seq![c] + rest),
                    None => None,
                }
            } else {
                None
            },
            None => None,
        }
    }
}

/// The header of a section without the line feed.
pub open spec fn header_text(section: Section) -> Seq<char> {
    seq!['['] + section.name() + seq![']']
}

/// What one line says.
pub enum LineView {
    Blank,
    Header(Section),
    Entry(Seq<char>, Seq<char>),
    Invalid(ParseError),
}

/// What the line `line`, taken without its line feed, says.
pub open spec fn parse_line(line: Seq<char>) -> LineView {
    if line.len() == 0 {
        LineView::Blank
    } else if line == header_text(Section::Unit) {
        LineView::Header(Section::Unit)
    } else if line == header_text(Section::Service) {
        LineView::Header(Section::Service)
    } else if line == header_text(Section::Install) {
        LineView::Header(Section::Install)
    } else {
        let at = find(line, '=');
        if 0 <= at < line.len() {
            match (unescaped(line.take(at)), unescaped(line.skip(at + 1))) {
                (Some(key), Some(value)) => LineView::Entry(key, value),
                _ => LineView::Invalid(ParseError::BadEscape),
            }
        } else {
            LineView::Invalid(ParseError::MissingSeparator)
        }
    }
}

/// What the lines of `text` make of `unit` when `section` is the current
/// section at the start.
pub open spec fn parse_from(text: Seq<char>, section: Option<Section>, unit: UnitView) -> Result<
    UnitView,
    ParseError,
>
    decreases text.len(),
{
    if text.len() == 0 {
        Ok(unit)
    } else {
        let end = find(text, '\n');
        let rest = if 0 <= end < text.len() {
            text.skip(end + 1)
        } else {
            Seq::empty()
        };
        match parse_line(text.take(end)) {
            LineView::Blank => parse_from(rest, section, unit),
            LineView::Header(named) => parse_from(rest, Some(named), unit),
            LineView::Entry(key, value) => match section {
                Some(current) => parse_from(rest, section, unit.with_entry(current, key, value)),
                None => Err(ParseError::OutsideSection),
            },
            LineView::Invalid(error) => Err(error),
        }
    }
}

/// The unit definition that `text` is the unit file of.
pub open spec fn parse_unit(text: Seq<char>) -> Result<UnitView, ParseError> {
    parse_from(text, None, UnitView::empty())
}

/// `find` gives the one index that holds `c`, or ends the sequence, with no
/// `c` before it.
pub proof fn lemma_find_is(s: Seq<char>, c: char, at: int)
    requires
        0 <= at <= s.len(),
        at < s.len() ==> s[at] == c,
        forall|j: int| 0 <= j < at ==> s[j] != c,
    ensures
        find(s, c) == at,
    decreases s.len(),
{
    if s.len() > 0 && s.first() != c {
        lemma_find_is(s.drop_first(), c, at - 1);
    }
}

/// Index of the first `c` in `chars` at or behind `from`, or the length of
/// `chars` if there is none.
pub fn find_from(chars: &[char], from: usize, c: char) -> (at: usize)
    requires
        from <= chars@.len(),
    ensures
        from <= at <= chars@.len(),
        at - from == find(chars@.skip(from as int), c),
{
    let n: usize = chars.len();
    let mut at: usize = from;
    while at < n && chars[at] != c
        invariant
            from <= at <= n,
            n == chars@.len(),
            forall|j: int| from <= j < at ==> chars@[j] != c,
        decreases n - at,
    {
        at += 1;
    }
    proof {
        lemma_find_is(chars@.skip(from as int), c, at - from);
    }
    at
}

/// The number that a hexadecimal digit stands for.
fn hex_of(c: char) -> (value: Option<u8>)
    ensures
        value is Some <==> hex_value(c) is Some,
        value matches Some(v) ==> hex_value(c) == Some(v as int),
{
    if '0' <= c && c <= '9' {
        Some(c as u8 - 48)
    } else if 'a' <= c && c <= 'f' {
        Some(c as u8 - 87)
    } else {
        None
    }
}

/// The character that the letter behind a backslash stands for.
fn letter_of(c: char) -> (value: Option<char>)
    ensures
        value == escape_letter(c),
{
    match c {
        '\\' => Some('\\'),
        '0' => Some('\0'),
        'a' => Some('\x07'),
        'b' => Some('\x08'),
        't' => Some('\t'),
        'n' => Some('\n'),
        'v' => Some('\x0b'),
        'f' => Some('\x0c'),
        'r' => Some('\r'),
        _ => None,
    }
}

/// The character that `s` begins with at `at`, and the index behind it.
fn read_at(s: &[char], at: usize) -> (read: Option<(char, usize)>)
    requires
        at < s@.len(),
    ensures
        read is Some <==> read_char(s@.skip(at as int)) is Some,
        read matches Some((c, next)) ==> {
            &&& at < next <= s@.len()
            &&& read_char(s@.skip(at as int)) == Some((c, next - at))
        },
{
    let n: usize = s.len();
    let ghost rest = s@.skip(at as int);
    if s[at] != '\\' {
        return Some((s[at], at + 1));
    }
    if n - at < 2 {
        return None;
    }
    assert(rest[1] == s@[at + 1]);
    match letter_of(s[at + 1]) {
        Some(c) => {
            return Some((c, at + 2));
        },
        None => {},
    }
    if s[at + 1] != 'x' || n - at < 6 {
        return None;
    }
    assert(rest[2] == s@[at + 2]);
    if s[at + 2] != '0' || s[at + 3] != '0' {
        return None;
    }
    match (hex_of(s[at + 4]), hex_of(s[at + 5])) {
        (Some(high), Some(low)) => {
            if high < 8 {
                let code: u8 = 16 * high + low;
                Some((code as char, at + 6))
            } else {
                None
            }
        },
        _ => None,
    }
}

/// `s` with its escapes undone, if every backslash in it begins an escape.
pub fn unescape(s: &[char]) -> (plain: Option<String>)
    ensures
        plain is Some <==> unescaped(s@) is Some,
        plain matches Some(text) ==> unescaped(s@) == Some(text@),
{
    let n: usize = s.len();
    let mut out = String::new();
    let mut at: usize = 0;
    assert(s@.skip(0) =~= s@);
    while at < n
        invariant
            at <= n,
            n == s@.len(),
            unescaped(s@.skip(at as int)) is Some <==> unescaped(s@) is Some,
            unescaped(s@.skip(at as int)) matches Some(rest) ==> unescaped(s@) == Some(
                out@ + rest,
            ),
        decreases n - at,
    {
        let ghost here = s@.skip(at as int);
        match read_at(s, at) {
            Some((c, next)) => {
                assert(here.skip(next - at) =~= s@.skip(next as int));
                out.push(c);
                at = next;
            },
            None => {
                return None;
            },
        }
    }
    Some(out)
}

/// Whether `line` reads as `text` does.
fn same_text(line: &[char], text: &str) -> (same: bool)
    ensures
        same == (line@ == text@),
{
    let n: usize = text.unicode_len();
    if line.len() != n {
        return false;
    }
    let mut i: usize = 0;
    while i < n
        invariant
            i <= n,
            n == text@.len(),
            n == line@.len(),
            forall|j: int| 0 <= j < i ==> line@[j] == text@[j],
        decreases n - i,
    {
        if line[i] != text.get_char(i) {
            return false;
        }
        i += 1;
    }
    assert(line@ =~= text@);
    true
}

/// What one line says.
#[derive(Clone, Debug, PartialEq, Eq)]
pub enum Line {
    /// Nothing: the line is empty.
    Blank,
    /// That a section begins.
    Header(Section),
    /// That the current section has this key and this value.
    Entry(String, String),
    /// Nothing that a unit file can say.
    Invalid(ParseError),
}

impl View for Line {
    type V = LineView;

    open spec fn view(&self) -> LineView {
        match self {
            Line::Blank => LineView::Blank,
            Line::Header(section) => LineView::Header(*section),
            Line::Entry(key, value) => LineView::Entry(key@, value@),
            Line::Invalid(error) => LineView::Invalid(*error),
        }
    }
}

/// What the line `line`, taken without its line feed, says.
pub fn read_line(line: &[char]) -> (said: Line)
    ensures
        said@ == parse_line(line@),
{
    proof {
        reveal_strlit("[Unit]");
        reveal_strlit("[Service]");
        reveal_strlit("[Install]");
        reveal_strlit("Unit");
        reveal_strlit("Service");
        reveal_strlit("Install");
        assert("[Unit]"@ =~= header_text(Section::Unit));
        assert("[Service]"@ =~= header_text(Section::Service));
        assert("[Install]"@ =~= header_text(Section::Install));
    }
    if line.len() == 0 {
        return Line::Blank;
    }
    if same_text(line, "[Unit]") {
        return Line::Header(Section::Unit);
    }
    if same_text(line, "[Service]") {
        return Line::Header(Section::Service);
    }
    if same_text(line, "[Install]") {
        return Line::Header(Section::Install);
    }
    assert(line@.skip(0) =~= line@);
    let at = find_from(line, 0, '=');
    if at == line.len() {
        return Line::Invalid(ParseError::MissingSeparator);
    }
    let key = unescape(slice_subrange(line, 0, at));
    let value = unescape(slice_subrange(line, at + 1, line.len()));
    match (key, value) {
        (Some(key), Some(value)) => Line::Entry(key, value),
        _ => Line::Invalid(ParseError::BadEscape),
    }
}

impl Unit {
    /// Reads the text of a unit file. The result is the unit definition that
    /// the text spells out, or the fault of the first line that is no line of
    /// a unit file.
    pub fn parse(text: &str) -> (parsed: Result<Unit, ParseError>)
        ensures
            parsed is Ok <==> parse_unit(text@) is Ok,
            parsed matches Ok(unit) ==> parse_unit(text@) == Ok::<UnitView, ParseError>(unit@),
            parsed matches Err(error) ==> parse_unit(text@) == Err::<UnitView, ParseError>(error),
    {
        let chars = chars_of(text);
        let all: &[char] = chars.as_slice();
        let n: usize = all.len();
        let mut unit = Unit::new();
        let mut section: Option<Section> = None;
        let mut at: usize = 0;
        assert(all@.skip(0) =~= all@);
        while at < n
            invariant
                at <= n,
                n == all@.len(),
                all@ == text@,
                parse_unit(text@) == parse_from(all@.skip(at as int), section, unit@),
            decreases n - at,
        {
            let ghost here = all@.skip(at as int);
            let end = find_from(all, at, '\n');
            let said = read_line(slice_subrange(all, at, end));
            let next: usize = if end < n {
                end + 1
            } else {
                n
            };
            proof {
                assert(all@.subrange(at as int, end as int) =~= here.take(end - at));
                if end < n {
                    assert(here.skip(end - at + 1) =~= all@.skip(next as int));
                } else {
                    assert(all@.skip(next as int) =~= Seq::empty());
                }
            }
            match said {
                Line::Blank => {},
                Line::Header(named) => {
                    section = Some(named);
                },
                Line::Entry(key, value) => match section {
                    Some(current) => {
                        unit.push(current, key, value);
                    },
                    None => {
                        return Err(ParseError::OutsideSection);
                    },
                },
                Line::Invalid(error) => {
                    return Err(error);
                },
            }
            at = next;
        }
        Ok(unit)
    }
}

} // verus!
