//! The text of a unit file, stated as functions on character sequences.
//!
//! A unit file is a run of lines, each closed by a line feed. Each of the
//! three sections is written, in the order `Unit`, `Service`, `Install`, as a
//! header line, the section's name in square brackets, followed by one
//! `key=value` line for each entry in stored order; a section without entries
//! is its header line alone. An empty line stands before a section that has
//! entries if a section before it has entries too. Keys and values are
//! written with the characters escaped that would otherwise break a line
//! apart.

use vstd::prelude::*;
use crate::unit::{Pairs, Section, UnitView};

verus! {

/// The digit that stands for `n` in a hexadecimal escape, `0 <= n < 16`.
pub open spec fn hex_digit(n: int) -> char {
    if n < 10 {
        ('0' as u32 as int + n) as char
    } else {
        ('a' as u32 as int + n - 10) as char
    }
}

/// Whether `c` is written escaped: the backslash, the control characters
/// U+0000 to U+001F, and U+007F.
pub open spec fn needs_escape(c: char) -> bool {
    c == '\\' || (c as u32) < 0x20 || c == '\x7f'
}

/// How one character is written. A character that needs no escape stands for
/// itself. The backslash is doubled; U+0000, bell, backspace, tab, line feed,
/// vertical tab, form feed and carriage return have a letter of their own;
/// every other control character is written as `\x` and its code in four
/// hexadecimal digits.
pub open spec fn escaped_char(c: char) -> Seq<char> {
    if c == '\\' {
        seq!['\\', '\\']
    } else if c == '\0' {
        seq!['\\', '0']
    } else if c == '\x07' {
        seq!['\\', 'a']
    } else if c == '\x08' {
        seq!['\\', 'b']
    } else if c == '\t' {
        seq!['\\', 't']
    } else if c == '\n' {
        seq!['\\', 'n']
    } else if c == '\x0b' {
        seq!['\\', 'v']
    } else if c == '\x0c' {
        seq!['\\', 'f']
    } else if c == '\r' {
        seq!['\\', 'r']
    } else if needs_escape(c) {
        seq!['\\', 'x', '0', '0', hex_digit((c as u32) as int / 16), hex_digit((c as u32) as int % 16)]
    } else {
        seq![c]
    }
}

/// How a key, a value or a section name is written: character by character.
pub open spec fn escaped(s: Seq<char>) -> Seq<char>
    decreases s.len(),
{
    if s.len() == 0 {
        seq![]
    } else {
        escaped_char(s.first()) + escaped(s.drop_first())
    }
}

/// The line of one entry: key, `=`, value, line feed.
pub open spec fn pair_line(pair: (Seq<char>, Seq<char>)) -> Seq<char> {
    escaped(pair.0) + seq!['='] + escaped(pair.1) + seq!['\n']
}

/// The lines of a section's entries, in stored order.
pub open spec fn pair_lines(pairs: Pairs) -> Seq<char>
    decreases pairs.len(),
{
    if pairs.len() == 0 {
        seq![]
    } else {
        pair_line(pairs.first()) + pair_lines(pairs.drop_first())
    }
}

/// The header line of the section called `name`.
pub open spec fn header_line(name: Seq<char>) -> Seq<char> {
    seq!['['] + escaped(name) + seq![']', '\n']
}

/// The text of one section: its header line and the lines of its entries.
/// A section without entries is its header line alone.
pub open spec fn section_text(section: Section, pairs: Pairs) -> Seq<char> {
    header_line(section.name()) + pair_lines(pairs)
}

/// What stands before the text of a section with the entries `pairs`: an
/// empty line if the section has entries and `earlier` says that a section
/// before it has entries too, else nothing.
pub open spec fn gap(earlier: bool, pairs: Pairs) -> Seq<char> {
    if earlier && pairs.len() > 0 {
        seq!['\n']
    } else {
        seq![]
    }
}

/// The text of the unit file of `unit`: its three sections in the order
/// `Unit`, `Service`, `Install`, each with its header.
pub open spec fn unit_text(unit: UnitView) -> Seq<char> {
    section_text(Section::Unit, unit.unit) + gap(unit.unit.len() > 0, unit.service)
        + section_text(Section::Service, unit.service) + gap(
        unit.unit.len() > 0 || unit.service.len() > 0,
        unit.install,
    ) + section_text(Section::Install, unit.install)
}

} // verus!
