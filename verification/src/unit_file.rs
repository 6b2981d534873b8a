//! Writing a unit definition out as the text of its unit file.
//!
//! The text is produced by the `ini` crate: the entries are put into an
//! `ini::Ini` section by section and the `Ini` is then written out. What the
//! crate does is taken on trust, item by item, each marked as such; that the
//! filling gives the text of the unit file is proved from these items.

use vstd::prelude::*;
use ini::{Ini, LineSeparator, WriteOption};
use crate::text::{header_line, pair_lines, unit_text};
use crate::unit::{Section, Unit};

verus! {

/// The sections of an `Ini` as contracts see them: in the order in which the
/// `Ini` walks them, each with its name (`None` for the section without a
/// header) and its entries in the order in which they were added.
pub type IniSections = Seq<(Option<Seq<char>>, Seq<(Seq<char>, Seq<char>)>)>;

/// Trusted: makes `ini::Ini` known to the verifier as a type whose inside it
/// does not see.
#[verifier::external_type_specification]
#[verifier::external_body]
pub struct ExIni(Ini);

/// Trusted: the sections that an `Ini` holds (see `IniSections`).
pub uninterp spec fn ini_sections(ini: Ini) -> Seq<(Option<Seq<char>>, Seq<(Seq<char>, Seq<char>)>)>;

/// Index of the first section called `name`, or the number of sections if
/// there is none.
pub open spec fn section_position(sections: IniSections, name: Seq<char>) -> int
    decreases sections.len(),
{
    if sections.len() == 0 {
        0
    } else if sections.first().0 == Some(name) {
        0
    } else {
        1 + section_position(sections.drop_first(), name)
    }
}

/// The sections after the entry `key`=`value` was added to the section called
/// `name`: the entry goes to the end of the first section of that name, or, if
/// there is none, into a new section behind all others.
pub open spec fn with_pair(
    sections: IniSections,
    name: Seq<char>,
    key: Seq<char>,
    value: Seq<char>,
) -> IniSections {
    let at = section_position(sections, name);
    if at < sections.len() {
        sections.update(at, (sections[at].0, sections[at].1.push((key, value))))
    } else {
        sections.push((Some(name), seq![(key, value)]))
    }
}

/// The sections after the section called `name` was opened: they are as
/// they were if one of them has that name, else a section of that name
/// without entries stands behind all others.
pub open spec fn with_opened(sections: IniSections, name: Seq<char>) -> IniSections {
    if section_position(sections, name) < sections.len() {
        sections
    } else {
        sections.push((Some(name), seq![]))
    }
}

/// Whether any of the sections has an entry.
pub open spec fn any_entry(sections: IniSections) -> bool {
    exists|i: int| 0 <= i < sections.len() && (#[trigger] sections[i]).1.len() > 0
}

/// The text that an `Ini` with these sections is written out as: section by
/// section, a header line where the section has a name, then the lines of its
/// entries; before a section with entries stands an empty line, unless it is
/// the first with entries.
pub open spec fn ini_text(sections: IniSections) -> Seq<char>
    decreases sections.len(),
{
    if sections.len() == 0 {
        seq![]
    } else {
        let before = sections.drop_last();
        let name = sections.last().0;
        let pairs = sections.last().1;
        ini_text(before) + (if pairs.len() > 0 && any_entry(before) {
            seq!['\n']
        } else {
            seq![]
        }) + (match name {
            Some(n) => header_line(n),
            None => seq![],
        }) + pair_lines(pairs)
    }
}

/// Trusted: calls `Ini::new`. The new `Ini` holds one section, the one without
/// a header, and that section has no entry.
#[verifier::external_body]
fn ini_new() -> (ini: Ini)
    ensures
        ini_sections(ini) == seq![(None::<Seq<char>>, Seq::<(Seq<char>, Seq<char>)>::empty())],
{
    Ini::new()
}

/// Trusted: calls `Ini::entry` and `SectionEntry::or_insert_with`. If the
/// `Ini` has a section called `section`, nothing changes; if it has none, one
/// without entries is made behind all others.
#[verifier::external_body]
fn ini_open(ini: &mut Ini, section: &str)
    ensures
        ini_sections(*final(ini)) == with_opened(ini_sections(*old(ini)), section@),
{
    ini.entry(Some(section.to_string())).or_insert_with(Default::default);
}

/// Trusted: calls `Ini::with_section` and `SectionSetter::add`. The entry is
/// appended to the first section called `section`; if the `Ini` has no such
/// section, one is made behind all others. Nothing else changes.
#[verifier::external_body]
fn ini_add(ini: &mut Ini, section: &str, key: &str, value: &str)
    ensures
        ini_sections(*final(ini)) == with_pair(ini_sections(*old(ini)), section@, key@, value@),
{
    ini.with_section(Some(section)).add(key, value);
}

/// Trusted: calls `Ini::write_to_opt` on a buffer in memory, with the crate's
/// default options but for the line separator, which is fixed to the line feed
/// on every platform. The text is `ini_text` of the sections: names, keys and
/// values are escaped by the crate's default policy, which `escaped` states.
#[verifier::external_body]
fn ini_write(ini: &Ini) -> (text: String)
    ensures
        text@ == ini_text(ini_sections(*ini)),
{
    let mut out: Vec<u8> = Vec::new();
    let options = WriteOption { line_separator: LineSeparator::CR, ..WriteOption::default() };
    ini.write_to_opt(&mut out, options).expect("a buffer in memory takes every write");
    String::from_utf8(out).expect("the text is made of strings")
}

/// The position of `name` among sections that got one more section behind
/// them.
proof fn lemma_position_after_push(
    sections: IniSections,
    last: (Option<Seq<char>>, Seq<(Seq<char>, Seq<char>)>),
    name: Seq<char>,
)
    ensures
        0 <= section_position(sections, name) <= sections.len(),
        section_position(sections.push(last), name) == if section_position(sections, name)
            < sections.len() {
            section_position(sections, name)
        } else if last.0 == Some(name) {
            sections.len() as int
        } else {
            sections.len() as int + 1
        },
    decreases sections.len(),
{
    if sections.len() == 0 {
        assert(sections.push(last).drop_first() =~= sections);
    } else {
        assert(sections.push(last).drop_first() =~= sections.drop_first().push(last));
        lemma_position_after_push(sections.drop_first(), last, name);
    }
}

/// Writes one section of a unit definition into `ini`: the section is opened,
/// so that it is there even without entries, and its entries are added in
/// stored order. The `Ini` must not hold a section of that name yet.
fn add_section(ini: &mut Ini, section: Section, pairs: &Vec<(String, String)>)
    requires
        section_position(ini_sections(*old(ini)), section.name()) == ini_sections(*old(ini)).len(),
    ensures
        ini_sections(*final(ini)) == ini_sections(*old(ini)).push(
            (Some(section.name()), pairs.deep_view()),
        ),
{
    let ghost start = ini_sections(*ini);
    let name = section.label();
    ini_open(ini, name);
    assert(pairs.deep_view().take(0) =~= Seq::empty());
    let n: usize = pairs.len();
    let mut i: usize = 0;
    while i < n
        invariant
            i <= n,
            n == pairs.len(),
            name@ == section.name(),
            section_position(start, section.name()) == start.len(),
            ini_sections(*ini) == start.push(
                (Some(section.name()), pairs.deep_view().take(i as int)),
            ),
        decreases n - i,
    {
        let ghost so_far = pairs.deep_view().take(i as int);
        proof {
            lemma_position_after_push(start, (Some(section.name()), so_far), section.name());
        }
        ini_add(ini, name, pairs[i].0.as_str(), pairs[i].1.as_str());
        proof {
            let entry = (pairs[i as int].0@, pairs[i as int].1@);
            assert(pairs.deep_view().take(i + 1) =~= so_far.push(entry));
        }
        i += 1;
    }
    assert(pairs.deep_view().take(n as int) =~= pairs.deep_view());
}

/// What one more section behind the others adds to the text, and when the
/// sections then have an entry.
proof fn lemma_text_after_section(
    sections: IniSections,
    last: (Option<Seq<char>>, Seq<(Seq<char>, Seq<char>)>),
)
    ensures
        ini_text(sections.push(last)) == ini_text(sections) + (if last.1.len() > 0 && any_entry(
            sections,
        ) {
            seq!['\n']
        } else {
            seq![]
        }) + (match last.0 {
            Some(name) => header_line(name),
            None => seq![],
        }) + pair_lines(last.1),
        any_entry(sections.push(last)) <==> any_entry(sections) || last.1.len() > 0,
{
    assert(sections.push(last).drop_last() =~= sections);
}

impl Unit {
    /// The text of the unit file of this unit definition.
    pub fn render(&self) -> (text: String)
        ensures
            text@ == unit_text(self@),
    {
        let mut ini = ini_new();
        let ghost none = Seq::<(Option<Seq<char>>, Seq<(Seq<char>, Seq<char>)>)>::empty();
        let ghost nameless = (None::<Seq<char>>, Seq::<(Seq<char>, Seq<char>)>::empty());
        let ghost unit_entry = (Some(Section::Unit.name()), self@.unit);
        let ghost service_entry = (Some(Section::Service.name()), self@.service);
        let ghost install_entry = (Some(Section::Install.name()), self@.install);
        let ghost s0 = ini_sections(ini);
        let ghost s1 = s0.push(unit_entry);
        let ghost s2 = s1.push(service_entry);
        proof {
            reveal_strlit("Unit");
            reveal_strlit("Service");
            reveal_strlit("Install");
            lemma_position_after_push(none, nameless, Section::Unit.name());
            lemma_position_after_push(none, nameless, Section::Service.name());
            lemma_position_after_push(none, nameless, Section::Install.name());
            lemma_position_after_push(s0, unit_entry, Section::Service.name());
            lemma_position_after_push(s0, unit_entry, Section::Install.name());
            lemma_position_after_push(s1, service_entry, Section::Install.name());
            lemma_text_after_section(none, nameless);
            lemma_text_after_section(s0, unit_entry);
            lemma_text_after_section(s1, service_entry);
            lemma_text_after_section(s2, install_entry);
        }
        add_section(&mut ini, Section::Unit, &self.unit);
        add_section(&mut ini, Section::Service, &self.service);
        add_section(&mut ini, Section::Install, &self.install);
        ini_write(&ini)
    }
}

} // verus!
