//! The model of a unit definition: three named sections of key-value pairs.

use vstd::prelude::*;

verus! {

/// One section's entries as contracts see them: keys may repeat, and the order
/// is the order in which they are written out.
pub type Pairs = Seq<(Seq<char>, Seq<char>)>;

/// The three sections a unit definition has. No other section can be named.
#[derive(Clone, Copy, Debug, PartialEq, Eq, Structural)]
pub enum Section {
    Unit,
    Service,
    Install,
}

impl Section {
    /// The name that stands between the brackets of the section's header.
    pub open spec fn name(self) -> Seq<char> {
        match self {
            Section::Unit => "Unit"@,
            Section::Service => "Service"@,
            Section::Install => "Install"@,
        }
    }

    /// The name that stands between the brackets of the section's header.
    pub fn label(self) -> (label: &'static str)
        ensures
            label@ == self.name(),
    {
        match self {
            Section::Unit => "Unit",
            Section::Service => "Service",
            Section::Install => "Install",
        }
    }
}

/// What a `Unit` stands for in contracts.
pub struct UnitView {
    pub unit: Pairs,
    pub service: Pairs,
    pub install: Pairs,
}

impl UnitView {
    /// The unit definition without any entry.
    pub open spec fn empty() -> UnitView {
        UnitView { unit: seq![], service: seq![], install: seq![] }
    }

    /// The entries of one section.
    pub open spec fn section(self, section: Section) -> Pairs {
        match section {
            Section::Unit => self.unit,
            Section::Service => self.service,
            Section::Install => self.install,
        }
    }

    /// The unit definition with one more entry at the end of `section`.
    pub open spec fn with_entry(self, section: Section, key: Seq<char>, value: Seq<char>) -> UnitView {
        match section {
            Section::Unit => UnitView { unit: self.unit.push((key, value)), ..self },
            Section::Service => UnitView { service: self.service.push((key, value)), ..self },
            Section::Install => UnitView { install: self.install.push((key, value)), ..self },
        }
    }
}

/// One service's unit definition. Each section is an ordered list of
/// key-value pairs; a key may occur more than once.
#[derive(Clone, Debug, PartialEq, Eq)]
pub struct Unit {
    pub unit: Vec<(String, String)>,
    pub service: Vec<(String, String)>,
    pub install: Vec<(String, String)>,
}

impl View for Unit {
    type V = UnitView;

    open spec fn view(&self) -> UnitView {
        UnitView {
            unit: self.unit.deep_view(),
            service: self.service.deep_view(),
            install: self.install.deep_view(),
        }
    }
}

impl Unit {
    /// The unit definition without any entry.
    pub fn new() -> (unit: Unit)
        ensures
            unit@ == UnitView::empty(),
    {
        let unit = Unit { unit: Vec::new(), service: Vec::new(), install: Vec::new() };
        assert(unit.unit.deep_view() =~= Seq::empty());
        assert(unit.service.deep_view() =~= Seq::empty());
        assert(unit.install.deep_view() =~= Seq::empty());
        unit
    }

    /// Appends the entry `key`=`value` to `section`.
    pub fn push(&mut self, section: Section, key: String, value: String)
        ensures
            final(self)@ == old(self)@.with_entry(section, key@, value@),
    {
        let ghost before = self@;
        match section {
            Section::Unit => {
                self.unit.push((key, value));
                assert(self.unit.deep_view() =~= before.unit.push((key@, value@)));
            },
            Section::Service => {
                self.service.push((key, value));
                assert(self.service.deep_view() =~= before.service.push((key@, value@)));
            },
            Section::Install => {
                self.install.push((key, value));
                assert(self.install.deep_view() =~= before.install.push((key@, value@)));
            },
        }
    }
}

} // verus!
