//! Fonts: where the body and math fonts come from, how a configuration is
//! built from what a user asked for, and how a font's display name is read
//! from its naming table.

use vstd::prelude::*;

use crate::text::same_text;

verus! {

/// Where a font comes from.
#[derive(Clone, Debug)]
pub enum FontSource {
    /// A font file on disk.
    File(String),
    /// A font installed on the system, by family name.
    System(String),
    /// Font data held in memory.
    Data(Vec<u8>),
}

/// The mathematical model of a font source.
pub enum FontSourceModel {
    File(Seq<char>),
    System(Seq<char>),
    Data(Seq<u8>),
}

impl View for FontSource {
    type V = FontSourceModel;

    open spec fn view(&self) -> FontSourceModel {
        match self {
            FontSource::File(p) => FontSourceModel::File(p@),
            FontSource::System(n) => FontSourceModel::System(n@),
            FontSource::Data(d) => FontSourceModel::Data(d@),
        }
    }
}

fn same_bytes(a: &[u8], b: &[u8]) -> (r: bool)
    ensures
        r == (a@ == b@),
{
    if a.len() != b.len() {
        return false;
    }
    let mut i: usize = 0;
    while i < a.len()
        invariant
            a@.len() == b@.len(),
            i <= a@.len(),
            forall|k: int| 0 <= k < i ==> a@[k] == b@[k],
        decreases a.len() - i,
    {
        if a[i] != b[i] {
            return false;
        }
        i = i + 1;
    }
    assert(a@ =~= b@);
    true
}

impl PartialEq for FontSource {
    fn eq(&self, other: &FontSource) -> (r: bool)
        ensures
            r == (self@ == other@),
    {
        match (self, other) {
            (FontSource::File(a), FontSource::File(b)) => same_text(a.as_str(), b.as_str()),
            (FontSource::System(a), FontSource::System(b)) => same_text(a.as_str(), b.as_str()),
            (FontSource::Data(a), FontSource::Data(b)) => same_bytes(a.as_slice(), b.as_slice()),
            _ => false,
        }
    }
}

impl vstd::std_specs::cmp::PartialEqSpecImpl for FontSource {
    open spec fn obeys_eq_spec() -> bool {
        true
    }

    open spec fn eq_spec(&self, other: &FontSource) -> bool {
        self@ == other@
    }
}

impl FontSource {
    pub open spec fn is_system(&self) -> bool {
        self is System
    }
}

/// The fonts that formulas are typeset with.
#[derive(Clone, Debug)]
pub struct FontConfig {
    /// Font used for body text.
    pub body_font: FontSource,
    /// Font used for mathematical expressions.
    pub math_font: FontSource,
    /// Whether the system's fonts are searched.
    pub include_system_fonts: bool,
}

impl View for FontConfig {
    type V = (FontSourceModel, FontSourceModel, bool);

    open spec fn view(&self) -> (FontSourceModel, FontSourceModel, bool) {
        (self.body_font@, self.math_font@, self.include_system_fonts)
    }
}

impl PartialEq for FontConfig {
    fn eq(&self, other: &FontConfig) -> (r: bool)
        ensures
            r == (self@ == other@),
    {
        self.include_system_fonts == other.include_system_fonts && self.body_font.eq(
            &other.body_font,
        ) && self.math_font.eq(&other.math_font)
    }
}

impl vstd::std_specs::cmp::PartialEqSpecImpl for FontConfig {
    open spec fn obeys_eq_spec() -> bool {
        true
    }

    open spec fn eq_spec(&self, other: &FontConfig) -> bool {
        self@ == other@
    }
}

/// The system is searched for fonts exactly when one of the two fonts is
/// named as a system font.
pub open spec fn searches_system(body: FontSourceModel, math: FontSourceModel) -> bool {
    body is System || math is System
}

impl FontConfig {
    /// A configuration of two fonts; the system is searched exactly when
    /// one of them is a system font.
    pub fn new(body_font: FontSource, math_font: FontSource) -> (r: FontConfig)
        ensures
            r.body_font == body_font,
            r.math_font == math_font,
            r.include_system_fonts == searches_system(body_font@, math_font@),
    {
        let include_system_fonts = match (&body_font, &math_font) {
            (FontSource::System(_), _) => true,
            (_, FontSource::System(_)) => true,
            _ => false,
        };
        FontConfig { body_font, math_font, include_system_fonts }
    }
}

impl Default for FontConfig {
    /// Body text in the system's `serif`, math in `Fira Math`.
    fn default() -> (r: FontConfig)
        ensures
            r.body_font@ == FontSourceModel::System("serif"@),
            r.math_font@ == FontSourceModel::System("Fira Math"@),
            r.include_system_fonts,
    {
        FontConfig::new(
            FontSource::System(String::from_str("serif")),
            FontSource::System(String::from_str("Fira Math")),
        )
    }
}

} // verus!
