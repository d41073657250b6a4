//! Reading a font's names from its naming table, and the family name that a
//! font source is known by when formulas are typeset.

use vstd::prelude::*;

use crate::fonts::{FontSource, FontSourceModel};

verus! {

/// Name id of the legacy font family name.
pub const FONT_FAMILY_NAME: u16 = 1;

/// Name id of the legacy font subfamily name.
pub const FONT_SUBFAMILY_NAME: u16 = 2;

/// Name id of the full font name.
pub const FULL_FONT_NAME: u16 = 4;

/// Name id of the PostScript name.
pub const POSTSCRIPT_NAME: u16 = 6;

/// Name id of the typographic family name.
pub const TYPOGRAPHIC_FAMILY_NAME: u16 = 16;

/// Name id of the typographic subfamily name.
pub const TYPOGRAPHIC_SUBFAMILY_NAME: u16 = 17;

/// The names of a font.
pub struct FontNames {
    /// The typographic family name, or else the legacy one.
    pub family_name: Option<String>,
    /// The typographic subfamily name, or else the legacy one.
    pub subfamily_name: Option<String>,
    pub full_name: Option<String>,
    pub postscript_name: Option<String>,
    pub typographic_family_name: Option<String>,
    pub typographic_subfamily_name: Option<String>,
}

/// The mathematical model of [`FontNames`].
pub struct FontNamesModel {
    pub family_name: Option<Seq<char>>,
    pub subfamily_name: Option<Seq<char>>,
    pub full_name: Option<Seq<char>>,
    pub postscript_name: Option<Seq<char>>,
    pub typographic_family_name: Option<Seq<char>>,
    pub typographic_subfamily_name: Option<Seq<char>>,
}

impl View for FontNames {
    type V = FontNamesModel;

    open spec fn view(&self) -> FontNamesModel {
        FontNamesModel {
            family_name: self.family_name.deep_view(),
            subfamily_name: self.subfamily_name.deep_view(),
            full_name: self.full_name.deep_view(),
            postscript_name: self.postscript_name.deep_view(),
            typographic_family_name: self.typographic_family_name.deep_view(),
            typographic_subfamily_name: self.typographic_subfamily_name.deep_view(),
        }
    }
}

/// `preferred` when there is one, else `fallback`.
pub open spec fn or_else(preferred: Option<Seq<char>>, fallback: Option<Seq<char>>) -> Option<Seq<char>> {
    if preferred is Some {
        preferred
    } else {
        fallback
    }
}

/// The names of a font whose naming table holds these strings.
pub open spec fn names_from(
    family: Option<Seq<char>>,
    subfamily: Option<Seq<char>>,
    full: Option<Seq<char>>,
    postscript: Option<Seq<char>>,
    typographic_family: Option<Seq<char>>,
    typographic_subfamily: Option<Seq<char>>,
) -> FontNamesModel {
    FontNamesModel {
        family_name: or_else(typographic_family, family),
        subfamily_name: or_else(typographic_subfamily, subfamily),
        full_name: full,
        postscript_name: postscript,
        typographic_family_name: typographic_family,
        typographic_subfamily_name: typographic_subfamily,
    }
}

fn or_else_string(preferred: &Option<String>, fallback: &Option<String>) -> (r: Option<String>)
    ensures
        r.deep_view() == or_else(preferred.deep_view(), fallback.deep_view()),
{
    match preferred {
        Some(p) => Some(p.clone()),
        None => match fallback {
            Some(f) => Some(f.clone()),
            None => None,
        },
    }
}

impl FontNames {
    /// The names of a font from the strings its naming table holds under
    /// the legacy family and subfamily, full, PostScript, and typographic
    /// family and subfamily ids: the family and subfamily are the
    /// typographic ones where present, else the legacy ones.
    pub fn from_name_strings(
        family: Option<String>,
        subfamily: Option<String>,
        full: Option<String>,
        postscript: Option<String>,
        typographic_family: Option<String>,
        typographic_subfamily: Option<String>,
    ) -> (r: FontNames)
        ensures
            r@ == names_from(
                family.deep_view(),
                subfamily.deep_view(),
                full.deep_view(),
                postscript.deep_view(),
                typographic_family.deep_view(),
                typographic_subfamily.deep_view(),
            ),
    {
        let family_name = or_else_string(&typographic_family, &family);
        let subfamily_name = or_else_string(&typographic_subfamily, &subfamily);
        FontNames {
            family_name,
            subfamily_name,
            full_name: full,
            postscript_name: postscript,
            typographic_family_name: typographic_family,
            typographic_subfamily_name: typographic_subfamily,
        }
    }
}

/// Why a font's names could not be read.
pub enum FontNameError {
    /// The data is no font, has no font at the index, or no naming table.
    /// Also a WOFF2 collection with fewer fonts than the index asks for.
    NoNameTable,
    /// The naming table does not parse.
    BadNameTable,
}

/// The number of fonts in `font` when it is a WOFF2 font collection;
/// `None` for any other data.
pub uninterp spec fn woff2_collection_size(font: Seq<u8>) -> Option<usize>;

/// Relies on allsorts: `ReadScope::read::<FontData>` parses a font file, and
/// for a WOFF2 file `Woff2Font::collection_directory`, when present, lists
/// the fonts of the collection.
#[verifier::external_body]
fn read_woff2_collection_size(font: &[u8]) -> (r: Option<usize>)
    ensures
        r == woff2_collection_size(font@),
{
    let data = allsorts::binary::read::ReadScope::new(font).read::<allsorts::font_data::FontData<'_>>().ok()?;
    match data {
        allsorts::font_data::FontData::Woff2(woff2) => woff2.collection_directory.map(|d| d.fonts().count()),
        _ => None,
    }
}

/// Font `index` may be looked up in `font`: a WOFF2 collection has to hold
/// it (allsorts panics on a WOFF2 collection index past its fonts; other
/// formats report a bad index as an error).
pub open spec fn index_usable(font: Seq<u8>, index: usize) -> bool {
    woff2_collection_size(font) is Some ==> index < woff2_collection_size(font)->0
}

/// The bytes of the naming table of font `index` in font file `font`.
pub uninterp spec fn font_name_table(font: Seq<u8>, index: usize) -> Option<Seq<u8>>;

/// The English string that naming table `table` holds for `name_id`;
/// `None` when the table does not parse.
pub uninterp spec fn name_table_string(table: Seq<u8>, name_id: u16) -> Option<Option<Seq<char>>>;

/// Relies on allsorts: `ReadScope::read::<FontData>` parses a font file
/// (OpenType, WOFF or WOFF2), `FontData::table_provider` picks font `index`
/// of it, and `FontTableProvider::read_table_data` with `tag::NAME` yields the
/// bytes of its naming table. `None` when any of them fails.
#[verifier::external_body]
fn read_name_table(font: &[u8], index: usize) -> (r: Option<Vec<u8>>)
    requires
        index_usable(font@, index),
    ensures
        match r {
            Some(t) => font_name_table(font@, index) == Some(t@),
            None => font_name_table(font@, index) is None,
        },
{
    let scope = allsorts::binary::read::ReadScope::new(font);
    let data = scope.read::<allsorts::font_data::FontData<'_>>().ok()?;
    let provider = data.table_provider(index).ok()?;
    let table = allsorts::tables::FontTableProvider::read_table_data(
        &provider,
        allsorts::tag::NAME,
    ).ok()?;
    Some(table.into_owned())
}

/// Relies on allsorts: `ReadScope::read::<NameTable>` parses a naming table,
/// and `NameTable::string_for_id` returns its English string for `name_id`,
/// if it has one. `None` when the table does not parse.
#[verifier::external_body]
fn name_string(table: &[u8], name_id: u16) -> (r: Option<Option<String>>)
    ensures
        match r {
            Some(s) => name_table_string(table@, name_id) == Some(s.deep_view()),
            None => name_table_string(table@, name_id) is None,
        },
{
    let scope = allsorts::binary::read::ReadScope::new(table);
    let names = scope.read::<allsorts::tables::NameTable<'_>>().ok()?;
    Some(names.string_for_id(name_id))
}

/// The names of font `index` in font file `font`, when its naming table
/// can be read.
pub open spec fn font_names_of(font: Seq<u8>, index: usize) -> Option<FontNamesModel> {
    if !index_usable(font, index) {
        None
    } else {
        font_names_in_table(font, index)
    }
}

pub open spec fn font_names_in_table(font: Seq<u8>, index: usize) -> Option<FontNamesModel> {
    match font_name_table(font, index) {
        None => None,
        Some(t) => {
            if name_table_string(t, TYPOGRAPHIC_FAMILY_NAME) is Some && name_table_string(
                t,
                FONT_FAMILY_NAME,
            ) is Some && name_table_string(t, TYPOGRAPHIC_SUBFAMILY_NAME) is Some
                && name_table_string(t, FONT_SUBFAMILY_NAME) is Some && name_table_string(
                t,
                FULL_FONT_NAME,
            ) is Some && name_table_string(t, POSTSCRIPT_NAME) is Some {
                Some(
                    names_from(
                        name_table_string(t, FONT_FAMILY_NAME)->0,
                        name_table_string(t, FONT_SUBFAMILY_NAME)->0,
                        name_table_string(t, FULL_FONT_NAME)->0,
                        name_table_string(t, POSTSCRIPT_NAME)->0,
                        name_table_string(t, TYPOGRAPHIC_FAMILY_NAME)->0,
                        name_table_string(t, TYPOGRAPHIC_SUBFAMILY_NAME)->0,
                    ),
                )
            } else {
                None
            }
        },
    }
}

/// Reads the names of font `font_index` in font file `font_data`.
pub fn read_font_names(font_data: &[u8], font_index: usize) -> (r: Result<FontNames, FontNameError>)
    ensures
        match r {
            Ok(names) => font_names_of(font_data@, font_index) == Some(names@),
            Err(FontNameError::NoNameTable) => !index_usable(font_data@, font_index)
                || font_name_table(font_data@, font_index) is None,
            Err(FontNameError::BadNameTable) => index_usable(font_data@, font_index)
                && font_name_table(font_data@, font_index) is Some
                && font_names_of(font_data@, font_index) is None,
        },
{
    match read_woff2_collection_size(font_data) {
        Some(n) => {
            if font_index >= n {
                return Err(FontNameError::NoNameTable);
            }
        },
        None => {},
    }
    let table = match read_name_table(font_data, font_index) {
        Some(t) => t,
        None => return Err(FontNameError::NoNameTable),
    };
    let t = table.as_slice();
    let typographic_family = match name_string(t, TYPOGRAPHIC_FAMILY_NAME) {
        Some(s) => s,
        None => return Err(FontNameError::BadNameTable),
    };
    let family = match name_string(t, FONT_FAMILY_NAME) {
        Some(s) => s,
        None => return Err(FontNameError::BadNameTable),
    };
    let typographic_subfamily = match name_string(t, TYPOGRAPHIC_SUBFAMILY_NAME) {
        Some(s) => s,
        None => return Err(FontNameError::BadNameTable),
    };
    let subfamily = match name_string(t, FONT_SUBFAMILY_NAME) {
        Some(s) => s,
        None => return Err(FontNameError::BadNameTable),
    };
    let full = match name_string(t, FULL_FONT_NAME) {
        Some(s) => s,
        None => return Err(FontNameError::BadNameTable),
    };
    let postscript = match name_string(t, POSTSCRIPT_NAME) {
        Some(s) => s,
        None => return Err(FontNameError::BadNameTable),
    };
    Ok(
        FontNames::from_name_strings(
            family,
            subfamily,
            full,
            postscript,
            typographic_family,
            typographic_subfamily,
        ),
    )
}

/// The final component of `path` without its extension; `None` when there
/// is none or it is not valid UTF-8.
pub uninterp spec fn file_stem_of(path: Seq<char>) -> Option<Seq<char>>;

/// Relies on `std::path::Path::file_stem`: the final component of the path
/// without its extension, kept only when it is valid UTF-8.
#[verifier::external_body]
fn file_stem(path: &str) -> (r: Option<String>)
    ensures
        r.deep_view() == file_stem_of(path@),
{
    std::path::Path::new(path).file_stem().and_then(|s| s.to_str()).map(String::from)
}

/// The family name read from the first font of `font`, if there is one.
pub open spec fn family_of(font: Seq<u8>) -> Option<Seq<char>> {
    match font_names_of(font, 0) {
        Some(n) => n.family_name,
        None => None,
    }
}

pub open spec fn bytes_view(data: Option<&[u8]>) -> Option<Seq<u8>> {
    match data {
        Some(d) => Some(d@),
        None => None,
    }
}

/// The family name that formulas name a font source by: a system font's
/// name; for font data, the family read from it, else `embedded`; for a font
/// file with content `file`, the family read from it, else the file's stem,
/// else `serif`.
pub open spec fn typst_font_name(source: FontSourceModel, file: Option<Seq<u8>>) -> Seq<char> {
    match source {
        FontSourceModel::System(name) => name,
        FontSourceModel::File(path) => {
            if file is Some && family_of(file->0) is Some {
                family_of(file->0)->0
            } else if file_stem_of(path) is Some {
                file_stem_of(path)->0
            } else {
                "serif"@
            }
        },
        FontSourceModel::Data(d) => {
            if family_of(d) is Some {
                family_of(d)->0
            } else {
                "embedded"@
            }
        },
    }
}

fn family_name_in(font: &[u8]) -> (r: Option<String>)
    ensures
        r.deep_view() == family_of(font@),
{
    match read_font_names(font, 0) {
        Ok(names) => names.family_name,
        Err(_) => None,
    }
}

/// The family name that formulas name a font source by, given the family
/// read from the font (`family`) and, for a font file, the stem of its path
/// (`stem`).
pub open spec fn typst_name_given(
    source: FontSourceModel,
    family: Option<Seq<char>>,
    stem: Option<Seq<char>>,
) -> Seq<char> {
    match source {
        FontSourceModel::System(name) => name,
        FontSourceModel::File(_) => if family is Some {
            family->0
        } else if stem is Some {
            stem->0
        } else {
            "serif"@
        },
        FontSourceModel::Data(_) => if family is Some {
            family->0
        } else {
            "embedded"@
        },
    }
}

/// The family name that formulas name `source` by, given the family read
/// from the font and the stem of a font file's path.
pub fn typst_name_from(source: &FontSource, family: Option<String>, stem: Option<String>) -> (r: String)
    ensures
        r@ == typst_name_given(source@, family.deep_view(), stem.deep_view()),
{
    match source {
        FontSource::System(name) => name.clone(),
        FontSource::File(_) => match family {
            Some(f) => f,
            None => match stem {
                Some(s) => s,
                None => String::from_str("serif"),
            },
        },
        FontSource::Data(_) => match family {
            Some(f) => f,
            None => String::from_str("embedded"),
        },
    }
}

/// The family name that formulas name `source` by; `file_data` holds the
/// content of a font file, when it could be read.
pub fn font_source_to_typst_name(source: &FontSource, file_data: Option<&[u8]>) -> (r: String)
    ensures
        r@ == typst_font_name(source@, bytes_view(file_data)),
{
    match source {
        FontSource::System(_) => typst_name_from(source, None, None),
        FontSource::File(path) => {
            let family = match file_data {
                Some(d) => family_name_in(d),
                None => None,
            };
            match family {
                Some(_) => typst_name_from(source, family, None),
                None => typst_name_from(source, None, file_stem(path.as_str())),
            }
        },
        FontSource::Data(data) => typst_name_from(source, family_name_in(data.as_slice()), None),
    }
}

} // verus!
