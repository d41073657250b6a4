//! Building a font configuration from what a user asked for, on the command
//! line or through the scripting binding.

use vstd::prelude::*;

use crate::fonts::{searches_system, FontConfig, FontSource, FontSourceModel};
use crate::text::same_text;

verus! {

/// `path` with a leading `~` replaced by the home directory `home`: `~`
/// alone, or `~` followed by `/`. Without a home directory the path stays.
pub open spec fn expanded_path(path: Seq<char>, home: Option<Seq<char>>) -> Seq<char> {
    if home is Some && path.len() >= 2 && path[0] == '~' && path[1] == '/' {
        home->0 + path.subrange(1, path.len() as int)
    } else if home is Some && path == seq!['~'] {
        home->0
    } else {
        path
    }
}

pub open spec fn str_view(s: Option<&str>) -> Option<Seq<char>> {
    match s {
        Some(x) => Some(x@),
        None => None,
    }
}

/// Expands a leading `~` of `path` to the home directory `home`.
pub fn expand_tilde(path: &str, home: Option<&str>) -> (r: String)
    ensures
        r@ == expanded_path(path@, str_view(home)),
{
    match home {
        Some(h) => {
            let n = path.unicode_len();
            if n >= 2 && path.get_char(0) == '~' && path.get_char(1) == '/' {
                let mut out = String::from_str(h);
                out.append(path.substring_char(1, n));
                out
            } else if n == 1 && path.get_char(0) == '~' {
                assert(path@ =~= seq!['~']);
                String::from_str(h)
            } else {
                String::from_str(path)
            }
        },
        None => String::from_str(path),
    }
}

/// Which of the two fonts a request is for.
#[derive(Clone, Copy, Debug, PartialEq, Eq, Structural)]
pub enum FontRole {
    Body,
    Math,
}

/// What a user asked for one font.
pub enum FontRequest {
    /// Nothing: the role's default system font.
    Default,
    /// A font file, by path; `~` is expanded.
    File(String),
    /// A system font, by name.
    System(String),
    /// Both a file and a name, which is refused.
    Conflict,
    /// A kind of font source that does not exist.
    Invalid(String),
}

/// Why a font configuration was refused.
pub enum FontConfigError {
    /// The font file does not exist; its path after `~` expansion.
    MissingFile(FontRole, String),
    /// Both a file and a name were given for one font.
    Conflict(FontRole),
    /// The kind of font source is neither `system` nor `file`.
    InvalidKind(FontRole, String),
}

pub open spec fn default_font_name(role: FontRole) -> Seq<char> {
    match role {
        FontRole::Body => "serif"@,
        FontRole::Math => "Fira Math"@,
    }
}

pub open spec fn role_title(role: FontRole) -> Seq<char> {
    match role {
        FontRole::Body => "Body"@,
        FontRole::Math => "Math"@,
    }
}

pub open spec fn role_word(role: FontRole) -> Seq<char> {
    match role {
        FontRole::Body => "body"@,
        FontRole::Math => "math"@,
    }
}

pub open spec fn config_error_message(e: FontConfigError) -> Seq<char> {
    match e {
        FontConfigError::MissingFile(role, path) => role_title(role) + " font file does not exist: "@
            + path@,
        FontConfigError::Conflict(role) => "Cannot specify both "@ + role_word(role)
            + " font file and "@ + role_word(role) + " font name. Choose one."@,
        FontConfigError::InvalidKind(role, kind) => "Invalid "@ + role_word(role)
            + " font type: "@ + kind@,
    }
}

fn role_title_str(role: FontRole) -> (r: &'static str)
    ensures
        r@ == role_title(role),
{
    match role {
        FontRole::Body => "Body",
        FontRole::Math => "Math",
    }
}

fn role_word_str(role: FontRole) -> (r: &'static str)
    ensures
        r@ == role_word(role),
{
    match role {
        FontRole::Body => "body",
        FontRole::Math => "math",
    }
}

impl FontConfigError {
    /// The message shown to the user.
    pub fn message(&self) -> (r: String)
        ensures
            r@ == config_error_message(*self),
    {
        match self {
            FontConfigError::MissingFile(role, path) => {
                let mut out = String::from_str(role_title_str(*role));
                out.append(" font file does not exist: ");
                out.append(path.as_str());
                out
            },
            FontConfigError::Conflict(role) => {
                let mut out = String::from_str("Cannot specify both ");
                out.append(role_word_str(*role));
                out.append(" font file and ");
                out.append(role_word_str(*role));
                out.append(" font name. Choose one.");
                out
            },
            FontConfigError::InvalidKind(role, kind) => {
                let mut out = String::from_str("Invalid ");
                out.append(role_word_str(*role));
                out.append(" font type: ");
                out.append(kind.as_str());
                out
            },
        }
    }
}

impl FontRequest {
    /// The request made by a font file option and a font name option.
    pub fn from_options(file: Option<String>, name: Option<String>) -> (r: FontRequest)
        ensures
            match (file, name) {
                (Some(f), None) => r == FontRequest::File(f),
                (None, Some(n)) => r == FontRequest::System(n),
                (Some(_), Some(_)) => r is Conflict,
                (None, None) => r is Default,
            },
    {
        match (file, name) {
            (Some(f), None) => FontRequest::File(f),
            (None, Some(n)) => FontRequest::System(n),
            (Some(_), Some(_)) => FontRequest::Conflict,
            (None, None) => FontRequest::Default,
        }
    }

    /// The request made by a kind (`system` or `file`) and a value.
    pub fn from_kind(kind: &str, value: String) -> (r: FontRequest)
        ensures
            kind@ == "system"@ ==> r == FontRequest::System(value),
            kind@ == "file"@ ==> r == FontRequest::File(value),
            kind@ != "system"@ && kind@ != "file"@ ==> r is Invalid && r->Invalid_0@ == kind@,
    {
        proof {
            reveal_strlit("system");
            reveal_strlit("file");
            assert("system"@[0] != "file"@[0]);
        }
        if same_text(kind, "system") {
            FontRequest::System(value)
        } else if same_text(kind, "file") {
            FontRequest::File(value)
        } else {
            FontRequest::Invalid(String::from_str(kind))
        }
    }

    /// The path of the font file asked for, `~` expanded; `None` when no
    /// file is asked for. This is the file whose existence
    /// [`resolve_font_request`] needs to know.
    pub fn file_path(&self, home: Option<&str>) -> (r: Option<String>)
        ensures
            match self {
                FontRequest::File(p) => r is Some && r->0@ == expanded_path(p@, str_view(home)),
                _ => r is None,
            },
    {
        match self {
            FontRequest::File(p) => Some(expand_tilde(p.as_str(), home)),
            _ => None,
        }
    }
}

/// The font source that `request` for `role` resolves to, when the file it
/// names exists exactly when `file_exists` holds.
pub open spec fn resolved_request(
    role: FontRole,
    request: FontRequest,
    home: Option<Seq<char>>,
    file_exists: bool,
) -> Result<FontSourceModel, FontConfigError> {
    match request {
        FontRequest::Default => Ok(FontSourceModel::System(default_font_name(role))),
        FontRequest::System(n) => Ok(FontSourceModel::System(n@)),
        FontRequest::File(p) => if file_exists {
            Ok(FontSourceModel::File(expanded_path(p@, home)))
        } else {
            Err(FontConfigError::MissingFile(role, arbitrary()))
        },
        FontRequest::Conflict => Err(FontConfigError::Conflict(role)),
        FontRequest::Invalid(k) => Err(FontConfigError::InvalidKind(role, k)),
    }
}

/// `r` is the outcome that `expected` describes; a missing file carries
/// the expanded path.
pub open spec fn resolves_as(
    r: Result<FontSource, FontConfigError>,
    expected: Result<FontSourceModel, FontConfigError>,
    request: FontRequest,
    home: Option<Seq<char>>,
) -> bool {
    match (r, expected) {
        (Ok(s), Ok(m)) => s@ == m,
        (Err(FontConfigError::MissingFile(role, path)), Err(FontConfigError::MissingFile(erole, _))) => {
            &&& role == erole
            &&& request is File
            &&& path@ == expanded_path(request->File_0@, home)
        },
        (Err(e), Err(ee)) => e == ee && !(ee is MissingFile),
        _ => false,
    }
}

/// Resolves what was asked for one font; `file_exists` says whether the file
/// at [`FontRequest::file_path`] exists.
pub fn resolve_font_request(
    role: FontRole,
    request: FontRequest,
    home: Option<&str>,
    file_exists: bool,
) -> (r: Result<FontSource, FontConfigError>)
    ensures
        resolves_as(r, resolved_request(role, request, str_view(home), file_exists), request, str_view(home)),
{
    match request {
        FontRequest::Default => match role {
            FontRole::Body => Ok(FontSource::System(String::from_str("serif"))),
            FontRole::Math => Ok(FontSource::System(String::from_str("Fira Math"))),
        },
        FontRequest::System(n) => Ok(FontSource::System(n)),
        FontRequest::File(p) => {
            let path = expand_tilde(p.as_str(), home);
            if file_exists {
                Ok(FontSource::File(path))
            } else {
                Err(FontConfigError::MissingFile(role, path))
            }
        },
        FontRequest::Conflict => Err(FontConfigError::Conflict(role)),
        FontRequest::Invalid(k) => Err(FontConfigError::InvalidKind(role, k)),
    }
}

/// The configuration that the two requests make: the body font is resolved
/// first, and its error wins; the system is searched exactly when one of the
/// two fonts is a system font.
pub fn build_font_config(
    body: FontRequest,
    math: FontRequest,
    home: Option<&str>,
    body_file_exists: bool,
    math_file_exists: bool,
) -> (r: Result<FontConfig, FontConfigError>)
    ensures
        match resolved_request(FontRole::Body, body, str_view(home), body_file_exists) {
            Err(_) => r is Err && resolves_as(
                Err(r->Err_0),
                resolved_request(FontRole::Body, body, str_view(home), body_file_exists),
                body,
                str_view(home),
            ),
            Ok(b) => match resolved_request(FontRole::Math, math, str_view(home), math_file_exists) {
                Err(_) => r is Err && resolves_as(
                    Err(r->Err_0),
                    resolved_request(FontRole::Math, math, str_view(home), math_file_exists),
                    math,
                    str_view(home),
                ),
                Ok(m) => r is Ok && r->Ok_0.body_font@ == b && r->Ok_0.math_font@ == m
                    && r->Ok_0.include_system_fonts == searches_system(b, m),
            },
        },
{
    let body_font = match resolve_font_request(FontRole::Body, body, home, body_file_exists) {
        Ok(s) => s,
        Err(e) => return Err(e),
    };
    let math_font = match resolve_font_request(FontRole::Math, math, home, math_file_exists) {
        Ok(s) => s,
        Err(e) => return Err(e),
    };
    Ok(FontConfig::new(body_font, math_font))
}

/// The configuration from the command line's font options: a file or a
/// system name for each font, not both. `home` is the home directory, and
/// the two flags say whether the font files, `~` expanded, exist.
pub fn create_font_config(
    body_font_file: Option<String>,
    body_font_name: Option<String>,
    math_font_file: Option<String>,
    math_font_name: Option<String>,
    home: Option<&str>,
    body_file_exists: bool,
    math_file_exists: bool,
) -> (r: Result<FontConfig, FontConfigError>)
    ensures
        ({
            let body = match (body_font_file, body_font_name) {
                (Some(f), None) => FontRequest::File(f),
                (None, Some(n)) => FontRequest::System(n),
                (Some(_), Some(_)) => FontRequest::Conflict,
                (None, None) => FontRequest::Default,
            };
            let math = match (math_font_file, math_font_name) {
                (Some(f), None) => FontRequest::File(f),
                (None, Some(n)) => FontRequest::System(n),
                (Some(_), Some(_)) => FontRequest::Conflict,
                (None, None) => FontRequest::Default,
            };
            match resolved_request(FontRole::Body, body, str_view(home), body_file_exists) {
                Err(_) => r is Err && resolves_as(
                    Err(r->Err_0),
                    resolved_request(FontRole::Body, body, str_view(home), body_file_exists),
                    body,
                    str_view(home),
                ),
                Ok(b) => match resolved_request(FontRole::Math, math, str_view(home), math_file_exists) {
                    Err(_) => r is Err && resolves_as(
                        Err(r->Err_0),
                        resolved_request(FontRole::Math, math, str_view(home), math_file_exists),
                        math,
                        str_view(home),
                    ),
                    Ok(m) => r is Ok && r->Ok_0.body_font@ == b && r->Ok_0.math_font@ == m
                        && r->Ok_0.include_system_fonts == searches_system(b, m),
                },
            }
        }),
{
    let body = FontRequest::from_options(body_font_file, body_font_name);
    let math = FontRequest::from_options(math_font_file, math_font_name);
    build_font_config(body, math, home, body_file_exists, math_file_exists)
}

} // verus!
