//! Deciding where a processed document is written.

use vstd::prelude::*;

verus! {

/// The extension of the final component of `path`; `None` when it has none
/// or it is not valid UTF-8.
pub uninterp spec fn extension_of(path: Seq<char>) -> Option<Seq<char>>;

/// Relies on `std::path::Path::extension`: the extension of the path's final
/// component, kept only when it is valid UTF-8.
#[verifier::external_body]
fn path_extension(path: &str) -> (r: Option<String>)
    ensures
        r.deep_view() == extension_of(path@),
{
    std::path::Path::new(path).extension().and_then(|e| e.to_str()).map(String::from)
}

/// The extension marks a hypertext document: `html`, `htm` or `xhtml`.
pub open spec fn is_html_extension_spec(ext: Option<Seq<char>>) -> bool {
    ext == Some("html"@) || ext == Some("htm"@) || ext == Some("xhtml"@)
}

/// Whether extension `ext` marks a hypertext document.
pub fn is_html_extension(ext: Option<&str>) -> (r: bool)
    ensures
        r == is_html_extension_spec(crate::config::str_view(ext)),
{
    match ext {
        Some(e) => crate::text::same_text(e, "html") || crate::text::same_text(e, "htm")
            || crate::text::same_text(e, "xhtml"),
        None => false,
    }
}

/// Whether the document at `path` is rewritten in place: it is already a
/// hypertext document. Others are written beside it, or to an output
/// directory, with the extension `html`.
pub fn needs_inplace_modification(path: &str) -> (r: bool)
    ensures
        r == is_html_extension_spec(extension_of(path@)),
{
    match path_extension(path) {
        Some(e) => is_html_extension(Some(e.as_str())),
        None => is_html_extension(None),
    }
}

} // verus!
