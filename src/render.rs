//! Rendered formulas and the HTML fragments that take their place in the
//! document: the image of a formula that rendered, or a marker where one
//! failed.

use vstd::prelude::*;

use crate::text::{chars_of, char_width, chars_within, decimal, escape_html_attribute,
    escape_html_text, four_digits, html_attribute_escaped, html_text_escaped, lemma_utf8_len_prefix,
    push_decimal, push_four_digits, utf8_len};

verus! {

/// The image format that formulas are encoded in.
#[derive(Clone, Copy, Debug, PartialEq, Eq, Structural)]
pub enum RenderFormat {
    Png,
    Svg,
}

/// A length in ten-thousandths of an em.
#[derive(Clone, Copy, Debug, PartialEq, Eq, Structural)]
pub struct EmLength {
    pub ten_thousandths: u64,
}

/// The CSS text of a length of `v` ten-thousandths of an em, four places
/// after the point.
pub open spec fn em_text(v: nat) -> Seq<char> {
    decimal(v / 10000) + "."@ + four_digits(v % 10000)
}

impl EmLength {
    /// The length as CSS text, with four decimal places and no unit.
    pub fn css_text(&self) -> (r: String)
        ensures
            r@ == em_text(self.ten_thousandths as nat),
    {
        let mut out = String::new();
        push_decimal(&mut out, self.ten_thousandths / 10000);
        out.append(".");
        push_four_digits(&mut out, self.ten_thousandths % 10000);
        assert(out@ =~= em_text(self.ten_thousandths as nat));
        out
    }
}

/// An encoded image of a formula with its size.
pub struct RenderResult {
    /// The encoded image (PNG or SVG bytes).
    pub data: Vec<u8>,
    pub width_em: EmLength,
    pub height_em: EmLength,
}

/// A formula rendered to an image, with what its `<img>` tag needs.
pub struct FormulaRenderResult {
    pub formula: String,
    pub is_inline: bool,
    pub format: RenderFormat,
    /// The encoded image; empty when the rendered page has no area.
    pub data: Vec<u8>,
    pub x_em: EmLength,
    pub y_em: EmLength,
}

/// The base64 digit for a six-bit value.
pub open spec fn base64_digit(v: int) -> char {
    if v < 26 {
        (65 + v) as char
    } else if v < 52 {
        (97 + v - 26) as char
    } else if v < 62 {
        (48 + v - 52) as char
    } else if v == 62 {
        '+'
    } else {
        '/'
    }
}

/// The standard, padded base64 text of `data`: each three bytes give four
/// digits, and a last group of one or two bytes is padded with `=`.
pub open spec fn base64_standard(data: Seq<u8>) -> Seq<char>
    decreases data.len(),
{
    if data.len() == 0 {
        Seq::empty()
    } else if data.len() == 1 {
        let n = data[0] as int;
        seq![base64_digit(n / 4), base64_digit((n % 4) * 16), '=', '=']
    } else if data.len() == 2 {
        let n = data[0] as int * 256 + data[1] as int;
        seq![base64_digit(n / 1024), base64_digit((n / 16) % 64), base64_digit((n % 16) * 4), '=']
    } else {
        let n = data[0] as int * 65536 + data[1] as int * 256 + data[2] as int;
        seq![
            base64_digit(n / 262144),
            base64_digit((n / 4096) % 64),
            base64_digit((n / 64) % 64),
            base64_digit(n % 64),
        ] + base64_standard(data.subrange(3, data.len() as int))
    }
}

/// Relies on base64's `general_purpose::STANDARD` engine: `Engine::encode`
/// returns the padded base64 text of `data`.
#[verifier::external_body]
fn encode_base64(data: &[u8]) -> (r: String)
    ensures
        r@ == base64_standard(data@),
{
    base64::Engine::encode(&base64::engine::general_purpose::STANDARD, data)
}

pub open spec fn mime_type(format: RenderFormat) -> Seq<char> {
    match format {
        RenderFormat::Svg => "image/svg+xml"@,
        RenderFormat::Png => "image/png"@,
    }
}

pub open spec fn mode_class(is_inline: bool) -> Seq<char> {
    if is_inline {
        "math"@
    } else {
        "displaymath"@
    }
}

/// The `<img>` tag for a rendered formula: its size in em, the image inline
/// as a data URI, and the formula's escaped text as `alt`.
pub open spec fn image_tag(
    formula: Seq<char>,
    is_inline: bool,
    format: RenderFormat,
    encoded: Seq<char>,
    x: nat,
    y: nat,
) -> Seq<char> {
    "<img class=\"gladst "@ + mode_class(is_inline) + "\" style=\"width: "@ + em_text(x)
        + "em; height: "@ + em_text(y) + "em; vertical-align: middle;\" src=\"data:"@
        + mime_type(format) + ";base64,"@ + encoded + "\" alt=\""@ + html_attribute_escaped(formula)
        + "\"/>"@
}

impl FormulaRenderResult {
    pub open spec fn html_spec(&self) -> Seq<char> {
        image_tag(
            self.formula@,
            self.is_inline,
            self.format,
            base64_standard(self.data@),
            self.x_em.ten_thousandths as nat,
            self.y_em.ten_thousandths as nat,
        )
    }

    /// The `<img>` tag that shows this formula inline in a document.
    pub fn to_html(&self) -> (r: String)
        ensures
            r@ == self.html_spec(),
    {
        image_html(
            self.formula.as_str(),
            self.is_inline,
            self.format,
            self.data.as_slice(),
            self.x_em,
            self.y_em,
        )
    }

    /// The `<img>` tag for this formula with `encoded` as the image's base64
    /// text.
    pub fn image_tag_html(&self, encoded: &str) -> (r: String)
        ensures
            r@ == image_tag(
                self.formula@,
                self.is_inline,
                self.format,
                encoded@,
                self.x_em.ten_thousandths as nat,
                self.y_em.ten_thousandths as nat,
            ),
    {
        let mut out = String::from_str("<img class=\"gladst ");
        if self.is_inline {
            out.append("math");
        } else {
            out.append("displaymath");
        }
        out.append("\" style=\"width: ");
        out.append(self.x_em.css_text().as_str());
        out.append("em; height: ");
        out.append(self.y_em.css_text().as_str());
        out.append("em; vertical-align: middle;\" src=\"data:");
        match self.format {
            RenderFormat::Svg => out.append("image/svg+xml"),
            RenderFormat::Png => out.append("image/png"),
        }
        out.append(";base64,");
        out.append(encoded);
        out.append("\" alt=\"");
        out.append(escape_html_attribute(self.formula.as_str()).as_str());
        out.append("\"/>");
        out
    }
}

/// The `<img>` tag for formula text `formula`, typeset inline or not, whose
/// image `data` in `format` measures `x` by `y`.
pub fn image_html(
    formula: &str,
    is_inline: bool,
    format: RenderFormat,
    data: &[u8],
    x: EmLength,
    y: EmLength,
) -> (r: String)
    ensures
        r@ == image_tag(
            formula@,
            is_inline,
            format,
            base64_standard(data@),
            x.ten_thousandths as nat,
            y.ten_thousandths as nat,
        ),
{
    let r = FormulaRenderResult {
        formula: String::from_str(formula),
        is_inline,
        format,
        data: Vec::new(),
        x_em: x,
        y_em: y,
    };
    let encoded = encode_base64(data);
    r.image_tag_html(encoded.as_str())
}

/// `s` cut, when it takes more than `limit` bytes of UTF-8, to its longest
/// start of at most `keep` bytes, followed by an ellipsis.
pub open spec fn abridged(s: Seq<char>, limit: nat, keep: nat) -> Seq<char> {
    if utf8_len(s) > limit {
        s.subrange(0, chars_within(s, keep as int) as int) + "..."@
    } else {
        s
    }
}

/// `s` shortened as [`abridged`] says.
pub fn shorten(s: &str, limit: usize, keep: usize) -> (r: String)
    ensures
        r@ == abridged(s@, limit as nat, keep as nat),
{
    let cs = chars_of(s);
    let n = cs.len();
    let mut total: u128 = 0;
    let mut i: usize = 0;
    while i < n && total <= limit as u128
        invariant
            cs@ == s@,
            n == s@.len(),
            i <= n,
            total == utf8_len(s@.subrange(0, i as int)),
            total <= limit as u128 + 4,
        decreases n - i,
    {
        proof {
            assert(s@.subrange(0, i + 1).drop_last() =~= s@.subrange(0, i as int));
        }
        total = total + char_width(cs[i]) as u128;
        i = i + 1;
    }
    proof {
        lemma_utf8_len_prefix(s@, i as int, n as int);
        assert(s@.subrange(0, n as int) =~= s@);
    }
    if total <= limit as u128 {
        return String::from_str(s);
    }
    let mut used: u128 = 0;
    let mut j: usize = 0;
    while j < n && used + char_width(cs[j]) as u128 <= keep as u128
        invariant
            cs@ == s@,
            n == s@.len(),
            j <= n,
            used <= keep as u128,
            chars_within(s@, keep as int) == j + chars_within(
                s@.subrange(j as int, n as int),
                keep - used,
            ),
        decreases n - j,
    {
        proof {
            let t = s@.subrange(j as int, n as int);
            assert(t[0] == s@[j as int]);
            assert(t.drop_first() =~= s@.subrange(j + 1, n as int));
        }
        used = used + char_width(cs[j]) as u128;
        j = j + 1;
    }
    proof {
        let t = s@.subrange(j as int, n as int);
        if j < n {
            assert(t[0] == s@[j as int]);
        }
    }
    let mut out = String::from_str(s.substring_char(0, j));
    out.append("...");
    out
}

/// The inline marker that stands where formula `index` (from 0) failed to
/// render: a styled span that names the formula and points to the log.
pub open spec fn error_marker(index: nat, formula: Seq<char>) -> Seq<char> {
    "<span style=\"color: red; background-color: #ffe6e6; padding: 2px 4px; border-radius: 3px;\" title=\"Formula render error - see logs for details\">[Formula Error #"@
        + decimal(index + 1) + ": "@ + html_text_escaped(abridged(formula, 20, 17)) + "]</span>"@
}

/// The marker for formula `index` (from 0) that failed to render.
pub fn error_marker_html(index: usize, formula: &str) -> (r: String)
    requires
        index < usize::MAX,
    ensures
        r@ == error_marker(index as nat, formula@),
{
    let mut out = String::from_str(
        "<span style=\"color: red; background-color: #ffe6e6; padding: 2px 4px; border-radius: 3px;\" title=\"Formula render error - see logs for details\">[Formula Error #",
    );
    push_decimal(&mut out, (index + 1) as u64);
    out.append(": ");
    let short = shorten(formula, 20, 17);
    out.append(escape_html_text(short.as_str()).as_str());
    out.append("]</span>");
    out
}

} // verus!
