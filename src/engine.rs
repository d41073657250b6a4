//! What the typesetting engine is set up with: the source template that each
//! formula is compiled through, and a cache that keeps one engine per font
//! configuration.

use vstd::prelude::*;

use crate::fonts::{FontConfig, FontSource};
use crate::render::RenderFormat;

verus! {

/// The line that sets the body font, or only the size when no font is named.
pub open spec fn body_font_line(body: Seq<char>) -> Seq<char> {
    if body.len() > 0 {
        "#set text(font: \""@ + body + "\", size: 10pt)"@
    } else {
        "#set text(size: 10pt)"@
    }
}

/// The line that sets the math font; empty when no font is named.
pub open spec fn math_font_line(math: Seq<char>) -> Seq<char> {
    if math.len() > 0 {
        "#show math.equation: set text(font: \""@ + math + "\")"@
    } else {
        Seq::empty()
    }
}

/// The source that each formula is compiled through: it reads the formula
/// and whether it is inline from the compile inputs, typesets body text at
/// 10pt in `body`, and math in `math`.
pub open spec fn template_text(body: Seq<char>, math: Seq<char>) -> Seq<char> {
    "#import sys: inputs\n#import \"@preview/mitex:0.2.5\": *\n\n"@ + body_font_line(body)
        + "\n#set page(fill: none, width: auto, height: auto, margin: (left: 0pt, right: 0pt, top: 0.455em, bottom: 0.455em))\n"@
        + math_font_line(math)
        + "\n\n#let content = inputs.formula\n#let inline = inputs.inline\n\n#if inline [\n  #mi(content)\n] else [\n  #mitex(content)\n]"@
}

/// The template for body font `body` and math font `math`, by family name.
pub fn generate_template(body: &str, math: &str) -> (r: String)
    ensures
        r@ == template_text(body@, math@),
{
    let mut out = String::from_str("#import sys: inputs\n#import \"@preview/mitex:0.2.5\": *\n\n");
    if body.unicode_len() > 0 {
        out.append("#set text(font: \"");
        out.append(body);
        out.append("\", size: 10pt)");
    } else {
        out.append("#set text(size: 10pt)");
    }
    out.append(
        "\n#set page(fill: none, width: auto, height: auto, margin: (left: 0pt, right: 0pt, top: 0.455em, bottom: 0.455em))\n",
    );
    if math.unicode_len() > 0 {
        out.append("#show math.equation: set text(font: \"");
        out.append(math);
        out.append("\")");
    }
    out.append(
        "\n\n#let content = inputs.formula\n#let inline = inputs.inline\n\n#if inline [\n  #mi(content)\n] else [\n  #mitex(content)\n]",
    );
    proof {
        assert(out@ =~= template_text(body@, math@));
    }
    out
}

/// The code point of `c` with ASCII upper case letters taken to lower case.
pub open spec fn ascii_lower_code(c: char) -> u32 {
    let x = c as u32;
    if 65 <= x <= 90 {
        (x + 32) as u32
    } else {
        x
    }
}

/// `a` and `b` are equal but for the case of ASCII letters.
pub open spec fn eq_ignoring_ascii_case(a: Seq<char>, b: Seq<char>) -> bool {
    a.len() == b.len() && forall|i: int| 0 <= i < a.len() ==> ascii_lower_code(a[i]) == ascii_lower_code(b[i])
}

fn lower_code(c: char) -> (r: u32)
    ensures
        r == ascii_lower_code(c),
{
    let x = c as u32;
    if 65 <= x && x <= 90 {
        x + 32
    } else {
        x
    }
}

/// Whether `a` and `b` are equal but for the case of ASCII letters.
pub fn eq_ignore_ascii_case(a: &str, b: &str) -> (r: bool)
    ensures
        r == eq_ignoring_ascii_case(a@, b@),
{
    let x = crate::text::chars_of(a);
    let y = crate::text::chars_of(b);
    if x.len() != y.len() {
        return false;
    }
    let mut i: usize = 0;
    while i < x.len()
        invariant
            x@ == a@,
            y@ == b@,
            x@.len() == y@.len(),
            i <= x@.len(),
            forall|k: int| 0 <= k < i ==> ascii_lower_code(x@[k]) == ascii_lower_code(y@[k]),
        decreases x.len() - i,
    {
        if lower_code(x[i]) != lower_code(y[i]) {
            return false;
        }
        i = i + 1;
    }
    true
}

/// The image format that `name` names, ignoring ASCII case: `png` or `svg`.
pub fn parse_render_format(name: &str) -> (r: Option<RenderFormat>)
    ensures
        eq_ignoring_ascii_case(name@, "png"@) ==> r == Some(RenderFormat::Png),
        !eq_ignoring_ascii_case(name@, "png"@) && eq_ignoring_ascii_case(name@, "svg"@) ==> r
            == Some(RenderFormat::Svg),
        !eq_ignoring_ascii_case(name@, "png"@) && !eq_ignoring_ascii_case(name@, "svg"@) ==> r
            is None,
{
    if eq_ignore_ascii_case(name, "png") {
        Some(RenderFormat::Png)
    } else if eq_ignore_ascii_case(name, "svg") {
        Some(RenderFormat::Svg)
    } else {
        None
    }
}

/// Keeps the engine built for the current font configuration, and builds a
/// new one only when the configuration changes.
pub struct EngineCache<E> {
    entry: Option<(FontConfig, E)>,
    builds: u64,
}

impl<E> EngineCache<E> {
    /// The configuration that the cached engine was built for.
    pub closed spec fn config(&self) -> Option<(crate::fonts::FontSourceModel, crate::fonts::FontSourceModel, bool)> {
        match self.entry {
            Some((c, _)) => Some(c@),
            None => None,
        }
    }

    /// The cached engine.
    pub closed spec fn cached(&self) -> Option<E> {
        match self.entry {
            Some((_, e)) => Some(e),
            None => None,
        }
    }

    /// How many engines were built so far.
    pub closed spec fn builds(&self) -> nat {
        self.builds as nat
    }

    /// An empty cache.
    pub fn new() -> (r: EngineCache<E>)
        ensures
            r.config() is None,
            r.cached() is None,
            r.builds() == 0,
    {
        EngineCache { entry: None, builds: 0 }
    }

    /// How many engines were built so far.
    pub fn build_count(&self) -> (r: u64)
        ensures
            r == self.builds(),
    {
        self.builds
    }

    /// The cached engine, if there is one.
    pub fn engine(&self) -> (r: Option<&E>)
        ensures
            match r {
                Some(e) => self.cached() == Some(*e),
                None => self.cached() is None,
            },
    {
        match &self.entry {
            Some((_, e)) => Some(e),
            None => None,
        }
    }

    /// Makes the cache hold an engine for `config`: the one it holds when it
    /// was built for an equal configuration, else the one `build` makes,
    /// which replaces the old one.
    pub fn get_or_build<F: FnOnce() -> E>(&mut self, config: FontConfig, build: F)
        requires
            old(self).builds() < u64::MAX,
            build.requires(()),
        ensures
            final(self).config() == Some(config@),
            final(self).cached() is Some,
            old(self).config() == Some(config@) ==> {
                &&& final(self).builds() == old(self).builds()
                &&& final(self).cached() == old(self).cached()
            },
            old(self).config() != Some(config@) ==> {
                &&& final(self).builds() == old(self).builds() + 1
                &&& build.ensures((), final(self).cached()->0)
            },
    {
        let hit = match &self.entry {
            Some((c, _)) => c.eq(&config),
            None => false,
        };
        if !hit {
            let engine = build();
            self.entry = Some((config, engine));
            self.builds = self.builds + 1;
        }
    }
}

fn push_font_line(out: &mut String, label: &str, font: &FontSource)
    ensures
        final(out)@ == old(out)@ + font_line(label@, font@),
{
    out.append(label);
    match font {
        FontSource::System(name) => {
            out.append(name.as_str());
            out.append(" (system)\n");
        },
        FontSource::File(path) => {
            out.append(path.as_str());
            out.append(" (file)\n");
        },
        FontSource::Data(_) => {
            out.append("embedded data\n");
        },
    }
}

/// The line that describes one font under `label`.
pub open spec fn font_line(label: Seq<char>, font: crate::fonts::FontSourceModel) -> Seq<char> {
    label + match font {
        crate::fonts::FontSourceModel::System(n) => n + " (system)\n"@,
        crate::fonts::FontSourceModel::File(p) => p + " (file)\n"@,
        crate::fonts::FontSourceModel::Data(_) => "embedded data\n"@,
    }
}

/// The text that describes a font configuration to the user.
pub open spec fn font_config_text(config: FontConfig) -> Seq<char> {
    "🔤 Font Configuration:\n"@ + font_line("  📝 Body Font: "@, config.body_font@) + font_line(
        "  🔢 Math Font: "@,
        config.math_font@,
    ) + "\n"@
}

/// Describes a font configuration, one line per font.
pub fn describe_font_config(config: &FontConfig) -> (r: String)
    ensures
        r@ == font_config_text(*config),
{
    let mut out = String::from_str("🔤 Font Configuration:\n");
    push_font_line(&mut out, "  📝 Body Font: ", &config.body_font);
    push_font_line(&mut out, "  🔢 Math Font: ", &config.math_font);
    out.append("\n");
    proof {
        assert(out@ =~= font_config_text(*config));
    }
    out
}

} // verus!
