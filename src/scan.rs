//! The document scanner: finds the formula elements of an HTML document and
//! gives each one a slot in a [`DocumentBuffer`], in document order.

use vstd::prelude::*;

use crate::buffer::{has_slot, placeholder, scanned_pieces, slots_below, DocumentBuffer, Piece};
use crate::text::{chars_of, push_decimal, same_text};

verus! {

/// The tag name of formula elements.
pub const FORMULA_TAG: &'static str = "eq";

/// The attribute of a formula element that holds its mode.
pub const MODE_ATTRIBUTE: &'static str = "env";

/// How a formula is typeset, as its element's mode attribute says.
pub enum Mode {
    /// `math`, an empty value, or no attribute at all.
    Inline,
    /// `displaymath`.
    Display,
    /// Any other value; typeset inline, and worth a warning.
    Unrecognized(String),
}

pub open spec fn is_display_attr(attr: Option<Seq<char>>) -> bool {
    attr == Some("displaymath"@)
}

pub open spec fn is_inline_attr(attr: Option<Seq<char>>) -> bool {
    attr is None || attr == Some("math"@) || attr == Some(Seq::<char>::empty())
}

/// The mode that attribute value `attr` selects.
pub open spec fn mode_matches(m: Mode, attr: Option<Seq<char>>) -> bool {
    match m {
        Mode::Display => is_display_attr(attr),
        Mode::Inline => is_inline_attr(attr),
        Mode::Unrecognized(v) => !is_display_attr(attr) && !is_inline_attr(attr) && attr == Some(v@),
    }
}

pub open spec fn attr_view(attr: Option<&str>) -> Option<Seq<char>> {
    match attr {
        Some(s) => Some(s@),
        None => None,
    }
}

impl Mode {
    /// The mode that the mode attribute's value selects.
    pub fn from_attr(attr: Option<&str>) -> (r: Mode)
        ensures
            mode_matches(r, attr_view(attr)),
    {
        match attr {
            None => Mode::Inline,
            Some(v) => {
                assert(v@.len() == 0 ==> v@ =~= Seq::<char>::empty());
                if same_text(v, "displaymath") {
                    Mode::Display
                } else if same_text(v, "math") || v.unicode_len() == 0 {
                    Mode::Inline
                } else {
                    Mode::Unrecognized(String::from_str(v))
                }
            },
        }
    }

    /// Whether the formula is typeset inline with the text around it.
    pub fn is_inline(&self) -> (r: bool)
        ensures
            r == !(self is Display),
    {
        match self {
            Mode::Display => false,
            _ => true,
        }
    }
}

/// What the scanner reads of one formula element.
pub struct FormulaElement {
    /// The element's text content.
    pub text: String,
    /// The value of its mode attribute, if it has one.
    pub mode: Option<String>,
    /// The element serialized as HTML.
    pub html: String,
}

impl View for FormulaElement {
    type V = (Seq<char>, Option<Seq<char>>, Seq<char>);

    open spec fn view(&self) -> (Seq<char>, Option<Seq<char>>, Seq<char>) {
        (self.text@, self.mode.deep_view(), self.html@)
    }
}

/// What parsing `source` as an HTML document yields: the document
/// serialized again, and the elements that match CSS selector `selector`,
/// each, in the order in which the parser created them, as its text content, the value of attribute
/// `attr`, and its serialization. `None` when `selector` is no valid
/// selector.
pub uninterp spec fn parsed_document(
    source: Seq<char>,
    selector: Seq<char>,
    attr: Seq<char>,
) -> Option<(Seq<char>, Seq<(Seq<char>, Option<Seq<char>>, Seq<char>)>)>;

/// Relies on scraper: `Selector::parse` reads `selector`,
/// `Html::parse_document` parses `source`, `Html::html` serializes the parsed
/// document, and `Html::select` yields the matching elements in the order of
/// the parsed tree's nodes; of each, its text nodes joined, `attr` of its `Element`, and
/// `ElementRef::html`.
#[verifier::external_body]
fn parse_document(source: &str, selector: &str, attr: &str) -> (r: Option<(String, Vec<FormulaElement>)>)
    ensures
        match r {
            Some((doc, v)) => parsed_document(source@, selector@, attr@) == Some(
                (doc@, v@.map_values(|e: FormulaElement| e@)),
            ),
            None => parsed_document(source@, selector@, attr@) is None,
        },
{
    let selector = scraper::Selector::parse(selector).ok()?;
    let document = scraper::Html::parse_document(source);
    let found = document.select(&selector).map(|e| FormulaElement {
        text: e.text().collect(),
        mode: e.value().attr(attr).map(String::from),
        html: e.html(),
    });
    let elements = found.collect();
    Some((document.html(), elements))
}

/// One formula to render, as the scanner hands it on.
pub struct FormulaTask {
    /// The placeholder token that stands for the formula in the document text.
    pub placeholder_id: String,
    /// The formula's source text.
    pub formula_text: String,
    pub mode: Mode,
    /// The formula's position among the document's formulas, from 0.
    pub task_index: usize,
}

/// Task `t` is the one made for element `e` at position `i`.
pub open spec fn task_for(t: FormulaTask, i: int, e: (Seq<char>, Option<Seq<char>>, Seq<char>)) -> bool {
    &&& t.task_index == i
    &&& t.placeholder_id@ == placeholder(i as nat)
    &&& t.formula_text@ == e.0
    &&& mode_matches(t.mode, e.1)
}

/// The serialized forms of the elements.
pub open spec fn element_htmls(es: Seq<(Seq<char>, Option<Seq<char>>, Seq<char>)>) -> Seq<Seq<char>> {
    es.map_values(|e: (Seq<char>, Option<Seq<char>>, Seq<char>)| e.2)
}

/// The placeholder token of task `id`.
pub fn placeholder_string(id: usize) -> (r: String)
    ensures
        r@ == placeholder(id as nat),
{
    let mut out = String::from_str("__GLADST_FORMULA_PLACEHOLDER_");
    push_decimal(&mut out, id as u64);
    out.append("__");
    out
}

/// Cuts the formula elements out of `document`, the text that `elements`
/// were read from: in document order, the first occurrence of each element's
/// HTML that still stands in the text gives way to the slot of its task.
pub fn scan_elements(document: String, elements: &Vec<FormulaElement>) -> (r: (
    DocumentBuffer,
    Vec<FormulaTask>,
))
    ensures
        r.0@ == scanned_pieces(document@, element_htmls(elements@.map_values(|e: FormulaElement| e@))),
        r.0.wf(),
        slots_below(r.0@, elements@.len()),
        r.1@.len() == elements@.len(),
        forall|i: int| 0 <= i < elements@.len() ==> task_for(#[trigger] r.1@[i], i, elements@[i]@),
{
    let ghost model = elements@.map_values(|e: FormulaElement| e@);
    let mut buffer = DocumentBuffer::from_text(document);
    let mut tasks: Vec<FormulaTask> = Vec::new();
    let mut i: usize = 0;
    proof {
        assert(element_htmls(model).subrange(0, 0) =~= Seq::<Seq<char>>::empty());
    }
    while i < elements.len()
        invariant
            i <= elements@.len(),
            model == elements@.map_values(|e: FormulaElement| e@),
            buffer@ == scanned_pieces(document@, element_htmls(model).subrange(0, i as int)),
            buffer.wf(),
            slots_below(buffer@, i as nat),
            tasks@.len() == i,
            forall|k: int| 0 <= k < i ==> task_for(#[trigger] tasks@[k], k, elements@[k]@),
        decreases elements.len() - i,
    {
        let element = &elements[i];
        let needle = chars_of(element.html.as_str());
        proof {
            if has_slot(buffer@, i as nat) {
                let k = choose|k: int| 0 <= k < buffer@.len() && buffer@[k] == Piece::Slot(i as nat);
                assert(slots_below(buffer@, i as nat));
                assert(match buffer@[k] {
                    Piece::Slot(j) => j < i,
                    Piece::Text(_) => true,
                });
            }
        }
        let ghost before = buffer@;
        buffer.place(&needle, i);
        proof {
            crate::buffer::lemma_place_slots_below(before, needle@, i as nat);
            let hs = element_htmls(model);
            assert(hs.subrange(0, i + 1).drop_last() =~= hs.subrange(0, i as int));
            assert(hs.subrange(0, i + 1).last() == element.html@);
        }
        let mode = Mode::from_attr(
            match &element.mode {
                Some(m) => Some(m.as_str()),
                None => None,
            },
        );
        tasks.push(
            FormulaTask {
                placeholder_id: placeholder_string(i),
                formula_text: element.text.clone(),
                mode,
                task_index: i,
            },
        );
        i = i + 1;
    }
    proof {
        assert(element_htmls(model).subrange(0, i as int) =~= element_htmls(model));
    }
    (buffer, tasks)
}

/// Every task below `n` has a slot in the runs `ps`.
pub open spec fn all_placed(ps: Seq<Piece>, n: nat) -> bool {
    forall|i: nat| i < n ==> #[trigger] has_slot(ps, i)
}

fn every_slot_open(buffer: &DocumentBuffer, n: usize) -> (r: bool)
    ensures
        r == all_placed(buffer@, n as nat),
{
    let mut i: usize = 0;
    while i < n
        invariant
            i <= n,
            forall|k: nat| k < i ==> #[trigger] has_slot(buffer@, k),
        decreases n - i,
    {
        if !buffer.has_slot(i) {
            return false;
        }
        i = i + 1;
    }
    true
}

/// Scans an HTML document for formula elements. Without one, the document
/// stays as it is, byte for byte. When the serialized form of every element
/// stands in `html` itself, the elements are cut out of `html`, so that the
/// markup around them is kept byte for byte; otherwise out of the document
/// as the parser serializes it again. Either way as [`scan_elements`] does.
pub fn scan_document(html: &str) -> (r: (DocumentBuffer, Vec<FormulaTask>))
    ensures
        r.0.wf(),
        match parsed_document(html@, FORMULA_TAG@, MODE_ATTRIBUTE@) {
            Some((doc, es)) if es.len() > 0 => {
                &&& r.0@ == (if all_placed(scanned_pieces(html@, element_htmls(es)), es.len()) {
                    scanned_pieces(html@, element_htmls(es))
                } else {
                    scanned_pieces(doc, element_htmls(es))
                })
                &&& r.1@.len() == es.len()
                &&& forall|i: int| 0 <= i < es.len() ==> task_for(#[trigger] r.1@[i], i, es[i])
            },
            _ => r.0@ == seq![Piece::Text(html@)] && r.1@.len() == 0,
        },
{
    match parse_document(html, FORMULA_TAG, MODE_ATTRIBUTE) {
        Some((document, elements)) => {
            if elements.len() > 0 {
                assert forall|i: int| 0 <= i < elements@.len() implies elements@[i]@
                    == elements@.map_values(|e: FormulaElement| e@)[i] by {}
                let from_input = scan_elements(String::from_str(html), &elements);
                if every_slot_open(&from_input.0, elements.len()) {
                    from_input
                } else {
                    scan_elements(document, &elements)
                }
            } else {
                (DocumentBuffer::from_text(String::from_str(html)), Vec::new())
            }
        },
        None => (DocumentBuffer::from_text(String::from_str(html)), Vec::new()),
    }
}

} // verus!
