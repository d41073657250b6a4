use gladest::DocumentBuffer;
use gladest::scan::{placeholder_string, scan_elements, FormulaElement};
use gladest::pipeline::{assemble, merge_outcome, ErrorReport, RenderError, RenderOutcome};
use gladest::render::{EmLength, FormulaRenderResult, RenderFormat};
use gladest::scan::{scan_document, FormulaTask, Mode};

const DOC: &str = "<p>Sum <eq>a+b</eq> and <eq env=\"displaymath\">x^2</eq> then <eq env=\"math\">c</eq>.</p>";

fn image(formula: &str, data: &[u8]) -> RenderOutcome {
    RenderOutcome::Rendered(FormulaRenderResult {
        formula: formula.to_string(),
        is_inline: true,
        format: RenderFormat::Svg,
        data: data.to_vec(),
        x_em: EmLength { ten_thousandths: 12345 },
        y_em: EmLength { ten_thousandths: 50000 },
    })
}

fn failure(message: &str) -> RenderOutcome {
    RenderOutcome::Failed(RenderError { message: message.to_string(), causes: vec![] })
}

fn outcomes_in_order(tasks: &[FormulaTask], order: &[usize], failing: Option<usize>) -> Vec<(usize, RenderOutcome)> {
    order
        .iter()
        .map(|&k| {
            let t = &tasks[k];
            let o = if Some(k) == failing {
                failure("boom")
            } else {
                image(&t.formula_text, t.formula_text.as_bytes())
            };
            (k, o)
        })
        .collect()
}

#[test]
fn scan_without_formulas_keeps_document() {
    let html = "<html><body><p>No math  here &amp; there</p></body></html>";
    let (buffer, tasks) = scan_document(html);
    assert!(tasks.is_empty());
    assert_eq!(buffer.text(), html);
    let (text, errors) = assemble(buffer, &tasks, Vec::new());
    assert_eq!(text, html);
    assert!(errors.is_empty());
}

#[test]
fn scan_numbers_formulas_in_document_order() {
    let (buffer, tasks) = scan_document(DOC);
    assert_eq!(tasks.len(), 3);
    let texts: Vec<&str> = tasks.iter().map(|t| t.formula_text.as_str()).collect();
    assert_eq!(texts, vec!["a+b", "x^2", "c"]);
    for (i, t) in tasks.iter().enumerate() {
        assert_eq!(t.task_index, i);
        assert_eq!(t.placeholder_id, format!("__GLADST_FORMULA_PLACEHOLDER_{}__", i));
    }
    assert!(matches!(tasks[0].mode, Mode::Inline));
    assert!(matches!(tasks[1].mode, Mode::Display));
    assert!(matches!(tasks[2].mode, Mode::Inline));
    let text = buffer.text();
    assert!(!text.contains("<eq"));
    for t in &tasks {
        assert_eq!(text.matches(t.placeholder_id.as_str()).count(), 1);
    }
    assert_eq!(buffer.open_slots(), 3);
    assert!(text.contains("<p>Sum __GLADST_FORMULA_PLACEHOLDER_0__ and __GLADST_FORMULA_PLACEHOLDER_1__ then __GLADST_FORMULA_PLACEHOLDER_2__.</p>"));
}

#[test]
fn identical_formulas_get_their_own_slots() {
    let (buffer, tasks) = scan_document("<p><eq>x</eq><eq>x</eq></p>");
    assert_eq!(tasks.len(), 2);
    let text = buffer.text();
    let first = text.find("__GLADST_FORMULA_PLACEHOLDER_0__").unwrap();
    let second = text.find("__GLADST_FORMULA_PLACEHOLDER_1__").unwrap();
    assert!(first < second);
}

#[test]
fn full_success_leaves_no_placeholder() {
    let (buffer, tasks) = scan_document(DOC);
    let outs = outcomes_in_order(&tasks, &[0, 1, 2], None);
    let (text, errors) = assemble(buffer, &tasks, outs);
    assert!(errors.is_empty());
    assert!(!text.contains("__GLADST_FORMULA_PLACEHOLDER_"));
    assert_eq!(text.matches("<img class=\"gladst ").count(), 3);
}

#[test]
fn completion_order_does_not_change_document() {
    let (b1, t1) = scan_document(DOC);
    let (b2, t2) = scan_document(DOC);
    let (b3, t3) = scan_document(DOC);
    let (x1, e1) = assemble(b1, &t1, outcomes_in_order(&t1, &[0, 1, 2], Some(1)));
    let (x2, e2) = assemble(b2, &t2, outcomes_in_order(&t2, &[2, 0, 1], Some(1)));
    let (x3, e3) = assemble(b3, &t3, outcomes_in_order(&t3, &[1, 2, 0], Some(1)));
    assert_eq!(x1, x2);
    assert_eq!(x1, x3);
    let idx = |e: &Vec<gladest::pipeline::FormulaError>| e.iter().map(|f| f.formula_index).collect::<Vec<_>>();
    assert_eq!(idx(&e1), vec![1]);
    assert_eq!(idx(&e2), vec![1]);
    assert_eq!(idx(&e3), vec![1]);
}

#[test]
fn failure_of_one_formula_is_contained() {
    let doc = "<div><eq>a</eq><eq>b</eq><eq>bad</eq><eq>d</eq></div>";
    let (buffer, tasks) = scan_document(doc);
    assert_eq!(tasks.len(), 4);
    let outs = outcomes_in_order(&tasks, &[3, 2, 1, 0], Some(2));
    let (text, errors) = assemble(buffer, &tasks, outs);
    assert_eq!(errors.len(), 1);
    assert_eq!(errors[0].formula_index, 2);
    assert_eq!(errors[0].formula, "bad");
    assert_eq!(errors[0].error.message, "boom");
    assert_eq!(text.matches("<img class=\"gladst ").count(), 3);
    assert!(text.contains("[Formula Error #3: bad]</span>"));
    let marker = text.find("[Formula Error #3").unwrap();
    let third_img = text.match_indices("<img").nth(2).unwrap().0;
    assert!(marker < third_img);
    assert!(!text.contains("__GLADST_FORMULA_PLACEHOLDER_"));
}

#[test]
fn image_without_pixels_leaves_slot_empty() {
    let (buffer, tasks) = scan_document("<p>[<eq>\\,</eq>]</p>");
    assert_eq!(tasks.len(), 1);
    let outs = vec![(0, image("\\,", &[]))];
    let (text, errors) = assemble(buffer, &tasks, outs);
    assert!(errors.is_empty());
    assert!(!text.contains("<img"));
    assert!(!text.contains("__GLADST_FORMULA_PLACEHOLDER_"));
    assert!(text.contains("<p>[]</p>"));
}

#[test]
fn merge_and_report_under_separate_steps() {
    let (mut buffer, tasks) = scan_document(DOC);
    let mut report = ErrorReport::new();
    for k in [2usize, 0, 1] {
        let outcome = if k == 0 { failure("first") } else { image("f", b"xyz") };
        merge_outcome(&mut buffer, &tasks[k], &outcome);
        if let RenderOutcome::Failed(e) = outcome {
            report.record(&tasks[k], e);
        }
    }
    assert_eq!(report.len(), 1);
    assert_eq!(buffer.open_slots(), 0);
    let errors = report.into_sorted();
    assert_eq!(errors[0].formula_index, 0);
    assert_eq!(errors[0].formula, "a+b");
}

#[test]
fn report_is_sorted_by_task() {
    let (_, tasks) = scan_document("<eq>a</eq><eq>b</eq><eq>c</eq><eq>d</eq>");
    let mut report = ErrorReport::new();
    for k in [3usize, 1, 0, 2] {
        report.record(&tasks[k], RenderError { message: format!("m{}", k), causes: vec![] });
    }
    let errors = report.into_sorted();
    let order: Vec<usize> = errors.iter().map(|e| e.formula_index).collect();
    assert_eq!(order, vec![0, 1, 2, 3]);
    assert_eq!(errors[2].error.message, "m2");
}

#[test]
fn scanning_given_elements_cuts_first_occurrences() {
    let doc = "A <eq>x</eq> B <eq env=\"displaymath\">y</eq> C <eq>x</eq>".to_string();
    let elements = vec![
        FormulaElement { text: "x".into(), mode: None, html: "<eq>x</eq>".into() },
        FormulaElement { text: "y".into(), mode: Some("displaymath".into()), html: "<eq env=\"displaymath\">y</eq>".into() },
        FormulaElement { text: "x".into(), mode: Some("odd".into()), html: "<eq>x</eq>".into() },
        FormulaElement { text: "z".into(), mode: None, html: "<eq>z</eq>".into() },
    ];
    let (buffer, tasks) = scan_elements(doc, &elements);
    assert_eq!(
        buffer.text(),
        "A __GLADST_FORMULA_PLACEHOLDER_0__ B __GLADST_FORMULA_PLACEHOLDER_1__ C __GLADST_FORMULA_PLACEHOLDER_2__"
    );
    assert_eq!(tasks.len(), 4);
    assert!(matches!(tasks[2].mode, Mode::Unrecognized(ref v) if v == "odd"));
    assert!(buffer.has_slot(2));
    assert!(!buffer.has_slot(3));
    assert_eq!(buffer.open_slots(), 3);
    assert_eq!(placeholder_string(12), "__GLADST_FORMULA_PLACEHOLDER_12__");
}

#[test]
fn filling_a_slot_replaces_its_token_only() {
    let mut buffer = DocumentBuffer::from_text("left <eq>q</eq> right".to_string());
    let needle: Vec<char> = "<eq>q</eq>".chars().collect();
    buffer.place(&needle, 0);
    assert_eq!(buffer.text(), "left __GLADST_FORMULA_PLACEHOLDER_0__ right");
    buffer.fill(1, "nothing");
    assert_eq!(buffer.text(), "left __GLADST_FORMULA_PLACEHOLDER_0__ right");
    buffer.fill(0, "<b>q</b>");
    assert_eq!(buffer.text(), "left <b>q</b> right");
    assert_eq!(buffer.open_slots(), 0);
}

#[test]
fn markup_around_formulas_is_kept_byte_for_byte() {
    let doc = "<P CLASS=x>Hi  <eq>a</eq><br></P>";
    let (buffer, tasks) = scan_document(doc);
    assert_eq!(tasks.len(), 1);
    assert_eq!(buffer.text(), "<P CLASS=x>Hi  __GLADST_FORMULA_PLACEHOLDER_0__<br></P>");
    let (text, _) = assemble(buffer, &tasks, vec![(0, failure("x"))]);
    assert!(text.starts_with("<P CLASS=x>Hi  <span "));
    assert!(text.ends_with("</span><br></P>"));
}

#[test]
fn elements_written_otherwise_are_cut_from_the_parsed_document() {
    let (buffer, tasks) = scan_document("<p><eq env='math'>a</eq></p>");
    assert_eq!(tasks.len(), 1);
    assert_eq!(buffer.open_slots(), 1);
    assert!(buffer.text().contains("<p>__GLADST_FORMULA_PLACEHOLDER_0__</p>"));
}

#[test]
fn image_class_and_alt_follow_the_element() {
    let (buffer, tasks) = scan_document(DOC);
    let outs = vec![(1, image("not the formula", b"abc"))];
    let (text, _) = assemble(buffer, &tasks, outs);
    assert!(text.contains("<img class=\"gladst displaymath\""));
    assert!(text.contains("alt=\"x^2\"/>"));
    assert!(!text.contains("not the formula"));
}
