use gladest::render::{error_marker_html, shorten, EmLength, FormulaRenderResult, RenderFormat};
use gladest::scan::Mode;
use gladest::text::{decimal_string, find_first};

#[test]
fn image_tag_holds_size_data_and_escaped_alt() {
    let r = FormulaRenderResult {
        formula: "a<b & c>d".to_string(),
        is_inline: true,
        format: RenderFormat::Svg,
        data: b"abc".to_vec(),
        x_em: EmLength { ten_thousandths: 12345 },
        y_em: EmLength { ten_thousandths: 50000 },
    };
    assert_eq!(
        r.to_html(),
        "<img class=\"gladst math\" style=\"width: 1.2345em; height: 5.0000em; vertical-align: middle;\" src=\"data:image/svg+xml;base64,YWJj\" alt=\"a&lt;b &amp; c&gt;d\"/>"
    );
}

#[test]
fn display_png_image_tag() {
    let r = FormulaRenderResult {
        formula: "x".to_string(),
        is_inline: false,
        format: RenderFormat::Png,
        data: vec![0, 1, 2, 3],
        x_em: EmLength { ten_thousandths: 7 },
        y_em: EmLength { ten_thousandths: 1230456 },
    };
    assert_eq!(
        r.to_html(),
        "<img class=\"gladst displaymath\" style=\"width: 0.0007em; height: 123.0456em; vertical-align: middle;\" src=\"data:image/png;base64,AAECAw==\" alt=\"x\"/>"
    );
}

#[test]
fn em_length_has_four_places() {
    assert_eq!(EmLength { ten_thousandths: 0 }.css_text(), "0.0000");
    assert_eq!(EmLength { ten_thousandths: 10000 }.css_text(), "1.0000");
    assert_eq!(EmLength { ten_thousandths: 98765 }.css_text(), "9.8765");
}

#[test]
fn error_marker_names_formula_and_escapes_it() {
    assert_eq!(
        error_marker_html(0, "a<b"),
        "<span style=\"color: red; background-color: #ffe6e6; padding: 2px 4px; border-radius: 3px;\" title=\"Formula render error - see logs for details\">[Formula Error #1: a&lt;b]</span>"
    );
    let long = error_marker_html(41, "\\frac{1}{2} + \\sqrt{x^2 + y^2}");
    assert!(long.ends_with("[Formula Error #42: \\frac{1}{2} + \\sq...]</span>"));
}

#[test]
fn shorten_cuts_long_text_only() {
    assert_eq!(shorten("abcdefghijklmnopqrstu", 20, 17), "abcdefghijklmnopq...");
    assert_eq!(shorten("abcdefghijklmnopqrst", 20, 17), "abcdefghijklmnopqrst");
    assert_eq!(shorten("", 20, 17), "");
}

#[test]
fn mode_follows_attribute() {
    assert!(matches!(Mode::from_attr(None), Mode::Inline));
    assert!(matches!(Mode::from_attr(Some("")), Mode::Inline));
    assert!(matches!(Mode::from_attr(Some("math")), Mode::Inline));
    assert!(matches!(Mode::from_attr(Some("displaymath")), Mode::Display));
    match Mode::from_attr(Some("align")) {
        Mode::Unrecognized(v) => assert_eq!(v, "align"),
        _ => panic!("expected an unrecognized mode"),
    }
    assert!(Mode::from_attr(Some("align")).is_inline());
    assert!(!Mode::from_attr(Some("displaymath")).is_inline());
}

#[test]
fn numerals_and_search() {
    assert_eq!(decimal_string(0), "0");
    assert_eq!(decimal_string(907), "907");
    let hay: Vec<char> = "abcabd".chars().collect();
    let needle: Vec<char> = "abd".chars().collect();
    assert_eq!(find_first(&hay, &needle), Some(3));
    let missing: Vec<char> = "x".chars().collect();
    assert_eq!(find_first(&hay, &missing), None);
}

#[test]
fn image_tag_from_encoded_text() {
    let r = FormulaRenderResult {
        formula: "\"q\"".to_string(),
        is_inline: false,
        format: RenderFormat::Svg,
        data: vec![],
        x_em: EmLength { ten_thousandths: 20000 },
        y_em: EmLength { ten_thousandths: 15 },
    };
    assert_eq!(
        r.image_tag_html("QUJD"),
        "<img class=\"gladst displaymath\" style=\"width: 2.0000em; height: 0.0015em; vertical-align: middle;\" src=\"data:image/svg+xml;base64,QUJD\" alt=\"&quot;q&quot;\"/>"
    );
}

#[test]
fn shorten_counts_bytes() {
    let formula = format!("é{}", "a".repeat(99));
    assert_eq!(formula.len(), 101);
    assert_eq!(shorten(&formula, 100, 97), format!("é{}...", "a".repeat(95)));
    let fits = format!("é{}", "a".repeat(98));
    assert_eq!(shorten(&fits, 100, 97), fits);
    let cut_inside = format!("{}é{}", "a".repeat(96), "b".repeat(10));
    assert_eq!(shorten(&cut_inside, 100, 97), format!("{}...", "a".repeat(96)));
}

#[test]
fn error_marker_cuts_by_bytes() {
    let formula = "ααααααααααα";
    assert_eq!(formula.len(), 22);
    assert!(error_marker_html(0, formula).ends_with("[Formula Error #1: αααααααα...]</span>"));
}

#[test]
fn alt_text_escapes_quotes() {
    let r = FormulaRenderResult {
        formula: "\"".to_string(),
        is_inline: true,
        format: RenderFormat::Svg,
        data: vec![255],
        x_em: EmLength { ten_thousandths: 1 },
        y_em: EmLength { ten_thousandths: 1 },
    };
    assert!(r.to_html().ends_with("src=\"data:image/svg+xml;base64,/w==\" alt=\"&quot;\"/>"));
}
