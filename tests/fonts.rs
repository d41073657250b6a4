use gladest::names::typst_name_from;
use gladest::config::{build_font_config, expand_tilde, FontConfigError, FontRequest, FontRole};
use gladest::create_font_config;
use gladest::engine::{describe_font_config, generate_template, parse_render_format, EngineCache};
use gladest::fonts::{FontConfig, FontSource};
use gladest::names::{font_source_to_typst_name, read_font_names, FontNameError, FontNames};
use gladest::render::RenderFormat;

fn utf16be(s: &str) -> Vec<u8> {
    s.encode_utf16().flat_map(|u| u.to_be_bytes()).collect()
}

/// A font file whose only table is a naming table with the given records.
fn font_with_names(records: &[(u16, &str)]) -> Vec<u8> {
    let mut storage = Vec::new();
    let mut entries = Vec::new();
    for (id, text) in records {
        let bytes = utf16be(text);
        entries.push((*id, bytes.len() as u16, storage.len() as u16));
        storage.extend_from_slice(&bytes);
    }
    let mut name = Vec::new();
    name.extend_from_slice(&0u16.to_be_bytes());
    name.extend_from_slice(&(entries.len() as u16).to_be_bytes());
    name.extend_from_slice(&((6 + 12 * entries.len()) as u16).to_be_bytes());
    for (id, len, off) in &entries {
        for v in [3u16, 1, 0x0409, *id, *len, *off] {
            name.extend_from_slice(&v.to_be_bytes());
        }
    }
    name.extend_from_slice(&storage);
    let mut font = Vec::new();
    font.extend_from_slice(&0x0001_0000u32.to_be_bytes());
    for v in [1u16, 16, 0, 0] {
        font.extend_from_slice(&v.to_be_bytes());
    }
    font.extend_from_slice(b"name");
    font.extend_from_slice(&0u32.to_be_bytes());
    font.extend_from_slice(&28u32.to_be_bytes());
    font.extend_from_slice(&(name.len() as u32).to_be_bytes());
    font.extend_from_slice(&name);
    while font.len() % 4 != 0 {
        font.push(0);
    }
    font
}

#[test]
fn legacy_names_stand_in_for_typographic_ones() {
    let font = font_with_names(&[(1, "Legacy Sans"), (2, "Bold"), (4, "Legacy Sans Bold"), (6, "LegacySans-Bold")]);
    let names = read_font_names(&font, 0).ok().expect("names");
    assert_eq!(names.family_name.as_deref(), Some("Legacy Sans"));
    assert_eq!(names.subfamily_name.as_deref(), Some("Bold"));
    assert_eq!(names.full_name.as_deref(), Some("Legacy Sans Bold"));
    assert_eq!(names.postscript_name.as_deref(), Some("LegacySans-Bold"));
    assert_eq!(names.typographic_family_name, None);
    assert_eq!(names.typographic_subfamily_name, None);
}

#[test]
fn typographic_names_are_preferred() {
    let font = font_with_names(&[(1, "Legacy"), (2, "Regular"), (16, "Typo Family"), (17, "Typo Style")]);
    let names = read_font_names(&font, 0).ok().expect("names");
    assert_eq!(names.family_name.as_deref(), Some("Typo Family"));
    assert_eq!(names.subfamily_name.as_deref(), Some("Typo Style"));
    assert_eq!(names.typographic_family_name.as_deref(), Some("Typo Family"));
    assert_eq!(names.full_name, None);
}

#[test]
fn names_from_strings_fall_back_field_by_field() {
    let n = FontNames::from_name_strings(
        Some("F".to_string()),
        Some("S".to_string()),
        None,
        None,
        None,
        Some("TS".to_string()),
    );
    assert_eq!(n.family_name.as_deref(), Some("F"));
    assert_eq!(n.subfamily_name.as_deref(), Some("TS"));
}

#[test]
fn garbage_is_no_font() {
    assert!(matches!(read_font_names(b"not a font at all", 0), Err(FontNameError::NoNameTable)));
}

#[test]
fn typst_names_of_font_sources() {
    let font = font_with_names(&[(1, "Embedded Family")]);
    assert_eq!(font_source_to_typst_name(&FontSource::System("STIX".to_string()), None), "STIX");
    assert_eq!(font_source_to_typst_name(&FontSource::Data(font.clone()), None), "Embedded Family");
    assert_eq!(font_source_to_typst_name(&FontSource::Data(vec![1, 2, 3]), None), "embedded");
    let file = FontSource::File("/fonts/NewCM-Math.otf".to_string());
    assert_eq!(font_source_to_typst_name(&file, None), "NewCM-Math");
    assert_eq!(font_source_to_typst_name(&file, Some(&font)), "Embedded Family");
    assert_eq!(font_source_to_typst_name(&FontSource::File("/".to_string()), None), "serif");
}

#[test]
fn tilde_expands_to_home() {
    assert_eq!(expand_tilde("~/fonts/a.otf", Some("/home/u")), "/home/u/fonts/a.otf");
    assert_eq!(expand_tilde("~", Some("/home/u")), "/home/u");
    assert_eq!(expand_tilde("~x/a", Some("/home/u")), "~x/a");
    assert_eq!(expand_tilde("a/~/b", Some("/home/u")), "a/~/b");
    assert_eq!(expand_tilde("~/a", None), "~/a");
}

#[test]
fn default_font_config() {
    let c = FontConfig::default();
    assert!(matches!(&c.body_font, FontSource::System(n) if n == "serif"));
    assert!(matches!(&c.math_font, FontSource::System(n) if n == "Fira Math"));
    assert!(c.include_system_fonts);
}

#[test]
fn command_line_font_config() {
    let c = create_font_config(None, None, None, None, None, false, false).ok().unwrap();
    assert!(matches!(&c.body_font, FontSource::System(n) if n == "serif"));
    assert!(c.include_system_fonts);
    let c = create_font_config(Some("~/b.otf".into()), None, Some("m.otf".into()), None, Some("/h"), true, true)
        .ok()
        .unwrap();
    assert!(matches!(&c.body_font, FontSource::File(p) if p == "/h/b.otf"));
    assert!(matches!(&c.math_font, FontSource::File(p) if p == "m.otf"));
    assert!(!c.include_system_fonts);
    let c = create_font_config(Some("b.otf".into()), None, None, Some("STIX Two Math".into()), None, true, false)
        .ok()
        .unwrap();
    assert!(c.include_system_fonts);
}

#[test]
fn command_line_font_config_errors() {
    let e = create_font_config(Some("a".into()), Some("b".into()), None, None, None, true, true).err().unwrap();
    assert!(matches!(e, FontConfigError::Conflict(FontRole::Body)));
    assert_eq!(e.message(), "Cannot specify both body font file and body font name. Choose one.");
    let e = create_font_config(None, None, Some("~/m.otf".into()), None, Some("/h"), true, false).err().unwrap();
    assert_eq!(e.message(), "Math font file does not exist: /h/m.otf");
    let e = create_font_config(Some("x.ttf".into()), None, Some("a".into()), Some("b".into()), None, false, true)
        .err()
        .unwrap();
    assert_eq!(e.message(), "Body font file does not exist: x.ttf");
}

#[test]
fn binding_font_requests() {
    let body = FontRequest::from_kind("system", "Libertinus Serif".to_string());
    let math = FontRequest::from_kind("font", "x".to_string());
    let e = build_font_config(body, math, None, false, false).err().unwrap();
    assert_eq!(e.message(), "Invalid math font type: font");
    let req = FontRequest::from_kind("file", "~/f.otf".to_string());
    assert_eq!(req.file_path(Some("/root")), Some("/root/f.otf".to_string()));
}

#[test]
fn font_config_equality() {
    let a = FontConfig::new(FontSource::Data(vec![1, 2]), FontSource::System("M".into()));
    let b = FontConfig::new(FontSource::Data(vec![1, 2]), FontSource::System("M".into()));
    let c = FontConfig::new(FontSource::Data(vec![1, 3]), FontSource::System("M".into()));
    assert!(a == b);
    assert!(a != c);
}

#[test]
fn engine_is_built_once_per_config() {
    let mut cache: EngineCache<String> = EngineCache::new();
    assert_eq!(cache.build_count(), 0);
    cache.get_or_build(FontConfig::default(), || "first".to_string());
    cache.get_or_build(FontConfig::default(), || "second".to_string());
    assert_eq!(cache.build_count(), 1);
    assert_eq!(cache.engine().map(|s| s.as_str()), Some("first"));
    let other = FontConfig::new(FontSource::System("serif".into()), FontSource::System("STIX Two Math".into()));
    cache.get_or_build(other, || "third".to_string());
    assert_eq!(cache.build_count(), 2);
    assert_eq!(cache.engine().map(|s| s.as_str()), Some("third"));
}

#[test]
fn render_format_names() {
    assert_eq!(parse_render_format("PNG"), Some(RenderFormat::Png));
    assert_eq!(parse_render_format("Svg"), Some(RenderFormat::Svg));
    assert_eq!(parse_render_format("gif"), None);
    assert_eq!(parse_render_format("pngx"), None);
}

#[test]
fn template_sets_fonts() {
    let t = generate_template("Libertinus Serif", "Fira Math");
    assert!(t.starts_with("#import sys: inputs\n#import \"@preview/mitex:0.2.5\": *\n\n#set text(font: \"Libertinus Serif\", size: 10pt)\n#set page("));
    assert!(t.contains("\n#show math.equation: set text(font: \"Fira Math\")\n\n#let content = inputs.formula\n"));
    assert!(t.ends_with("#if inline [\n  #mi(content)\n] else [\n  #mitex(content)\n]"));
    let bare = generate_template("", "");
    assert!(bare.contains("\n\n#set text(size: 10pt)\n"));
    assert!(!bare.contains("#show math.equation"));
}

#[test]
fn font_config_description() {
    let c = FontConfig::new(FontSource::File("/f/a.otf".into()), FontSource::Data(vec![0]));
    assert_eq!(
        describe_font_config(&c),
        "🔤 Font Configuration:\n  📝 Body Font: /f/a.otf (file)\n  🔢 Math Font: embedded data\n\n"
    );
    assert_eq!(
        describe_font_config(&FontConfig::default()),
        "🔤 Font Configuration:\n  📝 Body Font: serif (system)\n  🔢 Math Font: Fira Math (system)\n\n"
    );
}

#[test]
fn typst_name_from_given_results() {
    let file = FontSource::File("/a/b.otf".to_string());
    assert_eq!(typst_name_from(&file, Some("Fam".into()), Some("b".into())), "Fam");
    assert_eq!(typst_name_from(&file, None, Some("b".into())), "b");
    assert_eq!(typst_name_from(&file, None, None), "serif");
    assert_eq!(typst_name_from(&FontSource::Data(vec![]), None, None), "embedded");
    assert_eq!(typst_name_from(&FontSource::System("S".into()), Some("F".into()), None), "S");
}
