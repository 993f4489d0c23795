//! Tests of the metadata extractor: the line grammar, the mailto
//! stripping, the phase decomposition and the sidecar defaulting.

use cuecard_indexer::extract::{process, exec_strip_mailto, resolve_phase};
use cuecard_indexer::meta::{MetaDataType, MetadataMap};
use cuecard_indexer::sidecar::{sidecar_fields, apply_sidecar, SidecarFields};

fn chars(s: &str) -> Vec<char> {
    s.chars().collect()
}

fn text(v: &[char]) -> String {
    v.iter().collect()
}

fn get<'a>(m: &'a MetadataMap, k: MetaDataType) -> Option<&'a String> {
    m.get(&k)
}

#[test]
fn title_is_first_heading() {
    let doc = "# First Title\nsome text\n# Second Title\n";
    let f = process(doc, String::from("a.md"), String::from("d/a.md"));
    assert!(f.has_title);
    assert_eq!(get(&f.meta, MetaDataType::Title).unwrap(), "First Title");
}

#[test]
fn heading_needs_blank_after_hash() {
    let doc = "#NoTitle\n## also no title\n";
    let f = process(doc, String::from("a.md"), String::from("d/a.md"));
    assert!(!f.has_title);
    assert!(get(&f.meta, MetaDataType::Title).is_none());
}

#[test]
fn meta_line_sets_lowercased_key() {
    let doc = "* **Rhythm**: Waltz\n* **MyKey**: something\n";
    let f = process(doc, String::from("a.md"), String::from("d/a.md"));
    assert_eq!(get(&f.meta, MetaDataType::Rhythm).unwrap(), "Waltz");
    assert_eq!(
        get(&f.meta, MetaDataType::Extra(String::from("mykey"))).unwrap(),
        "something"
    );
}

#[test]
fn meta_line_last_write_wins() {
    let doc = "* **Rhythm**: Waltz\n* **Rhythm**: Tango\n";
    let f = process(doc, String::from("a.md"), String::from("d/a.md"));
    assert_eq!(get(&f.meta, MetaDataType::Rhythm).unwrap(), "Tango");
}

#[test]
fn malformed_meta_lines_are_ignored() {
    // no blank after the star, no colon, key not closed
    let doc = "***Rhythm**: Waltz\n* **Rhythm** Waltz\n* **Rhy thm**: Waltz\n";
    let f = process(doc, String::from("a.md"), String::from("d/a.md"));
    assert!(get(&f.meta, MetaDataType::Rhythm).is_none());
}

#[test]
fn meta_value_is_trimmed() {
    let doc = "* **Music**:   Tennessee Waltz by X  \n";
    let f = process(doc, String::from("a.md"), String::from("d/a.md"));
    assert_eq!(get(&f.meta, MetaDataType::Music).unwrap(), "Tennessee Waltz by X");
}

#[test]
fn phase_decomposition_with_plusfigures() {
    // phase text "III+2" resolves to token III and remainder +2
    let doc = "* **Phase**: III+2\n";
    let f = process(doc, String::from("a.md"), String::from("d/a.md"));
    assert_eq!(get(&f.meta, MetaDataType::Phase).unwrap(), "III");
    assert_eq!(get(&f.meta, MetaDataType::Plusfigures).unwrap(), "+2");
}

#[test]
fn phase_decomposition_rejects_other_text() {
    let doc = "* **Phase**: banana\n";
    let f = process(doc, String::from("a.md"), String::from("d/a.md"));
    assert_eq!(get(&f.meta, MetaDataType::Phase).unwrap(), "unphased");
    assert_eq!(get(&f.meta, MetaDataType::Plusfigures).unwrap(), "");
}

#[test]
fn phase_normalization_always_runs() {
    let doc = "# No phase here\n";
    let f = process(doc, String::from("a.md"), String::from("d/a.md"));
    assert_eq!(get(&f.meta, MetaDataType::Phase).unwrap(), "unphased");
    assert_eq!(get(&f.meta, MetaDataType::Plusfigures).unwrap(), "");
}

#[test]
fn phase_tokens_and_blanks() {
    let cases: Vec<(&str, &str, &str)> = vec![
        ("I", "I", ""),
        ("II", "II", ""),
        ("IV", "IV", ""),
        ("V", "V", ""),
        ("VI", "VI", ""),
        ("IV + 2", "IV", "+ 2"),
        ("VII", "unphased", ""),
        ("III banana", "unphased", ""),
    ];
    for (input, phase, plus) in cases {
        let (tok, rest) = resolve_phase(&chars(input));
        assert_eq!(text(&tok), phase, "phase of {:?}", input);
        assert_eq!(text(&rest), plus, "plusfigures of {:?}", input);
    }
}

#[test]
fn mailto_link_reduces_to_name() {
    let stripped = exec_strip_mailto(&chars("[Jane Doe](mailto:jane@example.com)"));
    assert_eq!(text(&stripped), "Jane Doe");
}

#[test]
fn mailto_applies_to_every_meta_line() {
    let doc = "* **Choreographer**: [Jane Doe](mailto:jane@example.com)\n* **Music**: [Al](mailto:al@b.c)\n";
    let f = process(doc, String::from("a.md"), String::from("d/a.md"));
    assert_eq!(get(&f.meta, MetaDataType::Choreographer).unwrap(), "Jane Doe");
    assert_eq!(get(&f.meta, MetaDataType::Music).unwrap(), "Al");
}

#[test]
fn mailto_picks_leftmost_start_and_greediest_end() {
    // the visible text runs from the first bracket to the last closing
    // bracket that still leads a mailto target
    let stripped = exec_strip_mailto(&chars("[a](x)[b](mailto:c) tail)"));
    assert_eq!(text(&stripped), "a](x)[b");
}

#[test]
fn value_without_mailto_stays() {
    let stripped = exec_strip_mailto(&chars("[Jane Doe](http://example.com)"));
    assert_eq!(text(&stripped), "[Jane Doe](http://example.com)");
}

#[test]
fn sidecar_defaults() {
    let doc = "# T\n* **Rhythm**: Cha\n";
    let f = process(doc, String::from("a.md"), String::from("d/a.md"));
    let s = sidecar_fields(&f.meta);
    assert_eq!(s.choreographer, "unknown");
    assert_eq!(s.phase, "unphased");
    assert_eq!(s.rhythm, "Cha");
    assert_eq!(s.difficulty, "");
    assert_eq!(s.plusfigures, "");
    assert_eq!(s.steplevel, "");
    assert_eq!(s.music, "");
    assert_eq!(s.music_file, "");
}

#[test]
fn sidecar_overrides_extraction() {
    let doc = "* **Choreographer**: Wrong Name\n* **Phase**: II\n";
    let mut f = process(doc, String::from("a.md"), String::from("d/a.md"));
    let fixed = SidecarFields {
        choreographer: String::from("Right Name"),
        phase: String::from("IV"),
        difficulty: String::from("2"),
        rhythm: String::from("Rumba"),
        plusfigures: String::from("+1"),
        steplevel: String::from(""),
        music: String::from(""),
        music_file: String::from(""),
    };
    apply_sidecar(&mut f.meta, &fixed);
    assert_eq!(get(&f.meta, MetaDataType::Choreographer).unwrap(), "Right Name");
    assert_eq!(get(&f.meta, MetaDataType::Phase).unwrap(), "IV");
    assert_eq!(get(&f.meta, MetaDataType::Rhythm).unwrap(), "Rumba");
    assert_eq!(get(&f.meta, MetaDataType::Difficulty).unwrap(), "2");
}

#[test]
fn carriage_returns_are_line_endings() {
    let doc = "# A Title\r\n* **Rhythm**: Two Step\r\n";
    let f = process(doc, String::from("a.md"), String::from("d/a.md"));
    assert_eq!(get(&f.meta, MetaDataType::Title).unwrap(), "A Title");
    assert_eq!(get(&f.meta, MetaDataType::Rhythm).unwrap(), "Two Step");
}
