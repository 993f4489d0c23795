//! Tests of the JSON renderings, the file-name rules, the search query
//! classification, the configuration defaults and the office-document
//! converter.

use cuecard_indexer::extract::process;
use cuecard_indexer::json::meta_json;
use cuecard_indexer::sidecar::{sidecar_fields, sidecar_json};
use cuecard_indexer::scan::{is_allowed, marker_file_name, sidecar_file_name};
use cuecard_indexer::search::{search_plan, search_type, SearchPlan, SearchType};
use cuecard_indexer::config::{rocket, filename_from_headers};
use cuecard_indexer::convert::{matches_part_title, write_text_parts, handle_event, State, DocEvent};

#[test]
fn meta_json_is_valid_compact_json() {
    let doc = "# T\n* **Rhythm**: waltz\n";
    let f = process(doc, String::from("a.md"), String::from("d/a.md"));
    let j = meta_json(&f.meta);
    assert_eq!(j, "{\"title\":\"T\",\"rhythm\":\"waltz\",\"phase\":\"unphased\",\"plusfigures\":\"\"}");
    let v: serde_json::Value = serde_json::from_str(&j).unwrap();
    assert_eq!(v["title"], "T");
    assert_eq!(v["rhythm"], "waltz");
    assert_eq!(v["phase"], "unphased");
}

#[test]
fn meta_json_escapes_values() {
    let doc = "* **Music**: a \"quoted\" name with \\ inside\n";
    let f = process(doc, String::from("a.md"), String::from("d/a.md"));
    let j = meta_json(&f.meta);
    let v: serde_json::Value = serde_json::from_str(&j).unwrap();
    assert_eq!(v["music"], "a \"quoted\" name with \\ inside");
}

#[test]
fn meta_json_escapes_control_characters() {
    let doc = "* **Music**: a\tb\n";
    let f = process(doc, String::from("a.md"), String::from("d/a.md"));
    let j = meta_json(&f.meta);
    assert!(j.contains("a\\tb"));
    let v: serde_json::Value = serde_json::from_str(&j).unwrap();
    assert_eq!(v["music"], "a\tb");
}

#[test]
fn sidecar_json_is_pretty_and_parses_back() {
    let doc = "# T\n* **Choreographer**: Jane\n* **Phase**: IV+soft\n";
    let f = process(doc, String::from("a.md"), String::from("d/a.md"));
    let s = sidecar_fields(&f.meta);
    let j = sidecar_json(&s);
    assert!(j.starts_with("{\n  \"choreographer\": \"Jane\",\n  \"phase\": \"IV\",\n"));
    assert!(j.ends_with("\n}"));
    let v: serde_json::Value = serde_json::from_str(&j).unwrap();
    assert_eq!(v["choreographer"], "Jane");
    assert_eq!(v["phase"], "IV");
    assert_eq!(v["plusfigures"], "+soft");
    assert_eq!(v["rhythm"], "unknown");
}

#[test]
fn allowed_names() {
    assert!(is_allowed("waltz.md"));
    assert!(is_allowed("WALTZ.MD"));
    assert!(!is_allowed("waltz.txt"));
    assert!(!is_allowed(".marker.waltz.md"));
    assert!(!is_allowed("waltz.meta.json"));
    assert!(!is_allowed("md"));
}

#[test]
fn marker_names() {
    assert_eq!(marker_file_name("a.md"), ".marker.a.md");
    assert!(!is_allowed(&marker_file_name("anything.md")));
}

#[test]
fn sidecar_names() {
    assert_eq!(sidecar_file_name("waltz.md"), "waltz.meta.json");
    assert_eq!(sidecar_file_name("noext"), "noext.meta.json");
    assert_eq!(sidecar_file_name(".hidden"), ".hidden.meta.json");
    assert_eq!(sidecar_file_name("archive.tar.gz"), "archive.tar.meta.json");
}

#[test]
fn search_plans() {
    match search_plan("phase:III") {
        SearchPlan::Phase(t) => assert_eq!(t, "III"),
        _ => panic!("phase: prefix must search the phase"),
    }
    match search_plan("rhythm:waltz") {
        SearchPlan::Rhythm(t) => assert_eq!(t, "waltz"),
        _ => panic!("rhythm: prefix must search the rhythm"),
    }
    match search_plan("title:tennessee") {
        SearchPlan::Meta(t) => assert_eq!(t, "tennessee"),
        _ => panic!("an unknown prefix falls back to the metadata search"),
    }
    match search_plan("tennessee waltz") {
        SearchPlan::Content(t) => assert_eq!(t, "tennessee waltz"),
        _ => panic!("no prefix searches the content"),
    }
}

#[test]
fn search_types() {
    assert_eq!(search_type("phase:III"), SearchType::PhaseSearch);
    assert_eq!(search_type("rhythm:w"), SearchType::RhythmSearch);
    assert_eq!(search_type("x:y"), SearchType::StringSearch);
    assert_eq!(search_type("plain"), SearchType::StringSearch);
}

#[test]
fn config_defaults() {
    let c = rocket(None, None, None, None, None, 12);
    assert_eq!(c.music_files_dir, "music_files");
    assert_eq!(c.cuecards_lib_dir, "cuecards");
    assert_eq!(c.indexer_path, "cuecard_indexer");
    assert_eq!(c.db_url, "library.db");
    assert!(!c.cuecards_self_managed);
    assert_eq!(c.minutes_per_tip, 12);
    let c = rocket(Some(String::from("m")), None, None, Some(String::from("db")), Some(true), 5);
    assert_eq!(c.music_files_dir, "m");
    assert_eq!(c.db_url, "db");
    assert!(c.cuecards_self_managed);
}

#[test]
fn filename_header() {
    assert!(filename_from_headers(&Vec::new()).is_none());
    let h = filename_from_headers(&vec![String::from("a.odt"), String::from("b.odt")]).unwrap();
    assert_eq!(h.0, "a.odt");
}

#[test]
fn part_titles() {
    assert!(matches_part_title("Intro"));
    assert!(matches_part_title("PART A"));
    assert!(matches_part_title("int 1-4"));
    assert!(!matches_part_title("Into the woods"));
    assert!(matches_part_title("Bridge"));
    assert!(matches_part_title("bdg"));
    assert!(matches_part_title("Ending"));
    assert!(matches_part_title("B hello"));
    assert!(!matches_part_title("Waltz away"));
}

#[test]
fn first_text_becomes_title() {
    let mut out = String::new();
    let mut st = State::default();
    write_text_parts(&vec![String::from("Tango "), String::from("Time")], &mut out, &mut st);
    assert_eq!(out, "# Tango Time\n");
    assert!(st.has_title);
}

#[test]
fn cue_lines_are_quoted() {
    let mut out = String::new();
    let mut st = State::default();
    st.has_title = true;
    st.new_line = true;
    write_text_parts(&vec![String::from("twirl; vine\n")], &mut out, &mut st);
    assert_eq!(out, "\n> twirl; vine");
    assert!(!st.new_line);
}

#[test]
fn converter_event_walk() {
    let events = vec![
        DocEvent::Start(String::from("p")),
        DocEvent::Text(String::from("My Dance")),
        DocEvent::End(String::from("p")),
        DocEvent::Start(String::from("p")),
        DocEvent::Text(String::from("cue; cue2")),
        DocEvent::End(String::from("p")),
    ];
    let mut st = State::default();
    let mut parts: Vec<String> = Vec::new();
    let mut out = String::new();
    for ev in &events {
        handle_event(ev, &mut st, &mut parts, &mut out);
    }
    assert_eq!(out, "# My Dance\n\n\n> cue; cue2\n");
}

#[test]
fn link_content_is_ignored() {
    let events = vec![
        DocEvent::Start(String::from("p")),
        DocEvent::Start(String::from("a")),
        DocEvent::Text(String::from("a link label")),
        DocEvent::End(String::from("a")),
        DocEvent::Text(String::from("Real Title")),
        DocEvent::End(String::from("p")),
    ];
    let mut st = State::default();
    let mut parts: Vec<String> = Vec::new();
    let mut out = String::new();
    for ev in &events {
        handle_event(ev, &mut st, &mut parts, &mut out);
    }
    assert_eq!(out, "# Real Title\n\n");
}
