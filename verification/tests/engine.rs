//! Tests of the change classifier and the reconciliation planner,
//! including the scenario of a fresh library directory.

use cuecard_indexer::classify::{
    should_index, plan, reconcile, now_timestamp, CuecardRecord, MarkerState, Decision, Outcome,
};
use cuecard_indexer::extract::process;
use cuecard_indexer::scan::{marker_file_name, sidecar_file_name, is_allowed};
use cuecard_indexer::sidecar::sidecar_fields;
use cuecard_indexer::search::{search_plan, SearchPlan};
use cuecard_indexer::meta::MetaDataType;

fn record(uuid: &str, file_path: &str) -> CuecardRecord {
    CuecardRecord {
        uuid: String::from(uuid),
        phase: String::from("unphased"),
        rhythm: String::from("unknown"),
        title: String::from("T"),
        steplevel: String::from(""),
        difficulty: String::from(""),
        choreographer: String::from("unknown"),
        meta: String::from("{}"),
        content: String::from("# T\n"),
        karaoke_marks: String::from("marks"),
        music_file: String::from(""),
        file_path: String::from(file_path),
        date_created: String::from("2020-01-01T00:00:00.000Z"),
        date_modified: String::from("2020-01-02T00:00:00.000Z"),
    }
}

#[test]
fn no_marker_means_index() {
    let d = should_index(&MarkerState::Absent, 50, &None, &None);
    assert_eq!(d, Decision::Fresh);
}

#[test]
fn no_marker_but_record_at_path_is_conflict() {
    let d = should_index(&MarkerState::Absent, 50, &None, &Some(record("u1", "d/a.md")));
    assert_eq!(d, Decision::Conflict);
}

#[test]
fn newer_document_means_update() {
    let m = MarkerState::Present { uuid: String::from("u1"), mtime: 100 };
    let d = should_index(&m, 200, &Some(record("u1", "d/a.md")), &None);
    assert_eq!(d, Decision::Changed);
}

#[test]
fn newer_document_with_lost_record_is_orphaned() {
    let m = MarkerState::Present { uuid: String::from("u1"), mtime: 100 };
    let d = should_index(&m, 200, &None, &None);
    assert_eq!(d, Decision::Orphaned);
}

#[test]
fn untouched_document_is_unchanged() {
    let m = MarkerState::Present { uuid: String::from("u1"), mtime: 100 };
    let d = should_index(&m, 100, &Some(record("u1", "d/a.md")), &None);
    assert_eq!(d, Decision::Unchanged);
}

#[test]
fn stale_marker_with_path_match_is_drifted() {
    let m = MarkerState::Present { uuid: String::from("gone"), mtime: 100 };
    let d = should_index(&m, 100, &None, &Some(record("u2", "d/a.md")));
    assert_eq!(d, Decision::Drifted);
}

#[test]
fn fresh_document_plans_one_insert_with_marker() {
    let f = process("# T\n", String::from("a.md"), String::from("d/a.md"));
    let out = plan(
        &f,
        &MarkerState::Absent,
        50,
        &None,
        &None,
        String::from("11111111-2222-3333-4444-555555555555"),
        String::from("2021-05-05T10:00:00.000Z"),
    );
    match out {
        Outcome::Insert { record, marker_content } => {
            assert_eq!(record.uuid, "11111111-2222-3333-4444-555555555555");
            assert_eq!(marker_content, record.uuid);
            assert_eq!(record.file_path, "d/a.md");
            assert_eq!(record.date_created, "2021-05-05T10:00:00.000Z");
            assert_eq!(record.date_modified, "2021-05-05T10:00:00.000Z");
            assert_eq!(record.karaoke_marks, "");
        }
        _ => panic!("expected an insert"),
    }
}

#[test]
fn edited_document_plans_update_preserving_date_created() {
    let f = process("# T\n", String::from("a.md"), String::from("d/a.md"));
    let m = MarkerState::Present { uuid: String::from("u1"), mtime: 100 };
    let existing = record("u1", "d/a.md");
    let out = plan(
        &f,
        &m,
        200,
        &Some(existing),
        &None,
        String::from("unused-uuid-unused-uuid-unused-uuid!"),
        String::from("2021-06-06T10:00:00.000Z"),
    );
    match out {
        Outcome::Modify { record, rewrite_marker } => {
            assert_eq!(record.uuid, "u1");
            assert!(rewrite_marker.is_none());
            assert_eq!(record.date_created, "2020-01-01T00:00:00.000Z");
            assert_eq!(record.date_modified, "2021-06-06T10:00:00.000Z");
            assert_eq!(record.karaoke_marks, "marks");
        }
        _ => panic!("expected an update"),
    }
}

#[test]
fn drifted_marker_is_rewritten_not_reinserted() {
    let f = process("# T\n", String::from("a.md"), String::from("d/a.md"));
    let m = MarkerState::Present { uuid: String::from("gone"), mtime: 100 };
    let existing = record("real-uuid", "d/a.md");
    let out = plan(
        &f,
        &m,
        100,
        &None,
        &Some(existing),
        String::from("unused-uuid-unused-uuid-unused-uuid!"),
        String::from("2021-06-06T10:00:00.000Z"),
    );
    match out {
        Outcome::Modify { record, rewrite_marker } => {
            assert_eq!(record.uuid, "real-uuid");
            assert_eq!(rewrite_marker.unwrap(), "real-uuid");
            assert_eq!(record.date_created, "2020-01-01T00:00:00.000Z");
        }
        _ => panic!("expected an update, never an insert"),
    }
}

#[test]
fn second_run_plans_no_writes() {
    // a full insert, then the state the insert leaves behind
    let f = process("# T\n", String::from("a.md"), String::from("d/a.md"));
    let doc_mtime: u128 = 50;
    let out = plan(
        &f,
        &MarkerState::Absent,
        doc_mtime,
        &None,
        &None,
        String::from("11111111-2222-3333-4444-555555555555"),
        String::from("2021-05-05T10:00:00.000Z"),
    );
    let (stored, marker_content) = match out {
        Outcome::Insert { record, marker_content } => (record, marker_content),
        _ => panic!("expected an insert"),
    };
    let marker = MarkerState::Present { uuid: marker_content, mtime: doc_mtime + 10 };
    let out2 = plan(
        &f,
        &marker,
        doc_mtime,
        &Some(stored),
        &None,
        String::from("99999999-8888-7777-6666-555555555555"),
        String::from("2021-05-05T11:00:00.000Z"),
    );
    assert!(matches!(out2, Outcome::Unchanged));
}

#[test]
fn reconcile_generates_matching_marker_and_uuid() {
    let f = process("# T\n", String::from("a.md"), String::from("d/a.md"));
    let out = reconcile(&f, &MarkerState::Absent, 50, &None, &None);
    match out {
        Outcome::Insert { record, marker_content } => {
            assert_eq!(record.uuid.len(), 36);
            assert_eq!(marker_content, record.uuid);
        }
        _ => panic!("expected an insert"),
    }
}

#[test]
fn two_fresh_uuids_differ() {
    let f = process("# T\n", String::from("a.md"), String::from("d/a.md"));
    let a = match reconcile(&f, &MarkerState::Absent, 50, &None, &None) {
        Outcome::Insert { record, .. } => record.uuid,
        _ => panic!("expected an insert"),
    };
    let b = match reconcile(&f, &MarkerState::Absent, 50, &None, &None) {
        Outcome::Insert { record, .. } => record.uuid,
        _ => panic!("expected an insert"),
    };
    assert_ne!(a, b);
}

#[test]
fn timestamps_have_the_engine_format() {
    let t = now_timestamp();
    assert_eq!(t.len(), 24);
    assert_eq!(&t[4..5], "-");
    assert_eq!(&t[10..11], "T");
    assert_eq!(&t[23..24], "Z");
}

#[test]
fn scenario_fresh_library_directory() {
    // dances/waltz.md with a title and a mailto choreographer
    let doc = "# Tennessee Waltz\n* **Choreographer**: [J. Smith](mailto:j@x.com)\n";
    assert!(is_allowed("waltz.md"));
    let f = process(doc, String::from("waltz.md"), String::from("dances/waltz.md"));
    let out = reconcile(&f, &MarkerState::Absent, 50, &None, &None);
    match out {
        Outcome::Insert { record, marker_content } => {
            assert_eq!(record.title, "Tennessee Waltz");
            assert_eq!(record.choreographer, "J. Smith");
            assert_eq!(record.phase, "unphased");
            assert_eq!(record.file_path, "dances/waltz.md");
            assert_eq!(marker_content, record.uuid);
            assert_eq!(record.uuid.len(), 36);
        }
        _ => panic!("the first run must index the new document"),
    }
    assert_eq!(marker_file_name("waltz.md"), ".marker.waltz.md");
    assert!(!is_allowed(&marker_file_name("waltz.md")));
    assert_eq!(sidecar_file_name("waltz.md"), "waltz.meta.json");
    let s = sidecar_fields(&f.meta);
    assert_eq!(s.choreographer, "J. Smith");
    assert_eq!(s.phase, "unphased");
}

#[test]
fn test_cuesheet_list() {
    // the catch-all query "all" runs a content search with the whole query
    match search_plan("all") {
        SearchPlan::Content(q) => assert_eq!(q, "all"),
        _ => panic!("a query without a prefix searches the content"),
    }
}

#[test]
fn test_cuesheet_documents() {
    // an indexed document comes back with a non-empty id
    let f = process("# All Night\n", String::from("a.md"), String::from("d/a.md"));
    let out = reconcile(&f, &MarkerState::Absent, 50, &None, &None);
    match out {
        Outcome::Insert { record, .. } => {
            assert!(record.uuid.len() > 0);
        }
        _ => panic!("expected an insert"),
    }
}

#[test]
fn test_cuesheet_by_id() {
    // fetching by the id the first run handed out finds the same document
    let f = process("# All Night\n", String::from("a.md"), String::from("d/a.md"));
    let doc_mtime: u128 = 50;
    let (stored, marker_content) =
        match reconcile(&f, &MarkerState::Absent, doc_mtime, &None, &None) {
            Outcome::Insert { record, marker_content } => (record, marker_content),
            _ => panic!("expected an insert"),
        };
    let content = stored.content.clone();
    let marker = MarkerState::Present { uuid: marker_content, mtime: doc_mtime + 10 };
    let d = should_index(&marker, doc_mtime, &Some(stored), &None);
    assert_eq!(d, Decision::Unchanged);
    assert_eq!(content, "# All Night\n");
}

#[test]
fn extra_metadata_reaches_the_record_meta() {
    let doc = "# T\n* **Footwork**: opposite\n";
    let f = process(doc, String::from("a.md"), String::from("d/a.md"));
    assert_eq!(
        f.meta.get(&MetaDataType::Extra(String::from("footwork"))).unwrap(),
        "opposite"
    );
}
