//! The change classifier and the per-document reconciliation planner.
//!
//! For every document the engine holds a marker file: a hidden sidecar
//! whose content is the uuid of the database record the document was
//! indexed under, and whose modification time is the low-watermark of the
//! last successful run.  From the marker state and the repository's two
//! lookups (by the marker's uuid, and by the document's relative path) the
//! classifier decides whether the document is new, changed or unchanged,
//! and the planner says exactly which record and marker writes must
//! follow.  The binary only performs the planned effects.

use vstd::prelude::*;
use crate::extract::IndexFileData;
use crate::json::json_object_of;
use crate::json::meta_json;
use crate::meta::{
    MetaDataType, value_or, phase_key, rhythm_key, title_key, choreographer_key, steplevel_key,
    difficulty_key, music_file_key, unknown_value, unphased_value,
};

verus! {

/// One cue card record, as the engine reads and writes it.  The
/// repository's own surrogate id stays outside the library; records are
/// keyed by uuid and by file path.
pub struct CuecardRecord {
    pub uuid: String,
    pub phase: String,
    pub rhythm: String,
    pub title: String,
    pub steplevel: String,
    pub difficulty: String,
    pub choreographer: String,
    pub meta: String,
    pub content: String,
    pub karaoke_marks: String,
    pub music_file: String,
    pub file_path: String,
    pub date_created: String,
    pub date_modified: String,
}

impl Clone for CuecardRecord {
    fn clone(&self) -> (r: Self)
        ensures
            r == *self,
    {
        CuecardRecord {
            uuid: self.uuid.clone(),
            phase: self.phase.clone(),
            rhythm: self.rhythm.clone(),
            title: self.title.clone(),
            steplevel: self.steplevel.clone(),
            difficulty: self.difficulty.clone(),
            choreographer: self.choreographer.clone(),
            meta: self.meta.clone(),
            content: self.content.clone(),
            karaoke_marks: self.karaoke_marks.clone(),
            music_file: self.music_file.clone(),
            file_path: self.file_path.clone(),
            date_created: self.date_created.clone(),
            date_modified: self.date_modified.clone(),
        }
    }
}

/// The state of a document's marker file: absent, or present with the
/// recorded uuid and the marker's modification time (nanoseconds since the
/// epoch).
pub enum MarkerState {
    Absent,
    Present { uuid: String, mtime: u128 },
}

/// The uuid a present marker records (empty for an absent marker).
pub open spec fn marker_uuid(m: MarkerState) -> Seq<char> {
    match m {
        MarkerState::Absent => Seq::empty(),
        MarkerState::Present { uuid, mtime } => uuid@,
    }
}

/// The modification time of a present marker (zero for an absent one).
pub open spec fn marker_mtime(m: MarkerState) -> u128 {
    match m {
        MarkerState::Absent => 0,
        MarkerState::Present { uuid, mtime } => mtime,
    }
}

/// What the classifier decides about one document.
#[derive(PartialEq, Eq, Structural, Clone, Copy, Debug)]
pub enum Decision {
    /// No marker, no record under this path: a new document to index.
    Fresh,
    /// No marker, but a record already claims this path: indexing it again
    /// would duplicate the record, so the conflict is only reported.
    Conflict,
    /// Marker present and the document is newer: update the record found
    /// under the marker's uuid.
    Changed,
    /// Marker present but its uuid leads to no usable record: stale marker,
    /// reported for operator remediation.
    Orphaned,
    /// Marker present, document not newer, uuid resolves: nothing to do.
    Unchanged,
    /// Marker present and not newer, the uuid resolves to nothing, but the
    /// path matches a record: the marker drifted (say, the database was
    /// re-seeded) and is rewritten to the record's actual uuid.
    Drifted,
}

/// The classification of one document, given its marker state, its
/// modification time, and whether the repository finds a record under the
/// marker's uuid and under the document's path.
pub open spec fn decision_of(
    marker: MarkerState,
    doc_mtime: u128,
    by_uuid_found: bool,
    by_path_found: bool,
) -> Decision {
    match marker {
        MarkerState::Absent => if by_path_found {
            Decision::Conflict
        } else {
            Decision::Fresh
        },
        MarkerState::Present { uuid, mtime } => if doc_mtime > mtime {
            if by_uuid_found {
                Decision::Changed
            } else {
                Decision::Orphaned
            }
        } else {
            if by_uuid_found {
                Decision::Unchanged
            } else if by_path_found {
                Decision::Drifted
            } else {
                Decision::Orphaned
            }
        },
    }
}

/// Classifies one document.
pub fn should_index(
    marker: &MarkerState,
    doc_mtime: u128,
    by_uuid: &Option<CuecardRecord>,
    by_path: &Option<CuecardRecord>,
) -> (r: Decision)
    ensures
        r == decision_of(*marker, doc_mtime, by_uuid is Some, by_path is Some),
{
    match marker {
        MarkerState::Absent => {
            if by_path.is_some() {
                Decision::Conflict
            } else {
                Decision::Fresh
            }
        },
        MarkerState::Present { uuid: _, mtime } => {
            if doc_mtime > *mtime {
                if by_uuid.is_some() {
                    Decision::Changed
                } else {
                    Decision::Orphaned
                }
            } else {
                if by_uuid.is_some() {
                    Decision::Unchanged
                } else if by_path.is_some() {
                    Decision::Drifted
                } else {
                    Decision::Orphaned
                }
            }
        },
    }
}

/// The record fields that are rebuilt from the document on every index or
/// update: the resolved metadata fields with their defaults, the
/// serialized metadata, the document text and its path.
pub open spec fn record_fields_from(r: CuecardRecord, file: IndexFileData) -> bool {
    let m = file.meta.as_map();
    &&& r.phase@ == value_or(m, phase_key(), unphased_value())
    &&& r.rhythm@ == value_or(m, rhythm_key(), unknown_value())
    &&& r.title@ == value_or(m, title_key(), unknown_value())
    &&& r.choreographer@ == value_or(m, choreographer_key(), unknown_value())
    &&& r.steplevel@ == value_or(m, steplevel_key(), Seq::<char>::empty())
    &&& r.difficulty@ == value_or(m, difficulty_key(), Seq::<char>::empty())
    &&& r.music_file@ == value_or(m, music_file_key(), Seq::<char>::empty())
    &&& r.meta@ == json_object_of(file.meta.entries_seq())
    &&& r.content@ == file.content@
    &&& r.file_path@ == file.file_path@
}

/// Builds the document-derived fields of a record.
fn build_record(
    file: &IndexFileData,
    uuid: String,
    karaoke_marks: String,
    date_created: String,
    date_modified: String,
) -> (r: CuecardRecord)
    requires
        file.wf(),
    ensures
        record_fields_from(r, *file),
        r.uuid@ == uuid@,
        r.karaoke_marks@ == karaoke_marks@,
        r.date_created@ == date_created@,
        r.date_modified@ == date_modified@,
{
    proof {
        reveal_strlit("unphased");
        reveal_strlit("unknown");
        reveal_strlit("");
        assert("unphased"@ =~= unphased_value());
        assert("unknown"@ =~= unknown_value());
        assert(""@ =~= Seq::<char>::empty());
    }
    CuecardRecord {
        uuid,
        phase: file.meta.get_or(&MetaDataType::Phase, "unphased"),
        rhythm: file.meta.get_or(&MetaDataType::Rhythm, "unknown"),
        title: file.meta.get_or(&MetaDataType::Title, "unknown"),
        steplevel: file.meta.get_or(&MetaDataType::Steplevel, ""),
        difficulty: file.meta.get_or(&MetaDataType::Difficulty, ""),
        choreographer: file.meta.get_or(&MetaDataType::Choreographer, "unknown"),
        meta: meta_json(&file.meta),
        content: file.content.clone(),
        karaoke_marks,
        music_file: file.meta.get_or(&MetaDataType::MusicFile, ""),
        file_path: file.file_path.clone(),
        date_created,
        date_modified,
    }
}

/// The writes that one document's reconciliation requires.
pub enum Outcome {
    /// Insert the record, then create the marker with this content.
    Insert { record: CuecardRecord, marker_content: String },
    /// Update the record (keyed by its uuid); where the marker drifted,
    /// first rewrite it with the given content; finally touch the marker's
    /// modification time.
    Modify { record: CuecardRecord, rewrite_marker: Option<String> },
    /// A record already claims this path though the document has no
    /// marker: report, write nothing.
    Conflict,
    /// The marker's uuid resolves to no usable record: report the stale
    /// marker, write nothing.
    Orphaned,
    /// Nothing to do.
    Unchanged,
}

/// What `plan` promises: the outcome matches the classification, and every
/// planned field is pinned down.
pub open spec fn plan_post(
    r: Outcome,
    file: IndexFileData,
    marker: MarkerState,
    doc_mtime: u128,
    by_uuid: Option<CuecardRecord>,
    by_path: Option<CuecardRecord>,
    uuid: Seq<char>,
    now: Seq<char>,
) -> bool {
    let d = decision_of(marker, doc_mtime, by_uuid is Some, by_path is Some);
    match r {
        Outcome::Insert { record, marker_content } => {
            &&& d == Decision::Fresh
            &&& record_fields_from(record, file)
            &&& record.uuid@ == uuid
            &&& marker_content@ == record.uuid@
            &&& record.karaoke_marks@ == Seq::<char>::empty()
            &&& record.date_created@ == now
            &&& record.date_modified@ == now
        },
        Outcome::Modify { record, rewrite_marker } => {
            &&& record_fields_from(record, file)
            &&& record.date_modified@ == now
            &&& (if d == Decision::Changed {
                &&& by_uuid is Some
                &&& record.uuid@ == marker_uuid(marker)
                &&& rewrite_marker is None
                &&& record.date_created@ == by_uuid->0.date_created@
                &&& record.karaoke_marks@ == by_uuid->0.karaoke_marks@
            } else {
                &&& d == Decision::Drifted
                &&& by_path is Some
                &&& record.uuid@ == by_path->0.uuid@
                &&& rewrite_marker matches Some(c) && c@ == by_path->0.uuid@
                &&& record.date_created@ == by_path->0.date_created@
                &&& record.karaoke_marks@ == by_path->0.karaoke_marks@
            })
        },
        Outcome::Conflict => d == Decision::Conflict,
        Outcome::Orphaned => d == Decision::Orphaned,
        Outcome::Unchanged => d == Decision::Unchanged,
    }
}

/// Plans the writes for one document, from the classification inputs, a
/// fresh uuid (used only when the document is new) and the run's
/// timestamp.
pub fn plan(
    file: &IndexFileData,
    marker: &MarkerState,
    doc_mtime: u128,
    by_uuid: &Option<CuecardRecord>,
    by_path: &Option<CuecardRecord>,
    uuid: String,
    now: String,
) -> (r: Outcome)
    requires
        file.wf(),
    ensures
        plan_post(r, *file, *marker, doc_mtime, *by_uuid, *by_path, uuid@, now@),
{
    let d = should_index(marker, doc_mtime, by_uuid, by_path);
    match d {
        Decision::Fresh => {
            let record = build_record(
                file,
                uuid,
                String::new(),
                now.clone(),
                now,
            );
            let marker_content = record.uuid.clone();
            Outcome::Insert { record, marker_content }
        },
        Decision::Conflict => Outcome::Conflict,
        Decision::Changed => {
            let existing = match by_uuid {
                Some(c) => c,
                None => {
                    proof {
                        assert(false);
                    }
                    unreached()
                },
            };
            let mu = match marker {
                MarkerState::Present { uuid: u, mtime: _ } => u.clone(),
                MarkerState::Absent => {
                    proof {
                        assert(false);
                    }
                    unreached()
                },
            };
            let record = build_record(
                file,
                mu,
                existing.karaoke_marks.clone(),
                existing.date_created.clone(),
                now,
            );
            Outcome::Modify { record, rewrite_marker: None }
        },
        Decision::Drifted => {
            let existing = match by_path {
                Some(c) => c,
                None => {
                    proof {
                        assert(false);
                    }
                    unreached()
                },
            };
            let record = build_record(
                file,
                existing.uuid.clone(),
                existing.karaoke_marks.clone(),
                existing.date_created.clone(),
                now,
            );
            let rewrite = existing.uuid.clone();
            Outcome::Modify { record, rewrite_marker: Some(rewrite) }
        },
        Decision::Orphaned => Outcome::Orphaned,
        Decision::Unchanged => Outcome::Unchanged,
    }
}

/// Relies on `uuid::Uuid::new_v4` and its `Display` impl: the hyphenated
/// rendering of a (random) v4 uuid is always 36 characters.  Nothing is
/// claimed about which uuid comes back.
#[verifier::external_body]
fn fresh_uuid() -> (r: String)
    ensures
        r@.len() == 36,
{
    uuid::Uuid::new_v4().to_string()
}

/// Relies on `chrono::Utc::now` and `DateTime::format`: renders the
/// current time in the engine's timestamp format.  Nothing is claimed
/// about the value, which depends on the clock.
#[verifier::external_body]
pub fn now_timestamp() -> (r: String)
{
    chrono::Utc::now().format("%FT%T%.3fZ").to_string()
}

/// Plans the writes for one document, generating the fresh uuid and the
/// run timestamp.  Everything except the two generated strings is pinned:
/// for some uuid of 36 characters and some timestamp, the outcome is
/// exactly what `plan` would build from them.
pub fn reconcile(
    file: &IndexFileData,
    marker: &MarkerState,
    doc_mtime: u128,
    by_uuid: &Option<CuecardRecord>,
    by_path: &Option<CuecardRecord>,
) -> (r: Outcome)
    requires
        file.wf(),
    ensures
        exists|uuid: Seq<char>, now: Seq<char>|
            uuid.len() == 36 && #[trigger] plan_post(
                r,
                *file,
                *marker,
                doc_mtime,
                *by_uuid,
                *by_path,
                uuid,
                now,
            ),
{
    let uuid = fresh_uuid();
    let now = now_timestamp();
    let ghost u = uuid@;
    let ghost n = now@;
    let r = plan(file, marker, doc_mtime, by_uuid, by_path, uuid, now);
    proof {
        assert(plan_post(r, *file, *marker, doc_mtime, *by_uuid, *by_path, u, n));
    }
    r
}

// ---------------------------------------------------------------------------
// The reconciliation laws
// ---------------------------------------------------------------------------
/// The marker state after the planned writes are performed at time `t`:
/// an insert creates the marker with the new record's uuid; an update
/// rewrites it where it drifted and touches its modification time; nothing
/// else changes it.
pub open spec fn marker_after(o: Outcome, m0: MarkerState, t: u128) -> MarkerState {
    match o {
        Outcome::Insert { record, marker_content } => MarkerState::Present {
            uuid: marker_content,
            mtime: t,
        },
        Outcome::Modify { record, rewrite_marker } => match rewrite_marker {
            Some(c) => MarkerState::Present { uuid: c, mtime: t },
            None => MarkerState::Present {
                uuid: match m0 {
                    MarkerState::Present { uuid, mtime } => uuid,
                    MarkerState::Absent => arbitrary(),
                },
                mtime: t,
            },
        },
        _ => m0,
    }
}

/// The record stored for this document after the planned writes.
pub open spec fn stored_after(o: Outcome, s0: Option<CuecardRecord>) -> Option<CuecardRecord> {
    match o {
        Outcome::Insert { record, marker_content } => Some(record),
        Outcome::Modify { record, rewrite_marker } => Some(record),
        _ => s0,
    }
}

/// Idempotence: after a run that inserted or updated a document's record,
/// the marker carries the uuid of the stored record, so a second run over
/// the unchanged document — the marker now at least as new as the file,
/// and the repository answering the by-uuid lookup with that record —
/// classifies it `Unchanged` and plans no write at all.
pub proof fn lemma_runs_settle(
    o: Outcome,
    file: IndexFileData,
    m0: MarkerState,
    doc_mtime: u128,
    by_uuid: Option<CuecardRecord>,
    by_path: Option<CuecardRecord>,
    uuid: Seq<char>,
    now: Seq<char>,
    t: u128,
    by_path_found2: bool,
)
    requires
        plan_post(o, file, m0, doc_mtime, by_uuid, by_path, uuid, now),
        o is Insert || o is Modify,
        t >= doc_mtime,
    ensures
        stored_after(o, by_uuid) matches Some(r2) && r2.uuid@ == marker_uuid(
            marker_after(o, m0, t),
        ),
        decision_of(marker_after(o, m0, t), doc_mtime, true, by_path_found2)
            == Decision::Unchanged,
{
}

/// A run that classified a document `Unchanged` wrote nothing: marker and
/// stored record are exactly what they were.
pub proof fn lemma_unchanged_writes_nothing(
    o: Outcome,
    m0: MarkerState,
    s0: Option<CuecardRecord>,
    t: u128,
)
    requires
        o is Unchanged || o is Conflict || o is Orphaned,
    ensures
        marker_after(o, m0, t) == m0,
        stored_after(o, s0) == s0,
{
}

/// A new document — no marker, no record under its path — is always
/// classified `Fresh`.
pub proof fn lemma_new_file_is_fresh(doc_mtime: u128, by_uuid_found: bool)
    ensures
        decision_of(MarkerState::Absent, doc_mtime, by_uuid_found, false) == Decision::Fresh,
{
}

/// Edit detection: a document whose modification time moved past its
/// marker's is classified `Changed` exactly when the marker's uuid still
/// resolves — never `Fresh`, so editing cannot create a second record.
pub proof fn lemma_edit_is_update(
    mu: String,
    marker_mt: u128,
    doc_mtime: u128,
    by_uuid_found: bool,
    by_path_found: bool,
)
    requires
        doc_mtime > marker_mt,
    ensures
        decision_of(
            MarkerState::Present { uuid: mu, mtime: marker_mt },
            doc_mtime,
            by_uuid_found,
            by_path_found,
        ) == if by_uuid_found {
            Decision::Changed
        } else {
            Decision::Orphaned
        },
{
}

/// Stale-marker recovery: when the marker's uuid resolves to nothing but
/// the document's path matches a record, the document is classified
/// `Drifted` — an update of that record plus a marker rewrite, never an
/// insert.
pub proof fn lemma_stale_marker_recovers(
    mu: String,
    marker_mt: u128,
    doc_mtime: u128,
)
    requires
        doc_mtime <= marker_mt,
    ensures
        decision_of(
            MarkerState::Present { uuid: mu, mtime: marker_mt },
            doc_mtime,
            false,
            true,
        ) == Decision::Drifted,
{
}

} // verus!
