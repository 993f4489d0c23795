//! The sidecar metadata cache.
//!
//! Next to every document sits a `<stem>.meta.json` file with a fixed set
//! of resolved fields.  The first time a document is seen the file is
//! written from the extracted metadata (with the standard defaulting);
//! afterwards the file is authoritative and its values override the
//! freshly extracted ones, letting a user hand-correct mis-parsed
//! metadata.  Reading and writing the file is the binary's job; resolving
//! the fields, applying an override and rendering the JSON are verified
//! here.

use vstd::prelude::*;
use crate::json::{quoted, push_quoted};
use crate::meta::{
    MetaDataType, MetadataMap, value_or, choreographer_key, phase_key, difficulty_key, rhythm_key,
    plusfigures_key, steplevel_key, music_key, music_file_key, unknown_value, unphased_value,
};
use crate::text::{chars_vec, chars_to_string};

verus! {

/// The fixed field set of a sidecar metadata file.
pub struct SidecarFields {
    pub choreographer: String,
    pub phase: String,
    pub difficulty: String,
    pub rhythm: String,
    pub plusfigures: String,
    pub steplevel: String,
    pub music: String,
    pub music_file: String,
}

/// Resolves the sidecar fields from extracted metadata: a missing
/// choreographer or rhythm becomes "unknown", a missing phase "unphased",
/// and every other missing field the empty string.
pub fn sidecar_fields(meta: &MetadataMap) -> (r: SidecarFields)
    requires
        meta.wf(),
    ensures
        r.choreographer@ == value_or(meta.as_map(), choreographer_key(), unknown_value()),
        r.phase@ == value_or(meta.as_map(), phase_key(), unphased_value()),
        r.difficulty@ == value_or(meta.as_map(), difficulty_key(), Seq::<char>::empty()),
        r.rhythm@ == value_or(meta.as_map(), rhythm_key(), unknown_value()),
        r.plusfigures@ == value_or(meta.as_map(), plusfigures_key(), Seq::<char>::empty()),
        r.steplevel@ == value_or(meta.as_map(), steplevel_key(), Seq::<char>::empty()),
        r.music@ == value_or(meta.as_map(), music_key(), Seq::<char>::empty()),
        r.music_file@ == value_or(meta.as_map(), music_file_key(), Seq::<char>::empty()),
{
    proof {
        reveal_strlit("unknown");
        reveal_strlit("unphased");
        reveal_strlit("");
        assert("unknown"@ =~= unknown_value());
        assert("unphased"@ =~= unphased_value());
        assert(""@ =~= Seq::<char>::empty());
    }
    SidecarFields {
        choreographer: meta.get_or(&MetaDataType::Choreographer, "unknown"),
        phase: meta.get_or(&MetaDataType::Phase, "unphased"),
        difficulty: meta.get_or(&MetaDataType::Difficulty, ""),
        rhythm: meta.get_or(&MetaDataType::Rhythm, "unknown"),
        plusfigures: meta.get_or(&MetaDataType::Plusfigures, ""),
        steplevel: meta.get_or(&MetaDataType::Steplevel, ""),
        music: meta.get_or(&MetaDataType::Music, ""),
        music_file: meta.get_or(&MetaDataType::MusicFile, ""),
    }
}

/// Overrides the extracted metadata wholesale with the sidecar's fields.
pub fn apply_sidecar(meta: &mut MetadataMap, f: &SidecarFields)
    requires
        old(meta).wf(),
    ensures
        final(meta).wf(),
        final(meta).as_map() == old(meta).as_map().insert(choreographer_key(), f.choreographer@)
            .insert(phase_key(), f.phase@).insert(difficulty_key(), f.difficulty@).insert(
            rhythm_key(),
            f.rhythm@,
        ).insert(plusfigures_key(), f.plusfigures@).insert(steplevel_key(), f.steplevel@).insert(
            music_key(),
            f.music@,
        ).insert(music_file_key(), f.music_file@),
{
    meta.insert(MetaDataType::Choreographer, f.choreographer.clone());
    meta.insert(MetaDataType::Phase, f.phase.clone());
    meta.insert(MetaDataType::Difficulty, f.difficulty.clone());
    meta.insert(MetaDataType::Rhythm, f.rhythm.clone());
    meta.insert(MetaDataType::Plusfigures, f.plusfigures.clone());
    meta.insert(MetaDataType::Steplevel, f.steplevel.clone());
    meta.insert(MetaDataType::Music, f.music.clone());
    meta.insert(MetaDataType::MusicFile, f.music_file.clone());
}

/// One line of the pretty-printed object: two spaces of indent, the quoted
/// key, a colon and a space, the quoted value.
pub open spec fn pretty_member(k: Seq<char>, v: Seq<char>) -> Seq<char> {
    seq![' ', ' '] + quoted(k) + seq![':', ' '] + quoted(v)
}

/// The pretty-printed sidecar object, fields in their fixed order.
pub open spec fn sidecar_json_of(f: SidecarFields) -> Seq<char> {
    seq!['{', '\n'] + pretty_member(choreographer_key(), f.choreographer@) + seq![',', '\n']
        + pretty_member(phase_key(), f.phase@) + seq![',', '\n'] + pretty_member(
        difficulty_key(),
        f.difficulty@,
    ) + seq![',', '\n'] + pretty_member(rhythm_key(), f.rhythm@) + seq![',', '\n'] + pretty_member(
        plusfigures_key(),
        f.plusfigures@,
    ) + seq![',', '\n'] + pretty_member(steplevel_key(), f.steplevel@) + seq![',', '\n']
        + pretty_member(music_key(), f.music@) + seq![',', '\n'] + pretty_member(
        music_file_key(),
        f.music_file@,
    ) + seq!['\n', '}']
}

fn push_pretty_member(out: &mut Vec<char>, k: &MetaDataType, v: &String)
    ensures
        final(out)@ == old(out)@ + pretty_member(k.name(), v@),
{
    let ghost o = out@;
    out.push(' ');
    out.push(' ');
    let kc = chars_vec(k.key_string().as_str());
    push_quoted(out, &kc);
    out.push(':');
    out.push(' ');
    let vc = chars_vec(v.as_str());
    push_quoted(out, &vc);
    proof {
        assert(out@ =~= o + pretty_member(k.name(), v@));
    }
}

/// Renders the sidecar fields as the pretty-printed JSON written next to
/// the document.
pub fn sidecar_json(f: &SidecarFields) -> (r: String)
    ensures
        r@ == sidecar_json_of(*f),
{
    let mut out: Vec<char> = Vec::new();
    out.push('{');
    out.push('\n');
    push_pretty_member(&mut out, &MetaDataType::Choreographer, &f.choreographer);
    out.push(',');
    out.push('\n');
    push_pretty_member(&mut out, &MetaDataType::Phase, &f.phase);
    out.push(',');
    out.push('\n');
    push_pretty_member(&mut out, &MetaDataType::Difficulty, &f.difficulty);
    out.push(',');
    out.push('\n');
    push_pretty_member(&mut out, &MetaDataType::Rhythm, &f.rhythm);
    out.push(',');
    out.push('\n');
    push_pretty_member(&mut out, &MetaDataType::Plusfigures, &f.plusfigures);
    out.push(',');
    out.push('\n');
    push_pretty_member(&mut out, &MetaDataType::Steplevel, &f.steplevel);
    out.push(',');
    out.push('\n');
    push_pretty_member(&mut out, &MetaDataType::Music, &f.music);
    out.push(',');
    out.push('\n');
    push_pretty_member(&mut out, &MetaDataType::MusicFile, &f.music_file);
    out.push('\n');
    out.push('}');
    proof {
        assert(out@ =~= sidecar_json_of(*f));
    }
    chars_to_string(&out)
}

} // verus!
