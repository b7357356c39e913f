//! Laws of decoding: defaults for absent members, tolerance of unknown
//! members, and rejection of records that lack a required member.

use vstd::prelude::*;
use crate::codec::{lemma_collection_member_fails, object_members, JsonRecord};
use crate::json::{field_of, lemma_field_absent, lemma_field_insert, JsonValue};
use crate::schema::{
    ClassRoom, GuestProfile, LevelProgress, LevelProgressView, ProfileStore, StudentProfile,
    TeacherInfo,
};

verus! {

proof fn lemma_insert_keeps_fields(a: Seq<(String, JsonValue)>, i: int, e: (String, JsonValue))
    requires
        0 <= i <= a.len(),
    ensures
        forall|k: Seq<char>| k != e.0@ ==> #[trigger] field_of(a.insert(i, e), k) == field_of(a, k),
{
    assert forall|k: Seq<char>| k != e.0@ implies #[trigger] field_of(a.insert(i, e), k) == field_of(a, k) by {
        lemma_field_insert(a, i, e, k);
    }
}

/// A document that names no version decodes, if at all, with version 1.
pub proof fn lemma_version_defaults_to_one(j: JsonValue)
    requires
        object_members(j) matches Some(es) && field_of(es, "version"@).is_none(),
        ProfileStore::decoded(j).is_some(),
    ensures
        ProfileStore::decoded(j).unwrap().version == 1,
{
}

/// A level object with none of the level's members decodes to the default
/// record: not completed, no attempts, no best time, no completion time.
pub proof fn lemma_level_defaults(j: JsonValue)
    requires
        object_members(j) matches Some(es) && forall|i: int| 0 <= i < es.len() ==> {
            let k = (#[trigger] es[i]).0@;
            k != "completed"@ && k != "attempts"@ && k != "bestTimeMs"@ && k != "lastCompletedAt"@
        },
    ensures
        LevelProgress::decoded(j) == Some(
            LevelProgressView { completed: false, attempts: 0, best_time_ms: None, last_completed_at: None },
        ),
{
    let es = object_members(j).unwrap();
    lemma_field_absent(es, "completed"@);
    lemma_field_absent(es, "attempts"@);
    lemma_field_absent(es, "bestTimeMs"@);
    lemma_field_absent(es, "lastCompletedAt"@);
}

/// A guest object without an `id` member does not decode.
pub proof fn lemma_guest_needs_id(j: JsonValue)
    requires
        object_members(j) matches Some(es) && field_of(es, "id"@).is_none(),
    ensures
        GuestProfile::decoded(j).is_none(),
{
}

/// A document whose `guests` object holds a guest without an `id` member
/// does not decode.
pub proof fn lemma_store_rejects_guest_without_id(j: JsonValue, k: int)
    requires
        object_members(j) matches Some(es) && (field_of(es, "guests"@) matches Some(JsonValue::Object(gs))
            && (0 <= k < gs@.len() && (object_members(gs@[k].1) matches Some(g) && field_of(g, "id"@).is_none()))),
    ensures
        ProfileStore::decoded(j).is_none(),
{
    let es = object_members(j).unwrap();
    let gs = match field_of(es, "guests"@) {
        Some(JsonValue::Object(gs)) => gs@,
        _ => Seq::empty(),
    };
    lemma_guest_needs_id(gs[k].1);
    lemma_collection_member_fails::<GuestProfile>(gs, k);
}

/// A member the document does not know, added anywhere in the root object,
/// changes nothing in what the document decodes to.
pub proof fn lemma_unknown_member_in_store(j1: JsonValue, j2: JsonValue, i: int, e: (String, JsonValue))
    requires
        object_members(j1) matches Some(a) && 0 <= i <= a.len() && object_members(j2) == Some(a.insert(i, e)),
        e.0@ != "version"@ && e.0@ != "guests"@ && e.0@ != "classes"@,
    ensures
        ProfileStore::decoded(j2) == ProfileStore::decoded(j1),
{
    lemma_insert_keeps_fields(object_members(j1).unwrap(), i, e);
}

/// A member a guest does not know changes nothing in what it decodes to.
pub proof fn lemma_unknown_member_in_guest(j1: JsonValue, j2: JsonValue, i: int, e: (String, JsonValue))
    requires
        object_members(j1) matches Some(a) && 0 <= i <= a.len() && object_members(j2) == Some(a.insert(i, e)),
        e.0@ != "id"@ && e.0@ != "nickname"@ && e.0@ != "avatarId"@ && e.0@ != "progress"@
            && e.0@ != "createdAt"@ && e.0@ != "updatedAt"@,
    ensures
        GuestProfile::decoded(j2) == GuestProfile::decoded(j1),
{
    lemma_insert_keeps_fields(object_members(j1).unwrap(), i, e);
}

/// A member a student does not know changes nothing in what it decodes to.
pub proof fn lemma_unknown_member_in_student(j1: JsonValue, j2: JsonValue, i: int, e: (String, JsonValue))
    requires
        object_members(j1) matches Some(a) && 0 <= i <= a.len() && object_members(j2) == Some(a.insert(i, e)),
        e.0@ != "id"@ && e.0@ != "nickname"@ && e.0@ != "avatarId"@ && e.0@ != "classId"@
            && e.0@ != "progress"@ && e.0@ != "joinedAt"@ && e.0@ != "lastSyncAt"@,
    ensures
        StudentProfile::decoded(j2) == StudentProfile::decoded(j1),
{
    lemma_insert_keeps_fields(object_members(j1).unwrap(), i, e);
}

/// A member a teacher record does not know changes nothing in what it
/// decodes to.
pub proof fn lemma_unknown_member_in_teacher(j1: JsonValue, j2: JsonValue, i: int, e: (String, JsonValue))
    requires
        object_members(j1) matches Some(a) && 0 <= i <= a.len() && object_members(j2) == Some(a.insert(i, e)),
        e.0@ != "id"@ && e.0@ != "nickname"@ && e.0@ != "avatarId"@ && e.0@ != "createdAt"@,
    ensures
        TeacherInfo::decoded(j2) == TeacherInfo::decoded(j1),
{
    lemma_insert_keeps_fields(object_members(j1).unwrap(), i, e);
}

/// A member a classroom does not know changes nothing in what it decodes to.
pub proof fn lemma_unknown_member_in_class(j1: JsonValue, j2: JsonValue, i: int, e: (String, JsonValue))
    requires
        object_members(j1) matches Some(a) && 0 <= i <= a.len() && object_members(j2) == Some(a.insert(i, e)),
        e.0@ != "id"@ && e.0@ != "teacher"@ && e.0@ != "title"@ && e.0@ != "students"@
            && e.0@ != "createdAt"@ && e.0@ != "updatedAt"@,
    ensures
        ClassRoom::decoded(j2) == ClassRoom::decoded(j1),
{
    lemma_insert_keeps_fields(object_members(j1).unwrap(), i, e);
}

/// A member a level record does not know changes nothing in what it decodes
/// to.
pub proof fn lemma_unknown_member_in_level(j1: JsonValue, j2: JsonValue, i: int, e: (String, JsonValue))
    requires
        object_members(j1) matches Some(a) && 0 <= i <= a.len() && object_members(j2) == Some(a.insert(i, e)),
        e.0@ != "completed"@ && e.0@ != "attempts"@ && e.0@ != "bestTimeMs"@ && e.0@ != "lastCompletedAt"@,
    ensures
        LevelProgress::decoded(j2) == LevelProgress::decoded(j1),
{
    lemma_insert_keeps_fields(object_members(j1).unwrap(), i, e);
}

} // verus!
