//! The schema codec: a profile document to and from a JSON tree. Decoding
//! fills the documented defaults for absent members and ignores members it
//! does not know; encoding leaves out optional members that are unset.

use vstd::prelude::*;
use crate::json::{field_of, get_field, lemma_field_absent, lemma_field_at, parse_json, parsed_json, pretty_json, trim, trimmed, write_json_pretty, JsonValue};
use crate::schema::{
    empty_store, entries_view, keys_unique, opt_text, upsert, upsert_spec, ClassRoom, ClassRoomView, GuestProfile,
    GuestProfileView, LevelProgress, LevelProgressView, ProfileStore, ProfileStoreView, StudentProfile,
    StudentProfileView, TeacherInfo, TeacherInfoView,
};

verus! {

/// Why a document could not be decoded.
#[derive(Debug, Clone, Copy, PartialEq, Eq)]
pub enum DecodeError {
    /// The text is not well-formed JSON.
    Syntax,
    /// A member is missing, or holds a value of the wrong type.
    Schema,
}

/// `r` is the executable counterpart of the decoding outcome `s`.
pub open spec fn decoded_as<T: View>(r: Option<T>, s: Option<T::V>) -> bool {
    match r {
        Some(x) => s == Some(x@),
        None => s.is_none(),
    }
}

/// A required string member.
pub open spec fn text_field(es: Seq<(String, JsonValue)>, key: Seq<char>) -> Option<Seq<char>> {
    match field_of(es, key) {
        Some(JsonValue::Str(s)) => Some(s@),
        _ => None,
    }
}

/// An optional string member: absent or `null` is unset.
pub open spec fn opt_text_field(es: Seq<(String, JsonValue)>, key: Seq<char>) -> Option<Option<Seq<char>>> {
    match field_of(es, key) {
        None => Some(None),
        Some(JsonValue::Null) => Some(None),
        Some(JsonValue::Str(s)) => Some(Some(s@)),
        _ => None,
    }
}

/// A boolean member that defaults to `d` when absent.
pub open spec fn bool_field(es: Seq<(String, JsonValue)>, key: Seq<char>, d: bool) -> Option<bool> {
    match field_of(es, key) {
        None => Some(d),
        Some(JsonValue::Bool(b)) => Some(b),
        _ => None,
    }
}

/// A `u32` member that defaults to `d` when absent.
pub open spec fn u32_field(es: Seq<(String, JsonValue)>, key: Seq<char>, d: u32) -> Option<u32> {
    match field_of(es, key) {
        None => Some(d),
        Some(JsonValue::Number(n)) => if n <= u32::MAX {
            Some(n as u32)
        } else {
            None
        },
        _ => None,
    }
}

/// An optional `u64` member: absent or `null` is unset.
pub open spec fn opt_u64_field(es: Seq<(String, JsonValue)>, key: Seq<char>) -> Option<Option<u64>> {
    match field_of(es, key) {
        None => Some(None),
        Some(JsonValue::Null) => Some(None),
        Some(JsonValue::Number(n)) => Some(Some(n)),
        _ => None,
    }
}

/// A keyed-collection member, given as a JSON object: absent is empty.
pub open spec fn members_field(es: Seq<(String, JsonValue)>, key: Seq<char>) -> Option<Seq<(String, JsonValue)>> {
    match field_of(es, key) {
        None => Some(Seq::empty()),
        Some(JsonValue::Object(m)) => Some(m@),
        _ => None,
    }
}

/// The members of a JSON object, if `j` is one.
pub open spec fn object_members(j: JsonValue) -> Option<Seq<(String, JsonValue)>> {
    match j {
        JsonValue::Object(m) => Some(m@),
        _ => None,
    }
}

/// Member `e` is `key` bound to the string `s`.
pub open spec fn text_member(e: (String, JsonValue), key: Seq<char>, s: Seq<char>) -> bool {
    &&& e.0@ == key
    &&& e.1 matches JsonValue::Str(x) && x@ == s
}

/// A record type of the document, with its JSON form.
pub trait JsonRecord: View + Sized {
    /// The record that JSON value `j` decodes to, if any.
    spec fn decoded(j: JsonValue) -> Option<Self::V>;

    /// `j` is the JSON form that encoding gives record `v`.
    spec fn encodes(j: JsonValue, v: Self::V) -> bool;

    fn from_json(j: &JsonValue) -> (r: Option<Self>)
        ensures
            decoded_as(r, Self::decoded(*j)),
    ;

    fn to_json(&self) -> (r: JsonValue)
        ensures
            Self::encodes(r, self@),
    ;
}

/// The keyed collection that an object's members decode to: members are
/// taken in order, and a repeated key replaces the earlier record.
pub open spec fn collection_of<T: JsonRecord>(es: Seq<(String, JsonValue)>) -> Option<Seq<(Seq<char>, T::V)>>
    decreases es.len(),
{
    if es.len() == 0 {
        Some(Seq::empty())
    } else {
        match (collection_of::<T>(es.drop_last()), T::decoded(es.last().1)) {
            (Some(m), Some(v)) => Some(upsert_spec(m, es.last().0@, v)),
            _ => None,
        }
    }
}

/// `es` are the members that encoding gives the keyed collection `s`: one
/// per entry, in order.
pub open spec fn encodes_collection<T: JsonRecord>(es: Seq<(String, JsonValue)>, s: Seq<(Seq<char>, T::V)>) -> bool {
    &&& es.len() == s.len()
    &&& forall|i: int| 0 <= i < es.len() ==> (#[trigger] es[i]).0@ == s[i].0 && T::encodes(es[i].1, s[i].1)
}

proof fn lemma_collection_prefix_fails<T: JsonRecord>(es: Seq<(String, JsonValue)>, i: int)
    requires
        0 <= i <= es.len(),
        collection_of::<T>(es.subrange(0, i)).is_none(),
    ensures
        collection_of::<T>(es).is_none(),
    decreases es.len() - i,
{
    if i < es.len() {
        assert(es.subrange(0, i + 1).drop_last() =~= es.subrange(0, i));
        lemma_collection_prefix_fails::<T>(es, i + 1);
    } else {
        assert(es.subrange(0, i) =~= es);
    }
}

/// One member that fails to decode makes the whole collection fail.
pub proof fn lemma_collection_member_fails<T: JsonRecord>(es: Seq<(String, JsonValue)>, k: int)
    requires
        0 <= k < es.len(),
        T::decoded(es[k].1).is_none(),
    ensures
        collection_of::<T>(es).is_none(),
{
    assert(es.subrange(0, k + 1).drop_last() =~= es.subrange(0, k));
    assert(es.subrange(0, k + 1).last() == es[k]);
    lemma_collection_prefix_fails::<T>(es, k + 1);
}

fn decode_collection<T: JsonRecord>(es: &Vec<(String, JsonValue)>) -> (r: Option<Vec<(String, T)>>)
    ensures
        match r {
            Some(v) => collection_of::<T>(es@) == Some(entries_view(v@)) && keys_unique(entries_view(v@)),
            None => collection_of::<T>(es@).is_none(),
        },
{
    let mut acc: Vec<(String, T)> = Vec::new();
    let mut i: usize = 0;
    assert(es@.subrange(0, 0) =~= Seq::<(String, JsonValue)>::empty());
    assert(entries_view(acc@) =~= Seq::empty());
    while i < es.len()
        invariant
            i <= es.len(),
            collection_of::<T>(es@.subrange(0, i as int)) == Some(entries_view(acc@)),
            keys_unique(entries_view(acc@)),
        decreases es.len() - i,
    {
        assert(es@.subrange(0, i + 1).drop_last() =~= es@.subrange(0, i as int));
        let v = match T::from_json(&es[i].1) {
            Some(v) => v,
            None => {
                proof {
                    lemma_collection_prefix_fails::<T>(es@, i + 1);
                }
                return None;
            },
        };
        upsert(&mut acc, es[i].0.clone(), v);
        i = i + 1;
    }
    assert(es@.subrange(0, i as int) =~= es@);
    Some(acc)
}

fn encode_collection<T: JsonRecord>(s: &Vec<(String, T)>) -> (r: JsonValue)
    ensures
        r matches JsonValue::Object(m) && encodes_collection::<T>(m@, entries_view(s@)),
{
    let mut m: Vec<(String, JsonValue)> = Vec::new();
    let mut i: usize = 0;
    while i < s.len()
        invariant
            i <= s.len(),
            m@.len() == i,
            forall|k: int| 0 <= k < i ==> (#[trigger] m@[k]).0@ == s@[k].0@ && T::encodes(m@[k].1, s@[k].1@),
        decreases s.len() - i,
    {
        let j = s[i].1.to_json();
        m.push((s[i].0.clone(), j));
        i = i + 1;
    }
    JsonValue::Object(m)
}

/// A keyed-collection member decoded as records of `T`.
pub open spec fn collection_field<T: JsonRecord>(es: Seq<(String, JsonValue)>, key: Seq<char>) -> Option<Seq<(Seq<char>, T::V)>> {
    match members_field(es, key) {
        Some(m) => collection_of::<T>(m),
        None => None,
    }
}

proof fn lemma_collection_round_trip<T: JsonRecord>(es: Seq<(String, JsonValue)>, s: Seq<(Seq<char>, T::V)>)
    requires
        encodes_collection::<T>(es, s),
        keys_unique(s),
        forall|i: int| 0 <= i < es.len() ==> T::decoded((#[trigger] es[i]).1) == Some(s[i].1),
    ensures
        collection_of::<T>(es) == Some(s),
    decreases es.len(),
{
    if es.len() > 0 {
        let n = es.len() - 1;
        assert(es.drop_last().len() == s.drop_last().len());
        assert forall|i: int| 0 <= i < es.drop_last().len() implies (#[trigger] es.drop_last()[i]).0@ == s.drop_last()[i].0
            && T::encodes(es.drop_last()[i].1, s.drop_last()[i].1) && T::decoded(es.drop_last()[i].1) == Some(s.drop_last()[i].1) by {
            assert(es[i] == es.drop_last()[i]);
        }
        lemma_collection_round_trip::<T>(es.drop_last(), s.drop_last());
        assert(es[n].0@ == s[n].0);
        assert(T::decoded(es[n].1) == Some(s[n].1));
        assert(!crate::schema::has_key(s.drop_last(), s[n].0));
        assert(s.drop_last().push((s[n].0, s[n].1)) =~= s);
    }
}

fn read_text(es: &Vec<(String, JsonValue)>, key: &str) -> (r: Option<String>)
    ensures
        decoded_as(r, text_field(es@, key@)),
{
    match get_field(es, key) {
        Some(JsonValue::Str(s)) => Some(s.clone()),
        _ => None,
    }
}

fn read_opt_text(es: &Vec<(String, JsonValue)>, key: &str) -> (r: Option<Option<String>>)
    ensures
        match r {
            Some(o) => opt_text_field(es@, key@) == Some(opt_text(o)),
            None => opt_text_field(es@, key@).is_none(),
        },
{
    match get_field(es, key) {
        None => Some(None),
        Some(JsonValue::Null) => Some(None),
        Some(JsonValue::Str(s)) => Some(Some(s.clone())),
        _ => None,
    }
}

fn read_bool(es: &Vec<(String, JsonValue)>, key: &str, d: bool) -> (r: Option<bool>)
    ensures
        r == bool_field(es@, key@, d),
{
    match get_field(es, key) {
        None => Some(d),
        Some(JsonValue::Bool(b)) => Some(*b),
        _ => None,
    }
}

fn read_u32(es: &Vec<(String, JsonValue)>, key: &str, d: u32) -> (r: Option<u32>)
    ensures
        r == u32_field(es@, key@, d),
{
    match get_field(es, key) {
        None => Some(d),
        Some(JsonValue::Number(n)) => if *n <= u32::MAX as u64 {
            Some(*n as u32)
        } else {
            None
        },
        _ => None,
    }
}

fn read_opt_u64(es: &Vec<(String, JsonValue)>, key: &str) -> (r: Option<Option<u64>>)
    ensures
        r == opt_u64_field(es@, key@),
{
    match get_field(es, key) {
        None => Some(None),
        Some(JsonValue::Null) => Some(None),
        Some(JsonValue::Number(n)) => Some(Some(*n)),
        _ => None,
    }
}

fn read_collection<T: JsonRecord>(es: &Vec<(String, JsonValue)>, key: &str) -> (r: Option<Vec<(String, T)>>)
    ensures
        match r {
            Some(v) => collection_field::<T>(es@, key@) == Some(entries_view(v@)) && keys_unique(entries_view(v@)),
            None => collection_field::<T>(es@, key@).is_none(),
        },
{
    match get_field(es, key) {
        None => {
            let v: Vec<(String, T)> = Vec::new();
            assert(entries_view(v@) =~= Seq::empty());
            Some(v)
        },
        Some(JsonValue::Object(m)) => decode_collection(m),
        _ => None,
    }
}

impl JsonRecord for LevelProgress {
    open spec fn decoded(j: JsonValue) -> Option<LevelProgressView> {
        match object_members(j) {
            Some(es) => {
                let completed = bool_field(es, "completed"@, false);
                let attempts = u32_field(es, "attempts"@, 0);
                let best = opt_u64_field(es, "bestTimeMs"@);
                let last = opt_text_field(es, "lastCompletedAt"@);
                if completed.is_some() && attempts.is_some() && best.is_some() && last.is_some() {
                    Some(LevelProgressView {
                        completed: completed.unwrap(),
                        attempts: attempts.unwrap(),
                        best_time_ms: best.unwrap(),
                        last_completed_at: last.unwrap(),
                    })
                } else {
                    None
                }
            },
            None => None,
        }
    }

    open spec fn encodes(j: JsonValue, p: LevelProgressView) -> bool {
        match object_members(j) {
            Some(es) => {
                let nb: int = if p.best_time_ms.is_some() { 1 } else { 0 };
                let nl: int = if p.last_completed_at.is_some() { 1 } else { 0 };
                &&& es.len() == 2 + nb + nl
                &&& es[0].0@ == "completed"@ && es[0].1 == JsonValue::Bool(p.completed)
                &&& es[1].0@ == "attempts"@ && es[1].1 == JsonValue::Number(p.attempts as u64)
                &&& (p.best_time_ms matches Some(b) ==> es[2].0@ == "bestTimeMs"@ && es[2].1 == JsonValue::Number(b))
                &&& (p.last_completed_at matches Some(t) ==> text_member(es[2 + nb], "lastCompletedAt"@, t))
            },
            None => false,
        }
    }

    fn from_json(j: &JsonValue) -> (r: Option<LevelProgress>) {
        match j {
            JsonValue::Object(es) => {
                let completed = read_bool(es, "completed", false)?;
                let attempts = read_u32(es, "attempts", 0)?;
                let best_time_ms = read_opt_u64(es, "bestTimeMs")?;
                let last_completed_at = read_opt_text(es, "lastCompletedAt")?;
                Some(LevelProgress { completed, attempts, best_time_ms, last_completed_at })
            },
            _ => None,
        }
    }

    fn to_json(&self) -> (r: JsonValue) {
        let mut m: Vec<(String, JsonValue)> = Vec::new();
        m.push(("completed".to_owned(), JsonValue::Bool(self.completed)));
        m.push(("attempts".to_owned(), JsonValue::Number(self.attempts as u64)));
        match self.best_time_ms {
            Some(b) => m.push(("bestTimeMs".to_owned(), JsonValue::Number(b))),
            None => {},
        }
        match &self.last_completed_at {
            Some(t) => m.push(("lastCompletedAt".to_owned(), JsonValue::Str(t.clone()))),
            None => {},
        }
        JsonValue::Object(m)
    }
}

proof fn lemma_level_round_trip(j: JsonValue, p: LevelProgressView)
    requires
        LevelProgress::encodes(j, p),
    ensures
        LevelProgress::decoded(j) == Some(p),
{
    reveal_strlit("completed");
    reveal_strlit("attempts");
    reveal_strlit("bestTimeMs");
    reveal_strlit("lastCompletedAt");
    assert("completed"@.len() == 9);
    assert("attempts"@.len() == 8);
    assert("bestTimeMs"@.len() == 10);
    assert("lastCompletedAt"@.len() == 15);
    let es = object_members(j).unwrap();
    let nb: int = if p.best_time_ms.is_some() { 1 } else { 0 };
    assert forall|k: int| 0 <= k < es.len() implies {
        let key = (#[trigger] es[k]).0@;
        &&& (k == 0) == (key == "completed"@)
        &&& (k == 1) == (key == "attempts"@)
        &&& (p.best_time_ms.is_some() && k == 2) == (key == "bestTimeMs"@)
        &&& (p.last_completed_at.is_some() && k == 2 + nb) == (key == "lastCompletedAt"@)
    } by {
        if k == 0 {
        } else if k == 1 {
        } else if p.best_time_ms.is_some() && k == 2 {
        } else {
        }
    }
    lemma_field_at(es, 0, "completed"@);
    lemma_field_at(es, 1, "attempts"@);
    if p.best_time_ms.is_some() {
        lemma_field_at(es, 2, "bestTimeMs"@);
    } else {
        lemma_field_absent(es, "bestTimeMs"@);
    }
    if p.last_completed_at.is_some() {
        lemma_field_at(es, 2 + nb, "lastCompletedAt"@);
    } else {
        lemma_field_absent(es, "lastCompletedAt"@);
    }
}

/// Length and first character of each member name, which tell the names of
/// one record apart.
proof fn lemma_key_facts()
    ensures
        "id"@.len() == 2 && "id"@[0] == 'i',
        "nickname"@.len() == 8 && "nickname"@[0] == 'n',
        "avatarId"@.len() == 8 && "avatarId"@[0] == 'a',
        "progress"@.len() == 8 && "progress"@[0] == 'p',
        "createdAt"@.len() == 9 && "createdAt"@[0] == 'c',
        "updatedAt"@.len() == 9 && "updatedAt"@[0] == 'u',
        "classId"@.len() == 7 && "classId"@[0] == 'c',
        "joinedAt"@.len() == 8 && "joinedAt"@[0] == 'j',
        "lastSyncAt"@.len() == 10 && "lastSyncAt"@[0] == 'l',
        "teacher"@.len() == 7 && "teacher"@[0] == 't',
        "title"@.len() == 5 && "title"@[0] == 't',
        "students"@.len() == 8 && "students"@[0] == 's',
        "version"@.len() == 7 && "version"@[0] == 'v',
        "guests"@.len() == 6 && "guests"@[0] == 'g',
        "classes"@.len() == 7 && "classes"@[0] == 'c',
{
    reveal_strlit("id");
    reveal_strlit("nickname");
    reveal_strlit("avatarId");
    reveal_strlit("progress");
    reveal_strlit("createdAt");
    reveal_strlit("updatedAt");
    reveal_strlit("classId");
    reveal_strlit("joinedAt");
    reveal_strlit("lastSyncAt");
    reveal_strlit("teacher");
    reveal_strlit("title");
    reveal_strlit("students");
    reveal_strlit("version");
    reveal_strlit("guests");
    reveal_strlit("classes");
}

/// `j` is an object whose members `m` encode the keyed collection `s`.
pub open spec fn encodes_collection_value<T: JsonRecord>(j: JsonValue, s: Seq<(Seq<char>, T::V)>) -> bool {
    j matches JsonValue::Object(m) && encodes_collection::<T>(m@, s)
}

impl JsonRecord for GuestProfile {
    open spec fn decoded(j: JsonValue) -> Option<GuestProfileView> {
        match object_members(j) {
            Some(es) => {
                let id = text_field(es, "id"@);
                let nickname = text_field(es, "nickname"@);
                let avatar_id = text_field(es, "avatarId"@);
                let progress = collection_field::<LevelProgress>(es, "progress"@);
                let created_at = text_field(es, "createdAt"@);
                let updated_at = text_field(es, "updatedAt"@);
                if id.is_some() && nickname.is_some() && avatar_id.is_some() && progress.is_some()
                    && created_at.is_some() && updated_at.is_some() {
                    Some(GuestProfileView {
                        id: id.unwrap(),
                        nickname: nickname.unwrap(),
                        avatar_id: avatar_id.unwrap(),
                        progress: progress.unwrap(),
                        created_at: created_at.unwrap(),
                        updated_at: updated_at.unwrap(),
                    })
                } else {
                    None
                }
            },
            None => None,
        }
    }

    open spec fn encodes(j: JsonValue, g: GuestProfileView) -> bool {
        match object_members(j) {
            Some(es) => {
                &&& es.len() == 6
                &&& text_member(es[0], "id"@, g.id)
                &&& text_member(es[1], "nickname"@, g.nickname)
                &&& text_member(es[2], "avatarId"@, g.avatar_id)
                &&& es[3].0@ == "progress"@ && encodes_collection_value::<LevelProgress>(es[3].1, g.progress)
                &&& text_member(es[4], "createdAt"@, g.created_at)
                &&& text_member(es[5], "updatedAt"@, g.updated_at)
            },
            None => false,
        }
    }

    fn from_json(j: &JsonValue) -> (r: Option<GuestProfile>) {
        match j {
            JsonValue::Object(es) => {
                let id = read_text(es, "id")?;
                let nickname = read_text(es, "nickname")?;
                let avatar_id = read_text(es, "avatarId")?;
                let progress = read_collection(es, "progress")?;
                let created_at = read_text(es, "createdAt")?;
                let updated_at = read_text(es, "updatedAt")?;
                Some(GuestProfile { id, nickname, avatar_id, progress, created_at, updated_at })
            },
            _ => None,
        }
    }

    fn to_json(&self) -> (r: JsonValue) {
        let mut m: Vec<(String, JsonValue)> = Vec::new();
        m.push(("id".to_owned(), JsonValue::Str(self.id.clone())));
        m.push(("nickname".to_owned(), JsonValue::Str(self.nickname.clone())));
        m.push(("avatarId".to_owned(), JsonValue::Str(self.avatar_id.clone())));
        m.push(("progress".to_owned(), encode_collection(&self.progress)));
        m.push(("createdAt".to_owned(), JsonValue::Str(self.created_at.clone())));
        m.push(("updatedAt".to_owned(), JsonValue::Str(self.updated_at.clone())));
        JsonValue::Object(m)
    }
}

proof fn lemma_progress_round_trip(j: JsonValue, s: Seq<(Seq<char>, LevelProgressView)>)
    requires
        encodes_collection_value::<LevelProgress>(j, s),
        keys_unique(s),
    ensures
        j matches JsonValue::Object(m) && collection_of::<LevelProgress>(m@) == Some(s),
{
    let m = object_members(j).unwrap();
    assert forall|i: int| 0 <= i < m.len() implies LevelProgress::decoded((#[trigger] m[i]).1) == Some(s[i].1) by {
        lemma_level_round_trip(m[i].1, s[i].1);
    }
    lemma_collection_round_trip::<LevelProgress>(m, s);
}

proof fn lemma_guest_round_trip(j: JsonValue, g: GuestProfileView)
    requires
        GuestProfile::encodes(j, g),
        g.wf(),
    ensures
        GuestProfile::decoded(j) == Some(g),
{
    lemma_key_facts();
    let es = object_members(j).unwrap();
    assert forall|k: int| 0 <= k < es.len() implies {
        let key = (#[trigger] es[k]).0@;
        &&& (k == 0) == (key == "id"@)
        &&& (k == 1) == (key == "nickname"@)
        &&& (k == 2) == (key == "avatarId"@)
        &&& (k == 3) == (key == "progress"@)
        &&& (k == 4) == (key == "createdAt"@)
        &&& (k == 5) == (key == "updatedAt"@)
    } by {
    }
    lemma_field_at(es, 0, "id"@);
    lemma_field_at(es, 1, "nickname"@);
    lemma_field_at(es, 2, "avatarId"@);
    lemma_field_at(es, 3, "progress"@);
    lemma_field_at(es, 4, "createdAt"@);
    lemma_field_at(es, 5, "updatedAt"@);
    lemma_progress_round_trip(es[3].1, g.progress);
}

/// A required member that is itself a record.
pub open spec fn record_field<T: JsonRecord>(es: Seq<(String, JsonValue)>, key: Seq<char>) -> Option<T::V> {
    match field_of(es, key) {
        Some(j) => T::decoded(j),
        None => None,
    }
}

fn read_record<T: JsonRecord>(es: &Vec<(String, JsonValue)>, key: &str) -> (r: Option<T>)
    ensures
        decoded_as(r, record_field::<T>(es@, key@)),
{
    match get_field(es, key) {
        Some(j) => T::from_json(j),
        None => None,
    }
}

impl JsonRecord for StudentProfile {
    open spec fn decoded(j: JsonValue) -> Option<StudentProfileView> {
        match object_members(j) {
            Some(es) => {
                let id = text_field(es, "id"@);
                let nickname = text_field(es, "nickname"@);
                let avatar_id = text_field(es, "avatarId"@);
                let class_id = text_field(es, "classId"@);
                let progress = collection_field::<LevelProgress>(es, "progress"@);
                let joined_at = text_field(es, "joinedAt"@);
                let last_sync_at = text_field(es, "lastSyncAt"@);
                if id.is_some() && nickname.is_some() && avatar_id.is_some() && class_id.is_some()
                    && progress.is_some() && joined_at.is_some() && last_sync_at.is_some() {
                    Some(StudentProfileView {
                        id: id.unwrap(),
                        nickname: nickname.unwrap(),
                        avatar_id: avatar_id.unwrap(),
                        class_id: class_id.unwrap(),
                        progress: progress.unwrap(),
                        joined_at: joined_at.unwrap(),
                        last_sync_at: last_sync_at.unwrap(),
                    })
                } else {
                    None
                }
            },
            None => None,
        }
    }

    open spec fn encodes(j: JsonValue, t: StudentProfileView) -> bool {
        match object_members(j) {
            Some(es) => {
                &&& es.len() == 7
                &&& text_member(es[0], "id"@, t.id)
                &&& text_member(es[1], "nickname"@, t.nickname)
                &&& text_member(es[2], "avatarId"@, t.avatar_id)
                &&& text_member(es[3], "classId"@, t.class_id)
                &&& es[4].0@ == "progress"@ && encodes_collection_value::<LevelProgress>(es[4].1, t.progress)
                &&& text_member(es[5], "joinedAt"@, t.joined_at)
                &&& text_member(es[6], "lastSyncAt"@, t.last_sync_at)
            },
            None => false,
        }
    }

    fn from_json(j: &JsonValue) -> (r: Option<StudentProfile>) {
        match j {
            JsonValue::Object(es) => {
                let id = read_text(es, "id")?;
                let nickname = read_text(es, "nickname")?;
                let avatar_id = read_text(es, "avatarId")?;
                let class_id = read_text(es, "classId")?;
                let progress = read_collection(es, "progress")?;
                let joined_at = read_text(es, "joinedAt")?;
                let last_sync_at = read_text(es, "lastSyncAt")?;
                Some(StudentProfile { id, nickname, avatar_id, class_id, progress, joined_at, last_sync_at })
            },
            _ => None,
        }
    }

    fn to_json(&self) -> (r: JsonValue) {
        let mut m: Vec<(String, JsonValue)> = Vec::new();
        m.push(("id".to_owned(), JsonValue::Str(self.id.clone())));
        m.push(("nickname".to_owned(), JsonValue::Str(self.nickname.clone())));
        m.push(("avatarId".to_owned(), JsonValue::Str(self.avatar_id.clone())));
        m.push(("classId".to_owned(), JsonValue::Str(self.class_id.clone())));
        m.push(("progress".to_owned(), encode_collection(&self.progress)));
        m.push(("joinedAt".to_owned(), JsonValue::Str(self.joined_at.clone())));
        m.push(("lastSyncAt".to_owned(), JsonValue::Str(self.last_sync_at.clone())));
        JsonValue::Object(m)
    }
}

proof fn lemma_student_round_trip(j: JsonValue, t: StudentProfileView)
    requires
        StudentProfile::encodes(j, t),
        t.wf(),
    ensures
        StudentProfile::decoded(j) == Some(t),
{
    lemma_key_facts();
    let es = object_members(j).unwrap();
    assert forall|k: int| 0 <= k < es.len() implies {
        let key = (#[trigger] es[k]).0@;
        &&& (k == 0) == (key == "id"@)
        &&& (k == 1) == (key == "nickname"@)
        &&& (k == 2) == (key == "avatarId"@)
        &&& (k == 3) == (key == "classId"@)
        &&& (k == 4) == (key == "progress"@)
        &&& (k == 5) == (key == "joinedAt"@)
        &&& (k == 6) == (key == "lastSyncAt"@)
    } by {
    }
    lemma_field_at(es, 0, "id"@);
    lemma_field_at(es, 1, "nickname"@);
    lemma_field_at(es, 2, "avatarId"@);
    lemma_field_at(es, 3, "classId"@);
    lemma_field_at(es, 4, "progress"@);
    lemma_field_at(es, 5, "joinedAt"@);
    lemma_field_at(es, 6, "lastSyncAt"@);
    lemma_progress_round_trip(es[4].1, t.progress);
}

impl JsonRecord for TeacherInfo {
    open spec fn decoded(j: JsonValue) -> Option<TeacherInfoView> {
        match object_members(j) {
            Some(es) => {
                let id = text_field(es, "id"@);
                let nickname = text_field(es, "nickname"@);
                let avatar_id = text_field(es, "avatarId"@);
                let created_at = text_field(es, "createdAt"@);
                if id.is_some() && nickname.is_some() && avatar_id.is_some() && created_at.is_some() {
                    Some(TeacherInfoView {
                        id: id.unwrap(),
                        nickname: nickname.unwrap(),
                        avatar_id: avatar_id.unwrap(),
                        created_at: created_at.unwrap(),
                    })
                } else {
                    None
                }
            },
            None => None,
        }
    }

    open spec fn encodes(j: JsonValue, t: TeacherInfoView) -> bool {
        match object_members(j) {
            Some(es) => {
                &&& es.len() == 4
                &&& text_member(es[0], "id"@, t.id)
                &&& text_member(es[1], "nickname"@, t.nickname)
                &&& text_member(es[2], "avatarId"@, t.avatar_id)
                &&& text_member(es[3], "createdAt"@, t.created_at)
            },
            None => false,
        }
    }

    fn from_json(j: &JsonValue) -> (r: Option<TeacherInfo>) {
        match j {
            JsonValue::Object(es) => {
                let id = read_text(es, "id")?;
                let nickname = read_text(es, "nickname")?;
                let avatar_id = read_text(es, "avatarId")?;
                let created_at = read_text(es, "createdAt")?;
                Some(TeacherInfo { id, nickname, avatar_id, created_at })
            },
            _ => None,
        }
    }

    fn to_json(&self) -> (r: JsonValue) {
        let mut m: Vec<(String, JsonValue)> = Vec::new();
        m.push(("id".to_owned(), JsonValue::Str(self.id.clone())));
        m.push(("nickname".to_owned(), JsonValue::Str(self.nickname.clone())));
        m.push(("avatarId".to_owned(), JsonValue::Str(self.avatar_id.clone())));
        m.push(("createdAt".to_owned(), JsonValue::Str(self.created_at.clone())));
        JsonValue::Object(m)
    }
}

proof fn lemma_teacher_round_trip(j: JsonValue, t: TeacherInfoView)
    requires
        TeacherInfo::encodes(j, t),
    ensures
        TeacherInfo::decoded(j) == Some(t),
{
    lemma_key_facts();
    let es = object_members(j).unwrap();
    assert forall|k: int| 0 <= k < es.len() implies {
        let key = (#[trigger] es[k]).0@;
        &&& (k == 0) == (key == "id"@)
        &&& (k == 1) == (key == "nickname"@)
        &&& (k == 2) == (key == "avatarId"@)
        &&& (k == 3) == (key == "createdAt"@)
    } by {
    }
    lemma_field_at(es, 0, "id"@);
    lemma_field_at(es, 1, "nickname"@);
    lemma_field_at(es, 2, "avatarId"@);
    lemma_field_at(es, 3, "createdAt"@);
}

impl JsonRecord for ClassRoom {
    open spec fn decoded(j: JsonValue) -> Option<ClassRoomView> {
        match object_members(j) {
            Some(es) => {
                let id = text_field(es, "id"@);
                let teacher = record_field::<TeacherInfo>(es, "teacher"@);
                let title = opt_text_field(es, "title"@);
                let students = collection_field::<StudentProfile>(es, "students"@);
                let created_at = text_field(es, "createdAt"@);
                let updated_at = text_field(es, "updatedAt"@);
                if id.is_some() && teacher.is_some() && title.is_some() && students.is_some()
                    && created_at.is_some() && updated_at.is_some() {
                    Some(ClassRoomView {
                        id: id.unwrap(),
                        teacher: teacher.unwrap(),
                        title: title.unwrap(),
                        students: students.unwrap(),
                        created_at: created_at.unwrap(),
                        updated_at: updated_at.unwrap(),
                    })
                } else {
                    None
                }
            },
            None => None,
        }
    }

    open spec fn encodes(j: JsonValue, c: ClassRoomView) -> bool {
        match object_members(j) {
            Some(es) => {
                let nt: int = if c.title.is_some() { 1 } else { 0 };
                &&& es.len() == 5 + nt
                &&& text_member(es[0], "id"@, c.id)
                &&& es[1].0@ == "teacher"@ && TeacherInfo::encodes(es[1].1, c.teacher)
                &&& (c.title matches Some(t) ==> text_member(es[2], "title"@, t))
                &&& es[2 + nt].0@ == "students"@
                &&& encodes_collection_value::<StudentProfile>(es[2 + nt].1, c.students)
                &&& text_member(es[3 + nt], "createdAt"@, c.created_at)
                &&& text_member(es[4 + nt], "updatedAt"@, c.updated_at)
            },
            None => false,
        }
    }

    fn from_json(j: &JsonValue) -> (r: Option<ClassRoom>) {
        match j {
            JsonValue::Object(es) => {
                let id = read_text(es, "id")?;
                let teacher = read_record(es, "teacher")?;
                let title = read_opt_text(es, "title")?;
                let students = read_collection(es, "students")?;
                let created_at = read_text(es, "createdAt")?;
                let updated_at = read_text(es, "updatedAt")?;
                Some(ClassRoom { id, teacher, title, students, created_at, updated_at })
            },
            _ => None,
        }
    }

    fn to_json(&self) -> (r: JsonValue) {
        let mut m: Vec<(String, JsonValue)> = Vec::new();
        m.push(("id".to_owned(), JsonValue::Str(self.id.clone())));
        m.push(("teacher".to_owned(), self.teacher.to_json()));
        match &self.title {
            Some(t) => m.push(("title".to_owned(), JsonValue::Str(t.clone()))),
            None => {},
        }
        m.push(("students".to_owned(), encode_collection(&self.students)));
        m.push(("createdAt".to_owned(), JsonValue::Str(self.created_at.clone())));
        m.push(("updatedAt".to_owned(), JsonValue::Str(self.updated_at.clone())));
        JsonValue::Object(m)
    }
}

proof fn lemma_class_round_trip(j: JsonValue, c: ClassRoomView)
    requires
        ClassRoom::encodes(j, c),
        c.wf(),
    ensures
        ClassRoom::decoded(j) == Some(c),
{
    lemma_key_facts();
    let es = object_members(j).unwrap();
    let nt: int = if c.title.is_some() { 1 } else { 0 };
    assert forall|k: int| 0 <= k < es.len() implies {
        let key = (#[trigger] es[k]).0@;
        &&& (k == 0) == (key == "id"@)
        &&& (k == 1) == (key == "teacher"@)
        &&& (c.title.is_some() && k == 2) == (key == "title"@)
        &&& (k == 2 + nt) == (key == "students"@)
        &&& (k == 3 + nt) == (key == "createdAt"@)
        &&& (k == 4 + nt) == (key == "updatedAt"@)
    } by {
    }
    lemma_field_at(es, 0, "id"@);
    lemma_field_at(es, 1, "teacher"@);
    if c.title.is_some() {
        lemma_field_at(es, 2, "title"@);
    } else {
        lemma_field_absent(es, "title"@);
    }
    lemma_field_at(es, 2 + nt, "students"@);
    lemma_field_at(es, 3 + nt, "createdAt"@);
    lemma_field_at(es, 4 + nt, "updatedAt"@);
    lemma_teacher_round_trip(es[1].1, c.teacher);
    let m = object_members(es[2 + nt].1).unwrap();
    assert forall|i: int| 0 <= i < m.len() implies StudentProfile::decoded((#[trigger] m[i]).1) == Some(c.students[i].1) by {
        lemma_student_round_trip(m[i].1, c.students[i].1);
    }
    lemma_collection_round_trip::<StudentProfile>(m, c.students);
}

impl JsonRecord for ProfileStore {
    open spec fn decoded(j: JsonValue) -> Option<ProfileStoreView> {
        match object_members(j) {
            Some(es) => {
                let version = u32_field(es, "version"@, 1);
                let guests = collection_field::<GuestProfile>(es, "guests"@);
                let classes = collection_field::<ClassRoom>(es, "classes"@);
                if version.is_some() && guests.is_some() && classes.is_some() {
                    Some(ProfileStoreView {
                        version: version.unwrap(),
                        guests: guests.unwrap(),
                        classes: classes.unwrap(),
                    })
                } else {
                    None
                }
            },
            None => None,
        }
    }

    open spec fn encodes(j: JsonValue, s: ProfileStoreView) -> bool {
        match object_members(j) {
            Some(es) => {
                &&& es.len() == 3
                &&& es[0].0@ == "version"@ && es[0].1 == JsonValue::Number(s.version as u64)
                &&& es[1].0@ == "guests"@ && encodes_collection_value::<GuestProfile>(es[1].1, s.guests)
                &&& es[2].0@ == "classes"@ && encodes_collection_value::<ClassRoom>(es[2].1, s.classes)
            },
            None => false,
        }
    }

    fn from_json(j: &JsonValue) -> (r: Option<ProfileStore>) {
        match j {
            JsonValue::Object(es) => {
                let version = read_u32(es, "version", crate::schema::default_version())?;
                let guests = read_collection(es, "guests")?;
                let classes = read_collection(es, "classes")?;
                Some(ProfileStore { version, guests, classes })
            },
            _ => None,
        }
    }

    fn to_json(&self) -> (r: JsonValue) {
        let mut m: Vec<(String, JsonValue)> = Vec::new();
        m.push(("version".to_owned(), JsonValue::Number(self.version as u64)));
        m.push(("guests".to_owned(), encode_collection(&self.guests)));
        m.push(("classes".to_owned(), encode_collection(&self.classes)));
        JsonValue::Object(m)
    }
}

/// Decoding the tree that encoding gives a well-formed document yields that
/// document again.
pub proof fn lemma_store_round_trip(j: JsonValue, s: ProfileStoreView)
    requires
        ProfileStore::encodes(j, s),
        s.wf(),
    ensures
        ProfileStore::decoded(j) == Some(s),
{
    lemma_key_facts();
    let es = object_members(j).unwrap();
    assert forall|k: int| 0 <= k < es.len() implies {
        let key = (#[trigger] es[k]).0@;
        &&& (k == 0) == (key == "version"@)
        &&& (k == 1) == (key == "guests"@)
        &&& (k == 2) == (key == "classes"@)
    } by {
    }
    lemma_field_at(es, 0, "version"@);
    lemma_field_at(es, 1, "guests"@);
    lemma_field_at(es, 2, "classes"@);
    let gs = object_members(es[1].1).unwrap();
    assert forall|i: int| 0 <= i < gs.len() implies GuestProfile::decoded((#[trigger] gs[i]).1) == Some(s.guests[i].1) by {
        lemma_guest_round_trip(gs[i].1, s.guests[i].1);
    }
    lemma_collection_round_trip::<GuestProfile>(gs, s.guests);
    let cs = object_members(es[2].1).unwrap();
    assert forall|i: int| 0 <= i < cs.len() implies ClassRoom::decoded((#[trigger] cs[i]).1) == Some(s.classes[i].1) by {
        lemma_class_round_trip(cs[i].1, s.classes[i].1);
    }
    lemma_collection_round_trip::<ClassRoom>(cs, s.classes);
}

/// What decoding a tree gives: the document, or `Schema` where a member is
/// missing or of the wrong type.
pub open spec fn tree_decoding(j: JsonValue) -> Result<ProfileStoreView, DecodeError> {
    match ProfileStore::decoded(j) {
        Some(s) => Ok(s),
        None => Err(DecodeError::Schema),
    }
}

/// What decoding a text gives: blank text is the empty document, text that
/// does not parse is a `Syntax` error, and a parsed tree decodes as above.
pub open spec fn text_decoding(text: Seq<char>) -> Result<ProfileStoreView, DecodeError> {
    if trimmed(text).len() == 0 {
        Ok(empty_store())
    } else {
        match parsed_json(text) {
            Some(j) => tree_decoding(j),
            None => Err(DecodeError::Syntax),
        }
    }
}

/// `r` is the executable counterpart of the decoding outcome `s`.
pub open spec fn result_as(r: Result<ProfileStore, DecodeError>, s: Result<ProfileStoreView, DecodeError>) -> bool {
    match r {
        Ok(x) => s == Ok::<ProfileStoreView, DecodeError>(x@),
        Err(e) => s == Err::<ProfileStoreView, DecodeError>(e),
    }
}

/// Decodes a document from a parsed JSON tree, filling defaults for absent
/// members and ignoring members it does not know.
pub fn decode_tree(j: &JsonValue) -> (r: Result<ProfileStore, DecodeError>)
    ensures
        result_as(r, tree_decoding(*j)),
        r matches Ok(s) ==> s@.wf(),
{
    proof {
        if ProfileStore::decoded(*j).is_some() {
            lemma_decoded_store_wf(*j);
        }
    }
    match ProfileStore::from_json(j) {
        Some(s) => Ok(s),
        None => Err(DecodeError::Schema),
    }
}

/// Decodes a document from its text. Blank text stands for a store that
/// does not exist yet and gives the empty document.
pub fn decode(text: &str) -> (r: Result<ProfileStore, DecodeError>)
    ensures
        result_as(r, text_decoding(text@)),
        r matches Ok(s) ==> s@.wf(),
{
    if trim(text).is_empty() {
        return Ok(ProfileStore::default());
    }
    match parse_json(text) {
        Some(j) => decode_tree(&j),
        None => Err(DecodeError::Syntax),
    }
}

/// Encodes a document as a JSON tree; optional members that are unset are
/// left out.
pub fn encode_tree(s: &ProfileStore) -> (r: JsonValue)
    ensures
        ProfileStore::encodes(r, s@),
{
    s.to_json()
}

/// Encodes a document as pretty-printed JSON text.
pub fn encode(s: &ProfileStore) -> (r: String)
    ensures
        exists|t: JsonValue| ProfileStore::encodes(t, s@) && r@ == pretty_json(t),
{
    let t = encode_tree(s);
    write_json_pretty(&t)
}

proof fn lemma_upsert_keeps_unique<V>(m: Seq<(Seq<char>, V)>, k: Seq<char>, v: V)
    requires
        keys_unique(m),
    ensures
        keys_unique(upsert_spec(m, k, v)),
{
    let r = upsert_spec(m, k, v);
    if crate::schema::has_key(m, k) {
        let c = choose|i: int| 0 <= i < m.len() && m[i].0 == k;
        assert forall|a: int, b: int| 0 <= a < b < r.len() implies r[a].0 != r[b].0 by {
            assert(m[a].0 != m[b].0);
        }
    } else {
        assert forall|a: int, b: int| 0 <= a < b < r.len() implies r[a].0 != r[b].0 by {
            if b < m.len() {
                assert(m[a].0 != m[b].0);
            }
        }
    }
}

/// A decoded collection has unique keys, and each of its records is what
/// some member decodes to.
proof fn lemma_collection_values<T: JsonRecord>(es: Seq<(String, JsonValue)>, s: Seq<(Seq<char>, T::V)>)
    requires
        collection_of::<T>(es) == Some(s),
    ensures
        keys_unique(s),
        forall|i: int| 0 <= i < s.len() ==> exists|k: int| 0 <= k < es.len() && T::decoded(es[k].1) == Some(#[trigger] s[i].1),
    decreases es.len(),
{
    if es.len() > 0 {
        let n = es.len() - 1;
        let m = collection_of::<T>(es.drop_last()).unwrap();
        let v = T::decoded(es[n].1).unwrap();
        lemma_collection_values::<T>(es.drop_last(), m);
        lemma_upsert_keeps_unique(m, es[n].0@, v);
        assert forall|i: int| 0 <= i < s.len() implies exists|k: int| 0 <= k < es.len() && T::decoded(es[k].1) == Some(#[trigger] s[i].1) by {
            if i < m.len() && s[i].1 == m[i].1 {
                let k = choose|k: int| 0 <= k < es.drop_last().len() && T::decoded(es.drop_last()[k].1) == Some(m[i].1);
                assert(es.drop_last()[k] == es[k]);
            } else {
                assert(T::decoded(es[n].1) == Some(s[i].1));
            }
        }
    } else {
        assert(s =~= Seq::<(Seq<char>, T::V)>::empty());
    }
}

proof fn lemma_decoded_progress_unique(es: Seq<(String, JsonValue)>)
    requires
        collection_field::<LevelProgress>(es, "progress"@).is_some(),
    ensures
        keys_unique(collection_field::<LevelProgress>(es, "progress"@).unwrap()),
{
    let pm = members_field(es, "progress"@).unwrap();
    lemma_collection_values::<LevelProgress>(pm, collection_of::<LevelProgress>(pm).unwrap());
}

/// Every document that decoding yields has unique keys in each of its
/// keyed collections, at every depth.
pub proof fn lemma_decoded_store_wf(j: JsonValue)
    requires
        ProfileStore::decoded(j).is_some(),
    ensures
        ProfileStore::decoded(j).unwrap().wf(),
{
    let s = ProfileStore::decoded(j).unwrap();
    let es = object_members(j).unwrap();
    let gm = members_field(es, "guests"@).unwrap();
    let cm = members_field(es, "classes"@).unwrap();
    lemma_collection_values::<GuestProfile>(gm, s.guests);
    lemma_collection_values::<ClassRoom>(cm, s.classes);
    assert forall|i: int| 0 <= i < s.guests.len() implies (#[trigger] s.guests[i]).1.wf() by {
        let k = choose|k: int| 0 <= k < gm.len() && GuestProfile::decoded(gm[k].1) == Some(s.guests[i].1);
        lemma_decoded_progress_unique(object_members(gm[k].1).unwrap());
    }
    assert forall|i: int| 0 <= i < s.classes.len() implies (#[trigger] s.classes[i]).1.wf() by {
        let c = s.classes[i].1;
        let k = choose|k: int| 0 <= k < cm.len() && ClassRoom::decoded(cm[k].1) == Some(c);
        let ces = object_members(cm[k].1).unwrap();
        let sm = members_field(ces, "students"@).unwrap();
        lemma_collection_values::<StudentProfile>(sm, c.students);
        assert forall|t: int| 0 <= t < c.students.len() implies (#[trigger] c.students[t]).1.wf() by {
            let q = choose|q: int| 0 <= q < sm.len() && StudentProfile::decoded(sm[q].1) == Some(c.students[t].1);
            lemma_decoded_progress_unique(object_members(sm[q].1).unwrap());
        }
    }
}

} // verus!
