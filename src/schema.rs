//! The profile document: its types, their mathematical views, and the keyed
//! collections (member id to record) they are built from.

use vstd::prelude::*;

verus! {

/// Per-level completion record.
#[derive(Debug, Clone, PartialEq, Eq)]
pub struct LevelProgress {
    pub completed: bool,
    pub attempts: u32,
    pub best_time_ms: Option<u64>,
    pub last_completed_at: Option<String>,
}

/// An anonymous local player.
#[derive(Debug, Clone, PartialEq, Eq)]
pub struct GuestProfile {
    pub id: String,
    pub nickname: String,
    pub avatar_id: String,
    pub progress: Vec<(String, LevelProgress)>,
    pub created_at: String,
    pub updated_at: String,
}

/// A player enrolled in a classroom.
#[derive(Debug, Clone, PartialEq, Eq)]
pub struct StudentProfile {
    pub id: String,
    pub nickname: String,
    pub avatar_id: String,
    pub class_id: String,
    pub progress: Vec<(String, LevelProgress)>,
    pub joined_at: String,
    pub last_sync_at: String,
}

/// The teacher who owns a classroom.
#[derive(Debug, Clone, PartialEq, Eq)]
pub struct TeacherInfo {
    pub id: String,
    pub nickname: String,
    pub avatar_id: String,
    pub created_at: String,
}

/// A classroom with its teacher and its students.
#[derive(Debug, Clone, PartialEq, Eq)]
pub struct ClassRoom {
    pub id: String,
    pub teacher: TeacherInfo,
    pub title: Option<String>,
    pub students: Vec<(String, StudentProfile)>,
    pub created_at: String,
    pub updated_at: String,
}

/// The root document: guests and classrooms, each keyed by identifier.
#[derive(Debug, Clone, PartialEq, Eq)]
pub struct ProfileStore {
    pub version: u32,
    pub guests: Vec<(String, GuestProfile)>,
    pub classes: Vec<(String, ClassRoom)>,
}

pub struct LevelProgressView {
    pub completed: bool,
    pub attempts: u32,
    pub best_time_ms: Option<u64>,
    pub last_completed_at: Option<Seq<char>>,
}

pub struct GuestProfileView {
    pub id: Seq<char>,
    pub nickname: Seq<char>,
    pub avatar_id: Seq<char>,
    pub progress: Seq<(Seq<char>, LevelProgressView)>,
    pub created_at: Seq<char>,
    pub updated_at: Seq<char>,
}

pub struct StudentProfileView {
    pub id: Seq<char>,
    pub nickname: Seq<char>,
    pub avatar_id: Seq<char>,
    pub class_id: Seq<char>,
    pub progress: Seq<(Seq<char>, LevelProgressView)>,
    pub joined_at: Seq<char>,
    pub last_sync_at: Seq<char>,
}

pub struct TeacherInfoView {
    pub id: Seq<char>,
    pub nickname: Seq<char>,
    pub avatar_id: Seq<char>,
    pub created_at: Seq<char>,
}

pub struct ClassRoomView {
    pub id: Seq<char>,
    pub teacher: TeacherInfoView,
    pub title: Option<Seq<char>>,
    pub students: Seq<(Seq<char>, StudentProfileView)>,
    pub created_at: Seq<char>,
    pub updated_at: Seq<char>,
}

pub struct ProfileStoreView {
    pub version: u32,
    pub guests: Seq<(Seq<char>, GuestProfileView)>,
    pub classes: Seq<(Seq<char>, ClassRoomView)>,
}

pub open spec fn opt_text(o: Option<String>) -> Option<Seq<char>> {
    match o {
        Some(s) => Some(s@),
        None => None,
    }
}

/// A keyed collection seen as its sequence of (key, record view) pairs.
pub open spec fn entries_view<V: View>(s: Seq<(String, V)>) -> Seq<(Seq<char>, V::V)> {
    s.map_values(|e: (String, V)| (e.0@, e.1@))
}

/// No key occurs twice.
pub open spec fn keys_unique<V>(s: Seq<(Seq<char>, V)>) -> bool {
    forall|i: int, j: int| 0 <= i < j < s.len() ==> s[i].0 != s[j].0
}

pub open spec fn has_key<V>(s: Seq<(Seq<char>, V)>, k: Seq<char>) -> bool {
    exists|i: int| 0 <= i < s.len() && s[i].0 == k
}

/// The collection with `k` bound to `v`: an existing entry for `k` is
/// replaced in place, otherwise the entry is appended.
pub open spec fn upsert_spec<V>(s: Seq<(Seq<char>, V)>, k: Seq<char>, v: V) -> Seq<(Seq<char>, V)> {
    if has_key(s, k) {
        s.update(choose|i: int| 0 <= i < s.len() && s[i].0 == k, (k, v))
    } else {
        s.push((k, v))
    }
}

impl View for LevelProgress {
    type V = LevelProgressView;

    open spec fn view(&self) -> LevelProgressView {
        LevelProgressView {
            completed: self.completed,
            attempts: self.attempts,
            best_time_ms: self.best_time_ms,
            last_completed_at: opt_text(self.last_completed_at),
        }
    }
}

impl View for GuestProfile {
    type V = GuestProfileView;

    open spec fn view(&self) -> GuestProfileView {
        GuestProfileView {
            id: self.id@,
            nickname: self.nickname@,
            avatar_id: self.avatar_id@,
            progress: entries_view(self.progress@),
            created_at: self.created_at@,
            updated_at: self.updated_at@,
        }
    }
}

impl View for StudentProfile {
    type V = StudentProfileView;

    open spec fn view(&self) -> StudentProfileView {
        StudentProfileView {
            id: self.id@,
            nickname: self.nickname@,
            avatar_id: self.avatar_id@,
            class_id: self.class_id@,
            progress: entries_view(self.progress@),
            joined_at: self.joined_at@,
            last_sync_at: self.last_sync_at@,
        }
    }
}

impl View for TeacherInfo {
    type V = TeacherInfoView;

    open spec fn view(&self) -> TeacherInfoView {
        TeacherInfoView {
            id: self.id@,
            nickname: self.nickname@,
            avatar_id: self.avatar_id@,
            created_at: self.created_at@,
        }
    }
}

impl View for ClassRoom {
    type V = ClassRoomView;

    open spec fn view(&self) -> ClassRoomView {
        ClassRoomView {
            id: self.id@,
            teacher: self.teacher@,
            title: opt_text(self.title),
            students: entries_view(self.students@),
            created_at: self.created_at@,
            updated_at: self.updated_at@,
        }
    }
}

impl View for ProfileStore {
    type V = ProfileStoreView;

    open spec fn view(&self) -> ProfileStoreView {
        ProfileStoreView {
            version: self.version,
            guests: entries_view(self.guests@),
            classes: entries_view(self.classes@),
        }
    }
}

impl GuestProfileView {
    pub open spec fn wf(self) -> bool {
        keys_unique(self.progress)
    }
}

impl StudentProfileView {
    pub open spec fn wf(self) -> bool {
        keys_unique(self.progress)
    }
}

impl ClassRoomView {
    pub open spec fn wf(self) -> bool {
        &&& keys_unique(self.students)
        &&& forall|i: int| 0 <= i < self.students.len() ==> (#[trigger] self.students[i]).1.wf()
    }
}

impl ProfileStoreView {
    /// Every keyed collection, at every depth, has unique keys.
    pub open spec fn wf(self) -> bool {
        &&& keys_unique(self.guests)
        &&& keys_unique(self.classes)
        &&& forall|i: int| 0 <= i < self.guests.len() ==> (#[trigger] self.guests[i]).1.wf()
        &&& forall|i: int| 0 <= i < self.classes.len() ==> (#[trigger] self.classes[i]).1.wf()
    }
}

/// The document an absent or blank store file stands for.
pub open spec fn empty_store() -> ProfileStoreView {
    ProfileStoreView { version: 1, guests: Seq::empty(), classes: Seq::empty() }
}

/// The version a document gets when it names none.
pub fn default_version() -> (r: u32)
    ensures
        r == 1,
{
    1
}

impl Default for ProfileStore {
    fn default() -> (r: ProfileStore)
        ensures
            r@ == empty_store(),
    {
        let r = ProfileStore { version: default_version(), guests: Vec::new(), classes: Vec::new() };
        assert(r@.guests =~= Seq::empty());
        assert(r@.classes =~= Seq::empty());
        r
    }
}

/// Binds `key` to `value` in a keyed collection, replacing the record that
/// had that key, if any, and otherwise appending.
pub fn upsert<V: View>(s: &mut Vec<(String, V)>, key: String, value: V)
    requires
        keys_unique(entries_view(old(s)@)),
    ensures
        entries_view(final(s)@) == upsert_spec(entries_view(old(s)@), key@, value@),
        keys_unique(entries_view(final(s)@)),
{
    let ghost before = entries_view(s@);
    let mut i: usize = 0;
    while i < s.len()
        invariant
            i <= s.len(),
            s@ == old(s)@,
            before == entries_view(s@),
            keys_unique(before),
            forall|j: int| 0 <= j < i ==> before[j].0 != key@,
        decreases s.len() - i,
    {
        if s[i].0 == key {
            proof {
                assert(before[i as int].0 == key@);
                let c = choose|j: int| 0 <= j < before.len() && before[j].0 == key@;
                if c < i {
                    assert(before[c].0 != key@);
                } else if c > i {
                    assert(before[i as int].0 != before[c].0);
                }
            }
            s.set(i, (key, value));
            assert(entries_view(s@) =~= before.update(i as int, (key@, value@)));
            assert forall|a: int, b: int| 0 <= a < b < entries_view(s@).len() implies entries_view(s@)[a].0 != entries_view(s@)[b].0 by {
                assert(before[a].0 != before[b].0);
            }
            return;
        }
        i = i + 1;
    }
    s.push((key, value));
    assert(entries_view(s@) =~= before.push((key@, value@)));
    assert forall|a: int, b: int| 0 <= a < b < entries_view(s@).len() implies entries_view(s@)[a].0 != entries_view(s@)[b].0 by {
        if b < before.len() {
            assert(before[a].0 != before[b].0);
        } else {
            assert(before[a].0 != key@);
        }
    }
}

} // verus!
