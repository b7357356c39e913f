use profile_store::{
    check_data_dir, decode, decode_tree, encode, encode_tree, read_store, store_file_name, ClassRoom,
    DecodeError, GuestProfile, JsonValue, LevelProgress, ProfileStore, StoreError, StudentProfile,
    TeacherInfo,
};

fn level(completed: bool, attempts: u32, best: Option<u64>, last: Option<&str>) -> LevelProgress {
    LevelProgress {
        completed,
        attempts,
        best_time_ms: best,
        last_completed_at: last.map(|s| s.to_string()),
    }
}

fn guest(id: &str, nickname: &str, progress: Vec<(String, LevelProgress)>) -> GuestProfile {
    GuestProfile {
        id: id.to_string(),
        nickname: nickname.to_string(),
        avatar_id: "fox".to_string(),
        progress,
        created_at: "2024-01-01T00:00:00Z".to_string(),
        updated_at: "2024-01-02T00:00:00Z".to_string(),
    }
}

fn class(id: &str, title: Option<&str>, students: Vec<(String, StudentProfile)>) -> ClassRoom {
    ClassRoom {
        id: id.to_string(),
        teacher: TeacherInfo {
            id: "t1".to_string(),
            nickname: "Ms Lan".to_string(),
            avatar_id: "owl".to_string(),
            created_at: "2024-01-01T00:00:00Z".to_string(),
        },
        title: title.map(|s| s.to_string()),
        students,
        created_at: "2024-01-01T00:00:00Z".to_string(),
        updated_at: "2024-01-03T00:00:00Z".to_string(),
    }
}

fn student(id: &str, class_id: &str) -> StudentProfile {
    StudentProfile {
        id: id.to_string(),
        nickname: "Minh".to_string(),
        avatar_id: "cat".to_string(),
        class_id: class_id.to_string(),
        progress: vec![("l2".to_string(), level(false, 1, None, None))],
        joined_at: "2024-02-01T00:00:00Z".to_string(),
        last_sync_at: "2024-02-02T00:00:00Z".to_string(),
    }
}

fn sample_store() -> ProfileStore {
    ProfileStore {
        version: 1,
        guests: vec![(
            "g1".to_string(),
            guest(
                "g1",
                "Alice",
                vec![
                    ("l1".to_string(), level(true, 3, Some(4200), Some("2024-01-02T00:00:00Z"))),
                    ("l2".to_string(), level(false, 0, None, None)),
                ],
            ),
        )],
        classes: vec![(
            "c1".to_string(),
            class("c1", Some("Grade 5"), vec![("s1".to_string(), student("s1", "c1"))]),
        )],
    }
}

fn find<'a, V>(entries: &'a [(String, V)], key: &str) -> Option<&'a V> {
    entries.iter().find(|(k, _)| k == key).map(|(_, v)| v)
}

#[test]
fn text_round_trip_keeps_every_field() {
    let store = sample_store();
    let text = encode(&store);
    let back = decode(&text).unwrap();
    assert_eq!(back.version, 1);
    let g = find(&back.guests, "g1").unwrap();
    assert_eq!(g, &store.guests[0].1);
    let c = find(&back.classes, "c1").unwrap();
    assert_eq!(c, &store.classes[0].1);
}

#[test]
fn tree_round_trip_is_exact() {
    let store = sample_store();
    let tree = encode_tree(&store);
    assert_eq!(decode_tree(&tree), Ok(store));
}

#[test]
fn default_store_encodes_to_exact_text() {
    let text = encode(&ProfileStore::default());
    assert_eq!(text, "{\n  \"classes\": {},\n  \"guests\": {},\n  \"version\": 1\n}");
}

#[test]
fn missing_version_defaults_to_one() {
    let s = decode("{\"guests\": {}, \"classes\": {}}").unwrap();
    assert_eq!(s.version, 1);
    let s = decode("{}").unwrap();
    assert_eq!(s, ProfileStore::default());
}

#[test]
fn explicit_version_is_kept() {
    let s = decode("{\"version\": 7}").unwrap();
    assert_eq!(s.version, 7);
}

#[test]
fn empty_level_object_gets_defaults() {
    let text = "{\"guests\": {\"g1\": {\"id\": \"g1\", \"nickname\": \"A\", \"avatarId\": \"x\", \
                \"progress\": {\"l1\": {}}, \"createdAt\": \"c\", \"updatedAt\": \"u\"}}}";
    let s = decode(text).unwrap();
    let g = find(&s.guests, "g1").unwrap();
    let l = find(&g.progress, "l1").unwrap();
    assert_eq!(l, &level(false, 0, None, None));
}

#[test]
fn missing_progress_is_empty() {
    let text = "{\"guests\": {\"g1\": {\"id\": \"g1\", \"nickname\": \"A\", \"avatarId\": \"x\", \
                \"createdAt\": \"c\", \"updatedAt\": \"u\"}}}";
    let s = decode(text).unwrap();
    assert!(find(&s.guests, "g1").unwrap().progress.is_empty());
}

#[test]
fn empty_and_blank_text_give_default_store() {
    assert_eq!(decode(""), Ok(ProfileStore::default()));
    assert_eq!(decode("   "), Ok(ProfileStore::default()));
    assert_eq!(decode("\n\t \r\n"), Ok(ProfileStore::default()));
    let d = ProfileStore::default();
    assert_eq!(d.version, 1);
    assert!(d.guests.is_empty() && d.classes.is_empty());
}

#[test]
fn missing_file_gives_default_store() {
    assert_eq!(read_store(None), Ok(ProfileStore::default()));
    assert_eq!(read_store(Some("  ")), Ok(ProfileStore::default()));
}

#[test]
fn unknown_members_are_ignored_at_every_level() {
    let text = "{\"extra\": 1, \"version\": 2, \"guests\": {\"g1\": {\"id\": \"g1\", \"nickname\": \"A\", \
                \"avatarId\": \"x\", \"mood\": [1, 2.5, -3], \"progress\": {\"l1\": {\"attempts\": 2, \
                \"stars\": {\"n\": null}}}, \"createdAt\": \"c\", \"updatedAt\": \"u\"}}, \
                \"classes\": {\"c1\": {\"id\": \"c1\", \"room\": \"B\", \"teacher\": {\"id\": \"t\", \
                \"nickname\": \"T\", \"avatarId\": \"o\", \"createdAt\": \"c\", \"email\": \"e\"}, \
                \"students\": {\"s1\": {\"id\": \"s1\", \"nickname\": \"S\", \"avatarId\": \"a\", \
                \"classId\": \"c1\", \"joinedAt\": \"j\", \"lastSyncAt\": \"l\", \"grade\": 5}}, \
                \"createdAt\": \"c\", \"updatedAt\": \"u\"}}}";
    let s = decode(text).unwrap();
    assert_eq!(s.version, 2);
    let g = find(&s.guests, "g1").unwrap();
    assert_eq!(find(&g.progress, "l1").unwrap(), &level(false, 2, None, None));
    let c = find(&s.classes, "c1").unwrap();
    assert_eq!(c.teacher.nickname, "T");
    assert_eq!(c.title, None);
    assert_eq!(find(&c.students, "s1").unwrap().class_id, "c1");
    // the decoded document carries nothing of the unknown members
    let again = decode(&encode(&s)).unwrap();
    assert_eq!(again, s);
    assert!(!encode(&s).contains("extra"));
}

#[test]
fn guest_without_id_is_rejected() {
    let text = "{\"guests\": {\"g1\": {\"nickname\": \"A\", \"avatarId\": \"x\", \
                \"createdAt\": \"c\", \"updatedAt\": \"u\"}}}";
    assert_eq!(decode(text), Err(DecodeError::Schema));
    assert_eq!(read_store(Some(text)), Err(StoreError::Decode(DecodeError::Schema)));
}

#[test]
fn mistyped_members_are_rejected() {
    assert_eq!(decode("{\"version\": \"1\"}"), Err(DecodeError::Schema));
    assert_eq!(decode("{\"version\": -1}"), Err(DecodeError::Schema));
    assert_eq!(decode("{\"version\": 4294967296}"), Err(DecodeError::Schema));
    assert_eq!(decode("{\"version\": 1.5}"), Err(DecodeError::Schema));
    assert_eq!(decode("{\"guests\": []}"), Err(DecodeError::Schema));
    assert_eq!(decode("{\"guests\": null}"), Err(DecodeError::Schema));
    assert_eq!(decode("[]"), Err(DecodeError::Schema));
    let text = "{\"guests\": {\"g1\": {\"id\": \"g1\", \"nickname\": \"A\", \"avatarId\": \"x\", \
                \"progress\": {\"l1\": {\"completed\": \"yes\"}}, \"createdAt\": \"c\", \"updatedAt\": \"u\"}}}";
    assert_eq!(decode(text), Err(DecodeError::Schema));
}

#[test]
fn largest_attempt_count_is_accepted() {
    let text = "{\"guests\": {\"g1\": {\"id\": \"g1\", \"nickname\": \"A\", \"avatarId\": \"x\", \
                \"progress\": {\"l1\": {\"attempts\": 4294967295, \"bestTimeMs\": 18446744073709551615}}, \
                \"createdAt\": \"c\", \"updatedAt\": \"u\"}}}";
    let s = decode(text).unwrap();
    let l = find(&find(&s.guests, "g1").unwrap().progress, "l1").unwrap();
    assert_eq!(l.attempts, u32::MAX);
    assert_eq!(l.best_time_ms, Some(u64::MAX));
}

#[test]
fn null_optionals_are_unset() {
    let text = "{\"guests\": {\"g1\": {\"id\": \"g1\", \"nickname\": \"A\", \"avatarId\": \"x\", \
                \"progress\": {\"l1\": {\"bestTimeMs\": null, \"lastCompletedAt\": null}}, \
                \"createdAt\": \"c\", \"updatedAt\": \"u\"}}}";
    let s = decode(text).unwrap();
    let l = find(&find(&s.guests, "g1").unwrap().progress, "l1").unwrap();
    assert_eq!(l, &level(false, 0, None, None));
}

#[test]
fn malformed_text_is_a_syntax_error() {
    assert_eq!(decode("{\"version\": "), Err(DecodeError::Syntax));
    assert_eq!(decode("not json"), Err(DecodeError::Syntax));
    assert_eq!(read_store(Some("{")), Err(StoreError::Decode(DecodeError::Syntax)));
}

#[test]
fn repeated_key_keeps_the_last_record() {
    let text = "{\"guests\": {\"g1\": {\"id\": \"g1\", \"nickname\": \"First\", \"avatarId\": \"x\", \
                \"createdAt\": \"c\", \"updatedAt\": \"u\"}, \"g1\": {\"id\": \"g1\", \"nickname\": \"Second\", \
                \"avatarId\": \"x\", \"createdAt\": \"c\", \"updatedAt\": \"u\"}}}";
    let s = decode(text).unwrap();
    assert_eq!(s.guests.len(), 1);
    assert_eq!(s.guests[0].1.nickname, "Second");
}

#[test]
fn repeated_key_in_a_tree_replaces_in_place() {
    let g = |name: &str| {
        JsonValue::Object(vec![
            ("id".to_string(), JsonValue::Str("g".to_string())),
            ("nickname".to_string(), JsonValue::Str(name.to_string())),
            ("avatarId".to_string(), JsonValue::Str("x".to_string())),
            ("createdAt".to_string(), JsonValue::Str("c".to_string())),
            ("updatedAt".to_string(), JsonValue::Str("u".to_string())),
        ])
    };
    let tree = JsonValue::Object(vec![(
        "guests".to_string(),
        JsonValue::Object(vec![
            ("a".to_string(), g("A1")),
            ("b".to_string(), g("B")),
            ("a".to_string(), g("A2")),
        ]),
    )]);
    let s = decode_tree(&tree).unwrap();
    assert_eq!(s.guests.len(), 2);
    assert_eq!(s.guests[0].0, "a");
    assert_eq!(s.guests[0].1.nickname, "A2");
    assert_eq!(s.guests[1].0, "b");
}

#[test]
fn save_overwrites_instead_of_merging() {
    let first = sample_store();
    let on_disk = encode(&first);
    assert!(find(&read_store(Some(&on_disk)).unwrap().classes, "c1").is_some());
    let mut second = first.clone();
    second.classes.clear();
    let on_disk = encode(&second);
    let loaded = read_store(Some(&on_disk)).unwrap();
    assert!(find(&loaded.classes, "c1").is_none());
    assert!(loaded.classes.is_empty());
}

#[test]
fn first_run_then_add_guest_then_reload() {
    let mut store = read_store(None).unwrap();
    assert_eq!(store, ProfileStore::default());
    store.guests.push(("g1".to_string(), guest("g1", "Alice", Vec::new())));
    let on_disk = encode(&store);
    let loaded = read_store(Some(&on_disk)).unwrap();
    let g = find(&loaded.guests, "g1").unwrap();
    assert_eq!(g.nickname, "Alice");
    assert!(g.progress.is_empty());
}

#[test]
fn level_progress_survives_save_and_load_without_null() {
    let l1 = level(true, 3, Some(4200), None);
    let mut store = ProfileStore::default();
    store.guests.push(("g1".to_string(), guest("g1", "Alice", vec![("l1".to_string(), l1.clone())])));
    let on_disk = encode(&store);
    assert!(!on_disk.contains("lastCompletedAt"));
    assert!(!on_disk.contains("null"));
    assert!(on_disk.contains("\"bestTimeMs\": 4200"));
    let loaded = read_store(Some(&on_disk)).unwrap();
    let back = find(&find(&loaded.guests, "g1").unwrap().progress, "l1").unwrap();
    assert_eq!(back, &l1);
    assert!(back.completed);
    assert_eq!(back.attempts, 3);
    assert_eq!(back.best_time_ms, Some(4200));
    assert_eq!(back.last_completed_at, None);
}

#[test]
fn unset_title_is_left_out_and_set_title_is_written() {
    let mut store = ProfileStore::default();
    store.classes.push(("c1".to_string(), class("c1", None, Vec::new())));
    assert!(!encode(&store).contains("title"));
    store.classes[0].1.title = Some("Grade 5".to_string());
    let text = encode(&store);
    assert!(text.contains("\"title\": \"Grade 5\""));
    assert_eq!(decode(&text).unwrap(), store);
}

#[test]
fn empty_data_dir_is_a_location_error() {
    assert_eq!(check_data_dir(""), Err(StoreError::Location));
    assert_eq!(check_data_dir("/home/u/.local/share/app"), Ok(()));
}

#[test]
fn store_file_is_named_profiles_json() {
    assert_eq!(store_file_name(), "profiles.json");
}

#[test]
fn default_version_is_one() {
    assert_eq!(profile_store::default_version(), 1);
}

#[test]
fn numbers_outside_u64_pass_through_unknown_members() {
    let s = decode("{\"version\": 3, \"ratio\": -0.25, \"big\": -18446744073709551616}").unwrap();
    assert_eq!(s.version, 3);
    assert!(s.guests.is_empty() && s.classes.is_empty());
}
