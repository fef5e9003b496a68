use ironworks::sqpack::index::content_key;
use ironworks::sqpack::locate::{choose_index, index_pattern, matching_names};
use ironworks::sqpack::{
    Action, Event, IndexCache, IndexEntry, IndexTable, Location, Lookup, SqPack, SqPackError,
    SqPackPath,
};

fn archive() -> SqPack {
    let mut archive = SqPack::new("ffxiv".to_string());
    archive.add_repository("ffxiv".to_string(), "/game/sqpack/ffxiv".to_string());
    archive.add_category("exd".to_string(), 0x0a);
    archive
}

fn index_bytes(entries: &[(u64, u32, u32)]) -> Vec<u8> {
    let mut bytes = Vec::new();
    bytes.extend_from_slice(&(entries.len() as u32).to_le_bytes());
    for (key, container, offset) in entries {
        bytes.extend_from_slice(&key.to_le_bytes());
        bytes.extend_from_slice(&container.to_le_bytes());
        bytes.extend_from_slice(&offset.to_le_bytes());
    }
    bytes
}

fn names(names: &[&str]) -> Vec<String> {
    names.iter().map(|name| name.to_string()).collect()
}

fn listing(path: &SqPackPath) -> Lookup {
    Lookup::Listing { path: path.clone(), category: 0x0a, root: "/game/sqpack/ffxiv".to_string() }
}

#[test]
fn lookup_finds_a_file() {
    let archive = archive();
    let mut cache = IndexCache::new();
    let path = archive.parse_path("exd/root.exl").unwrap();
    let (state, action) = archive.locate(&path, &cache);
    assert_eq!(state, listing(&path));
    assert_eq!(
        action,
        Action::List {
            root: "/game/sqpack/ffxiv".to_string(),
            pattern: "0a????.*.index".to_string()
        }
    );
    let (state, action) = state.advance(
        Event::Names(names(&[
            "0a0000.win32.dat0",
            "0a0000.win32.index",
            "0a0000.win32.index2",
            "020000.win32.index",
        ])),
        &mut cache,
    );
    assert_eq!(state, Lookup::Reading { path: path.clone(), category: 0x0a });
    assert_eq!(
        action,
        Action::Read {
            root: "/game/sqpack/ffxiv".to_string(),
            name: "0a0000.win32.index".to_string()
        }
    );
    let bytes = index_bytes(&[
        (content_key("exd/other.exh"), 0, 128),
        (content_key("exd/root.exl"), 2, 4096),
        (content_key("exd/root.exl"), 3, 8192),
    ]);
    let (state, action) = state.advance(Event::Bytes(bytes), &mut cache);
    assert_eq!(state, Lookup::Done);
    assert_eq!(action, Action::Found(Location { container_id: 2, offset: 4096 }));

    let other = archive.parse_path("exd/other.exh").unwrap();
    assert_eq!(
        archive.locate(&other, &cache),
        (Lookup::Done, Action::Found(Location { container_id: 0, offset: 128 }))
    );
}

#[test]
fn absent_key_is_not_found_and_leaves_the_cache() {
    let archive = archive();
    let mut cache = IndexCache::new();
    let table = IndexTable::parse(&index_bytes(&[(content_key("exd/root.exl"), 2, 4096)])).unwrap();
    cache.insert("ffxiv".to_string(), 0x0a, table);
    let before = cache.clone();
    let path = archive.parse_path("exd/missing.exh").unwrap();
    assert_eq!(
        archive.locate(&path, &cache),
        (
            Lookup::Done,
            Action::Fail(SqPackError::NotFoundInIndex { path: "exd/missing.exh".to_string() })
        )
    );
    assert_eq!(cache, before);

    let state = Lookup::Reading { path: path.clone(), category: 0x0b };
    let (state, action) =
        state.advance(Event::Bytes(index_bytes(&[(1, 2, 3)])), &mut cache);
    assert_eq!(state, Lookup::Done);
    assert_eq!(
        action,
        Action::Fail(SqPackError::NotFoundInIndex { path: "exd/missing.exh".to_string() })
    );
    assert_eq!(cache.get(&"ffxiv".to_string(), 0x0a), before.get(&"ffxiv".to_string(), 0x0a));
    assert_eq!(
        cache.get(&"ffxiv".to_string(), 0x0b),
        Some(&IndexTable { entries: vec![IndexEntry { key: 1, container_id: 2, offset: 3 }] })
    );
}

#[test]
fn two_matching_indexes_are_ambiguous() {
    let archive = archive();
    let mut cache = IndexCache::new();
    let path = archive.parse_path("exd/root.exl").unwrap();
    let (state, _) = archive.locate(&path, &cache);
    let (state, action) = state.advance(
        Event::Names(names(&["0a0000.win32.index", "0a0001.win32.index"])),
        &mut cache,
    );
    assert_eq!(state, Lookup::Done);
    assert_eq!(
        action,
        Action::Fail(SqPackError::AmbiguousIndex { pattern: "0a????.*.index".to_string() })
    );
    assert_eq!(cache, IndexCache::new());
}

#[test]
fn no_matching_index_is_not_found() {
    let archive = archive();
    let mut cache = IndexCache::new();
    let path = archive.parse_path("exd/root.exl").unwrap();
    let (state, _) = archive.locate(&path, &cache);
    let (state, action) = state.advance(
        Event::Names(names(&["0a0000.win32.index2", "0b0000.win32.index", "0a000.win32.index"])),
        &mut cache,
    );
    assert_eq!(state, Lookup::Done);
    assert_eq!(
        action,
        Action::Fail(SqPackError::IndexNotFound { pattern: "0a????.*.index".to_string() })
    );
}

#[test]
fn unknown_category_comes_before_unknown_repository() {
    let mut archive = archive();
    let cache = IndexCache::new();
    let path = SqPackPath {
        path: "bg/ex1/file".to_string(),
        category: "bg".to_string(),
        repository: "ex1".to_string(),
    };
    assert_eq!(
        archive.locate(&path, &cache),
        (
            Lookup::Done,
            Action::Fail(SqPackError::UnknownCategory {
                path: "bg/ex1/file".to_string(),
                category: "bg".to_string()
            })
        )
    );
    archive.add_category("bg".to_string(), 2);
    assert_eq!(
        archive.locate(&path, &cache),
        (
            Lookup::Done,
            Action::Fail(SqPackError::UnknownRepository {
                path: "bg/ex1/file".to_string(),
                repository: "ex1".to_string()
            })
        )
    );
}

#[test]
fn failure_outside_is_passed_on() {
    let archive = archive();
    let mut cache = IndexCache::new();
    let path = archive.parse_path("exd/root.exl").unwrap();
    assert_eq!(
        listing(&path).advance(Event::Failed("permission denied".to_string()), &mut cache),
        (Lookup::Done, Action::Fail(SqPackError::IoFailure("permission denied".to_string())))
    );
}

#[test]
fn event_out_of_turn_ends_the_lookup() {
    let archive = archive();
    let mut cache = IndexCache::new();
    let path = archive.parse_path("exd/root.exl").unwrap();
    let out_of_turn = (
        Lookup::Done,
        Action::Fail(SqPackError::IoFailure("event does not answer the request".to_string())),
    );
    assert_eq!(listing(&path).advance(Event::Bytes(Vec::new()), &mut cache), out_of_turn);
    assert_eq!(
        Lookup::Reading { path: path.clone(), category: 0x0a }
            .advance(Event::Names(Vec::new()), &mut cache),
        out_of_turn
    );
    assert_eq!(Lookup::Done.advance(Event::Names(Vec::new()), &mut cache), out_of_turn);
}

#[test]
fn truncated_index_is_an_io_failure() {
    let truncated = SqPackError::IoFailure("index ends before its last entry".to_string());
    let mut bytes = index_bytes(&[(1, 2, 3), (4, 5, 6)]);
    bytes.pop();
    assert_eq!(IndexTable::parse(&bytes), Err(truncated.clone()));
    assert_eq!(IndexTable::parse(&[1, 0, 0]), Err(truncated.clone()));
    assert_eq!(IndexTable::parse(&[0, 0, 0, 0]), Ok(IndexTable { entries: Vec::new() }));
    let mut cache = IndexCache::new();
    let path = archive().parse_path("exd/root.exl").unwrap();
    assert_eq!(
        Lookup::Reading { path, category: 0x0a }.advance(Event::Bytes(bytes), &mut cache),
        (Lookup::Done, Action::Fail(truncated))
    );
    assert_eq!(cache, IndexCache::new());
}

#[test]
fn index_entries_are_little_endian() {
    let bytes = [
        2, 0, 0, 0, 0x08, 0x07, 0x06, 0x05, 0x04, 0x03, 0x02, 0x01, 0x0d, 0x0c, 0x0b, 0x0a, 0x11,
        0x10, 0x0f, 0x0e, 0xff, 0xff, 0xff, 0xff, 0xff, 0xff, 0xff, 0xff, 0, 0, 0, 0x80, 1, 0, 0, 0,
        0xee,
    ];
    let table = IndexTable::parse(&bytes).unwrap();
    assert_eq!(
        table.entries,
        vec![
            IndexEntry { key: 0x0102030405060708, container_id: 0x0a0b0c0d, offset: 0x0e0f1011 },
            IndexEntry { key: u64::MAX, container_id: 0x8000_0000, offset: 1 },
        ]
    );
    assert_eq!(table.lookup(u64::MAX), Some(Location { container_id: 0x8000_0000, offset: 1 }));
    assert_eq!(table.lookup(7), None);
}

#[test]
fn content_key_is_fnv1a() {
    assert_eq!(content_key(""), 0xcbf29ce484222325);
    assert_eq!(content_key("a"), 0xaf63dc4c8601ec8c);
    assert_eq!(content_key("foobar"), 0x85944171f73967e8);
}

#[test]
fn pattern_names_the_category_in_hexadecimal() {
    assert_eq!(index_pattern(0), "00????.*.index");
    assert_eq!(index_pattern(0x0a), "0a????.*.index");
    assert_eq!(index_pattern(0x9f), "9f????.*.index");
    assert_eq!(index_pattern(0xff), "ff????.*.index");
}

#[test]
fn names_are_held_against_the_pattern() {
    let all = names(&[
        "0a0000.win32.index",
        "0A0000.win32.index",
        "0a0000.index",
        "0a0000..index",
        "0a00000.win32.index",
        "0a0000.win32.index.bak",
        "0a1234.ps4.index",
    ]);
    assert_eq!(
        matching_names(&all, "0a????.*.index"),
        names(&["0a0000.win32.index", "0a0000..index", "0a1234.ps4.index"])
    );
    assert_eq!(matching_names(&all, "[a"), Vec::<String>::new());
    assert_eq!(matching_names(&all, "0a0000.index"), names(&["0a0000.index"]));
}

#[test]
fn one_match_is_chosen() {
    let pattern = "0a????.*.index".to_string();
    assert_eq!(choose_index(&names(&["x"]), &pattern), Ok("x".to_string()));
    assert_eq!(
        choose_index(&Vec::new(), &pattern),
        Err(SqPackError::IndexNotFound { pattern: pattern.clone() })
    );
    assert_eq!(
        choose_index(&names(&["x", "x"]), &pattern),
        Err(SqPackError::AmbiguousIndex { pattern: pattern.clone() })
    );
}
