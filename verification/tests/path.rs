use ironworks::sqpack::{SqPack, SqPackError, SqPackPath};

fn archive() -> SqPack {
    let mut archive = SqPack::new("ffxiv".to_string());
    archive.add_repository("ffxiv".to_string(), "/game/sqpack/ffxiv".to_string());
    archive.add_repository("ex1".to_string(), "/game/sqpack/ex1".to_string());
    archive.add_category("exd".to_string(), 0x0a);
    archive.add_category("bg".to_string(), 0x02);
    archive
}

fn resolved(path: &str, category: &str, repository: &str) -> SqPackPath {
    SqPackPath {
        path: path.to_string(),
        category: category.to_string(),
        repository: repository.to_string(),
    }
}

#[test]
fn path_with_known_repository() {
    assert_eq!(
        archive().parse_path("bg/ex1/01_roc_r2/twn/r2t1/level/bg.lgb"),
        Ok(resolved("bg/ex1/01_roc_r2/twn/r2t1/level/bg.lgb", "bg", "ex1"))
    );
}

#[test]
fn unknown_repository_gives_way_to_the_default() {
    assert_eq!(
        archive().parse_path("exd/root.exl"),
        Ok(resolved("exd/root.exl", "exd", "ffxiv"))
    );
    assert_eq!(
        archive().parse_path("exd/ex9/root.exl"),
        Ok(resolved("exd/ex9/root.exl", "exd", "ffxiv"))
    );
    assert_eq!(archive().parse_path("exd/"), Ok(resolved("exd/", "exd", "ffxiv")));
}

#[test]
fn unknown_category_still_resolves() {
    assert_eq!(
        archive().parse_path("nothing/ex1/file"),
        Ok(resolved("nothing/ex1/file", "nothing", "ex1"))
    );
    assert_eq!(archive().parse_path("/ex1"), Ok(resolved("/ex1", "", "ex1")));
}

#[test]
fn path_is_lowercased() {
    assert_eq!(
        archive().parse_path("EXD/FFXIV/Root.EXL"),
        Ok(resolved("exd/ffxiv/root.exl", "exd", "ffxiv"))
    );
    assert_eq!(
        archive().parse_path("Bg/EX1/\u{c9}t\u{e9}"),
        Ok(resolved("bg/ex1/\u{e9}t\u{e9}", "bg", "ex1"))
    );
}

#[test]
fn path_with_fewer_than_two_tokens_is_invalid() {
    assert_eq!(archive().parse_path("exd"), Err(SqPackError::InvalidPath("exd".to_string())));
    assert_eq!(archive().parse_path(""), Err(SqPackError::InvalidPath("".to_string())));
    assert_eq!(
        archive().parse_path("Root.EXL"),
        Err(SqPackError::InvalidPath("Root.EXL".to_string()))
    );
}

#[test]
fn resolution_of_an_already_lowered_path() {
    let archive = archive();
    assert_eq!(
        archive.resolve_lowered("A/B/C", "a/ex1/c".to_string()),
        Ok(resolved("a/ex1/c", "a", "ex1"))
    );
    assert_eq!(
        archive.resolve_lowered("A/B", "ab".to_string()),
        Ok(resolved("ab", "ab", "ffxiv"))
    );
    assert_eq!(
        archive.resolve_lowered("AB", "a/b".to_string()),
        Err(SqPackError::InvalidPath("AB".to_string()))
    );
}

#[test]
fn empty_repository_token_can_be_a_repository() {
    let mut archive = archive();
    assert_eq!(archive.parse_path("exd//x"), Ok(resolved("exd//x", "exd", "ffxiv")));
    archive.add_repository("".to_string(), "/game/sqpack/none".to_string());
    archive.default_repository = "ex1".to_string();
    assert_eq!(archive.parse_path("exd//x"), Ok(resolved("exd//x", "exd", "")));
    assert_eq!(archive.parse_path("exd/zz"), Ok(resolved("exd/zz", "exd", "ex1")));
}

#[test]
fn later_entry_of_a_name_takes_its_place() {
    let mut archive = archive();
    assert_eq!(
        archive.repository_root(&"ffxiv".to_string()),
        Some(&"/game/sqpack/ffxiv".to_string())
    );
    archive.add_repository("ffxiv".to_string(), "/other".to_string());
    archive.add_category("exd".to_string(), 0xff);
    assert_eq!(archive.repository_root(&"ffxiv".to_string()), Some(&"/other".to_string()));
    assert_eq!(archive.repository_root(&"ex2".to_string()), None);
    assert_eq!(archive.category_id(&"exd".to_string()), Some(0xff));
    assert_eq!(archive.category_id(&"bg".to_string()), Some(0x02));
    assert_eq!(archive.category_id(&"chara".to_string()), None);
}

#[test]
fn every_path_with_a_slash_resolves() {
    let archive = archive();
    assert_eq!(archive.parse_path("/"), Ok(resolved("/", "", "ffxiv")));
    assert_eq!(archive.parse_path("//"), Ok(resolved("//", "", "ffxiv")));
    assert_eq!(archive.parse_path("a/b/c/d"), Ok(resolved("a/b/c/d", "a", "ffxiv")));
    assert_eq!(archive.parse_path("\u{130}/EX1"), Ok(resolved("i\u{307}/ex1", "i\u{307}", "ex1")));
    for raw in ["x/", "/x", "EXD/FFXIV", "a/b/", "\u{3a3}/\u{3a3}"] {
        let path = archive.parse_path(raw).unwrap();
        assert_eq!(path.path, raw.to_lowercase());
        assert!(path.repository == "ffxiv" || path.repository == "ex1");
    }
    for raw in ["", "x", "EXD", "a.b", "\u{130}"] {
        assert_eq!(archive.parse_path(raw), Err(SqPackError::InvalidPath(raw.to_string())));
    }
}
