use ironworks::error::{Error, ErrorValue};
use ironworks::schema::{latest_at_most, select, version_at_most, Specifier};

fn versions(names: &[&str]) -> Vec<String> {
    names.iter().map(|name| name.to_string()).collect()
}

fn chars(text: &str) -> Vec<char> {
    text.chars().collect()
}

#[test]
fn latest_version_not_later_than_the_requested_one() {
    let known = versions(&["2022.03.01.0000.0000", "2021.11.28.0000.0000", "2022.08.05.0000.0000"]);
    assert_eq!(
        latest_at_most(&known, "2022.04.15.0000.0000"),
        Some("2022.03.01.0000.0000".to_string())
    );
    assert_eq!(
        latest_at_most(&known, "2022.08.05.0000.0000"),
        Some("2022.08.05.0000.0000".to_string())
    );
    assert_eq!(latest_at_most(&known, "9999"), Some("2022.08.05.0000.0000".to_string()));
    assert_eq!(
        latest_at_most(&known, "2021.11.28.0000.0000"),
        Some("2021.11.28.0000.0000".to_string())
    );
    assert_eq!(latest_at_most(&known, "2021.11.27.9999.9999"), None);
    assert_eq!(latest_at_most(&Vec::new(), "2022"), None);
}

#[test]
fn versions_are_ordered_as_texts() {
    assert!(version_at_most(&chars(""), &chars("")));
    assert!(version_at_most(&chars(""), &chars("a")));
    assert!(!version_at_most(&chars("a"), &chars("")));
    assert!(version_at_most(&chars("10"), &chars("9")));
    assert!(!version_at_most(&chars("9"), &chars("10")));
    assert!(version_at_most(&chars("2022.03"), &chars("2022.03.01")));
    assert!(!version_at_most(&chars("2022.03.01"), &chars("2022.03")));
    assert!(version_at_most(&chars("abc"), &chars("abc")));
    assert!(version_at_most(&chars("z"), &chars("\u{e9}")));
    let known = versions(&["10", "9", "1"]);
    assert_eq!(latest_at_most(&known, "5"), Some("10".to_string()));
}

#[test]
fn schema_for_a_version() {
    let known = versions(&["2022.03.01.0000.0000", "2021.11.28.0000.0000"]);
    assert_eq!(
        select(vec![0xab; 20], &known, "2022.04.15.0000.0000"),
        Ok(Specifier { commit: vec![0xab; 20], game_version: "2022.03.01.0000.0000".to_string() })
    );
    assert_eq!(
        select(vec![0xab; 20], &known, "2020.01.01.0000.0000"),
        Err(Error::NotFound(ErrorValue::Version("2020.01.01.0000.0000".to_string())))
    );
}
