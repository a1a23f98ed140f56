use website::submodule::{Field, SubmoduleError, Submodules, TomlValue};

fn parse(s: &str) -> Result<Vec<(String, String, String)>, SubmoduleError> {
    Submodules::parse(s).map(|m| {
        m.configs()
            .iter()
            .map(|c| (c.name().to_string(), c.url().to_string(), c.commit().to_string()))
            .collect()
    })
}

#[test]
fn parses_the_documented_example() {
    let text = r#"
[[submodule]]
name = "nixos"
url = "https://github.com/Noratrieb/nixos.git"
commit = "c5b2fc10b9266b105d792d958b8f13479866a7bd"
"#;
    assert_eq!(
        parse(text).unwrap(),
        vec![(
            "nixos".to_string(),
            "https://github.com/Noratrieb/nixos.git".to_string(),
            "c5b2fc10b9266b105d792d958b8f13479866a7bd".to_string()
        )]
    );
}

#[test]
fn keeps_the_order_of_the_document() {
    let text = r#"
[[submodule]]
name = "slides"
url = "u1"
commit = "c1"

[[submodule]]
name = "blog"
url = "u2"
commit = "c2"
extra = 5
"#;
    let got = parse(text).unwrap();
    assert_eq!(got.len(), 2);
    assert_eq!(got[0].0, "slides");
    assert_eq!(got[1], ("blog".to_string(), "u2".to_string(), "c2".to_string()));
}

#[test]
fn empty_array_gives_no_submodules() {
    assert_eq!(parse("submodule = []").unwrap(), vec![]);
}

#[test]
fn refuses_invalid_toml() {
    assert_eq!(parse("[[submodule"), Err(SubmoduleError::InvalidToml));
}

#[test]
fn refuses_missing_submodule_key() {
    assert_eq!(parse("other = 1"), Err(SubmoduleError::NoSubmoduleTables));
    assert_eq!(parse(""), Err(SubmoduleError::NoSubmoduleTables));
}

#[test]
fn refuses_submodule_that_is_not_an_array() {
    assert_eq!(parse("submodule = \"x\""), Err(SubmoduleError::NotAnArray));
    assert_eq!(parse("[submodule]\nname = \"a\""), Err(SubmoduleError::NotAnArray));
}

#[test]
fn refuses_element_that_is_not_a_table() {
    assert_eq!(parse("submodule = [1]"), Err(SubmoduleError::NotATable));
}

#[test]
fn refuses_missing_fields_in_order() {
    assert_eq!(
        parse("[[submodule]]\nurl = \"u\""),
        Err(SubmoduleError::Missing(Field::Name))
    );
    assert_eq!(
        parse("[[submodule]]\nname = \"n\"\ncommit = \"c\""),
        Err(SubmoduleError::Missing(Field::Url))
    );
    assert_eq!(
        parse("[[submodule]]\nname = \"n\"\nurl = \"u\""),
        Err(SubmoduleError::Missing(Field::Commit))
    );
}

#[test]
fn refuses_fields_that_are_not_strings() {
    assert_eq!(
        parse("[[submodule]]\nname = 1\nurl = \"u\"\ncommit = \"c\""),
        Err(SubmoduleError::NotAString(Field::Name))
    );
    assert_eq!(
        parse("[[submodule]]\nname = \"n\"\nurl = \"u\"\ncommit = true"),
        Err(SubmoduleError::NotAString(Field::Commit))
    );
}

#[test]
fn first_refused_element_decides() {
    let text = "[[submodule]]\nname = \"a\"\nurl = \"u\"\ncommit = \"c\"\n[[submodule]]\nname = \"b\"\n";
    assert_eq!(parse(text), Err(SubmoduleError::Missing(Field::Url)));
}

#[test]
fn from_document_reads_the_model() {
    let entry = |k: &str, v: &str| (k.to_string(), TomlValue::Str(v.to_string()));
    let doc = vec![(
        "submodule".to_string(),
        TomlValue::Array(vec![TomlValue::Table(vec![
            entry("commit", "c"),
            entry("name", "n"),
            entry("url", "u"),
        ])]),
    )];
    let m = Submodules::from_document(&doc).ok().unwrap();
    assert_eq!(m.configs().len(), 1);
    assert_eq!(m.configs()[0].name(), "n");
    assert_eq!(m.configs()[0].url(), "u");
    assert_eq!(m.configs()[0].commit(), "c");

    let bad = vec![("submodule".to_string(), TomlValue::Other)];
    assert_eq!(Submodules::from_document(&bad).err(), Some(SubmoduleError::NotAnArray));
}

#[test]
fn other_keys_do_not_change_the_result() {
    let plain = "[[submodule]]\nname = \"a\"\nurl = \"u\"\ncommit = \"c\"\n";
    let extra = "title = \"site\"\n[[submodule]]\nbranch = \"main\"\nname = \"a\"\nurl = \"u\"\ncommit = \"c\"\nzzz = [1, 2]\n";
    assert_eq!(parse(plain), parse(extra));
    assert!(parse(extra).is_ok());
}
