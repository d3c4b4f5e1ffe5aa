use ricer::config::toml::{Toml, TomlError};
use ricer::tree::{TomlEntry, TomlItem};

fn toml_input() -> String {
    String::from("# this coment should remain!\n[test]\nfoo = \"hello\"\nbar = true\n")
}

fn str_entry(key: &str, value: &str) -> TomlEntry {
    TomlEntry { key: key.to_string(), item: TomlItem::Str(value.to_string()) }
}

fn bool_entry(key: &str, value: bool) -> TomlEntry {
    TomlEntry { key: key.to_string(), item: TomlItem::Bool(value) }
}

#[test]
fn toml_parse_str_accept_good_toml_format() {
    for input in ["this = 'will parse'", "[so_will_this]", "hello.world = 'from ricer!'"] {
        assert!(Toml::parse(input).is_ok());
    }
}

#[test]
fn toml_parse_str_return_err_bad_parse() {
    for input in ["this 'will fail'", "[will # also fail", "not.gonna = [work]"] {
        let result = Toml::parse(input);
        assert!(matches!(result.unwrap_err(), TomlError::BadParse { .. }));
    }
}

#[test]
fn toml_get_return_key_item() {
    let toml = Toml::parse(&toml_input()).unwrap();
    let entry = toml.get("test", "foo").unwrap();
    assert_eq!(entry.key, "foo");
    assert!(matches!(entry.item, TomlItem::Str(ref s) if s == "hello"));
    let entry = toml.get("test", "bar").unwrap();
    assert_eq!(entry.key, "bar");
    assert!(matches!(entry.item, TomlItem::Bool(true)));
}

#[test]
fn toml_get_return_err() {
    let toml = Toml::parse("bar = 'foo not here'").unwrap();
    assert_eq!(toml.get("foo", "bar").unwrap_err(), TomlError::TableNotFound { table: "foo".into() });
    let toml = Toml::parse("foo = 'not a table'").unwrap();
    assert_eq!(toml.get("foo", "bar").unwrap_err(), TomlError::NotTable { table: "foo".into() });
    let toml = Toml::parse("[foo] # bar not here").unwrap();
    assert_eq!(
        toml.get("foo", "bar").unwrap_err(),
        TomlError::EntryNotFound { table: "foo".into(), key: "bar".into() }
    );
}

#[test]
fn toml_add_return_none() {
    let mut toml = Toml::parse(&toml_input()).unwrap();
    let result = toml.add("test", str_entry("baz", "add this")).unwrap();
    assert_eq!(toml.to_string(), format!("{}baz = \"add this\"\n", toml_input()));
    assert!(result.is_none());

    let mut toml = Toml::parse(&toml_input()).unwrap();
    let result = toml.add("new_test", str_entry("baz", "add this")).unwrap();
    assert_eq!(toml.to_string(), format!("{}\n[new_test]\nbaz = \"add this\"\n", toml_input()));
    assert!(result.is_none());
}

#[test]
fn toml_add_return_some_key_item() {
    let mut toml = Toml::parse(&toml_input()).unwrap();
    let result = toml.add("test", str_entry("foo", "replaced")).unwrap();
    assert_eq!(toml.to_string(), toml_input().replace("foo = \"hello\"", "foo = \"replaced\""));
    let old = result.unwrap();
    assert_eq!(old.key, "foo");
    assert!(matches!(old.item, TomlItem::Str(ref s) if s == "hello"));

    let mut toml = Toml::parse(&toml_input()).unwrap();
    let result = toml.add("test", bool_entry("bar", false)).unwrap();
    assert_eq!(toml.to_string(), toml_input().replace("bar = true", "bar = false"));
    assert!(matches!(result.unwrap().item, TomlItem::Bool(true)));
}

#[test]
fn toml_add_return_err() {
    let mut toml = Toml::parse("foo = 'not a table'").unwrap();
    let result = toml.add("foo", str_entry("fail", "this"));
    assert_eq!(result.unwrap_err(), TomlError::NotTable { table: "foo".into() });
}

#[test]
fn toml_rename_return_old_key_value() {
    let mut toml = Toml::parse(&toml_input()).unwrap();
    let old = toml.rename("test", "bar", "baz").unwrap();
    assert_eq!(toml.to_string(), toml_input().replace("bar", "baz"));
    assert_eq!(old.key, "bar");
    assert!(matches!(old.item, TomlItem::Bool(true)));
}

#[test]
fn toml_rename_return_err() {
    let mut toml = Toml::parse("bar = 'foo not here'").unwrap();
    assert_eq!(
        toml.rename("foo", "bar", "baz").unwrap_err(),
        TomlError::TableNotFound { table: "foo".into() }
    );
    let mut toml = Toml::parse("foo = 'not a table'").unwrap();
    assert_eq!(toml.rename("foo", "bar", "baz").unwrap_err(), TomlError::NotTable { table: "foo".into() });
    let mut toml = Toml::parse("[foo] # bar not here").unwrap();
    assert_eq!(
        toml.rename("foo", "bar", "baz").unwrap_err(),
        TomlError::EntryNotFound { table: "foo".into(), key: "bar".into() }
    );
}

#[test]
fn toml_remove_return_deleted_key_item() {
    let mut toml = Toml::parse(&toml_input()).unwrap();
    let old = toml.remove("test", "foo").unwrap();
    assert_eq!(toml.to_string(), toml_input().replace("foo = \"hello\"\n", ""));
    assert_eq!(old.key, "foo");
    assert!(matches!(old.item, TomlItem::Str(ref s) if s == "hello"));

    let mut toml = Toml::parse(&toml_input()).unwrap();
    let old = toml.remove("test", "bar").unwrap();
    assert_eq!(toml.to_string(), toml_input().replace("bar = true\n", ""));
    assert_eq!(old.key, "bar");
}

#[test]
fn toml_remove_return_err() {
    let mut toml = Toml::parse("bar = 'foo not here'").unwrap();
    assert_eq!(toml.remove("foo", "bar").unwrap_err(), TomlError::TableNotFound { table: "foo".into() });
    let mut toml = Toml::parse("foo = 'not a table'").unwrap();
    assert_eq!(toml.remove("foo", "bar").unwrap_err(), TomlError::NotTable { table: "foo".into() });
    let mut toml = Toml::parse("[foo] # bar not here").unwrap();
    assert_eq!(
        toml.remove("foo", "bar").unwrap_err(),
        TomlError::EntryNotFound { table: "foo".into(), key: "bar".into() }
    );
}

#[test]
fn toml_get_after_add_gives_added_entry() {
    let mut toml = Toml::new();
    toml.add("section", str_entry("key", "value")).unwrap();
    let entry = toml.get("section", "key").unwrap();
    assert!(matches!(entry.item, TomlItem::Str(ref s) if s == "value"));
}

#[test]
fn toml_remove_after_add_restores_document() {
    let mut toml = Toml::parse(&toml_input()).unwrap();
    toml.add("test", str_entry("baz", "temp")).unwrap();
    let removed = toml.remove("test", "baz").unwrap();
    assert_eq!(removed.key, "baz");
    assert_eq!(toml.to_string(), toml_input());
    assert_eq!(
        toml.get("test", "baz").unwrap_err(),
        TomlError::EntryNotFound { table: "test".into(), key: "baz".into() }
    );
}

#[test]
fn toml_rename_moves_entry() {
    let mut toml = Toml::parse(&toml_input()).unwrap();
    toml.rename("test", "foo", "qux").unwrap();
    assert!(matches!(toml.get("test", "qux").unwrap().item, TomlItem::Str(ref s) if s == "hello"));
    assert!(toml.get("test", "foo").is_err());
}

#[test]
fn toml_rename_keeps_key_decoration() {
    let input = "# top\n[test]\n# about foo\n  foo   = \"hello\" # why\nbar = true\n";
    let mut toml = Toml::parse(input).unwrap();
    toml.rename("test", "foo", "qux").unwrap();
    assert_eq!(toml.to_string(), "# top\n[test]\nbar = true\n# about foo\n  qux   = \"hello\" # why\n");
}

#[test]
fn toml_failed_edit_keeps_text() {
    let input = "# top\n[test] # table\nfoo = 'x'  # comment\n";
    let mut toml = Toml::parse(input).unwrap();
    assert!(toml.remove("test", "absent").is_err());
    assert!(toml.rename("test", "absent", "other").is_err());
    assert_eq!(toml.to_string(), input);
}

#[test]
fn toml_get_keeps_other_values() {
    let toml = Toml::parse("[test]\nnum = 0x1F\nwhen = 1979-05-27\n").unwrap();
    match toml.get("test", "num").unwrap().item {
        TomlItem::Other(item) => assert_eq!(item.as_integer(), Some(31)),
        _ => panic!("expected an integer"),
    }
    match toml.get("test", "when").unwrap().item {
        TomlItem::Other(item) => assert!(item.as_datetime().is_some()),
        _ => panic!("expected a datetime"),
    }
}
