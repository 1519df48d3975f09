use theme_repo::format::field;
use theme_repo::theme::name_theme;
use theme_repo::value::{convert, Json, Value};

fn from_toml(value: toml::Value) -> Value {
    match value {
        toml::Value::String(s) => Value::String(s),
        toml::Value::Integer(i) => Value::Integer(i),
        toml::Value::Float(f) => Value::Float(f.to_bits()),
        toml::Value::Boolean(b) => Value::Boolean(b),
        toml::Value::Datetime(d) => Value::Datetime(d.to_string()),
        toml::Value::Array(a) => Value::Array(a.into_iter().map(from_toml).collect()),
        toml::Value::Table(t) => Value::Table(t.into_iter().map(|(k, v)| (k, from_toml(v))).collect()),
    }
}

fn deserialize_theme_toml(theme: &str, file_content: &str) -> Value {
    name_theme(from_toml(toml::from_str(file_content).unwrap()), theme)
}

fn entries(value: &Value) -> &Vec<(String, Value)> {
    match value {
        Value::Table(e) => e,
        _ => panic!("a theme is a table"),
    }
}

#[test]
fn name_already_exists() {
    let file_content = r#"
            name = "test"
        "#;

    let theme_toml = deserialize_theme_toml("foo.toml", file_content);
    assert_eq!(field(&theme_toml, "name"), String::from("foo.toml"));
    assert_eq!(entries(&theme_toml).len(), 1);
}

#[test]
fn name_does_not_exist() {
    let file_content = "";

    let theme_toml = deserialize_theme_toml("bar.toml", file_content);
    assert_eq!(field(&theme_toml, "name"), String::from("bar.toml"));
}

#[test]
fn name_overwritten_in_place() {
    let value = Value::Table(vec![
        ("background".to_string(), Value::String("#000".to_string())),
        ("name".to_string(), Value::Integer(7)),
        ("cursor".to_string(), Value::String("#fff".to_string())),
    ]);
    let named = name_theme(value, "night");
    let e = entries(&named);
    assert_eq!(e.len(), 3);
    assert_eq!(e[1].0, "name");
    assert!(matches!(&e[1].1, Value::String(s) if s == "night"));
    assert_eq!(e[0].0, "background");
    assert_eq!(e[2].0, "cursor");
}

#[test]
fn name_appended_last() {
    let value = Value::Table(vec![("cursor".to_string(), Value::String("#fff".to_string()))]);
    let named = name_theme(value, "day");
    let e = entries(&named);
    assert_eq!(e.len(), 2);
    assert_eq!(e[1].0, "name");
    assert!(matches!(&e[1].1, Value::String(s) if s == "day"));
}

#[test]
fn non_table_is_left_alone() {
    assert!(matches!(name_theme(Value::Integer(4), "x"), Value::Integer(4)));
}

#[test]
fn dracula_default_rendering_has_name() {
    let mut content = String::new();
    for i in 0..16 {
        content.push_str(&format!("color{} = \"#{:06x}\"\n", i, i * 1000));
    }
    content.push_str("background = \"#282a36\"\nforeground = \"#f8f8f2\"\ncursor = \"#f8f8f0\"\n");
    let theme = deserialize_theme_toml("dracula.theme", &content);
    assert_eq!(field(&theme, "name"), "dracula.theme");
    assert_eq!(field(&theme, "color15"), format!("#{:06x}", 15000));
    match convert(&theme) {
        Some(Json::Object(members)) => {
            assert_eq!(members.len(), 20);
            let (k, v) = &members[19];
            assert_eq!(k, "name");
            assert!(matches!(v, Json::String(s) if s == "dracula.theme"));
            assert_eq!(members[0].0, "color0");
        }
        _ => panic!("a theme converts to an object"),
    }
}
