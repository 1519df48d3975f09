use theme_repo::format::ThemeFormat;
use theme_repo::template::{template_names, Template, TemplateError};

fn listing(names: &[&str]) -> Vec<String> {
    names.iter().map(|n| n.to_string()).collect()
}

#[test]
fn invalid_template_from_str() {
    let template = "invalid-template";

    assert!(matches!(
        Template::from_str(&listing(&["base16", "kitty.conf"]), template),
        Err(TemplateError::InvalidTemplate(_))
    ));
}

#[test]
fn invalid_template_from_url() {
    let url = "https://example.com?template=invalid-template";

    assert!(matches!(
        Template::from_url(&listing(&["base16", "kitty.conf"]), url),
        Err(TemplateError::InvalidTemplate(_))
    ));
}

#[test]
fn builtin_templates() {
    assert!(matches!(Template::from_str(&listing(&[]), "toml"), Ok(Template::Builtin(ThemeFormat::Toml))));
    assert!(matches!(Template::from_str(&listing(&[]), "json"), Ok(Template::Builtin(ThemeFormat::Json))));
    assert!(matches!(Template::default(), Template::Builtin(ThemeFormat::Toml)));
}

#[test]
fn listed_template_is_custom() {
    match Template::from_str(&listing(&["base16", "kitty.conf"]), "kitty.conf") {
        Ok(Template::Custom(name)) => assert_eq!(name, "kitty.conf"),
        _ => panic!("a listed template must resolve"),
    }
}

#[test]
fn builtin_name_wins_over_file() {
    assert!(matches!(
        Template::from_str(&listing(&["toml"]), "toml"),
        Ok(Template::Builtin(ThemeFormat::Toml))
    ));
}

#[test]
fn no_template_parameter_gives_toml() {
    assert!(matches!(
        Template::from_url(&listing(&["kitty.conf"]), "http://127.0.0.1:3001/themes/a"),
        Ok(Template::Builtin(ThemeFormat::Toml))
    ));
    assert!(matches!(
        Template::from_url(&listing(&["kitty.conf"]), "http://127.0.0.1:3001/themes/a?theme=kitty.conf"),
        Ok(Template::Builtin(ThemeFormat::Toml))
    ));
}

#[test]
fn format_parameter_selects_builtin() {
    assert!(matches!(
        Template::from_url(&listing(&[]), "http://127.0.0.1:3001/themes/a?format=json"),
        Ok(Template::Builtin(ThemeFormat::Json))
    ));
    assert!(matches!(
        Template::from_url(&listing(&[]), "http://127.0.0.1:3001/themes/dracula.theme?format=legacy-layout"),
        Ok(Template::Builtin(ThemeFormat::Xresources))
    ));
}

#[test]
fn template_parameter_wins_over_format() {
    match Template::from_url(&listing(&["kitty.conf"]), "http://h/themes/a?format=json&template=kitty.conf") {
        Ok(Template::Custom(name)) => assert_eq!(name, "kitty.conf"),
        _ => panic!("the template parameter must be used"),
    }
}

#[test]
fn does_not_exist_format_parameter_is_refused() {
    match Template::from_url(&listing(&["kitty.conf"]), "http://h/themes/a?format=does-not-exist") {
        Err(TemplateError::InvalidTemplate(s)) => assert_eq!(s, "does-not-exist"),
        _ => panic!("an unknown format must be refused, never defaulted"),
    }
}

#[test]
fn template_parameter_is_decoded() {
    match Template::from_url(&listing(&["kitty conf"]), "http://h/themes/a?template=kitty%20conf") {
        Ok(Template::Custom(name)) => assert_eq!(name, "kitty conf"),
        _ => panic!("a listed template must resolve"),
    }
}

#[test]
fn does_not_exist_template_is_refused() {
    match Template::from_url(&listing(&[]), "http://h/themes/a?template=does-not-exist") {
        Err(TemplateError::InvalidTemplate(s)) => assert_eq!(s, "does-not-exist"),
        _ => panic!("an unknown template must be refused"),
    }
}

#[test]
fn unparsable_template_url_is_refused() {
    assert!(matches!(
        Template::from_url(&listing(&[]), "/themes/a?template=json"),
        Err(TemplateError::InvalidUrl(_))
    ));
}

#[test]
fn template_error_messages() {
    assert_eq!(
        TemplateError::InvalidTemplate("t".to_string()).message(),
        "Invalid Template: t"
    );
    assert_eq!(TemplateError::InvalidUrl("u".to_string()).message(), "Invalid URL: u");
}

#[test]
fn names_offered_include_builtins() {
    assert_eq!(
        template_names(listing(&["kitty.conf"])),
        vec!["kitty.conf".to_string(), "json".to_string(), "toml".to_string()]
    );
    assert_eq!(template_names(Vec::new()), vec!["json".to_string(), "toml".to_string()]);
}
