use theme_repo::cli::Args;

#[test]
fn default_directories() {
    let args = Args::default();
    assert_eq!(args.themes_path, "./themes");
    assert_eq!(args.templates_path, "./templates");
}
