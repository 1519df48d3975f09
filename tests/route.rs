use theme_repo::route::{route, Route};

fn segs(s: &[&str]) -> Vec<String> {
    s.iter().map(|x| x.to_string()).collect()
}

#[test]
fn routes() {
    assert!(matches!(route(true, &segs(&["themes", "dracula"])), Route::Theme(t) if t == "dracula"));
    assert!(matches!(route(true, &segs(&["themes"])), Route::Themes));
    assert!(matches!(route(true, &segs(&["templates"])), Route::Templates));
    assert!(matches!(route(false, &segs(&["themes"])), Route::NotFound));
    assert!(matches!(route(true, &segs(&["templates", "x"])), Route::NotFound));
    assert!(matches!(route(true, &segs(&[""])), Route::NotFound));
    assert!(matches!(route(true, &segs(&["themes", "a", "b"])), Route::NotFound));
}
