use vstd::prelude::*;

verus! {

/// What a request asks the server for.
#[derive(Debug)]
pub enum Route {
    /// One theme, by its name.
    Theme(String),
    /// The list of all themes.
    Themes,
    /// The list of all templates.
    Templates,
    NotFound,
}

/// `r` is the route of a request with the given method and path segments:
/// `GET /themes/<name>`, `GET /themes` and `GET /templates`; anything else is
/// not found.
pub open spec fn route_result(is_get: bool, segments: Seq<Seq<char>>, r: Route) -> bool {
    if is_get && segments.len() == 2 && segments[0] == "themes"@ {
        r matches Route::Theme(t) && t@ == segments[1]
    } else if is_get && segments.len() == 1 && segments[0] == "themes"@ {
        r is Themes
    } else if is_get && segments.len() == 1 && segments[0] == "templates"@ {
        r is Templates
    } else {
        r is NotFound
    }
}

/// The route of a request, from whether it is a `GET` and its path segments.
pub fn route(is_get: bool, segments: &Vec<String>) -> (r: Route)
    ensures
        route_result(is_get, segments@.map_values(|s: String| s@), r),
{
    let ghost segs = segments@.map_values(|s: String| s@);
    if !is_get || segments.len() == 0 || segments.len() > 2 {
        return Route::NotFound;
    }
    assert(segs[0] == segments@[0]@);
    if segments.len() == 2 {
        assert(segs[1] == segments@[1]@);
        if segments[0] == "themes".to_string() {
            Route::Theme(segments[1].clone())
        } else {
            Route::NotFound
        }
    } else if segments[0] == "themes".to_string() {
        Route::Themes
    } else if segments[0] == "templates".to_string() {
        Route::Templates
    } else {
        Route::NotFound
    }
}

} // verus!
