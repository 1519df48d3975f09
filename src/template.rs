use vstd::prelude::*;

use crate::lookup::{first_value, keys_of, lemma_key_index_absent};
use crate::format::{format_named, ThemeFormat};
use crate::query::{query_param, url_query};

verus! {

/// Why a requested template cannot be used.
#[derive(Debug)]
pub enum TemplateError {
    /// The name is neither a builtin format nor a file of the template
    /// directory.
    InvalidTemplate(String),
    /// The request's URL does not parse.
    InvalidUrl(String),
}

impl TemplateError {
    /// The message shown to the client.
    pub fn message(&self) -> (r: String)
        ensures
            match self {
                TemplateError::InvalidTemplate(s) => r@ == "Invalid Template: "@ + s@,
                TemplateError::InvalidUrl(s) => r@ == "Invalid URL: "@ + s@,
            },
    {
        match self {
            TemplateError::InvalidTemplate(s) => "Invalid Template: ".to_string().concat(s.as_str()),
            TemplateError::InvalidUrl(s) => "Invalid URL: ".to_string().concat(s.as_str()),
        }
    }
}

/// How a theme is rendered: one of the builtin formats, or a template file
/// of the template directory, by its name.
#[derive(Debug)]
pub enum Template {
    Builtin(ThemeFormat),
    Custom(String),
}

impl Default for Template {
    fn default() -> (r: Self)
        ensures
            r == Template::Builtin(ThemeFormat::Toml),
    {
        Template::Builtin(ThemeFormat::default())
    }
}

/// The names of a listing of files.
pub open spec fn names_of(files: Seq<String>) -> Seq<Seq<char>> {
    files.map_values(|f: String| f@)
}

/// `r` is what resolving the template name `name` against the names of the
/// template directory gives. A builtin name wins; any other name must be
/// listed, else it is refused, never replaced by a default.
pub open spec fn template_result(
    name: Seq<char>,
    listing: Seq<Seq<char>>,
    r: Result<Template, TemplateError>,
) -> bool {
    match format_named(name) {
        Some(f) => r matches Ok(Template::Builtin(g)) && g == f,
        None => if listing.contains(name) {
            r matches Ok(Template::Custom(t)) && t@ == name
        } else {
            r matches Err(TemplateError::InvalidTemplate(s)) && s@ == name
        },
    }
}

fn listed(name: &String, templates: &Vec<String>) -> (r: bool)
    ensures
        r == names_of(templates@).contains(name@),
{
    let mut i: usize = 0;
    while i < templates.len()
        invariant
            i <= templates@.len(),
            forall|k: int| 0 <= k < i ==> templates@[k]@ != name@,
        decreases templates.len() - i,
    {
        if templates[i] == *name {
            assert(names_of(templates@)[i as int] == name@);
            return true;
        }
        i += 1;
    }
    assert forall|k: int| 0 <= k < names_of(templates@).len() implies names_of(templates@)[k] != name@ by {
        assert(names_of(templates@)[k] == templates@[k]@);
    }
    false
}

impl Template {
    /// The template that a name selects, given the names of the files of the
    /// template directory as listed for this request.
    pub fn from_str(templates: &Vec<String>, template: &str) -> (r: Result<Template, TemplateError>)
        ensures
            template_result(template@, names_of(templates@), r),
    {
        match ThemeFormat::try_from(template) {
            Ok(format) => Ok(Template::Builtin(format)),
            Err(_) => {
                let name = template.to_string();
                if listed(&name, templates) {
                    Ok(Template::Custom(name))
                } else {
                    Err(TemplateError::InvalidTemplate(name))
                }
            },
        }
    }

    /// The template that a request URL asks for with its first `template`
    /// parameter, or else its first `format` parameter; TOML when it has
    /// neither.
    pub fn from_url(templates: &Vec<String>, url: &str) -> (r: Result<Template, TemplateError>)
        ensures
            template_request(url@, names_of(templates@), r),
    {
        match query_param(url, "template") {
            None => Err(TemplateError::InvalidUrl(url.to_string())),
            Some(Some(name)) => Template::from_str(templates, name.as_str()),
            Some(None) => match query_param(url, "format") {
                Some(Some(name)) => Template::from_str(templates, name.as_str()),
                _ => Ok(Template::default()),
            },
        }
    }
}

/// The names offered to clients: the template files, then the builtin `json`
/// and `toml`.
pub fn template_names(files: Vec<String>) -> (r: Vec<String>)
    ensures
        names_of(r@) == names_of(files@) + seq!["json"@, "toml"@],
{
    let mut names = files;
    names.push("json".to_string());
    names.push("toml".to_string());
    assert(names_of(names@) =~= names_of(files@) + seq!["json"@, "toml"@]);
    names
}

/// The name that a query asks for: its first `template` parameter, or else
/// its first `format` parameter.
pub open spec fn requested_name(pairs: Seq<(Seq<char>, Seq<char>)>) -> Option<Seq<char>> {
    match first_value(pairs, "template"@) {
        Some(name) => Some(name),
        None => first_value(pairs, "format"@),
    }
}

/// `r` is what resolving the request URL `url` gives.
pub open spec fn template_request(
    url: Seq<char>,
    listing: Seq<Seq<char>>,
    r: Result<Template, TemplateError>,
) -> bool {
    match url_query(url) {
        None => r matches Err(TemplateError::InvalidUrl(u)) && u@ == url,
        Some(pairs) => match requested_name(pairs) {
            None => r matches Ok(Template::Builtin(ThemeFormat::Toml)),
            Some(name) => template_result(name, listing, r),
        },
    }
}

/// A request whose query has neither a `template` nor a `format` parameter
/// is rendered in the default TOML format, whatever the template directory
/// holds.
pub proof fn lemma_no_parameter_gives_default(
    url: Seq<char>,
    listing: Seq<Seq<char>>,
    r: Result<Template, TemplateError>,
)
    requires
        url_query(url) is Some,
        forall|i: int|
            0 <= i < url_query(url)->Some_0.len() ==> (#[trigger] url_query(url)->Some_0[i]).0
                != "template"@ && url_query(url)->Some_0[i].0 != "format"@,
        template_request(url, listing, r),
    ensures
        r matches Ok(Template::Builtin(ThemeFormat::Toml)),
{
    let pairs = url_query(url)->Some_0;
    assert forall|i: int| 0 <= i < keys_of(pairs).len() implies keys_of(pairs)[i] != "template"@
        && keys_of(pairs)[i] != "format"@ by {
        assert(keys_of(pairs)[i] == pairs[i].0);
    }
    lemma_key_index_absent(keys_of(pairs), "template"@, 0);
    lemma_key_index_absent(keys_of(pairs), "format"@, 0);
}

/// A name that is neither builtin nor listed is refused with an error that
/// carries it; it never falls back to the default.
pub proof fn lemma_unknown_name_refused(
    name: Seq<char>,
    listing: Seq<Seq<char>>,
    r: Result<Template, TemplateError>,
)
    requires
        format_named(name) is None,
        !listing.contains(name),
        template_result(name, listing, r),
    ensures
        r matches Err(TemplateError::InvalidTemplate(s)) && s@ == name,
{
}

} // verus!
