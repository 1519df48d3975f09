use vstd::prelude::*;

use crate::lookup::{find_key, first_value, keys_of, lemma_key_index_absent, string_keys};
use crate::query::{query_param, url_query};
use crate::value::{Tree, Value};

verus! {

/// Why a requested output format cannot be used.
#[derive(Debug)]
pub enum FormatError {
    /// The `format` parameter names no builtin format.
    InvalidFormat(String),
    /// The request's URL does not parse.
    InvalidUrl(String),
}

impl FormatError {
    /// The message shown to the client.
    pub fn message(&self) -> (r: String)
        ensures
            match self {
                FormatError::InvalidFormat(s) => r@ == "Invalid Format: "@ + s@,
                FormatError::InvalidUrl(s) => r@ == "Invalid URL: "@ + s@,
            },
    {
        match self {
            FormatError::InvalidFormat(s) => "Invalid Format: ".to_string().concat(s.as_str()),
            FormatError::InvalidUrl(s) => "Invalid URL: ".to_string().concat(s.as_str()),
        }
    }
}

/// The builtin output formats of a theme.
#[derive(Clone, Copy, Debug, PartialEq, Eq, Structural)]
pub enum ThemeFormat {
    /// The theme's own TOML, written back out.
    Toml,
    /// The theme as JSON.
    Json,
    /// A fixed Xresources layout of the palette's fields.
    Xresources,
}

impl Default for ThemeFormat {
    fn default() -> (r: Self)
        ensures
            r == ThemeFormat::Toml,
    {
        ThemeFormat::Toml
    }
}

/// The builtin format that a name selects: `toml`, `json`, and `xresources`,
/// which is also known as `legacy-layout`.
pub open spec fn format_named(name: Seq<char>) -> Option<ThemeFormat> {
    if name == "toml"@ {
        Some(ThemeFormat::Toml)
    } else if name == "json"@ {
        Some(ThemeFormat::Json)
    } else if name == "xresources"@ || name == "legacy-layout"@ {
        Some(ThemeFormat::Xresources)
    } else {
        None
    }
}

/// `r` is what resolving the format name `name` gives: the builtin format it
/// selects, or an error that carries the name.
pub open spec fn format_result(name: Seq<char>, r: Result<ThemeFormat, FormatError>) -> bool {
    match format_named(name) {
        Some(f) => r == Ok::<ThemeFormat, FormatError>(f),
        None => r matches Err(FormatError::InvalidFormat(s)) && s@ == name,
    }
}

/// `r` is what resolving the request URL `url` gives.
pub open spec fn format_request(url: Seq<char>, r: Result<ThemeFormat, FormatError>) -> bool {
    match url_query(url) {
        None => r matches Err(FormatError::InvalidUrl(u)) && u@ == url,
        Some(pairs) => match first_value(pairs, "format"@) {
            None => r == Ok::<ThemeFormat, FormatError>(ThemeFormat::Toml),
            Some(name) => format_result(name, r),
        },
    }
}

/// A request whose query has no `format` parameter gets the default TOML
/// format.
pub proof fn lemma_no_format_gives_default(url: Seq<char>, r: Result<ThemeFormat, FormatError>)
    requires
        url_query(url) is Some,
        forall|i: int|
            0 <= i < url_query(url)->Some_0.len() ==> (#[trigger] url_query(url)->Some_0[i]).0
                != "format"@,
        format_request(url, r),
    ensures
        r == Ok::<ThemeFormat, FormatError>(ThemeFormat::Toml),
{
    let pairs = url_query(url)->Some_0;
    assert forall|i: int| 0 <= i < keys_of(pairs).len() implies keys_of(pairs)[i] != "format"@ by {
        assert(keys_of(pairs)[i] == pairs[i].0);
    }
    lemma_key_index_absent(keys_of(pairs), "format"@, 0);
}

/// A name that selects no builtin format is refused with an error that
/// carries it; it never falls back to the default.
pub proof fn lemma_unknown_format_refused(name: Seq<char>, r: Result<ThemeFormat, FormatError>)
    requires
        format_named(name) is None,
        format_result(name, r),
    ensures
        r matches Err(FormatError::InvalidFormat(s)) && s@ == name,
{
}

/// The text of the string at `key` in a theme table; empty where the key is
/// missing, holds no string, or the theme is not a table.
pub open spec fn field_text(t: Tree, key: Seq<char>) -> Seq<char> {
    match t {
        Tree::Table(e) => match first_value(e, key) {
            Some(Tree::Str(s)) => s,
            _ => Seq::empty(),
        },
        _ => Seq::empty(),
    }
}

/// One line of the fixed layout.
pub open spec fn layout_line(label: Seq<char>, value: Seq<char>) -> Seq<char> {
    label + value + "\n"@
}

/// The fixed Xresources layout of a theme.
pub open spec fn xresources_text(t: Tree) -> Seq<char> {
    "\n! Generated with theme-repo\n"@
    + layout_line("! Theme: "@, field_text(t, "name"@))
    + layout_line("*.foreground:  "@, field_text(t, "foreground"@))
    + layout_line("*.background:  "@, field_text(t, "background"@))
    + layout_line("*.cursorColor: "@, field_text(t, "cursor"@))
    + layout_line("*.color0:      "@, field_text(t, "color0"@))
    + layout_line("*.color8:      "@, field_text(t, "color8"@))
    + layout_line("*.color1:      "@, field_text(t, "color1"@))
    + layout_line("*.color9:      "@, field_text(t, "color9"@))
    + layout_line("*.color2:      "@, field_text(t, "color2"@))
    + layout_line("*.color10:     "@, field_text(t, "color10"@))
    + layout_line("*.color3:      "@, field_text(t, "color3"@))
    + layout_line("*.color11:     "@, field_text(t, "color11"@))
    + layout_line("*.color4:      "@, field_text(t, "color4"@))
    + layout_line("*.color12:     "@, field_text(t, "color12"@))
    + layout_line("*.color5:      "@, field_text(t, "color5"@))
    + layout_line("*.color13:     "@, field_text(t, "color13"@))
    + layout_line("*.color6:      "@, field_text(t, "color6"@))
    + layout_line("*.color14:     "@, field_text(t, "color14"@))
    + layout_line("*.color7:      "@, field_text(t, "color7"@))
    + layout_line("*.color15:     "@, field_text(t, "color15"@))
}

/// The string at `key` in a theme table, or an empty string.
pub fn field(data: &Value, key: &str) -> (r: String)
    ensures
        r@ == field_text(data@, key@),
{
    match data {
        Value::Table(entries) => {
            let k = key.to_string();
            proof {
                assert(keys_of(data@->Table_0) =~= string_keys(entries@));
            }
            match find_key(entries, &k) {
                Some(i) => {
                    assert(data@->Table_0[i as int].1 == entries@[i as int].1@);
                    match &entries[i].1 {
                        Value::String(s) => s.clone(),
                        _ => String::new(),
                    }
                },
                None => String::new(),
            }
        },
        _ => String::new(),
    }
}

fn push_field(out: &mut String, label: &str, data: &Value, key: &str)
    ensures
        final(out)@ == old(out)@ + layout_line(label@, field_text(data@, key@)),
{
    let value = field(data, key);
    out.append(label);
    out.append(value.as_str());
    out.append("\n");
    assert(final(out)@ =~= old(out)@ + layout_line(label@, field_text(data@, key@)));
}

impl ThemeFormat {
    /// Writes a theme in the fixed Xresources layout. A field that is missing
    /// or holds no string is written as an empty string.
    pub fn format_xresources(data: &Value) -> (r: String)
        ensures
            r@ == xresources_text(data@),
    {
        let mut out = "\n! Generated with theme-repo\n".to_string();
        push_field(&mut out, "! Theme: ", data, "name");
        push_field(&mut out, "*.foreground:  ", data, "foreground");
        push_field(&mut out, "*.background:  ", data, "background");
        push_field(&mut out, "*.cursorColor: ", data, "cursor");
        push_field(&mut out, "*.color0:      ", data, "color0");
        push_field(&mut out, "*.color8:      ", data, "color8");
        push_field(&mut out, "*.color1:      ", data, "color1");
        push_field(&mut out, "*.color9:      ", data, "color9");
        push_field(&mut out, "*.color2:      ", data, "color2");
        push_field(&mut out, "*.color10:     ", data, "color10");
        push_field(&mut out, "*.color3:      ", data, "color3");
        push_field(&mut out, "*.color11:     ", data, "color11");
        push_field(&mut out, "*.color4:      ", data, "color4");
        push_field(&mut out, "*.color12:     ", data, "color12");
        push_field(&mut out, "*.color5:      ", data, "color5");
        push_field(&mut out, "*.color13:     ", data, "color13");
        push_field(&mut out, "*.color6:      ", data, "color6");
        push_field(&mut out, "*.color14:     ", data, "color14");
        push_field(&mut out, "*.color7:      ", data, "color7");
        push_field(&mut out, "*.color15:     ", data, "color15");
        out
    }

    /// The builtin format with the given name.
    pub fn try_from(format: &str) -> (r: Result<ThemeFormat, FormatError>)
        ensures
            format_result(format@, r),
    {
        let name = format.to_string();
        if name == "toml".to_string() {
            Ok(ThemeFormat::Toml)
        } else if name == "json".to_string() {
            Ok(ThemeFormat::Json)
        } else if name == "xresources".to_string() || name == "legacy-layout".to_string() {
            Ok(ThemeFormat::Xresources)
        } else {
            Err(FormatError::InvalidFormat(name))
        }
    }

    /// The format that a request URL asks for with its first `format`
    /// parameter; TOML when it has none.
    pub fn from_url(url: &str) -> (r: Result<ThemeFormat, FormatError>)
        ensures
            format_request(url@, r),
    {
        match query_param(url, "format") {
            None => Err(FormatError::InvalidUrl(url.to_string())),
            Some(None) => Ok(ThemeFormat::default()),
            Some(Some(name)) => ThemeFormat::try_from(name.as_str()),
        }
    }
}

} // verus!
