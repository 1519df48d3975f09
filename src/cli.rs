use vstd::prelude::*;

verus! {

/// Where the server finds its files.
#[derive(Debug, Clone)]
pub struct Args {
    /// Path to the themes directory.
    pub themes_path: String,
    /// Path to the templates directory.
    pub templates_path: String,
}

impl Default for Args {
    fn default() -> (r: Self)
        ensures
            r.themes_path@ == "./themes"@,
            r.templates_path@ == "./templates"@,
    {
        Args { themes_path: "./themes".to_string(), templates_path: "./templates".to_string() }
    }
}

} // verus!
