pub mod cli;
pub mod format;
pub mod lookup;
pub mod query;
pub mod route;
pub mod template;
pub mod theme;
pub mod value;
