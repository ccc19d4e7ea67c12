pub mod error;
pub mod flatten;
pub mod formats;
pub mod query;
pub mod recent;
pub mod redact;
pub mod schema;
pub mod tabular;
pub mod text;
pub mod token;
pub mod value;
