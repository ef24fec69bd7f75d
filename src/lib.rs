pub mod highlight;
pub mod options;
pub mod oracle;
pub mod search;

pub use options::{Options, OptionsError, SurroundValue, TextSource, ToStringValue};
pub use search::{rank_matches, Fuzzr, SearchResultItem};
