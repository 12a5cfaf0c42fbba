pub mod count;
pub mod positive;
pub mod report;
pub mod text;
pub mod totals;
pub mod width;

pub use count::count;
pub use count::FileInfo;
pub use positive::parse_positive_int;
pub use report::format_field;
pub use report::format_row;
pub use report::report;
pub use report::resolve;
pub use report::Config;
pub use report::Input;
pub use report::Report;
pub use totals::tally;
pub use totals::Totals;
pub use width::column_width;
pub use width::decimal_len;
pub use width::Selection;
