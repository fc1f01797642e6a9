pub mod types;
pub mod text;
pub mod library;
pub mod pager;
mod month_keys;
pub mod pagination_date;
pub mod laws;
