pub mod span;
pub mod tokens;
pub mod transaction;
pub mod format2;
pub mod items;
