pub mod text;
pub mod message;
pub mod bytes;
pub mod enums;
pub mod value;
pub mod structs;
pub mod outcome;
pub mod row;
pub mod evaluate;
pub mod page;
pub mod scan;
pub mod parsing;
pub mod sql;
pub mod create;
pub mod describe;
pub mod cache;
pub mod laws;
pub mod page_laws;
