pub mod assoc;
pub mod base;
pub mod devtools;
pub mod duel;
pub mod json;
pub mod parser;
pub mod tags;
pub mod text;
pub mod dz;
