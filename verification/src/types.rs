pub mod conditions;
pub mod field;
pub mod keyboard;
pub mod node;
pub mod typs;
