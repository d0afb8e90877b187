pub mod token;
pub mod attr;
pub mod error;
pub mod attribute;
pub mod field;
pub mod entity;
pub mod code;
pub mod expand;
pub mod id;
pub mod entities;
pub mod laws;
