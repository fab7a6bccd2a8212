//! Password hashing in several algorithms, with the formats, rules and
//! request handling of the hashing service stated and proved.

pub mod algorithm;
pub mod text;
pub mod crypto;
pub mod phpass;
pub mod hash;
pub mod service;
