pub mod dead_alt;
pub mod hollow;
pub mod mutation;
pub mod rust_smells;
pub mod claims;
pub mod hedge;
pub mod version;
