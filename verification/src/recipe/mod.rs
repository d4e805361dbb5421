//! Recipe data, matching and registries.

pub mod properties;
pub mod types;
pub mod registry;
pub mod crafting;
pub mod matching;
pub mod special;
pub mod single_item;
pub mod smithing;
pub mod vanilla;
pub mod serializer;
