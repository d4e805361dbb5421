//! Verified recipe, crafting and furnace logic of a Minecraft-compatible server.

pub mod util;
pub mod identifier;
pub mod key_index;
pub mod items;
pub mod components;
pub mod item_stack;
pub mod ingredient;
pub mod recipe;

pub mod recipe_manager;
pub mod fuel_values;
pub mod furnace;
pub mod furnace_menu;
pub mod campfire;
pub mod block_pos;
pub mod pos_set;
pub mod bench_support;
pub mod protocol;
pub mod suggestion;
pub mod mob_effect;
pub mod consume_effect;
pub mod furnace_block;
pub mod playsound;
pub mod behavior;
pub mod slots;
