//! Terminal sandbox world model: blocks, items, inventories, crafting recipes and
//! chunk storage, with their rules stated and proved.

pub mod world;
