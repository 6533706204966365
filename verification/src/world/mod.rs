pub mod block;
pub mod cave_dressing;
pub mod caves;
pub mod chunk;
pub mod decimal;
pub mod end;
pub mod fortress;
pub mod inventory;
pub mod item;
pub mod nether;
pub mod recipe;
pub mod recipe_book;
pub mod redstone;
pub mod rules;
pub mod requests;
pub mod simulation;
pub mod stronghold;
pub mod structures;
pub mod vegetation;

pub use self::simulation::World;
