//! Game-logic core of a voxel RPG: energy bookkeeping, items, inventories
//! and equipment, crafting, group invitations, the network handshake,
//! character states, the terrain meshing queue, GPU data packing and the
//! text that the user interface shows.

pub mod basic_aura;
pub mod boost;
pub mod channel;
pub mod character_states;
pub mod collections;
pub mod dash_melee;
pub mod energy;
pub mod group;
pub mod group_messages;
pub mod hud;
pub mod inventory;
pub mod inventory_manip;
pub mod item;
pub mod mesh_queue;
pub mod pipelines;
pub mod plugin_hello;
pub mod recipe;
pub mod recipe_book;
pub mod region;
pub mod sentinel;
pub mod slot;
pub mod stage;
pub mod terrain_chunks;
pub mod text;
pub mod ui_cache;
