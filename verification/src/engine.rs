//! The game-side modules that consume decoded messages: players, items,
//! bags, unique-id generation, database bookkeeping and the handler tables.

pub mod bag;
pub mod db;
pub mod db_state;
pub mod errors;
pub mod game_state;
pub mod gm;
pub mod handlers;
pub mod item;
pub mod item_mgr;
pub mod op_state;
pub mod player;
pub mod rpc_state;
pub mod uuid;
