pub mod application;
pub mod chat_system;
pub mod command_handle_system;
pub mod component_map;
pub mod components;
pub mod dialogue_manager;
pub mod dialogue_system;
pub mod frame_state;
pub mod game_state;
pub mod game_system;
pub mod input;
pub mod inventory_system;
pub mod item_pickup_system;
pub mod item_placement_system;
pub mod names;
pub mod object_selection_system;
pub mod position_manager;
pub mod render_batching;
pub mod storage_manager;
pub mod ui_state;
