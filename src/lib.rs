//! Keyboard layouts as directed graphs of physically adjacent keys.
//!
//! A layout is described by a text grid of its keys. Each key becomes a node
//! and each key is linked to its neighbours, every edge carrying where the
//! neighbour sits relative to the key.

pub mod connect;
pub mod direction;
pub mod graph;
pub mod grid;
pub mod key;
pub mod laws;
pub mod layout;
pub mod named;

pub use connect::connect_keyboard_nodes;
pub use direction::{
    get_aligned_positions, get_positions, get_slanted_positions, Direction, Edge, KeyboardStyle,
};
pub use graph::{KeyGraph, KeySearch, Keyboard};
pub use grid::parse_grid;
pub use key::{Key, NO_CHAR};
pub use layout::{
    add_alphabetics, add_remaining_keys, add_unshifted_number_keys, build_layout, keys_from_table,
    BaseKeys,
};
pub use named::{
    generate_dvorak, generate_mac_numpad, generate_qwerty_uk, generate_qwerty_us,
    generate_standard_numpad,
};
