//! Verified core of the Furnace map editor: the brush geometry, the text of
//! the `.map` and `.furnace` files, the editor state and the transfer encoding.
pub mod compile;
pub mod furnace;
pub mod map_info;
pub mod mesh;
pub mod round_trip;
pub mod text;
pub mod textures;
pub mod transfer;
pub mod ui;
