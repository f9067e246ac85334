//! A first-person renderer for worlds laid out on a grid, in the manner of
//! the early corridor shooters: walls are found by casting one ray per
//! screen column through the grid, floor and ceiling are mapped row by row,
//! and sprites are flat pictures that face the camera and hide behind
//! walls.
//!
//! The library does the geometry and leaves the drawing to its host. A
//! frame is three passes over a [`player::Player`]:
//!
//! 1. [`player::Player::raycast`] casts the rays ([`raycast::Ray`]), hands
//!    back one wall strip per column and fills the depth buffer;
//! 2. [`player::Player::draw_floor`] paints the picture of floor and
//!    ceiling into an image in processor memory;
//! 3. [`player::Player::draw_sprites`] sorts the sprites back to front and
//!    hands back their strips, column by column, wherever they are nearer
//!    than the wall of that column.
//!
//! Between frames [`player::Player::movement`] moves the camera as the
//! keys ask, never into a wall.
//!
//! All numbers with a fractional part are fixed-point ([`fixed::Fixed`]):
//! sixteen fractional bits, results rounded down, saturating at
//! [`fixed::INFINITE`]. No function of the library can overflow, divide by
//! zero, index out of bounds or loop without end; what each one returns is
//! stated in its contract, and [`laws`] states what holds of the renderer
//! as a whole.

pub mod canvas;
pub mod color;
pub mod display;
pub mod fixed;
pub mod floor;
pub mod laws;
pub mod map;
pub mod motion;
pub mod player;
pub mod raycast;
pub mod sprites;
pub mod walls;
