//! The logic of a set of terminal dashboard widgets, verified with Verus:
//! text handling, the lyrics widget's metadata, search and song state, memory
//! labels, the map marker, the Game of Life board, the donut frame painter
//! and the audio source configuration.
pub mod cava;
pub mod donut;
pub mod geo;
pub mod life;
pub mod lyrics;
pub mod system;
pub mod text;
