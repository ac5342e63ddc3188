//! Grid splitting of pictures on a chat command.
//!
//! A chat message such as `裁剪 3x3` asks for the picture that comes with it
//! (or the picture of the message it answers) to be cut into a grid of equal
//! tiles. This library holds the rules of that service: the command grammar,
//! the search for the picture, the grid policy and the tile geometry, and the
//! bundling of the tiles for the answer. Waiting is left to the caller: the
//! two parts that wait, the search for the picture and the work as a whole,
//! are state machines that take an event and give an action.
//!
//! Everything here is verified but the calls into other crates, which are
//! kept together in [`codec`]: decoding a picture, writing a tile as a PNG
//! file, writing the file as text, and reading a byte buffer.

pub mod assembler;
pub mod codec;
pub mod command;
pub mod grid;
pub mod locator;
pub mod pipeline;
pub mod splitter;
pub mod text;

pub use command::parse_command;
pub use locator::get_image_url;
pub use splitter::split_image_blocking;
