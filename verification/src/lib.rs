//! Verified core of the simp image viewer: the natural ordering of file names,
//! the sorted image list of a directory and the position in it, the undo
//! history, the queue that takes one request at a time, the record of cached
//! images, what a finished request does to the image on screen and its
//! history, the keybinds, the order in which decoders are tried, the choice of encoder, the
//! quarter-turn arithmetic of the view, the tiles a large image is cut into,
//! and the EXIF dates used for sorting.

pub mod natural_cmp;
pub mod text;
pub mod preferences;
pub mod image_list;
pub mod undo_stack;
pub mod extensions;
pub mod load_image;
pub mod image_loader;
pub mod image_view;
pub mod save_image;
pub mod vec2;
pub mod cache;
pub mod op_queue;
pub mod exif_date;
pub mod labels;
pub mod mosaic;
pub mod output;
pub mod keymap;
