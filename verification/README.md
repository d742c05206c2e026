# simp

The core of the simp image viewer as a Verus-verified library, with a terminal
program around it.

- `src/` is the library. Its functions carry contracts that Verus proves,
  apart from the trusted wrappers named below: how file names are ordered (`natural_cmp`), how the images of a
  directory are sorted and stepped through (`image_list`), the undo history
  (`undo_stack`), what each finished request does to the image on screen and
  to that history (`output`), the keybinds and which menu items can be chosen (`keymap`), the request queue
  (`op_queue`), the record of cached images
  (`cache`, over the `lru` crate), the decoder order and encoder choice
  (`load_image`, `save_image`, `extensions`; EXIF tags are read through
  `rexif`), the quarter turns of the view
  (`image_view`), the tiles a large image is cut into (`mosaic`), and the EXIF dates used for sorting (`exif_date`, read from the
  bytes of a file through `rexif` and `time`). The calls into `lru`, `time` and `rexif` go through a few trusted
  wrappers whose contracts are read from those crates' sources, not proved. The public proof functions state the laws the library keeps,
  such as the transitivity of the natural order or what an undo after a redo
  returns to.
- `tests/` runs the library on concrete values.
- `app/` is the program: command line, preferences file, decoding and encoding
  with the image crates, the clipboard, the trash and the threads that do the
  work the library's queue asks for. It has no window: it prints what it shows
  and takes commands (`n`, `p`, `l`, `r`, `h`, `v`, `u`, `redo`, `s <path>`,
  `o <path>`, `d`, `resize <w> <h>`, `crop <x> <y> <w> <h>`, `gray`, `invert`,
  `sort <key>`, `pixel <x> <y>`, `info`, `menu`, `key <keybind>` such as `key ctrl+z`,
  `q`) on the terminal. A question, such as whether to drop unsaved changes,
  is answered by the next line (`y` for yes).
