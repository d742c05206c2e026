[package]
name = "simp"
version = "0.1.0"
edition = "2021"
publish = false

[dependencies]
lru = "0.12"
image = { version = "0.25", default-features = false, features = ["png", "jpeg", "gif", "bmp", "ico", "tiff", "webp", "tga", "pnm", "qoi", "hdr", "dds", "ff", "exr"] }
clap = "4"
clap_mangen = "*"
rexif = "*"
time = { version = "0.3", features = ["macros", "parsing"] }
nanoid = "*"
serde = { version = "1", features = ["derive"] }
confy = "*"
trash = "*"
psd = "*"
qoi = "*"
resvg = "*"
arboard = "*"
ctrlc = "*"
libwebp = "*"
webp-animation = "*"
rawloader = "*"
imagepipe = "*"
