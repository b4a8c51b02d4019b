[package]
name = "batch_image_processing"
version = "0.1.0"
edition = "2021"
publish = false

[dependencies]
image = "=0.25.10"
imageproc = "=0.27.0"
ab_glyph = "=0.2.32"
pdf-writer = "=0.15.0"
memmap2 = "=0.9.12"
zune-core = "=0.5.3"
zune-jpeg = "=0.5.15"
lru = "=0.19.0"
parking_lot = "=0.12.5"
rapidhash = "=4.5.1"
rayon = "=1.12.0"
mimalloc = "=0.1.52"
