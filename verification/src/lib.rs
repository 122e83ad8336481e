//! Core of a Mandelbrot-set renderer.
//!
//! The library holds the integer-valued logic of the renderer: the iteration
//! limit tiers, validation of the render configuration, the partition of the
//! image into horizontal bands for parallel work, and the derivation of a
//! grayscale byte from an escape-time result. The floating-point kernel that
//! maps pixels to points of the complex plane and iterates `z = z*z + c`, as
//! well as argument parsing, thread spawning and image-file output, live in
//! the surrounding binary.

mod bands;
mod config;
mod limit;
mod shade;

pub use bands::Band;
pub use bands::band_count;
pub use bands::band_height;
pub use bands::band_layout;
pub use bands::band_of_row;
pub use bands::band_top;
pub use bands::lemma_band_partition;
pub use bands::lemma_bands_tile;
pub use bands::lemma_chunks_match_bands;
pub use bands::lemma_row_major_index;
pub use bands::rows_per_band;
pub use bands::spec_rows_per_band;
pub use config::ConfigError;
pub use config::buffer_len;
pub use config::check_config;
pub use config::config_ok;
pub use limit::Limit;
pub use shade::lemma_shade_deterministic;
pub use shade::pixel_shade;
pub use shade::shade_row;
pub use shade::spec_shade;
