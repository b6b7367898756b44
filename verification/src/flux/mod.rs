//! Pure flux, PLL, and Amiga MFM processing.

pub mod amigados;
pub mod following;
pub mod laws;
pub mod mfm;
pub mod overlap;
pub mod packed;
pub mod pll;
pub mod rotation;
pub mod scan;

pub use mfm::mfm_to_flux;
pub use overlap::{bits_to_unaligned_revolution, flux_to_unaligned_revolution};
pub use packed::pack_bits;
pub use pll::{FluxEvent, PllDecoder};
pub use rotation::{flux_to_revolution, rotate_revolution, MAX_TRACK_BITS};
pub use scan::{scan_revolution, RevolutionScan};
