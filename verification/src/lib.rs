//! A verified manual-mapping engine for Windows dynamic-link libraries.
//!
//! The library models every step a loader performs when a PE image becomes a
//! live module in a foreign process: validating the image, placing headers and
//! sections at their virtual offsets, fixing up base relocations, resolving
//! the import address table, collecting TLS callbacks, and sequencing the
//! cross-process calls. All of that is plain logic on byte buffers and is
//! verified here; the operating-system calls themselves are performed by an
//! unverified driver that follows the step-by-step plan this library emits.

pub mod bytes;
pub mod errors;
pub mod image;
pub mod imports;
pub mod inject;
pub mod names;
pub mod pe;
pub mod reloc;
pub mod tls;

