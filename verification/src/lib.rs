//! An in-memory paste store for many devices.
//!
//! Every paste is filed under a short identifier and belongs to the device
//! that submitted it. A device keeps at most [`DEVICE_PASTE_LIMIT`] pastes:
//! when it submits another, its oldest ones make room. Only the owner can
//! read a paste back.
//!
//! [`model`] says what the store is and what each operation makes of it,
//! [`io`] holds the store itself, [`generate`] makes identifiers and device
//! codes, [`params`] and [`routes`] decide what a request is owed, and
//! [`laws`] states what holds of the store whatever is submitted.

pub mod errors;
pub mod generate;
pub mod io;
pub mod laws;
pub mod lemmas;
pub mod linked_map;
pub mod model;
pub mod params;
pub mod random;
pub mod routes;
pub mod seq_lemmas;
pub mod text;

pub use errors::{BadRequest, InternalServerError, NotFound, RequestError, Unauthorized};
pub use generate::{generate_id, generate_id_with, generate_unique_device_code};
pub use io::{
    get_all_paste_ids, get_paste, known_owners, purge_device_old, store_paste, Paste, PasteStore,
};
pub use model::{Entry, DEVICE_PASTE_LIMIT};
pub use params::{DeviceCode, HostHeader, IsPlaintextRequest};
