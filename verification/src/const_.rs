use vstd::prelude::*;

pub mod files;

verus! {

/// Port the server listens on.
pub const TOKIO_PORT: u16 = 80;

/// Length in bytes of the initialisation vectors used to encrypt the request log.
pub const IV_SIZE: usize = 16;

/// Key used to encrypt the request log.
pub const LOG_KEY: [u8; 16] = [0x84, 2, 3, 0x84, 0xb5, 0xf6, 0xf7, 8, 0xa, 10, 0x11, 12, 0xfb, 0xfb, 15, 7];

/// Name of the request header that carries the administrator cookie.
pub const HEADER_NAME: &'static str = "cookie";

/// Largest number of headers a request may carry.
pub const MAX_NB_HEADERS: usize = 255;

/// File that holds the administrator cookie.
pub const COOKIE_PATH: &'static str = "cookie";

/// Page served for the path `/`.
pub const ACCUEIL: &'static str = "/welcome.html";

} // verus!
