pub mod const_;
pub mod crypto;
pub mod error;
pub mod flags;
pub mod http_;
pub mod init;
pub mod laws;
pub mod outside;
pub mod serve;
pub mod text;

pub use const_::files;
pub use const_::{ACCUEIL, COOKIE_PATH, HEADER_NAME, IV_SIZE, LOG_KEY, MAX_NB_HEADERS, TOKIO_PORT};
pub use crypto::{aes_cbc_cipher, get_padded_size, update_iv};
pub use error::Error;
pub use http_::{build_reply, handle_http};
