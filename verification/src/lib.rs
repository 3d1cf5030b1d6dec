//! A small bookmark catalog: named menus forming a hierarchy, and URL
//! entries stored under them in a local relational store. URLs are
//! validated syntactically before admission and percent-encoded, together
//! with display names, for safe storage.

mod catalog;
mod codec;
mod entry;
mod store;
mod url;

pub use catalog::CatalogError;
pub use catalog::cat_err;
pub use catalog::cat_ok;
pub use catalog::usage_err;
pub use catalog::Command;
pub use catalog::Outcome;
pub use catalog::UsageError;
pub use catalog::apply_command;
pub use catalog::lemma_parent_links_preserved;
pub use catalog::parent_links_resolve;
pub use catalog::parse_command;
pub use codec::dec_bytes;
pub use codec::decode;
pub use codec::enc_byte;
pub use codec::enc_bytes;
pub use codec::hex_digit;
pub use codec::hex_val;
pub use codec::is_hex;
pub use codec::is_unreserved;
pub use codec::lemma_dec_enc_bytes;
pub use codec::decoded;
pub use codec::encode;
pub use codec::encoded;
pub use codec::lemma_decode_encode;
pub use entry::Entry;
pub use entry::ValidationError;
pub use entry::build_entry;
pub use entry::lemma_valid_url_segments;
pub use entry::split_char;
pub use entry::split_slash;
pub use store::StoreError;
pub use store::opt_ref_view;
pub use store::opt_view;
pub use store::create_entry;
pub use store::create_menu;
pub use store::entry_record;
pub use store::entry_rows;
pub use store::init_catalog;
pub use store::menu_parent;
pub use store::menu_rows;
pub use url::dotted_tail_at;
pub use url::is_alnum;
pub use url::is_valid_url;
pub use url::scheme_at;
pub use url::valid_url;
