//! Interned identifiers made of a code and a venue, such as a ticker and an
//! exchange.
//!
//! A [`Symbol`] holds up to `N` bytes of text in a buffer of exactly `N`
//! bytes: the text, then end marks. An [`IdCoreNxM`](static_id::IdCoreNxM)
//! is a pair of symbols, a code of capacity `N` and a venue of capacity `M`.
//! An [`IdCacheNxM`](cache::IdCacheNxM) keeps one permanent cell for every
//! distinct pair it was asked for, and a
//! [`StaticIdNxM`](static_id::StaticIdNxM) is a handle of one machine word
//! to such a cell. Handles of one cache are equal exactly when their pairs
//! are, and comparing or hashing them reads no byte of text.
//!
//! The cache is a value that the caller owns and hands to the functions that
//! intern. A program that wants one cache for each size, shared by all its
//! threads, keeps each behind a lock.
//!
//! The modules, leaves first:
//! - [`bytes`]: where a byte first occurs in a byte sequence, and the text
//!   that bytes spell;
//! - [`symbol`]: the fixed-capacity text;
//! - [`arena`]: the model of a cache, a sequence without repeats that grows
//!   at its end;
//! - [`static_id`]: the pair, the handle, and the nine sizes of each;
//! - [`cache`]: the cache;
//! - [`laws`]: what holds of all of them, proved.
pub mod arena;
pub mod bytes;
pub mod cache;
pub mod laws;
pub mod prelude;
pub mod static_id;
pub mod symbol;

pub use symbol::Symbol;
