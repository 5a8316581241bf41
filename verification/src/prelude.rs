//! The names that most callers need.
pub use crate::cache::IdCacheNxM;
pub use crate::static_id::{
    IdCache, IdCache16x16, IdCache16x32, IdCache16x64, IdCache32x16, IdCache32x32, IdCache32x64,
    IdCache64x16, IdCache64x32, IdCache64x64, IdCore, IdCore16x16, IdCore16x32, IdCore16x64,
    IdCore32x16, IdCore32x32, IdCore32x64, IdCore64x16, IdCore64x32, IdCore64x64, IdCoreNxM,
    ParseIdError, StaticId, StaticId16x16, StaticId16x32, StaticId16x64, StaticId32x16,
    StaticId32x32, StaticId32x64, StaticId64x16, StaticId64x32, StaticId64x64, StaticIdNxM,
};
pub use crate::symbol::{Symbol, TextTooLong};
