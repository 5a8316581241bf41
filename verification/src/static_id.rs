//! The identifier: a pair of symbols, and the one-word handle to the cell
//! that a cache keeps for such a pair.
use crate::arena::{place_of, with_item};
use crate::bytes::{split_at_first, split_first, text_of};
use crate::cache::IdCacheNxM;
use crate::symbol::{clip, Symbol};
use vstd::prelude::*;
use vstd::std_specs::cmp::PartialEqSpecImpl;
use vstd::string::StringExecFns;
use vstd::string::StringSliceAdditionalSpecFns;

verus! {

/// The byte that stands between code and venue in the text of an
/// identifier: `@`.
pub const SEPARATOR: u8 = 0x40;

/// Why a text is not that of an identifier.
#[derive(Clone, Copy, Debug, PartialEq, Eq)]
pub enum ParseIdError {
    /// The text has no `@`.
    MissingSeparator,
}

/// A code and a venue: what is interned.
#[derive(Clone, Copy, Debug, PartialEq, Eq, Hash)]
pub struct IdCoreNxM<const N: usize, const M: usize> {
    pub code: Symbol<N>,
    pub venue: Symbol<M>,
}

impl<const N: usize, const M: usize> IdCoreNxM<N, M> {
    /// Both symbols are well formed.
    pub open spec fn wf(&self) -> bool {
        self.code.wf() && self.venue.wf()
    }

    /// The pair that is made of the bytes `code` and `venue`: of each, what
    /// a symbol of its capacity keeps.
    pub open spec fn of_text(code: Seq<u8>, venue: Seq<u8>) -> Self {
        IdCoreNxM {
            code: Symbol::of_text(clip(code, N as nat)),
            venue: Symbol::of_text(clip(venue, M as nat)),
        }
    }

    /// The pair that the text `bytes` names: of what stands before its
    /// first `@` and what stands after it. Nothing where it has no `@`.
    pub open spec fn parsed(bytes: Seq<u8>) -> Option<Self> {
        match split_first(bytes, SEPARATOR) {
            Some((code, venue)) => Some(Self::of_text(code, venue)),
            None => None,
        }
    }

    /// The bytes of text in code and venue together.
    pub open spec fn text_len(&self) -> nat {
        self.code@.len() + self.venue@.len()
    }

    /// The two buffers: the key by which a cache finds the pair again.
    pub open spec fn key(&self) -> ([u8; N], [u8; M]) {
        (self.code.buffer(), self.venue.buffer())
    }

    /// The text of the pair: code, `@`, venue, each as far as its bytes are
    /// valid UTF-8.
    pub open spec fn shown(&self) -> Seq<char> {
        text_of(self.code@) + seq!['@'] + text_of(self.venue@)
    }

    /// The pair of two byte strings, each cut as its symbol cuts it.
    pub fn from_bytes(code: &[u8], venue: &[u8]) -> (id: Self)
        ensures
            id == Self::of_text(code@, venue@),
    {
        IdCoreNxM { code: Symbol::from(code), venue: Symbol::from(venue) }
    }

    /// The pair of two texts, each cut as its symbol cuts it.
    pub fn from_str(code: &str, venue: &str) -> (id: Self)
        ensures
            id == Self::of_text(code.spec_bytes(), venue.spec_bytes()),
    {
        IdCoreNxM { code: Symbol::from(code), venue: Symbol::from(venue) }
    }

    /// The pair that `combined` names: code before its first `@`, venue
    /// after it. A text without `@` names none.
    pub fn parse(combined: &str) -> (r: Result<Self, ParseIdError>)
        ensures
            match Self::parsed(combined.spec_bytes()) {
                Some(id) => r == Ok::<Self, ParseIdError>(id),
                None => r == Err::<Self, ParseIdError>(ParseIdError::MissingSeparator),
            },
    {
        match split_at_first(combined.as_bytes(), SEPARATOR) {
            Some((code, venue)) => Ok(Self::from_bytes(code, venue)),
            None => Err(ParseIdError::MissingSeparator),
        }
    }
}

impl<const N: usize, const M: usize> Default for IdCoreNxM<N, M> {
    /// The pair without text.
    fn default() -> (id: Self)
        ensures
            id == Self::of_text(Seq::empty(), Seq::empty()),
    {
        assert(clip(Seq::<u8>::empty(), N as nat) =~= Seq::<u8>::empty());
        assert(clip(Seq::<u8>::empty(), M as nat) =~= Seq::<u8>::empty());
        IdCoreNxM { code: Symbol::default(), venue: Symbol::default() }
    }
}

/// The permanent cell of one interned pair: the pair, and its place in the
/// cache that made the cell.
#[derive(Debug)]
pub(crate) struct IdEntryNxM<const N: usize, const M: usize> {
    pub(crate) id: IdCoreNxM<N, M>,
    pub(crate) slot: usize,
}

/// An interned identifier: one reference to the cell that its cache keeps
/// for the pair. Two of one cache are equal exactly when they refer to the
/// same cell.
#[derive(Clone, Copy, Debug)]
pub struct StaticIdNxM<const N: usize, const M: usize> {
    id_ptr: &'static IdEntryNxM<N, M>,
}

impl<const N: usize, const M: usize> StaticIdNxM<N, M> {
    /// The two capacities add up within `usize`.
    #[verifier::type_invariant]
    pub closed spec fn wf(&self) -> bool {
        N + M <= usize::MAX
    }

    /// The pair that the identifier stands for.
    pub closed spec fn id_core(&self) -> IdCoreNxM<N, M> {
        self.id_ptr.id
    }

    /// The place of the identifier's cell in its cache.
    pub closed spec fn slot(&self) -> nat {
        self.id_ptr.slot as nat
    }

    /// The identifier's cell is one of `cells`: at its place stands its
    /// pair.
    pub open spec fn cell_in(&self, cells: Seq<IdCoreNxM<N, M>>) -> bool {
        self.slot() < cells.len() && cells[self.slot() as int] == self.id_core()
    }

    /// The identifier is what a cache gives for `id`, where `before` are
    /// the cache's pairs when it is asked and `after` its pairs when it
    /// has answered: it stands for `id`, at the place that `id` had or,
    /// where it had none, at the end, where `id` is added.
    pub open spec fn interned(
        &self,
        before: Seq<IdCoreNxM<N, M>>,
        after: Seq<IdCoreNxM<N, M>>,
        id: IdCoreNxM<N, M>,
    ) -> bool {
        &&& after == with_item(before, id)
        &&& self.slot() == place_of(before, id)
        &&& self.id_core() == id
    }

    /// The handle to `entry`.
    pub(crate) fn of_entry(entry: &'static IdEntryNxM<N, M>) -> (id: Self)
        requires
            N + M <= usize::MAX,
        ensures
            id.id_core() == entry.id,
            id.slot() == entry.slot,
    {
        StaticIdNxM { id_ptr: entry }
    }

    /// The identifier of the pair without text.
    pub fn default(cache: &mut IdCacheNxM<N, M>) -> (id: Self)
        requires
            old(cache).wf(),
        ensures
            final(cache).wf(),
            id.interned(
                old(cache)@,
                final(cache)@,
                IdCoreNxM::of_text(Seq::empty(), Seq::empty()),
            ),
    {
        cache.intern(IdCoreNxM::default())
    }

    /// The bytes of text in code and venue together.
    pub fn len(&self) -> (n: usize)
        ensures
            n == self.id_core().text_len(),
    {
        proof {
            use_type_invariant(self);
            self.id_ptr.id.code.lemma_view_fits();
            self.id_ptr.id.venue.lemma_view_fits();
        }
        self.id_ptr.id.code.len() + self.id_ptr.id.venue.len()
    }

    /// Whether neither code nor venue has any text.
    pub fn is_empty(&self) -> (b: bool)
        ensures
            b <==> self.id_core().text_len() == 0,
    {
        self.id_ptr.id.code.is_empty() && self.id_ptr.id.venue.is_empty()
    }

    /// The most bytes of text that code and venue can hold together,
    /// whatever they hold now.
    pub fn upper_bound_len(&self) -> (n: usize)
        ensures
            n == N + M,
    {
        proof {
            use_type_invariant(self);
        }
        self.id_ptr.id.code.upper_bound() + self.id_ptr.id.venue.upper_bound()
    }

    /// The code as a string slice, as far as its bytes are valid UTF-8.
    #[must_use]
    pub fn code_str(&self) -> (s: &str)
        ensures
            s@ == text_of(self.id_core().code@),
    {
        self.id_ptr.id.code.as_str()
    }

    /// The venue as a string slice, as far as its bytes are valid UTF-8.
    #[must_use]
    pub fn venue_str(&self) -> (s: &str)
        ensures
            s@ == text_of(self.id_core().venue@),
    {
        self.id_ptr.id.venue.as_str()
    }

    /// The text of the identifier: code, `@`, venue.
    pub fn to_string(&self) -> (s: String)
        ensures
            s@ == self.id_core().shown(),
    {
        proof {
            reveal_strlit("@");
        }
        let s = String::from_str(self.code_str());
        let s = s.concat("@");
        assert("@"@ =~= seq!['@']);
        s.concat(self.venue_str())
    }
}

impl<const N: usize, const M: usize> PartialEq for StaticIdNxM<N, M> {
    /// Whether both refer to the same cell. No byte of text is read.
    fn eq(&self, other: &Self) -> (r: bool) {
        self.id_ptr.slot == other.id_ptr.slot
    }
}

impl<const N: usize, const M: usize> PartialEqSpecImpl for StaticIdNxM<N, M> {
    open spec fn obeys_eq_spec() -> bool {
        true
    }

    open spec fn eq_spec(&self, other: &Self) -> bool {
        self.slot() == other.slot()
    }
}

impl<const N: usize, const M: usize> Eq for StaticIdNxM<N, M> {

}

impl<const N: usize, const M: usize> core::hash::Hash for StaticIdNxM<N, M> {
    /// `Hash::hash` of the place of the cell, a `usize`: identifiers that
    /// are equal hash alike, and no byte of text is read.
    #[verifier::external_body]
    fn hash<H: core::hash::Hasher>(&self, state: &mut H) {
        self.id_ptr.slot.hash(state)
    }
}

/// The pair with 16 bytes of code and 16 of venue.
pub type IdCore16x16 = IdCoreNxM<16, 16>;

/// The pair with 16 bytes of code and 32 of venue.
pub type IdCore16x32 = IdCoreNxM<16, 32>;

/// The pair with 16 bytes of code and 64 of venue.
pub type IdCore16x64 = IdCoreNxM<16, 64>;

/// The pair with 32 bytes of code and 16 of venue.
pub type IdCore32x16 = IdCoreNxM<32, 16>;

/// The pair with 32 bytes of code and 32 of venue.
pub type IdCore32x32 = IdCoreNxM<32, 32>;

/// The pair with 32 bytes of code and 64 of venue.
pub type IdCore32x64 = IdCoreNxM<32, 64>;

/// The pair with 64 bytes of code and 16 of venue.
pub type IdCore64x16 = IdCoreNxM<64, 16>;

/// The pair with 64 bytes of code and 32 of venue.
pub type IdCore64x32 = IdCoreNxM<64, 32>;

/// The pair with 64 bytes of code and 64 of venue.
pub type IdCore64x64 = IdCoreNxM<64, 64>;

/// The pair of the usual size: 32 bytes of code and 32 of venue.
pub type IdCore = IdCoreNxM<32, 32>;

/// The cache with 16 bytes of code and 16 of venue.
pub type IdCache16x16 = IdCacheNxM<16, 16>;

/// The cache with 16 bytes of code and 32 of venue.
pub type IdCache16x32 = IdCacheNxM<16, 32>;

/// The cache with 16 bytes of code and 64 of venue.
pub type IdCache16x64 = IdCacheNxM<16, 64>;

/// The cache with 32 bytes of code and 16 of venue.
pub type IdCache32x16 = IdCacheNxM<32, 16>;

/// The cache with 32 bytes of code and 32 of venue.
pub type IdCache32x32 = IdCacheNxM<32, 32>;

/// The cache with 32 bytes of code and 64 of venue.
pub type IdCache32x64 = IdCacheNxM<32, 64>;

/// The cache with 64 bytes of code and 16 of venue.
pub type IdCache64x16 = IdCacheNxM<64, 16>;

/// The cache with 64 bytes of code and 32 of venue.
pub type IdCache64x32 = IdCacheNxM<64, 32>;

/// The cache with 64 bytes of code and 64 of venue.
pub type IdCache64x64 = IdCacheNxM<64, 64>;

/// The cache of the usual size: 32 bytes of code and 32 of venue.
pub type IdCache = IdCacheNxM<32, 32>;

/// The identifier with 16 bytes of code and 16 of venue.
pub type StaticId16x16 = StaticIdNxM<16, 16>;

/// The identifier with 16 bytes of code and 32 of venue.
pub type StaticId16x32 = StaticIdNxM<16, 32>;

/// The identifier with 16 bytes of code and 64 of venue.
pub type StaticId16x64 = StaticIdNxM<16, 64>;

/// The identifier with 32 bytes of code and 16 of venue.
pub type StaticId32x16 = StaticIdNxM<32, 16>;

/// The identifier with 32 bytes of code and 32 of venue.
pub type StaticId32x32 = StaticIdNxM<32, 32>;

/// The identifier with 32 bytes of code and 64 of venue.
pub type StaticId32x64 = StaticIdNxM<32, 64>;

/// The identifier with 64 bytes of code and 16 of venue.
pub type StaticId64x16 = StaticIdNxM<64, 16>;

/// The identifier with 64 bytes of code and 32 of venue.
pub type StaticId64x32 = StaticIdNxM<64, 32>;

/// The identifier with 64 bytes of code and 64 of venue.
pub type StaticId64x64 = StaticIdNxM<64, 64>;

/// The identifier of the usual size: 32 bytes of code and 32 of venue.
pub type StaticId = StaticIdNxM<32, 32>;

impl StaticId16x16 {
    /// The identifier of the text `code` at `venue`, each cut to its
    /// capacity: the one that `cache` already has for the pair, or a new one.
    #[must_use]
    pub fn from_str(cache: &mut IdCache16x16, code: &str, venue: &str) -> (id: Self)
        requires
            old(cache).wf(),
        ensures
            final(cache).wf(),
            id.interned(
                old(cache)@,
                final(cache)@,
                IdCore16x16::of_text(code.spec_bytes(), venue.spec_bytes()),
            ),
    {
        cache.intern(IdCore16x16::from_str(code, venue))
    }

    /// The identifier of the bytes `code` at `venue`, each cut to its
    /// capacity: the one that `cache` already has for the pair, or a new one.
    #[must_use]
    pub fn from_bytes(cache: &mut IdCache16x16, code: &[u8], venue: &[u8]) -> (id: Self)
        requires
            old(cache).wf(),
        ensures
            final(cache).wf(),
            id.interned(old(cache)@, final(cache)@, IdCore16x16::of_text(code@, venue@)),
    {
        cache.intern(IdCore16x16::from_bytes(code, venue))
    }

    /// The identifier that the text `combined` names, code before its first
    /// `@` and venue after it. A text without `@` is an error, and leaves
    /// `cache` as it was.
    pub fn from_combined_str(cache: &mut IdCache16x16, combined: &str) -> (r: Result<
        Self,
        ParseIdError,
    >)
        requires
            old(cache).wf(),
        ensures
            final(cache).wf(),
            match IdCore16x16::parsed(combined.spec_bytes()) {
                Some(named) => r matches Ok(id) && id.interned(
                    old(cache)@,
                    final(cache)@,
                    named,
                ),
                None => r == Err::<Self, ParseIdError>(ParseIdError::MissingSeparator)
                    && *final(cache) == *old(cache),
            },
    {
        match IdCore16x16::parse(combined) {
            Ok(named) => Ok(cache.intern(named)),
            Err(e) => Err(e),
        }
    }

    /// The number of distinct pairs that `cache` holds.
    pub fn cache_len(cache: &IdCache16x16) -> (n: usize)
        ensures
            n == cache@.len(),
    {
        cache.len()
    }

    /// The pair that the identifier stands for, in its permanent cell.
    pub fn get_id(&self) -> (id: &IdCore16x16)
        ensures
            *id == self.id_core(),
    {
        &self.id_ptr.id
    }
}

impl StaticId16x32 {
    /// The identifier of the text `code` at `venue`, each cut to its
    /// capacity: the one that `cache` already has for the pair, or a new one.
    #[must_use]
    pub fn from_str(cache: &mut IdCache16x32, code: &str, venue: &str) -> (id: Self)
        requires
            old(cache).wf(),
        ensures
            final(cache).wf(),
            id.interned(
                old(cache)@,
                final(cache)@,
                IdCore16x32::of_text(code.spec_bytes(), venue.spec_bytes()),
            ),
    {
        cache.intern(IdCore16x32::from_str(code, venue))
    }

    /// The identifier of the bytes `code` at `venue`, each cut to its
    /// capacity: the one that `cache` already has for the pair, or a new one.
    #[must_use]
    pub fn from_bytes(cache: &mut IdCache16x32, code: &[u8], venue: &[u8]) -> (id: Self)
        requires
            old(cache).wf(),
        ensures
            final(cache).wf(),
            id.interned(old(cache)@, final(cache)@, IdCore16x32::of_text(code@, venue@)),
    {
        cache.intern(IdCore16x32::from_bytes(code, venue))
    }

    /// The identifier that the text `combined` names, code before its first
    /// `@` and venue after it. A text without `@` is an error, and leaves
    /// `cache` as it was.
    pub fn from_combined_str(cache: &mut IdCache16x32, combined: &str) -> (r: Result<
        Self,
        ParseIdError,
    >)
        requires
            old(cache).wf(),
        ensures
            final(cache).wf(),
            match IdCore16x32::parsed(combined.spec_bytes()) {
                Some(named) => r matches Ok(id) && id.interned(
                    old(cache)@,
                    final(cache)@,
                    named,
                ),
                None => r == Err::<Self, ParseIdError>(ParseIdError::MissingSeparator)
                    && *final(cache) == *old(cache),
            },
    {
        match IdCore16x32::parse(combined) {
            Ok(named) => Ok(cache.intern(named)),
            Err(e) => Err(e),
        }
    }

    /// The number of distinct pairs that `cache` holds.
    pub fn cache_len(cache: &IdCache16x32) -> (n: usize)
        ensures
            n == cache@.len(),
    {
        cache.len()
    }

    /// The pair that the identifier stands for, in its permanent cell.
    pub fn get_id(&self) -> (id: &IdCore16x32)
        ensures
            *id == self.id_core(),
    {
        &self.id_ptr.id
    }
}

impl StaticId16x64 {
    /// The identifier of the text `code` at `venue`, each cut to its
    /// capacity: the one that `cache` already has for the pair, or a new one.
    #[must_use]
    pub fn from_str(cache: &mut IdCache16x64, code: &str, venue: &str) -> (id: Self)
        requires
            old(cache).wf(),
        ensures
            final(cache).wf(),
            id.interned(
                old(cache)@,
                final(cache)@,
                IdCore16x64::of_text(code.spec_bytes(), venue.spec_bytes()),
            ),
    {
        cache.intern(IdCore16x64::from_str(code, venue))
    }

    /// The identifier of the bytes `code` at `venue`, each cut to its
    /// capacity: the one that `cache` already has for the pair, or a new one.
    #[must_use]
    pub fn from_bytes(cache: &mut IdCache16x64, code: &[u8], venue: &[u8]) -> (id: Self)
        requires
            old(cache).wf(),
        ensures
            final(cache).wf(),
            id.interned(old(cache)@, final(cache)@, IdCore16x64::of_text(code@, venue@)),
    {
        cache.intern(IdCore16x64::from_bytes(code, venue))
    }

    /// The identifier that the text `combined` names, code before its first
    /// `@` and venue after it. A text without `@` is an error, and leaves
    /// `cache` as it was.
    pub fn from_combined_str(cache: &mut IdCache16x64, combined: &str) -> (r: Result<
        Self,
        ParseIdError,
    >)
        requires
            old(cache).wf(),
        ensures
            final(cache).wf(),
            match IdCore16x64::parsed(combined.spec_bytes()) {
                Some(named) => r matches Ok(id) && id.interned(
                    old(cache)@,
                    final(cache)@,
                    named,
                ),
                None => r == Err::<Self, ParseIdError>(ParseIdError::MissingSeparator)
                    && *final(cache) == *old(cache),
            },
    {
        match IdCore16x64::parse(combined) {
            Ok(named) => Ok(cache.intern(named)),
            Err(e) => Err(e),
        }
    }

    /// The number of distinct pairs that `cache` holds.
    pub fn cache_len(cache: &IdCache16x64) -> (n: usize)
        ensures
            n == cache@.len(),
    {
        cache.len()
    }

    /// The pair that the identifier stands for, in its permanent cell.
    pub fn get_id(&self) -> (id: &IdCore16x64)
        ensures
            *id == self.id_core(),
    {
        &self.id_ptr.id
    }
}

impl StaticId32x16 {
    /// The identifier of the text `code` at `venue`, each cut to its
    /// capacity: the one that `cache` already has for the pair, or a new one.
    #[must_use]
    pub fn from_str(cache: &mut IdCache32x16, code: &str, venue: &str) -> (id: Self)
        requires
            old(cache).wf(),
        ensures
            final(cache).wf(),
            id.interned(
                old(cache)@,
                final(cache)@,
                IdCore32x16::of_text(code.spec_bytes(), venue.spec_bytes()),
            ),
    {
        cache.intern(IdCore32x16::from_str(code, venue))
    }

    /// The identifier of the bytes `code` at `venue`, each cut to its
    /// capacity: the one that `cache` already has for the pair, or a new one.
    #[must_use]
    pub fn from_bytes(cache: &mut IdCache32x16, code: &[u8], venue: &[u8]) -> (id: Self)
        requires
            old(cache).wf(),
        ensures
            final(cache).wf(),
            id.interned(old(cache)@, final(cache)@, IdCore32x16::of_text(code@, venue@)),
    {
        cache.intern(IdCore32x16::from_bytes(code, venue))
    }

    /// The identifier that the text `combined` names, code before its first
    /// `@` and venue after it. A text without `@` is an error, and leaves
    /// `cache` as it was.
    pub fn from_combined_str(cache: &mut IdCache32x16, combined: &str) -> (r: Result<
        Self,
        ParseIdError,
    >)
        requires
            old(cache).wf(),
        ensures
            final(cache).wf(),
            match IdCore32x16::parsed(combined.spec_bytes()) {
                Some(named) => r matches Ok(id) && id.interned(
                    old(cache)@,
                    final(cache)@,
                    named,
                ),
                None => r == Err::<Self, ParseIdError>(ParseIdError::MissingSeparator)
                    && *final(cache) == *old(cache),
            },
    {
        match IdCore32x16::parse(combined) {
            Ok(named) => Ok(cache.intern(named)),
            Err(e) => Err(e),
        }
    }

    /// The number of distinct pairs that `cache` holds.
    pub fn cache_len(cache: &IdCache32x16) -> (n: usize)
        ensures
            n == cache@.len(),
    {
        cache.len()
    }

    /// The pair that the identifier stands for, in its permanent cell.
    pub fn get_id(&self) -> (id: &IdCore32x16)
        ensures
            *id == self.id_core(),
    {
        &self.id_ptr.id
    }
}

impl StaticId32x32 {
    /// The identifier of the text `code` at `venue`, each cut to its
    /// capacity: the one that `cache` already has for the pair, or a new one.
    #[must_use]
    pub fn from_str(cache: &mut IdCache32x32, code: &str, venue: &str) -> (id: Self)
        requires
            old(cache).wf(),
        ensures
            final(cache).wf(),
            id.interned(
                old(cache)@,
                final(cache)@,
                IdCore32x32::of_text(code.spec_bytes(), venue.spec_bytes()),
            ),
    {
        cache.intern(IdCore32x32::from_str(code, venue))
    }

    /// The identifier of the bytes `code` at `venue`, each cut to its
    /// capacity: the one that `cache` already has for the pair, or a new one.
    #[must_use]
    pub fn from_bytes(cache: &mut IdCache32x32, code: &[u8], venue: &[u8]) -> (id: Self)
        requires
            old(cache).wf(),
        ensures
            final(cache).wf(),
            id.interned(old(cache)@, final(cache)@, IdCore32x32::of_text(code@, venue@)),
    {
        cache.intern(IdCore32x32::from_bytes(code, venue))
    }

    /// The identifier that the text `combined` names, code before its first
    /// `@` and venue after it. A text without `@` is an error, and leaves
    /// `cache` as it was.
    pub fn from_combined_str(cache: &mut IdCache32x32, combined: &str) -> (r: Result<
        Self,
        ParseIdError,
    >)
        requires
            old(cache).wf(),
        ensures
            final(cache).wf(),
            match IdCore32x32::parsed(combined.spec_bytes()) {
                Some(named) => r matches Ok(id) && id.interned(
                    old(cache)@,
                    final(cache)@,
                    named,
                ),
                None => r == Err::<Self, ParseIdError>(ParseIdError::MissingSeparator)
                    && *final(cache) == *old(cache),
            },
    {
        match IdCore32x32::parse(combined) {
            Ok(named) => Ok(cache.intern(named)),
            Err(e) => Err(e),
        }
    }

    /// The number of distinct pairs that `cache` holds.
    pub fn cache_len(cache: &IdCache32x32) -> (n: usize)
        ensures
            n == cache@.len(),
    {
        cache.len()
    }

    /// The pair that the identifier stands for, in its permanent cell.
    pub fn get_id(&self) -> (id: &IdCore32x32)
        ensures
            *id == self.id_core(),
    {
        &self.id_ptr.id
    }
}

impl StaticId32x64 {
    /// The identifier of the text `code` at `venue`, each cut to its
    /// capacity: the one that `cache` already has for the pair, or a new one.
    #[must_use]
    pub fn from_str(cache: &mut IdCache32x64, code: &str, venue: &str) -> (id: Self)
        requires
            old(cache).wf(),
        ensures
            final(cache).wf(),
            id.interned(
                old(cache)@,
                final(cache)@,
                IdCore32x64::of_text(code.spec_bytes(), venue.spec_bytes()),
            ),
    {
        cache.intern(IdCore32x64::from_str(code, venue))
    }

    /// The identifier of the bytes `code` at `venue`, each cut to its
    /// capacity: the one that `cache` already has for the pair, or a new one.
    #[must_use]
    pub fn from_bytes(cache: &mut IdCache32x64, code: &[u8], venue: &[u8]) -> (id: Self)
        requires
            old(cache).wf(),
        ensures
            final(cache).wf(),
            id.interned(old(cache)@, final(cache)@, IdCore32x64::of_text(code@, venue@)),
    {
        cache.intern(IdCore32x64::from_bytes(code, venue))
    }

    /// The identifier that the text `combined` names, code before its first
    /// `@` and venue after it. A text without `@` is an error, and leaves
    /// `cache` as it was.
    pub fn from_combined_str(cache: &mut IdCache32x64, combined: &str) -> (r: Result<
        Self,
        ParseIdError,
    >)
        requires
            old(cache).wf(),
        ensures
            final(cache).wf(),
            match IdCore32x64::parsed(combined.spec_bytes()) {
                Some(named) => r matches Ok(id) && id.interned(
                    old(cache)@,
                    final(cache)@,
                    named,
                ),
                None => r == Err::<Self, ParseIdError>(ParseIdError::MissingSeparator)
                    && *final(cache) == *old(cache),
            },
    {
        match IdCore32x64::parse(combined) {
            Ok(named) => Ok(cache.intern(named)),
            Err(e) => Err(e),
        }
    }

    /// The number of distinct pairs that `cache` holds.
    pub fn cache_len(cache: &IdCache32x64) -> (n: usize)
        ensures
            n == cache@.len(),
    {
        cache.len()
    }

    /// The pair that the identifier stands for, in its permanent cell.
    pub fn get_id(&self) -> (id: &IdCore32x64)
        ensures
            *id == self.id_core(),
    {
        &self.id_ptr.id
    }
}

impl StaticId64x16 {
    /// The identifier of the text `code` at `venue`, each cut to its
    /// capacity: the one that `cache` already has for the pair, or a new one.
    #[must_use]
    pub fn from_str(cache: &mut IdCache64x16, code: &str, venue: &str) -> (id: Self)
        requires
            old(cache).wf(),
        ensures
            final(cache).wf(),
            id.interned(
                old(cache)@,
                final(cache)@,
                IdCore64x16::of_text(code.spec_bytes(), venue.spec_bytes()),
            ),
    {
        cache.intern(IdCore64x16::from_str(code, venue))
    }

    /// The identifier of the bytes `code` at `venue`, each cut to its
    /// capacity: the one that `cache` already has for the pair, or a new one.
    #[must_use]
    pub fn from_bytes(cache: &mut IdCache64x16, code: &[u8], venue: &[u8]) -> (id: Self)
        requires
            old(cache).wf(),
        ensures
            final(cache).wf(),
            id.interned(old(cache)@, final(cache)@, IdCore64x16::of_text(code@, venue@)),
    {
        cache.intern(IdCore64x16::from_bytes(code, venue))
    }

    /// The identifier that the text `combined` names, code before its first
    /// `@` and venue after it. A text without `@` is an error, and leaves
    /// `cache` as it was.
    pub fn from_combined_str(cache: &mut IdCache64x16, combined: &str) -> (r: Result<
        Self,
        ParseIdError,
    >)
        requires
            old(cache).wf(),
        ensures
            final(cache).wf(),
            match IdCore64x16::parsed(combined.spec_bytes()) {
                Some(named) => r matches Ok(id) && id.interned(
                    old(cache)@,
                    final(cache)@,
                    named,
                ),
                None => r == Err::<Self, ParseIdError>(ParseIdError::MissingSeparator)
                    && *final(cache) == *old(cache),
            },
    {
        match IdCore64x16::parse(combined) {
            Ok(named) => Ok(cache.intern(named)),
            Err(e) => Err(e),
        }
    }

    /// The number of distinct pairs that `cache` holds.
    pub fn cache_len(cache: &IdCache64x16) -> (n: usize)
        ensures
            n == cache@.len(),
    {
        cache.len()
    }

    /// The pair that the identifier stands for, in its permanent cell.
    pub fn get_id(&self) -> (id: &IdCore64x16)
        ensures
            *id == self.id_core(),
    {
        &self.id_ptr.id
    }
}

impl StaticId64x32 {
    /// The identifier of the text `code` at `venue`, each cut to its
    /// capacity: the one that `cache` already has for the pair, or a new one.
    #[must_use]
    pub fn from_str(cache: &mut IdCache64x32, code: &str, venue: &str) -> (id: Self)
        requires
            old(cache).wf(),
        ensures
            final(cache).wf(),
            id.interned(
                old(cache)@,
                final(cache)@,
                IdCore64x32::of_text(code.spec_bytes(), venue.spec_bytes()),
            ),
    {
        cache.intern(IdCore64x32::from_str(code, venue))
    }

    /// The identifier of the bytes `code` at `venue`, each cut to its
    /// capacity: the one that `cache` already has for the pair, or a new one.
    #[must_use]
    pub fn from_bytes(cache: &mut IdCache64x32, code: &[u8], venue: &[u8]) -> (id: Self)
        requires
            old(cache).wf(),
        ensures
            final(cache).wf(),
            id.interned(old(cache)@, final(cache)@, IdCore64x32::of_text(code@, venue@)),
    {
        cache.intern(IdCore64x32::from_bytes(code, venue))
    }

    /// The identifier that the text `combined` names, code before its first
    /// `@` and venue after it. A text without `@` is an error, and leaves
    /// `cache` as it was.
    pub fn from_combined_str(cache: &mut IdCache64x32, combined: &str) -> (r: Result<
        Self,
        ParseIdError,
    >)
        requires
            old(cache).wf(),
        ensures
            final(cache).wf(),
            match IdCore64x32::parsed(combined.spec_bytes()) {
                Some(named) => r matches Ok(id) && id.interned(
                    old(cache)@,
                    final(cache)@,
                    named,
                ),
                None => r == Err::<Self, ParseIdError>(ParseIdError::MissingSeparator)
                    && *final(cache) == *old(cache),
            },
    {
        match IdCore64x32::parse(combined) {
            Ok(named) => Ok(cache.intern(named)),
            Err(e) => Err(e),
        }
    }

    /// The number of distinct pairs that `cache` holds.
    pub fn cache_len(cache: &IdCache64x32) -> (n: usize)
        ensures
            n == cache@.len(),
    {
        cache.len()
    }

    /// The pair that the identifier stands for, in its permanent cell.
    pub fn get_id(&self) -> (id: &IdCore64x32)
        ensures
            *id == self.id_core(),
    {
        &self.id_ptr.id
    }
}

impl StaticId64x64 {
    /// The identifier of the text `code` at `venue`, each cut to its
    /// capacity: the one that `cache` already has for the pair, or a new one.
    #[must_use]
    pub fn from_str(cache: &mut IdCache64x64, code: &str, venue: &str) -> (id: Self)
        requires
            old(cache).wf(),
        ensures
            final(cache).wf(),
            id.interned(
                old(cache)@,
                final(cache)@,
                IdCore64x64::of_text(code.spec_bytes(), venue.spec_bytes()),
            ),
    {
        cache.intern(IdCore64x64::from_str(code, venue))
    }

    /// The identifier of the bytes `code` at `venue`, each cut to its
    /// capacity: the one that `cache` already has for the pair, or a new one.
    #[must_use]
    pub fn from_bytes(cache: &mut IdCache64x64, code: &[u8], venue: &[u8]) -> (id: Self)
        requires
            old(cache).wf(),
        ensures
            final(cache).wf(),
            id.interned(old(cache)@, final(cache)@, IdCore64x64::of_text(code@, venue@)),
    {
        cache.intern(IdCore64x64::from_bytes(code, venue))
    }

    /// The identifier that the text `combined` names, code before its first
    /// `@` and venue after it. A text without `@` is an error, and leaves
    /// `cache` as it was.
    pub fn from_combined_str(cache: &mut IdCache64x64, combined: &str) -> (r: Result<
        Self,
        ParseIdError,
    >)
        requires
            old(cache).wf(),
        ensures
            final(cache).wf(),
            match IdCore64x64::parsed(combined.spec_bytes()) {
                Some(named) => r matches Ok(id) && id.interned(
                    old(cache)@,
                    final(cache)@,
                    named,
                ),
                None => r == Err::<Self, ParseIdError>(ParseIdError::MissingSeparator)
                    && *final(cache) == *old(cache),
            },
    {
        match IdCore64x64::parse(combined) {
            Ok(named) => Ok(cache.intern(named)),
            Err(e) => Err(e),
        }
    }

    /// The number of distinct pairs that `cache` holds.
    pub fn cache_len(cache: &IdCache64x64) -> (n: usize)
        ensures
            n == cache@.len(),
    {
        cache.len()
    }

    /// The pair that the identifier stands for, in its permanent cell.
    pub fn get_id(&self) -> (id: &IdCore64x64)
        ensures
            *id == self.id_core(),
    {
        &self.id_ptr.id
    }
}

} // verus!
