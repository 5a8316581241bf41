//! Fixed-capacity text: up to `N` bytes in a buffer whose unused tail is
//! filled with an end mark.
use crate::bytes::{
    find_byte, first_index, lemma_first_index, lemma_first_index_unique, lemma_utf8_byte_range,
    text_in, text_of,
};
use vstd::prelude::*;
use vstd::string::StringSliceAdditionalSpecFns;
use vstd::slice::slice_subrange;
use vstd::std_specs::convert::FromSpecImpl;
use vstd::utf8::*;

verus! {

/// The byte that fills the unused tail of a symbol's buffer. It ends the
/// text, and no valid UTF-8 holds it.
pub const END_MARK: u8 = 255;

/// No byte of `bytes` is the end mark.
pub open spec fn mark_free(bytes: Seq<u8>) -> bool {
    forall|i: int| 0 <= i < bytes.len() ==> bytes[i] != END_MARK
}

/// What a symbol of capacity `cap` keeps of `bytes`: the bytes before the
/// first end mark, and no more than `cap` of them.
pub open spec fn clip(bytes: Seq<u8>, cap: nat) -> Seq<u8> {
    let end = first_index(bytes, END_MARK);
    bytes.take(if end <= cap { end } else { cap as int })
}

/// Bytes without an end mark are kept whole where they fit, and cut to the
/// first `cap` of them where they do not.
pub proof fn lemma_clip_mark_free(bytes: Seq<u8>, cap: nat)
    requires
        mark_free(bytes),
    ensures
        bytes.len() <= cap ==> clip(bytes, cap) == bytes,
        bytes.len() > cap ==> clip(bytes, cap) == bytes.take(cap as int),
{
    lemma_first_index_unique(bytes, END_MARK, bytes.len() as int);
    if bytes.len() <= cap {
        assert(bytes.take(bytes.len() as int) =~= bytes);
    }
}

/// What is kept has no end mark and fits the capacity.
pub proof fn lemma_clip_fits(bytes: Seq<u8>, cap: nat)
    ensures
        mark_free(clip(bytes, cap)),
        clip(bytes, cap).len() <= cap,
        clip(bytes, cap).len() <= bytes.len(),
{
    lemma_first_index(bytes, END_MARK);
}

/// Valid UTF-8 has no end mark.
pub proof fn lemma_utf8_mark_free(bytes: Seq<u8>)
    requires
        valid_utf8(bytes),
    ensures
        mark_free(bytes),
{
    lemma_utf8_byte_range(bytes);
}

/// `text`, then end marks up to `cap` bytes.
pub open spec fn padded(text: Seq<u8>, cap: nat) -> Seq<u8> {
    Seq::new(cap, |i: int| if i < text.len() { text[i] } else { END_MARK })
}

/// The first `k` bytes of `a` are those of `bytes`.
spec fn agrees<const N: usize>(a: [u8; N], bytes: Seq<u8>, k: int) -> bool {
    forall|i: int| 0 <= i < k ==> (#[trigger] a@[i]) == bytes[i]
}

/// Some array agrees with any given `N` bytes on the first `k`.
proof fn lemma_array_exists<const N: usize>(bytes: Seq<u8>, k: int)
    requires
        bytes.len() == N,
        0 <= k <= N,
    ensures
        exists|a: [u8; N]| #[trigger] agrees(a, bytes, k),
    decreases k,
{
    if k == 0 {
        let a: [u8; N] = vstd::array::spec_array_fill_for_copy_type::<u8, N>(0u8);
        assert(agrees(a, bytes, k));
    } else {
        lemma_array_exists::<N>(bytes, k - 1);
        let a0: [u8; N] = choose|a: [u8; N]| #[trigger] agrees(a, bytes, k - 1);
        let a: [u8; N] = vstd::array::spec_array_update(a0, k - 1, bytes[k - 1]);
        assert(a@ == a0@.update(k - 1, bytes[k - 1]));
        assert(agrees(a, bytes, k));
    }
}

/// A value that holds up to `N` bytes of text.
#[derive(Clone, Copy, Debug, PartialEq, Eq, Hash)]
pub struct Symbol<const N: usize> {
    symbol: [u8; N],
}

/// A text that is too long for the symbol it was meant for.
#[derive(Clone, Copy, Debug, PartialEq, Eq)]
pub struct TextTooLong {
    /// The capacity of the symbol, in bytes.
    pub limit: usize,
    /// The length of the text, in bytes.
    pub found: usize,
}

impl<const N: usize> View for Symbol<N> {
    type V = Seq<u8>;

    /// The text: the bytes of the buffer before the first end mark.
    closed spec fn view(&self) -> Seq<u8> {
        self.symbol@.take(first_index(self.symbol@, END_MARK))
    }
}

impl<const N: usize> Symbol<N> {
    /// The buffer holds the text, and end marks from there to its end.
    #[verifier::type_invariant]
    pub closed spec fn wf(&self) -> bool {
        self.symbol@ == padded(self@, N as nat)
    }

    /// The buffer, as the key by which a symbol is found again.
    pub closed spec fn buffer(&self) -> [u8; N] {
        self.symbol
    }

    /// The symbol whose text is `text`.
    pub closed spec fn of_text(text: Seq<u8>) -> Self {
        Symbol { symbol: choose|a: [u8; N]| a@ == padded(text, N as nat) }
    }

    /// The characters of the text, as far as its bytes are valid UTF-8.
    pub open spec fn text(&self) -> Seq<char> {
        text_of(self@)
    }

    /// A symbol's text fits its capacity and holds no end mark.
    pub proof fn lemma_view_fits(&self)
        ensures
            self@.len() <= N,
            mark_free(self@),
    {
        lemma_first_index(self.symbol@, END_MARK);
    }

    /// `of_text` makes a well-formed symbol with the given text, of any
    /// text that fits and holds no end mark.
    pub proof fn lemma_of_text(text: Seq<u8>)
        requires
            text.len() <= N,
            mark_free(text),
        ensures
            Self::of_text(text).wf(),
            Self::of_text(text)@ == text,
    {
        let full = padded(text, N as nat);
        lemma_array_exists::<N>(full, N as int);
        let w: [u8; N] = choose|a: [u8; N]| #[trigger] agrees(a, full, N as int);
        assert(w@ =~= full);
        let s = Self::of_text(text);
        assert(s.symbol@ == full);
        lemma_first_index_unique(full, END_MARK, text.len() as int);
        assert(full.take(text.len() as int) =~= text);
    }

    /// Well-formed symbols with the same text are the same symbol.
    pub proof fn lemma_same_text(&self, other: &Self)
        requires
            self.wf(),
            other.wf(),
            self@ == other@,
        ensures
            *self == *other,
    {
        assert(self.symbol =~= other.symbol);
    }

    /// Symbols are the same exactly when their buffers are.
    pub proof fn lemma_same_buffer(&self, other: &Self)
        ensures
            self.buffer() == other.buffer() <==> *self == *other,
    {
    }

    /// A well-formed symbol is the symbol of its text.
    pub proof fn lemma_of_own_text(&self)
        requires
            self.wf(),
        ensures
            Self::of_text(self@) == *self,
    {
        self.lemma_view_fits();
        Self::lemma_of_text(self@);
        Self::of_text(self@).lemma_same_text(self);
    }

    /// The number of bytes of text.
    pub fn len(&self) -> (n: usize)
        ensures
            n == self@.len(),
    {
        proof {
            lemma_first_index(self.symbol@, END_MARK);
        }
        find_byte(self.symbol.as_slice(), END_MARK)
    }

    /// The capacity: the most bytes of text that the symbol can hold,
    /// whatever it holds now.
    pub fn upper_bound(&self) -> (n: usize)
        ensures
            n == N,
    {
        N
    }

    /// Whether the text has no bytes.
    pub fn is_empty(&self) -> (b: bool)
        ensures
            b <==> self@.len() == 0,
    {
        proof {
            lemma_first_index(self.symbol@, END_MARK);
        }
        N == 0 || self.symbol[0] == END_MARK
    }

    /// The text as a string slice. Bytes that are valid UTF-8 are shown
    /// whole. Where they are not, as when a character was cut in two at the
    /// capacity, the slice ends where they stop being valid.
    pub fn as_str(&self) -> (s: &str)
        ensures
            s@ == self.text(),
    {
        let n: usize = self.len();
        proof {
            lemma_first_index(self.symbol@, END_MARK);
        }
        text_in(slice_subrange(self.symbol.as_slice(), 0, n))
    }

    /// A copy of the buffer.
    pub(crate) fn to_array(&self) -> (a: [u8; N])
        ensures
            a == self.buffer(),
    {
        self.symbol
    }

    /// The symbol of a text that must fit: `text` whole where it has at
    /// most `N` bytes, and an error that tells both lengths where it has
    /// more.
    pub fn decode(text: &str) -> (r: Result<Self, TextTooLong>)
        ensures
            match r {
                Ok(sym) => text.spec_bytes().len() <= N && sym == Self::of_text(text.spec_bytes()),
                Err(e) => text.spec_bytes().len() > N && e.limit == N && e.found
                    == text.spec_bytes().len(),
            },
    {
        let found: usize = text.as_bytes().len();
        if found > N {
            Err(TextTooLong { limit: N, found })
        } else {
            proof {
                encode_utf8_valid_utf8(text@);
                lemma_utf8_mark_free(text.spec_bytes());
                lemma_clip_mark_free(text.spec_bytes(), N as nat);
            }
            Ok(Symbol::from(text))
        }
    }
}

impl<'a, const N: usize> From<&'a [u8]> for Symbol<N> {
    /// The symbol of `slice`: its bytes up to the first end mark, cut to
    /// the first `N` where there are more.
    fn from(slice: &'a [u8]) -> (r: Self) {
        let mut symbol = [END_MARK; N];
        let mut i: usize = 0;
        while i < N && i < slice.len() && slice[i] != END_MARK
            invariant
                i <= N,
                i <= slice.len(),
                forall|j: int| 0 <= j < i ==> #[trigger] symbol@[j] == slice@[j],
                forall|j: int| 0 <= j < i ==> #[trigger] slice@[j] != END_MARK,
                forall|j: int| i <= j < N ==> symbol@[j] == END_MARK,
            decreases N - i,
        {
            symbol[i] = slice[i];
            i += 1;
        }
        proof {
            lemma_first_index_unique(symbol@, END_MARK, i as int);
            lemma_first_index(slice@, END_MARK);
            assert(symbol@.take(i as int) =~= clip(slice@, N as nat));
            assert(symbol@ =~= padded(clip(slice@, N as nat), N as nat));
        }
        let r = Symbol { symbol };
        proof {
            Self::lemma_of_text(r@);
            r.lemma_same_text(&Self::of_text(r@));
        }
        r
    }
}

impl<'a, const N: usize> FromSpecImpl<&'a [u8]> for Symbol<N> {
    open spec fn obeys_from_spec() -> bool {
        true
    }

    open spec fn from_spec(slice: &'a [u8]) -> Self {
        Self::of_text(clip(slice@, N as nat))
    }
}

impl<'a, const N: usize> From<&'a str> for Symbol<N> {
    /// The symbol of `s`: its bytes in UTF-8, cut to the first `N` where
    /// there are more.
    fn from(s: &'a str) -> (r: Self) {
        Symbol::from(s.as_bytes())
    }
}

impl<'a, const N: usize> FromSpecImpl<&'a str> for Symbol<N> {
    open spec fn obeys_from_spec() -> bool {
        true
    }

    open spec fn from_spec(s: &'a str) -> Self {
        Self::of_text(clip(s.spec_bytes(), N as nat))
    }
}

impl<const N: usize> Default for Symbol<N> {
    /// The symbol without text.
    fn default() -> (r: Self)
        ensures
            r == Self::of_text(Seq::empty()),
    {
        let symbol = [END_MARK; N];
        proof {
            lemma_first_index_unique(symbol@, END_MARK, 0);
            assert(symbol@.take(0) =~= Seq::<u8>::empty());
            assert(symbol@ =~= padded(Seq::<u8>::empty(), N as nat));
        }
        let r = Symbol { symbol };
        proof {
            Self::lemma_of_text(r@);
            r.lemma_same_text(&Self::of_text(r@));
        }
        r
    }
}

} // verus!
