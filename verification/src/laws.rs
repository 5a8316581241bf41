//! What holds of symbols and of interning, whatever the texts are.
use crate::arena::{lemma_place_unique, lemma_with_item, place_of, with_item};
use crate::bytes::{
    lemma_ascii_in_text, lemma_encode_concat, lemma_first_index_unique, lemma_text_of_valid,
    split_first, text_of,
};
use crate::static_id::{IdCoreNxM, StaticIdNxM, SEPARATOR};
use crate::symbol::{
    clip, lemma_clip_fits, lemma_clip_mark_free, lemma_utf8_mark_free, mark_free, Symbol,
};
use vstd::prelude::*;
use vstd::std_specs::cmp::PartialEqSpec;
use vstd::utf8::*;

verus! {

/// Truncation at the capacity: of bytes without an end mark, a symbol of
/// capacity `N` keeps all where they are at most `N`, and the first `N`
/// where they are more. It is empty only where there is no byte to keep.
pub proof fn lemma_truncation_boundary<const N: usize>(bytes: Seq<u8>)
    requires
        mark_free(bytes),
    ensures
        Symbol::<N>::of_text(clip(bytes, N as nat)).wf(),
        bytes.len() <= N ==> Symbol::<N>::of_text(clip(bytes, N as nat))@ == bytes,
        bytes.len() > N ==> Symbol::<N>::of_text(clip(bytes, N as nat))@ == bytes.take(N as int),
        bytes.len() > 0 && N > 0 ==> Symbol::<N>::of_text(clip(bytes, N as nat))@.len() > 0,
{
    lemma_clip_mark_free(bytes, N as nat);
    lemma_clip_fits(bytes, N as nat);
    Symbol::<N>::lemma_of_text(clip(bytes, N as nat));
}

/// Truncation of text: of the UTF-8 bytes of any text, a symbol of capacity
/// `N` keeps all where they are at most `N`, and the first `N` where they
/// are more.
pub proof fn lemma_text_truncation<const N: usize>(text: Seq<char>)
    ensures
        encode_utf8(text).len() <= N ==> Symbol::<N>::of_text(clip(encode_utf8(text), N as nat))@
            == encode_utf8(text),
        encode_utf8(text).len() > N ==> Symbol::<N>::of_text(clip(encode_utf8(text), N as nat))@
            == encode_utf8(text).take(N as int),
{
    encode_utf8_valid_utf8(text);
    lemma_utf8_mark_free(encode_utf8(text));
    lemma_truncation_boundary::<N>(encode_utf8(text));
}

/// The pair made of two byte strings is well formed and holds of each what
/// its symbol keeps.
pub proof fn lemma_of_text<const N: usize, const M: usize>(code: Seq<u8>, venue: Seq<u8>)
    ensures
        IdCoreNxM::<N, M>::of_text(code, venue).wf(),
        IdCoreNxM::<N, M>::of_text(code, venue).code@ == clip(code, N as nat),
        IdCoreNxM::<N, M>::of_text(code, venue).venue@ == clip(venue, M as nat),
{
    lemma_clip_fits(code, N as nat);
    lemma_clip_fits(venue, M as nat);
    Symbol::<N>::lemma_of_text(clip(code, N as nat));
    Symbol::<M>::lemma_of_text(clip(venue, M as nat));
}

/// The length of an identifier is the length of its code after truncation
/// plus that of its venue after truncation.
pub proof fn lemma_total_length<const N: usize, const M: usize>(code: Seq<u8>, venue: Seq<u8>)
    ensures
        IdCoreNxM::<N, M>::of_text(code, venue).text_len() == clip(code, N as nat).len() + clip(
            venue,
            M as nat,
        ).len(),
        mark_free(code) && mark_free(venue) ==> IdCoreNxM::<N, M>::of_text(code, venue).text_len()
            == (if code.len() <= N {
            code.len()
        } else {
            N as nat
        }) + (if venue.len() <= M {
            venue.len()
        } else {
            M as nat
        }),
{
    lemma_of_text::<N, M>(code, venue);
    if mark_free(code) && mark_free(venue) {
        lemma_clip_mark_free(code, N as nat);
        lemma_clip_mark_free(venue, M as nat);
    }
}

/// Two pairs of byte strings make the same pair exactly when, after
/// truncation, they are byte for byte equal.
pub proof fn lemma_same_pair_iff_same_text<const N: usize, const M: usize>(
    code1: Seq<u8>,
    venue1: Seq<u8>,
    code2: Seq<u8>,
    venue2: Seq<u8>,
)
    ensures
        IdCoreNxM::<N, M>::of_text(code1, venue1) == IdCoreNxM::<N, M>::of_text(code2, venue2)
            <==> clip(code1, N as nat) == clip(code2, N as nat) && clip(venue1, M as nat) == clip(
            venue2,
            M as nat,
        ),
{
    lemma_of_text::<N, M>(code1, venue1);
    lemma_of_text::<N, M>(code2, venue2);
}

/// What a cache gives is a handle to one of its cells, and the cache has
/// only grown at its end.
pub proof fn lemma_interned_cell<const N: usize, const M: usize>(
    handle: StaticIdNxM<N, M>,
    before: Seq<IdCoreNxM<N, M>>,
    after: Seq<IdCoreNxM<N, M>>,
    id: IdCoreNxM<N, M>,
)
    requires
        before.no_duplicates(),
        handle.interned(before, after, id),
    ensures
        after.no_duplicates(),
        before.is_prefix_of(after),
        handle.cell_in(after),
{
    lemma_with_item(before, id);
}

/// A handle to a cell stays one, however the cache grows.
pub proof fn lemma_cell_stays<const N: usize, const M: usize>(
    handle: StaticIdNxM<N, M>,
    cells: Seq<IdCoreNxM<N, M>>,
    later: Seq<IdCoreNxM<N, M>>,
)
    requires
        handle.cell_in(cells),
        cells.is_prefix_of(later),
    ensures
        handle.cell_in(later),
{
    let at = handle.slot() as int;
    assert(later.subrange(0, cells.len() as int)[at] == later[at]);
}

/// Identity: two identifiers of one cache are equal, which is to refer to
/// the same cell, exactly when they stand for the same pair.
pub proof fn lemma_equal_iff_same_pair<const N: usize, const M: usize>(
    a: StaticIdNxM<N, M>,
    b: StaticIdNxM<N, M>,
    cells: Seq<IdCoreNxM<N, M>>,
)
    requires
        cells.no_duplicates(),
        a.cell_in(cells),
        b.cell_in(cells),
    ensures
        a.eq_spec(&b) <==> a.id_core() == b.id_core(),
        a.eq_spec(&b) <==> a.slot() == b.slot(),
{
}

/// Interning a pair that an identifier of the cache stands for gives an
/// identifier equal to that one, and adds no cell.
pub proof fn lemma_intern_known<const N: usize, const M: usize>(
    known: StaticIdNxM<N, M>,
    again: StaticIdNxM<N, M>,
    cells: Seq<IdCoreNxM<N, M>>,
    after: Seq<IdCoreNxM<N, M>>,
)
    requires
        cells.no_duplicates(),
        known.cell_in(cells),
        again.interned(cells, after, known.id_core()),
    ensures
        again.eq_spec(&known),
        again.slot() == known.slot(),
        after == cells,
{
    lemma_place_unique(cells, known.id_core(), known.slot() as int);
}

/// Dedup: interning the same pair twice gives equal identifiers, to the
/// same cell, and the second time adds no cell.
pub proof fn lemma_intern_twice<const N: usize, const M: usize>(
    first: StaticIdNxM<N, M>,
    again: StaticIdNxM<N, M>,
    id: IdCoreNxM<N, M>,
    start: Seq<IdCoreNxM<N, M>>,
    between: Seq<IdCoreNxM<N, M>>,
    end: Seq<IdCoreNxM<N, M>>,
)
    requires
        start.no_duplicates(),
        first.interned(start, between, id),
        again.interned(between, end, id),
    ensures
        again.eq_spec(&first),
        again.slot() == first.slot(),
        end == between,
{
    lemma_interned_cell(first, start, between, id);
    lemma_intern_known(first, again, between, end);
}

/// Distinctness: interning two different pairs never gives equal
/// identifiers.
pub proof fn lemma_intern_distinct<const N: usize, const M: usize>(
    first: StaticIdNxM<N, M>,
    other: StaticIdNxM<N, M>,
    id: IdCoreNxM<N, M>,
    other_id: IdCoreNxM<N, M>,
    start: Seq<IdCoreNxM<N, M>>,
    between: Seq<IdCoreNxM<N, M>>,
    end: Seq<IdCoreNxM<N, M>>,
)
    requires
        start.no_duplicates(),
        id != other_id,
        first.interned(start, between, id),
        other.interned(between, end, other_id),
    ensures
        !other.eq_spec(&first),
        other.slot() != first.slot(),
{
    lemma_interned_cell(first, start, between, id);
    lemma_interned_cell(other, between, end, other_id);
    lemma_cell_stays(first, between, end);
}

/// Default identity: two identifiers made for the pair without text are
/// equal and refer to the same cell, whatever was interned between them.
pub proof fn lemma_default_identity<const N: usize, const M: usize>(
    first: StaticIdNxM<N, M>,
    second: StaticIdNxM<N, M>,
    start: Seq<IdCoreNxM<N, M>>,
    between: Seq<IdCoreNxM<N, M>>,
    later: Seq<IdCoreNxM<N, M>>,
    end: Seq<IdCoreNxM<N, M>>,
)
    requires
        later.no_duplicates(),
        first.interned(start, between, IdCoreNxM::of_text(Seq::empty(), Seq::empty())),
        between.is_prefix_of(later),
        second.interned(later, end, IdCoreNxM::of_text(Seq::empty(), Seq::empty())),
    ensures
        second.eq_spec(&first),
        second.slot() == first.slot(),
        end == later,
{
    let id = IdCoreNxM::<N, M>::of_text(Seq::empty(), Seq::empty());
    assert(start.no_duplicates()) by {
        assert(start.is_prefix_of(between)) by {
            if !start.contains(id) {
                assert(start.push(id).subrange(0, start.len() as int) =~= start);
            } else {
                assert(start.subrange(0, start.len() as int) =~= start);
            }
        }
        assert forall|i: int, j: int|
            0 <= i < start.len() && 0 <= j < start.len() && i != j implies start[i] != start[j] by {
            assert(start[i] == between.subrange(0, start.len() as int)[i]);
            assert(start[j] == between.subrange(0, start.len() as int)[j]);
            assert(between[i] == later.subrange(0, between.len() as int)[i]);
            assert(between[j] == later.subrange(0, between.len() as int)[j]);
        }
    }
    lemma_interned_cell(first, start, between, id);
    lemma_cell_stays(first, between, later);
    lemma_intern_known(first, second, later, end);
}

/// The text of a pair, read again, names the pair: where code and venue
/// are valid UTF-8 and the code holds no `@`, the bytes of the shown text
/// part at their first `@` into the bytes of code and of venue, and these
/// make the same pair.
pub proof fn lemma_shown_names_pair<const N: usize, const M: usize>(id: IdCoreNxM<N, M>)
    requires
        id.wf(),
        valid_utf8(id.code@),
        valid_utf8(id.venue@),
        !text_of(id.code@).contains('@'),
    ensures
        split_first(encode_utf8(id.shown()), SEPARATOR) == Some((id.code@, id.venue@)),
        IdCoreNxM::<N, M>::parsed(encode_utf8(id.shown())) == Some(id),
{
    let code = id.code@;
    let venue = id.venue@;
    let at = seq!['@'];
    let bytes = encode_utf8(id.shown());
    lemma_text_of_valid(code);
    lemma_text_of_valid(venue);
    assert(encode_utf8(at) =~= seq![SEPARATOR]) by {
        assert(at.drop_first() =~= Seq::<char>::empty());
        assert(encode_utf8(at.drop_first()) =~= Seq::<u8>::empty());
        let c = '@' as u32;
        assert(c == 0x40);
        assert((c & 0x7F) as u8 == 0x40u8) by (bit_vector)
            requires
                c == 0x40u32,
        ;
        assert(encode_scalar(c) =~= seq![SEPARATOR]);
    }
    assert(bytes == code + seq![SEPARATOR] + venue) by {
        decode_utf8_encode_utf8(code);
        decode_utf8_encode_utf8(venue);
        lemma_encode_concat(text_of(code) + at, text_of(venue));
        lemma_encode_concat(text_of(code), at);
    }
    assert(!code.contains(SEPARATOR)) by {
        decode_utf8_encode_utf8(code);
        lemma_ascii_in_text(text_of(code), '@', SEPARATOR);
    }
    assert(bytes[code.len() as int] == SEPARATOR);
    assert forall|j: int| 0 <= j < code.len() implies bytes[j] != SEPARATOR by {
        assert(bytes[j] == code[j]);
        if code[j] == SEPARATOR {
            assert(code.contains(SEPARATOR));
        }
    }
    lemma_first_index_unique(bytes, SEPARATOR, code.len() as int);
    assert(bytes.take(code.len() as int) =~= code);
    assert(bytes.skip(code.len() as int + 1) =~= venue);
    id.code.lemma_view_fits();
    id.venue.lemma_view_fits();
    lemma_clip_mark_free(code, N as nat);
    lemma_clip_mark_free(venue, M as nat);
    id.code.lemma_of_own_text();
    id.venue.lemma_of_own_text();
}

/// Round trip: reading the shown text of an identifier of the cache gives
/// an identifier equal to it, and adds no cell. This holds of every
/// identifier whose code and venue are valid UTF-8 and whose code holds
/// no `@`.
pub proof fn lemma_parse_shown<const N: usize, const M: usize>(
    shown: StaticIdNxM<N, M>,
    read: StaticIdNxM<N, M>,
    cells: Seq<IdCoreNxM<N, M>>,
    after: Seq<IdCoreNxM<N, M>>,
)
    requires
        cells.no_duplicates(),
        shown.cell_in(cells),
        shown.id_core().wf(),
        valid_utf8(shown.id_core().code@),
        valid_utf8(shown.id_core().venue@),
        !text_of(shown.id_core().code@).contains('@'),
        IdCoreNxM::<N, M>::parsed(encode_utf8(shown.id_core().shown())) matches Some(named)
            && read.interned(cells, after, named),
    ensures
        read.eq_spec(&shown),
        read.slot() == shown.slot(),
        after == cells,
{
    lemma_shown_names_pair(shown.id_core());
    lemma_intern_known(shown, read, cells, after);
}

} // verus!
