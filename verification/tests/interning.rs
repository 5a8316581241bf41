use static_id::prelude::{
    IdCache, IdCache16x16, IdCache16x32, IdCacheNxM, IdCore, IdCore16x16, ParseIdError, StaticId,
    StaticId16x16, StaticId16x32, StaticIdNxM, Symbol,
};

#[test]
fn scenario_aapl_googl() {
    let mut cache = IdCache::new();
    let first = StaticId::from_str(&mut cache, "AAPL", "NASDAQ");
    let second = StaticId::from_str(&mut cache, "AAPL", "NASDAQ");
    assert_eq!(first, second);
    assert!(std::ptr::eq(first.get_id(), second.get_id()));
    assert_eq!(StaticId::cache_len(&cache), 1);

    let third = StaticId::from_str(&mut cache, "GOOGL", "NASDAQ");
    assert_ne!(third, first);
    assert!(!std::ptr::eq(first.get_id(), third.get_id()));
    assert_eq!(StaticId::cache_len(&cache), 2);

    assert_eq!(first.to_string(), "AAPL@NASDAQ");
}

#[test]
fn interning_twice_gives_the_same_cell() {
    let mut cache = IdCache16x32::new();
    let first = StaticId16x32::from_bytes(&mut cache, b"BTC", b"BINANCE");
    let middle = StaticId16x32::from_bytes(&mut cache, b"ETH", b"BINANCE");
    let again = StaticId16x32::from_bytes(&mut cache, b"BTC", b"BINANCE");
    assert_eq!(first, again);
    assert!(std::ptr::eq(first.get_id(), again.get_id()));
    assert_ne!(first, middle);
    assert_eq!(StaticId16x32::cache_len(&cache), 2);
}

#[test]
fn different_pairs_get_different_cells() {
    let mut cache = IdCache16x16::new();
    let a = StaticId16x16::from_str(&mut cache, "AAPL", "NASDAQ");
    let b = StaticId16x16::from_str(&mut cache, "AAPL", "NYSE");
    let c = StaticId16x16::from_str(&mut cache, "NASDAQ", "AAPL");
    let d = StaticId16x16::from_str(&mut cache, "AAPLN", "ASDAQ");
    assert_ne!(a, b);
    assert_ne!(a, c);
    assert_ne!(a, d);
    assert_ne!(b, c);
    assert_ne!(b, d);
    assert_ne!(c, d);
    assert!(!std::ptr::eq(a.get_id(), b.get_id()));
    assert_eq!(StaticId16x16::cache_len(&cache), 4);
}

#[test]
fn text_and_bytes_intern_alike() {
    let mut cache = IdCache::new();
    let text = StaticId::from_str(&mut cache, "AAPL", "NASDAQ");
    let bytes = StaticId::from_bytes(&mut cache, b"AAPL", b"NASDAQ");
    assert_eq!(text, bytes);
    assert_eq!(StaticId::cache_len(&cache), 1);
}

#[test]
fn total_length_is_code_plus_venue() {
    let mut cache = IdCache::new();
    let id = StaticId::from_str(&mut cache, "ABC", "NYSE");
    assert_eq!(id.len(), 7);
    assert!(!id.is_empty());
    assert_eq!(id.upper_bound_len(), 64);
}

#[test]
fn total_length_counts_what_is_kept() {
    let mut cache = IdCache16x16::new();
    let id = StaticId16x16::from_str(&mut cache, "ABCDEFGHIJKLMNOPQRSTUVWXYZ", "NYSE");
    assert_eq!(id.len(), 20);
    assert_eq!(id.code_str(), "ABCDEFGHIJKLMNOP");
    assert_eq!(id.venue_str(), "NYSE");
    assert_eq!(id.upper_bound_len(), 32);
}

#[test]
fn code_of_exactly_the_capacity_is_kept_whole() {
    let mut cache = IdCache16x16::new();
    let id = StaticId16x16::from_str(&mut cache, "ABCDEFGHIJKLMNOP", "X");
    assert_eq!(id.code_str(), "ABCDEFGHIJKLMNOP");
    assert_eq!(id.get_id().code.len(), 16);
}

#[test]
fn code_of_one_byte_more_is_cut_and_shares_the_cell() {
    let mut cache = IdCache16x16::new();
    let exact = StaticId16x16::from_str(&mut cache, "ABCDEFGHIJKLMNOP", "X");
    let longer = StaticId16x16::from_str(&mut cache, "ABCDEFGHIJKLMNOPQ", "X");
    assert_eq!(longer.code_str(), "ABCDEFGHIJKLMNOP");
    assert_eq!(longer.get_id().code.len(), 16);
    assert_eq!(exact, longer);
    assert_eq!(StaticId16x16::cache_len(&cache), 1);
}

#[test]
fn identifier_is_empty_only_without_any_text() {
    let mut cache = IdCache::new();
    assert!(StaticId::from_str(&mut cache, "", "").is_empty());
    assert!(!StaticId::from_str(&mut cache, "A", "").is_empty());
    assert!(!StaticId::from_str(&mut cache, "", "B").is_empty());
    assert_eq!(StaticId::from_str(&mut cache, "", "").len(), 0);
}

#[test]
fn interning_the_same_pairs_again_adds_no_cell() {
    let pairs = [("AAPL", "NASDAQ"), ("GOOGL", "NASDAQ"), ("AAPL", "NYSE"), ("", ""), ("X", "")];
    let mut cache = IdCache::new();
    let mut first = Vec::new();
    for (code, venue) in pairs.iter() {
        first.push(StaticId::from_str(&mut cache, code, venue));
    }
    assert_eq!(StaticId::cache_len(&cache), 5);
    assert_eq!(cache.len(), 5);
    for (i, (code, venue)) in pairs.iter().enumerate() {
        let again = StaticId::from_str(&mut cache, code, venue);
        assert_eq!(again, first[i]);
        assert!(std::ptr::eq(again.get_id(), first[i].get_id()));
    }
    assert_eq!(StaticId::cache_len(&cache), 5);
}

#[test]
fn new_cache_is_empty() {
    let cache: IdCacheNxM<8, 8> = IdCacheNxM::new();
    assert_eq!(cache.len(), 0);
    assert_eq!(StaticId::cache_len(&IdCache::new()), 0);
}

#[test]
fn intern_takes_a_pair() {
    let mut cache: IdCacheNxM<8, 4> = IdCacheNxM::new();
    let pair = static_id::prelude::IdCoreNxM::from_str("EURUSD", "FX");
    let a: StaticIdNxM<8, 4> = cache.intern(pair);
    let b = cache.intern(static_id::prelude::IdCoreNxM::from_bytes(b"EURUSD", b"FX"));
    assert_eq!(a, b);
    assert_eq!(a.code_str(), "EURUSD");
    assert_eq!(a.venue_str(), "FX");
    assert_eq!(a.upper_bound_len(), 12);
    assert_eq!(cache.len(), 1);
}

#[test]
fn default_identifiers_are_one() {
    let mut cache = IdCache::new();
    let a = StaticId::default(&mut cache);
    let other = StaticId::from_str(&mut cache, "AAPL", "NASDAQ");
    let b = StaticId::default(&mut cache);
    assert_eq!(a, b);
    assert!(std::ptr::eq(a.get_id(), b.get_id()));
    assert_ne!(a, other);
    assert!(a.is_empty());
    assert_eq!(a.to_string(), "@");
    assert_eq!(*a.get_id(), IdCore::default());
    assert_eq!(StaticId::cache_len(&cache), 2);
}

#[test]
fn get_id_gives_the_pair() {
    let mut cache = IdCache16x16::new();
    let id = StaticId16x16::from_str(&mut cache, "AAPL", "NASDAQ");
    let expected = IdCore16x16 { code: Symbol::from("AAPL"), venue: Symbol::from("NASDAQ") };
    assert_eq!(*id.get_id(), expected);
    assert_eq!(id.get_id().code.as_str(), "AAPL");
    assert_eq!(id.get_id().venue.as_str(), "NASDAQ");
}

#[test]
fn combined_text_parts_at_the_first_separator() {
    let mut cache = IdCache::new();
    let id = StaticId::from_combined_str(&mut cache, "AAPL@NASDAQ").unwrap();
    assert_eq!(id.code_str(), "AAPL");
    assert_eq!(id.venue_str(), "NASDAQ");
    assert_eq!(id, StaticId::from_str(&mut cache, "AAPL", "NASDAQ"));

    let two = StaticId::from_combined_str(&mut cache, "A@B@C").unwrap();
    assert_eq!(two.code_str(), "A");
    assert_eq!(two.venue_str(), "B@C");

    let no_code = StaticId::from_combined_str(&mut cache, "@NYSE").unwrap();
    assert_eq!(no_code.code_str(), "");
    assert_eq!(no_code.venue_str(), "NYSE");

    let no_venue = StaticId::from_combined_str(&mut cache, "AAPL@").unwrap();
    assert_eq!(no_venue.code_str(), "AAPL");
    assert_eq!(no_venue.venue_str(), "");

    let only = StaticId::from_combined_str(&mut cache, "@").unwrap();
    assert_eq!(only, StaticId::default(&mut cache));
}

#[test]
fn combined_text_without_separator_is_an_error() {
    let mut cache = IdCache::new();
    assert_eq!(
        StaticId::from_combined_str(&mut cache, "AAPLNASDAQ"),
        Err(ParseIdError::MissingSeparator)
    );
    assert_eq!(StaticId::from_combined_str(&mut cache, ""), Err(ParseIdError::MissingSeparator));
    assert_eq!(StaticId::cache_len(&cache), 0);
    assert_eq!(IdCore::parse("AAPL"), Err(ParseIdError::MissingSeparator));
    assert_eq!(IdCore::parse("AAPL@NYSE"), Ok(IdCore::from_str("AAPL", "NYSE")));
}

#[test]
fn shown_text_reads_back_to_the_same_identifier() {
    let mut cache = IdCache::new();
    let texts =
        [("AAPL", "NASDAQ"), ("", ""), ("BRK.B", "NYSE"), ("a\u{e9}", "\u{20ac}x"), ("X", "a@b")];
    for (code, venue) in texts.iter() {
        let id = StaticId::from_str(&mut cache, code, venue);
        let before = StaticId::cache_len(&cache);
        let read = StaticId::from_combined_str(&mut cache, &id.to_string()).unwrap();
        assert_eq!(read, id);
        assert!(std::ptr::eq(read.get_id(), id.get_id()));
        assert_eq!(StaticId::cache_len(&cache), before);
    }
}

#[test]
fn text_is_shown_as_far_as_it_is_utf8() {
    let mut cache = IdCache16x16::new();
    let id = StaticId16x16::from_bytes(&mut cache, &[0xC3], b"NYSE");
    assert_eq!(id.len(), 5);
    assert_eq!(id.code_str(), "");
    assert_eq!(id.venue_str(), "NYSE");
    assert_eq!(id.to_string(), "@NYSE");

    let cut = StaticId16x16::from_str(&mut cache, "ABCDEFGHIJKLMNO\u{e9}", "NYSE");
    assert_eq!(cut.len(), 20);
    assert_eq!(cut.code_str(), "ABCDEFGHIJKLMNO");
    assert_eq!(cut.to_string(), "ABCDEFGHIJKLMNO@NYSE");
}

#[test]
fn bytes_after_an_end_mark_are_not_interned() {
    let mut cache = IdCache16x16::new();
    let a = StaticId16x16::from_bytes(&mut cache, &[b'A', 255, b'B'], b"X");
    let b = StaticId16x16::from_bytes(&mut cache, b"A", b"X");
    assert_eq!(a, b);
    assert_eq!(a.len(), 2);
    assert_eq!(StaticId16x16::cache_len(&cache), 1);
}

#[test]
fn identifiers_are_copied_freely() {
    let mut cache = IdCache::new();
    let id = StaticId::from_str(&mut cache, "AAPL", "NASDAQ");
    let copy = id;
    let clone = id.clone();
    assert_eq!(id, copy);
    assert_eq!(id, clone);
    assert!(std::ptr::eq(id.get_id(), copy.get_id()));
}
