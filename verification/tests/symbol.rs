use static_id::symbol::{Symbol, TextTooLong};

#[test]
fn symbol_len_counts_text_bytes() {
    let s: Symbol<16> = Symbol::from("AAPL");
    assert_eq!(s.len(), 4);
    assert_eq!(s.as_str(), "AAPL");
    assert!(!s.is_empty());
    assert_eq!(s.upper_bound(), 16);
}

#[test]
fn symbol_of_exactly_its_capacity_is_kept_whole() {
    let s: Symbol<4> = Symbol::from("AAPL");
    assert_eq!(s.len(), 4);
    assert_eq!(s.as_str(), "AAPL");
}

#[test]
fn symbol_of_one_byte_more_is_cut_to_its_capacity() {
    let s: Symbol<4> = Symbol::from("AAPLX");
    assert_eq!(s.len(), 4);
    assert_eq!(s.as_str(), "AAPL");
    let b: Symbol<4> = Symbol::from(&b"AAPLX"[..]);
    assert_eq!(b, s);
}

#[test]
fn symbol_default_is_empty() {
    let s: Symbol<32> = Symbol::default();
    assert!(s.is_empty());
    assert_eq!(s.len(), 0);
    assert_eq!(s.as_str(), "");
    assert_eq!(s.upper_bound(), 32);
    assert_eq!(s, Symbol::from(""));
}

#[test]
fn symbol_without_capacity_is_always_empty() {
    let s: Symbol<0> = Symbol::from("AAPL");
    assert!(s.is_empty());
    assert_eq!(s.len(), 0);
    assert_eq!(s.upper_bound(), 0);
}

#[test]
fn symbol_ends_at_the_first_end_mark() {
    let s: Symbol<8> = Symbol::from(&[b'A', b'B', 255, b'C'][..]);
    assert_eq!(s.len(), 2);
    assert_eq!(s.as_str(), "AB");
    assert_eq!(s, Symbol::from("AB"));
}

#[test]
fn symbol_with_a_character_cut_in_two_shows_the_text_before_it() {
    // 'a' and 'é' are 3 bytes; capacity 2 keeps 'a' and the first byte of 'é'.
    let s: Symbol<2> = Symbol::from("a\u{e9}");
    assert_eq!(s.len(), 2);
    assert!(!s.is_empty());
    assert_eq!(s.as_str(), "a");

    // The euro sign is 3 bytes; two of them are kept after "AAPL".
    let t: Symbol<6> = Symbol::from("AAPL\u{20ac}");
    assert_eq!(t.len(), 6);
    assert_eq!(t.as_str(), "AAPL");
}

#[test]
fn symbol_of_bytes_that_are_no_text_shows_their_valid_start() {
    let s: Symbol<8> = Symbol::from(&[b'A', b'B', 0xC3, 0x28, b'C'][..]);
    assert_eq!(s.len(), 5);
    assert_eq!(s.as_str(), "AB");

    let none: Symbol<8> = Symbol::from(&[0x80, b'A'][..]);
    assert_eq!(none.len(), 2);
    assert_eq!(none.as_str(), "");
}

#[test]
fn symbol_keeps_text_of_several_bytes_a_character() {
    let s: Symbol<16> = Symbol::from("a\u{e9}\u{20ac}");
    assert_eq!(s.len(), 6);
    assert_eq!(s.as_str(), "a\u{e9}\u{20ac}");
}

#[test]
fn symbol_decode_takes_what_fits() {
    let s: Result<Symbol<4>, TextTooLong> = Symbol::decode("AAPL");
    assert_eq!(s, Ok(Symbol::from("AAPL")));
}

#[test]
fn symbol_decode_refuses_what_is_too_long() {
    let s: Result<Symbol<4>, TextTooLong> = Symbol::decode("GOOGL");
    assert_eq!(s, Err(TextTooLong { limit: 4, found: 5 }));
}
