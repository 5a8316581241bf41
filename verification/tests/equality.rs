use static_id::prelude::{
    IdCache, IdCache16x16, IdCache16x32, IdCache16x64, IdCache32x32, IdCache32x64, IdCache64x16,
    IdCache64x32, IdCache64x64, StaticId, StaticId16x16, StaticId16x32, StaticId16x64,
    StaticId32x32, StaticId32x64, StaticId64x16, StaticId64x32, StaticId64x64,
};

#[test]
fn equality_test_static_id_equality() {
    let mut cache = IdCache::new();
    let mut cache_16x64 = IdCache16x64::new();

    let id1 = StaticId::from_str(&mut cache, "ABC", "NYSE");
    let id2 = StaticId::from_str(&mut cache, "ABC", "NYSE");
    let id3 = StaticId::from_str(&mut cache, "XYZ", "NASDAQ");
    //
    let id1_16x64 = StaticId16x64::from_str(&mut cache_16x64, "ABC", "NYSE");
    let id2_16x64 = StaticId16x64::from_str(&mut cache_16x64, "ABC", "NYSE");
    let id3_16x64 = StaticId16x64::from_str(&mut cache_16x64, "XYZ", "NASDAQ");

    assert_eq!(id1, id2);
    assert_ne!(id1, id3);

    assert_eq!(id1_16x64, id2_16x64);
    assert_ne!(id1_16x64, id3_16x64);

    let cache_len = StaticId::cache_len(&cache);
    let cache_len_16x64 = StaticId16x64::cache_len(&cache_16x64);

    assert_eq!(cache_len, 2);
    assert_eq!(cache_len_16x64, 2);
}

#[test]
fn test_static_id_equality_16x16() {
    let mut cache = IdCache16x16::new();
    let id1 = StaticId16x16::from_str(&mut cache, "ABC", "NYSE");
    let id2 = StaticId16x16::from_str(&mut cache, "ABC", "NYSE");
    let id3 = StaticId16x16::from_str(&mut cache, "XYZ", "NASDAQ");

    assert_eq!(id1, id2);
    assert_ne!(id1, id3);
}

#[test]
fn test_static_id_equality_16x32() {
    let mut cache = IdCache16x32::new();
    let id1 = StaticId16x32::from_str(&mut cache, "ABC", "NYSE");
    let id2 = StaticId16x32::from_str(&mut cache, "ABC", "NYSE");
    let id3 = StaticId16x32::from_str(&mut cache, "XYZ", "NASDAQ");

    assert_eq!(id1, id2);
    assert_ne!(id1, id3);
}

#[test]
fn test_static_id_equality_32x32() {
    let mut cache = IdCache32x32::new();
    let id1 = StaticId32x32::from_str(&mut cache, "ABC", "NYSE");
    let id2 = StaticId32x32::from_str(&mut cache, "ABC", "NYSE");
    let id3 = StaticId32x32::from_str(&mut cache, "XYZ", "NASDAQ");

    assert_eq!(id1, id2);
    assert_ne!(id1, id3);
}

#[test]
fn test_static_id_equality_32x64() {
    let mut cache = IdCache32x64::new();
    let id1 = StaticId32x64::from_str(&mut cache, "ABC", "NYSE");
    let id2 = StaticId32x64::from_str(&mut cache, "ABC", "NYSE");
    let id3 = StaticId32x64::from_str(&mut cache, "XYZ", "NASDAQ");

    assert_eq!(id1, id2);
    assert_ne!(id1, id3);
}

#[test]
fn test_static_id_equality_64x16() {
    let mut cache = IdCache64x16::new();
    let id1 = StaticId64x16::from_str(&mut cache, "ABC", "NYSE");
    let id2 = StaticId64x16::from_str(&mut cache, "ABC", "NYSE");
    let id3 = StaticId64x16::from_str(&mut cache, "XYZ", "NASDAQ");

    assert_eq!(id1, id2);
    assert_ne!(id1, id3);
}

#[test]
fn test_static_id_equality_64x32() {
    let mut cache = IdCache64x32::new();
    let id1 = StaticId64x32::from_str(&mut cache, "ABC", "NYSE");
    let id2 = StaticId64x32::from_str(&mut cache, "ABC", "NYSE");
    let id3 = StaticId64x32::from_str(&mut cache, "XYZ", "NASDAQ");

    assert_eq!(id1, id2);
    assert_ne!(id1, id3);
}

#[test]
fn test_static_id_equality_64x64() {
    let mut cache = IdCache64x64::new();
    let id1 = StaticId64x64::from_str(&mut cache, "ABC", "NYSE");
    let id2 = StaticId64x64::from_str(&mut cache, "ABC", "NYSE");
    let id3 = StaticId64x64::from_str(&mut cache, "XYZ", "NASDAQ");

    assert_eq!(id1, id2);
    assert_ne!(id1, id3);
}
