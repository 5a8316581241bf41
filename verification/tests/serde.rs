use static_id::static_id::{
    IdCache16x16, IdCache16x32, IdCache32x32, IdCache32x64, IdCache64x32, IdCache64x64,
    StaticId16x16, StaticId16x32, StaticId32x32, StaticId32x64, StaticId64x32, StaticId64x64,
};

#[test]
fn test_serde_16x16() {
    let mut cache = IdCache16x16::new();
    let id = StaticId16x16::from_str(&mut cache, "AAPL", "NASDAQ");
    let serialized = serde_json::to_string(&id.to_string()).unwrap();
    println!("{}", serialized);
    let text: String = serde_json::from_str(&serialized).unwrap();
    let deserde = StaticId16x16::from_combined_str(&mut cache, &text).unwrap();
    assert_eq!(id, deserde);
}

#[test]
fn test_serde_16x32() {
    let mut cache = IdCache16x32::new();
    let id = StaticId16x32::from_str(&mut cache, "AAPL", "NASDAQ");
    let serialized = serde_json::to_string(&id.to_string()).unwrap();
    println!("{}", serialized);
    let text: String = serde_json::from_str(&serialized).unwrap();
    let deserde = StaticId16x32::from_combined_str(&mut cache, &text).unwrap();
    assert_eq!(id, deserde);
}

#[test]
fn test_serde_32x32() {
    let mut cache = IdCache32x32::new();
    let id = StaticId32x32::from_str(&mut cache, "AAPL", "NASDAQ");
    let serialized = serde_json::to_string(&id.to_string()).unwrap();
    println!("{}", serialized);
    let text: String = serde_json::from_str(&serialized).unwrap();
    let deserde = StaticId32x32::from_combined_str(&mut cache, &text).unwrap();
    assert_eq!(id, deserde);
}

#[test]
fn test_serde_32x64() {
    let mut cache = IdCache32x64::new();
    let id = StaticId32x64::from_str(&mut cache, "AAPL", "NASDAQ");
    let serialized = serde_json::to_string(&id.to_string()).unwrap();
    println!("{}", serialized);
    let text: String = serde_json::from_str(&serialized).unwrap();
    let deserde = StaticId32x64::from_combined_str(&mut cache, &text).unwrap();
    assert_eq!(id, deserde);
}

#[test]
fn test_serde_64x16() {
    let mut cache = IdCache64x64::new();
    let id = StaticId64x64::from_str(&mut cache, "AAPL", "NASDAQ");
    let serialized = serde_json::to_string(&id.to_string()).unwrap();
    println!("{}", serialized);
    let text: String = serde_json::from_str(&serialized).unwrap();
    let deserde = StaticId64x64::from_combined_str(&mut cache, &text).unwrap();
    assert_eq!(id, deserde);
}

#[test]
fn test_serde_64x32() {
    let mut cache = IdCache64x32::new();
    let id = StaticId64x32::from_str(&mut cache, "AAPL", "NASDAQ");
    let serialized = serde_json::to_string(&id.to_string()).unwrap();
    println!("{}", serialized);
    let text: String = serde_json::from_str(&serialized).unwrap();
    let deserde = StaticId64x32::from_combined_str(&mut cache, &text).unwrap();
    assert_eq!(id, deserde);
}

#[test]
fn test_serde_64x64() {
    let mut cache = IdCache64x64::new();
    let id = StaticId64x64::from_str(&mut cache, "AAPL", "NASDAQ");
    let serialized = serde_json::to_string(&id.to_string()).unwrap();
    println!("{}", serialized);
    let text: String = serde_json::from_str(&serialized).unwrap();
    let deserde = StaticId64x64::from_combined_str(&mut cache, &text).unwrap();
    assert_eq!(id, deserde);
}
