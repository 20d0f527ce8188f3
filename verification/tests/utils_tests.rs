use kernc::utils::{Interner, Span, StringMap, SymbolId};

#[test]
fn span_to_joins_start_and_end() {
    let a = Span::new(3, 7);
    let b = Span::new(10, 15);
    let j = a.to(b);
    assert_eq!(j.start, 3);
    assert_eq!(j.end, 15);
}

#[test]
fn interner_gives_back_what_was_interned() {
    let mut i = Interner::new();
    let a = i.intern("foo");
    let b = i.intern("bar");
    assert_eq!(a, SymbolId(0));
    assert_eq!(b, SymbolId(1));
    assert_eq!(i.resolve(a), Some("foo"));
    assert_eq!(i.resolve(b), Some("bar"));
}

#[test]
fn interner_same_string_same_symbol() {
    let mut i = Interner::new();
    let a = i.intern("foo");
    let _ = i.intern("bar");
    let again = i.intern("foo");
    assert_eq!(a, again);
    assert_eq!(i.resolve(SymbolId(2)), None);
}

#[test]
fn interner_unknown_symbol_is_none() {
    let i = Interner::new();
    assert_eq!(i.resolve(SymbolId(0)), None);
}

#[test]
fn string_map_insert_get_replace() {
    let mut m = StringMap::new();
    assert_eq!(m.len(), 0);
    m.insert("os".to_string(), "linux".to_string());
    m.insert("debug".to_string(), "true".to_string());
    assert_eq!(m.len(), 2);
    assert_eq!(m.get("os").map(|s| s.as_str()), Some("linux"));
    assert!(m.contains_key("debug"));
    assert!(!m.contains_key("release"));
    m.insert("os".to_string(), "none".to_string());
    assert_eq!(m.len(), 2);
    assert_eq!(m.get("os").map(|s| s.as_str()), Some("none"));
    assert_eq!(m.get("missing"), None);
}

#[test]
fn string_map_duplicate_keeps_entries() {
    let mut m = StringMap::new();
    m.insert("a".to_string(), "1".to_string());
    m.insert("b".to_string(), "2".to_string());
    let d = m.duplicate();
    assert_eq!(d.len(), 2);
    assert_eq!(d.get("a").map(|s| s.as_str()), Some("1"));
    assert_eq!(d.get("b").map(|s| s.as_str()), Some("2"));
}

#[test]
fn decimal_text_digits() {
    assert_eq!(kernc::utils::decimal_text(0), "0");
    assert_eq!(kernc::utils::decimal_text(7), "7");
    assert_eq!(kernc::utils::decimal_text(10), "10");
    assert_eq!(kernc::utils::decimal_text(40213), "40213");
}
