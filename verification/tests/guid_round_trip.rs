//! The identifier's canonical text form: printing, parsing, and the
//! round trip between them.

use todo_events::Guid;

#[test]
fn canonical_text_has_uuid_shape() {
    let g = Guid::new();
    let s = g.to_string();
    assert_eq!(s.len(), 36);
    for (i, c) in s.chars().enumerate() {
        if i == 8 || i == 13 || i == 18 || i == 23 {
            assert_eq!(c, '-');
        } else {
            assert!(c.is_ascii_hexdigit());
            assert!(!c.is_ascii_uppercase());
        }
    }
}

#[test]
fn round_trip_of_generated_identifiers() {
    for _ in 0..32 {
        let g = Guid::new();
        let parsed = Guid::from_str(&g.to_string()).unwrap();
        assert_eq!(parsed, g);
    }
}

#[test]
fn round_trip_of_empty_identifier() {
    let g = Guid::empty();
    assert_eq!(g.to_string(), "00000000-0000-0000-0000-000000000000");
    assert_eq!(Guid::from_str(&g.to_string()).unwrap(), g);
}

#[test]
fn parses_concrete_canonical_text() {
    let text = "a1a2a3a4-b1b2-c1c2-d1d2-d3d4d5d6d7d8";
    let g = Guid::from_str(text).unwrap();
    assert_eq!(g.to_string(), text);
}

#[test]
fn accepts_uppercase_digits_and_prints_lowercase() {
    let g = Guid::from_str("A1A2A3A4-B1B2-C1C2-D1D2-D3D4D5D6D7D8").unwrap();
    assert_eq!(g.to_string(), "a1a2a3a4-b1b2-c1c2-d1d2-d3d4d5d6d7d8");
}

#[test]
fn from_string_agrees_with_from_str() {
    let g = Guid::new();
    let s = g.to_string();
    assert_eq!(Guid::from_string(&s).unwrap(), Guid::from_str(&s).unwrap());
}

#[test]
fn rejects_text_that_is_not_uuid_shaped() {
    let err = "Could not parse id".to_string();
    assert_eq!(Guid::from_str(""), Err(err.clone()));
    assert_eq!(Guid::from_str("not-a-uuid"), Err(err.clone()));
    assert_eq!(Guid::from_str("a1a2a3a4-b1b2-c1c2-d1d2-d3d4d5d6d7d"), Err(err.clone()));
    assert_eq!(Guid::from_str("a1a2a3a4-b1b2-c1c2-d1d2-d3d4d5d6d7d8f"), Err(err.clone()));
    assert_eq!(Guid::from_str("a1a2a3a4xb1b2-c1c2-d1d2-d3d4d5d6d7d8"), Err(err.clone()));
    assert_eq!(Guid::from_str("g1a2a3a4-b1b2-c1c2-d1d2-d3d4d5d6d7d8"), Err(err.clone()));
    assert_eq!(Guid::from_str("a1a2a3a4-b1b2-c1c2-d1d2-d3d4d5d6d7-8"), Err(err));
}

#[test]
fn distinct_generated_identifiers_differ() {
    let a = Guid::new();
    let b = Guid::new();
    assert_ne!(a, b);
    assert_ne!(a.to_string(), b.to_string());
}
