use qpack::header_name::into_lower;
use qpack::entry_name::EntryName;
use qpack::static_table::{
    static_entry, static_table_lookup, KnownHeaderName, PseudoHeaderName, StaticHeaderName, StaticLookup,
};

fn same(a: &EntryName, b: &EntryName) -> bool {
    a.same_as(b)
}

#[test]
fn khn_round_trip() {
    for khn in KnownHeaderName::all() {
        assert!(same(
            &EntryName::from_wire(khn.as_lower_str().as_bytes()).unwrap(),
            &EntryName::Known(khn)
        ));
        assert!(same(
            &EntryName::from_wire(&khn.as_lower_str().as_bytes().to_owned()).unwrap(),
            &EntryName::Known(khn)
        ));
    }
}

#[test]
fn pseudo_round_trip() {
    for khn in KnownHeaderName::all() {
        assert!(same(
            &EntryName::from_wire(khn.as_lower_str().as_bytes()).unwrap(),
            &EntryName::Known(khn)
        ));
        assert!(same(
            &EntryName::from_wire(&khn.as_lower_str().as_bytes().to_owned()).unwrap(),
            &EntryName::Known(khn)
        ));
    }
}

#[test]
fn other_round_trip() {
    let expected = EntryName::Unknown(b"x-other".to_vec());
    assert!(same(&EntryName::from_wire(b"x-other".as_slice()).unwrap(), &expected));
    assert!(same(&EntryName::from_wire(&b"x-other".to_vec()).unwrap(), &expected));
}

#[test]
fn wire_names_are_checked() {
    assert!(EntryName::from_wire(b"").is_err());
    assert!(EntryName::from_wire(b":nope").is_err());
    assert!(EntryName::from_wire(b"X-Upper").is_err());
    assert!(EntryName::from_wire(b"a b").is_err());
    assert!(matches!(EntryName::from_wire(b":path"), Ok(EntryName::Pseudo(_))));
}

#[test]
fn lookup_matches_every_entry() {
    for index in 0..99usize {
        let (name, value) = static_entry(index).unwrap();
        let index = index as u8;
        let header_name = EntryName::from_static(name);
        let lookup = static_table_lookup(&header_name, Some(value.as_bytes()));
        assert_eq!(lookup, StaticLookup::FullMatch(index));

        let lookup = static_table_lookup(&header_name, Some(b"other value".as_slice()));
        assert!(matches!(lookup, StaticLookup::NameMatch(_)));

        let matched_name =
            EntryName::from_static(static_entry(lookup.name_match().unwrap() as usize).unwrap().0);
        assert!(same(&matched_name, &header_name));

        let lookup = static_table_lookup(&header_name, None);
        assert!(matches!(lookup, StaticLookup::NameMatch(_)));

        let matched_name =
            EntryName::from_static(static_entry(lookup.name_match().unwrap() as usize).unwrap().0);
        assert!(same(&matched_name, &header_name));
    }

    assert_eq!(
        StaticLookup::NoMatch,
        static_table_lookup(
            &EntryName::from_wire(b"x-custom".as_slice()).unwrap(),
            Some(b"other".as_slice())
        )
    );
}

#[test]
fn static_index_past_the_table_is_refused() {
    assert!(static_entry(99).is_err());
}

#[test]
fn static_header_names_read_as_their_canonical_form() {
    assert_eq!(StaticHeaderName::Pseudo(PseudoHeaderName::Path).as_str(), ":path");
    assert_eq!(StaticHeaderName::Header(KnownHeaderName::ContentType).as_str(), "Content-Type");
    assert_eq!(StaticHeaderName::Header(KnownHeaderName::Etag).as_str(), "ETag");
    for index in 0..99 {
        let (name, _) = static_entry(index).unwrap();
        if let StaticHeaderName::Header(known) = name {
            assert_eq!(known.as_str().to_ascii_lowercase(), known.as_lower_str());
            assert_eq!(name.as_str(), known.as_str());
        }
    }
}

#[test]
fn into_lower_gives_the_same_content_for_every_casing() {
    assert_eq!(into_lower(b"X-Idempotent-Header"), b"x-idempotent-header".to_vec());
    assert_eq!(into_lower(b"x-already-lowercase"), b"x-already-lowercase".to_vec());
    assert_eq!(into_lower(b"X-Cross-Casing-Header"), into_lower(b"x-cross-casing-header"));
    assert_eq!(into_lower(b"X-Mixed-Casing"), into_lower(b"x-MIXED-casing"));
}
