use mapping_for_good::nominatim::{cities_from, City, NominatimAddress, NominatimEntry};

fn record(class: &str, kind: &str, city: Option<&str>, lat: Option<&str>, lon: Option<&str>) -> NominatimEntry {
    NominatimEntry {
        address: NominatimAddress {
            city: city.map(|c| c.to_string()),
            country: "Germany".to_string(),
            country_code: "de".to_string(),
            locality: None,
            postcode: None,
            state: None,
            village: None,
        },
        boundingbox: vec![],
        class: class.to_string(),
        place_type: kind.to_string(),
        display_name: "somewhere".to_string(),
        lat: lat.map(|s| s.to_string()),
        lon: lon.map(|s| s.to_string()),
    }
}

#[test]
fn berlin_lookup_gives_one_city() {
    let rs = vec![record("place", "city", Some("Berlin"), Some("52.52"), Some("13.405"))];
    assert_eq!(
        cities_from(&rs),
        vec![City { name: "Berlin".to_string(), country: "Germany".to_string(), lat: 525_200_000, lng: 134_050_000 }]
    );
}

#[test]
fn city_kinds() {
    assert!(record("place", "city", None, None, None).is_city());
    assert!(record("place", "village", None, None, None).is_city());
    assert!(record("boundary", "administrative", None, None, None).is_city());
    assert!(!record("place", "town", None, None, None).is_city());
    assert!(!record("boundary", "city", None, None, None).is_city());
    assert!(!record("highway", "administrative", None, None, None).is_city());
}

#[test]
fn incomplete_records_are_left_out() {
    let rs = vec![
        record("place", "city", None, Some("1"), Some("2")),
        record("place", "city", Some("A"), None, Some("2")),
        record("place", "city", Some("B"), Some("1"), None),
        record("place", "city", Some("C"), Some("one"), Some("2")),
        record("place", "city", Some("D"), Some("95"), Some("2")),
        record("place", "town", Some("E"), Some("1"), Some("2")),
        record("boundary", "administrative", Some("F"), Some("-1.5"), Some("2")),
    ];
    let cs = cities_from(&rs);
    assert_eq!(cs.len(), 1);
    assert_eq!(cs[0].name, "F");
    assert_eq!(cs[0].lat, -15_000_000);
    assert_eq!(cs[0].lng, 20_000_000);
    assert!(rs[1].to_city().is_none());
}

#[test]
fn cities_keep_record_order() {
    let rs = vec![
        record("place", "village", Some("X"), Some("1"), Some("2")),
        record("place", "city", Some("Y"), Some("3"), Some("4")),
    ];
    let names: Vec<String> = cities_from(&rs).into_iter().map(|c| c.name).collect();
    assert_eq!(names, vec!["X".to_string(), "Y".to_string()]);
}
