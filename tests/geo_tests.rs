use mapping_for_good::geo::{parse_degrees, BBox, LatLng};
use mapping_for_good::nominatim::parse_latlng;

#[test]
fn parses_decimal_degrees() {
    assert_eq!(parse_degrees("52.52"), Some(525_200_000));
    assert_eq!(parse_degrees("13.405"), Some(134_050_000));
    assert_eq!(parse_degrees("13"), Some(130_000_000));
    assert_eq!(parse_degrees("-0.1278"), Some(-1_278_000));
    assert_eq!(parse_degrees("180.0000000"), Some(1_800_000_000));
}

#[test]
fn cuts_digits_past_the_seventh() {
    assert_eq!(parse_degrees("52.5170365999"), Some(525_170_365));
    assert_eq!(parse_degrees("-52.51703659"), Some(-525_170_365));
}

#[test]
fn refuses_malformed_degrees() {
    for s in ["", "-", "abc", "5.", ".5", "1234.5", "52,52", "+1", "1.2.3", "1e5", " 52.5", "--1"] {
        assert_eq!(parse_degrees(s), None, "{}", s);
    }
}

#[test]
fn point_must_lie_on_the_globe() {
    assert_eq!(parse_latlng("52.52", "13.405"), Some(LatLng { lat: 525_200_000, lng: 134_050_000 }));
    assert_eq!(parse_latlng("-90", "180"), Some(LatLng { lat: -900_000_000, lng: 1_800_000_000 }));
    assert_eq!(parse_latlng("90.0000001", "0"), None);
    assert_eq!(parse_latlng("0", "-180.5"), None);
    assert_eq!(parse_latlng("x", "0"), None);
}

#[test]
fn bbox_new_and_ordinates() {
    let b = BBox::new(1, 2, 3, 4);
    assert_eq!(b.south_west, LatLng { lat: 1, lng: 2 });
    assert_eq!(b.north_east, LatLng { lat: 3, lng: 4 });
    assert_eq!(b.to_vec(), vec![1, 2, 3, 4]);
}
