use mapping_for_good::geo::BBox;
use mapping_for_good::request::{encode_query, entries_search_url, place_search_url};

#[test]
fn place_url_for_plain_query() {
    assert_eq!(
        place_search_url("Berlin"),
        "https://nominatim.openstreetmap.org/search?q=Berlin&format=json&addressdetails=1"
    );
}

#[test]
fn place_url_encodes_query() {
    assert_eq!(
        place_search_url("New York&x"),
        "https://nominatim.openstreetmap.org/search?q=New%20York%26x&format=json&addressdetails=1"
    );
    let enc: String = encode_query("München-ä_~.").into_iter().collect();
    assert_eq!(enc, "M%C3%BCnchen-%C3%A4_~.");
}

#[test]
fn entries_url_lists_box_corners() {
    let b = BBox::new(525_200_000, 134_050_000, 526_000_000, 135_000_000);
    assert_eq!(
        entries_search_url(&b),
        "https://api.ofdb.io/v0/search?text=&categories=2cd00bebec0c48ba9db761da48678134,77b3c33a92554bcf8e8c2c86cedd6f6f&bbox=52.52,13.405,52.6,13.5"
    );
}

#[test]
fn entries_url_writes_signs_and_small_fractions() {
    let b = BBox::new(-1_278_000, 0, -5, 1_800_000_000);
    assert_eq!(
        entries_search_url(&b),
        "https://api.ofdb.io/v0/search?text=&categories=2cd00bebec0c48ba9db761da48678134,77b3c33a92554bcf8e8c2c86cedd6f6f&bbox=-0.1278,0,-0.0000005,180"
    );
}
