use crate::geo::{decimal_e7, parse_degrees, LatLng, MAX_LAT, MAX_LNG};
use vstd::prelude::*;

verus! {

/// The address part of a place-lookup record.
#[derive(Debug, Clone, PartialEq, Eq)]
pub struct NominatimAddress {
    pub city: Option<String>,
    pub country: String,
    pub country_code: String,
    pub locality: Option<String>,
    pub postcode: Option<String>,
    pub state: Option<String>,
    pub village: Option<String>,
}

/// One record returned by the place-name lookup; coordinates are decimal text.
#[derive(Debug, Clone, PartialEq, Eq)]
pub struct NominatimEntry {
    pub address: NominatimAddress,
    pub boundingbox: Vec<String>,
    pub class: String,
    pub place_type: String,
    pub display_name: String,
    pub lat: Option<String>,
    pub lon: Option<String>,
}

/// A place the user may pick; coordinates in 1e-7 degrees.
#[derive(Debug, Clone, PartialEq, Eq)]
pub struct City {
    pub name: String,
    pub country: String,
    pub lat: i64,
    pub lng: i64,
}

pub struct CityView {
    pub name: Seq<char>,
    pub country: Seq<char>,
    pub lat: i64,
    pub lng: i64,
}

impl View for City {
    type V = CityView;

    open spec fn view(&self) -> CityView {
        CityView { name: self.name@, country: self.country@, lat: self.lat, lng: self.lng }
    }
}

pub open spec fn cities_view(cs: Seq<City>) -> Seq<CityView> {
    cs.map_values(|c: City| c@)
}

/// A point read from two decimal texts, if both read and lie on the globe.
pub open spec fn latlng_of(lat: Seq<char>, lng: Seq<char>) -> Option<LatLng> {
    match (decimal_e7(lat), decimal_e7(lng)) {
        (Some(a), Some(b)) => if -MAX_LAT <= a <= MAX_LAT && -MAX_LNG <= b <= MAX_LNG {
            Some(LatLng { lat: a as i64, lng: b as i64 })
        } else {
            None
        },
        _ => None,
    }
}

/// Reads a point from latitude and longitude text; `None` when either does
/// not read or lies off the globe.
pub fn parse_latlng(lat: &str, lng: &str) -> (r: Option<LatLng>)
    ensures
        r == latlng_of(lat@, lng@),
{
    match (parse_degrees(lat), parse_degrees(lng)) {
        (Some(a), Some(b)) => if -MAX_LAT <= a && a <= MAX_LAT && -MAX_LNG <= b && b <= MAX_LNG {
            Some(LatLng { lat: a, lng: b })
        } else {
            None
        },
        _ => None,
    }
}

/// Whether two texts hold the same characters.
pub fn str_eq(a: &str, b: &str) -> (r: bool)
    ensures
        r == (a@ == b@),
{
    let n = a.unicode_len();
    if n != b.unicode_len() {
        return false;
    }
    let mut i: usize = 0;
    while i < n
        invariant
            i <= n,
            n == a@.len(),
            n == b@.len(),
            forall|j: int| 0 <= j < i ==> a@[j] == b@[j],
        decreases n - i,
    {
        if a.get_char(i) != b.get_char(i) {
            return false;
        }
        i = i + 1;
    }
    assert(a@ =~= b@);
    true
}

impl NominatimEntry {
    /// A city or village, or an administrative boundary.
    pub open spec fn is_city_spec(&self) -> bool {
        (self.class@ == "place"@ && (self.place_type@ == "city"@ || self.place_type@ == "village"@))
            || (self.class@ == "boundary"@ && self.place_type@ == "administrative"@)
    }

    pub fn is_city(&self) -> (r: bool)
        ensures
            r == self.is_city_spec(),
    {
        (str_eq(self.class.as_str(), "place") && (str_eq(self.place_type.as_str(), "city")
            || str_eq(self.place_type.as_str(), "village")))
            || (str_eq(self.class.as_str(), "boundary") && str_eq(self.place_type.as_str(), "administrative"))
    }

    /// The city this record stands for: a city-like record with a name and
    /// both coordinates that read as a point on the globe.
    pub open spec fn city_spec(&self) -> Option<CityView> {
        if !self.is_city_spec() {
            None
        } else {
            match (self.address.city, self.lat, self.lon) {
                (Some(name), Some(lat), Some(lon)) => match latlng_of(lat@, lon@) {
                    Some(p) => Some(CityView { name: name@, country: self.address.country@, lat: p.lat, lng: p.lng }),
                    None => None,
                },
                _ => None,
            }
        }
    }

    pub fn to_city(&self) -> (r: Option<City>)
        ensures
            match r {
                Some(c) => self.city_spec() == Some(c@),
                None => self.city_spec() is None,
            },
    {
        if !self.is_city() {
            return None;
        }
        match (&self.address.city, &self.lat, &self.lon) {
            (Some(name), Some(lat), Some(lon)) => match parse_latlng(lat.as_str(), lon.as_str()) {
                Some(p) => Some(City { name: name.clone(), country: self.address.country.clone(), lat: p.lat, lng: p.lng }),
                None => None,
            },
            _ => None,
        }
    }

    /// The record lacks a name, a latitude or a longitude.
    pub open spec fn is_incomplete(&self) -> bool {
        self.address.city is None || self.lat is None || self.lon is None
    }
}

/// The cities of a lookup result, in the order of their records: records
/// that are not city-like, or lack a name or a readable coordinate, are left out.
pub open spec fn cities_of(rs: Seq<NominatimEntry>) -> Seq<CityView>
    decreases rs.len(),
{
    if rs.len() == 0 {
        seq![]
    } else {
        let prev = cities_of(rs.drop_last());
        match rs.last().city_spec() {
            Some(c) => prev.push(c),
            None => prev,
        }
    }
}

/// Maps a lookup result to the cities it holds.
pub fn cities_from(records: &Vec<NominatimEntry>) -> (r: Vec<City>)
    ensures
        cities_view(r@) == cities_of(records@),
{
    let mut out: Vec<City> = Vec::new();
    let mut i: usize = 0;
    while i < records.len()
        invariant
            i <= records@.len(),
            cities_view(out@) == cities_of(records@.take(i as int)),
        decreases records@.len() - i,
    {
        let ghost before = out@;
        let ghost t = records@.take(i as int + 1);
        assert(t.drop_last() =~= records@.take(i as int));
        assert(t.last() == records@[i as int]);
        match records[i].to_city() {
            Some(c) => {
                out.push(c);
                assert(cities_view(out@) =~= cities_view(before).push(c@));
            },
            None => {},
        }
        i = i + 1;
    }
    assert(records@.take(records@.len() as int) =~= records@);
    out
}

/// A record without a name, a latitude or a longitude never yields a city:
/// taking it out of a lookup result leaves the cities as they were.
pub proof fn lemma_incomplete_record_dropped(rs: Seq<NominatimEntry>, i: int)
    requires
        0 <= i < rs.len(),
        rs[i].is_incomplete(),
    ensures
        rs[i].city_spec() is None,
        cities_of(rs.remove(i)) == cities_of(rs),
    decreases rs.len(),
{
    if i == rs.len() - 1 {
        assert(rs.remove(i) =~= rs.drop_last());
    } else {
        let r = rs.remove(i);
        assert(r.drop_last() =~= rs.drop_last().remove(i));
        assert(r.last() == rs.last());
        lemma_incomplete_record_dropped(rs.drop_last(), i);
    }
}

/// Every city of a lookup result comes from a complete record of it.
pub proof fn lemma_cities_from_complete_records(rs: Seq<NominatimEntry>, k: int)
    requires
        0 <= k < cities_of(rs).len(),
    ensures
        exists|i: int| 0 <= i < rs.len() && !rs[i].is_incomplete() && rs[i].city_spec() == Some(cities_of(rs)[k]),
    decreases rs.len(),
{
    let prev = cities_of(rs.drop_last());
    if k < prev.len() {
        lemma_cities_from_complete_records(rs.drop_last(), k);
        let i = choose|i: int| 0 <= i < rs.drop_last().len() && !rs.drop_last()[i].is_incomplete()
            && rs.drop_last()[i].city_spec() == Some(prev[k]);
        assert(rs[i] == rs.drop_last()[i]);
    } else {
        assert(rs.last() == rs[rs.len() - 1]);
    }
}

} // verus!
