use mapping_for_good::app_state::{update, Cmd, EntryFormMsg, Model, Msg};
use mapping_for_good::entry::{project, Entry, EntrySearchResponse};
use mapping_for_good::form::{Actual, EntryFormInvalidity, Max, Min};
use mapping_for_good::geo::BBox;
use mapping_for_good::nominatim::{NominatimAddress, NominatimEntry};

fn entry(id: &str, title: &str) -> Entry {
    Entry { id: id.to_string(), title: title.to_string(), description: format!("about {}", title), lat: 10, lng: 20 }
}

fn city_record(name: &str, class: &str) -> NominatimEntry {
    NominatimEntry {
        address: NominatimAddress {
            city: Some(name.to_string()),
            country: "Germany".to_string(),
            country_code: "de".to_string(),
            locality: None,
            postcode: None,
            state: None,
            village: None,
        },
        boundingbox: vec![],
        class: class.to_string(),
        place_type: "city".to_string(),
        display_name: name.to_string(),
        lat: Some("52.52".to_string()),
        lon: Some("13.405".to_string()),
    }
}

fn found(visible: Vec<Entry>, invisible: Vec<Entry>) -> Msg {
    Msg::EntrySearchResult(Ok(EntrySearchResponse { visible, invisible }))
}

#[test]
fn default_model_is_empty() {
    let m = Model::default();
    assert!(m.cities.is_none() && m.bbox.is_none() && m.selected.is_none());
    assert!(m.entries.is_empty() && m.new_entry_form_errors.is_empty());
    assert!(!m.show_new_entry_form);
    assert_eq!(m.new_entry_form.title, "");
}

#[test]
fn query_asks_for_places() {
    let mut m = Model::new();
    let cmd = update(Msg::CitySearch("Berlin".to_string()), &mut m);
    assert!(matches!(cmd, Cmd::FetchCities(ref q) if q == "Berlin"));
    assert!(m.cities.is_none());
}

#[test]
fn city_results_replace_only_when_non_empty() {
    let mut m = Model::new();
    update(Msg::CitySearchResult(Ok(vec![city_record("Berlin", "place")])), &mut m);
    let cities = m.cities.clone().unwrap();
    assert_eq!(cities.len(), 1);
    assert_eq!(cities[0].name, "Berlin");
    assert_eq!((cities[0].lat, cities[0].lng), (525_200_000, 134_050_000));
    update(Msg::CitySearchResult(Ok(vec![city_record("Nowhere", "shop")])), &mut m);
    assert_eq!(m.cities, Some(cities.clone()));
    update(Msg::CitySearchResult(Ok(vec![])), &mut m);
    assert_eq!(m.cities, Some(cities.clone()));
    let cmd = update(Msg::CitySearchResult(Err("offline".to_string())), &mut m);
    assert!(matches!(cmd, Cmd::ReportFailure(ref e) if e == "offline"));
    assert_eq!(m.cities, Some(cities));
    update(Msg::CitySearchResult(Ok(vec![city_record("Bonn", "boundary"), city_record("Hamburg", "place")])), &mut m);
    let names: Vec<String> = m.cities.unwrap().into_iter().map(|c| c.name).collect();
    assert_eq!(names, vec!["Hamburg".to_string()]);
}

#[test]
fn viewport_change_sets_box_and_fetches() {
    let mut m = Model::new();
    let b = BBox::new(1, 2, 3, 4);
    let cmd = update(Msg::UpdateBBox(b), &mut m);
    assert_eq!(m.bbox, Some(b));
    assert!(matches!(cmd, Cmd::FetchEntries(x) if x == b));
    update(Msg::EntrySearchResult(Err("timeout".to_string())), &mut m);
    assert_eq!(m.bbox, Some(b));
    update(found(vec![entry("a", "A")], vec![]), &mut m);
    assert_eq!(m.bbox, Some(b));
}

#[test]
fn visible_entries_replace_state() {
    let mut m = Model::new();
    update(found(vec![entry("old", "Old")], vec![]), &mut m);
    let cmd = update(found(vec![entry("a", "A"), entry("b", "B")], vec![entry("c", "C")]), &mut m);
    assert_eq!(m.entries, vec![entry("a", "A"), entry("b", "B")]);
    match cmd {
        Cmd::RefreshMap(ms) => {
            assert_eq!(ms, project(&m.entries));
            assert_eq!(ms.len(), 2);
            assert_eq!((ms[0].id.as_str(), ms[0].name.as_str(), ms[0].lat, ms[0].lng), ("a", "A", 10, 20));
        }
        other => panic!("unexpected {:?}", other),
    }
    let cmd = update(Msg::EntrySearchResult(Err("bad payload".to_string())), &mut m);
    assert!(matches!(cmd, Cmd::ReportFailure(_)));
    assert_eq!(m.entries.len(), 2);
}

#[test]
fn selecting_by_id() {
    let mut m = Model::new();
    update(found(vec![entry("a", "A"), entry("b", "B")], vec![]), &mut m);
    update(Msg::EntrySelected("b".to_string()), &mut m);
    assert_eq!(m.selected, Some(entry("b", "B")));
    update(Msg::EntrySelected("zzz".to_string()), &mut m);
    assert_eq!(m.selected, None);
}

#[test]
fn selection_takes_first_of_equal_ids() {
    let mut m = Model::new();
    update(found(vec![entry("a", "First"), entry("a", "Second")], vec![]), &mut m);
    update(Msg::EntrySelected("a".to_string()), &mut m);
    assert_eq!(m.selected, Some(entry("a", "First")));
}

#[test]
fn map_center_is_delegated() {
    let mut m = Model::new();
    let cmd = update(Msg::SetMapCenter(525_200_000, 134_050_000), &mut m);
    assert!(matches!(cmd, Cmd::CenterMap(525_200_000, 134_050_000)));
    assert!(m.bbox.is_none());
}

#[test]
fn form_editing() {
    let mut m = Model::new();
    update(Msg::ShowNewEntryForm, &mut m);
    assert!(m.show_new_entry_form);
    update(Msg::EntryForm(EntryFormMsg::Title("Hi".to_string())), &mut m);
    update(Msg::EntryForm(EntryFormMsg::Description("x".to_string())), &mut m);
    assert_eq!(m.new_entry_form.title, "Hi");
    assert_eq!(m.new_entry_form.description, "x");
}

#[test]
fn submitting_short_title_records_violation() {
    let mut m = Model::new();
    update(Msg::EntryForm(EntryFormMsg::Title("Hi".to_string())), &mut m);
    update(Msg::EntryForm(EntryFormMsg::Description("x".to_string())), &mut m);
    let before = m.new_entry_form.clone();
    let cmd = update(Msg::CreateNewEntry, &mut m);
    assert!(matches!(cmd, Cmd::Nothing));
    assert_eq!(m.new_entry_form_errors, vec![EntryFormInvalidity::TitleLength(Min(3), Max(25), Actual(2))]);
    assert_eq!(m.new_entry_form, before);
    update(Msg::CreateNewEntry, &mut m);
    assert_eq!(m.new_entry_form_errors, vec![EntryFormInvalidity::TitleLength(Min(3), Max(25), Actual(2))]);
}

#[test]
fn valid_submit_clears_violations() {
    let mut m = Model::new();
    update(Msg::CreateNewEntry, &mut m);
    assert_eq!(m.new_entry_form_errors.len(), 1);
    update(Msg::EntryForm(EntryFormMsg::Title("Hello".to_string())), &mut m);
    update(Msg::CreateNewEntry, &mut m);
    assert!(m.new_entry_form_errors.is_empty());
}

#[test]
fn late_answer_for_earlier_box_wins() {
    let mut m = Model::new();
    let b1 = BBox::new(0, 0, 10, 10);
    let b2 = BBox::new(20, 20, 30, 30);
    update(Msg::UpdateBBox(b1), &mut m);
    update(Msg::UpdateBBox(b2), &mut m);
    update(found(vec![entry("two", "B2")], vec![]), &mut m);
    update(found(vec![entry("one", "B1")], vec![]), &mut m);
    assert_eq!(m.entries, vec![entry("one", "B1")]);
    assert_eq!(m.bbox, Some(b2));
}
