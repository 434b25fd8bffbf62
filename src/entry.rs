use vstd::prelude::*;

verus! {

/// A point of interest shown on the map; coordinates in 1e-7 degrees.
#[derive(Debug, Clone, PartialEq, Eq)]
pub struct Entry {
    pub id: String,
    pub title: String,
    pub description: String,
    pub lat: i64,
    pub lng: i64,
}

pub struct EntryView {
    pub id: Seq<char>,
    pub title: Seq<char>,
    pub description: Seq<char>,
    pub lat: i64,
    pub lng: i64,
}

impl View for Entry {
    type V = EntryView;

    open spec fn view(&self) -> EntryView {
        EntryView {
            id: self.id@,
            title: self.title@,
            description: self.description@,
            lat: self.lat,
            lng: self.lng,
        }
    }
}

pub open spec fn entries_view(es: Seq<Entry>) -> Seq<EntryView> {
    es.map_values(|e: Entry| e@)
}

impl Entry {
    /// A copy with the same text and position.
    pub fn duplicate(&self) -> (r: Entry)
        ensures
            r@ == self@,
    {
        Entry {
            id: self.id.clone(),
            title: self.title.clone(),
            description: self.description.clone(),
            lat: self.lat,
            lng: self.lng,
        }
    }
}

/// The answer of an entries search: what lies in the box, and what does not.
#[derive(Debug, Clone, PartialEq, Eq)]
pub struct EntrySearchResponse {
    pub visible: Vec<Entry>,
    pub invisible: Vec<Entry>,
}

/// What the map surface draws for one entry.
#[derive(Debug, Clone, PartialEq, Eq)]
pub struct MapEntry {
    pub id: String,
    pub name: String,
    pub lat: i64,
    pub lng: i64,
}

pub struct MapEntryView {
    pub id: Seq<char>,
    pub name: Seq<char>,
    pub lat: i64,
    pub lng: i64,
}

impl View for MapEntry {
    type V = MapEntryView;

    open spec fn view(&self) -> MapEntryView {
        MapEntryView { id: self.id@, name: self.name@, lat: self.lat, lng: self.lng }
    }
}

/// The marker of an entry: its id, its title as the name, its position.
pub open spec fn marker_of(e: EntryView) -> MapEntryView {
    MapEntryView { id: e.id, name: e.title, lat: e.lat, lng: e.lng }
}

pub open spec fn markers_of(es: Seq<EntryView>) -> Seq<MapEntryView> {
    es.map_values(|e: EntryView| marker_of(e))
}

/// The entries as the map surface takes them, in the same order.
pub fn project(entries: &Vec<Entry>) -> (r: Vec<MapEntry>)
    ensures
        r@.map_values(|m: MapEntry| m@) == markers_of(entries_view(entries@)),
{
    let mut out: Vec<MapEntry> = Vec::new();
    let mut i: usize = 0;
    while i < entries.len()
        invariant
            i <= entries@.len(),
            out@.len() == i,
            forall|j: int| 0 <= j < i ==> (#[trigger] out@[j])@ == marker_of(entries@[j]@),
        decreases entries@.len() - i,
    {
        let e = &entries[i];
        out.push(MapEntry { id: e.id.clone(), name: e.title.clone(), lat: e.lat, lng: e.lng });
        i = i + 1;
    }
    assert(out@.map_values(|m: MapEntry| m@) =~= markers_of(entries_view(entries@)));
    out
}

/// The first entry with the given id.
pub open spec fn find_entry(es: Seq<EntryView>, id: Seq<char>) -> Option<EntryView>
    decreases es.len(),
{
    if es.len() == 0 {
        None
    } else if es[0].id == id {
        Some(es[0])
    } else {
        find_entry(es.skip(1), id)
    }
}

/// A copy of the first entry whose id is `id`, if any.
pub fn find_by_id(entries: &Vec<Entry>, id: &String) -> (r: Option<Entry>)
    ensures
        match r {
            Some(e) => find_entry(entries_view(entries@), id@) == Some(e@),
            None => find_entry(entries_view(entries@), id@) is None,
        },
{
    let ghost all = entries_view(entries@);
    assert(all.skip(0) =~= all);
    let mut i: usize = 0;
    while i < entries.len()
        invariant
            i <= entries@.len(),
            all == entries_view(entries@),
            find_entry(all, id@) == find_entry(all.skip(i as int), id@),
        decreases entries@.len() - i,
    {
        let ghost rest = all.skip(i as int);
        assert(rest[0] == entries@[i as int]@);
        if entries[i].id == *id {
            return Some(entries[i].duplicate());
        }
        assert(rest.skip(1) =~= all.skip(i + 1));
        i = i + 1;
    }
    assert(all.skip(i as int).len() == 0);
    None
}

/// Selecting by id yields the first entry with that id; an id that no
/// entry has yields nothing.
pub proof fn lemma_find_entry(es: Seq<EntryView>, id: Seq<char>, i: int)
    requires
        0 <= i <= es.len(),
        forall|j: int| 0 <= j < i ==> (#[trigger] es[j]).id != id,
    ensures
        i < es.len() && es[i].id == id ==> find_entry(es, id) == Some(es[i]),
        i == es.len() ==> find_entry(es, id) is None,
    decreases i,
{
    if i > 0 {
        let t = es.skip(1);
        assert forall|j: int| 0 <= j < i - 1 implies (#[trigger] t[j]).id != id by {
            assert(t[j] == es[j + 1]);
        }
        assert(es[0].id != id);
        lemma_find_entry(t, id, i - 1);
        if i < es.len() {
            assert(t[i - 1] == es[i]);
        }
    } else if es.len() == 0 {
    }
}

} // verus!
