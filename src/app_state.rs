use crate::entry::{
    entries_view, find_by_id, find_entry, markers_of, project, Entry, EntrySearchResponse, EntryView,
    MapEntry, MapEntryView,
};
use crate::form::{form_violations, EntryFormInvalidity, EntryFormModel, EntryFormView};
use crate::geo::BBox;
use crate::nominatim::{cities_from, cities_of, cities_view, City, CityView, NominatimEntry};
use vstd::prelude::*;

verus! {

/// The single state of the client.
#[derive(Debug)]
pub struct Model {
    pub cities: Option<Vec<City>>,
    pub bbox: Option<BBox>,
    pub selected: Option<Entry>,
    pub entries: Vec<Entry>,
    pub show_new_entry_form: bool,
    pub new_entry_form: EntryFormModel,
    pub new_entry_form_errors: Vec<EntryFormInvalidity>,
}

pub struct ModelView {
    pub cities: Option<Seq<CityView>>,
    pub bbox: Option<BBox>,
    pub selected: Option<EntryView>,
    pub entries: Seq<EntryView>,
    pub show_new_entry_form: bool,
    pub new_entry_form: EntryFormView,
    pub new_entry_form_errors: Seq<EntryFormInvalidity>,
}

impl View for Model {
    type V = ModelView;

    open spec fn view(&self) -> ModelView {
        ModelView {
            cities: match self.cities {
                Some(cs) => Some(cities_view(cs@)),
                None => None,
            },
            bbox: self.bbox,
            selected: match self.selected {
                Some(e) => Some(e@),
                None => None,
            },
            entries: entries_view(self.entries@),
            show_new_entry_form: self.show_new_entry_form,
            new_entry_form: self.new_entry_form@,
            new_entry_form_errors: self.new_entry_form_errors@,
        }
    }
}

/// The state at start: nothing found, nothing selected, an empty hidden form.
pub open spec fn initial_model() -> ModelView {
    ModelView {
        cities: None,
        bbox: None,
        selected: None,
        entries: seq![],
        show_new_entry_form: false,
        new_entry_form: EntryFormView { title: seq![], description: seq![] },
        new_entry_form_errors: seq![],
    }
}

impl Model {
    pub fn new() -> (r: Self)
        ensures
            r@ == initial_model(),
    {
        let r = Model {
            cities: None,
            bbox: None,
            selected: None,
            entries: Vec::new(),
            show_new_entry_form: false,
            new_entry_form: EntryFormModel::new(),
            new_entry_form_errors: Vec::new(),
        };
        assert(r@.entries =~= seq![]);
        assert(r@.new_entry_form.title =~= seq![]);
        assert(r@.new_entry_form.description =~= seq![]);
        assert(r@.new_entry_form_errors =~= seq![]);
        r
    }
}

impl Default for Model {
    fn default() -> (r: Self)
        ensures
            r@ == initial_model(),
    {
        Model::new()
    }
}

/// A change to one field of the draft.
#[derive(Debug)]
pub enum EntryFormMsg {
    Title(String),
    Description(String),
}

/// Everything that can happen to the client.
#[derive(Debug)]
pub enum Msg {
    /// The place query text changed.
    CitySearch(String),
    /// The place lookup answered, or failed with a reason.
    CitySearchResult(Result<Vec<NominatimEntry>, String>),
    /// The entries search answered, or failed with a reason.
    EntrySearchResult(Result<EntrySearchResponse, String>),
    /// The user asked to center the map on a point (1e-7 degrees).
    SetMapCenter(i64, i64),
    /// The visible part of the map changed.
    UpdateBBox(BBox),
    /// A marker was chosen.
    EntrySelected(String),
    ShowNewEntryForm,
    EntryForm(EntryFormMsg),
    CreateNewEntry,
}

/// The work left for the host after one message.
#[derive(Debug)]
pub enum Cmd {
    Nothing,
    /// Look up places named by the query.
    FetchCities(String),
    /// Search the entries inside the box.
    FetchEntries(BBox),
    /// Recenter the map on a point (1e-7 degrees).
    CenterMap(i64, i64),
    /// Redraw the markers.
    RefreshMap(Vec<MapEntry>),
    /// A lookup failed; the reason is for diagnostics only.
    ReportFailure(String),
}

pub enum CmdView {
    Nothing,
    FetchCities(Seq<char>),
    FetchEntries(BBox),
    CenterMap(i64, i64),
    RefreshMap(Seq<MapEntryView>),
    ReportFailure(Seq<char>),
}

impl View for Cmd {
    type V = CmdView;

    open spec fn view(&self) -> CmdView {
        match self {
            Cmd::Nothing => CmdView::Nothing,
            Cmd::FetchCities(q) => CmdView::FetchCities(q@),
            Cmd::FetchEntries(b) => CmdView::FetchEntries(*b),
            Cmd::CenterMap(lat, lng) => CmdView::CenterMap(*lat, *lng),
            Cmd::RefreshMap(ms) => CmdView::RefreshMap(ms@.map_values(|m: MapEntry| m@)),
            Cmd::ReportFailure(e) => CmdView::ReportFailure(e@),
        }
    }
}

/// The state after one message.
pub open spec fn next_model(m: ModelView, msg: Msg) -> ModelView {
    match msg {
        Msg::CitySearchResult(Ok(rs)) => if cities_of(rs@).len() > 0 {
            ModelView { cities: Some(cities_of(rs@)), ..m }
        } else {
            m
        },
        Msg::EntrySearchResult(Ok(res)) => ModelView { entries: entries_view(res.visible@), ..m },
        Msg::UpdateBBox(b) => ModelView { bbox: Some(b), ..m },
        Msg::EntrySelected(id) => ModelView { selected: find_entry(m.entries, id@), ..m },
        Msg::ShowNewEntryForm => ModelView { show_new_entry_form: true, ..m },
        Msg::EntryForm(EntryFormMsg::Title(t)) => ModelView {
            new_entry_form: EntryFormView { title: t@, description: m.new_entry_form.description },
            ..m
        },
        Msg::EntryForm(EntryFormMsg::Description(d)) => ModelView {
            new_entry_form: EntryFormView { title: m.new_entry_form.title, description: d@ },
            ..m
        },
        Msg::CreateNewEntry => ModelView { new_entry_form_errors: form_violations(m.new_entry_form.title), ..m },
        _ => m,
    }
}

/// The work a message leaves for the host.
pub open spec fn command_of(msg: Msg) -> CmdView {
    match msg {
        Msg::CitySearch(q) => CmdView::FetchCities(q@),
        Msg::CitySearchResult(Err(e)) => CmdView::ReportFailure(e@),
        Msg::EntrySearchResult(Ok(res)) => CmdView::RefreshMap(markers_of(entries_view(res.visible@))),
        Msg::EntrySearchResult(Err(e)) => CmdView::ReportFailure(e@),
        Msg::SetMapCenter(lat, lng) => CmdView::CenterMap(lat, lng),
        Msg::UpdateBBox(b) => CmdView::FetchEntries(b),
        _ => CmdView::Nothing,
    }
}

/// Applies one message to the state and returns the work it leaves.
pub fn update(msg: Msg, model: &mut Model) -> (cmd: Cmd)
    ensures
        final(model)@ == next_model(old(model)@, msg),
        cmd@ == command_of(msg),
{
    match msg {
        Msg::CitySearch(txt) => Cmd::FetchCities(txt),
        Msg::CitySearchResult(Ok(res)) => {
            let cities = cities_from(&res);
            if cities.len() > 0 {
                model.cities = Some(cities);
            }
            Cmd::Nothing
        },
        Msg::CitySearchResult(Err(fail_reason)) => Cmd::ReportFailure(fail_reason),
        Msg::EntrySearchResult(Ok(res)) => {
            model.entries = res.visible;
            Cmd::RefreshMap(project(&model.entries))
        },
        Msg::EntrySearchResult(Err(fail_reason)) => Cmd::ReportFailure(fail_reason),
        Msg::SetMapCenter(lat, lng) => Cmd::CenterMap(lat, lng),
        Msg::UpdateBBox(bbox) => {
            model.bbox = Some(bbox);
            Cmd::FetchEntries(bbox)
        },
        Msg::EntrySelected(id) => {
            model.selected = find_by_id(&model.entries, &id);
            Cmd::Nothing
        },
        Msg::ShowNewEntryForm => {
            model.show_new_entry_form = true;
            Cmd::Nothing
        },
        Msg::EntryForm(e_msg) => {
            match e_msg {
                EntryFormMsg::Title(txt) => {
                    model.new_entry_form.title = txt;
                },
                EntryFormMsg::Description(txt) => {
                    model.new_entry_form.description = txt;
                },
            }
            Cmd::Nothing
        },
        Msg::CreateNewEntry => {
            match model.new_entry_form.validate() {
                Ok(_) => {
                    model.new_entry_form_errors = Vec::new();
                    assert(model.new_entry_form_errors@ =~= form_violations(model.new_entry_form@.title));
                },
                Err(err) => {
                    model.new_entry_form_errors = err;
                },
            }
            Cmd::Nothing
        },
    }
}


/// A place-lookup answer replaces the candidate cities with exactly the
/// cities it holds when it holds any, and otherwise leaves them as they were;
/// nothing else in the state changes.
pub proof fn lemma_city_results(m: ModelView, rs: Vec<NominatimEntry>)
    ensures
        cities_of(rs@).len() > 0 ==> next_model(m, Msg::CitySearchResult(Ok(rs))) == (ModelView {
            cities: Some(cities_of(rs@)),
            ..m
        }),
        cities_of(rs@).len() == 0 ==> next_model(m, Msg::CitySearchResult(Ok(rs))) == m,
{
}

/// A viewport change sets the current box at once and asks for the entries in
/// it; the box stays whether that search then succeeds or fails.
pub proof fn lemma_viewport_change(m: ModelView, b: BBox, answer: Result<EntrySearchResponse, String>)
    ensures
        next_model(m, Msg::UpdateBBox(b)).bbox == Some(b),
        command_of(Msg::UpdateBBox(b)) == CmdView::FetchEntries(b),
        next_model(next_model(m, Msg::UpdateBBox(b)), Msg::EntrySearchResult(answer)).bbox == Some(b),
{
}

/// A successful entries search replaces the entries with exactly the visible
/// ones and hands their markers to the map; a failed one changes nothing.
pub proof fn lemma_entries_replaced(m: ModelView, res: EntrySearchResponse, reason: String)
    ensures
        next_model(m, Msg::EntrySearchResult(Ok(res))).entries == entries_view(res.visible@),
        command_of(Msg::EntrySearchResult(Ok(res))) == CmdView::RefreshMap(
            markers_of(entries_view(res.visible@))),
        next_model(m, Msg::EntrySearchResult(Err(reason))) == m,
{
}

/// Selecting an id that exactly one entry has selects that entry; selecting
/// an id that no entry has clears the selection.
pub proof fn lemma_entry_selection(m: ModelView, id: String, i: int)
    requires
        0 <= i <= m.entries.len(),
        i < m.entries.len() ==> m.entries[i].id == id@,
        forall|j: int| 0 <= j < m.entries.len() && j != i ==> (#[trigger] m.entries[j]).id != id@,
    ensures
        i < m.entries.len() ==> next_model(m, Msg::EntrySelected(id)).selected == Some(m.entries[i]),
        i == m.entries.len() ==> next_model(m, Msg::EntrySelected(id)).selected is None,
{
    crate::entry::lemma_find_entry(m.entries, id@, i);
}

/// Submitting the form records exactly the violations of the draft (none
/// when it is valid) and leaves the draft as it was; submitting twice records
/// the same.
pub proof fn lemma_submit(m: ModelView)
    ensures
        next_model(m, Msg::CreateNewEntry).new_entry_form_errors == form_violations(m.new_entry_form.title),
        next_model(m, Msg::CreateNewEntry).new_entry_form == m.new_entry_form,
        next_model(next_model(m, Msg::CreateNewEntry), Msg::CreateNewEntry) == next_model(m, Msg::CreateNewEntry),
{
}

/// Two searches in flight are applied in the order their answers arrive: when
/// the answer for the first box comes last, its entries are the ones kept,
/// while the box is the second one.
pub proof fn lemma_last_applied_wins(
    m: ModelView,
    b1: BBox,
    b2: BBox,
    r1: EntrySearchResponse,
    r2: EntrySearchResponse,
)
    ensures
        ({
            let s = next_model(next_model(m, Msg::UpdateBBox(b1)), Msg::UpdateBBox(b2));
            let t = next_model(next_model(s, Msg::EntrySearchResult(Ok(r2))), Msg::EntrySearchResult(Ok(r1)));
            t.entries == entries_view(r1.visible@) && t.bbox == Some(b2)
        }),
{
}

} // verus!
