use semval::context::Context;
use vstd::prelude::*;

verus! {

/// The fewest characters a title may have.
pub const TITLE_MIN: usize = 3;

/// The most characters a title is meant to have.
pub const TITLE_MAX: usize = 25;

/// A lower bound of a rule.
#[derive(Debug, Clone, Copy, PartialEq, Eq, Structural)]
pub struct Min(pub usize);

/// An upper bound of a rule.
#[derive(Debug, Clone, Copy, PartialEq, Eq, Structural)]
pub struct Max(pub usize);

/// The measurement that broke a rule.
#[derive(Debug, Clone, Copy, PartialEq, Eq, Structural)]
pub struct Actual(pub usize);

/// One broken rule of the new-entry form.
#[derive(Debug, Clone, Copy, PartialEq, Eq, Structural)]
pub enum EntryFormInvalidity {
    TitleLength(Min, Max, Actual),
}

/// The draft of a new entry.
#[derive(Debug, Clone, PartialEq, Eq)]
pub struct EntryFormModel {
    pub title: String,
    pub description: String,
}

/// The draft as text.
pub struct EntryFormView {
    pub title: Seq<char>,
    pub description: Seq<char>,
}

impl View for EntryFormModel {
    type V = EntryFormView;

    open spec fn view(&self) -> EntryFormView {
        EntryFormView { title: self.title@, description: self.description@ }
    }
}

/// The rules a draft breaks, given its title: only a title shorter than
/// `TITLE_MIN` characters is refused.
pub open spec fn form_violations(title: Seq<char>) -> Seq<EntryFormInvalidity> {
    if title.len() < TITLE_MIN {
        seq![EntryFormInvalidity::TitleLength(Min(TITLE_MIN), Max(TITLE_MAX), Actual(title.len() as usize))]
    } else {
        seq![]
    }
}

/// The rules found broken so far in one validation, kept in semval's
/// validation context.
#[verifier::external_body]
pub struct Checks {
    ctx: Context<(usize, usize, usize)>,
}

/// What a validation context has collected, in the order it was recorded:
/// (minimum, maximum, actual) of each broken length rule.
pub uninterp spec fn checks_items(c: Checks) -> Seq<(usize, usize, usize)>;

/// Relies on semval's `Context::new`: a context that has recorded nothing.
#[verifier::external_body]
fn new_checks() -> (r: Checks)
    ensures
        checks_items(r) == Seq::<(usize, usize, usize)>::empty(),
{
    Checks { ctx: Context::new() }
}

/// Relies on semval's `Context::invalidate_if`: records `v` at the end when
/// `is_invalid` holds, else leaves the context as it was.
#[verifier::external_body]
fn invalidate_if(c: Checks, is_invalid: bool, v: (usize, usize, usize)) -> (r: Checks)
    ensures
        checks_items(r) == if is_invalid { checks_items(c).push(v) } else { checks_items(c) },
{
    Checks { ctx: c.ctx.invalidate_if(is_invalid, v) }
}

/// Relies on semval's `IntoIterator` for `Context`: every recorded item, in order.
#[verifier::external_body]
fn checks_into_vec(c: Checks) -> (r: Vec<(usize, usize, usize)>)
    ensures
        r@ == checks_items(c),
{
    c.ctx.into_iter().collect()
}

impl EntryFormModel {
    /// An empty draft.
    pub fn new() -> (r: Self)
        ensures
            r@.title.len() == 0,
            r@.description.len() == 0,
    {
        EntryFormModel { title: String::new(), description: String::new() }
    }

    /// Checks the draft; on failure returns every broken rule.
    pub fn validate(&self) -> (r: Result<(), Vec<EntryFormInvalidity>>)
        ensures
            match r {
                Ok(_) => form_violations(self@.title).len() == 0,
                Err(v) => v@ == form_violations(self@.title) && v@.len() > 0,
            },
    {
        let len = self.title.as_str().unicode_len();
        let ctx = invalidate_if(new_checks(), len < TITLE_MIN, (TITLE_MIN, TITLE_MAX, len));
        let found = checks_into_vec(ctx);
        if found.len() == 0 {
            return Ok(());
        }
        let mut out: Vec<EntryFormInvalidity> = Vec::new();
        let mut i: usize = 0;
        while i < found.len()
            invariant
                i <= found@.len(),
                found@ == seq![(TITLE_MIN, TITLE_MAX, len)],
                out@.len() == i,
                forall|j: int| 0 <= j < i ==> out@[j] == EntryFormInvalidity::TitleLength(
                    Min(found@[j].0), Max(found@[j].1), Actual(found@[j].2)),
            decreases found@.len() - i,
        {
            let (lo, hi, actual) = found[i];
            out.push(EntryFormInvalidity::TitleLength(Min(lo), Max(hi), Actual(actual)));
            i = i + 1;
        }
        assert(out@ =~= form_violations(self@.title));
        Err(out)
    }
}

/// Validation depends on the title alone, and a title of fewer than three
/// characters gives exactly one length violation that carries the bounds
/// (3, 25) and the title's length; a longer one gives none.
pub proof fn lemma_validation_rule(title: Seq<char>)
    ensures
        title.len() < 3 ==> form_violations(title) == seq![
            EntryFormInvalidity::TitleLength(Min(3), Max(25), Actual(title.len() as usize))],
        title.len() >= 3 ==> form_violations(title).len() == 0,
{
}

} // verus!
