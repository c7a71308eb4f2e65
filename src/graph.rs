use vstd::prelude::*;

use crate::period::{period_index, periods, Exponent, Period};

verus! {

/// A field that the user can edit.
#[derive(Clone, Copy, Debug, PartialEq, Eq, Structural)]
pub enum FieldId {
    /// The principal.
    Amount,
    /// The rate of a period.
    Rate(Period),
    /// What the amount earns over a period.
    Gain(Period),
}

/// The two values that every field is computed from.
#[derive(Clone, Copy, Debug, PartialEq, Eq, Structural)]
pub enum Source {
    Amount,
    Yearly,
}

/// How an edit recomputes its source.
#[derive(Clone, Copy, Debug, PartialEq, Eq, Structural)]
pub enum SourceUpdate {
    /// The amount takes the edited value.
    SetAmount,
    /// The yearly rate becomes the edited rate raised to `power`.
    SetYearly { power: Exponent },
    /// The amount becomes the edited gain divided by the rate of `period` less one;
    /// where that rate is one the edit leaves the amount as it is.
    AmountFromGain { period: Period },
}

/// The plan for one edit: the source it recomputes, then the fields to show
/// again, in order.
pub struct EditPlan {
    pub update: SourceUpdate,
    pub refresh: Vec<FieldId>,
}

/// Every editable field: the amount, then the rates, then the gains, each of the
/// last two shortest period first.
pub open spec fn fields() -> Seq<FieldId> {
    seq![FieldId::Amount] + periods().map_values(|p: Period| FieldId::Rate(p)) + periods().map_values(
        |p: Period| FieldId::Gain(p),
    )
}

/// The source that an edit of `f` changes.
pub open spec fn edited_source(f: FieldId) -> Source {
    match f {
        FieldId::Amount => Source::Amount,
        FieldId::Rate(_) => Source::Yearly,
        FieldId::Gain(_) => Source::Amount,
    }
}

/// Whether the value of field `f` is computed from source `s`.
pub open spec fn reads(f: FieldId, s: Source) -> bool {
    match f {
        FieldId::Amount => s == Source::Amount,
        FieldId::Rate(_) => s == Source::Yearly,
        FieldId::Gain(_) => true,
    }
}

pub open spec fn update_for(f: FieldId) -> SourceUpdate {
    match f {
        FieldId::Amount => SourceUpdate::SetAmount,
        FieldId::Rate(p) => SourceUpdate::SetYearly { power: p.years().inverse() },
        FieldId::Gain(p) => SourceUpdate::AmountFromGain { period: p },
    }
}

/// The fields among `fs`, in their order, that an edit of `edited` makes stale: those
/// that read the source it changes, but for the edited field itself.
pub open spec fn stale(edited: FieldId, fs: Seq<FieldId>) -> Seq<FieldId>
    decreases fs.len(),
{
    if fs.len() == 0 {
        Seq::empty()
    } else {
        let rest = stale(edited, fs.drop_last());
        let f = fs.last();
        if f != edited && reads(f, edited_source(edited)) {
            rest.push(f)
        } else {
            rest
        }
    }
}

/// The place of a field in `fields()`.
pub open spec fn slot(f: FieldId) -> int {
    match f {
        FieldId::Amount => 0,
        FieldId::Rate(p) => 1 + period_index(p),
        FieldId::Gain(p) => 6 + period_index(p),
    }
}

impl FieldId {
    /// The place of this field in `FieldId::all()`.
    pub fn slot(self) -> (i: usize)
        ensures
            i == slot(self),
            i < fields().len(),
    {
        let p = match self {
            FieldId::Amount => {
                return 0;
            },
            FieldId::Rate(p) => p,
            FieldId::Gain(p) => p,
        };
        let k: usize = match p {
            Period::Daily => 0,
            Period::Monthly => 1,
            Period::Yearly => 2,
            Period::FiveYear => 3,
            Period::TenYear => 4,
        };
        match self {
            FieldId::Gain(_) => 6 + k,
            _ => 1 + k,
        }
    }

    /// The source that an edit of this field changes.
    pub fn source(self) -> (s: Source)
        ensures
            s == edited_source(self),
    {
        match self {
            FieldId::Amount => Source::Amount,
            FieldId::Rate(_) => Source::Yearly,
            FieldId::Gain(_) => Source::Amount,
        }
    }

    /// Whether the value of this field is computed from `s`.
    pub fn reads(self, s: Source) -> (r: bool)
        ensures
            r == reads(self, s),
    {
        match self {
            FieldId::Amount => s == Source::Amount,
            FieldId::Rate(_) => s == Source::Yearly,
            FieldId::Gain(_) => true,
        }
    }

    /// Every editable field, in the order in which they are recomputed.
    pub fn all() -> (r: Vec<FieldId>)
        ensures
            r@ == fields(),
    {
        let r = vec![
            FieldId::Amount,
            FieldId::Rate(Period::Daily),
            FieldId::Rate(Period::Monthly),
            FieldId::Rate(Period::Yearly),
            FieldId::Rate(Period::FiveYear),
            FieldId::Rate(Period::TenYear),
            FieldId::Gain(Period::Daily),
            FieldId::Gain(Period::Monthly),
            FieldId::Gain(Period::Yearly),
            FieldId::Gain(Period::FiveYear),
            FieldId::Gain(Period::TenYear),
        ];
        assert(r@ =~= fields());
        r
    }
}

/// How an edit of `edited` changes the sources.
pub fn source_update(edited: FieldId) -> (u: SourceUpdate)
    ensures
        u == update_for(edited),
{
    match edited {
        FieldId::Amount => SourceUpdate::SetAmount,
        FieldId::Rate(p) => SourceUpdate::SetYearly { power: p.inverse_exponent() },
        FieldId::Gain(p) => SourceUpdate::AmountFromGain { period: p },
    }
}

/// Plans an edit of `edited`: first its source is recomputed, then the fields that
/// read that source are shown again, sources before rates before gains. The edited
/// field is not among them, so that no write of the plan counts as a new edit.
pub fn plan_edit(edited: FieldId) -> (r: EditPlan)
    ensures
        r.update == update_for(edited),
        r.refresh@ == stale(edited, fields()),
{
    let all = FieldId::all();
    let changed = edited.source();
    let mut refresh: Vec<FieldId> = Vec::new();
    let mut i: usize = 0;
    while i < all.len()
        invariant
            all@ == fields(),
            changed == edited_source(edited),
            i <= all@.len(),
            refresh@ == stale(edited, all@.take(i as int)),
        decreases all@.len() - i,
    {
        let f = all[i];
        assert(all@.take(i as int + 1).drop_last() =~= all@.take(i as int));
        if f != edited && f.reads(changed) {
            refresh.push(f);
        }
        i += 1;
    }
    assert(all@.take(all@.len() as int) =~= all@);
    EditPlan { update: source_update(edited), refresh }
}

/// A field is stale after an edit exactly when it is listed, is not the edited
/// field and reads the source that the edit changes.
proof fn lemma_stale_contains(edited: FieldId, fs: Seq<FieldId>, f: FieldId)
    ensures
        stale(edited, fs).contains(f) <==> (fs.contains(f) && f != edited && reads(
            f,
            edited_source(edited),
        )),
    decreases fs.len(),
{
    if fs.len() > 0 {
        let init = fs.drop_last();
        lemma_stale_contains(edited, init, f);
        if init.contains(f) {
            let k = choose|k: int| 0 <= k < init.len() && init[k] == f;
            assert(fs[k] == f);
        }
        if fs.contains(f) && f != fs.last() {
            let k = choose|k: int| 0 <= k < fs.len() && fs[k] == f;
            assert(init[k] == f);
        }
        let rest = stale(edited, init);
        if rest.contains(f) {
            let k = choose|k: int| 0 <= k < rest.len() && rest[k] == f;
            assert(rest.push(fs.last())[k] == f);
        }
        if stale(edited, fs).contains(f) && f != fs.last() {
            let k = choose|k: int| 0 <= k < stale(edited, fs).len() && stale(edited, fs)[k] == f;
            if stale(edited, fs) != rest {
                assert(rest[k] == f);
            }
        }
        if f == fs.last() && f != edited && reads(f, edited_source(edited)) {
            assert(stale(edited, fs)[rest.len() as int] == f);
        }
    }
}

/// Each field stands in `fields()` at its slot, and no two share one.
pub proof fn lemma_slots(f: FieldId, g: FieldId)
    ensures
        0 <= slot(f) < fields().len(),
        fields()[slot(f)] == f,
        f != g ==> slot(f) != slot(g),
{
}

/// Where each field stands in `fields()`.
proof fn lemma_fields_listed(p: Period)
    ensures
        fields().contains(FieldId::Amount),
        fields().contains(FieldId::Rate(p)),
        fields().contains(FieldId::Gain(p)),
{
    assert(fields()[0] == FieldId::Amount);
    assert(fields()[1 + period_index(p)] == FieldId::Rate(p));
    assert(fields()[6 + period_index(p)] == FieldId::Gain(p));
}

/// No plan shows the edited field again: its text stays as the user typed it.
pub proof fn lemma_edited_field_not_refreshed(edited: FieldId)
    ensures
        !stale(edited, fields()).contains(edited),
{
    lemma_stale_contains(edited, fields(), edited);
}

/// Editing the amount changes the amount alone: the yearly rate stays, so no rate
/// is shown again, while every gain is.
pub proof fn lemma_amount_edit_keeps_rates(p: Period)
    ensures
        update_for(FieldId::Amount) == SourceUpdate::SetAmount,
        !stale(FieldId::Amount, fields()).contains(FieldId::Rate(p)),
        stale(FieldId::Amount, fields()).contains(FieldId::Gain(p)),
{
    lemma_fields_listed(p);
    lemma_stale_contains(FieldId::Amount, fields(), FieldId::Rate(p));
    lemma_stale_contains(FieldId::Amount, fields(), FieldId::Gain(p));
}

/// Editing the rate of period `p` sets the yearly rate to the edited rate raised to
/// the inverse exponent of `p`, leaves the amount as it is, and shows again the
/// rate of every other period and every gain.
pub proof fn lemma_rate_edit_updates_yearly(p: Period, q: Period)
    ensures
        update_for(FieldId::Rate(p)) == (SourceUpdate::SetYearly { power: p.years().inverse() }),
        !stale(FieldId::Rate(p), fields()).contains(FieldId::Amount),
        q != p ==> stale(FieldId::Rate(p), fields()).contains(FieldId::Rate(q)),
        stale(FieldId::Rate(p), fields()).contains(FieldId::Gain(q)),
{
    lemma_fields_listed(q);
    lemma_stale_contains(FieldId::Rate(p), fields(), FieldId::Amount);
    lemma_stale_contains(FieldId::Rate(p), fields(), FieldId::Rate(q));
    lemma_stale_contains(FieldId::Rate(p), fields(), FieldId::Gain(q));
}

/// Editing the gain of period `p` recomputes the amount from it and leaves the
/// yearly rate as it is: the amount and every other gain are shown again, no rate
/// is.
pub proof fn lemma_gain_edit_updates_amount(p: Period, q: Period)
    ensures
        update_for(FieldId::Gain(p)) == (SourceUpdate::AmountFromGain { period: p }),
        stale(FieldId::Gain(p), fields()).contains(FieldId::Amount),
        !stale(FieldId::Gain(p), fields()).contains(FieldId::Rate(q)),
        q != p ==> stale(FieldId::Gain(p), fields()).contains(FieldId::Gain(q)),
{
    lemma_fields_listed(q);
    lemma_stale_contains(FieldId::Gain(p), fields(), FieldId::Amount);
    lemma_stale_contains(FieldId::Gain(p), fields(), FieldId::Rate(q));
    lemma_stale_contains(FieldId::Gain(p), fields(), FieldId::Gain(q));
}

} // verus!
