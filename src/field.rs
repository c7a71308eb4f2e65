use vstd::prelude::*;

use crate::expr::{accepted, blank, evaluate_with_rates, EvalError, Number};
use crate::graph::{fields, lemma_slots, slot, FieldId};
use crate::rates::{substituted, RateSpec, Rates};

verus! {

/// What an editable field holds: whether it has the focus, the text last typed
/// into it, the formatted canonical value and whether the typed text is in error.
pub struct FieldState {
    pub focused: bool,
    pub raw: Seq<char>,
    pub canonical: Seq<char>,
    pub error: bool,
}

/// The text a field shows: what was typed while it has the focus, its canonical
/// value otherwise.
pub open spec fn shown(s: FieldState) -> Seq<char> {
    if s.focused {
        s.raw
    } else {
        s.canonical
    }
}

/// Gaining the focus: the text shown stays, and typing starts from it.
pub open spec fn focused(s: FieldState) -> FieldState {
    FieldState { focused: true, raw: shown(s), canonical: s.canonical, error: s.error }
}

/// Losing the focus: the canonical value is shown again, with no error.
pub open spec fn blurred(s: FieldState) -> FieldState {
    FieldState { focused: false, raw: s.raw, canonical: s.canonical, error: false }
}

/// A keystroke: the typed text is kept, in error unless it was accepted; the
/// canonical value is not touched.
pub open spec fn typed(s: FieldState, text: Seq<char>, ok: bool) -> FieldState {
    FieldState { focused: s.focused, raw: text, canonical: s.canonical, error: !ok }
}

/// A new canonical value, once the graph has recomputed it.
pub open spec fn recomputed(s: FieldState, canonical: Seq<char>) -> FieldState {
    FieldState { focused: s.focused, raw: s.raw, canonical, error: s.error }
}

/// An editable field: it shows the text being typed while it has the focus, so
/// that reformatting never fights the user, and its canonical value otherwise.
pub struct Field {
    focused: bool,
    raw: String,
    canonical: String,
    error: bool,
}

impl View for Field {
    type V = FieldState;

    closed spec fn view(&self) -> FieldState {
        FieldState {
            focused: self.focused,
            raw: self.raw@,
            canonical: self.canonical@,
            error: self.error,
        }
    }
}

impl Field {
    /// A field without the focus that shows `canonical`.
    pub fn new(canonical: String) -> (r: Field)
        ensures
            r@ == (FieldState {
                focused: false,
                raw: Seq::empty(),
                canonical: canonical@,
                error: false,
            }),
    {
        Field { focused: false, raw: String::new(), canonical, error: false }
    }

    pub fn is_focused(&self) -> (r: bool)
        ensures
            r == self@.focused,
    {
        self.focused
    }

    /// Whether the text being typed fails to evaluate.
    pub fn is_error(&self) -> (r: bool)
        ensures
            r == self@.error,
    {
        self.error
    }

    /// The text the field shows.
    pub fn display(&self) -> (r: String)
        ensures
            r@ == shown(self@),
    {
        if self.focused {
            self.raw.clone()
        } else {
            self.canonical.clone()
        }
    }

    pub fn focus(&mut self)
        ensures
            final(self)@ == focused(old(self)@),
    {
        if !self.focused {
            self.raw = self.canonical.clone();
            self.focused = true;
        }
    }

    pub fn blur(&mut self)
        ensures
            final(self)@ == blurred(old(self)@),
    {
        self.focused = false;
        self.error = false;
    }

    /// Takes a keystroke's text: it is kept as typed, its currency codes are
    /// replaced by their rates from `rates`, and the result is evaluated. The value
    /// is handed back for the graph; the canonical value stays until the graph has
    /// recomputed it.
    pub fn input(&mut self, text: String, rates: &Rates) -> (r: Result<Number, EvalError>)
        ensures
            r is Ok <==> accepted(substituted(rates.table(), text@)),
            blank(substituted(rates.table(), text@)) ==> r matches Ok(Number::Zero),
            final(self)@ == typed(old(self)@, text@, r is Ok),
    {
        let r = evaluate_with_rates(text.as_str(), rates);
        self.error = r.is_err();
        self.raw = text;
        r
    }

    /// Sets the canonical value to the formatted value that the graph computed.
    pub fn set_canonical(&mut self, canonical: String)
        ensures
            final(self)@ == recomputed(old(self)@, canonical@),
    {
        self.canonical = canonical;
    }
}

/// The editable fields of the calculator, one for each `FieldId`, at its slot.
pub struct Form {
    fields: Vec<Field>,
}

impl View for Form {
    type V = Seq<FieldState>;

    closed spec fn view(&self) -> Seq<FieldState> {
        self.fields@.map_values(|f: Field| f@)
    }
}

impl Form {
    /// One field for each `FieldId`.
    pub open spec fn wf(&self) -> bool {
        self@.len() == fields().len()
    }

    /// A form whose fields, in the order of `FieldId::all()`, show `canonical`.
    pub fn new(canonical: Vec<String>) -> (r: Form)
        requires
            canonical@.len() == fields().len(),
        ensures
            r.wf(),
            r@.len() == fields().len(),
            forall|i: int|
                0 <= i < fields().len() ==> #[trigger] r@[i] == (FieldState {
                    focused: false,
                    raw: Seq::empty(),
                    canonical: canonical@[i]@,
                    error: false,
                }),
    {
        let mut canonical = canonical;
        let mut out: Vec<Field> = Vec::new();
        let n: usize = canonical.len();
        let ghost texts = canonical@;
        let mut i: usize = 0;
        while i < n
            invariant
                n == texts.len(),
                i <= n,
                canonical@ == texts.skip(i as int),
                out@.len() == i,
                forall|k: int|
                    0 <= k < i ==> #[trigger] out@[k]@ == (FieldState {
                        focused: false,
                        raw: Seq::empty(),
                        canonical: texts[k]@,
                        error: false,
                    }),
            decreases n - i,
        {
            let c = canonical.remove(0);
            assert(c == texts[i as int]);
            out.push(Field::new(c));
            assert(canonical@ =~= texts.skip(i as int + 1));
            i += 1;
        }
        Form { fields: out }
    }

    /// The field `id`.
    pub fn field(&self, id: FieldId) -> (r: &Field)
        requires
            self.wf(),
        ensures
            r@ == self@[slot(id)],
    {
        &self.fields[id.slot()]
    }

    /// The text that field `id` shows.
    pub fn display(&self, id: FieldId) -> (r: String)
        requires
            self.wf(),
        ensures
            r@ == shown(self@[slot(id)]),
    {
        self.field(id).display()
    }

    /// Whether the text typed into field `id` fails to evaluate.
    pub fn is_error(&self, id: FieldId) -> (r: bool)
        requires
            self.wf(),
        ensures
            r == self@[slot(id)].error,
    {
        self.field(id).is_error()
    }

    pub fn focus(&mut self, id: FieldId)
        requires
            old(self).wf(),
        ensures
            final(self).wf(),
            final(self)@ == old(self)@.update(slot(id), focused(old(self)@[slot(id)])),
    {
        let i = id.slot();
        let mut f = self.fields.remove(i);
        f.focus();
        self.fields.insert(i, f);
        assert(self@ =~= old(self)@.update(slot(id), focused(old(self)@[slot(id)])));
    }

    pub fn blur(&mut self, id: FieldId)
        requires
            old(self).wf(),
        ensures
            final(self).wf(),
            final(self)@ == old(self)@.update(slot(id), blurred(old(self)@[slot(id)])),
    {
        let i = id.slot();
        let mut f = self.fields.remove(i);
        f.blur();
        self.fields.insert(i, f);
        assert(self@ =~= old(self)@.update(slot(id), blurred(old(self)@[slot(id)])));
    }

    /// A keystroke into field `id`; the other fields are not touched.
    pub fn input(&mut self, id: FieldId, text: String, rates: &Rates) -> (r: Result<
        Number,
        EvalError,
    >)
        requires
            old(self).wf(),
        ensures
            final(self).wf(),
            r is Ok <==> accepted(substituted(rates.table(), text@)),
            blank(substituted(rates.table(), text@)) ==> r matches Ok(Number::Zero),
            final(self)@ == old(self)@.update(slot(id), typed(old(self)@[slot(id)], text@, r is Ok)),
    {
        let i = id.slot();
        let mut f = self.fields.remove(i);
        let r = f.input(text, rates);
        self.fields.insert(i, f);
        assert(self@ =~= old(self)@.update(slot(id), typed(old(self)@[slot(id)], text@, r is Ok)));
        r
    }

    /// Sets the canonical value of field `id` to what the graph computed.
    pub fn set_canonical(&mut self, id: FieldId, canonical: String)
        requires
            old(self).wf(),
        ensures
            final(self).wf(),
            final(self)@ == old(self)@.update(slot(id), recomputed(old(self)@[slot(id)], canonical@)),
    {
        let i = id.slot();
        let ghost c = canonical@;
        let mut f = self.fields.remove(i);
        f.set_canonical(canonical);
        self.fields.insert(i, f);
        assert(self@ =~= old(self)@.update(slot(id), recomputed(old(self)@[slot(id)], c)));
    }
}

/// A keystroke into one field, accepted or not, leaves every other field as it
/// was: one field's input never reaches another field's value.
pub proof fn lemma_input_stays_in_field(
    form: Seq<FieldState>,
    id: FieldId,
    text: Seq<char>,
    ok: bool,
    other: FieldId,
)
    requires
        form.len() == fields().len(),
        other != id,
    ensures
        form.update(slot(id), typed(form[slot(id)], text, ok))[slot(other)] == form[slot(other)],
{
    lemma_slots(id, other);
    lemma_slots(other, id);
}

/// Losing the focus after text that does not evaluate shows the last valid
/// canonical value again, not the text typed: a rejected keystroke leaves the
/// canonical value as it was.
pub proof fn lemma_blur_reverts_rejected_edit(s: FieldState, text: Seq<char>, table: Seq<RateSpec>)
    requires
        !accepted(substituted(table, text)),
    ensures
        typed(s, text, accepted(substituted(table, text))).error,
        shown(blurred(typed(s, text, accepted(substituted(table, text))))) == s.canonical,
{
}

} // verus!
