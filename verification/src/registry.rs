//! The flag registry: the current value of every flag of a catalog, the
//! loader that derives those values from raw tokens, the testing override,
//! lookups and the diagnostic dump.

use vstd::prelude::*;
use crate::catalog::{
    admissible_at,
    catalog_wf,
    default_values,
    flag_index,
    lemma_flag_index_in_range,
    Catalog,
    EntryView,
};
use crate::token::{assignment_of, lemma_assignment_fits, resolve};
use crate::value::{render_spec, value_views, FlagValue, Value};

verus! {

/// The values after one token: the token's assignment carried out, or the
/// values unchanged if the token is skipped.
pub open spec fn apply_token(catalog: Seq<EntryView>, values: Seq<Value>, token: Seq<char>) -> Seq<
    Value,
> {
    match assignment_of(catalog, token) {
        Some(a) => values.update(a.index, a.value),
        None => values,
    }
}

/// The values after a sequence of tokens, applied in order.
pub open spec fn apply_tokens(
    catalog: Seq<EntryView>,
    values: Seq<Value>,
    tokens: Seq<Seq<char>>,
) -> Seq<Value>
    decreases tokens.len(),
{
    if tokens.len() == 0 {
        values
    } else {
        apply_token(catalog, apply_tokens(catalog, values, tokens.drop_last()), tokens.last())
    }
}

/// The values that a load of `tokens` leaves: the catalog's defaults with
/// the tokens applied in order.
pub open spec fn loaded_values(catalog: Seq<EntryView>, tokens: Seq<Seq<char>>) -> Seq<Value> {
    apply_tokens(catalog, default_values(catalog), tokens)
}

/// There is one value for each flag, and each is of its flag's kind.
pub open spec fn kinds_match(catalog: Seq<EntryView>, values: Seq<Value>) -> bool {
    &&& values.len() == catalog.len()
    &&& forall|i: int| 0 <= i < values.len() ==> (#[trigger] values[i]).kind() == catalog[i].kind
}

/// One line of a dump, as texts.
pub struct DumpLine {
    pub flag: Seq<char>,
    pub value: Seq<char>,
}

/// The mathematical state of a registry.
pub struct RegistryView {
    /// The flags that the registry knows.
    pub catalog: Seq<EntryView>,
    /// The value stored for each flag, in catalog order.
    pub stored: Seq<Value>,
    /// Whether the testing override is on.
    pub testing_override: bool,
}

impl RegistryView {
    /// The catalog is well formed and holds one stored value of the right
    /// kind for each of its flags.
    pub open spec fn wf(self) -> bool {
        &&& catalog_wf(self.catalog)
        &&& kinds_match(self.catalog, self.stored)
    }

    /// The state before any load: every flag at its default, no override.
    pub open spec fn initial(catalog: Seq<EntryView>) -> RegistryView {
        RegistryView { catalog, stored: default_values(catalog), testing_override: false }
    }

    /// The state after a load of `tokens`. The stored values are derived
    /// from the catalog and the tokens alone.
    pub open spec fn loaded(self, tokens: Seq<Seq<char>>) -> RegistryView {
        RegistryView { stored: loaded_values(self.catalog, tokens), ..self }
    }

    /// The state after the testing override is switched on.
    pub open spec fn overridden(self) -> RegistryView {
        RegistryView { testing_override: true, ..self }
    }

    /// The value that a lookup of flag `i` reports: the flag's enabled value
    /// under the testing override, else its stored value.
    pub open spec fn effective_value(self, i: int) -> Value {
        if self.testing_override {
            self.catalog[i].enabled_value
        } else {
            self.stored[i]
        }
    }

    /// The dump: for each flag, in catalog order, its name and the canonical
    /// text of its effective value.
    pub open spec fn dump_lines(self) -> Seq<DumpLine> {
        Seq::new(
            self.catalog.len(),
            |i: int|
                DumpLine {
                    flag: self.catalog[i].name,
                    value: render_spec(self.effective_value(i)),
                },
        )
    }
}

/// The defaults of a well-formed catalog are of their flags' kinds.
pub proof fn lemma_defaults_match_kinds(catalog: Seq<EntryView>)
    requires
        catalog_wf(catalog),
    ensures
        kinds_match(catalog, default_values(catalog)),
{
    assert forall|i: int| 0 <= i < catalog.len() implies (#[trigger] default_values(
        catalog,
    )[i]).kind() == catalog[i].kind by {
        assert(admissible_at(catalog, i));
    }
}

/// Applying a token keeps one value of the right kind for each flag.
pub proof fn lemma_apply_token_keeps_kinds(
    catalog: Seq<EntryView>,
    values: Seq<Value>,
    token: Seq<char>,
)
    requires
        kinds_match(catalog, values),
    ensures
        kinds_match(catalog, apply_token(catalog, values, token)),
{
    lemma_assignment_fits(catalog, token);
}

/// Applying tokens keeps one value of the right kind for each flag.
pub proof fn lemma_apply_tokens_keeps_kinds(
    catalog: Seq<EntryView>,
    values: Seq<Value>,
    tokens: Seq<Seq<char>>,
)
    requires
        kinds_match(catalog, values),
    ensures
        kinds_match(catalog, apply_tokens(catalog, values, tokens)),
    decreases tokens.len(),
{
    if tokens.len() > 0 {
        lemma_apply_tokens_keeps_kinds(catalog, values, tokens.drop_last());
        lemma_apply_token_keeps_kinds(
            catalog,
            apply_tokens(catalog, values, tokens.drop_last()),
            tokens.last(),
        );
    }
}

/// One entry of a dump: a flag's name and the text of its effective value.
#[derive(Debug, PartialEq, Eq)]
pub struct InitFlagWithValue {
    pub flag: &'static str,
    pub value: String,
}

impl View for InitFlagWithValue {
    type V = DumpLine;

    open spec fn view(&self) -> DumpLine {
        DumpLine { flag: self.flag@, value: self.value@ }
    }
}

/// The lines that a sequence of dump entries stands for.
pub open spec fn dump_views(entries: Seq<InitFlagWithValue>) -> Seq<DumpLine> {
    Seq::new(entries.len(), |i: int| entries[i]@)
}

/// The current value of every flag of a catalog.
#[derive(Debug)]
pub struct Registry {
    catalog: Catalog,
    values: Vec<FlagValue>,
    testing_override: bool,
}

impl View for Registry {
    type V = RegistryView;

    closed spec fn view(&self) -> RegistryView {
        RegistryView {
            catalog: self.catalog@,
            stored: value_views(self.values@),
            testing_override: self.testing_override,
        }
    }
}

impl Registry {
    /// The invariant of a registry: see `RegistryView::wf`.
    pub open spec fn wf(&self) -> bool {
        self@.wf()
    }

    /// A registry over `catalog` with every flag at its default and the
    /// testing override off.
    pub fn new(catalog: Catalog) -> (r: Registry)
        requires
            catalog.wf(),
        ensures
            r@ == RegistryView::initial(catalog@),
            r.wf(),
    {
        let values = catalog.defaults();
        proof {
            lemma_defaults_match_kinds(catalog@);
        }
        Registry { catalog, values, testing_override: false }
    }

    /// The catalog that the registry was made over.
    pub fn catalog(&self) -> (r: &Catalog)
        ensures
            r@ == self@.catalog,
    {
        &self.catalog
    }

    /// Whether the testing override is on.
    pub fn testing_override(&self) -> (r: bool)
        ensures
            r == self@.testing_override,
    {
        self.testing_override
    }

    /// Derives the value of every flag anew: starts from the catalog's
    /// defaults and applies `tokens` in order. Tokens that name no flag or
    /// carry a value that does not fit are skipped. What an earlier load
    /// stored is forgotten; the testing override stays as it is.
    pub fn load(&mut self, tokens: Vec<String>)
        requires
            old(self).wf(),
        ensures
            final(self)@ == old(self)@.loaded(tokens.deep_view()),
            final(self).wf(),
    {
        let ghost catalog = self.catalog@;
        let ghost texts = tokens.deep_view();
        let mut values = self.catalog.defaults();
        proof {
            lemma_defaults_match_kinds(catalog);
        }
        let mut k: usize = 0;
        while k < tokens.len()
            invariant
                k <= tokens.len(),
                catalog == self.catalog@,
                texts == tokens.deep_view(),
                value_views(values@) == apply_tokens(
                    catalog,
                    default_values(catalog),
                    texts.take(k as int),
                ),
                kinds_match(catalog, value_views(values@)),
            decreases tokens.len() - k,
        {
            let ghost before = value_views(values@);
            proof {
                assert(texts.take(k + 1).drop_last() =~= texts.take(k as int));
                lemma_apply_token_keeps_kinds(catalog, before, tokens[k as int]@);
            }
            match resolve(&self.catalog, tokens[k].as_str()) {
                Some((index, value)) => {
                    values.set(index, value);
                    assert(value_views(values@) =~= before.update(index as int, value@));
                },
                None => {},
            }
            k = k + 1;
        }
        assert(texts.take(tokens.len() as int) =~= texts);
        self.values = values;
    }

    /// Switches the testing override on. From then on every lookup reports
    /// the flag's enabled value, whatever is or will be stored.
    pub fn set_all_for_testing(&mut self)
        ensures
            final(self)@ == old(self)@.overridden(),
            old(self).wf() ==> final(self).wf(),
    {
        self.testing_override = true;
    }

    /// The effective value of the flag at `index`, if the catalog has that
    /// many flags.
    pub fn get(&self, index: usize) -> (r: Option<&FlagValue>)
        requires
            self.wf(),
        ensures
            r is Some <==> index < self@.catalog.len(),
            r matches Some(v) ==> v@ == self@.effective_value(index as int),
    {
        if index >= self.values.len() {
            None
        } else if self.testing_override {
            Some(&self.catalog.entry(index).unwrap().enabled_value)
        } else {
            Some(&self.values[index])
        }
    }

    /// The effective value of the flag called `name`, if the catalog has
    /// such a flag.
    pub fn lookup(&self, name: &str) -> (r: Option<&FlagValue>)
        requires
            self.wf(),
        ensures
            r is Some <==> flag_index(self@.catalog, name@) is Some,
            r matches Some(v) ==> v@ == self@.effective_value(
                flag_index(self@.catalog, name@)->0,
            ),
    {
        match self.catalog.find(name) {
            Some(index) => {
                proof {
                    lemma_flag_index_in_range(self@.catalog, name@);
                }
                self.get(index)
            },
            None => None,
        }
    }

    /// The effective value of the boolean flag at `index`; `None` if there
    /// is no such flag or it is not boolean.
    pub fn is_enabled(&self, index: usize) -> (r: Option<bool>)
        requires
            self.wf(),
        ensures
            r == (if index < self@.catalog.len() {
                match self@.effective_value(index as int) {
                    Value::Bool(b) => Some(b),
                    _ => None,
                }
            } else {
                None
            }),
    {
        match self.get(index) {
            Some(FlagValue::Bool(b)) => Some(*b),
            _ => None,
        }
    }

    /// The effective value of the integer flag at `index`; `None` if there
    /// is no such flag or it is not an integer flag.
    pub fn int_value(&self, index: usize) -> (r: Option<i32>)
        requires
            self.wf(),
        ensures
            r == (if index < self@.catalog.len() {
                match self@.effective_value(index as int) {
                    Value::Int(n) => Some(n),
                    _ => None,
                }
            } else {
                None
            }),
    {
        match self.get(index) {
            Some(FlagValue::Int(n)) => Some(*n),
            _ => None,
        }
    }

    /// One entry for each flag, in catalog order: the flag's name and the
    /// canonical text of its effective value.
    pub fn dump(&self) -> (r: Vec<InitFlagWithValue>)
        requires
            self.wf(),
        ensures
            dump_views(r@) == self@.dump_lines(),
    {
        let mut lines: Vec<InitFlagWithValue> = Vec::new();
        let mut i: usize = 0;
        while i < self.catalog.len()
            invariant
                self.wf(),
                i <= self@.catalog.len(),
                lines@.len() == i,
                forall|k: int| 0 <= k < i ==> (#[trigger] lines@[k])@ == self@.dump_lines()[k],
            decreases self@.catalog.len() - i,
        {
            let flag: &'static str = self.catalog.entry(i).unwrap().name;
            let value: String = self.get(i).unwrap().render();
            lines.push(InitFlagWithValue { flag, value });
            i = i + 1;
        }
        lines
    }
}

} // verus!
