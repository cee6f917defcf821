//! The catalog: the closed list of flags that a registry knows, each with a
//! name, a kind, a default and the value it takes under the testing
//! override.

use vstd::prelude::*;
use crate::occurrence::{
    first_occurrence,
    lemma_first_occurrence_absent,
    lemma_first_occurrence_cases,
    lemma_first_occurrence_is,
};
use crate::text::{find_char, str_eq};
use crate::value::{value_views, FlagKind, FlagValue, Value};

verus! {

/// One flag of the catalog.
#[derive(Debug)]
pub struct CatalogEntry {
    /// The name by which tokens address the flag.
    pub name: &'static str,
    /// The kind of value the flag holds.
    pub kind: FlagKind,
    /// The value of the flag until a token sets it.
    pub default_value: FlagValue,
    /// The value that lookups report under the testing override.
    pub enabled_value: FlagValue,
}

/// The mathematical content of a catalog entry.
pub struct EntryView {
    pub name: Seq<char>,
    pub kind: FlagKind,
    pub default_value: Value,
    pub enabled_value: Value,
}

/// Whether a token can address a flag called `name`: a token is split at
/// its first `=`, so a name must hold none.
pub open spec fn is_flag_name(name: Seq<char>) -> bool {
    forall|j: int| 0 <= j < name.len() ==> name[j] != '='
}

impl EntryView {
    /// Both values are of the entry's kind, and a boolean flag is `true`
    /// when enabled.
    pub open spec fn well_typed(self) -> bool {
        &&& self.default_value.kind() == self.kind
        &&& self.enabled_value.kind() == self.kind
        &&& self.kind == FlagKind::Boolean ==> self.enabled_value == Value::Bool(true)
    }

    /// The name can be addressed and the values fit the kind.
    pub open spec fn wf(self) -> bool {
        &&& is_flag_name(self.name)
        &&& self.well_typed()
    }
}

impl View for CatalogEntry {
    type V = EntryView;

    open spec fn view(&self) -> EntryView {
        EntryView {
            name: self.name@,
            kind: self.kind,
            default_value: self.default_value@,
            enabled_value: self.enabled_value@,
        }
    }
}

/// The views of a sequence of entries.
pub open spec fn entry_views(entries: Seq<CatalogEntry>) -> Seq<EntryView> {
    Seq::new(entries.len(), |i: int| entries[i]@)
}

/// The names of the entries, in catalog order.
pub open spec fn names(entries: Seq<EntryView>) -> Seq<Seq<char>> {
    Seq::new(entries.len(), |i: int| entries[i].name)
}

/// The defaults of the entries, in catalog order.
pub open spec fn default_values(entries: Seq<EntryView>) -> Seq<Value> {
    Seq::new(entries.len(), |i: int| entries[i].default_value)
}

/// The position of the flag called `name`, if the catalog has one.
pub open spec fn flag_index(entries: Seq<EntryView>, name: Seq<char>) -> Option<int> {
    first_occurrence(names(entries), name)
}

/// Entry `i` is well formed and its name is not that of an earlier entry.
pub open spec fn admissible_at(entries: Seq<EntryView>, i: int) -> bool {
    &&& entries[i].wf()
    &&& forall|j: int| 0 <= j < i ==> entries[j].name != entries[i].name
}

/// Every entry is well formed and no two entries share a name.
pub open spec fn catalog_wf(entries: Seq<EntryView>) -> bool {
    forall|i: int| 0 <= i < entries.len() ==> admissible_at(entries, i)
}

/// In a well-formed catalog a flag's own name leads back to the flag.
pub proof fn lemma_flag_index_of_own_name(entries: Seq<EntryView>, i: int)
    requires
        catalog_wf(entries),
        0 <= i < entries.len(),
    ensures
        flag_index(entries, entries[i].name) == Some(i),
{
    assert(admissible_at(entries, i));
    lemma_first_occurrence_is(names(entries), entries[i].name, i);
}

/// A position that `flag_index` reports lies in the catalog and holds the
/// name that was asked for.
pub proof fn lemma_flag_index_in_range(entries: Seq<EntryView>, name: Seq<char>)
    ensures
        flag_index(entries, name) matches Some(i) ==> 0 <= i < entries.len() && entries[i].name
            == name,
{
    lemma_first_occurrence_cases(names(entries), name);
}

/// Why a list of entries is not a catalog.
#[derive(Clone, Copy, Debug, PartialEq, Eq)]
pub enum CatalogError {
    /// The name of the entry at `index` holds a `=`.
    InvalidName { index: usize },
    /// The entry at `index` has a default or an enabled value that is not of
    /// its kind, or is a boolean flag whose enabled value is not `true`.
    IllTyped { index: usize },
    /// The entry at `index` has the name of an earlier entry.
    DuplicateName { index: usize },
}

impl CatalogError {
    /// The position of the entry that the error is about.
    pub open spec fn index(self) -> usize {
        match self {
            CatalogError::InvalidName { index } => index,
            CatalogError::IllTyped { index } => index,
            CatalogError::DuplicateName { index } => index,
        }
    }

    /// Whether this is the error that `entries` call for: it is about the
    /// first entry that is not admissible, and it names the first of the
    /// three faults that the entry has.
    pub open spec fn describes(self, entries: Seq<EntryView>) -> bool {
        let i = self.index() as int;
        &&& 0 <= i < entries.len()
        &&& forall|k: int| 0 <= k < i ==> admissible_at(entries, k)
        &&& match self {
            CatalogError::InvalidName { .. } => !is_flag_name(entries[i].name),
            CatalogError::IllTyped { .. } => is_flag_name(entries[i].name)
                && !entries[i].well_typed(),
            CatalogError::DuplicateName { .. } => entries[i].wf() && exists|j: int|
                0 <= j < i && entries[j].name == entries[i].name,
        }
    }
}

impl CatalogEntry {
    /// A boolean flag. Under the testing override it is `true`.
    pub fn boolean(name: &'static str, default_value: bool) -> (r: CatalogEntry)
        ensures
            r@ == (EntryView {
                name: name@,
                kind: FlagKind::Boolean,
                default_value: Value::Bool(default_value),
                enabled_value: Value::Bool(true),
            }),
            r@.well_typed(),
    {
        CatalogEntry {
            name,
            kind: FlagKind::Boolean,
            default_value: FlagValue::Bool(default_value),
            enabled_value: FlagValue::Bool(true),
        }
    }

    /// An integer flag with its default and the value it takes under the
    /// testing override.
    pub fn integer(name: &'static str, default_value: i32, enabled_value: i32) -> (r: CatalogEntry)
        ensures
            r@ == (EntryView {
                name: name@,
                kind: FlagKind::Integer,
                default_value: Value::Int(default_value),
                enabled_value: Value::Int(enabled_value),
            }),
            r@.well_typed(),
    {
        CatalogEntry {
            name,
            kind: FlagKind::Integer,
            default_value: FlagValue::Int(default_value),
            enabled_value: FlagValue::Int(enabled_value),
        }
    }

    /// A text flag with its default and the value it takes under the testing
    /// override.
    pub fn text(name: &'static str, default_value: String, enabled_value: String) -> (r:
        CatalogEntry)
        ensures
            r@ == (EntryView {
                name: name@,
                kind: FlagKind::Text,
                default_value: Value::Text(default_value@),
                enabled_value: Value::Text(enabled_value@),
            }),
            r@.well_typed(),
    {
        CatalogEntry {
            name,
            kind: FlagKind::Text,
            default_value: FlagValue::Text(default_value),
            enabled_value: FlagValue::Text(enabled_value),
        }
    }

    /// Whether a token can address the entry: its name holds no `=`.
    pub fn has_valid_name(&self) -> (r: bool)
        ensures
            r == is_flag_name(self@.name),
    {
        proof {
            lemma_first_occurrence_cases(self.name@, '=');
        }
        find_char(self.name, '=').is_none()
    }

    /// Whether the entry's values fit its kind.
    pub fn is_well_typed(&self) -> (r: bool)
        ensures
            r == self@.well_typed(),
    {
        let enabled_fits: bool = match self.kind {
            FlagKind::Boolean => match &self.enabled_value {
                FlagValue::Bool(b) => *b,
                _ => false,
            },
            _ => self.enabled_value.kind() == self.kind,
        };
        enabled_fits && self.default_value.kind() == self.kind
    }
}

/// A closed list of flags with distinct names.
#[derive(Debug)]
pub struct Catalog {
    entries: Vec<CatalogEntry>,
}

impl View for Catalog {
    type V = Seq<EntryView>;

    closed spec fn view(&self) -> Seq<EntryView> {
        entry_views(self.entries@)
    }
}

impl Catalog {
    /// The invariant of a catalog: see `catalog_wf`.
    pub open spec fn wf(&self) -> bool {
        catalog_wf(self@)
    }

    /// Makes a catalog of `entries`, in their order.
    ///
    /// Fails on the first entry whose name holds a `=`, whose values do not
    /// fit its kind, or whose name is that of an earlier entry, and says
    /// which it is; of an entry with several of these faults the first in
    /// this order is reported.
    pub fn new(entries: Vec<CatalogEntry>) -> (r: Result<Catalog, CatalogError>)
        ensures
            r is Ok <==> catalog_wf(entry_views(entries@)),
            match r {
                Ok(catalog) => catalog@ == entry_views(entries@) && catalog.wf(),
                Err(e) => e.describes(entry_views(entries@)),
            },
    {
        let ghost views = entry_views(entries@);
        let mut i: usize = 0;
        while i < entries.len()
            invariant
                i <= entries.len(),
                views == entry_views(entries@),
                forall|k: int| 0 <= k < i ==> admissible_at(views, k),
            decreases entries.len() - i,
        {
            if !entries[i].has_valid_name() {
                assert(!admissible_at(views, i as int));
                return Err(CatalogError::InvalidName { index: i });
            }
            if !entries[i].is_well_typed() {
                assert(!admissible_at(views, i as int));
                return Err(CatalogError::IllTyped { index: i });
            }
            let mut j: usize = 0;
            while j < i
                invariant
                    j <= i < entries.len(),
                    views == entry_views(entries@),
                    views[i as int].wf(),
                    forall|k: int| 0 <= k < i ==> admissible_at(views, k),
                    forall|k: int| 0 <= k < j ==> views[k].name != views[i as int].name,
                decreases i - j,
            {
                if str_eq(entries[j].name, entries[i].name) {
                    assert(views[j as int].name == views[i as int].name);
                    assert(!admissible_at(views, i as int));
                    return Err(CatalogError::DuplicateName { index: i });
                }
                j = j + 1;
            }
            i = i + 1;
        }
        Ok(Catalog { entries })
    }

    /// The number of flags.
    pub fn len(&self) -> (r: usize)
        ensures
            r == self@.len(),
    {
        self.entries.len()
    }

    /// The flag at `index`, if the catalog has that many.
    pub fn entry(&self, index: usize) -> (r: Option<&CatalogEntry>)
        ensures
            r is Some <==> index < self@.len(),
            r matches Some(e) ==> e@ == self@[index as int],
    {
        if index < self.entries.len() {
            Some(&self.entries[index])
        } else {
            None
        }
    }

    /// The position of the flag called `name`, if the catalog has one.
    pub fn find(&self, name: &str) -> (r: Option<usize>)
        ensures
            r is Some <==> flag_index(self@, name@) is Some,
            r matches Some(i) ==> flag_index(self@, name@) == Some(i as int),
    {
        let mut i: usize = 0;
        while i < self.entries.len()
            invariant
                i <= self.entries.len(),
                forall|k: int| 0 <= k < i ==> names(self@)[k] != name@,
            decreases self.entries.len() - i,
        {
            if str_eq(self.entries[i].name, name) {
                proof {
                    lemma_first_occurrence_is(names(self@), name@, i as int);
                }
                return Some(i);
            }
            i = i + 1;
        }
        proof {
            lemma_first_occurrence_absent(names(self@), name@);
        }
        None
    }

    /// A copy of every flag's default, in catalog order.
    pub fn defaults(&self) -> (r: Vec<FlagValue>)
        ensures
            value_views(r@) == default_values(self@),
    {
        let mut values: Vec<FlagValue> = Vec::new();
        let mut i: usize = 0;
        while i < self.entries.len()
            invariant
                i <= self.entries.len(),
                values@.len() == i,
                forall|k: int| 0 <= k < i ==> values@[k]@ == self@[k].default_value,
            decreases self.entries.len() - i,
        {
            values.push(self.entries[i].default_value.clone());
            i = i + 1;
        }
        values
    }
}

} // verus!
