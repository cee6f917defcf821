//! The standard catalog and a registry bound to it, with one lookup for
//! each of its flags.

use vstd::prelude::*;
use crate::catalog::{
    catalog_wf,
    entry_views,
    is_flag_name,
    Catalog,
    CatalogEntry,
    EntryView,
};
use crate::registry::{dump_views, InitFlagWithValue, Registry, RegistryView};
use crate::value::{FlagKind, Value};

verus! {

/// Position of the flag `classic_discovery_only`.
pub const CLASSIC_DISCOVERY_ONLY: usize = 0;

/// Position of the flag `dynamic_avrcp_version_enhancement`.
pub const DYNAMIC_AVRCP_VERSION_ENHANCEMENT: usize = 1;

/// Position of the flag `hci_adapter`.
pub const HCI_ADAPTER: usize = 2;

/// Position of the flag `use_unified_connection_manager`.
pub const USE_UNIFIED_CONNECTION_MANAGER: usize = 3;

/// Position of the flag `att_mtu_default`.
pub const ATT_MTU_DEFAULT: usize = 4;

/// A boolean flag of the standard catalog.
pub open spec fn boolean_flag(name: Seq<char>, default_value: bool) -> EntryView {
    EntryView {
        name,
        kind: FlagKind::Boolean,
        default_value: Value::Bool(default_value),
        enabled_value: Value::Bool(true),
    }
}

/// An integer flag of the standard catalog. Under the testing override it
/// keeps its default.
pub open spec fn integer_flag(name: Seq<char>, default_value: i32) -> EntryView {
    EntryView {
        name,
        kind: FlagKind::Integer,
        default_value: Value::Int(default_value),
        enabled_value: Value::Int(default_value),
    }
}

/// The flags of the standard catalog, in declaration order.
pub open spec fn standard_entries() -> Seq<EntryView> {
    seq![
        boolean_flag("classic_discovery_only"@, false),
        boolean_flag("dynamic_avrcp_version_enhancement"@, true),
        integer_flag("hci_adapter"@, 0),
        boolean_flag("use_unified_connection_manager"@, false),
        integer_flag("att_mtu_default"@, 517),
    ]
}

/// The standard catalog is well formed: its five names differ and hold no
/// `=`.
pub proof fn lemma_standard_entries_wf()
    ensures
        catalog_wf(standard_entries()),
        standard_entries().len() == 5,
{
    reveal_strlit("classic_discovery_only");
    reveal_strlit("dynamic_avrcp_version_enhancement");
    reveal_strlit("hci_adapter");
    reveal_strlit("use_unified_connection_manager");
    reveal_strlit("att_mtu_default");
    let entries = standard_entries();
    assert(is_flag_name(entries[0].name));
    assert(is_flag_name(entries[1].name));
    assert(is_flag_name(entries[2].name));
    assert(is_flag_name(entries[3].name));
    assert(is_flag_name(entries[4].name));
}

/// Builds the standard catalog.
pub fn standard_catalog() -> (r: Catalog)
    ensures
        r@ == standard_entries(),
        r.wf(),
{
    let mut entries: Vec<CatalogEntry> = Vec::new();
    entries.push(CatalogEntry::boolean("classic_discovery_only", false));
    entries.push(CatalogEntry::boolean("dynamic_avrcp_version_enhancement", true));
    entries.push(CatalogEntry::integer("hci_adapter", 0, 0));
    entries.push(CatalogEntry::boolean("use_unified_connection_manager", false));
    entries.push(CatalogEntry::integer("att_mtu_default", 517, 517));
    proof {
        lemma_standard_entries_wf();
        assert(entry_views(entries@) =~= standard_entries());
    }
    Catalog::new(entries).unwrap()
}

/// The registry of the standard catalog.
#[derive(Debug)]
pub struct InitFlags {
    registry: Registry,
}

impl View for InitFlags {
    type V = RegistryView;

    closed spec fn view(&self) -> RegistryView {
        self.registry@
    }
}

impl InitFlags {
    /// The invariant: a well-formed registry over the standard catalog.
    pub open spec fn wf(&self) -> bool {
        &&& self@.wf()
        &&& self@.catalog == standard_entries()
    }

    /// Every flag at its default, the testing override off.
    pub fn new() -> (r: InitFlags)
        ensures
            r@ == RegistryView::initial(standard_entries()),
            r.wf(),
    {
        InitFlags { registry: Registry::new(standard_catalog()) }
    }

    /// Derives every flag anew from the defaults and `flags`, applied in
    /// order; see `Registry::load`.
    pub fn load(&mut self, flags: Vec<String>)
        requires
            old(self).wf(),
        ensures
            final(self)@ == old(self)@.loaded(flags.deep_view()),
            final(self).wf(),
    {
        self.registry.load(flags);
    }

    /// Switches the testing override on, for good.
    pub fn set_all_for_testing(&mut self)
        requires
            old(self).wf(),
        ensures
            final(self)@ == old(self)@.overridden(),
            final(self).wf(),
    {
        self.registry.set_all_for_testing();
    }

    /// One entry for each flag, in declaration order, with the text of its
    /// effective value.
    pub fn dump(&self) -> (r: Vec<InitFlagWithValue>)
        requires
            self.wf(),
        ensures
            dump_views(r@) == self@.dump_lines(),
    {
        self.registry.dump()
    }

    /// Whether discovery is limited to classic devices.
    pub fn classic_discovery_only_is_enabled(&self) -> (r: bool)
        requires
            self.wf(),
        ensures
            self@.effective_value(CLASSIC_DISCOVERY_ONLY as int) == Value::Bool(r),
    {
        proof {
            lemma_standard_entries_wf();
        }
        self.registry.is_enabled(CLASSIC_DISCOVERY_ONLY).unwrap()
    }

    /// Whether the AVRCP version is raised dynamically.
    pub fn dynamic_avrcp_version_enhancement_is_enabled(&self) -> (r: bool)
        requires
            self.wf(),
        ensures
            self@.effective_value(DYNAMIC_AVRCP_VERSION_ENHANCEMENT as int) == Value::Bool(r),
    {
        proof {
            lemma_standard_entries_wf();
        }
        self.registry.is_enabled(DYNAMIC_AVRCP_VERSION_ENHANCEMENT).unwrap()
    }

    /// The index of the HCI adapter to use.
    pub fn get_hci_adapter(&self) -> (r: i32)
        requires
            self.wf(),
        ensures
            self@.effective_value(HCI_ADAPTER as int) == Value::Int(r),
    {
        proof {
            lemma_standard_entries_wf();
        }
        self.registry.int_value(HCI_ADAPTER).unwrap()
    }

    /// Whether the unified connection manager is used.
    pub fn use_unified_connection_manager_is_enabled(&self) -> (r: bool)
        requires
            self.wf(),
        ensures
            self@.effective_value(USE_UNIFIED_CONNECTION_MANAGER as int) == Value::Bool(r),
    {
        proof {
            lemma_standard_entries_wf();
        }
        self.registry.is_enabled(USE_UNIFIED_CONNECTION_MANAGER).unwrap()
    }

    /// The default ATT MTU.
    pub fn get_att_mtu_default(&self) -> (r: i32)
        requires
            self.wf(),
        ensures
            self@.effective_value(ATT_MTU_DEFAULT as int) == Value::Int(r),
    {
        proof {
            lemma_standard_entries_wf();
        }
        self.registry.int_value(ATT_MTU_DEFAULT).unwrap()
    }
}

} // verus!
