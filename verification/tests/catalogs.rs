use init_flags::catalog::{Catalog, CatalogEntry, CatalogError};
use init_flags::value::{FlagKind, FlagValue};

fn sample_entries() -> Vec<CatalogEntry> {
    vec![
        CatalogEntry::boolean("alpha", false),
        CatalogEntry::integer("beta", 7, 99),
        CatalogEntry::text("gamma", String::from("dflt"), String::from("on")),
    ]
}

#[test]
fn entry_constructors_fill_every_field() {
    let b = CatalogEntry::boolean("alpha", false);
    assert_eq!(b.name, "alpha");
    assert_eq!(b.kind, FlagKind::Boolean);
    assert_eq!(b.default_value, FlagValue::Bool(false));
    assert_eq!(b.enabled_value, FlagValue::Bool(true));

    let i = CatalogEntry::integer("beta", 7, 99);
    assert_eq!(i.name, "beta");
    assert_eq!(i.kind, FlagKind::Integer);
    assert_eq!(i.default_value, FlagValue::Int(7));
    assert_eq!(i.enabled_value, FlagValue::Int(99));

    let t = CatalogEntry::text("gamma", String::from("dflt"), String::from("on"));
    assert_eq!(t.name, "gamma");
    assert_eq!(t.kind, FlagKind::Text);
    assert_eq!(t.default_value, FlagValue::Text(String::from("dflt")));
    assert_eq!(t.enabled_value, FlagValue::Text(String::from("on")));
}

#[test]
fn constructed_entries_are_well_typed() {
    for e in sample_entries() {
        assert!(e.is_well_typed());
    }
    assert!(CatalogEntry::boolean("x", true).is_well_typed());
}

#[test]
fn entry_with_default_of_another_kind_is_ill_typed() {
    let e = CatalogEntry {
        name: "x",
        kind: FlagKind::Integer,
        default_value: FlagValue::Bool(false),
        enabled_value: FlagValue::Int(1),
    };
    assert!(!e.is_well_typed());
}

#[test]
fn entry_with_enabled_value_of_another_kind_is_ill_typed() {
    let e = CatalogEntry {
        name: "x",
        kind: FlagKind::Text,
        default_value: FlagValue::Text(String::new()),
        enabled_value: FlagValue::Int(1),
    };
    assert!(!e.is_well_typed());
}

#[test]
fn boolean_entry_must_be_true_when_enabled() {
    let e = CatalogEntry {
        name: "x",
        kind: FlagKind::Boolean,
        default_value: FlagValue::Bool(true),
        enabled_value: FlagValue::Bool(false),
    };
    assert!(!e.is_well_typed());
}

#[test]
fn name_with_a_separator_is_not_a_flag_name() {
    assert!(CatalogEntry::boolean("alpha", false).has_valid_name());
    assert!(CatalogEntry::boolean("", false).has_valid_name());
    assert!(CatalogEntry::boolean("a b", false).has_valid_name());
    assert!(!CatalogEntry::boolean("a=b", false).has_valid_name());
    assert!(!CatalogEntry::boolean("=", false).has_valid_name());
    assert!(!CatalogEntry::integer("alpha=", 0, 0).has_valid_name());
}

#[test]
fn catalog_rejects_a_name_with_a_separator() {
    let mut entries = sample_entries();
    entries.push(CatalogEntry::boolean("de=lta", false));
    assert_eq!(Catalog::new(entries).err(), Some(CatalogError::InvalidName { index: 3 }));
}

#[test]
fn invalid_name_takes_precedence_over_the_other_faults() {
    let entries = vec![
        CatalogEntry::boolean("a=", false),
        CatalogEntry {
            name: "a=",
            kind: FlagKind::Integer,
            default_value: FlagValue::Bool(false),
            enabled_value: FlagValue::Int(0),
        },
    ];
    assert_eq!(Catalog::new(entries).err(), Some(CatalogError::InvalidName { index: 0 }));
    let entries = vec![
        CatalogEntry::boolean("a", false),
        CatalogEntry {
            name: "a=",
            kind: FlagKind::Integer,
            default_value: FlagValue::Bool(false),
            enabled_value: FlagValue::Int(0),
        },
    ];
    assert_eq!(Catalog::new(entries).err(), Some(CatalogError::InvalidName { index: 1 }));
}

#[test]
fn catalog_keeps_entries_in_order() {
    let catalog = Catalog::new(sample_entries()).unwrap();
    assert_eq!(catalog.len(), 3);
    assert_eq!(catalog.entry(0).unwrap().name, "alpha");
    assert_eq!(catalog.entry(1).unwrap().name, "beta");
    assert_eq!(catalog.entry(2).unwrap().name, "gamma");
    assert!(catalog.entry(3).is_none());
    assert!(catalog.entry(usize::MAX).is_none());
}

#[test]
fn empty_catalog_is_a_catalog() {
    let catalog = Catalog::new(Vec::new()).unwrap();
    assert_eq!(catalog.len(), 0);
    assert!(catalog.entry(0).is_none());
    assert_eq!(catalog.find("anything"), None);
    assert_eq!(catalog.defaults(), Vec::<FlagValue>::new());
}

#[test]
fn catalog_finds_flags_by_exact_name() {
    let catalog = Catalog::new(sample_entries()).unwrap();
    assert_eq!(catalog.find("alpha"), Some(0));
    assert_eq!(catalog.find("beta"), Some(1));
    assert_eq!(catalog.find("gamma"), Some(2));
    assert_eq!(catalog.find("delta"), None);
    assert_eq!(catalog.find("Alpha"), None);
    assert_eq!(catalog.find("alph"), None);
    assert_eq!(catalog.find("alphaa"), None);
    assert_eq!(catalog.find(""), None);
}

#[test]
fn catalog_defaults_are_in_order() {
    let catalog = Catalog::new(sample_entries()).unwrap();
    assert_eq!(
        catalog.defaults(),
        vec![FlagValue::Bool(false), FlagValue::Int(7), FlagValue::Text(String::from("dflt"))]
    );
}

#[test]
fn catalog_rejects_a_duplicate_name() {
    let mut entries = sample_entries();
    entries.push(CatalogEntry::integer("alpha", 1, 2));
    let r = Catalog::new(entries);
    assert_eq!(r.err(), Some(CatalogError::DuplicateName { index: 3 }));
}

#[test]
fn catalog_reports_the_first_duplicate() {
    let entries = vec![
        CatalogEntry::boolean("a", false),
        CatalogEntry::boolean("b", false),
        CatalogEntry::boolean("b", true),
        CatalogEntry::boolean("a", true),
    ];
    assert_eq!(Catalog::new(entries).err(), Some(CatalogError::DuplicateName { index: 2 }));
}

#[test]
fn catalog_rejects_an_ill_typed_entry() {
    let mut entries = sample_entries();
    entries.insert(
        1,
        CatalogEntry {
            name: "odd",
            kind: FlagKind::Boolean,
            default_value: FlagValue::Int(0),
            enabled_value: FlagValue::Bool(true),
        },
    );
    assert_eq!(Catalog::new(entries).err(), Some(CatalogError::IllTyped { index: 1 }));
}

#[test]
fn ill_typed_takes_precedence_over_duplicate_at_one_entry() {
    let entries = vec![
        CatalogEntry::boolean("a", false),
        CatalogEntry {
            name: "a",
            kind: FlagKind::Integer,
            default_value: FlagValue::Int(0),
            enabled_value: FlagValue::Bool(true),
        },
    ];
    assert_eq!(Catalog::new(entries).err(), Some(CatalogError::IllTyped { index: 1 }));
}

#[test]
fn earlier_fault_is_reported_before_a_later_one() {
    let entries = vec![
        CatalogEntry::boolean("a", false),
        CatalogEntry::boolean("a", false),
        CatalogEntry {
            name: "c",
            kind: FlagKind::Integer,
            default_value: FlagValue::Bool(false),
            enabled_value: FlagValue::Int(0),
        },
    ];
    assert_eq!(Catalog::new(entries).err(), Some(CatalogError::DuplicateName { index: 1 }));
}

#[test]
fn names_that_differ_only_outside_ascii_are_distinct() {
    let entries = vec![
        CatalogEntry::boolean("caf\u{00e9}", false),
        CatalogEntry::boolean("cafe", false),
    ];
    let catalog = Catalog::new(entries).unwrap();
    assert_eq!(catalog.find("caf\u{00e9}"), Some(0));
    assert_eq!(catalog.find("cafe"), Some(1));
}
