use init_flags::registry::InitFlagWithValue;
use init_flags::standard::{
    standard_catalog, InitFlags, ATT_MTU_DEFAULT, CLASSIC_DISCOVERY_ONLY,
    DYNAMIC_AVRCP_VERSION_ENHANCEMENT, HCI_ADAPTER, USE_UNIFIED_CONNECTION_MANAGER,
};
use init_flags::value::{FlagKind, FlagValue};

fn flag_list(items: &[&str]) -> Vec<String> {
    items.iter().map(|s| String::from(*s)).collect()
}

fn entry(flag: &'static str, value: &str) -> InitFlagWithValue {
    InitFlagWithValue { flag, value: String::from(value) }
}

#[test]
fn standard_catalog_lists_five_flags() {
    let c = standard_catalog();
    assert_eq!(c.len(), 5);
    assert_eq!(c.find("classic_discovery_only"), Some(CLASSIC_DISCOVERY_ONLY));
    assert_eq!(
        c.find("dynamic_avrcp_version_enhancement"),
        Some(DYNAMIC_AVRCP_VERSION_ENHANCEMENT)
    );
    assert_eq!(c.find("hci_adapter"), Some(HCI_ADAPTER));
    assert_eq!(c.find("use_unified_connection_manager"), Some(USE_UNIFIED_CONNECTION_MANAGER));
    assert_eq!(c.find("att_mtu_default"), Some(ATT_MTU_DEFAULT));
}

#[test]
fn standard_catalog_kinds_and_defaults() {
    let c = standard_catalog();
    let kinds: Vec<FlagKind> = (0..c.len()).map(|i| c.entry(i).unwrap().kind).collect();
    assert_eq!(
        kinds,
        vec![
            FlagKind::Boolean,
            FlagKind::Boolean,
            FlagKind::Integer,
            FlagKind::Boolean,
            FlagKind::Integer
        ]
    );
    assert_eq!(
        c.defaults(),
        vec![
            FlagValue::Bool(false),
            FlagValue::Bool(true),
            FlagValue::Int(0),
            FlagValue::Bool(false),
            FlagValue::Int(517)
        ]
    );
}

#[test]
fn getters_return_defaults_before_any_load() {
    let f = InitFlags::new();
    assert!(!f.classic_discovery_only_is_enabled());
    assert!(f.dynamic_avrcp_version_enhancement_is_enabled());
    assert_eq!(f.get_hci_adapter(), 0);
    assert!(!f.use_unified_connection_manager_is_enabled());
    assert_eq!(f.get_att_mtu_default(), 517);
}

#[test]
fn load_sets_a_boolean_flag() {
    let mut f = InitFlags::new();
    f.load(flag_list(&["classic_discovery_only=true"]));
    assert!(f.classic_discovery_only_is_enabled());
}

#[test]
fn load_sets_every_standard_flag() {
    let mut f = InitFlags::new();
    f.load(flag_list(&[
        "classic_discovery_only=true",
        "dynamic_avrcp_version_enhancement=false",
        "hci_adapter=2",
        "use_unified_connection_manager=true",
        "att_mtu_default=23",
    ]));
    assert!(f.classic_discovery_only_is_enabled());
    assert!(!f.dynamic_avrcp_version_enhancement_is_enabled());
    assert_eq!(f.get_hci_adapter(), 2);
    assert!(f.use_unified_connection_manager_is_enabled());
    assert_eq!(f.get_att_mtu_default(), 23);
}

#[test]
fn reload_resets_then_applies() {
    let mut f = InitFlags::new();
    f.load(flag_list(&["classic_discovery_only=true", "hci_adapter=3"]));
    assert!(f.classic_discovery_only_is_enabled());
    assert_eq!(f.get_hci_adapter(), 3);
    f.load(flag_list(&[]));
    assert!(!f.classic_discovery_only_is_enabled());
    assert_eq!(f.get_hci_adapter(), 0);
}

#[test]
fn last_write_wins() {
    let mut f = InitFlags::new();
    f.load(flag_list(&["classic_discovery_only=true", "classic_discovery_only=false"]));
    assert!(!f.classic_discovery_only_is_enabled());
    f.load(flag_list(&["att_mtu_default=100", "att_mtu_default=200"]));
    assert_eq!(f.get_att_mtu_default(), 200);
}

#[test]
fn bare_name_sets_a_boolean_flag() {
    let mut bare = InitFlags::new();
    bare.load(flag_list(&["use_unified_connection_manager"]));
    let mut spelled = InitFlags::new();
    spelled.load(flag_list(&["use_unified_connection_manager=true"]));
    assert!(bare.use_unified_connection_manager_is_enabled());
    assert_eq!(bare.dump(), spelled.dump());
}

#[test]
fn bare_name_of_an_integer_flag_changes_nothing() {
    let mut f = InitFlags::new();
    f.load(flag_list(&["hci_adapter", "att_mtu_default"]));
    assert_eq!(f.get_hci_adapter(), 0);
    assert_eq!(f.get_att_mtu_default(), 517);
}

#[test]
fn unknown_flag_is_tolerated() {
    let mut f = InitFlags::new();
    f.load(flag_list(&["not_a_real_flag=true"]));
    assert_eq!(f.dump(), InitFlags::new().dump());
}

#[test]
fn malformed_integer_is_tolerated() {
    let mut f = InitFlags::new();
    f.load(flag_list(&["hci_adapter=notanumber", "att_mtu_default=99999999999"]));
    assert_eq!(f.get_hci_adapter(), 0);
    assert_eq!(f.get_att_mtu_default(), 517);
    f.load(flag_list(&["hci_adapter=4", "hci_adapter=notanumber"]));
    assert_eq!(f.get_hci_adapter(), 4);
}

#[test]
fn set_all_for_testing_enables_every_flag() {
    let mut f = InitFlags::new();
    f.set_all_for_testing();
    assert!(f.classic_discovery_only_is_enabled());
    assert!(f.dynamic_avrcp_version_enhancement_is_enabled());
    assert_eq!(f.get_hci_adapter(), 0);
    assert!(f.use_unified_connection_manager_is_enabled());
    assert_eq!(f.get_att_mtu_default(), 517);
}

#[test]
fn set_all_for_testing_beats_loads_before_and_after() {
    let mut f = InitFlags::new();
    f.load(flag_list(&["dynamic_avrcp_version_enhancement=false", "att_mtu_default=23"]));
    f.set_all_for_testing();
    assert!(f.dynamic_avrcp_version_enhancement_is_enabled());
    assert_eq!(f.get_att_mtu_default(), 517);
    f.load(flag_list(&[
        "classic_discovery_only=false",
        "dynamic_avrcp_version_enhancement=false",
        "hci_adapter=9",
    ]));
    assert!(f.classic_discovery_only_is_enabled());
    assert!(f.dynamic_avrcp_version_enhancement_is_enabled());
    assert_eq!(f.get_hci_adapter(), 0);
    f.set_all_for_testing();
    assert!(f.use_unified_connection_manager_is_enabled());
}

#[test]
fn dump_of_the_defaults() {
    assert_eq!(
        InitFlags::new().dump(),
        vec![
            entry("classic_discovery_only", "false"),
            entry("dynamic_avrcp_version_enhancement", "true"),
            entry("hci_adapter", "0"),
            entry("use_unified_connection_manager", "false"),
            entry("att_mtu_default", "517"),
        ]
    );
}

#[test]
fn dump_after_a_load() {
    let mut f = InitFlags::new();
    f.load(flag_list(&["hci_adapter=-1", "classic_discovery_only", "bogus=1"]));
    assert_eq!(
        f.dump(),
        vec![
            entry("classic_discovery_only", "true"),
            entry("dynamic_avrcp_version_enhancement", "true"),
            entry("hci_adapter", "-1"),
            entry("use_unified_connection_manager", "false"),
            entry("att_mtu_default", "517"),
        ]
    );
}

#[test]
fn dump_under_the_testing_override() {
    let mut f = InitFlags::new();
    f.load(flag_list(&["hci_adapter=5", "dynamic_avrcp_version_enhancement=false"]));
    f.set_all_for_testing();
    assert_eq!(
        f.dump(),
        vec![
            entry("classic_discovery_only", "true"),
            entry("dynamic_avrcp_version_enhancement", "true"),
            entry("hci_adapter", "0"),
            entry("use_unified_connection_manager", "true"),
            entry("att_mtu_default", "517"),
        ]
    );
}

#[test]
fn dump_agrees_with_the_getters() {
    let mut f = InitFlags::new();
    f.load(flag_list(&["hci_adapter=12", "use_unified_connection_manager"]));
    let dump = f.dump();
    assert_eq!(dump.len(), 5);
    assert_eq!(
        FlagValue::coerce(FlagKind::Boolean, &dump[CLASSIC_DISCOVERY_ONLY].value),
        Some(FlagValue::Bool(f.classic_discovery_only_is_enabled()))
    );
    assert_eq!(
        FlagValue::coerce(FlagKind::Boolean, &dump[DYNAMIC_AVRCP_VERSION_ENHANCEMENT].value),
        Some(FlagValue::Bool(f.dynamic_avrcp_version_enhancement_is_enabled()))
    );
    assert_eq!(
        FlagValue::coerce(FlagKind::Integer, &dump[HCI_ADAPTER].value),
        Some(FlagValue::Int(f.get_hci_adapter()))
    );
    assert_eq!(
        FlagValue::coerce(FlagKind::Boolean, &dump[USE_UNIFIED_CONNECTION_MANAGER].value),
        Some(FlagValue::Bool(f.use_unified_connection_manager_is_enabled()))
    );
    assert_eq!(
        FlagValue::coerce(FlagKind::Integer, &dump[ATT_MTU_DEFAULT].value),
        Some(FlagValue::Int(f.get_att_mtu_default()))
    );
}
