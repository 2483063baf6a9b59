use app_extract_info::manifest::apk::{
    find_resource_by_id, parse_reference, parse_resource, Config, Package, ResourceEntry,
    ResourceId, ResourceTable, ResourceType, ResourceValue,
};
use app_extract_info::manifest::Manifest;

fn plain(spec_id: usize, data_index: usize) -> ResourceEntry {
    ResourceEntry { spec_id, value: ResourceValue::Plain { data_index } }
}

fn complex(spec_id: usize) -> ResourceEntry {
    ResourceEntry { spec_id, value: ResourceValue::Complex }
}

fn pool(strings: &[&str]) -> Vec<String> {
    strings.iter().map(|s| s.to_string()).collect()
}

fn reference(package_id: u8, type_id: u8, entry_id: u16) -> String {
    format!(
        "ResourceValueType::Reference/{}",
        ResourceId::from_parts(package_id, type_id, entry_id).as_u32()
    )
}

/// Package 1, type 2, one block with entry 5 at index 3 of the pool, where
/// `MyApp` stands.
fn small_table() -> ResourceTable {
    ResourceTable {
        packages: vec![Package {
            id: 1,
            types: vec![ResourceType { id: 2, configs: vec![Config { resources: vec![plain(5, 3)] }] }],
        }],
        strings: pool(&["zero", "one", "two", "MyApp"]),
    }
}

fn wide_table() -> ResourceTable {
    ResourceTable {
        packages: vec![
            Package { id: 1, types: vec![] },
            Package {
                id: 0x7f,
                types: vec![
                    ResourceType {
                        id: 1,
                        configs: vec![Config { resources: vec![plain(0, 4), plain(1, 9)] }],
                    },
                    ResourceType {
                        id: 2,
                        configs: vec![
                            Config { resources: vec![plain(1, 1)] },
                            Config { resources: vec![plain(0, 2), plain(1, 3), plain(0, 0)] },
                            Config { resources: vec![complex(2), plain(2, 0)] },
                            Config { resources: vec![plain(3, 0), complex(3)] },
                        ],
                    },
                    ResourceType { id: 2, configs: vec![Config { resources: vec![plain(1, 0)] }] },
                ],
            },
            Package {
                id: 0x7f,
                types: vec![ResourceType {
                    id: 9,
                    configs: vec![Config { resources: vec![plain(0, 0)] }],
                }],
            },
        ],
        strings: pool(&["first", "second", "third", "fourth", "res/icon.png"]),
    }
}

#[test]
fn a_reference_names_its_identifier() {
    assert_eq!(
        parse_reference("ResourceValueType::Reference/16908293"),
        Some(ResourceId::from_parts(1, 2, 5))
    );
    assert_eq!(
        parse_reference("ResourceValueType::Reference/2131361811"),
        Some(ResourceId::from_u32(0x7f0a_0013))
    );
    assert_eq!(parse_reference("ResourceValueType::Reference/0"), Some(ResourceId::from_u32(0)));
    assert_eq!(
        parse_reference("ResourceValueType::Reference/4294967295"),
        Some(ResourceId::from_u32(u32::MAX))
    );
}

#[test]
fn the_mark_is_taken_out_wherever_it_stands() {
    assert_eq!(parse_reference("12"), Some(ResourceId::from_u32(12)));
    assert_eq!(
        parse_reference("1ResourceValueType::Reference/2"),
        Some(ResourceId::from_u32(12))
    );
    assert_eq!(
        parse_reference("ResourceValueType::Reference/1ResourceValueType::Reference/"),
        Some(ResourceId::from_u32(1))
    );
}

#[test]
fn a_value_that_names_no_identifier() {
    assert_eq!(parse_reference("ResourceValueType::Reference/"), None);
    assert_eq!(parse_reference("ResourceValueType::Reference/abc"), None);
    assert_eq!(parse_reference("ResourceValueType::Reference/4294967296"), None);
    assert_eq!(parse_reference("ResourceValueType::Reference/-1"), None);
    assert_eq!(parse_reference("ResourceValueType::Reference/12 "), None);
    assert_eq!(parse_reference("@1234"), None);
    assert_eq!(parse_reference(""), None);
}

#[test]
fn a_reference_into_the_table_yields_its_string() {
    assert_eq!(find_resource_by_id(&small_table(), reference(1, 2, 5)), Some("MyApp".to_string()));
    assert_eq!(
        find_resource_by_id(&small_table(), "ResourceValueType::Reference/16908293".to_string()),
        Some("MyApp".to_string())
    );
}

#[test]
fn an_absent_entry_yields_nothing() {
    assert_eq!(find_resource_by_id(&small_table(), reference(1, 2, 6)), None);
    assert_eq!(
        find_resource_by_id(&small_table(), "ResourceValueType::Reference/16908294".to_string()),
        None
    );
}

#[test]
fn an_absent_package_yields_nothing() {
    assert_eq!(find_resource_by_id(&small_table(), reference(9, 2, 5)), None);
    assert_eq!(
        find_resource_by_id(&small_table(), "ResourceValueType::Reference/151126021".to_string()),
        None
    );
}

#[test]
fn an_absent_type_yields_nothing() {
    assert_eq!(find_resource_by_id(&small_table(), reference(1, 3, 5)), None);
    assert_eq!(find_resource_by_id(&wide_table(), reference(1, 2, 1)), None);
}

#[test]
fn a_value_that_names_no_identifier_yields_nothing() {
    assert_eq!(find_resource_by_id(&small_table(), "MyApp".to_string()), None);
    assert_eq!(
        find_resource_by_id(&small_table(), "ResourceValueType::Reference/x".to_string()),
        None
    );
    assert_eq!(find_resource_by_id(&small_table(), String::new()), None);
}

#[test]
fn an_empty_table_yields_nothing() {
    let table = ResourceTable { packages: vec![], strings: vec![] };
    assert_eq!(find_resource_by_id(&table, reference(1, 2, 5)), None);
}

#[test]
fn the_first_block_that_defines_the_entry_wins() {
    // Entry 1 of type 2: the first block gives "second", the next "fourth".
    assert_eq!(find_resource_by_id(&wide_table(), reference(0x7f, 2, 1)), Some("second".to_string()));
    // Entry 0 of type 2: no value in the first block, two in the second.
    assert_eq!(find_resource_by_id(&wide_table(), reference(0x7f, 2, 0)), Some("third".to_string()));
}

#[test]
fn the_first_package_and_type_with_the_id_win() {
    // The second type 2 and the second package 0x7f are never looked at.
    assert_eq!(find_resource_by_id(&wide_table(), reference(0x7f, 9, 0)), None);
    assert_eq!(find_resource_by_id(&wide_table(), reference(0x7f, 1, 0)), Some("res/icon.png".to_string()));
}

#[test]
fn a_complex_first_value_yields_nothing() {
    // Entry 2: a bag comes first, a plain value after it.
    assert_eq!(find_resource_by_id(&wide_table(), reference(0x7f, 2, 2)), None);
    // Entry 3: a plain value comes first.
    assert_eq!(find_resource_by_id(&wide_table(), reference(0x7f, 2, 3)), Some("first".to_string()));
}

#[test]
fn an_index_outside_the_pool_yields_nothing() {
    assert_eq!(find_resource_by_id(&wide_table(), reference(0x7f, 1, 1)), None);
    let table = ResourceTable {
        packages: small_table().packages,
        strings: pool(&["zero", "one", "two"]),
    };
    assert_eq!(find_resource_by_id(&table, reference(1, 2, 5)), None);
}

#[test]
fn resolution_replaces_a_reference_by_its_string() {
    let info = Manifest {
        name: reference(1, 2, 5),
        icon: "res/icon.png".to_string(),
        bundle_id: "com.x".to_string(),
        version: "1.0".to_string(),
        build_number: "42".to_string(),
    };
    let resolved = parse_resource(&small_table(), info);
    assert_eq!(
        resolved,
        Manifest {
            name: "MyApp".to_string(),
            icon: "res/icon.png".to_string(),
            bundle_id: "com.x".to_string(),
            version: "1.0".to_string(),
            build_number: "42".to_string(),
        }
    );
}

#[test]
fn resolution_leaves_an_unknown_reference_as_it_is() {
    let info = Manifest {
        name: reference(1, 2, 6),
        icon: reference(9, 2, 5),
        bundle_id: "com.x".to_string(),
        version: "ResourceValueType::Reference/none".to_string(),
        build_number: "42".to_string(),
    };
    let expected = info.clone();
    assert_eq!(parse_resource(&small_table(), info), expected);
}

#[test]
fn resolution_takes_each_field_by_itself() {
    let info = Manifest {
        name: reference(0x7f, 2, 1),
        icon: reference(0x7f, 1, 0),
        bundle_id: reference(0x7f, 2, 2),
        version: reference(0x7f, 2, 0),
        build_number: reference(0x7f, 2, 3),
    };
    assert_eq!(
        parse_resource(&wide_table(), info),
        Manifest {
            name: "second".to_string(),
            icon: "res/icon.png".to_string(),
            bundle_id: reference(0x7f, 2, 2),
            version: "third".to_string(),
            build_number: "first".to_string(),
        }
    );
}

#[test]
fn resolution_does_not_follow_a_string_that_is_a_reference() {
    let table = ResourceTable {
        packages: small_table().packages,
        strings: vec![
            "zero".to_string(),
            "one".to_string(),
            "two".to_string(),
            reference(1, 2, 5),
        ],
    };
    let mut info = Manifest::default();
    info.name = reference(1, 2, 5);
    info.version = "MyApp".to_string();
    let resolved = parse_resource(&table, info);
    assert_eq!(resolved.name, reference(1, 2, 5));
    assert_eq!(resolved.version, "MyApp");
}

#[test]
fn resolution_leaves_values_without_the_mark_alone() {
    // "16908293" names an identifier of the table, but does not hold the mark.
    let mut info = Manifest::default();
    info.build_number = "16908293".to_string();
    let expected = info.clone();
    assert_eq!(parse_resource(&small_table(), info), expected);
}

#[test]
fn resolution_with_an_empty_table_changes_nothing() {
    let table = ResourceTable { packages: vec![], strings: vec![] };
    let mut info = Manifest::default();
    info.name = reference(1, 2, 5);
    info.icon = "res/icon.png".to_string();
    let expected = info.clone();
    assert_eq!(parse_resource(&table, info), expected);
}
