use app_extract_info::error::Error;
use app_extract_info::manifest::apk::{
    ApkManifest, Config, Package, ResourceEntry, ResourceTable, ResourceType, ResourceValue,
};
use app_extract_info::manifest::axml::{Element, Node};
use app_extract_info::manifest::events::XmlEvent;
use app_extract_info::manifest::Manifest;

fn pairs(list: &[(&str, &str)]) -> Vec<(String, String)> {
    list.iter().map(|(k, v)| (k.to_string(), v.to_string())).collect()
}

fn start(name: &str, attributes: &[(&str, &str)]) -> XmlEvent {
    XmlEvent::StartElement { name: name.to_string(), attributes: pairs(attributes) }
}

fn manifest(name: &str, icon: &str, bundle_id: &str, version: &str, build_number: &str) -> Manifest {
    Manifest {
        name: name.to_string(),
        icon: icon.to_string(),
        bundle_id: bundle_id.to_string(),
        version: version.to_string(),
        build_number: build_number.to_string(),
    }
}

#[test]
fn a_canonical_document_yields_its_five_fields() {
    let text = "<manifest versionCode=\"42\" versionName=\"1.0\" package=\"com.x\">\
                <application label=\"X\" icon=\"ResourceValueType::Reference/1234\"/></manifest>";
    assert_eq!(
        ApkManifest::from_xml(text),
        Ok(manifest("X", "ResourceValueType::Reference/1234", "com.x", "1.0", "42"))
    );
}

#[test]
fn attribute_values_are_taken_as_they_stand() {
    let text = "<manifest versionCode=\"42\" versionName=\"1.0\" package=\"com.x\">\
                <application label=\"X\" icon=\"@1234\"/></manifest>";
    assert_eq!(ApkManifest::from_xml(text), Ok(manifest("X", "@1234", "com.x", "1.0", "42")));
}

#[test]
fn the_package_is_the_name_until_a_label_is_found() {
    let text = "<manifest package=\"com.x\"><application icon=\"res/i.png\"/></manifest>";
    assert_eq!(ApkManifest::from_xml(text), Ok(manifest("com.x", "res/i.png", "com.x", "", "")));
}

#[test]
fn prefixed_attributes_are_found_by_a_part_of_their_name() {
    let text = "<manifest xmlns:android=\"http://schemas.android.com/apk/res/android\" \
                android:versionCode=\"7\" android:versionName=\"0.7\" package=\"org.y\" \
                platformBuildVersionCode=\"33\">\n  \
                <uses-sdk android:minSdkVersion=\"21\"/>\n  \
                <application android:label=\"Y\" android:icon=\"res/mipmap/ic.png\" \
                android:roundIcon=\"res/mipmap/round.png\">\n    \
                <activity android:label=\"Main\" android:icon=\"res/a.png\"/>\n  \
                </application>\n</manifest>\n";
    assert_eq!(
        ApkManifest::from_xml(text),
        Ok(manifest("Y", "res/mipmap/ic.png", "org.y", "0.7", "7"))
    );
}

#[test]
fn text_that_is_no_xml_is_a_manifest_error() {
    assert_eq!(ApkManifest::from_xml("<manifest"), Err(Error::ManifestDecodeError));
    assert_eq!(ApkManifest::from_xml(""), Err(Error::ManifestDecodeError));
    assert_eq!(
        ApkManifest::from_xml("<manifest package=\"a\"><application></manifest>"),
        Err(Error::ManifestDecodeError)
    );
    assert_eq!(
        ApkManifest::from_xml("<manifest package=\"a\" package=\"b\"/>"),
        Err(Error::ManifestDecodeError)
    );
}

#[test]
fn an_error_behind_the_fields_is_still_an_error() {
    let text = "<manifest versionCode=\"42\" package=\"com.x\"><application label=\"X\"/></manifest><";
    assert_eq!(ApkManifest::from_xml(text), Err(Error::ManifestDecodeError));
}

#[test]
fn a_document_without_the_two_elements_yields_empty_fields() {
    assert_eq!(ApkManifest::from_xml("<resources versionCode=\"1\"/>"), Ok(Manifest::default()));
}

#[test]
fn events_of_other_elements_change_nothing() {
    let events = vec![
        XmlEvent::Other,
        start("Manifest", &[("package", "no")]),
        start("activity", &[("label", "no"), ("icon", "no")]),
        XmlEvent::Other,
    ];
    assert_eq!(ApkManifest::from_events(&events), Manifest::default());
    assert_eq!(ApkManifest::from_events(&vec![]), Manifest::default());
}

#[test]
fn the_manifest_element_gives_build_version_and_package() {
    let events = vec![start(
        "manifest",
        &[
            ("{http://schemas.android.com/apk/res/android}android:versionCode", "42"),
            ("{http://schemas.android.com/apk/res/android}android:versionName", "1.0"),
            ("package", "com.x"),
            ("label", "ignored here"),
            ("icon", "ignored here"),
        ],
    )];
    assert_eq!(ApkManifest::from_events(&events), manifest("com.x", "", "com.x", "1.0", "42"));
}

#[test]
fn the_application_element_gives_label_and_icon() {
    let events = vec![start(
        "application",
        &[
            ("android:label", "X"),
            ("android:icon", "res/icon.png"),
            ("package", "ignored here"),
            ("versionCode", "ignored here"),
        ],
    )];
    assert_eq!(ApkManifest::from_events(&events), manifest("X", "res/icon.png", "", "", ""));
}

#[test]
fn the_first_part_that_stands_in_a_name_decides() {
    let events = vec![
        start("manifest", &[("package-versionName-versionCode", "a"), ("package.versionName", "b")]),
        start("application", &[("icon-label", "c")]),
    ];
    assert_eq!(ApkManifest::from_events(&events), manifest("c", "", "", "b", "a"));
}

#[test]
fn a_later_attribute_or_element_overwrites() {
    let events = vec![
        start("application", &[("label", "first"), ("label", "second")]),
        start("manifest", &[("package", "com.x")]),
        start("application", &[("icon", "i")]),
    ];
    assert_eq!(ApkManifest::from_events(&events), manifest("com.x", "i", "com.x", "", ""));
}

fn document() -> Node {
    Node::Element(Element {
        tag: "manifest".to_string(),
        attributes: pairs(&[
            ("xmlns:android", "http://schemas.android.com/apk/res/android"),
            ("android:versionCode", "42"),
            ("android:versionName", "ResourceValueType::Reference/2130903040"),
            ("package", "com.x"),
        ]),
        children: vec![Node::Element(Element {
            tag: "application".to_string(),
            attributes: pairs(&[
                ("android:label", "ResourceValueType::Reference/2130903041"),
                ("android:icon", "ResourceValueType::Reference/2130837504"),
            ]),
            children: vec![],
        })],
    })
}

fn table() -> ResourceTable {
    let plain = |spec_id: usize, data_index: usize| ResourceEntry {
        spec_id,
        value: ResourceValue::Plain { data_index },
    };
    ResourceTable {
        packages: vec![Package {
            id: 0x7f,
            types: vec![
                // 0x7f020000: the icon
                ResourceType { id: 2, configs: vec![Config { resources: vec![plain(0, 2)] }] },
                // 0x7f030000: the version name, 0x7f030001: the label
                ResourceType {
                    id: 3,
                    configs: vec![Config { resources: vec![plain(0, 1), plain(1, 0)] }],
                },
            ],
        }],
        strings: vec!["My App".to_string(), "1.0-rc".to_string(), "res/icon.png".to_string()],
    }
}

#[test]
fn a_decoded_manifest_without_table_keeps_its_references() {
    assert_eq!(
        ApkManifest::from_buffer(&document(), None),
        Ok(manifest(
            "ResourceValueType::Reference/2130903041",
            "ResourceValueType::Reference/2130837504",
            "com.x",
            "ResourceValueType::Reference/2130903040",
            "42"
        ))
    );
}

#[test]
fn a_decoded_manifest_is_resolved_against_its_table() {
    assert_eq!(
        ApkManifest::from_buffer(&document(), Some(&table())),
        Ok(manifest("My App", "res/icon.png", "com.x", "1.0-rc", "42"))
    );
}

#[test]
fn a_decoded_manifest_whose_text_is_no_xml_is_a_manifest_error() {
    let broken = Node::Element(Element {
        tag: "manifest".to_string(),
        attributes: pairs(&[("package", "a\"b")]),
        children: vec![],
    });
    assert_eq!(ApkManifest::from_buffer(&broken, Some(&table())), Err(Error::ManifestDecodeError));
    let no_tag = Node::Element(Element { tag: String::new(), attributes: vec![], children: vec![] });
    assert_eq!(ApkManifest::from_buffer(&no_tag, None), Err(Error::ManifestDecodeError));
}
