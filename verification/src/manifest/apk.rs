//! Packages with a binary XML manifest: resource identifiers, the resource
//! table, and the resolution of references into it.

use vstd::prelude::*;
use crate::error::Error;
use crate::text::{
    chars_of, cut_all, has_infix, read_u32, same_text, str_contains, unsigned_32, without,
};
use super::axml::{extract_xml, render, Node, NodeView};
use super::events::{read_events, xml_events, XmlEvent, XmlEventView};
use super::{
    empty_manifest, field, is_reference, unresolved, with_field, Manifest, ManifestView,
    RESOURCE_VALUE_TYPE,
};

verus! {

/// The extension of the files that hold such a package.
pub const APK_EXT: &'static str = "apk";

/// The identifier that packs the three parts: package in bits 31 to 24, type
/// in bits 23 to 16, entry in bits 15 to 0.
pub open spec fn pack(package_id: u8, type_id: u8, entry_id: u16) -> u32 {
    ((package_id as u32) << 24) | ((type_id as u32) << 16) | (entry_id as u32)
}

/// Bits 31 to 24 of an identifier.
pub open spec fn package_of(id: u32) -> u8 {
    ((id & 0xff00_0000) >> 24) as u8
}

/// Bits 23 to 16 of an identifier.
pub open spec fn type_of(id: u32) -> u8 {
    ((id & 0x00ff_0000) >> 16) as u8
}

/// Bits 15 to 0 of an identifier.
pub open spec fn entry_of(id: u32) -> u16 {
    (id & 0x0000_ffff) as u16
}

/// Packing three parts and taking the result apart gives the parts back.
pub proof fn lemma_pack_then_unpack(package_id: u8, type_id: u8, entry_id: u16)
    ensures
        package_of(pack(package_id, type_id, entry_id)) == package_id,
        type_of(pack(package_id, type_id, entry_id)) == type_id,
        entry_of(pack(package_id, type_id, entry_id)) == entry_id,
{
    assert(((((package_id as u32) << 24) | ((type_id as u32) << 16) | (entry_id as u32))
        & 0xff00_0000) >> 24 == package_id as u32) by (bit_vector);
    assert(((((package_id as u32) << 24) | ((type_id as u32) << 16) | (entry_id as u32))
        & 0x00ff_0000) >> 16 == type_id as u32) by (bit_vector);
    assert((((package_id as u32) << 24) | ((type_id as u32) << 16) | (entry_id as u32))
        & 0x0000_ffff == entry_id as u32) by (bit_vector);
}

/// Taking an identifier apart and packing the parts gives the identifier back.
pub proof fn lemma_unpack_then_pack(id: u32)
    ensures
        pack(package_of(id), type_of(id), entry_of(id)) == id,
{
    let p = (id & 0xff00_0000) >> 24;
    let t = (id & 0x00ff_0000) >> 16;
    let e = id & 0x0000_ffff;
    assert(p <= 0xff && t <= 0xff && e <= 0xffff && (p << 24) | (t << 16) | e == id) by (bit_vector)
        requires
            p == (id & 0xff00_0000) >> 24,
            t == (id & 0x00ff_0000) >> 16,
            e == id & 0x0000_ffff,
    ;
    assert((p as u8) as u32 == p);
    assert((t as u8) as u32 == t);
    assert((e as u16) as u32 == e);
}

/// A packed resource identifier.
#[derive(Clone, Copy, Debug, PartialEq, Eq, Structural)]
pub struct ResourceId {
    id: u32,
}

impl View for ResourceId {
    type V = u32;

    closed spec fn view(&self) -> u32 {
        self.id
    }
}

impl ResourceId {
    /// The identifier made of the three parts.
    pub fn from_parts(package_id: u8, type_id: u8, entry_id: u16) -> (r: ResourceId)
        ensures
            r@ == pack(package_id, type_id, entry_id),
            package_of(r@) == package_id,
            type_of(r@) == type_id,
            entry_of(r@) == entry_id,
    {
        proof {
            lemma_pack_then_unpack(package_id, type_id, entry_id);
        }
        ResourceId { id: ((package_id as u32) << 24) | ((type_id as u32) << 16) | entry_id as u32 }
    }

    /// The identifier with the packed value `id`.
    pub fn from_u32(id: u32) -> (r: ResourceId)
        ensures
            r@ == id,
    {
        ResourceId { id }
    }

    /// The packed value.
    pub fn as_u32(&self) -> (r: u32)
        ensures
            r == self@,
    {
        self.id
    }

    /// The package that the identifier names.
    pub fn package_id(&self) -> (r: u8)
        ensures
            r == package_of(self@),
    {
        let id: u32 = self.id;
        assert((id & 0xff00_0000) >> 24 <= 0xff) by (bit_vector);
        ((id & 0xff00_0000) >> 24) as u8
    }

    /// The type that the identifier names.
    pub fn type_id(&self) -> (r: u8)
        ensures
            r == type_of(self@),
    {
        let id: u32 = self.id;
        assert((id & 0x00ff_0000) >> 16 <= 0xff) by (bit_vector);
        ((id & 0x00ff_0000) >> 16) as u8
    }

    /// The entry that the identifier names.
    pub fn entry_id(&self) -> (r: u16)
        ensures
            r == entry_of(self@),
    {
        let id: u32 = self.id;
        assert(id & 0x0000_ffff <= 0xffff) by (bit_vector);
        (id & 0x0000_ffff) as u16
    }
}

/// What a resource entry holds.
#[derive(Clone, Copy, Debug, PartialEq, Eq, Structural)]
pub enum ResourceValue {
    /// One value; `data_index` is its place in the table's string pool.
    Plain { data_index: usize },
    /// A bag of values. No text is taken from one.
    Complex,
}

/// One resource of a configuration block.
#[derive(Clone, Copy, Debug, PartialEq, Eq, Structural)]
pub struct ResourceEntry {
    /// The entry that this resource gives a value to.
    pub spec_id: usize,
    pub value: ResourceValue,
}

/// The resources that one configuration defines for a type.
#[derive(Debug, PartialEq, Eq)]
pub struct Config {
    pub resources: Vec<ResourceEntry>,
}

/// A resource type with its configuration blocks, in their order.
#[derive(Debug, PartialEq, Eq)]
pub struct ResourceType {
    pub id: usize,
    pub configs: Vec<Config>,
}

/// A package of the table with its types, in their order.
#[derive(Debug, PartialEq, Eq)]
pub struct Package {
    pub id: u32,
    pub types: Vec<ResourceType>,
}

/// A decoded resource table: the packages in their order, and the string
/// pool that plain values point into.
#[derive(Debug, PartialEq, Eq)]
pub struct ResourceTable {
    pub packages: Vec<Package>,
    pub strings: Vec<String>,
}

/// A [`Config`] as a sequence.
pub struct ConfigView {
    pub resources: Seq<ResourceEntry>,
}

/// A [`ResourceType`] as sequences.
pub struct ResourceTypeView {
    pub id: usize,
    pub configs: Seq<ConfigView>,
}

/// A [`Package`] as sequences.
pub struct PackageView {
    pub id: u32,
    pub types: Seq<ResourceTypeView>,
}

/// A [`ResourceTable`] as sequences.
pub struct ResourceTableView {
    pub packages: Seq<PackageView>,
    pub strings: Seq<Seq<char>>,
}

impl DeepView for Config {
    type V = ConfigView;

    open spec fn deep_view(&self) -> ConfigView {
        ConfigView { resources: self.resources@ }
    }
}

impl DeepView for ResourceType {
    type V = ResourceTypeView;

    open spec fn deep_view(&self) -> ResourceTypeView {
        ResourceTypeView { id: self.id, configs: self.configs.deep_view() }
    }
}

impl DeepView for Package {
    type V = PackageView;

    open spec fn deep_view(&self) -> PackageView {
        PackageView { id: self.id, types: self.types.deep_view() }
    }
}

impl DeepView for ResourceTable {
    type V = ResourceTableView;

    open spec fn deep_view(&self) -> ResourceTableView {
        ResourceTableView { packages: self.packages.deep_view(), strings: self.strings.deep_view() }
    }
}

/// The first package with the given id.
pub open spec fn find_package(packages: Seq<PackageView>, id: u8) -> Option<PackageView>
    decreases packages.len(),
{
    if packages.len() == 0 {
        None
    } else if packages[0].id == id {
        Some(packages[0])
    } else {
        find_package(packages.drop_first(), id)
    }
}

/// The first type with the given id.
pub open spec fn find_type(types: Seq<ResourceTypeView>, id: u8) -> Option<ResourceTypeView>
    decreases types.len(),
{
    if types.len() == 0 {
        None
    } else if types[0].id == id {
        Some(types[0])
    } else {
        find_type(types.drop_first(), id)
    }
}

/// The values that one block gives to the entry `id`, in the block's order.
pub open spec fn values_in(resources: Seq<ResourceEntry>, id: u16) -> Seq<ResourceValue>
    decreases resources.len(),
{
    if resources.len() == 0 {
        Seq::empty()
    } else {
        let before = values_in(resources.drop_last(), id);
        if resources.last().spec_id == id {
            before.push(resources.last().value)
        } else {
            before
        }
    }
}

/// The values that the blocks give to the entry `id`: block after block, and
/// within a block in its order.
pub open spec fn values_of(configs: Seq<ConfigView>, id: u16) -> Seq<ResourceValue>
    decreases configs.len(),
{
    if configs.len() == 0 {
        Seq::empty()
    } else {
        values_of(configs.drop_last(), id) + values_in(configs.last().resources, id)
    }
}

/// The text that the table holds for the identifier `id`. The first package
/// and the first type with the ids decide; among the values of the entry the
/// first decides, whatever its block is for; it gives a text if it is plain
/// and points into the string pool.
pub open spec fn lookup(table: ResourceTableView, id: u32) -> Option<Seq<char>> {
    match find_package(table.packages, package_of(id)) {
        None => None,
        Some(package) => match find_type(package.types, type_of(id)) {
            None => None,
            Some(ty) => {
                let values = values_of(ty.configs, entry_of(id));
                if values.len() == 0 {
                    None
                } else {
                    match values[0] {
                        ResourceValue::Plain { data_index } => if data_index
                            < table.strings.len() {
                            Some(table.strings[data_index as int])
                        } else {
                            None
                        },
                        ResourceValue::Complex => None,
                    }
                }
            },
        },
    }
}

/// The identifier that a reference names: what is left of the value once the
/// mark is cut out, read as an unsigned 32-bit integer.
pub open spec fn reference_id(value: Seq<char>) -> Option<u32> {
    unsigned_32(without(value, RESOURCE_VALUE_TYPE@))
}

/// The text that the table holds for the reference `value`.
pub open spec fn resolve(table: ResourceTableView, value: Seq<char>) -> Option<Seq<char>> {
    match reference_id(value) {
        None => None,
        Some(id) => lookup(table, id),
    }
}

/// A field's value after resolution: the table's text where the value looks
/// like a reference and the table holds a text for it, else the value itself.
pub open spec fn resolved_value(table: ResourceTableView, value: Seq<char>) -> Seq<char> {
    if is_reference(value) {
        match resolve(table, value) {
            Some(text) => text,
            None => value,
        }
    } else {
        value
    }
}

/// A record after resolution: each field by itself.
pub open spec fn resolved(table: ResourceTableView, m: ManifestView) -> ManifestView {
    ManifestView {
        name: resolved_value(table, m.name),
        icon: resolved_value(table, m.icon),
        bundle_id: resolved_value(table, m.bundle_id),
        version: resolved_value(table, m.version),
        build_number: resolved_value(table, m.build_number),
    }
}

/// A table without packages resolves nothing: to go on without a table is
/// to go on with an empty one.
pub proof fn lemma_empty_table_resolves_nothing(table: ResourceTableView, m: ManifestView)
    requires
        table.packages.len() == 0,
    ensures
        resolved(table, m) == m,
{
}

/// The identifier that the reference `value` names, if it names one.
pub fn parse_reference(value: &str) -> (r: Option<ResourceId>)
    ensures
        match r {
            Some(id) => reference_id(value@) == Some(id@),
            None => reference_id(value@) is None,
        },
{
    let text = chars_of(value);
    let mark = chars_of(RESOURCE_VALUE_TYPE);
    let digits = cut_all(&text, &mark);
    match read_u32(&digits) {
        Some(id) => Some(ResourceId::from_u32(id)),
        None => None,
    }
}

fn package_by_id(packages: &Vec<Package>, id: u8) -> (r: Option<&Package>)
    ensures
        match r {
            Some(p) => find_package(packages.deep_view(), id) == Some(p.deep_view()),
            None => find_package(packages.deep_view(), id) is None,
        },
{
    let ghost views = packages.deep_view();
    let mut i: usize = 0;
    assert(views.skip(0) =~= views);
    while i < packages.len()
        invariant
            i <= packages.len(),
            views == packages.deep_view(),
            find_package(views, id) == find_package(views.skip(i as int), id),
        decreases packages.len() - i,
    {
        assert(views.skip(i as int)[0] == packages@[i as int].deep_view());
        if packages[i].id == id as u32 {
            return Some(&packages[i]);
        }
        assert(views.skip(i as int).drop_first() =~= views.skip(i + 1));
        i += 1;
    }
    None
}

fn type_by_id(types: &Vec<ResourceType>, id: u8) -> (r: Option<&ResourceType>)
    ensures
        match r {
            Some(t) => find_type(types.deep_view(), id) == Some(t.deep_view()),
            None => find_type(types.deep_view(), id) is None,
        },
{
    let ghost views = types.deep_view();
    let mut i: usize = 0;
    assert(views.skip(0) =~= views);
    while i < types.len()
        invariant
            i <= types.len(),
            views == types.deep_view(),
            find_type(views, id) == find_type(views.skip(i as int), id),
        decreases types.len() - i,
    {
        assert(views.skip(i as int)[0] == types@[i as int].deep_view());
        if types[i].id == id as usize {
            return Some(&types[i]);
        }
        assert(views.skip(i as int).drop_first() =~= views.skip(i + 1));
        i += 1;
    }
    None
}

fn collect_values(configs: &Vec<Config>, id: u16) -> (r: Vec<ResourceValue>)
    ensures
        r@ == values_of(configs.deep_view(), id),
{
    let ghost views = configs.deep_view();
    let mut entry: Vec<ResourceValue> = Vec::new();
    let mut i: usize = 0;
    assert(views.take(0) =~= Seq::empty());
    while i < configs.len()
        invariant
            i <= configs.len(),
            views == configs.deep_view(),
            entry@ == values_of(views.take(i as int), id),
        decreases configs.len() - i,
    {
        let resources = &configs[i].resources;
        let ghost before = entry@;
        let mut j: usize = 0;
        assert(resources@.take(0) =~= Seq::empty());
        while j < resources.len()
            invariant
                j <= resources.len(),
                entry@ == before + values_in(resources@.take(j as int), id),
            decreases resources.len() - j,
        {
            assert(resources@.take(j + 1).drop_last() =~= resources@.take(j as int));
            if resources[j].spec_id == id as usize {
                entry.push(resources[j].value);
            }
            j += 1;
        }
        assert(resources@.take(j as int) =~= resources@);
        assert(views.take(i + 1).drop_last() =~= views.take(i as int));
        assert(views.take(i + 1).last() == configs@[i as int].deep_view());
        i += 1;
    }
    assert(views.take(i as int) =~= views);
    entry
}

/// The text that the table holds for the reference `key`.
///
/// `None` where `key` names no identifier, where the table has no package,
/// type or entry for it, where the first value of the entry is a bag, or
/// where that value points outside the string pool.
pub fn find_resource_by_id(table: &ResourceTable, key: String) -> (r: Option<String>)
    ensures
        match r {
            Some(text) => resolve(table.deep_view(), key@) == Some(text@),
            None => resolve(table.deep_view(), key@) is None,
        },
{
    let res_id = match parse_reference(key.as_str()) {
        Some(id) => id,
        None => {
            return None;
        },
    };
    let p = match package_by_id(&table.packages, res_id.package_id()) {
        Some(p) => p,
        None => {
            return None;
        },
    };
    let t = match type_by_id(&p.types, res_id.type_id()) {
        Some(t) => t,
        None => {
            return None;
        },
    };
    let entry = collect_values(&t.configs, res_id.entry_id());
    if entry.len() == 0 {
        return None;
    }
    match entry[0] {
        ResourceValue::Plain { data_index } => {
            if data_index < table.strings.len() {
                assert(table.strings.deep_view()[data_index as int]
                    == table.strings@[data_index as int]@);
                Some(table.strings[data_index].clone())
            } else {
                None
            }
        },
        ResourceValue::Complex => None,
    }
}

/// What the fields named by `keys` become, one after the other.
pub open spec fn resolved_in_turn(
    table: ResourceTableView,
    m: ManifestView,
    keys: Seq<Seq<char>>,
) -> ManifestView
    decreases keys.len(),
{
    if keys.len() == 0 {
        m
    } else {
        let before = resolved_in_turn(table, m, keys.drop_last());
        match resolve(table, field(before, keys.last())) {
            Some(text) => with_field(before, keys.last(), text),
            None => before,
        }
    }
}

/// One more name under the filter adds one step of resolution, or none.
proof fn lemma_resolved_step(
    table: ResourceTableView,
    m: ManifestView,
    names: Seq<Seq<char>>,
    pred: spec_fn(Seq<char>) -> bool,
)
    requires
        names.len() > 0,
    ensures
        resolved_in_turn(table, m, names.filter(pred)) == {
            let before = resolved_in_turn(table, m, names.drop_last().filter(pred));
            if pred(names.last()) {
                match resolve(table, field(before, names.last())) {
                    Some(text) => with_field(before, names.last(), text),
                    None => before,
                }
            } else {
                before
            }
        },
{
    reveal(Seq::filter);
    if pred(names.last()) {
        assert(names.filter(pred).drop_last() =~= names.drop_last().filter(pred));
    }
}

/// Resolving the unresolved fields in turn resolves each field by itself.
pub proof fn lemma_resolved_in_turn(table: ResourceTableView, m: ManifestView)
    ensures
        resolved_in_turn(table, m, unresolved(m)) == resolved(table, m),
{
    reveal_strlit("name");
    reveal_strlit("icon");
    reveal_strlit("bundle_id");
    reveal_strlit("version");
    reveal_strlit("build_number");
    let names = super::field_names();
    let pred = |key: Seq<char>| is_reference(field(m, key));
    let n1 = names.drop_last();
    let n2 = n1.drop_last();
    let n3 = n2.drop_last();
    let n4 = n3.drop_last();
    let n5 = n4.drop_last();
    assert("name"@ != "icon"@) by {
        assert("name"@[0] != "icon"@[0]);
    }
    assert("name"@.len() == 4 && "icon"@.len() == 4 && "bundle_id"@.len() == 9
        && "version"@.len() == 7 && "build_number"@.len() == 12);
    assert(n4.last() == "name"@ && n3.last() == "icon"@ && n2.last() == "bundle_id"@
        && n1.last() == "version"@ && names.last() == "build_number"@);
    assert(n5.filter(pred) =~= Seq::empty()) by {
        reveal(Seq::filter);
    }
    let r5 = resolved_in_turn(table, m, n5.filter(pred));
    let r4 = resolved_in_turn(table, m, n4.filter(pred));
    let r3 = resolved_in_turn(table, m, n3.filter(pred));
    let r2 = resolved_in_turn(table, m, n2.filter(pred));
    let r1 = resolved_in_turn(table, m, n1.filter(pred));
    assert(r5 == m);
    lemma_resolved_step(table, m, n4, pred);
    assert(r4 == ManifestView { name: resolved_value(table, m.name), ..m });
    lemma_resolved_step(table, m, n3, pred);
    assert(r3 == ManifestView { icon: resolved_value(table, m.icon), ..r4 });
    lemma_resolved_step(table, m, n2, pred);
    assert(r2 == ManifestView { bundle_id: resolved_value(table, m.bundle_id), ..r3 });
    lemma_resolved_step(table, m, n1, pred);
    assert(r1 == ManifestView { version: resolved_value(table, m.version), ..r2 });
    lemma_resolved_step(table, m, names, pred);
}

/// Resolves the references among the fields of `info` against `table`.
///
/// A field whose value does not look like a reference is left as it is, and
/// so is one for which the table holds no text.
pub fn parse_resource(table: &ResourceTable, info: Manifest) -> (r: Manifest)
    ensures
        r@ == resolved(table.deep_view(), info@),
{
    let mut info = info;
    let ghost start = info@;
    let res = info.check();
    let mut i: usize = 0;
    assert(crate::text::texts(res@).take(0) =~= Seq::empty());
    while i < res.len()
        invariant
            i <= res.len(),
            crate::text::texts(res@) == unresolved(start),
            info@ == resolved_in_turn(
                table.deep_view(),
                start,
                unresolved(start).take(i as int),
            ),
        decreases res.len() - i,
    {
        let key = res[i].as_str();
        proof {
            let upto = unresolved(start).take(i + 1);
            assert(upto.drop_last() =~= unresolved(start).take(i as int));
            assert(upto.last() == key@);
        }
        match find_resource_by_id(table, info.get(key)) {
            Some(v) => {
                info.set(key, v);
            },
            None => {},
        }
        i += 1;
    }
    proof {
        assert(unresolved(start).take(i as int) =~= unresolved(start));
        lemma_resolved_in_turn(table.deep_view(), start);
    }
    info
}

/// The record after an attribute of the `manifest` element: the version code
/// is the build number, the version name is the version, the package is the
/// bundle identifier and, until a label is found, the name. The first of the
/// three that stands in the attribute's name decides.
pub open spec fn after_manifest_attribute(
    m: ManifestView,
    name: Seq<char>,
    value: Seq<char>,
) -> ManifestView {
    if has_infix(name, "versionCode"@) {
        ManifestView { build_number: value, ..m }
    } else if has_infix(name, "versionName"@) {
        ManifestView { version: value, ..m }
    } else if has_infix(name, "package"@) {
        ManifestView { name: value, bundle_id: value, ..m }
    } else {
        m
    }
}

/// The record after an attribute of the `application` element: the label is
/// the name, the icon is the icon; the label decides before the icon.
pub open spec fn after_application_attribute(
    m: ManifestView,
    name: Seq<char>,
    value: Seq<char>,
) -> ManifestView {
    if has_infix(name, "label"@) {
        ManifestView { name: value, ..m }
    } else if has_infix(name, "icon"@) {
        ManifestView { icon: value, ..m }
    } else {
        m
    }
}

/// The record after the attributes of a `manifest` element, in their order.
pub open spec fn after_manifest_attributes(
    m: ManifestView,
    attributes: Seq<(Seq<char>, Seq<char>)>,
) -> ManifestView
    decreases attributes.len(),
{
    if attributes.len() == 0 {
        m
    } else {
        after_manifest_attribute(
            after_manifest_attributes(m, attributes.drop_last()),
            attributes.last().0,
            attributes.last().1,
        )
    }
}

/// The record after the attributes of an `application` element, in their
/// order.
pub open spec fn after_application_attributes(
    m: ManifestView,
    attributes: Seq<(Seq<char>, Seq<char>)>,
) -> ManifestView
    decreases attributes.len(),
{
    if attributes.len() == 0 {
        m
    } else {
        after_application_attribute(
            after_application_attributes(m, attributes.drop_last()),
            attributes.last().0,
            attributes.last().1,
        )
    }
}

/// The record after one event: only the start tags of the elements called
/// `manifest` and `application` change it.
pub open spec fn after_event(m: ManifestView, event: XmlEventView) -> ManifestView {
    match event {
        XmlEventView::StartElement { name, attributes } => if name == "manifest"@ {
            after_manifest_attributes(m, attributes)
        } else if name == "application"@ {
            after_application_attributes(m, attributes)
        } else {
            m
        },
        XmlEventView::Other => m,
    }
}

/// The record after the events, in their order.
pub open spec fn after_events(m: ManifestView, events: Seq<XmlEventView>) -> ManifestView
    decreases events.len(),
{
    if events.len() == 0 {
        m
    } else {
        after_event(after_events(m, events.drop_last()), events.last())
    }
}

/// What an XML text yields: the record that its events leave of an empty
/// one, or the error of a malformed text.
pub open spec fn scanned(text: Seq<char>) -> Result<ManifestView, Error> {
    match xml_events(text) {
        Some(events) => Ok(after_events(empty_manifest(), events)),
        None => Err(Error::ManifestDecodeError),
    }
}

/// What a decoded manifest yields, with the resource table of its package if
/// that has one.
pub open spec fn decoded(root: NodeView, table: Option<ResourceTableView>) -> Result<
    ManifestView,
    Error,
> {
    match scanned(render(root, Seq::empty())) {
        Ok(m) => match table {
            Some(t) => Ok(resolved(t, m)),
            None => Ok(m),
        },
        Err(e) => Err(e),
    }
}

/// A result with the record seen as its view.
pub open spec fn outcome(r: Result<Manifest, Error>) -> Result<ManifestView, Error> {
    match r {
        Ok(m) => Ok(m@),
        Err(e) => Err(e),
    }
}

fn scan_manifest_attributes(info: &mut Manifest, attributes: &Vec<(String, String)>)
    ensures
        final(info)@ == after_manifest_attributes(old(info)@, attributes.deep_view()),
{
    let ghost pairs = attributes.deep_view();
    let mut i: usize = 0;
    assert(pairs.take(0) =~= Seq::empty());
    while i < attributes.len()
        invariant
            i <= attributes.len(),
            pairs == attributes.deep_view(),
            info@ == after_manifest_attributes(old(info)@, pairs.take(i as int)),
        decreases attributes.len() - i,
    {
        assert(pairs.take(i + 1).drop_last() =~= pairs.take(i as int));
        assert(pairs.take(i + 1).last() == (attributes@[i as int].0@, attributes@[i as int].1@));
        let attr = attributes[i].0.as_str();
        if str_contains(attr, "versionCode") {
            info.build_number = attributes[i].1.clone();
        } else if str_contains(attr, "versionName") {
            info.version = attributes[i].1.clone();
        } else if str_contains(attr, "package") {
            info.name = attributes[i].1.clone();
            info.bundle_id = attributes[i].1.clone();
        }
        i += 1;
    }
    assert(pairs.take(i as int) =~= pairs);
}

fn scan_application_attributes(info: &mut Manifest, attributes: &Vec<(String, String)>)
    ensures
        final(info)@ == after_application_attributes(old(info)@, attributes.deep_view()),
{
    let ghost pairs = attributes.deep_view();
    let mut i: usize = 0;
    assert(pairs.take(0) =~= Seq::empty());
    while i < attributes.len()
        invariant
            i <= attributes.len(),
            pairs == attributes.deep_view(),
            info@ == after_application_attributes(old(info)@, pairs.take(i as int)),
        decreases attributes.len() - i,
    {
        assert(pairs.take(i + 1).drop_last() =~= pairs.take(i as int));
        assert(pairs.take(i + 1).last() == (attributes@[i as int].0@, attributes@[i as int].1@));
        let attr = attributes[i].0.as_str();
        if str_contains(attr, "label") {
            info.name = attributes[i].1.clone();
        } else if str_contains(attr, "icon") {
            info.icon = attributes[i].1.clone();
        }
        i += 1;
    }
    assert(pairs.take(i as int) =~= pairs);
}

/// Reads packages with a binary XML manifest.
pub struct ApkManifest {}

impl ApkManifest {
    /// The record of a package from its decoded manifest and, if the package
    /// has one, its decoded resource table.
    ///
    /// The manifest is rendered as XML text, the text is scanned, and the
    /// references among the fields are resolved against the table. Fails
    /// where the text is not well-formed XML.
    pub fn from_buffer(root: &Node, table: Option<&ResourceTable>) -> (r: Result<Manifest, Error>)
        ensures
            outcome(r) == decoded(root.deep_view(), table.deep_view()),
    {
        let text = extract_xml(root);
        match ApkManifest::from_xml(text.as_str()) {
            Ok(apk_info) => match table {
                Some(t) => Ok(parse_resource(t, apk_info)),
                None => Ok(apk_info),
            },
            Err(e) => Err(e),
        }
    }

    /// The record that the XML text of a manifest yields; its fields may hold
    /// references. Fails where the text is not well-formed XML.
    pub fn from_xml(text: &str) -> (r: Result<Manifest, Error>)
        ensures
            outcome(r) == scanned(text@),
    {
        match read_events(text) {
            Some(events) => Ok(ApkManifest::from_events(&events)),
            None => Err(Error::ManifestDecodeError),
        }
    }

    /// The record that the events of a manifest leave of an empty one.
    pub fn from_events(events: &Vec<XmlEvent>) -> (r: Manifest)
        ensures
            r@ == after_events(empty_manifest(), events.deep_view()),
    {
        let ghost views = events.deep_view();
        let mut apk_info = Manifest::default();
        let mut i: usize = 0;
        assert(views.take(0) =~= Seq::empty());
        while i < events.len()
            invariant
                i <= events.len(),
                views == events.deep_view(),
                apk_info@ == after_events(empty_manifest(), views.take(i as int)),
            decreases events.len() - i,
        {
            assert(views.take(i + 1).drop_last() =~= views.take(i as int));
            assert(views.take(i + 1).last() == events@[i as int].deep_view());
            match &events[i] {
                XmlEvent::StartElement { name, attributes } => {
                    if same_text(name.as_str(), "manifest") {
                        scan_manifest_attributes(&mut apk_info, attributes);
                    } else if same_text(name.as_str(), "application") {
                        scan_application_attributes(&mut apk_info, attributes);
                    }
                },
                XmlEvent::Other => {},
            }
            i += 1;
        }
        assert(views.take(i as int) =~= views);
        apk_info
    }
}

} // verus!
