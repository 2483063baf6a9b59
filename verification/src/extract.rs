//! The extraction of a record from a package, step by step.
//!
//! The decoders of binary XML and of resource tables may panic on malformed
//! input, which nothing in this library does. They are therefore left to the
//! caller: an extraction stops where it needs a manifest or a table decoded,
//! hands out the bytes, and goes on when it is given the result.

use vstd::prelude::*;
use crate::archive::{
    archive_files, archive_names, entry_names, open_archive, opened, read_entry, Archive,
};
use crate::encoding::{base64_text, encode_checked, is_base64_char, max_encodable};
use crate::error::Error;
use crate::locator::{
    find_containing, first_containing, has_entry, APK_ARSC_PATH, APK_META_PATH,
};
use crate::manifest::apk::{
    parse_resource, resolved, scanned, ApkManifest, ResourceTable, ResourceTableView,
};
use crate::manifest::axml::{extract_xml, render, Node, NodeView};
use crate::manifest::ipa::{located, IpaManifest};
use crate::manifest::{is_reference, Manifest, ManifestView, RESOURCE_VALUE_TYPE};
use crate::router::Loader;
use crate::text::{occurs_at, texts};

verus! {

/// An extraction that waits for the binary XML manifest to be decoded.
pub struct AwaitDocument {
    archive: Archive,
    document: Vec<u8>,
    table: Option<Vec<u8>>,
}

/// An extraction that waits for the resource table to be decoded.
pub struct AwaitTable {
    archive: Archive,
    info: Manifest,
    table: Vec<u8>,
}

/// Where an extraction stands.
pub enum Step {
    /// The manifest has to be decoded.
    Document(AwaitDocument),
    /// The resource table has to be decoded.
    Table(AwaitTable),
    /// The record is complete.
    Done(Manifest),
}

/// What [`AwaitDocument`] holds: the entries of the archive that can be
/// read, the bytes of the manifest, and the bytes of the resource table if
/// the archive has one.
pub struct AwaitDocumentView {
    pub files: Map<Seq<char>, Seq<u8>>,
    pub document: Seq<u8>,
    pub table: Option<Seq<u8>>,
}

/// What [`AwaitTable`] holds: the entries of the archive that can be read,
/// the record as the manifest gave it, and the bytes of the resource table.
pub struct AwaitTableView {
    pub files: Map<Seq<char>, Seq<u8>>,
    pub info: ManifestView,
    pub table: Seq<u8>,
}

/// What [`Step`] holds.
pub enum StepView {
    Document(AwaitDocumentView),
    Table(AwaitTableView),
    Done(ManifestView),
}

impl View for AwaitDocument {
    type V = AwaitDocumentView;

    closed spec fn view(&self) -> AwaitDocumentView {
        AwaitDocumentView {
            files: archive_files(self.archive),
            document: self.document@,
            table: match self.table {
                Some(bytes) => Some(bytes@),
                None => None,
            },
        }
    }
}

impl View for AwaitTable {
    type V = AwaitTableView;

    closed spec fn view(&self) -> AwaitTableView {
        AwaitTableView { files: archive_files(self.archive), info: self.info@, table: self.table@ }
    }
}

impl View for Step {
    type V = StepView;

    open spec fn view(&self) -> StepView {
        match self {
            Step::Document(state) => StepView::Document(state@),
            Step::Table(state) => StepView::Table(state@),
            Step::Done(manifest) => StepView::Done(manifest@),
        }
    }
}

/// A result with the step seen as its view.
pub open spec fn step_outcome(r: Result<Step, Error>) -> Result<StepView, Error> {
    match r {
        Ok(step) => Ok(step@),
        Err(e) => Err(e),
    }
}

/// A result with the record seen as its view.
pub open spec fn outcome(r: Result<Manifest, Error>) -> Result<ManifestView, Error> {
    match r {
        Ok(m) => Ok(m@),
        Err(e) => Err(e),
    }
}

/// The record `m` with the image of its icon: the entry called `entry` in
/// base64. An entry that cannot be read, or is longer than can be encoded,
/// is an error of the container.
pub open spec fn with_icon(files: Map<Seq<char>, Seq<u8>>, m: ManifestView, entry: Seq<char>)
    -> Result<ManifestView, Error> {
    if files.contains_key(entry) && files[entry].len() <= max_encodable() {
        Ok(ManifestView { icon: base64_text(files[entry]), ..m })
    } else {
        Err(Error::ContainerError)
    }
}

/// The complete record of a property list package: the manifest is located
/// and decoded, and the icon is the first entry in whose name the icon name
/// stands.
pub open spec fn extracted_ipa(names: Seq<Seq<char>>, files: Map<Seq<char>, Seq<u8>>) -> Result<
    ManifestView,
    Error,
> {
    match located(names, files) {
        Ok(m) => match first_containing(names, m.icon) {
            Some(entry) => with_icon(files, m, entry),
            None => Err(Error::ContainerError),
        },
        Err(e) => Err(e),
    }
}

/// The first step on a binary XML package: the manifest is the entry
/// [`APK_META_PATH`], the resource table the entry [`APK_ARSC_PATH`]. A
/// package may lack the table; one that is there must be readable.
pub open spec fn begun_apk(names: Seq<Seq<char>>, files: Map<Seq<char>, Seq<u8>>) -> Result<
    StepView,
    Error,
> {
    if !files.contains_key(APK_META_PATH@) {
        Err(Error::ContainerError)
    } else if !names.contains(APK_ARSC_PATH@) {
        Ok(
            StepView::Document(
                AwaitDocumentView { files, document: files[APK_META_PATH@], table: None },
            ),
        )
    } else if files.contains_key(APK_ARSC_PATH@) {
        Ok(
            StepView::Document(
                AwaitDocumentView {
                    files,
                    document: files[APK_META_PATH@],
                    table: Some(files[APK_ARSC_PATH@]),
                },
            ),
        )
    } else {
        Err(Error::ContainerError)
    }
}

/// The first step on an archive. An archive whose names cannot be listed is
/// an error of the container.
pub open spec fn begun(archive: Archive, loader: Loader) -> Result<StepView, Error> {
    match archive_names(archive) {
        Some(names) => match loader {
            Loader::Apk => begun_apk(names, archive_files(archive)),
            Loader::Ipa => match extracted_ipa(names, archive_files(archive)) {
                Ok(m) => Ok(StepView::Done(m)),
                Err(e) => Err(e),
            },
        },
        None => Err(Error::ContainerError),
    }
}

/// The first step on the bytes of a file. Bytes that hold no archive are an
/// error of the container.
pub open spec fn started(container: Seq<u8>, loader: Loader) -> Result<StepView, Error> {
    match opened(container) {
        Some(archive) => begun(archive, loader),
        None => Err(Error::ContainerError),
    }
}

/// The step after the manifest was decoded; `root` is `None` where the
/// decoder rejected the bytes or found no element in them. The manifest is
/// scanned. With a resource table the extraction waits for it; without one
/// the record is completed with the icon at the path that the manifest
/// gives.
pub open spec fn after_document(state: AwaitDocumentView, root: Option<NodeView>) -> Result<
    StepView,
    Error,
> {
    match root {
        Some(root) => match scanned(render(root, Seq::empty())) {
            Ok(info) => match state.table {
                Some(table) => Ok(
                    StepView::Table(AwaitTableView { files: state.files, info, table }),
                ),
                None => match with_icon(state.files, info, info.icon) {
                    Ok(m) => Ok(StepView::Done(m)),
                    Err(e) => Err(e),
                },
            },
            Err(e) => Err(e),
        },
        None => Err(Error::ManifestDecodeError),
    }
}

/// The record after the resource table was decoded; `table` is `None`
/// where the decoder rejected the bytes. The references are resolved, and
/// the record is completed with the icon at the path that the icon field
/// then gives.
pub open spec fn after_table(state: AwaitTableView, table: Option<ResourceTableView>) -> Result<
    ManifestView,
    Error,
> {
    match table {
        Some(table) => with_icon(
            state.files,
            resolved(table, state.info),
            resolved(table, state.info).icon,
        ),
        None => Err(Error::ResourceTableDecodeError),
    }
}

/// The complete record of a binary XML package, given what its manifest and
/// its resource table decode to; each is `None` where the decoder rejected
/// the bytes. The manifest and, if the archive has one, the resource table
/// are read; the manifest is scanned; with a table the references are
/// resolved; the image at the path that the icon field then gives is put in
/// its place.
pub open spec fn extracted_apk(
    names: Seq<Seq<char>>,
    files: Map<Seq<char>, Seq<u8>>,
    root: Option<NodeView>,
    table: Option<ResourceTableView>,
) -> Result<ManifestView, Error> {
    if !files.contains_key(APK_META_PATH@) || (names.contains(APK_ARSC_PATH@)
        && !files.contains_key(APK_ARSC_PATH@)) {
        Err(Error::ContainerError)
    } else {
        match root {
            Some(root) => match scanned(render(root, Seq::empty())) {
                Ok(info) => if names.contains(APK_ARSC_PATH@) {
                    match table {
                        Some(table) => with_icon(
                            files,
                            resolved(table, info),
                            resolved(table, info).icon,
                        ),
                        None => Err(Error::ResourceTableDecodeError),
                    }
                } else {
                    with_icon(files, info, info.icon)
                },
                Err(e) => Err(e),
            },
            None => Err(Error::ManifestDecodeError),
        }
    }
}

/// The steps on a binary XML package amount to its extraction: whichever
/// step ends the extraction, with a record or with an error, ends it as
/// [`extracted_apk`] says. The table is not asked for where the archive has
/// none.
pub proof fn lemma_steps_amount_to_extraction(
    names: Seq<Seq<char>>,
    files: Map<Seq<char>, Seq<u8>>,
    root: Option<NodeView>,
    table: Option<ResourceTableView>,
)
    ensures
        match begun_apk(names, files) {
            Ok(StepView::Document(first)) => match after_document(first, root) {
                Ok(StepView::Table(second)) => names.contains(APK_ARSC_PATH@) && after_table(
                    second,
                    table,
                ) == extracted_apk(names, files, root, table),
                Ok(StepView::Done(m)) => extracted_apk(names, files, root, table) == Ok::<
                    ManifestView,
                    Error,
                >(m),
                Ok(StepView::Document(_)) => false,
                Err(e) => extracted_apk(names, files, root, table) == Err::<ManifestView, Error>(e),
            },
            Ok(_) => false,
            Err(e) => extracted_apk(names, files, root, table) == Err::<ManifestView, Error>(e),
        },
{
}

/// Base64 text holds no reference: the mark has a colon in it.
proof fn lemma_base64_is_no_reference(text: Seq<char>)
    requires
        forall|i: int| 0 <= i < text.len() ==> is_base64_char(#[trigger] text[i]),
    ensures
        !is_reference(text),
{
    reveal_strlit("ResourceValueType::Reference/");
    if is_reference(text) {
        let at = choose|at: int| occurs_at(text, RESOURCE_VALUE_TYPE@, at);
        let window = text.subrange(at, at + RESOURCE_VALUE_TYPE@.len());
        assert(window[17] == ':');
        assert(text[at + 17] == ':');
    }
}

/// Puts the image of the icon into `info`: the entry called `entry`, in
/// base64.
fn attach_icon(archive: &mut Archive, info: Manifest, entry: &str) -> (r: Result<Manifest, Error>)
    ensures
        archive_names(*final(archive)) == archive_names(*old(archive)),
        archive_files(*final(archive)) == archive_files(*old(archive)),
        outcome(r) == with_icon(archive_files(*old(archive)), info@, entry@),
        r matches Ok(m) ==> !is_reference(m@.icon),
{
    let icon_buf = match read_entry(archive, entry) {
        Ok(bytes) => bytes,
        Err(_) => {
            return Err(Error::ContainerError);
        },
    };
    match encode_checked(&icon_buf) {
        Some(icon) => {
            proof {
                lemma_base64_is_no_reference(icon@);
            }
            let mut manifest = info;
            manifest.icon = icon;
            Ok(manifest)
        },
        None => Err(Error::ContainerError),
    }
}

fn begin_apk(archive: Archive, names: &Vec<String>) -> (r: Result<Step, Error>)
    ensures
        step_outcome(r) == begun_apk(texts(names@), archive_files(archive)),
        !(r matches Ok(Step::Done(_))),
{
    let mut archive = archive;
    let table = if has_entry(names, APK_ARSC_PATH) {
        match read_entry(&mut archive, APK_ARSC_PATH) {
            Ok(bytes) => Some(bytes),
            Err(_) => {
                return Err(Error::ContainerError);
            },
        }
    } else {
        None
    };
    match read_entry(&mut archive, APK_META_PATH) {
        Ok(document) => Ok(Step::Document(AwaitDocument { archive, document, table })),
        Err(_) => Err(Error::ContainerError),
    }
}

fn extract_ipa(archive: Archive, names: &Vec<String>) -> (r: Result<Manifest, Error>)
    ensures
        outcome(r) == extracted_ipa(texts(names@), archive_files(archive)),
        r matches Ok(m) ==> !is_reference(m@.icon),
{
    let mut archive = archive;
    let manifest = match IpaManifest::from_entries(&mut archive, names) {
        Ok(manifest) => manifest,
        Err(e) => {
            return Err(e);
        },
    };
    match find_containing(names, manifest.icon.as_str()) {
        Some(name) => attach_icon(&mut archive, manifest, name.as_str()),
        None => Err(Error::ContainerError),
    }
}

/// Opens the archive that `container` holds. Fails with
/// [`Error::ContainerError`] where it holds none.
pub fn open_container(container: Vec<u8>) -> (r: Result<Archive, Error>)
    ensures
        match r {
            Ok(archive) => opened(container@) == Some(archive),
            Err(e) => e == Error::ContainerError && opened(container@) is None,
        },
{
    match open_archive(container) {
        Ok(archive) => Ok(archive),
        Err(_) => Err(Error::ContainerError),
    }
}

/// Begins the extraction of the record of the package that `container`
/// holds, read as `loader` says.
///
/// A property list package is read to the end. A binary XML package is read
/// up to the bytes of its manifest, which the caller decodes.
///
/// Fails with [`Error::ContainerError`] where `container` holds no archive
/// or an entry that is needed is missing or cannot be read, and with
/// [`Error::ManifestDecodeError`] where a property list manifest cannot be
/// decoded. The icon of a complete record is an image in base64, never a
/// reference.
pub fn get_from_path(container: Vec<u8>, loader: Loader) -> (r: Result<Step, Error>)
    ensures
        step_outcome(r) == started(container@, loader),
        r matches Ok(Step::Done(m)) ==> !is_reference(m@.icon),
{
    let archive = match open_container(container) {
        Ok(archive) => archive,
        Err(e) => {
            return Err(e);
        },
    };
    let names = match entry_names(&archive) {
        Ok(names) => names,
        Err(_) => {
            return Err(Error::ContainerError);
        },
    };
    match loader {
        Loader::Apk => begin_apk(archive, &names),
        Loader::Ipa => match extract_ipa(archive, &names) {
            Ok(manifest) => Ok(Step::Done(manifest)),
            Err(e) => Err(e),
        },
    }
}

impl AwaitDocument {
    /// The bytes of the manifest, to be decoded as binary XML.
    pub fn document(&self) -> (r: &Vec<u8>)
        ensures
            r@ == self@.document,
    {
        &self.document
    }

    /// Goes on with the decoded manifest; `root` is `None` where the bytes
    /// could not be decoded or hold no element.
    ///
    /// Fails with [`Error::ManifestDecodeError`] where `root` is `None` or
    /// the text of the manifest is not well-formed XML, and with
    /// [`Error::ContainerError`] where the package has no resource table and
    /// its icon is missing or cannot be read.
    pub fn resume(self, root: Option<Node>) -> (r: Result<Step, Error>)
        ensures
            step_outcome(r) == after_document(self@, root.deep_view()),
            r matches Ok(Step::Done(m)) ==> !is_reference(m@.icon),
    {
        let AwaitDocument { archive, document, table } = self;
        let mut archive = archive;
        let root = match root {
            Some(root) => root,
            None => {
                return Err(Error::ManifestDecodeError);
            },
        };
        let info = match ApkManifest::from_xml(extract_xml(&root).as_str()) {
            Ok(info) => info,
            Err(e) => {
                return Err(e);
            },
        };
        match table {
            Some(table) => Ok(Step::Table(AwaitTable { archive, info, table })),
            None => {
                let path = info.icon.clone();
                match attach_icon(&mut archive, info, path.as_str()) {
                    Ok(manifest) => Ok(Step::Done(manifest)),
                    Err(e) => Err(e),
                }
            },
        }
    }
}

impl AwaitTable {
    /// The bytes of the resource table, to be decoded.
    pub fn table(&self) -> (r: &Vec<u8>)
        ensures
            r@ == self@.table,
    {
        &self.table
    }

    /// Completes the record with the decoded resource table; `table` is
    /// `None` where the bytes could not be decoded.
    ///
    /// Fails with [`Error::ResourceTableDecodeError`] where `table` is
    /// `None`, and with [`Error::ContainerError`] where the icon is missing
    /// or cannot be read. The icon of the record is an image in base64,
    /// never a reference.
    pub fn resume(self, table: Option<ResourceTable>) -> (r: Result<Manifest, Error>)
        ensures
            outcome(r) == after_table(self@, table.deep_view()),
            r matches Ok(m) ==> !is_reference(m@.icon),
    {
        let AwaitTable { archive, info, table: _ } = self;
        let mut archive = archive;
        let table = match table {
            Some(table) => table,
            None => {
                return Err(Error::ResourceTableDecodeError);
            },
        };
        let info = parse_resource(&table, info);
        let path = info.icon.clone();
        attach_icon(&mut archive, info, path.as_str())
    }
}

} // verus!
