//! Packages with a property list manifest.

use vstd::prelude::*;
use vstd::string::*;
use crate::archive::{archive_files, archive_names, entry_names, read_entry, Archive};
use crate::error::Error;
use crate::locator::{find_manifest, first_manifest};
use crate::text::{same_text, texts};
use super::property_list::{
    convert_value, lemma_array_view, lemma_dictionary_view, parse_plist, plist_document, PlistValue,
    PlistView,
};
use super::{Manifest, ManifestView};

verus! {

/// The extension of the files that hold such a package.
pub const IPA_EXT: &'static str = "ipa";

/// The icon name of a manifest that names no icon file.
pub const DEFAULT_ICON: &'static str = ".app/Icon.png";

/// The value under `key` in a dictionary: that of the first entry with the
/// key.
pub open spec fn entry(entries: Seq<(Seq<char>, PlistView)>, key: Seq<char>) -> Option<PlistView>
    decreases entries.len(),
{
    if entries.len() == 0 {
        None
    } else if entries[0].0 == key {
        Some(entries[0].1)
    } else {
        entry(entries.drop_first(), key)
    }
}

/// The string under `key` in a dictionary, if there is one.
pub open spec fn text_entry(entries: Seq<(Seq<char>, PlistView)>, key: Seq<char>) -> Option<
    Seq<char>,
> {
    match entry(entries, key) {
        Some(PlistView::String(text)) => Some(text),
        _ => None,
    }
}

/// The icon name that a description of the icons gives: the last of the icon
/// files of the primary icon, if the description is a dictionary that holds
/// under `CFBundlePrimaryIcon` a dictionary that holds under
/// `CFBundleIconFiles` an array whose last item is a string; else
/// [`DEFAULT_ICON`].
pub open spec fn icon_name(icons: Option<PlistView>) -> Seq<char> {
    match icons {
        Some(PlistView::Dictionary(icon)) => match entry(icon, "CFBundlePrimaryIcon"@) {
            Some(PlistView::Dictionary(primary)) => match entry(primary, "CFBundleIconFiles"@) {
                Some(PlistView::Array(files)) => if files.len() > 0 {
                    match files.last() {
                        PlistView::String(name) => name,
                        _ => DEFAULT_ICON@,
                    }
                } else {
                    DEFAULT_ICON@
                },
                _ => DEFAULT_ICON@,
            },
            _ => DEFAULT_ICON@,
        },
        _ => DEFAULT_ICON@,
    }
}

/// A description of the icons that is missing, or is a dictionary without
/// the primary icon, gives the default icon name.
pub proof fn lemma_default_icon_name(icons: Option<PlistView>)
    requires
        icons matches Some(value) ==> value matches PlistView::Dictionary(entries) && entry(
            entries,
            "CFBundlePrimaryIcon"@,
        ) is None,
    ensures
        icon_name(icons) == DEFAULT_ICON@,
{
}

/// The record that a manifest yields. The manifest is a dictionary; the
/// display name, the identifier, the short version string and the version
/// are strings that it must hold; the description of the icons may be
/// missing. The icon of the record is the icon name.
pub open spec fn manifest_of(document: PlistView) -> Result<ManifestView, Error> {
    match document {
        PlistView::Dictionary(entries) => match (
            text_entry(entries, "CFBundleDisplayName"@),
            text_entry(entries, "CFBundleIdentifier"@),
            text_entry(entries, "CFBundleShortVersionString"@),
            text_entry(entries, "CFBundleVersion"@),
        ) {
            (Some(name), Some(bundle_id), Some(version), Some(build_number)) => Ok(
                ManifestView {
                    name,
                    icon: icon_name(entry(entries, "CFBundleIcons"@)),
                    bundle_id,
                    version,
                    build_number,
                },
            ),
            _ => Err(Error::ManifestDecodeError),
        },
        _ => Err(Error::ManifestDecodeError),
    }
}

/// The record that the bytes of a manifest yield.
pub open spec fn decoded(bytes: Seq<u8>) -> Result<ManifestView, Error> {
    match plist_document(bytes) {
        Some(document) => manifest_of(document),
        None => Err(Error::ManifestDecodeError),
    }
}


fn get<'a>(entries: &'a Vec<(String, PlistValue)>, key: &str) -> (r: Option<&'a PlistValue>)
    ensures
        match r {
            Some(value) => entry(entries.deep_view(), key@) == Some(value.deep_view()),
            None => entry(entries.deep_view(), key@) is None,
        },
{
    let ghost pairs = entries.deep_view();
    let mut i: usize = 0;
    assert(pairs.skip(0) =~= pairs);
    while i < entries.len()
        invariant
            i <= entries.len(),
            pairs == entries.deep_view(),
            entry(pairs, key@) == entry(pairs.skip(i as int), key@),
        decreases entries.len() - i,
    {
        assert(pairs.skip(i as int)[0] == (
            entries@[i as int].0@,
            entries@[i as int].1.deep_view(),
        ));
        if same_text(entries[i].0.as_str(), key) {
            return Some(&entries[i].1);
        }
        assert(pairs.skip(i as int).drop_first() =~= pairs.skip(i + 1));
        i += 1;
    }
    None
}

fn get_text(entries: &Vec<(String, PlistValue)>, key: &str) -> (r: Option<String>)
    ensures
        match r {
            Some(text) => text_entry(entries.deep_view(), key@) == Some(text@),
            None => text_entry(entries.deep_view(), key@) is None,
        },
{
    match get(entries, key) {
        Some(PlistValue::String(text)) => Some(text.clone()),
        _ => None,
    }
}

/// The icon name that the description `data` of the icons gives.
pub fn find_ipa_icon_path(data: Option<&PlistValue>) -> (r: String)
    ensures
        r@ == icon_name(
            match data {
                Some(icons) => Some(icons.deep_view()),
                None => None,
            },
        ),
{
    let mut str = String::from_str(DEFAULT_ICON);
    if let Some(PlistValue::Dictionary(icon)) = data {
        proof {
            lemma_dictionary_view(*icon);
        }
        if let Some(PlistValue::Dictionary(icons)) = get(icon, "CFBundlePrimaryIcon") {
            proof {
                lemma_dictionary_view(*icons);
            }
            if let Some(PlistValue::Array(icons)) = get(icons, "CFBundleIconFiles") {
                proof {
                    lemma_array_view(*icons);
                }
                if icons.len() > 0 {
                    if let PlistValue::String(name) = &icons[icons.len() - 1] {
                        str = name.clone();
                    }
                }
            }
        }
    }
    str
}

/// Reads packages with a property list manifest.
pub struct IpaManifest {}

/// A result with the record seen as its view.
pub open spec fn outcome(r: Result<Manifest, Error>) -> Result<ManifestView, Error> {
    match r {
        Ok(m) => Ok(m@),
        Err(e) => Err(e),
    }
}

/// The record that the manifest among the entries yields: the first entry
/// that is a property list manifest is read and decoded.
pub open spec fn located(names: Seq<Seq<char>>, files: Map<Seq<char>, Seq<u8>>) -> Result<
    ManifestView,
    Error,
> {
    match first_manifest(names) {
        Some(name) => if files.contains_key(name) {
            decoded(files[name])
        } else {
            Err(Error::ContainerError)
        },
        None => Err(Error::ContainerError),
    }
}

/// The record that the manifest in an archive yields.
pub open spec fn from_archive(archive: Archive) -> Result<ManifestView, Error> {
    match archive_names(archive) {
        Some(names) => located(names, archive_files(archive)),
        None => Err(Error::ContainerError),
    }
}

/// Decoding the same bytes again gives the same record, or fails alike.
pub proof fn lemma_decoding_repeats(
    bytes: Seq<u8>,
    first: Result<Manifest, Error>,
    second: Result<Manifest, Error>,
)
    requires
        outcome(first) == decoded(bytes),
        outcome(second) == decoded(bytes),
    ensures
        outcome(first) == outcome(second),
{
}

impl IpaManifest {
    /// The record of a package from the bytes of its manifest. Fails where
    /// the bytes are no property list, or the list is no manifest.
    pub fn from_buffer(buf: Vec<u8>) -> (r: Result<Manifest, Error>)
        ensures
            outcome(r) == decoded(buf@),
    {
        match parse_plist(buf.as_slice()) {
            Some(value) => IpaManifest::from_plist(&convert_value(&value)),
            None => Err(Error::ManifestDecodeError),
        }
    }

    /// The record of the package in `archive`, its icon being the icon name.
    ///
    /// Fails with [`Error::ContainerError`] where the names of the archive
    /// cannot be listed, none is a property list manifest, or the manifest
    /// cannot be read; and as [`IpaManifest::from_buffer`] does.
    pub fn from_file(archive: &mut Archive) -> (r: Result<Manifest, Error>)
        ensures
            archive_names(*final(archive)) == archive_names(*old(archive)),
            archive_files(*final(archive)) == archive_files(*old(archive)),
            outcome(r) == from_archive(*old(archive)),
    {
        match entry_names(archive) {
            Ok(names) => IpaManifest::from_entries(archive, &names),
            Err(_) => Err(Error::ContainerError),
        }
    }

    /// The record of the package in `archive`, whose entries are called
    /// `names`.
    pub(crate) fn from_entries(archive: &mut Archive, names: &Vec<String>) -> (r: Result<
        Manifest,
        Error,
    >)
        ensures
            archive_names(*final(archive)) == archive_names(*old(archive)),
            archive_files(*final(archive)) == archive_files(*old(archive)),
            outcome(r) == located(texts(names@), archive_files(*old(archive))),
    {
        let name = match find_manifest(names) {
            Some(name) => name,
            None => {
                return Err(Error::ContainerError);
            },
        };
        match read_entry(archive, name.as_str()) {
            Ok(buf) => IpaManifest::from_buffer(buf),
            Err(_) => Err(Error::ContainerError),
        }
    }

    /// The record of a package from its decoded manifest. Fails where the
    /// manifest is no dictionary, or lacks one of the four strings.
    pub fn from_plist(document: &PlistValue) -> (r: Result<Manifest, Error>)
        ensures
            outcome(r) == manifest_of(document.deep_view()),
    {
        let entries = match document {
            PlistValue::Dictionary(entries) => entries,
            _ => {
                return Err(Error::ManifestDecodeError);
            },
        };
        proof {
            lemma_dictionary_view(*entries);
        }
        let name = get_text(entries, "CFBundleDisplayName");
        let bundle_id = get_text(entries, "CFBundleIdentifier");
        let version = get_text(entries, "CFBundleShortVersionString");
        let build_number = get_text(entries, "CFBundleVersion");
        match (name, bundle_id, version, build_number) {
            (Some(name), Some(bundle_id), Some(version), Some(build_number)) => {
                let icon = find_ipa_icon_path(get(entries, "CFBundleIcons"));
                Ok(Manifest { name, icon, bundle_id, version, build_number })
            },
            _ => Err(Error::ManifestDecodeError),
        }
    }
}

} // verus!
