//! The record that an extraction fills, and access to its fields by name.

use vstd::prelude::*;
use vstd::string::*;
use crate::text::{has_infix, str_contains, same_text, texts};

pub mod apk;
pub mod axml;
pub mod events;
pub mod ipa;
pub mod property_list;

pub use apk::{ApkManifest, APK_EXT};
pub use ipa::{IpaManifest, IPA_EXT};

verus! {

/// The mark of a value that stands for an entry of the resource table: the
/// decimal text of a packed resource identifier follows it.
pub const RESOURCE_VALUE_TYPE: &'static str = "ResourceValueType::Reference/";

/// What is known of an application package.
#[derive(Debug, PartialEq, Eq)]
pub struct Manifest {
    /// The name shown to the user.
    pub name: String,
    /// The icon: while a package is read, the path or name under which its
    /// image is looked up; in a finished record, the image in base64.
    pub icon: String,
    /// The identifier in reverse domain notation.
    pub bundle_id: String,
    /// The version as shown to the user.
    pub version: String,
    /// The build, kept as text.
    pub build_number: String,
}

/// A [`Manifest`] as five character sequences.
pub struct ManifestView {
    pub name: Seq<char>,
    pub icon: Seq<char>,
    pub bundle_id: Seq<char>,
    pub version: Seq<char>,
    pub build_number: Seq<char>,
}

impl View for Manifest {
    type V = ManifestView;

    open spec fn view(&self) -> ManifestView {
        ManifestView {
            name: self.name@,
            icon: self.icon@,
            bundle_id: self.bundle_id@,
            version: self.version@,
            build_number: self.build_number@,
        }
    }
}

/// The record with every field empty.
pub open spec fn empty_manifest() -> ManifestView {
    ManifestView {
        name: Seq::empty(),
        icon: Seq::empty(),
        bundle_id: Seq::empty(),
        version: Seq::empty(),
        build_number: Seq::empty(),
    }
}

/// The names of the fields, in the order in which they are walked.
pub open spec fn field_names() -> Seq<Seq<char>> {
    seq!["name"@, "icon"@, "bundle_id"@, "version"@, "build_number"@]
}

/// The field of `m` called `key`; empty where no field has that name.
pub open spec fn field(m: ManifestView, key: Seq<char>) -> Seq<char> {
    if key == "name"@ {
        m.name
    } else if key == "icon"@ {
        m.icon
    } else if key == "bundle_id"@ {
        m.bundle_id
    } else if key == "version"@ {
        m.version
    } else if key == "build_number"@ {
        m.build_number
    } else {
        Seq::empty()
    }
}

/// `m` with the field called `key` replaced by `val`; `m` itself where no
/// field has that name.
pub open spec fn with_field(m: ManifestView, key: Seq<char>, val: Seq<char>) -> ManifestView {
    if key == "name"@ {
        ManifestView { name: val, ..m }
    } else if key == "icon"@ {
        ManifestView { icon: val, ..m }
    } else if key == "bundle_id"@ {
        ManifestView { bundle_id: val, ..m }
    } else if key == "version"@ {
        ManifestView { version: val, ..m }
    } else if key == "build_number"@ {
        ManifestView { build_number: val, ..m }
    } else {
        m
    }
}

/// Whether a value looks like a reference that has not been resolved: the
/// mark stands somewhere in it.
pub open spec fn is_reference(value: Seq<char>) -> bool {
    has_infix(value, RESOURCE_VALUE_TYPE@)
}

/// The names of the fields of `m` whose values look like references.
pub open spec fn unresolved(m: ManifestView) -> Seq<Seq<char>> {
    field_names().filter(|key: Seq<char>| is_reference(field(m, key)))
}

impl Default for Manifest {
    fn default() -> (r: Manifest)
        ensures
            r@ == empty_manifest(),
    {
        Manifest {
            name: String::new(),
            icon: String::new(),
            bundle_id: String::new(),
            version: String::new(),
            build_number: String::new(),
        }
    }
}

impl Clone for Manifest {
    fn clone(&self) -> (r: Manifest)
        ensures
            r@ == self@,
    {
        Manifest {
            name: self.name.clone(),
            icon: self.icon.clone(),
            bundle_id: self.bundle_id.clone(),
            version: self.version.clone(),
            build_number: self.build_number.clone(),
        }
    }
}

/// Whether `value` looks like a reference that has not been resolved.
pub fn looks_unresolved(value: &str) -> (r: bool)
    ensures
        r == is_reference(value@),
{
    str_contains(value, RESOURCE_VALUE_TYPE)
}

impl Manifest {
    /// The names of the fields whose values look like unresolved references.
    pub fn check(&self) -> (r: Vec<String>)
        ensures
            texts(r@) == unresolved(self@),
    {
        let keys = self.keys();
        let ghost pred = |key: Seq<char>| is_reference(field(self@, key));
        let mut r: Vec<String> = Vec::new();
        let mut i: usize = 0;
        proof {
            reveal(Seq::filter);
            assert(field_names().take(0) =~= Seq::empty());
            assert(texts(r@) =~= field_names().take(0).filter(pred));
        }
        while i < keys.len()
            invariant
                i <= keys.len(),
                texts(keys@) == field_names(),
                pred == |key: Seq<char>| is_reference(field(self@, key)),
                texts(r@) == field_names().take(i as int).filter(pred),
            decreases keys.len() - i,
        {
            let value = self.get(keys[i].as_str());
            let found = looks_unresolved(value.as_str());
            proof {
                reveal(Seq::filter);
                let upto = field_names().take(i + 1);
                assert(upto.drop_last() =~= field_names().take(i as int));
                assert(upto.last() == keys@[i as int]@);
                assert(texts(keys@)[i as int] == keys@[i as int]@);
            }
            if found {
                let key = keys[i].clone();
                proof {
                    assert(texts(r@.push(key)) =~= texts(r@).push(key@));
                }
                r.push(key);
            }
            i += 1;
        }
        proof {
            assert(field_names().take(i as int) =~= field_names());
        }
        r
    }

    /// The names of the fields.
    pub fn keys(&self) -> (r: Vec<String>)
        ensures
            texts(r@) == field_names(),
    {
        let mut r: Vec<String> = Vec::new();
        r.push(String::from_str("name"));
        r.push(String::from_str("icon"));
        r.push(String::from_str("bundle_id"));
        r.push(String::from_str("version"));
        r.push(String::from_str("build_number"));
        assert(texts(r@) =~= field_names());
        r
    }

    /// A copy of the field called `key`; the empty string where no field has
    /// that name.
    pub fn get(&self, key: &str) -> (r: String)
        ensures
            r@ == field(self@, key@),
    {
        if same_text(key, "name") {
            self.name.clone()
        } else if same_text(key, "icon") {
            self.icon.clone()
        } else if same_text(key, "bundle_id") {
            self.bundle_id.clone()
        } else if same_text(key, "version") {
            self.version.clone()
        } else if same_text(key, "build_number") {
            self.build_number.clone()
        } else {
            String::new()
        }
    }

    /// Puts `val` into the field called `key`; does nothing where no field
    /// has that name.
    pub fn set(&mut self, key: &str, val: String)
        ensures
            final(self)@ == with_field(old(self)@, key@, val@),
    {
        if same_text(key, "name") {
            self.name = val;
        } else if same_text(key, "icon") {
            self.icon = val;
        } else if same_text(key, "bundle_id") {
            self.bundle_id = val;
        } else if same_text(key, "version") {
            self.version = val;
        } else if same_text(key, "build_number") {
            self.build_number = val;
        }
    }
}

} // verus!
