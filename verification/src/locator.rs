//! Finding the entries of a package among the names of an archive.

use vstd::prelude::*;
use crate::text::{chars_of, has_infix, matches_at, occurs_at, same_text, str_contains, texts};

verus! {

/// The entry that holds the binary XML manifest.
pub const APK_META_PATH: &'static str = "AndroidManifest.xml";

/// The entry that holds the resource table.
pub const APK_ARSC_PATH: &'static str = "resources.arsc";

/// The directory at the top of the archive under which the application lies.
pub const PAYLOAD_DIR: &'static str = "Payload/";

/// What the name of the property list manifest ends in: the end of the name
/// of the application's directory, and the name of the file in it.
pub const MANIFEST_TAIL: &'static str = ".app/Info.plist";

/// Whether an entry is the property list manifest: it lies in a directory
/// directly under [`PAYLOAD_DIR`], the name of that directory ends in `.app`
/// behind one character at least, and the file is called `Info.plist`.
pub open spec fn is_manifest_entry(name: Seq<char>) -> bool {
    &&& name.len() > PAYLOAD_DIR@.len() + MANIFEST_TAIL@.len()
    &&& occurs_at(name, PAYLOAD_DIR@, 0)
    &&& occurs_at(name, MANIFEST_TAIL@, name.len() - MANIFEST_TAIL@.len())
    &&& forall|i: int|
        PAYLOAD_DIR@.len() <= i < name.len() - MANIFEST_TAIL@.len() ==> name[i] != '/'
}

/// The first of the names that is a property list manifest.
pub open spec fn first_manifest(names: Seq<Seq<char>>) -> Option<Seq<char>>
    decreases names.len(),
{
    if names.len() == 0 {
        None
    } else if is_manifest_entry(names[0]) {
        Some(names[0])
    } else {
        first_manifest(names.drop_first())
    }
}

/// The first of the names in which `part` stands.
pub open spec fn first_containing(names: Seq<Seq<char>>, part: Seq<char>) -> Option<Seq<char>>
    decreases names.len(),
{
    if names.len() == 0 {
        None
    } else if has_infix(names[0], part) {
        Some(names[0])
    } else {
        first_containing(names.drop_first(), part)
    }
}

/// Whether the entry called `name` is the property list manifest.
pub fn is_manifest_path(name: &str) -> (r: bool)
    ensures
        r == is_manifest_entry(name@),
{
    let chars = chars_of(name);
    let head = chars_of(PAYLOAD_DIR);
    let tail = chars_of(MANIFEST_TAIL);
    if chars.len() < head.len() || chars.len() - head.len() <= tail.len() {
        return false;
    }
    let end: usize = chars.len() - tail.len();
    if !matches_at(&chars, &head, 0) || !matches_at(&chars, &tail, end) {
        return false;
    }
    let mut i: usize = head.len();
    while i < end
        invariant
            head.len() <= i <= end,
            end == chars.len() - tail.len(),
            chars@ == name@,
            head@ == PAYLOAD_DIR@,
            tail@ == MANIFEST_TAIL@,
            forall|j: int| head.len() <= j < i ==> chars@[j] != '/',
        decreases end - i,
    {
        if chars[i] == '/' {
            assert(name@[i as int] == '/');
            return false;
        }
        i += 1;
    }
    true
}

/// The name of the first entry that is the property list manifest.
pub fn find_manifest(names: &Vec<String>) -> (r: Option<String>)
    ensures
        match r {
            Some(name) => first_manifest(texts(names@)) == Some(name@),
            None => first_manifest(texts(names@)) is None,
        },
{
    let mut i: usize = 0;
    assert(texts(names@).skip(0) =~= texts(names@));
    while i < names.len()
        invariant
            i <= names.len(),
            first_manifest(texts(names@)) == first_manifest(texts(names@).skip(i as int)),
        decreases names.len() - i,
    {
        if is_manifest_path(names[i].as_str()) {
            return Some(names[i].clone());
        }
        assert(texts(names@).skip(i as int).drop_first() =~= texts(names@).skip(i + 1));
        i += 1;
    }
    None
}

/// The name of the first entry in whose name `part` stands.
pub fn find_containing(names: &Vec<String>, part: &str) -> (r: Option<String>)
    ensures
        match r {
            Some(name) => first_containing(texts(names@), part@) == Some(name@),
            None => first_containing(texts(names@), part@) is None,
        },
{
    let mut i: usize = 0;
    assert(texts(names@).skip(0) =~= texts(names@));
    while i < names.len()
        invariant
            i <= names.len(),
            first_containing(texts(names@), part@) == first_containing(
                texts(names@).skip(i as int),
                part@,
            ),
        decreases names.len() - i,
    {
        if str_contains(names[i].as_str(), part) {
            return Some(names[i].clone());
        }
        assert(texts(names@).skip(i as int).drop_first() =~= texts(names@).skip(i + 1));
        i += 1;
    }
    None
}

/// Whether one of the entries is called `name`.
pub fn has_entry(names: &Vec<String>, name: &str) -> (r: bool)
    ensures
        r == texts(names@).contains(name@),
{
    let mut i: usize = 0;
    while i < names.len()
        invariant
            i <= names.len(),
            forall|j: int| 0 <= j < i ==> texts(names@)[j] != name@,
        decreases names.len() - i,
    {
        if same_text(names[i].as_str(), name) {
            assert(texts(names@)[i as int] == name@);
            return true;
        }
        i += 1;
    }
    false
}

} // verus!
