//! Which kind of package a file holds, by the extension of its name.

use vstd::prelude::*;
use crate::error::Error;
use crate::manifest::apk::APK_EXT;
use crate::manifest::ipa::IPA_EXT;
use crate::text::{chars_of, ends_with_at, find_last, last_index};

verus! {

/// The two kinds of package, named by the way in which each is read.
#[derive(Clone, Copy, Debug, PartialEq, Eq, Structural)]
pub enum Loader {
    /// A package with a property list manifest.
    Ipa,
    /// A package with a binary XML manifest and a resource table.
    Apk,
}

/// The name of the file that a path leads to: what follows the last `/`.
pub open spec fn file_name(path: Seq<char>) -> Seq<char> {
    match last_index(path, '/') {
        Some(i) => path.skip(i + 1),
        None => path,
    }
}

/// The extension of the file that a path leads to: what follows the last
/// `.` of the file's name, unless the name begins with that `.` or holds
/// none.
pub open spec fn extension(path: Seq<char>) -> Option<Seq<char>> {
    let name = file_name(path);
    match last_index(name, '.') {
        Some(i) => if i > 0 {
            Some(name.skip(i + 1))
        } else {
            None
        },
        None => None,
    }
}

/// The loader for a path: the extension decides, letter for letter.
pub open spec fn loader_of(path: Seq<char>) -> Result<Loader, Error> {
    match extension(path) {
        Some(ext) => if ext == IPA_EXT@ {
            Ok(Loader::Ipa)
        } else if ext == APK_EXT@ {
            Ok(Loader::Apk)
        } else {
            Err(Error::InvalidFile)
        },
        None => Err(Error::InvalidFile),
    }
}

/// What follows the last `c` does not move it.
proof fn lemma_last_index_before(a: Seq<char>, b: Seq<char>, c: char)
    requires
        !b.contains(c),
    ensures
        last_index(a + b, c) == last_index(a, c),
    decreases b.len(),
{
    if b.len() == 0 {
        assert(a + b =~= a);
    } else {
        assert(b.last() != c) by {
            assert(b[b.len() - 1] == b.last());
        }
        assert((a + b).drop_last() =~= a + b.drop_last());
        assert(!b.drop_last().contains(c)) by {
            if b.drop_last().contains(c) {
                let i = choose|i: int| 0 <= i < b.drop_last().len() && b.drop_last()[i] == c;
                assert(b[i] == c);
            }
        }
        lemma_last_index_before(a, b.drop_last(), c);
    }
}

/// The last `c` is found where it stands.
proof fn lemma_last_index_at(a: Seq<char>, b: Seq<char>, c: char)
    requires
        !b.contains(c),
    ensures
        last_index(a.push(c) + b, c) == Some(a.len() as int),
{
    lemma_last_index_before(a.push(c), b, c);
}

/// The last `c` stands within the sequence.
proof fn lemma_last_index_bound(s: Seq<char>, c: char)
    ensures
        last_index(s, c) matches Some(i) ==> 0 <= i < s.len() && s[i] == c,
    decreases s.len(),
{
    if s.len() > 0 && s.last() != c {
        lemma_last_index_bound(s.drop_last(), c);
    }
}

/// A file name that ends in a `.` and an extension, with something before
/// the `.`, has that extension.
pub proof fn lemma_extension_decides(stem: Seq<char>, ext: Seq<char>)
    requires
        stem.len() > 0,
        stem.last() != '/',
        !ext.contains('.'),
        !ext.contains('/'),
    ensures
        extension(stem.push('.') + ext) == Some(ext),
{
    let path = stem.push('.') + ext;
    let tail = seq!['.'] + ext;
    assert(path =~= stem + tail);
    assert(!tail.contains('/')) by {
        if tail.contains('/') {
            let i = choose|i: int| 0 <= i < tail.len() && tail[i] == '/';
            assert(ext[i - 1] == '/');
        }
    }
    lemma_last_index_before(stem, tail, '/');
    lemma_last_index_bound(stem, '/');
    let base = file_name(stem);
    assert(base.len() > 0 && file_name(path) =~= base.push('.') + ext) by {
        match last_index(stem, '/') {
            Some(i) => {
                assert(i < stem.len() - 1);
                assert(path.skip(i + 1) =~= stem.skip(i + 1).push('.') + ext);
            },
            None => {},
        }
    }
    lemma_last_index_at(base, ext, '.');
    assert((base.push('.') + ext).skip(base.len() as int + 1) =~= ext);
}

/// A path that ends in `.ipa` behind the beginning of a file name is
/// loaded as a property list package, one that ends in `.apk` as a binary
/// XML package.
pub proof fn lemma_known_extensions(stem: Seq<char>)
    requires
        stem.len() > 0,
        stem.last() != '/',
    ensures
        loader_of(stem.push('.') + IPA_EXT@) == Ok::<Loader, Error>(Loader::Ipa),
        loader_of(stem.push('.') + APK_EXT@) == Ok::<Loader, Error>(Loader::Apk),
{
    reveal_strlit("ipa");
    reveal_strlit("apk");
    assert(IPA_EXT@ != APK_EXT@) by {
        assert(IPA_EXT@[0] != APK_EXT@[0]);
    }
    lemma_extension_decides(stem, IPA_EXT@);
    lemma_extension_decides(stem, APK_EXT@);
}

/// The loader for the file at `path`.
///
/// Fails with [`Error::InvalidFile`] where the extension is neither
/// [`IPA_EXT`] nor [`APK_EXT`], and where the path has no extension.
pub fn get_loaders(path: &str) -> (r: Result<Loader, Error>)
    ensures
        r == loader_of(path@),
{
    let chars = chars_of(path);
    assert(chars@.skip(0) =~= chars@);
    let start: usize = match find_last(&chars, 0, '/') {
        Some(i) => i + 1,
        None => 0,
    };
    assert(file_name(path@) =~= chars@.skip(start as int));
    let dot: usize = match find_last(&chars, start, '.') {
        Some(i) => i,
        None => {
            return Err(Error::InvalidFile);
        },
    };
    if dot == start {
        return Err(Error::InvalidFile);
    }
    assert(chars@.skip(start as int).skip(dot - start + 1) =~= chars@.skip(dot + 1));
    let ipa = chars_of(IPA_EXT);
    let apk = chars_of(APK_EXT);
    if ends_with_at(&chars, &ipa, dot + 1) {
        Ok(Loader::Ipa)
    } else if ends_with_at(&chars, &apk, dot + 1) {
        Ok(Loader::Apk)
    } else {
        Err(Error::InvalidFile)
    }
}

} // verus!
