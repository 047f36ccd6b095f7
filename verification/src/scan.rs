//! Per-file decisions of the directory walk: which files are acted on
//! (`.zip` and `.xml`, case-insensitive), the base name used both for key
//! search and as the copied file's name, and the composition of key
//! extraction with classification for one filename.

use vstd::prelude::*;

use crate::classify::{classify, classify_spec, Destination};
use crate::dates::Date;
use crate::key::{find_key, has_key_run, key_run_at};

verus! {

/// The part of `s` after its last path separator (`s` itself when it has
/// none): the file's base name.
pub open spec fn basename_spec(s: Seq<u8>) -> Seq<u8>
    decreases s.len(),
{
    if s.len() == 0 {
        s
    } else if s[s.len() - 1] == 47u8 {
        Seq::empty()
    } else {
        basename_spec(s.drop_last()).push(s[s.len() - 1])
    }
}

/// `basename_spec(s)` is the suffix of `s` after position `i`, whenever `i`
/// sits just past the last separator and no separator follows.
pub proof fn lemma_basename_suffix(s: Seq<u8>, i: int)
    requires
        0 <= i <= s.len(),
        i == 0 || s[i - 1] == 47u8,
        forall|k: int| i <= k < s.len() ==> s[k] != 47u8,
    ensures
        basename_spec(s) == s.subrange(i, s.len() as int),
    decreases s.len(),
{
    if s.len() == i {
        if i > 0 {
            assert(s[s.len() - 1] == 47u8);
        }
        assert(basename_spec(s) =~= s.subrange(i, s.len() as int));
    } else {
        assert(s[s.len() - 1] != 47u8);
        lemma_basename_suffix(s.drop_last(), i);
        assert(basename_spec(s) =~= s.subrange(i, s.len() as int));
    }
}

/// Returns the base name of `path`: the bytes after the last `/`.
pub fn basename(path: &[u8]) -> (r: Vec<u8>)
    ensures
        r@ == basename_spec(path@),
{
    let n = path.len();
    let mut i: usize = n;
    while i > 0 && path[i - 1] != 47
        invariant
            n == path@.len(),
            0 <= i <= n,
            forall|k: int| i <= k < n ==> path@[k] != 47u8,
        decreases i,
    {
        i = i - 1;
    }
    proof {
        lemma_basename_suffix(path@, i as int);
    }
    let mut out: Vec<u8> = Vec::new();
    let mut k: usize = i;
    while k < n
        invariant
            n == path@.len(),
            i <= k <= n,
            out@ == path@.subrange(i as int, k as int),
        decreases n - k,
    {
        out.push(path[k]);
        k = k + 1;
        proof {
            assert(out@ =~= path@.subrange(i as int, k as int));
        }
    }
    proof {
        assert(out@ =~= path@.subrange(i as int, n as int));
    }
    out
}

/// ASCII lower-casing of one byte.
pub open spec fn lower_byte(b: u8) -> u8 {
    if 65 <= b <= 90 {
        (b + 32) as u8
    } else {
        b
    }
}

/// Position `d` holds the dot introducing `b`'s extension: a dot that is
/// not the leading byte, with no later dot. This mirrors how a path's
/// extension is read from its file name: a name with no dot, or only a
/// leading one, has no extension.
pub open spec fn ext_dot_at(b: Seq<u8>, d: int) -> bool {
    &&& 1 <= d < b.len()
    &&& b[d] == 46u8
    &&& forall|k: int| d < k < b.len() ==> b[k] != 46u8
}

/// The base name `b` has extension `e`, compared ASCII-case-insensitively.
pub open spec fn has_ext_ci(b: Seq<u8>, e: Seq<u8>) -> bool {
    exists|d: int|
        #[trigger] ext_dot_at(b, d) && b.len() - d - 1 == e.len() && (forall|k: int|
            0 <= k < e.len() ==> lower_byte(b[d + 1 + k]) == e[k])
}

/// The `zip` extension, lower case.
pub open spec fn zip_ext() -> Seq<u8> {
    seq![122u8, 105u8, 112u8]
}

/// The `xml` extension, lower case.
pub open spec fn xml_ext() -> Seq<u8> {
    seq![120u8, 109u8, 108u8]
}

/// How the walk treats one discovered regular file, by the extension of its
/// base name.
#[derive(Clone, Copy, Debug, PartialEq, Eq, Structural)]
pub enum FileKind {
    /// A `.zip` archive: extracted, and its XML members classified.
    Zip,
    /// An `.xml` document: classified directly.
    Xml,
    /// Anything else: ignored.
    Other,
}

/// Finds the dot introducing the extension of the base name `b`, if any.
fn find_ext_dot(b: &[u8]) -> (r: Option<usize>)
    ensures
        r matches Some(d) ==> ext_dot_at(b@, d as int),
        r is None ==> forall|d: int| !ext_dot_at(b@, d),
{
    let n = b.len();
    let mut i: usize = n;
    while i > 0
        invariant
            n == b@.len(),
            0 <= i <= n,
            forall|k: int| i <= k < n ==> b@[k] != 46u8,
        decreases i,
    {
        if b[i - 1] == 46 {
            if i - 1 >= 1 {
                return Some(i - 1);
            }
            // A dot only in leading position: no extension.
            proof {
                assert forall|d: int| !ext_dot_at(b@, d) by {
                    if ext_dot_at(b@, d) {
                        assert(b@[d] == 46u8);
                        assert(d < i);
                    }
                }
            }
            return None;
        }
        i = i - 1;
    }
    proof {
        assert forall|d: int| !ext_dot_at(b@, d) by {
            if ext_dot_at(b@, d) {
                assert(b@[d] == 46u8);
            }
        }
    }
    None
}

/// ASCII-case-insensitive comparison of the bytes after position `d` of `b`
/// against the lower-case extension `e`.
fn ext_eq_ci(b: &[u8], d: usize, e: &[u8]) -> (r: bool)
    requires
        d < b@.len(),
        forall|k: int| 0 <= k < e@.len() ==> e@[k] == lower_byte(e@[k]),
    ensures
        r == (b@.len() - d - 1 == e@.len() && (forall|k: int|
            0 <= k < e@.len() ==> lower_byte(b@[d + 1 + k]) == e@[k])),
{
    let n = b.len();
    if n - d - 1 != e.len() {
        return false;
    }
    let mut k: usize = 0;
    while k < e.len()
        invariant
            n == b@.len(),
            d < n,
            n - d - 1 == e@.len(),
            0 <= k <= e@.len(),
            forall|m: int| 0 <= m < k ==> lower_byte(b@[d + 1 + m]) == e@[m],
        decreases e@.len() - k,
    {
        let mut c = b[d + 1 + k];
        if c >= 65 && c <= 90 {
            c = c + 32;
        }
        if c != e[k] {
            return false;
        }
        k = k + 1;
    }
    true
}

/// Decides how the walk treats a file with base name `name`: `.zip`
/// archives are extracted, `.xml` documents classified, everything else
/// ignored. The extension match ignores ASCII case.
pub fn file_kind(name: &[u8]) -> (r: FileKind)
    ensures
        r == FileKind::Zip <==> has_ext_ci(name@, zip_ext()),
        r == FileKind::Xml <==> has_ext_ci(name@, xml_ext()),
{
    proof {
        assert(forall|k: int| 0 <= k < zip_ext().len() ==> zip_ext()[k] == lower_byte(zip_ext()[k]));
        assert(forall|k: int| 0 <= k < xml_ext().len() ==> xml_ext()[k] == lower_byte(xml_ext()[k]));
    }
    let d = match find_ext_dot(name) {
        None => {
            return FileKind::Other;
        },
        Some(d) => d,
    };
    let zip_bytes: [u8; 3] = [122, 105, 112];
    let xml_bytes: [u8; 3] = [120, 109, 108];
    proof {
        assert(zip_bytes@ =~= zip_ext());
        assert(xml_bytes@ =~= xml_ext());
        // The extension dot position is unique, so a match at d settles
        // has_ext_ci either way.
        assert forall|d2: int| ext_dot_at(name@, d2) implies d2 == d by {
            if d2 < d {
                assert(name@[d as int] == 46u8);
            } else if d2 > d {
                assert(name@[d2] == 46u8);
            }
        }
    }
    if ext_eq_ci(name, d, &zip_bytes) {
        FileKind::Zip
    } else if ext_eq_ci(name, d, &xml_bytes) {
        FileKind::Xml
    } else {
        FileKind::Other
    }
}

/// Extraction and classification composed over one file's base name:
/// `Some(dest)` exactly when the name holds a (first, maximal) 44-digit run
/// that classifies to `dest`; `None` when no key is found or the key is
/// rejected.
pub fn classify_file_name(name: &[u8], today: &Date) -> (r: Option<Destination>)
    requires
        today.wf(),
    ensures
        !has_key_run(name@) ==> r is None,
        has_key_run(name@) ==> exists|i: int|
            {
                &&& #[trigger] key_run_at(name@, i)
                &&& (forall|j: int| 0 <= j < i ==> !key_run_at(name@, j))
                &&& r == classify_spec(name@.subrange(i, i + 44), *today)
            },
{
    match find_key(name) {
        None => None,
        Some(key) => classify(&key, today),
    }
}

} // verus!
