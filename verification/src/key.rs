//! Access keys and their extraction from filenames.
//!
//! A fiscal document's filename embeds a 44-digit access key. The extractor
//! scans the name, as a byte string, for its first maximal run of digits
//! whose length is exactly 44; a longer or shorter digit run is not a key.

use vstd::prelude::*;

verus! {

/// ASCII decimal digit.
pub open spec fn is_digit(b: u8) -> bool {
    48 <= b <= 57
}

/// Every byte of `s` is an ASCII digit.
pub open spec fn all_digits(s: Seq<u8>) -> bool {
    forall|k: int| 0 <= k < s.len() ==> is_digit(#[trigger] s[k])
}

/// Position `i` of `s` starts a maximal run of exactly 44 digits: 44 digits
/// follow, not preceded and not followed by a further digit.
pub open spec fn key_run_at(s: Seq<u8>, i: int) -> bool {
    &&& 0 <= i
    &&& i + 44 <= s.len()
    &&& all_digits(s.subrange(i, i + 44))
    &&& (i == 0 || !is_digit(s[i - 1]))
    &&& (i + 44 == s.len() || !is_digit(s[i + 44]))
}

/// `s` contains a maximal run of exactly 44 digits somewhere.
pub open spec fn has_key_run(s: Seq<u8>) -> bool {
    exists|i: int| key_run_at(s, i)
}

/// A 44-digit access key, as extracted from a filename.
///
/// Logical sub-fields (0-indexed, half-open): `yy` = bytes 2..4 (year offset
/// from 2000), `mm` = bytes 4..6 (month), `model` = bytes 20..22 (document
/// type code).
#[derive(Clone, Debug, PartialEq, Eq)]
pub struct AccessKey {
    digits: Vec<u8>,
}

impl View for AccessKey {
    type V = Seq<u8>;

    closed spec fn view(&self) -> Seq<u8> {
        self.digits@
    }
}

impl AccessKey {
    /// The key invariant: exactly 44 bytes, all ASCII digits.
    pub open spec fn wf(self) -> bool {
        self@.len() == 44 && all_digits(self@)
    }

    /// Builds a key from raw bytes, rejecting anything that is not exactly
    /// 44 ASCII digits.
    pub fn from_bytes(bytes: &[u8]) -> (r: Option<AccessKey>)
        ensures
            r matches Some(k) ==> k.wf() && k@ == bytes@,
            r is None <==> !(bytes@.len() == 44 && all_digits(bytes@)),
    {
        if bytes.len() != 44 {
            return None;
        }
        let mut digits: Vec<u8> = Vec::new();
        let mut i: usize = 0;
        while i < 44
            invariant
                bytes@.len() == 44,
                0 <= i <= 44,
                digits@ == bytes@.subrange(0, i as int),
                all_digits(digits@),
            decreases 44 - i,
        {
            let b = bytes[i];
            if b < 48 || b > 57 {
                return None;
            }
            digits.push(b);
            i = i + 1;
            proof {
                assert(digits@ =~= bytes@.subrange(0, i as int));
            }
        }
        proof {
            assert(digits@ =~= bytes@);
        }
        Some(AccessKey { digits })
    }

    /// The byte at position `i`.
    pub fn byte_at(&self, i: usize) -> (r: u8)
        requires
            i < self@.len(),
        ensures
            r == self@[i as int],
    {
        self.digits[i]
    }
}

/// Scans `name` for its first maximal run of exactly 44 consecutive digits
/// and returns it as an access key; returns `None` when no such run exists.
/// Leftmost-match semantics: the first qualifying run wins.
pub fn find_key(name: &[u8]) -> (r: Option<AccessKey>)
    ensures
        r is Some <==> has_key_run(name@),
        r matches Some(k) ==> k.wf() && exists|i: int|
            {
                &&& #[trigger] key_run_at(name@, i)
                &&& k@ == name@.subrange(i, i + 44)
                &&& forall|j: int| 0 <= j < i ==> !key_run_at(name@, j)
            },
{
    let n = name.len();
    let mut i: usize = 0;
    while i < n
        invariant
            n == name@.len(),
            0 <= i <= n,
            forall|j: int| 0 <= j < i ==> !key_run_at(name@, j),
        decreases n - i,
    {
        let run_start = i == 0 || !(name[i - 1] >= 48 && name[i - 1] <= 57);
        if run_start && name[i] >= 48 && name[i] <= 57 {
            // i starts a maximal digit run; measure its length.
            let mut j: usize = i;
            while j < n && name[j] >= 48 && name[j] <= 57
                invariant
                    n == name@.len(),
                    i <= j <= n,
                    forall|k: int| i <= k < j ==> is_digit(#[trigger] name@[k]),
                decreases n - j,
            {
                j = j + 1;
            }
            // The run is name[i..j], maximal on both sides.
            if j - i == 44 {
                let key = extract_range(name, i, j);
                proof {
                    assert(all_digits(name@.subrange(i as int, i + 44))) by {
                        assert(forall|m: int|
                            0 <= m < 44 ==> is_digit(
                                #[trigger] name@.subrange(i as int, i + 44)[m],
                            )) by {
                            assert(forall|m: int|
                                0 <= m < 44 ==> #[trigger] name@.subrange(i as int, i + 44)[m]
                                    == name@[i + m]);
                        }
                    }
                    assert(key_run_at(name@, i as int));
                }
                return Some(AccessKey { digits: key });
            }
            proof {
                // A run of the wrong length is no key at i...
                if key_run_at(name@, i as int) {
                    if j < i + 44 {
                        // j < n here, since j == n would leave the run shorter
                        // than the 44 digits key_run_at asserts.
                        assert(is_digit(name@.subrange(i as int, i + 44)[j - i]));
                        assert(is_digit(name@[j as int]));
                        assert(false);
                    } else {
                        // j > i + 44: the digit at i + 44 breaks maximality.
                        assert(is_digit(name@[i + 44]));
                        assert(false);
                    }
                }
                // ...and no position strictly inside the run starts one.
                assert(forall|k: int|
                    i < k < j ==> is_digit(name@[k - 1]) && !key_run_at(name@, k));
            }
            i = j;
        } else {
            proof {
                if key_run_at(name@, i as int) {
                    assert(is_digit(name@.subrange(i as int, i + 44)[0]));
                    assert(is_digit(name@[i as int]));
                    assert(false);
                }
            }
            i = i + 1;
        }
    }
    proof {
        assert(forall|j: int| key_run_at(name@, j) ==> 0 <= j < n);
    }
    None
}

/// Copies `name[lo..hi]` into a fresh vector.
fn extract_range(name: &[u8], lo: usize, hi: usize) -> (r: Vec<u8>)
    requires
        lo <= hi <= name@.len(),
    ensures
        r@ == name@.subrange(lo as int, hi as int),
{
    let mut out: Vec<u8> = Vec::new();
    let mut k: usize = lo;
    while k < hi
        invariant
            lo <= k <= hi <= name@.len(),
            out@ == name@.subrange(lo as int, k as int),
        decreases hi - k,
    {
        out.push(name[k]);
        k = k + 1;
        proof {
            assert(out@ =~= name@.subrange(lo as int, k as int));
        }
    }
    out
}

} // verus!
