//! Classification of access keys into destination directories.
//!
//! The document type comes from the key's model code (bytes 20..22): "55" is
//! NFe, "57" CTe, "58" MDFe, "65" NFCe; any other code means the file is
//! skipped. NFe and CTe are further split into an age bucket by comparing
//! the key's issue month (year 2000 plus bytes 2..4, month bytes 4..6)
//! against the first day of the month six calendar months before today.

use vstd::prelude::*;

use crate::dates::{date_lt, reference_month, Date};
use crate::key::{all_digits, is_digit, AccessKey};

verus! {

/// The four recognized fiscal document types.
#[derive(Clone, Copy, Debug, PartialEq, Eq, Structural)]
pub enum DocType {
    NFe,
    CTe,
    MDFe,
    NFCe,
}

/// A destination directory, relative to the output base. NFe and CTe always
/// carry an age bucket; MDFe and NFCe land directly under their type's root.
#[derive(Clone, Copy, Debug, PartialEq, Eq, Structural)]
pub enum Destination {
    NFeOlder,
    NFeWithin,
    CTeOlder,
    CTeWithin,
    MDFe,
    NFCe,
}

/// Numeric value of the ASCII digit `b`.
pub open spec fn digit_val(b: u8) -> int {
    b - 48
}

/// Value of the two-digit decimal field at `key[i..i+2]`.
pub open spec fn two_digit_val(key: Seq<u8>, i: int) -> int {
    digit_val(key[i]) * 10 + digit_val(key[i + 1])
}

/// Document type encoded by the key's model code, bytes 20..22.
pub open spec fn doc_type_of(key: Seq<u8>) -> Option<DocType> {
    if key[20] == 53u8 && key[21] == 53u8 {
        Some(DocType::NFe)
    } else if key[20] == 53u8 && key[21] == 55u8 {
        Some(DocType::CTe)
    } else if key[20] == 53u8 && key[21] == 56u8 {
        Some(DocType::MDFe)
    } else if key[20] == 54u8 && key[21] == 53u8 {
        Some(DocType::NFCe)
    } else {
        None
    }
}

/// First day of the issue month the key declares: year 2000 plus the
/// two-digit field at bytes 2..4, month from bytes 4..6.
pub open spec fn issue_date_of(key: Seq<u8>) -> Date {
    Date { year: (2000 + two_digit_val(key, 2)) as i32, month: two_digit_val(key, 4) as u8, day: 1 }
}

/// The whole classification, as a mathematical function of the key's bytes
/// and today's date. `None` means the file is skipped: wrong length,
/// unrecognized model code, or (for the bucketed types) a month outside
/// 1..=12.
pub open spec fn classify_spec(key: Seq<u8>, today: Date) -> Option<Destination> {
    if key.len() != 44 || !all_digits(key) {
        None
    } else {
        match doc_type_of(key) {
            None => None,
            Some(DocType::MDFe) => Some(Destination::MDFe),
            Some(DocType::NFCe) => Some(Destination::NFCe),
            Some(t) => {
                let mm = two_digit_val(key, 4);
                if !(1 <= mm <= 12) {
                    None
                } else {
                    let older = issue_date_of(key).month_index() < today.month_index() - 6;
                    if t == DocType::NFe {
                        Some(
                            if older {
                                Destination::NFeOlder
                            } else {
                                Destination::NFeWithin
                            },
                        )
                    } else {
                        Some(
                            if older {
                                Destination::CTeOlder
                            } else {
                                Destination::CTeWithin
                            },
                        )
                    }
                }
            },
        }
    }
}

/// Reads the two-digit decimal field at `key[i..i+2]`.
fn read_two_digits(key: &AccessKey, i: usize) -> (r: u8)
    requires
        key.wf(),
        i + 2 <= key@.len(),
    ensures
        r == two_digit_val(key@, i as int),
        0 <= r <= 99,
{
    let hi = key.byte_at(i);
    let lo = key.byte_at(i + 1);
    assert(is_digit(key@[i as int]) && is_digit(key@[i + 1]));
    (hi - 48) * 10 + (lo - 48)
}

/// Classifies `key` into its destination directory, given today's date.
/// Returns `None` exactly when the file is to be skipped: unrecognized
/// model code, or a declared month outside 1..=12.
pub fn classify(key: &AccessKey, today: &Date) -> (r: Option<Destination>)
    requires
        key.wf(),
        today.wf(),
    ensures
        r == classify_spec(key@, *today),
{
    let b20 = key.byte_at(20);
    let b21 = key.byte_at(21);
    if b20 == 53 && b21 == 56 {
        return Some(Destination::MDFe);
    }
    if b20 == 54 && b21 == 53 {
        return Some(Destination::NFCe);
    }
    let is_nfe = b20 == 53 && b21 == 53;
    let is_cte = b20 == 53 && b21 == 55;
    if !is_nfe && !is_cte {
        return None;
    }
    let mm = read_two_digits(key, 4);
    if mm < 1 || mm > 12 {
        return None;
    }
    let yy = read_two_digits(key, 2);
    let issue_year: i32 = 2000 + yy as i32;
    let rm = reference_month(today);
    let older = issue_year < rm.year || (issue_year == rm.year && (mm as i32) < rm.month as i32);
    proof {
        let issue = issue_date_of(key@);
        assert(issue.year == issue_year && issue.month == mm);
        assert(older == (issue.month_index() < rm.month_index()));
    }
    if is_nfe {
        Some(
            if older {
                Destination::NFeOlder
            } else {
                Destination::NFeWithin
            },
        )
    } else {
        Some(
            if older {
                Destination::CTeOlder
            } else {
                Destination::CTeWithin
            },
        )
    }
}

/// Relative path, below the destination base, of each destination
/// directory.
pub open spec fn rel_path_spec(d: Destination) -> Seq<char> {
    match d {
        Destination::NFeOlder => "NFe/OlderThan6Months"@,
        Destination::NFeWithin => "NFe/Within6Months"@,
        Destination::CTeOlder => "CTe/OlderThan6Months"@,
        Destination::CTeWithin => "CTe/Within6Months"@,
        Destination::MDFe => "MDFe"@,
        Destination::NFCe => "NFCe"@,
    }
}

/// Relative path, below the destination base, where files classified to `d`
/// are copied.
pub fn rel_path(d: Destination) -> (r: &'static str)
    ensures
        r@ == rel_path_spec(d),
{
    match d {
        Destination::NFeOlder => "NFe/OlderThan6Months",
        Destination::NFeWithin => "NFe/Within6Months",
        Destination::CTeOlder => "CTe/OlderThan6Months",
        Destination::CTeWithin => "CTe/Within6Months",
        Destination::MDFe => "MDFe",
        Destination::NFCe => "NFCe",
    }
}

/// The fixed destination tree: every directory that must exist below the
/// base before any copy runs, type roots first.
pub fn directory_structure() -> (r: Vec<&'static str>)
    ensures
        r@.len() == 8,
        r@[0]@ == "CTe"@,
        r@[1]@ == "CTe/OlderThan6Months"@,
        r@[2]@ == "CTe/Within6Months"@,
        r@[3]@ == "NFe"@,
        r@[4]@ == "NFe/OlderThan6Months"@,
        r@[5]@ == "NFe/Within6Months"@,
        r@[6]@ == "MDFe"@,
        r@[7]@ == "NFCe"@,
{
    let mut v: Vec<&'static str> = Vec::new();
    v.push("CTe");
    v.push("CTe/OlderThan6Months");
    v.push("CTe/Within6Months");
    v.push("NFe");
    v.push("NFe/OlderThan6Months");
    v.push("NFe/Within6Months");
    v.push("MDFe");
    v.push("NFCe");
    v
}

/// A key whose model code reads "55" or "57" (NFe or CTe) is classified,
/// when it is classified at all, into a bucketed destination, never an
/// unbucketed type root; it is classified exactly when its declared month
/// lies in 1..=12.
pub proof fn lemma_nfe_cte_bucketed(key: Seq<u8>, today: Date)
    requires
        key.len() == 44,
        all_digits(key),
        key[20] == 53u8,
        key[21] == 53u8 || key[21] == 55u8,
    ensures
        classify_spec(key, today) is Some <==> 1 <= two_digit_val(key, 4) <= 12,
        classify_spec(key, today) matches Some(d) ==> (d == Destination::NFeOlder || d
            == Destination::NFeWithin || d == Destination::CTeOlder || d == Destination::CTeWithin),
        key[21] == 53u8 ==> (classify_spec(key, today) matches Some(d) ==> d
            == Destination::NFeOlder || d == Destination::NFeWithin),
        key[21] == 55u8 ==> (classify_spec(key, today) matches Some(d) ==> d
            == Destination::CTeOlder || d == Destination::CTeWithin),
{
}

/// A key whose model code reads "58" or "65" (MDFe or NFCe) is always
/// classified, to exactly its type root, with no bucket segment; its date
/// fields are never consulted.
pub proof fn lemma_mdfe_nfce_unbucketed(key: Seq<u8>, today: Date, other: Date)
    requires
        key.len() == 44,
        all_digits(key),
        (key[20] == 53u8 && key[21] == 56u8) || (key[20] == 54u8 && key[21] == 53u8),
    ensures
        key[20] == 53u8 ==> classify_spec(key, today) == Some(Destination::MDFe),
        key[20] == 54u8 ==> classify_spec(key, today) == Some(Destination::NFCe),
        classify_spec(key, today) == classify_spec(key, other),
{
}

} // verus!
