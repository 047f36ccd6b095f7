// Behavioral tests of the organizer library: key extraction from
// filenames, classification into destination directories, the archive
// entry safety gate, and the copy plan.

use organizar_xml::archive::is_safe_entry_name;
use organizar_xml::classify::{classify, directory_structure, rel_path, Destination};
use organizar_xml::dates::{reference_month, Date};
use organizar_xml::key::{find_key, AccessKey};
use organizar_xml::scan::{basename, classify_file_name, file_kind, FileKind};
use organizar_xml::schedule::{plan_copies, CopyTask};

fn key(bytes: &[u8]) -> AccessKey {
    AccessKey::from_bytes(bytes).expect("valid 44-digit key")
}

// A 44-digit key with the given model code at bytes 20..22, year offset
// `yy` and month `mm` at bytes 2..6.
fn make_key(yy: &str, mm: &str, model: &str) -> AccessKey {
    let s = format!("99{}{}{}{}{}", yy, mm, "0".repeat(14), model, "0".repeat(22));
    assert_eq!(s.len(), 44);
    key(s.as_bytes())
}

// --- key extraction ---

#[test]
fn no_digits_no_key() {
    assert!(find_key(b"relatorio_final.xml").is_none());
}

#[test]
fn short_run_no_key() {
    let name = format!("nota_{}.xml", "1".repeat(43));
    assert!(find_key(name.as_bytes()).is_none());
}

#[test]
fn long_run_no_key() {
    // A run of 45 digits is not a 44-digit key.
    let name = format!("nota_{}.xml", "1".repeat(45));
    assert!(find_key(name.as_bytes()).is_none());
}

#[test]
fn split_runs_no_key() {
    let name = format!("a{}b{}c", "1".repeat(22), "2".repeat(22));
    assert!(find_key(name.as_bytes()).is_none());
}

#[test]
fn exact_run_found() {
    let digits = "5".repeat(44);
    let name = format!("nota_{}.xml", digits);
    let k = find_key(name.as_bytes()).expect("key present");
    assert_eq!(k, key(digits.as_bytes()));
}

#[test]
fn whole_name_is_key() {
    let digits = "7".repeat(44);
    let k = find_key(digits.as_bytes()).expect("key present");
    assert_eq!(k, key(digits.as_bytes()));
}

#[test]
fn first_valid_run_wins() {
    let name = format!("a{}b{}c", "1".repeat(44), "2".repeat(44));
    let k = find_key(name.as_bytes()).expect("key present");
    assert_eq!(k, key("1".repeat(44).as_bytes()));
}

#[test]
fn oversized_run_skipped_for_later_exact_run() {
    // The 45-digit run is no key; the later exactly-44-digit run is.
    let name = format!("a{}b{}c", "1".repeat(45), "2".repeat(44));
    let k = find_key(name.as_bytes()).expect("key present");
    assert_eq!(k, key("2".repeat(44).as_bytes()));
}

#[test]
fn from_bytes_rejects_wrong_length_and_non_digits() {
    assert!(AccessKey::from_bytes(b"123").is_none());
    assert!(AccessKey::from_bytes("1".repeat(45).as_bytes()).is_none());
    let mut bytes = "1".repeat(44).into_bytes();
    bytes[10] = b'x';
    assert!(AccessKey::from_bytes(&bytes).is_none());
    assert!(AccessKey::from_bytes("0".repeat(44).as_bytes()).is_some());
}

// --- classification ---

#[test]
fn nfe_model_gets_bucketed_path() {
    let today = Date::new(2024, 6, 15);
    let d = classify(&make_key("23", "10", "55"), &today).expect("classified");
    assert!(d == Destination::NFeOlder || d == Destination::NFeWithin);
    let p = rel_path(d);
    assert!(p == "NFe/OlderThan6Months" || p == "NFe/Within6Months");
}

#[test]
fn cte_model_gets_bucketed_path() {
    let today = Date::new(2024, 6, 15);
    let d = classify(&make_key("24", "01", "57"), &today).expect("classified");
    assert!(d == Destination::CTeOlder || d == Destination::CTeWithin);
    let p = rel_path(d);
    assert!(p == "CTe/OlderThan6Months" || p == "CTe/Within6Months");
}

#[test]
fn mdfe_model_unbucketed() {
    let today = Date::new(2024, 6, 15);
    // The date fields are never consulted: even a nonsense month maps.
    assert_eq!(classify(&make_key("23", "13", "58"), &today), Some(Destination::MDFe));
    assert_eq!(rel_path(Destination::MDFe), "MDFe");
}

#[test]
fn nfce_model_unbucketed() {
    let today = Date::new(2024, 6, 15);
    assert_eq!(classify(&make_key("23", "10", "65"), &today), Some(Destination::NFCe));
    assert_eq!(rel_path(Destination::NFCe), "NFCe");
}

#[test]
fn unknown_model_skipped() {
    let today = Date::new(2024, 6, 15);
    assert_eq!(classify(&make_key("23", "10", "99"), &today), None);
    assert_eq!(classify(&make_key("23", "10", "00"), &today), None);
}

#[test]
fn month_zero_rejected() {
    let today = Date::new(2024, 6, 15);
    assert_eq!(classify(&make_key("23", "00", "55"), &today), None);
}

#[test]
fn month_thirteen_rejected() {
    let today = Date::new(2024, 6, 15);
    assert_eq!(classify(&make_key("23", "13", "57"), &today), None);
}

#[test]
fn issue_before_reference_is_older() {
    // today 2024-06-15: reference month 2023-12-01; issue 2023-10-01.
    let today = Date::new(2024, 6, 15);
    assert_eq!(classify(&make_key("23", "10", "55"), &today), Some(Destination::NFeOlder));
}

#[test]
fn issue_at_reference_is_within() {
    // Issue month equal to the reference month is not strictly earlier.
    let today = Date::new(2024, 6, 15);
    assert_eq!(classify(&make_key("23", "12", "55"), &today), Some(Destination::NFeWithin));
}

#[test]
fn recent_issue_is_within() {
    // today 2024-03-15: reference month 2023-09-01; issue 2023-10-01.
    let today = Date::new(2024, 3, 15);
    assert_eq!(classify(&make_key("23", "10", "55"), &today), Some(Destination::NFeWithin));
}

#[test]
fn model_code_read_at_its_fixed_field() {
    // The model code lives at bytes 20..22. A key whose only "55" sits at
    // the end carries model "00" there and is skipped.
    let today = Date::new(2024, 6, 15);
    let k = key(b"55231000000000000000000000000000000000000055");
    assert_eq!(classify(&k, &today), None);
}

#[test]
fn reference_month_simple() {
    let r = reference_month(&Date::new(2024, 6, 15));
    assert_eq!((r.year, r.month, r.day), (2023, 12, 1));
}

#[test]
fn reference_month_year_rollover() {
    let r = reference_month(&Date::new(2024, 3, 2));
    assert_eq!((r.year, r.month, r.day), (2023, 9, 1));
    let r = reference_month(&Date::new(2024, 1, 31));
    assert_eq!((r.year, r.month, r.day), (2023, 7, 1));
    let r = reference_month(&Date::new(2025, 12, 1));
    assert_eq!((r.year, r.month, r.day), (2025, 6, 1));
}

#[test]
fn destination_tree_has_eight_directories() {
    let dirs = directory_structure();
    assert_eq!(
        dirs,
        vec![
            "CTe",
            "CTe/OlderThan6Months",
            "CTe/Within6Months",
            "NFe",
            "NFe/OlderThan6Months",
            "NFe/Within6Months",
            "MDFe",
            "NFCe",
        ]
    );
}

// --- archive entry safety ---

#[test]
fn traversal_entry_rejected() {
    assert!(!is_safe_entry_name(b"../../etc/passwel"));
}

#[test]
fn absolute_entry_rejected() {
    assert!(!is_safe_entry_name(b"/etc/passwel"));
}

#[test]
fn dotdot_anywhere_rejected() {
    assert!(!is_safe_entry_name(b"notas/..segredo/a.xml"));
    assert!(!is_safe_entry_name(b"a..b.xml"));
}

#[test]
fn relative_entry_accepted() {
    assert!(is_safe_entry_name(b"notas/2023/a.xml"));
    assert!(is_safe_entry_name(b"a.xml"));
    assert!(is_safe_entry_name(b""));
}

// --- file kinds and base names ---

#[test]
fn zip_and_xml_extensions_case_insensitive() {
    assert_eq!(file_kind(b"lote.zip"), FileKind::Zip);
    assert_eq!(file_kind(b"LOTE.ZIP"), FileKind::Zip);
    assert_eq!(file_kind(b"nota.xml"), FileKind::Xml);
    assert_eq!(file_kind(b"NOTA.XmL"), FileKind::Xml);
}

#[test]
fn other_extensions_ignored() {
    assert_eq!(file_kind(b"nota.pdf"), FileKind::Other);
    assert_eq!(file_kind(b"nota.zipp"), FileKind::Other);
    assert_eq!(file_kind(b"noext"), FileKind::Other);
    // A leading dot with no other dot is a hidden name, not an extension.
    assert_eq!(file_kind(b".xml"), FileKind::Other);
    assert_eq!(file_kind(b"nota.xml.bak"), FileKind::Other);
}

#[test]
fn multi_dot_names_use_last_extension() {
    assert_eq!(file_kind(b"nota.2023.xml"), FileKind::Xml);
    assert_eq!(file_kind(b".hidden.zip"), FileKind::Zip);
}

#[test]
fn basename_strips_directories() {
    assert_eq!(basename(b"a/b/c.xml"), b"c.xml".to_vec());
    assert_eq!(basename(b"c.xml"), b"c.xml".to_vec());
    assert_eq!(basename(b"a/b/"), b"".to_vec());
}

// --- the per-name pipeline ---

#[test]
fn extracted_member_classifies_to_cte() {
    // An archive member whose name holds a key with model code "57" at its
    // fixed field classifies under CTe with an age bucket.
    let name = format!("nota_{}.xml", "99230500000000000000570000000000000000000000");
    let today = Date::new(2024, 6, 15);
    let d = classify_file_name(name.as_bytes(), &today).expect("classified");
    assert_eq!(d, Destination::CTeOlder);
}

#[test]
fn member_with_model_outside_its_field_skipped() {
    // Digits "57" at the key's tail are not the model code, which is read
    // at bytes 20..22 and here is "11".
    let name = "nota_11111111111111111111111111111111111111111157.xml";
    let today = Date::new(2024, 6, 15);
    assert_eq!(classify_file_name(name.as_bytes(), &today), None);
}

#[test]
fn name_without_key_yields_no_task() {
    let today = Date::new(2024, 6, 15);
    assert_eq!(classify_file_name(b"nota_sem_chave.xml", &today), None);
}

// --- the copy plan ---

fn task(src: &[u8], dest: Destination) -> CopyTask {
    CopyTask { src: src.to_vec(), dest }
}

#[test]
fn single_new_file_is_copied() {
    let tasks = vec![task(b"pasta/nota.xml", Destination::NFCe)];
    assert_eq!(plan_copies(&tasks, &vec![false]), vec![true]);
}

#[test]
fn preexisting_destination_drops_task() {
    let tasks = vec![task(b"pasta/nota.xml", Destination::NFCe)];
    assert_eq!(plan_copies(&tasks, &vec![true]), vec![false]);
}

#[test]
fn same_basename_same_destination_copied_once() {
    // Two distinct sources in different subdirectories, one destination
    // file: only the first task in the batch copies.
    let tasks = vec![
        task(b"origem_a/nota.xml", Destination::MDFe),
        task(b"origem_b/nota.xml", Destination::MDFe),
    ];
    assert_eq!(plan_copies(&tasks, &vec![false, false]), vec![true, false]);
}

#[test]
fn same_basename_different_destination_both_copied() {
    let tasks = vec![
        task(b"origem_a/nota.xml", Destination::MDFe),
        task(b"origem_b/nota.xml", Destination::NFCe),
    ];
    assert_eq!(plan_copies(&tasks, &vec![false, false]), vec![true, true]);
}

#[test]
fn second_run_copies_nothing() {
    // After a first run every copied destination file exists, so running
    // the identical batch again drops every task.
    let tasks = vec![
        task(b"origem_a/nota.xml", Destination::MDFe),
        task(b"origem_b/nota.xml", Destination::MDFe),
        task(b"origem_c/outra.xml", Destination::NFCe),
    ];
    let first = plan_copies(&tasks, &vec![false, false, false]);
    assert_eq!(first, vec![true, false, true]);
    // Every task's destination file now exists.
    let second = plan_copies(&tasks, &vec![true, true, true]);
    assert_eq!(second, vec![false, false, false]);
}
