use flnk::backup::{backup_candidate, unique_backup_path};
use flnk::strutil::u64_to_string;

#[test]
fn decimal_rendering() {
    assert_eq!(u64_to_string(0), "0".to_string());
    assert_eq!(u64_to_string(7), "7".to_string());
    assert_eq!(u64_to_string(42), "42".to_string());
    assert_eq!(u64_to_string(1000), "1000".to_string());
    assert_eq!(u64_to_string(18446744073709551615), "18446744073709551615".to_string());
}

#[test]
fn first_candidate_appends_suffix() {
    assert_eq!(
        backup_candidate("/d/f1.txt", "~", 0),
        "/d/f1.txt~".to_string()
    );
    assert_eq!(
        backup_candidate("/d/f1.txt", ".bak", 0),
        "/d/f1.txt.bak".to_string()
    );
}

#[test]
fn empty_suffix_normalizes_to_tilde() {
    assert_eq!(backup_candidate("/d/f1.txt", "", 0), "/d/f1.txt~".to_string());
}

#[test]
fn numbered_candidates() {
    assert_eq!(
        backup_candidate("/d/f1.txt", "~", 1),
        "/d/f1.txt.~1~".to_string()
    );
    assert_eq!(
        backup_candidate("/d/f1.txt", "~", 3),
        "/d/f1.txt.~3~".to_string()
    );
    assert_eq!(
        backup_candidate("/d/f1.txt", "~", 12),
        "/d/f1.txt.~12~".to_string()
    );
}

#[test]
fn unique_name_skips_taken_ones() {
    let none_taken: Vec<String> = Vec::new();
    assert_eq!(
        unique_backup_path("/d/f1.txt", "~", &none_taken),
        "/d/f1.txt~".to_string()
    );
    let taken = vec!["/d/f1.txt~".to_string(), "/d/f1.txt.~1~".to_string()];
    assert_eq!(
        unique_backup_path("/d/f1.txt", "~", &taken),
        "/d/f1.txt.~2~".to_string()
    );
    let unrelated = vec!["/d/other".to_string()];
    assert_eq!(
        unique_backup_path("/d/f1.txt", "", &unrelated),
        "/d/f1.txt~".to_string()
    );
}

#[test]
fn candidates_never_repeat() {
    let mut seen: Vec<String> = Vec::new();
    let mut n: u64 = 0;
    while n < 25 {
        let c = backup_candidate("/d/f1.txt", "~", n);
        assert!(!seen.contains(&c));
        seen.push(c);
        n += 1;
    }
}
