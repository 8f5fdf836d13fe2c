use umlauts::UmlautsInplaceExt;

#[test]
fn make_utf8_string() {
    let mut text = "ÄÖÜäöüABCDabcd".to_string();
    text.make_utf8_umlauts_lowercase();
    assert_eq!(text, "äöüäöüabcdabcd");
    text.make_utf8_umlauts_uppercase();
    assert_eq!(text, "ÄÖÜÄÖÜABCDABCD");
}

#[test]
fn string_to_ascii() {
    let mut text = "ÄÖÜäöüABCDabcd".to_string();
    text.make_utf8_umlauts_to_ascii();
    assert_eq!(text, "AeOeUeaeoeueABCDabcd");
}

#[test]
fn string_to_lowercase_ascii() {
    let mut text = "ÄÖÜäöüABCDabcd".to_string();
    text.make_utf8_umlauts_to_lowercase_ascii();
    assert_eq!(text, "aeoeueaeoeueabcdabcd");
}

#[test]
fn string_to_uppercase_ascii() {
    let mut text = "ÄÖÜäöüABCDabcd".to_string();
    text.make_utf8_umlauts_to_uppercase_ascii();
    assert_eq!(text, "AEOEUEAEOEUEABCDABCD");
}

#[test]
fn empty_string_stays_empty() {
    let mut text = String::new();
    text.make_utf8_umlauts_lowercase();
    assert_eq!(text, "");
    text.make_utf8_umlauts_uppercase();
    assert_eq!(text, "");
    text.make_utf8_umlauts_to_ascii();
    assert_eq!(text, "");
    text.make_utf8_umlauts_to_lowercase_ascii();
    assert_eq!(text, "");
    text.make_utf8_umlauts_to_uppercase_ascii();
    assert_eq!(text, "");
}

#[test]
fn string_with_other_characters() {
    let mut text = "Crème brûlée für 5 €, Größe ẞ 🦀".to_string();
    text.make_utf8_umlauts_to_ascii();
    assert_eq!(text, "Crème brûlée fuer 5 €, Groesse ẞ 🦀");
    text.make_utf8_umlauts_uppercase();
    assert_eq!(text, "CRèME BRûLéE FUER 5 €, GROESSE ẞ 🦀");
}

#[test]
fn string_keeps_its_length() {
    let mut text = "Die Bären fraßen Äpfel".to_string();
    let len = text.len();
    text.make_utf8_umlauts_to_ascii();
    assert_eq!(text.len(), len);
    assert_eq!(text, "Die Baeren frassen Aepfel");
}

#[test]
fn string_and_bytes_agree() {
    let source = "Öl Ärmel Übermut, Maße: groß";

    let mut text = source.to_string();
    let mut bytes = source.as_bytes().to_vec();
    text.make_utf8_umlauts_to_uppercase_ascii();
    bytes.make_utf8_umlauts_to_uppercase_ascii();
    assert_eq!(text.as_bytes(), bytes.as_slice());
    assert_eq!(text, "OEL AERMEL UEBERMUT, MASSE: GROSS");
}
