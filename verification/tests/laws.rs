use umlauts::UmlautsInplaceExt;

fn lowercase(source: &str) -> Vec<u8> {
    let mut text = source.as_bytes().to_vec();
    text.make_utf8_umlauts_lowercase();
    text
}

fn uppercase(source: &str) -> Vec<u8> {
    let mut text = source.as_bytes().to_vec();
    text.make_utf8_umlauts_uppercase();
    text
}

fn to_ascii(source: &str) -> Vec<u8> {
    let mut text = source.as_bytes().to_vec();
    text.make_utf8_umlauts_to_ascii();
    text
}

const SAMPLES: [&str; 8] = [
    "",
    "a",
    "ß",
    "MIXEDÄöÜ",
    "ÄÖÜäöüABCDabcd",
    "Die Bären fraßen Äpfel, Öl und Überraschungen.",
    "été Ãä €5 日本 🦀 ẞ",
    "ssSS aeAE oeOE ueUE",
];

#[test]
fn lowercase_twice_is_lowercase_once() {
    for source in SAMPLES {
        let once = lowercase(source);
        let mut twice = once.clone();
        twice.make_utf8_umlauts_lowercase();
        assert_eq!(twice, once);
    }
    assert_eq!(lowercase("MIXEDÄöÜ"), "mixedäöü".as_bytes());
}

#[test]
fn uppercase_twice_is_uppercase_once() {
    for source in SAMPLES {
        let once = uppercase(source);
        let mut twice = once.clone();
        twice.make_utf8_umlauts_uppercase();
        assert_eq!(twice, once);
    }
    assert_eq!(uppercase("MIXEDÄöÜ"), "MIXEDÄÖÜ".as_bytes());
}

#[test]
fn uppercase_after_lowercase_is_uppercase() {
    let mut text = lowercase("MIXEDÄöÜ");
    assert_eq!(text, "mixedäöü".as_bytes());
    text.make_utf8_umlauts_uppercase();
    assert_eq!(text, "MIXEDÄÖÜ".as_bytes());
    assert_ne!(text, "MIXEDÄöÜ".as_bytes());
    assert_eq!(text, uppercase("MIXEDÄöÜ"));

    for source in SAMPLES {
        let mut text = lowercase(source);
        text.make_utf8_umlauts_uppercase();
        assert_eq!(text, uppercase(source));
    }
}

#[test]
fn lowercase_after_uppercase_is_lowercase() {
    for source in SAMPLES {
        let mut text = uppercase(source);
        text.make_utf8_umlauts_lowercase();
        assert_eq!(text, lowercase(source));
    }
}

#[test]
fn lowercase_transliteration_is_lowercase_of_transliteration() {
    for source in SAMPLES {
        let mut one_pass = source.as_bytes().to_vec();
        one_pass.make_utf8_umlauts_to_lowercase_ascii();

        let mut two_passes = to_ascii(source);
        two_passes.make_utf8_umlauts_lowercase();

        assert_eq!(one_pass, two_passes);
    }
    let mut text = "Größe MIXEDÄöÜ".as_bytes().to_vec();
    text.make_utf8_umlauts_to_lowercase_ascii();
    assert_eq!(text, b"groesse mixedaeoeue");
}

#[test]
fn uppercase_transliteration_is_uppercase_of_transliteration() {
    for source in SAMPLES {
        let mut one_pass = source.as_bytes().to_vec();
        one_pass.make_utf8_umlauts_to_uppercase_ascii();

        let mut two_passes = to_ascii(source);
        two_passes.make_utf8_umlauts_uppercase();

        assert_eq!(one_pass, two_passes);
    }
    let mut text = "Größe MIXEDÄöÜ".as_bytes().to_vec();
    text.make_utf8_umlauts_to_uppercase_ascii();
    assert_eq!(text, b"GROESSE MIXEDAEOEUE");
}

#[test]
fn valid_utf8_stays_valid() {
    for source in SAMPLES {
        assert!(String::from_utf8(lowercase(source)).is_ok());
        assert!(String::from_utf8(uppercase(source)).is_ok());
        assert!(String::from_utf8(to_ascii(source)).is_ok());

        let mut text = source.as_bytes().to_vec();
        text.make_utf8_umlauts_to_lowercase_ascii();
        assert!(String::from_utf8(text).is_ok());

        let mut text = source.as_bytes().to_vec();
        text.make_utf8_umlauts_to_uppercase_ascii();
        assert!(String::from_utf8(text).is_ok());
    }
    assert_eq!(String::from_utf8(to_ascii("Fuß €")).unwrap(), "Fuss €");
}

#[test]
fn length_never_changes() {
    for source in SAMPLES {
        assert_eq!(lowercase(source).len(), source.len());
        assert_eq!(uppercase(source).len(), source.len());
        assert_eq!(to_ascii(source).len(), source.len());
    }
}
