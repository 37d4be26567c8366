use chipkit::ini::{classify_ini_line, IniLine};

#[test]
fn blank_lines_are_blank() {
    assert!(matches!(classify_ini_line(""), IniLine::Blank));
    assert!(matches!(classify_ini_line("   \t  "), IniLine::Blank));
}

#[test]
fn section_headers_yield_their_name() {
    match classify_ini_line("[general]") {
        IniLine::SectionHeader(name) => assert_eq!(name, b"general".to_vec()),
        _ => panic!("expected a section header"),
    }
    match classify_ini_line("  [net]  ") {
        IniLine::SectionHeader(name) => assert_eq!(name, b"net".to_vec()),
        _ => panic!("expected a section header"),
    }
}

#[test]
fn doubled_brackets_are_refused() {
    assert!(matches!(classify_ini_line("[[general]]"), IniLine::BadHeader));
    assert!(matches!(classify_ini_line("[general]]"), IniLine::BadHeader));
}

#[test]
fn key_value_lines_split_at_the_first_equals() {
    match classify_ini_line("port = 8080") {
        IniLine::Pair(k, v) => {
            assert_eq!(k, b"port".to_vec());
            assert_eq!(v, b"8080".to_vec());
        }
        _ => panic!("expected a pair"),
    }
    match classify_ini_line("host=localhost") {
        IniLine::Pair(k, v) => {
            assert_eq!(k, b"host".to_vec());
            assert_eq!(v, b"localhost".to_vec());
        }
        _ => panic!("expected a pair"),
    }
    // Consecutive equals signs after the split point are absorbed.
    match classify_ini_line("a == b") {
        IniLine::Pair(k, v) => {
            assert_eq!(k, b"a".to_vec());
            assert_eq!(v, b"b".to_vec());
        }
        _ => panic!("expected a pair"),
    }
}

#[test]
fn an_equals_sign_inside_the_value_is_refused() {
    assert!(matches!(classify_ini_line("a = b = c"), IniLine::BadValue));
}

#[test]
fn bare_keys_stand_alone() {
    match classify_ini_line("  enabled  ") {
        IniLine::Bare(k) => assert_eq!(k, b"enabled".to_vec()),
        _ => panic!("expected a bare key"),
    }
}
