use vudo::quote::{preview, shell_quote};

#[test]
fn leaves_safe_tokens_bare() {
    assert_eq!(shell_quote("pacman"), "pacman");
    assert_eq!(shell_quote("-Syu"), "-Syu");
    assert_eq!(shell_quote("/usr/bin/x"), "/usr/bin/x");
}

#[test]
fn quotes_the_rest() {
    assert_eq!(shell_quote("a b"), "'a b'");
    assert_eq!(shell_quote("it's"), "'it'\\''s'");
    assert_eq!(shell_quote(""), "''");
}

#[test]
fn preview_joins_with_spaces() {
    let cmd = vec!["rm".to_string(), "-rf".to_string(), "a b".to_string()];
    assert_eq!(preview(&cmd), "rm -rf 'a b'");
}

#[test]
fn non_ascii_and_specials_are_quoted() {
    assert_eq!(shell_quote("caf\u{e9}"), "'caf\u{e9}'");
    assert_eq!(shell_quote("$HOME"), "'$HOME'");
    assert_eq!(shell_quote("a=b,c:d@e%f+g.h_i"), "a=b,c:d@e%f+g.h_i");
    assert_eq!(shell_quote("''"), "''\\'''\\'''");
}

#[test]
fn preview_of_nothing_and_of_empty_words() {
    assert_eq!(preview(&[]), "");
    assert_eq!(preview(&["".to_string(), "x".to_string()]), "'' x");
}
