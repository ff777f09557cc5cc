use cnctd_cargo::text::{chars_of, holds_char, string_of};
use cnctd_cargo::registry::latest_version_of;
use cnctd_cargo::version::{is_number_chars, read_number, split_chars};
use cnctd_cargo::{Cargo, CargoError, CrateType};

fn chars(text: &str) -> Vec<char> {
    text.chars().collect()
}

#[test]
fn registry_address_ends_in_the_name() {
    assert_eq!(Cargo::registry_url("serde"), "https://crates.io/api/v1/crates/serde");
    assert_eq!(Cargo::registry_url(""), "https://crates.io/api/v1/crates/");
}

#[test]
fn latest_version_is_read_from_the_answer() {
    let body = "{\"crate\":{\"id\":\"serde\",\"max_version\":\"1.0.219\"},\"versions\":[]}";
    assert_eq!(Cargo::get_latest_crate_version(body), Ok("1.0.219".to_string()));
}

#[test]
fn answer_without_the_version_is_not_found() {
    assert_eq!(Cargo::get_latest_crate_version("{}"), Err(CargoError::NotFound));
    assert_eq!(Cargo::get_latest_crate_version("{\"crate\":{}}"), Err(CargoError::NotFound));
    assert_eq!(
        Cargo::get_latest_crate_version("{\"crate\":{\"max_version\":3}}"),
        Err(CargoError::NotFound)
    );
    assert_eq!(
        Cargo::get_latest_crate_version("{\"crate\":\"serde\"}"),
        Err(CargoError::NotFound)
    );
    assert_eq!(
        Cargo::get_latest_crate_version("{\"errors\":[{\"detail\":\"Not Found\"}]}"),
        Err(CargoError::NotFound)
    );
    assert_eq!(Cargo::get_latest_crate_version("[1, 2]"), Err(CargoError::NotFound));
}

#[test]
fn answer_that_is_no_json_is_a_parse_error() {
    assert_eq!(Cargo::get_latest_crate_version(""), Err(CargoError::ParseError));
    assert_eq!(Cargo::get_latest_crate_version("{\"crate\":"), Err(CargoError::ParseError));
    assert_eq!(Cargo::get_latest_crate_version("<html>"), Err(CargoError::ParseError));
}

#[test]
fn init_command_follows_the_kind() {
    assert_eq!(Cargo::init(CrateType::App), "cargo init");
    assert_eq!(Cargo::init(CrateType::Module), "cargo init --lib");
}

#[test]
fn install_command_names_the_crate() {
    assert_eq!(Cargo::install_crate("serde"), "cargo add serde");
    assert_eq!(Cargo::install_crate("tokio --features full"), "cargo add tokio --features full");
    assert_eq!(Cargo::install_crate(""), "cargo add ");
}

#[test]
fn toolchain_that_is_there_has_nothing_to_report() {
    assert_eq!(Cargo::check_for_rust_and_cargo(0, 0), Vec::<String>::new());
}

#[test]
fn missing_tools_are_reported() {
    assert_eq!(Cargo::check_for_rust_and_cargo(1, 0), vec!["Rust is not installed.".to_string()]);
    assert_eq!(Cargo::check_for_rust_and_cargo(0, 127), vec!["Cargo is not installed.".to_string()]);
    assert_eq!(
        Cargo::check_for_rust_and_cargo(-1, 2),
        vec!["Rust is not installed.".to_string(), "Cargo is not installed.".to_string()]
    );
}

#[test]
fn text_goes_to_characters_and_back() {
    assert_eq!(chars_of("añb\n"), vec!['a', 'ñ', 'b', '\n']);
    assert_eq!(chars_of(""), Vec::<char>::new());
    assert_eq!(string_of(&vec!['x', 'é', '.']), "xé.");
    assert_eq!(string_of(&chars_of("version = \"1.0.0\"")), "version = \"1.0.0\"");
}

#[test]
fn character_is_found_in_a_text() {
    assert!(holds_char("packages/*", '*'));
    assert!(holds_char("*", '*'));
    assert!(!holds_char("packages/a", '*'));
    assert!(!holds_char("", '*'));
}

#[test]
fn split_gives_the_segments_between_separators() {
    assert_eq!(split_chars(&chars("1.22.333"), '.'), vec![chars("1"), chars("22"), chars("333")]);
    assert_eq!(split_chars(&chars(""), '.'), vec![chars("")]);
    assert_eq!(split_chars(&chars("."), '.'), vec![chars(""), chars("")]);
    assert_eq!(split_chars(&chars("a..b."), '.'), vec![chars("a"), chars(""), chars("b"), chars("")]);
    assert_eq!(split_chars(&chars("abc"), '.'), vec![chars("abc")]);
}

#[test]
fn numbers_are_digits_only() {
    assert!(is_number_chars(&chars("0")));
    assert!(is_number_chars(&chars("0123456789")));
    assert!(!is_number_chars(&chars("")));
    assert!(!is_number_chars(&chars("12a")));
    assert!(!is_number_chars(&chars("-1")));
    assert!(!is_number_chars(&chars(" 1")));
    assert!(!is_number_chars(&chars("1/")));
    assert!(!is_number_chars(&chars("1:")));
}

#[test]
fn part_of_a_version_is_read_with_its_sign() {
    assert_eq!(read_number(&chars("7")), Some(chars("7")));
    assert_eq!(read_number(&chars("007")), Some(chars("7")));
    assert_eq!(read_number(&chars("+7")), Some(chars("7")));
    assert_eq!(read_number(&chars("+000")), Some(chars("0")));
    assert_eq!(read_number(&chars("-0")), Some(chars("0")));
    assert_eq!(read_number(&chars("-00")), Some(chars("0")));
    assert_eq!(read_number(&chars("-7")), None);
    assert_eq!(read_number(&chars("-010")), None);
    assert_eq!(read_number(&chars("")), None);
    assert_eq!(read_number(&chars("+")), None);
    assert_eq!(read_number(&chars("-")), None);
    assert_eq!(read_number(&chars("+-1")), None);
    assert_eq!(read_number(&chars("1+")), None);
    assert_eq!(read_number(&chars(" 1")), None);
}

#[test]
fn latest_version_is_read_from_a_parsed_answer() {
    let answer: serde_json::Value =
        serde_json::from_str("{\"crate\":{\"max_version\":\"0.3.4\"}}").unwrap();
    assert_eq!(latest_version_of(&answer), Ok("0.3.4".to_string()));
    let other: serde_json::Value = serde_json::from_str("{\"crate\":null}").unwrap();
    assert_eq!(latest_version_of(&other), Err(CargoError::NotFound));
    assert_eq!(latest_version_of(&serde_json::Value::Null), Err(CargoError::NotFound));
}
