use cnctd_cargo::cargo_toml::Author;
use cnctd_cargo::{Crate, CrateType, RustApp, RustCrate, RustModule};

fn features_of(known: Crate) -> Option<Vec<String>> {
    known.to_rust_crate().features
}

fn strings(texts: &[&str]) -> Option<Vec<String>> {
    Some(texts.iter().map(|text| text.to_string()).collect())
}

#[test]
fn new_keeps_name_features_and_kind() {
    let made = RustCrate::new("serde", Some(vec!["derive", "rc"]), CrateType::App);
    assert_eq!(made.name, "serde");
    assert_eq!(made.features, strings(&["derive", "rc"]));
    assert_eq!(made.crate_type, CrateType::App);
}

#[test]
fn new_without_features_has_none() {
    let made = RustCrate::new("warp", None, CrateType::Module);
    assert_eq!(made.name, "warp");
    assert_eq!(made.features, None);
    assert_eq!(made.crate_type, CrateType::Module);
}

#[test]
fn new_with_an_empty_list_keeps_the_empty_list() {
    let made = RustCrate::new("", Some(vec![]), CrateType::Module);
    assert_eq!(made.name, "");
    assert_eq!(made.features, Some(vec![]));
}

#[test]
fn known_crates_have_their_registry_names() {
    assert_eq!(Crate::Warp.to_rust_crate().name, "warp");
    assert_eq!(Crate::Tokio.to_rust_crate().name, "tokio");
    assert_eq!(Crate::Dotenv.to_rust_crate().name, "dotenv");
    assert_eq!(Crate::Reqwest.to_rust_crate().name, "reqwest");
    assert_eq!(Crate::State.to_rust_crate().name, "state");
    assert_eq!(Crate::LocalIpAddress.to_rust_crate().name, "local-ip-address");
    assert_eq!(Crate::Serde.to_rust_crate().name, "serde");
    assert_eq!(Crate::SerdeJson.to_rust_crate().name, "serde_json");
    assert_eq!(Crate::Chrono.to_rust_crate().name, "chrono");
    assert_eq!(Crate::Diesel.to_rust_crate().name, "diesel");
    assert_eq!(Crate::RusotoSecretsmanager.to_rust_crate().name, "rusoto_secretsmanager");
    assert_eq!(Crate::RusotoCore.to_rust_crate().name, "rusoto_core");
    assert_eq!(Crate::Uuid.to_rust_crate().name, "uuid");
    assert_eq!(Crate::Anyhow.to_rust_crate().name, "anyhow");
    assert_eq!(Crate::ChronoTz.to_rust_crate().name, "chrono-tz");
    assert_eq!(Crate::TokioStream.to_rust_crate().name, "tokio-stream");
    assert_eq!(Crate::Futures.to_rust_crate().name, "futures");
    assert_eq!(Crate::Imap.to_rust_crate().name, "imap");
    assert_eq!(Crate::NativeTls.to_rust_crate().name, "native-tls");
    assert_eq!(Crate::Regex.to_rust_crate().name, "regex");
    assert_eq!(Crate::Mailparse.to_rust_crate().name, "mailparse");
    assert_eq!(Crate::Csv.to_rust_crate().name, "csv");
    assert_eq!(Crate::Redis.to_rust_crate().name, "redis");
}

#[test]
fn known_crates_have_their_features() {
    assert_eq!(features_of(Crate::Tokio), strings(&["full"]));
    assert_eq!(features_of(Crate::Reqwest), strings(&["json"]));
    assert_eq!(features_of(Crate::Serde), strings(&["derive", "rc"]));
    assert_eq!(features_of(Crate::Diesel), strings(&["postgres", "chrono", "serde_json"]));
    assert_eq!(features_of(Crate::Uuid), strings(&["v4"]));
    assert_eq!(features_of(Crate::Redis), strings(&["tokio-comp"]));
}

#[test]
fn the_other_known_crates_take_their_defaults() {
    let plain = [
        Crate::Warp,
        Crate::Dotenv,
        Crate::State,
        Crate::LocalIpAddress,
        Crate::SerdeJson,
        Crate::Chrono,
        Crate::RusotoSecretsmanager,
        Crate::RusotoCore,
        Crate::Anyhow,
        Crate::ChronoTz,
        Crate::TokioStream,
        Crate::Futures,
        Crate::Imap,
        Crate::NativeTls,
        Crate::Regex,
        Crate::Mailparse,
        Crate::Csv,
    ];
    for known in plain {
        assert_eq!(features_of(known), None);
    }
}

#[test]
fn every_known_crate_is_a_library() {
    assert_eq!(Crate::Warp.to_rust_crate().crate_type, CrateType::Module);
    assert_eq!(Crate::Tokio.to_rust_crate().crate_type, CrateType::Module);
    assert_eq!(Crate::Redis.to_rust_crate().crate_type, CrateType::Module);
}

#[test]
fn plain_records_can_be_made() {
    let author = Author {
        name: "Ada".to_string(),
        organization: "Engines".to_string(),
        email: "ada@engines.example".to_string(),
    };
    assert_eq!(author.clone(), author);
    assert_eq!(RustModule {}, RustModule {});
    assert_eq!(RustApp {}, RustApp {});
}
