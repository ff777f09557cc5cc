use vstd::prelude::*;

verus! {

/// Whether a crate is built as a program or as a library.
#[derive(Debug, Clone, Copy, PartialEq, Eq, Structural)]
pub enum CrateType {
    App,
    Module,
}

/// A dependency as it is added to a project: its registry name, the features
/// it is switched on with, and the kind of crate it is.
#[derive(Debug, Clone, PartialEq, Eq)]
pub struct RustCrate {
    pub name: String,
    pub features: Option<Vec<String>>,
    pub crate_type: CrateType,
}

impl RustCrate {
    /// The features by their text, `None` where no feature list is given.
    pub open spec fn feature_names(self) -> Option<Seq<Seq<char>>> {
        self.features.deep_view()
    }

    /// Builds the record from borrowed text, keeping the features in their order.
    pub fn new(name: &str, features: Option<Vec<&str>>, crate_type: CrateType) -> (out: Self)
        ensures
            out.name@ == name@,
            out.feature_names() == features.deep_view(),
            out.crate_type == crate_type,
    {
        let owned = match features {
            None => None,
            Some(list) => {
                let mut names: Vec<String> = Vec::new();
                let mut i: usize = 0;
                while i < list.len()
                    invariant
                        i <= list.len(),
                        names.len() == i,
                        forall|k: int| 0 <= k < i ==> names[k]@ == list[k]@,
                    decreases list.len() - i,
                {
                    names.push(list[i].to_owned());
                    i += 1;
                }
                assert(names.deep_view() =~= list.deep_view());
                Some(names)
            },
        };
        RustCrate { name: name.to_owned(), features: owned, crate_type }
    }
}

/// Settings of a library crate.
#[derive(Debug, Clone, PartialEq, Eq)]
pub struct RustModule {}

/// Settings of a program crate.
#[derive(Debug, Clone, PartialEq, Eq)]
pub struct RustApp {}

/// The dependencies this tool knows how to add.
#[derive(Debug, Clone, Copy, PartialEq, Eq)]
pub enum Crate {
    Warp,
    Tokio,
    Dotenv,
    Reqwest,
    State,
    LocalIpAddress,
    Serde,
    SerdeJson,
    Chrono,
    Diesel,
    RusotoSecretsmanager,
    RusotoCore,
    Uuid,
    Anyhow,
    ChronoTz,
    TokioStream,
    Futures,
    Imap,
    NativeTls,
    Regex,
    Mailparse,
    Csv,
    Redis,
}

impl Crate {
    /// The name under which the registry lists the crate.
    pub open spec fn registry_name(self) -> Seq<char> {
        match self {
            Crate::Warp => "warp"@,
            Crate::Tokio => "tokio"@,
            Crate::Dotenv => "dotenv"@,
            Crate::Reqwest => "reqwest"@,
            Crate::State => "state"@,
            Crate::LocalIpAddress => "local-ip-address"@,
            Crate::Serde => "serde"@,
            Crate::SerdeJson => "serde_json"@,
            Crate::Chrono => "chrono"@,
            Crate::Diesel => "diesel"@,
            Crate::RusotoSecretsmanager => "rusoto_secretsmanager"@,
            Crate::RusotoCore => "rusoto_core"@,
            Crate::Uuid => "uuid"@,
            Crate::Anyhow => "anyhow"@,
            Crate::ChronoTz => "chrono-tz"@,
            Crate::TokioStream => "tokio-stream"@,
            Crate::Futures => "futures"@,
            Crate::Imap => "imap"@,
            Crate::NativeTls => "native-tls"@,
            Crate::Regex => "regex"@,
            Crate::Mailparse => "mailparse"@,
            Crate::Csv => "csv"@,
            Crate::Redis => "redis"@,
        }
    }

    /// The features the crate is added with, `None` where it takes its defaults.
    pub open spec fn enabled_features(self) -> Option<Seq<Seq<char>>> {
        match self {
            Crate::Tokio => Some(seq!["full"@]),
            Crate::Reqwest => Some(seq!["json"@]),
            Crate::Serde => Some(seq!["derive"@, "rc"@]),
            Crate::Diesel => Some(seq!["postgres"@, "chrono"@, "serde_json"@]),
            Crate::Uuid => Some(seq!["v4"@]),
            Crate::Redis => Some(seq!["tokio-comp"@]),
            _ => None,
        }
    }

    /// The dependency record of a known crate. Every one of them is a library.
    pub fn to_rust_crate(&self) -> (out: RustCrate)
        ensures
            out.name@ == self.registry_name(),
            out.feature_names() == self.enabled_features(),
            out.crate_type == CrateType::Module,
    {
        match self {
            Crate::Warp => RustCrate::new("warp", None, CrateType::Module),
            Crate::Tokio => Self::with_features("tokio", vec!["full"]),
            Crate::Dotenv => RustCrate::new("dotenv", None, CrateType::Module),
            Crate::Reqwest => Self::with_features("reqwest", vec!["json"]),
            Crate::State => RustCrate::new("state", None, CrateType::Module),
            Crate::LocalIpAddress => RustCrate::new("local-ip-address", None, CrateType::Module),
            Crate::Serde => Self::with_features("serde", vec!["derive", "rc"]),
            Crate::SerdeJson => RustCrate::new("serde_json", None, CrateType::Module),
            Crate::Chrono => RustCrate::new("chrono", None, CrateType::Module),
            Crate::Diesel => Self::with_features("diesel", vec!["postgres", "chrono", "serde_json"]),
            Crate::RusotoSecretsmanager => RustCrate::new(
                "rusoto_secretsmanager",
                None,
                CrateType::Module,
            ),
            Crate::RusotoCore => RustCrate::new("rusoto_core", None, CrateType::Module),
            Crate::Uuid => Self::with_features("uuid", vec!["v4"]),
            Crate::Anyhow => RustCrate::new("anyhow", None, CrateType::Module),
            Crate::ChronoTz => RustCrate::new("chrono-tz", None, CrateType::Module),
            Crate::TokioStream => RustCrate::new("tokio-stream", None, CrateType::Module),
            Crate::Futures => RustCrate::new("futures", None, CrateType::Module),
            Crate::Imap => RustCrate::new("imap", None, CrateType::Module),
            Crate::NativeTls => RustCrate::new("native-tls", None, CrateType::Module),
            Crate::Regex => RustCrate::new("regex", None, CrateType::Module),
            Crate::Mailparse => RustCrate::new("mailparse", None, CrateType::Module),
            Crate::Csv => RustCrate::new("csv", None, CrateType::Module),
            Crate::Redis => Self::with_features("redis", vec!["tokio-comp"]),
        }
    }

    fn with_features(name: &str, features: Vec<&str>) -> (out: RustCrate)
        ensures
            out.name@ == name@,
            out.feature_names() == Some(features.deep_view()),
            out.crate_type == CrateType::Module,
    {
        RustCrate::new(name, Some(features), CrateType::Module)
    }
}

} // verus!
