use cnctd_cargo::cargo_toml::Author;
use cnctd_cargo::dependencies::{local_dependency_path, PathAttribute};
use cnctd_cargo::editing::{author_line, kind_keyword};
use cnctd_cargo::workspace::{directories_of, holds_wildcard, resolve_members, GlobMatch, Members};
use cnctd_cargo::{Cargo, CargoError, CrateType};

const PACKAGE: &str = "# a demo\n[package]\nname = \"demo\"   # the name\nversion = \"1.2.3\"\nedition = \"2021\"\nrepository = \"https://example.org/demo\"\npublish = false\n\n[dependencies]\nserde = \"1\"\n";

fn found(path: &str, is_dir: bool) -> GlobMatch {
    GlobMatch::Found { path: path.to_string(), is_dir }
}

fn strings(texts: &[&str]) -> Vec<String> {
    texts.iter().map(|text| text.to_string()).collect()
}

fn ada() -> Author {
    Author {
        name: "Ada Lovelace".to_string(),
        organization: "Analytical Engines".to_string(),
        email: "ada@engines.example".to_string(),
    }
}

#[test]
fn package_fields_are_read() {
    assert_eq!(Cargo::get_package_version(PACKAGE), Ok("1.2.3".to_string()));
    assert_eq!(Cargo::get_package_name(PACKAGE), Ok("demo".to_string()));
    assert_eq!(Cargo::get_package_repo(PACKAGE), Ok("https://example.org/demo".to_string()));
}

#[test]
fn absent_field_is_not_found() {
    let text = "[package]\nname = \"demo\"\n";
    assert_eq!(Cargo::get_package_version(text), Err(CargoError::NotFound));
    assert_eq!(Cargo::get_package_repo(text), Err(CargoError::NotFound));
    assert_eq!(Cargo::get_package_name("[workspace]\nmembers = []\n"), Err(CargoError::NotFound));
    assert_eq!(Cargo::get_package_name(""), Err(CargoError::NotFound));
}

#[test]
fn field_that_is_no_text_is_not_found() {
    assert_eq!(Cargo::get_package_version("[package]\nversion = 3\n"), Err(CargoError::NotFound));
    assert_eq!(
        Cargo::get_package_version("[package]\nversion = { workspace = true }\n"),
        Err(CargoError::NotFound)
    );
    assert_eq!(Cargo::get_package_name("package = \"demo\"\n"), Err(CargoError::NotFound));
}

#[test]
fn text_that_is_no_document_is_a_parse_error() {
    assert_eq!(Cargo::get_package_version("[package\nname"), Err(CargoError::ParseError));
    assert_eq!(Cargo::get_package_name("name = \n"), Err(CargoError::ParseError));
    assert_eq!(Cargo::get_package_repo("a = 1\na = 2\n"), Err(CargoError::ParseError));
}

#[test]
fn manifest_path_is_below_the_package() {
    assert_eq!(Cargo::manifest_path("packages/a"), "packages/a/Cargo.toml");
    assert_eq!(Cargo::manifest_path(""), "/Cargo.toml");
}

#[test]
fn manifest_without_workspace_has_no_members() {
    assert_eq!(Cargo::get_workspace_members(PACKAGE, &vec![]), Ok(Members::Resolved(vec![])));
    assert_eq!(Cargo::get_workspace_members("", &vec![]), Ok(Members::Resolved(vec![])));
}

#[test]
fn workspace_without_member_list_has_no_members() {
    assert_eq!(
        Cargo::get_workspace_members("[workspace]\nresolver = \"2\"\n", &vec![]),
        Ok(Members::Resolved(vec![]))
    );
    assert_eq!(
        Cargo::get_workspace_members("[workspace]\nmembers = \"a\"\n", &vec![]),
        Ok(Members::Resolved(vec![]))
    );
    assert_eq!(
        Cargo::get_workspace_members("workspace = 1\n", &vec![]),
        Ok(Members::Resolved(vec![]))
    );
}

#[test]
fn workspace_manifest_that_is_no_document_is_a_parse_error() {
    assert_eq!(Cargo::get_workspace_members("[workspace", &vec![]), Err(CargoError::ParseError));
}

#[test]
fn member_entries_are_read_as_written() {
    let text = "[workspace]\nmembers = [\"b\", \"libs/*\", 3, \"pkg?\"]\n";
    assert_eq!(Cargo::get_workspace_entries(text), Ok(strings(&["b", "libs/*", "pkg?"])));
    assert_eq!(Cargo::get_workspace_entries(PACKAGE), Ok(vec![]));
    assert_eq!(Cargo::get_workspace_entries("[workspace"), Err(CargoError::ParseError));
}

#[test]
fn no_local_dependency_is_listed_twice() {
    let text = "[dependencies]\nb = { path = \"../b\", version = \"1\" }\na = { path = \"../a\", version = \"1\" }\nc = { path = \"../a\", version = \"2\" }\n";
    let local = Cargo::get_local_dependencies(text).unwrap();
    assert_eq!(local.len(), 3);
    for i in 0..local.len() {
        for j in 0..i {
            assert_ne!(local[i].0, local[j].0);
        }
    }
}

#[test]
fn literal_members_are_taken_as_written() {
    let text = "[workspace]\nmembers = [\"b\", \"a\", \"missing/dir\", \"a\"]\n";
    assert_eq!(
        Cargo::get_workspace_members(text, &vec![]),
        Ok(Members::Resolved(strings(&["b", "a", "missing/dir", "a"])))
    );
}

#[test]
fn members_that_are_no_text_are_left_out() {
    let text = "[workspace]\nmembers = [\"a\", 1, true, [\"x\"], \"b\"]\n";
    assert_eq!(
        Cargo::get_workspace_members(text, &vec![]),
        Ok(Members::Resolved(strings(&["a", "b"])))
    );
}

#[test]
fn pattern_is_asked_for_before_it_is_resolved() {
    let text = "[workspace]\nmembers = [\"packages/*\"]\n";
    assert_eq!(
        Cargo::get_workspace_members(text, &vec![]),
        Ok(Members::Expand("packages/*".to_string()))
    );
}

#[test]
fn pattern_resolves_to_the_directories_among_its_matches() {
    let text = "[workspace]\nmembers = [\"packages/*\"]\n";
    let expansions = vec![vec![
        found("packages/a", true),
        found("packages/b", true),
        found("packages/c", false),
    ]];
    assert_eq!(
        Cargo::get_workspace_members(text, &expansions),
        Ok(Members::Resolved(strings(&["packages/a", "packages/b"])))
    );
}

#[test]
fn matches_stand_at_the_place_of_their_pattern() {
    let text = "[workspace]\nmembers = [\"first\", \"libs/*\", \"middle\", \"apps/*\", \"last\"]\n";
    assert_eq!(
        Cargo::get_workspace_members(text, &vec![]),
        Ok(Members::Expand("libs/*".to_string()))
    );
    let one = vec![vec![found("libs/z", true), GlobMatch::Unreadable, found("libs/a", true)]];
    assert_eq!(
        Cargo::get_workspace_members(text, &one),
        Ok(Members::Expand("apps/*".to_string()))
    );
    let two = vec![
        vec![found("libs/z", true), GlobMatch::Unreadable, found("libs/a", true)],
        vec![found("apps/readme", false), found("apps/x", true)],
    ];
    assert_eq!(
        Cargo::get_workspace_members(text, &two),
        Ok(Members::Resolved(strings(&["first", "libs/z", "libs/a", "middle", "apps/x", "last"])))
    );
}

#[test]
fn pattern_without_matches_resolves_to_nothing() {
    let text = "[workspace]\nmembers = [\"a\", \"none/*\"]\n";
    assert_eq!(
        Cargo::get_workspace_members(text, &vec![vec![]]),
        Ok(Members::Resolved(strings(&["a"])))
    );
}

#[test]
fn expansions_beyond_the_patterns_are_not_used() {
    let entries = strings(&["a", "p/*"]);
    let expansions = vec![vec![found("p/x", true)], vec![found("q/y", true)]];
    assert_eq!(resolve_members(&entries, &expansions), Members::Resolved(strings(&["a", "p/x"])));
}

#[test]
fn resolving_no_entries_gives_no_members() {
    assert_eq!(resolve_members(&vec![], &vec![]), Members::Resolved(vec![]));
    assert_eq!(resolve_members(&vec![], &vec![vec![found("x", true)]]), Members::Resolved(vec![]));
}

#[test]
fn star_anywhere_makes_a_pattern() {
    assert_eq!(resolve_members(&strings(&["a*b"]), &vec![]), Members::Expand("a*b".to_string()));
    assert_eq!(resolve_members(&strings(&["*"]), &vec![]), Members::Expand("*".to_string()));
}

#[test]
fn question_mark_and_bracket_make_a_pattern() {
    assert_eq!(resolve_members(&strings(&["pkg?"]), &vec![]), Members::Expand("pkg?".to_string()));
    assert_eq!(
        resolve_members(&strings(&["a", "pkg[12]"]), &vec![]),
        Members::Expand("pkg[12]".to_string())
    );
    assert_eq!(
        resolve_members(&strings(&["a?b", "[ab]"]), &vec![vec![found("axb", true)]]),
        Members::Expand("[ab]".to_string())
    );
    assert!(holds_wildcard("pkg?"));
    assert!(holds_wildcard("[ab]"));
    assert!(holds_wildcard("a*"));
    assert!(!holds_wildcard("packages/a"));
    assert!(!holds_wildcard("a]b{c}"));
    assert!(!holds_wildcard(""));
}

#[test]
fn question_mark_pattern_resolves_to_the_directories_among_its_matches() {
    let text = "[workspace]\nmembers = [\"pkg?\"]\n";
    assert_eq!(
        Cargo::get_workspace_members(text, &vec![]),
        Ok(Members::Expand("pkg?".to_string()))
    );
    let expansions = vec![vec![found("pkg1", true), found("pkg2", true), found("pkg3", false)]];
    assert_eq!(
        Cargo::get_workspace_members(text, &expansions),
        Ok(Members::Resolved(strings(&["pkg1", "pkg2"])))
    );
}

#[test]
fn directories_are_picked_in_their_order() {
    let matches = vec![
        found("z", true),
        found("file", false),
        GlobMatch::Unreadable,
        found("a", true),
    ];
    assert_eq!(directories_of(&matches), strings(&["z", "a"]));
    assert_eq!(directories_of(&vec![]), Vec::<String>::new());
}

#[test]
fn dependency_with_path_and_version_is_local() {
    let text = "[dependencies]\nfoo = { path = \"../foo\", version = \"1.0\" }\nbar = { path = \"../bar\" }\nbaz = \"2.0\"\n";
    assert_eq!(
        Cargo::get_local_dependencies(text),
        Ok(vec![("foo".to_string(), "../foo".to_string())])
    );
}

#[test]
fn manifest_without_dependencies_is_a_schema_error() {
    assert_eq!(Cargo::get_local_dependencies(PACKAGE.split("[dependencies]").next().unwrap()), Err(CargoError::SchemaError));
    assert_eq!(Cargo::get_local_dependencies(""), Err(CargoError::SchemaError));
}

#[test]
fn dependencies_that_are_no_table_are_a_schema_error() {
    assert_eq!(Cargo::get_local_dependencies("dependencies = 1\n"), Err(CargoError::SchemaError));
    assert_eq!(Cargo::get_local_dependencies("dependencies = [\"a\"]\n"), Err(CargoError::SchemaError));
}

#[test]
fn dependency_manifest_that_is_no_document_is_a_parse_error() {
    assert_eq!(Cargo::get_local_dependencies("[dependencies\n"), Err(CargoError::ParseError));
}

#[test]
fn empty_dependencies_have_no_local_ones() {
    assert_eq!(Cargo::get_local_dependencies("[dependencies]\n"), Ok(vec![]));
    assert_eq!(Cargo::get_local_dependencies(PACKAGE), Ok(vec![]));
}

#[test]
fn version_alone_or_path_alone_is_not_local() {
    let text = "[dependencies]\na = { version = \"1\" }\nb = { path = \"../b\" }\nc = { git = \"x\" }\nd = 3\n";
    assert_eq!(Cargo::get_local_dependencies(text), Ok(vec![]));
}

#[test]
fn several_local_dependencies_are_all_listed() {
    let text = "[dependencies.one]\npath = \"../one\"\nversion = \"0.1\"\n\n[dependencies.two]\nversion = \"2\"\npath = \"/abs/two\"\nfeatures = [\"x\"]\n";
    let mut local = Cargo::get_local_dependencies(text).unwrap();
    local.sort();
    assert_eq!(
        local,
        vec![
            ("one".to_string(), "../one".to_string()),
            ("two".to_string(), "/abs/two".to_string()),
        ]
    );
}

#[test]
fn path_that_is_no_text_beside_a_version_is_a_schema_error() {
    let text = "[dependencies]\na = { path = 1, version = \"1\" }\n";
    assert_eq!(Cargo::get_local_dependencies(text), Err(CargoError::SchemaError));
    let later = "[dependencies]\na = { path = \"../a\", version = \"1\" }\nb = { path = [\"x\"], version = \"1\" }\n";
    assert_eq!(Cargo::get_local_dependencies(later), Err(CargoError::SchemaError));
}

#[test]
fn path_that_is_no_text_without_a_version_is_passed_over() {
    let text = "[dependencies]\na = { path = 1 }\nb = { path = \"../b\", version = \"1\" }\n";
    assert_eq!(
        Cargo::get_local_dependencies(text),
        Ok(vec![("b".to_string(), "../b".to_string())])
    );
}

#[test]
fn the_rule_for_local_dependencies() {
    assert_eq!(local_dependency_path(PathAttribute::Absent, true), Ok(None));
    assert_eq!(local_dependency_path(PathAttribute::Absent, false), Ok(None));
    assert_eq!(
        local_dependency_path(PathAttribute::Text("../x".to_string()), true),
        Ok(Some("../x".to_string()))
    );
    assert_eq!(local_dependency_path(PathAttribute::Text("../x".to_string()), false), Ok(None));
    assert_eq!(local_dependency_path(PathAttribute::Other, true), Err(CargoError::SchemaError));
    assert_eq!(local_dependency_path(PathAttribute::Other, false), Ok(None));
}

#[test]
fn update_sets_the_five_fields() {
    let out = Cargo::update_cargo_toml(
        "[package]\nname = \"demo\"\nversion = \"0.1.0\"\n",
        &ada(),
        "A demo",
        "https://example.org/demo",
        "MIT",
        CrateType::App,
    )
    .unwrap();
    assert_eq!(
        out,
        "[package]\nname = \"demo\"\nversion = \"0.1.0\"\nauthors = [\"Analytical Engines\", \"Ada Lovelace <ada@engines.example>\"]\ndescription = \"A demo\"\nrepository = \"https://example.org/demo\"\nlicense = \"MIT\"\nkeywords = [\"app\"]\n"
    );
}

#[test]
fn update_of_a_library_has_the_keyword_module() {
    let out = Cargo::update_cargo_toml(
        "[package]\nname = \"demo\"\n",
        &ada(),
        "d",
        "r",
        "l",
        CrateType::Module,
    )
    .unwrap();
    assert!(out.contains("keywords = [\"module\"]\n"));
    assert!(!out.contains("\"app\""));
}

#[test]
fn update_keeps_the_other_fields_and_the_comments() {
    let out = Cargo::update_cargo_toml(
        PACKAGE,
        &ada(),
        "A demo",
        "https://example.org/other",
        "Apache-2.0",
        CrateType::Module,
    )
    .unwrap();
    assert!(out.starts_with("# a demo\n[package]\nname = \"demo\"   # the name\nversion = \"1.2.3\"\nedition = \"2021\"\n"));
    assert!(out.contains("publish = false\n"));
    assert!(out.ends_with("\n[dependencies]\nserde = \"1\"\n"));
    assert_eq!(Cargo::get_package_name(&out), Ok("demo".to_string()));
    assert_eq!(Cargo::get_package_version(&out), Ok("1.2.3".to_string()));
    assert_eq!(Cargo::get_package_repo(&out), Ok("https://example.org/other".to_string()));
    assert_eq!(Cargo::get_local_dependencies(&out), Ok(vec![]));
}

#[test]
fn update_twice_gives_the_same_as_once() {
    let once = Cargo::update_cargo_toml(PACKAGE, &ada(), "d", "r", "l", CrateType::App).unwrap();
    let twice = Cargo::update_cargo_toml(&once, &ada(), "d", "r", "l", CrateType::App).unwrap();
    assert_eq!(once, twice);
}

#[test]
fn update_without_package_is_a_schema_error() {
    assert_eq!(
        Cargo::update_cargo_toml("[workspace]\nmembers = []\n", &ada(), "d", "r", "l", CrateType::App),
        Err(CargoError::SchemaError)
    );
    assert_eq!(
        Cargo::update_cargo_toml("", &ada(), "d", "r", "l", CrateType::App),
        Err(CargoError::SchemaError)
    );
    assert_eq!(
        Cargo::update_cargo_toml("package = 1\n", &ada(), "d", "r", "l", CrateType::App),
        Err(CargoError::SchemaError)
    );
    assert_eq!(
        Cargo::update_cargo_toml("package = { name = \"a\" }\n", &ada(), "d", "r", "l", CrateType::App),
        Err(CargoError::SchemaError)
    );
}

#[test]
fn update_of_text_that_is_no_document_is_a_parse_error() {
    assert_eq!(
        Cargo::update_cargo_toml("[package\n", &ada(), "d", "r", "l", CrateType::App),
        Err(CargoError::ParseError)
    );
}

#[test]
fn author_is_listed_with_the_address_in_brackets() {
    assert_eq!(author_line(&ada()), "Ada Lovelace <ada@engines.example>");
    let empty = Author { name: String::new(), organization: String::new(), email: String::new() };
    assert_eq!(author_line(&empty), " <>");
}

#[test]
fn keyword_tells_the_kind() {
    assert_eq!(kind_keyword(CrateType::App), "app");
    assert_eq!(kind_keyword(CrateType::Module), "module");
}
