//! The commands that the tool hands to the shell, and what it makes of the
//! answers of the toolchain.

use crate::cargo::Cargo;
use crate::catalog::CrateType;
use crate::text::string_views;
use vstd::prelude::*;

verus! {

/// The command that sets a package of the given kind up.
pub open spec fn init_command(crate_type: CrateType) -> Seq<char> {
    match crate_type {
        CrateType::App => "cargo init"@,
        CrateType::Module => "cargo init --lib"@,
    }
}

/// What is reported of the toolchain: a line for each tool whose probe did
/// not end with status zero, the compiler first.
pub open spec fn toolchain_report(rust_status: i32, cargo_status: i32) -> Seq<Seq<char>> {
    let rust = if rust_status != 0 {
        seq!["Rust is not installed."@]
    } else {
        Seq::empty()
    };
    let cargo = if cargo_status != 0 {
        seq!["Cargo is not installed."@]
    } else {
        Seq::empty()
    };
    rust + cargo
}

impl Cargo {
    /// The command that sets up a new package in the current directory: a
    /// program for `App`, a library for `Module`.
    pub fn init(crate_type: CrateType) -> (command: &'static str)
        ensures
            command@ == init_command(crate_type),
    {
        match crate_type {
            CrateType::App => "cargo init",
            CrateType::Module => "cargo init --lib",
        }
    }

    /// The command that adds a crate to the dependencies of the package.
    pub fn install_crate(crate_name: &str) -> (command: String)
        ensures
            command@ == "cargo add "@ + crate_name@,
    {
        let mut command = "cargo add ".to_owned();
        command.append(crate_name);
        command
    }

    /// What to report of the toolchain, given the exit status of
    /// `rustc --version` and of `cargo --version`. A status other than zero
    /// means that the tool is missing; that is reported and is no failure.
    pub fn check_for_rust_and_cargo(rust_status: i32, cargo_status: i32) -> (report: Vec<String>)
        ensures
            string_views(report@) == toolchain_report(rust_status, cargo_status),
    {
        let mut report: Vec<String> = Vec::new();
        assert(string_views(report@) == Seq::<Seq<char>>::empty());
        if rust_status != 0 {
            let ghost before = string_views(report@);
            report.push("Rust is not installed.".to_owned());
            assert(string_views(report@) == before.push("Rust is not installed."@));
        }
        if cargo_status != 0 {
            let ghost before = string_views(report@);
            report.push("Cargo is not installed.".to_owned());
            assert(string_views(report@) == before.push("Cargo is not installed."@));
        }
        report
    }
}

} // verus!
