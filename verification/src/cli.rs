//! The command line: everything but starting the server.

use vstd::prelude::*;

use crate::text::{concat2, str_eq};

verus! {

/// What the first command-line argument asks for.
#[derive(Debug, PartialEq, Eq)]
pub enum CliCommand {
    /// No argument: start the server.
    Serve,
    /// `-v` or `--version`: print the version.
    Version,
    /// `--openapi`: write the OpenAPI document (JSON) to standard output.
    OpenApi,
    /// `-h` or `--help`: print the usage.
    Help,
    /// Any other argument: complain, print the usage and fail.
    Unknown(String),
}

/// The usage text.
pub const USAGE: &'static str = "使い方: saddle-stitcher [オプション]\n\nオプション無しでサーバーを起動する。\n\n-v, --version              バージョンを表示する\n--openapi                  OpenAPI 仕様 (JSON) を標準出力に書き出す\n-h, --help                 このヘルプを表示する";

/// The command named by the first argument (after the program name).
pub fn parse_command(first: Option<&str>) -> (command: CliCommand)
    ensures
        match first {
            None => command == CliCommand::Serve,
            Some(arg) => {
                if arg@ == "-v"@ || arg@ == "--version"@ {
                    command == CliCommand::Version
                } else if arg@ == "--openapi"@ {
                    command == CliCommand::OpenApi
                } else if arg@ == "-h"@ || arg@ == "--help"@ {
                    command == CliCommand::Help
                } else {
                    command matches CliCommand::Unknown(other) && other@ == arg@
                }
            },
        },
{
    match first {
        None => CliCommand::Serve,
        Some(arg) => {
            if str_eq(arg, "-v") || str_eq(arg, "--version") {
                CliCommand::Version
            } else if str_eq(arg, "--openapi") {
                CliCommand::OpenApi
            } else if str_eq(arg, "-h") || str_eq(arg, "--help") {
                CliCommand::Help
            } else {
                CliCommand::Unknown(String::from_str(arg))
            }
        },
    }
}

/// The line printed for `--version`: `v` and the version.
pub fn version_line(version: &str) -> (line: String)
    ensures
        line@ == "v"@ + version@,
{
    concat2("v", version)
}

/// The complaint about an unknown argument.
pub fn unknown_option_message(arg: &str) -> (message: String)
    ensures
        message@ == "unknown option: "@ + arg@,
{
    concat2("unknown option: ", arg)
}

} // verus!
