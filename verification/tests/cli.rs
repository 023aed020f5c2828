//! Arguments of the command-line driver.

use formawasm::cli::{derive_output_path, parse_args, Args, ArgsError};

fn argv(args: &[&str]) -> Vec<String> {
    let mut all = vec!["formawasm-cli".to_string()];
    all.extend(args.iter().map(|a| a.to_string()));
    all
}

#[test]
fn the_output_has_the_name_of_the_input() {
    assert_eq!(
        parse_args(&argv(&["id.fv"])),
        Ok(Args { input: "id.fv".to_string(), output: "id.wasm".to_string() })
    );
}

#[test]
fn the_output_can_be_named() {
    for args in [["-o", "out.bin", "a/id.fv"], ["a/id.fv", "--output", "out.bin"]] {
        assert_eq!(
            parse_args(&argv(&args)),
            Ok(Args { input: "a/id.fv".to_string(), output: "out.bin".to_string() })
        );
    }
}

#[test]
fn bad_arguments_are_rejected() {
    let cases: Vec<(&[&str], ArgsError, &str)> = vec![
        (&["--help"], ArgsError::Usage, "(usage)"),
        (&["a", "-h"], ArgsError::Usage, "(usage)"),
        (&["a", "-o"], ArgsError::MissingValue, "-o requires a value"),
        (&["-x"], ArgsError::UnknownFlag("-x".to_string()), "unknown flag: -x"),
        (
            &["a", "b"],
            ArgsError::UnexpectedArgument("b".to_string()),
            "unexpected positional argument: b",
        ),
        (&[], ArgsError::MissingInput, "missing input file"),
    ];
    for (args, error, message) in cases {
        assert_eq!(error.message(), message);
        assert_eq!(parse_args(&argv(args)), Err(error));
    }
    assert_eq!(parse_args(&vec![]), Err(ArgsError::MissingInput));
}

#[test]
fn extensions_are_replaced() {
    assert_eq!(derive_output_path("id.fv"), "id.wasm");
    assert_eq!(derive_output_path("a.b/c"), "a.b/c.wasm");
    assert_eq!(derive_output_path("x.tar.gz"), "x.tar.wasm");
    assert_eq!(derive_output_path(".hidden"), ".hidden.wasm");
    assert_eq!(derive_output_path(".."), "...wasm");
}
