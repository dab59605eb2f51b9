use lotus::args::{parse_proxy, parse_timeout, Cli};
use std::path::PathBuf;

#[test]
fn test_parse_timeout_valid() {
    assert_eq!(parse_timeout("10").unwrap(), 10);
    assert_eq!(parse_timeout("0").unwrap(), 0);
    assert!(parse_timeout("999999").is_ok());
}

#[test]
fn test_parse_timeout_invalid() {
    assert!(parse_timeout("-10").is_err());
    assert!(parse_timeout("abc").is_err());
    assert!(parse_timeout("").is_err());
}

#[test]
fn test_parse_proxy_valid() {
    assert_eq!(parse_proxy("http://example.com").unwrap(), "http://example.com");
    assert_eq!(parse_proxy("https://example.com").unwrap(), "https://example.com");
}

#[test]
fn test_parse_proxy_invalid() {
    assert!(parse_proxy("ftp://example.com").is_err());
    assert!(parse_proxy("example.com").is_err());
    assert!(parse_proxy("").is_err());
}

#[test]
fn test_cli_struct() {
    let args = vec![
        "lotus",
        "--timeout", "15",
        "--proxy", "http://proxy.test",
        "--output", "output.log",
    ];
    let cli = Cli::from_iter_safe(&args).unwrap();

    assert_eq!(cli.timeout, 15);
    assert_eq!(cli.proxy.unwrap(), "http://proxy.test");
    assert_eq!(PathBuf::from(cli.output), PathBuf::from("output.log"));
}

#[test]
fn test_cli_struct_defaults() {
    let args = vec!["lotus", "--output", "output.log"];
    let cli = Cli::from_iter_safe(&args).unwrap();

    assert_eq!(cli.timeout, 30);
    assert!(cli.proxy.is_none());
    assert_eq!(PathBuf::from(cli.output), PathBuf::from("output.log"));
}

#[test]
fn parse_timeout_edges() {
    assert_eq!(parse_timeout("+7"), Ok(7));
    assert_eq!(parse_timeout("18446744073709551615"), Ok(u64::MAX));
    assert_eq!(
        parse_timeout("18446744073709551616"),
        Err("Invalid timeout value. Must be a positive integer.".to_string())
    );
    assert!(parse_timeout("+").is_err());
}

#[test]
fn parse_proxy_error_text() {
    assert_eq!(
        parse_proxy("socks5://x"),
        Err("Invalid proxy URL. Must start with http:// or https://".to_string())
    );
}

#[test]
fn cli_forms_and_errors() {
    let cli = Cli::from_iter_safe(&vec!["lotus", "-t", "5", "--output=o.txt", "-p", "https://p"]).unwrap();
    assert_eq!(cli.timeout, 5);
    assert_eq!(cli.output, "o.txt");
    assert_eq!(cli.proxy, Some("https://p".to_string()));
    assert_eq!(
        Cli::from_iter_safe(&vec!["lotus", "--timeout", "5"]).err(),
        Some("The argument --output <path> is required.".to_string())
    );
    assert!(Cli::from_iter_safe(&vec!["lotus", "-o", "a", "-o", "b"]).is_err());
    assert!(Cli::from_iter_safe(&vec!["lotus", "-o"]).is_err());
    assert!(Cli::from_iter_safe(&vec!["lotus", "-o", "a", "--timeout", "x"]).is_err());
    assert!(Cli::from_iter_safe(&vec!["lotus", "-o", "a", "--proxy", "ftp://x"]).is_err());
    assert!(Cli::from_iter_safe(&vec!["lotus", "extra"]).is_err());
}

#[test]
fn cli_validate_refuses_zero() {
    let cli = Cli { timeout: 0, proxy: None, output: "o".to_string() };
    assert_eq!(cli.validate(), Err("Timeout must be greater than zero.".to_string()));
    let ok = Cli { timeout: 3, proxy: None, output: "o".to_string() };
    assert_eq!(ok.validate(), Ok(()));
}

#[test]
fn short_options_with_attached_values() {
    let args = vec!["lotus", "-t15", "-p=http://proxy.test", "-oout.log"];
    let cli = Cli::from_iter_safe(&args).unwrap();
    assert_eq!(cli.timeout, 15);
    assert_eq!(cli.proxy.unwrap(), "http://proxy.test");
    assert_eq!(cli.output, "out.log");
    assert!(Cli::from_iter_safe(&vec!["lotus", "-o", "a", "-t="]).is_err());
}
