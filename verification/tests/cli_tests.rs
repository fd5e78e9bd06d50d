use x86_asm_test::cli::Cli;

fn parse(args: &[&str]) -> Cli {
    let v: Vec<String> = args.iter().map(|a| a.to_string()).collect();
    match Cli::parse_args(&v) {
        Ok(c) => c,
        Err(e) => panic!("{}", e.message),
    }
}

#[test]
fn test_cli_default_values() {
    let cli = parse(&["test"]);
    assert_eq!(cli.test_file, None);
    assert_eq!(cli.include_path, None);
    assert_eq!(cli.output_file, None);
    assert_eq!(cli.verbose, 0);
    assert_eq!(cli.quiet, false);
}

#[test]
fn test_cli_with_test_file() {
    let cli = parse(&["test", "--test", "test.asm"]);
    assert_eq!(cli.test_file, Some("test.asm".to_string()));
    assert_eq!(cli.include_path, None);
    assert_eq!(cli.output_file, None);
    assert_eq!(cli.verbose, 0);
    assert_eq!(cli.quiet, false);
}

#[test]
fn test_cli_with_include_path() {
    let cli = parse(&["test", "--include", "/path/to/include"]);
    assert_eq!(cli.test_file, None);
    assert_eq!(cli.include_path, Some("/path/to/include".to_string()));
    assert_eq!(cli.output_file, None);
    assert_eq!(cli.verbose, 0);
    assert_eq!(cli.quiet, false);
}

#[test]
fn test_cli_with_output_file() {
    let cli = parse(&["test", "--output", "result.asm"]);
    assert_eq!(cli.test_file, None);
    assert_eq!(cli.include_path, None);
    assert_eq!(cli.output_file, Some("result.asm".to_string()));
    assert_eq!(cli.verbose, 0);
    assert_eq!(cli.quiet, false);
}

#[test]
fn test_cli_with_verbose_flag() {
    let cli = parse(&["test", "--verbose"]);
    assert_eq!(cli.test_file, None);
    assert_eq!(cli.include_path, None);
    assert_eq!(cli.output_file, None);
    assert_eq!(cli.verbose, 1);
    assert_eq!(cli.quiet, false);
}

#[test]
fn test_cli_with_multiple_verbose_flags() {
    let cli = parse(&["test", "-vv"]);
    assert_eq!(cli.test_file, None);
    assert_eq!(cli.include_path, None);
    assert_eq!(cli.output_file, None);
    assert_eq!(cli.verbose, 2);
    assert_eq!(cli.quiet, false);
}

#[test]
fn test_cli_with_quiet_flag() {
    let cli = parse(&["test", "--quiet"]);
    assert_eq!(cli.test_file, None);
    assert_eq!(cli.include_path, None);
    assert_eq!(cli.output_file, None);
    assert_eq!(cli.verbose, 0);
    assert_eq!(cli.quiet, true);
}

#[test]
fn test_cli_with_combined_flags() {
    let cli = parse(&["test", "--test", "test.asm", "--include", "/include", "--output", "result.asm", "-v", "-q"]);
    assert_eq!(cli.test_file, Some("test.asm".to_string()));
    assert_eq!(cli.include_path, Some("/include".to_string()));
    assert_eq!(cli.output_file, Some("result.asm".to_string()));
    assert_eq!(cli.verbose, 1);
    assert_eq!(cli.quiet, true);
}

#[test]
fn test_cli_with_short_flags() {
    let cli = parse(&["test", "-t", "test.asm", "-i", "/include", "-o", "result.asm"]);
    assert_eq!(cli.test_file, Some("test.asm".to_string()));
    assert_eq!(cli.include_path, Some("/include".to_string()));
    assert_eq!(cli.output_file, Some("result.asm".to_string()));
    assert_eq!(cli.verbose, 0);
    assert_eq!(cli.quiet, false);
}

#[test]
fn cli_rejects_unknown_option() {
    let v: Vec<String> = vec!["test".to_string(), "--bogus".to_string()];
    let e = match Cli::parse_args(&v) {
        Ok(_) => panic!("accepted an unknown option"),
        Err(e) => e,
    };
    assert_eq!(e.exit_code, 2);
    assert!(e.use_stderr);
    assert!(e.message.contains("--bogus"));
}

#[test]
fn cli_reports_version() {
    let v: Vec<String> = vec!["test".to_string(), "--version".to_string()];
    let e = match Cli::parse_args(&v) {
        Ok(_) => panic!("--version parsed as a command line"),
        Err(e) => e,
    };
    assert_eq!(e.exit_code, 0);
    assert!(!e.use_stderr);
    assert!(e.message.contains("0.1.0"));
}

#[test]
fn cli_value_option_needs_a_value() {
    let v: Vec<String> = vec!["test".to_string(), "--test".to_string()];
    assert!(Cli::parse_args(&v).is_err());
}

#[test]
fn cli_accepts_reg_init_code() {
    let c = parse(&["test", "--test", "in.asm", "--reg-init-code"]);
    assert_eq!(c.test_file, Some("in.asm".to_string()));
    assert!(c.reg_init_code);
    let d = parse(&["test", "--test", "in.asm"]);
    assert!(!d.reg_init_code);
}
