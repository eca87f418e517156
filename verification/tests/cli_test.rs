use tails::cli::native_build::parse_build_args;
use tails::cli::{parse_command, parse_run_args, should_rerun, source_imports, Command, DEBOUNCE_MS};

fn args(v: &[&str]) -> Vec<String> {
    v.iter().map(|s| s.to_string()).collect()
}

#[test]
fn help_when_empty_or_asked() {
    assert!(matches!(parse_command(&[]), Command::Help));
    assert!(matches!(parse_command(&args(&["run", "a.ts", "--help"])), Command::Help));
    assert!(matches!(parse_command(&args(&["-h"])), Command::Help));
}

#[test]
fn build_command_options() {
    match parse_command(&args(&["build", "--package", "my-mod", "--release", "--target-dir", "out"])) {
        Command::Build(o) => {
            assert_eq!(o.package, Some("my-mod".to_string()));
            assert!(o.release);
            assert_eq!(o.target_dir, Some("out".to_string()));
        }
        _ => panic!("expected build"),
    }
    match parse_command(&args(&["build", "-p"])) {
        Command::Build(o) => {
            assert_eq!(o.package, None);
            assert!(!o.release);
            assert_eq!(o.target_dir, None);
        }
        _ => panic!("expected build"),
    }
}

#[test]
fn build_args_later_value_wins() {
    let o = parse_build_args(&args(&["-p", "a", "--other", "--package", "b"]));
    assert_eq!(o.package, Some("b".to_string()));
    assert!(!o.release);
}

#[test]
fn clean_and_unknown_commands() {
    assert!(matches!(parse_command(&args(&["clean"])), Command::Clean));
    match parse_command(&args(&["serve", "x"])) {
        Command::Unknown(a) => assert_eq!(a, "serve"),
        _ => panic!("expected unknown"),
    }
}

#[test]
fn run_command_and_bare_script() {
    match parse_command(&args(&["run", "--watch", "--env-file", "prod.env", "main.ts", "--no-color"])) {
        Command::Run(o) => {
            assert!(o.watch);
            assert!(o.no_color);
            assert!(!o.timestamps);
            assert!(!o.no_env_file);
            assert_eq!(o.env_file, Some("prod.env".to_string()));
            assert_eq!(o.script, Some("main.ts".to_string()));
        }
        _ => panic!("expected run"),
    }
    match parse_command(&args(&["app.ts", "-w", "--timestamps", "--no-env-file"])) {
        Command::Run(o) => {
            assert!(o.watch && o.timestamps && o.no_env_file);
            assert_eq!(o.script, Some("app.ts".to_string()));
            assert_eq!(o.env_file, None);
        }
        _ => panic!("expected run"),
    }
}

#[test]
fn run_args_without_script() {
    let o = parse_run_args(&args(&["--env-file", "x.env", "--watch"]));
    assert_eq!(o.script, None);
    assert_eq!(o.env_file, Some("x.env".to_string()));
    let o = parse_run_args(&args(&["--env-file"]));
    assert_eq!(o.env_file, None);
    assert_eq!(o.script, None);
}

#[test]
fn rerun_needs_relevant_watched_and_debounce() {
    assert_eq!(DEBOUNCE_MS, 300);
    assert!(should_rerun(true, true, 300));
    assert!(!should_rerun(true, true, 299));
    assert!(!should_rerun(false, true, 1000));
    assert!(!should_rerun(true, false, 1000));
}

#[test]
fn imports_of_a_source() {
    let src = "import { a } from \"./a\";\n// import x from './skip'\nconst b = require('../lib/b');\nimport \"./side\";\nimport fs from \"fs\";\n";
    assert_eq!(
        source_imports(src),
        vec!["./a".to_string(), "../lib/b".to_string(), "./side".to_string()]
    );
    assert!(source_imports("").is_empty());
}

#[test]
fn push_unique_keeps_first_occurrence() {
    let mut v: Vec<String> = Vec::new();
    assert!(tails::cli::push_unique(&mut v, "/a".to_string()));
    assert!(tails::cli::push_unique(&mut v, "/b".to_string()));
    assert!(!tails::cli::push_unique(&mut v, "/a".to_string()));
    assert_eq!(v, vec!["/a".to_string(), "/b".to_string()]);
}
