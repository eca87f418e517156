use tails::cli::{clock_time, line_imports, now_timestamp};
use tails::os::{arch, homedir_from, hostname_from, os_type, platform};
use tails::process::{hrtime, hrtime_bigint, total_nanos};

#[test]
fn platform_names() {
    assert_eq!(platform("linux"), "linux");
    assert_eq!(platform("macos"), "darwin");
    assert_eq!(platform("windows"), "win32");
    assert_eq!(platform("freebsd"), "unknown");
    assert_eq!(tails::process::platform("macos"), "darwin");
}

#[test]
fn arch_names() {
    assert_eq!(arch("x86_64"), "x64");
    assert_eq!(arch("aarch64"), "arm64");
    assert_eq!(arch("x86"), "x86");
    assert_eq!(arch("riscv64"), "unknown");
    assert_eq!(tails::process::arch("aarch64"), "arm64");
}

#[test]
fn os_type_names() {
    assert_eq!(os_type("linux"), "Linux");
    assert_eq!(os_type("macos"), "Darwin");
    assert_eq!(os_type("windows"), "Windows_NT");
    assert_eq!(os_type("haiku"), "Unknown");
}

#[test]
fn hostname_choice() {
    assert_eq!(hostname_from(Some("h1".to_string()), Some("h2".to_string())), "h1");
    assert_eq!(hostname_from(Some("".to_string()), Some("h2".to_string())), "h2");
    assert_eq!(hostname_from(None, Some("".to_string())), "localhost");
    assert_eq!(hostname_from(None, None), "localhost");
}

#[test]
fn homedir_choice() {
    assert_eq!(homedir_from(Some("/home/a".to_string()), Some("C:\\u".to_string()), true), "/home/a");
    assert_eq!(homedir_from(None, Some("C:\\u".to_string()), true), "C:\\u");
    assert_eq!(homedir_from(None, Some("C:\\u".to_string()), false), "/");
    assert_eq!(homedir_from(Some("".to_string()), None, false), "/");
}

#[test]
fn time_readings() {
    let (s, n) = hrtime();
    assert!(n < 1_000_000_000);
    assert!(s > 1_600_000_000);
    let b = hrtime_bigint();
    assert!(b / 1_000_000_000 >= s as u128);
    assert_eq!(total_nanos(2, 5), 2_000_000_005);
    assert_eq!(total_nanos(u64::MAX, 999_999_999), u64::MAX as u128 * 1_000_000_000 + 999_999_999);
}

#[test]
fn clock_formatting() {
    assert_eq!(clock_time(0), "00:00:00");
    assert_eq!(clock_time(3661), "01:01:01");
    assert_eq!(clock_time(86399), "23:59:59");
    assert_eq!(clock_time(86400 + 45296), "12:34:56");
    let now = now_timestamp();
    assert_eq!(now.len(), 8);
    assert_eq!(&now[2..3], ":");
}

#[test]
fn imports_of_a_line() {
    assert_eq!(line_imports("import { a } from \"./a.ts\";"), vec!["./a.ts".to_string()]);
    assert_eq!(line_imports("  import \"./side.ts\";"), vec!["./side.ts".to_string()]);
    assert_eq!(line_imports("const x = require('../lib');"), vec!["../lib".to_string()]);
    assert_eq!(line_imports("export { y } from './y';"), vec!["./y".to_string()]);
    assert!(line_imports("import x from \"lodash\";").is_empty());
    assert!(line_imports("  // import \"./c.ts\"").is_empty());
    assert!(line_imports("from \"./unterminated").is_empty());
}

#[test]
fn imports_of_a_line_take_the_first_double_quote() {
    assert_eq!(
        line_imports("import './x'; const y = require(\"./z\")"),
        vec!["./x'; const y = require(".to_string(), "./z".to_string()]
    );
}
