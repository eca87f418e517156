use tails::fs::path_exists;
use tails::dotenv::{
    merge_env,
    strip_inline_comment, env_files_in, expand_vars, find_env_files, parse_env_file, unquote, unquote_and_expand, EnvVars,
};

fn get(vars: &EnvVars, key: &str) -> Option<String> {
    vars.get(key).cloned()
}

#[test]
fn parse_basic_file() {
    let vars = parse_env_file("# comment\n\nA=1\n  B = two  \nnot a pair\n=skipped\n");
    assert_eq!(vars.len(), 2);
    assert_eq!(get(&vars, "A"), Some("1".to_string()));
    assert_eq!(get(&vars, "B"), Some("two".to_string()));
    assert_eq!(get(&vars, ""), None);
}

#[test]
fn parse_quotes_and_later_lines_win() {
    let vars = parse_env_file("A=\"x y\"\nB='q'\nC=`b`\nA=again\n");
    assert_eq!(vars.len(), 3);
    assert_eq!(get(&vars, "A"), Some("again".to_string()));
    assert_eq!(get(&vars, "B"), Some("q".to_string()));
    assert_eq!(get(&vars, "C"), Some("b".to_string()));
}

#[test]
fn parse_expands_earlier_variables() {
    let vars = parse_env_file("HOST=example.com\nURL=https://$HOST/x\nURL2=${HOST}:80\nESC=\\$HOST\nLATER=$NEXT\nNEXT=n\n");
    assert_eq!(get(&vars, "URL"), Some("https://example.com/x".to_string()));
    assert_eq!(get(&vars, "URL2"), Some("example.com:80".to_string()));
    assert_eq!(get(&vars, "ESC"), Some("$HOST".to_string()));
    assert_eq!(get(&vars, "LATER"), Some("".to_string()));
}

#[test]
fn parse_value_with_equals_sign() {
    let vars = parse_env_file("K=a=b\n");
    assert_eq!(get(&vars, "K"), Some("a=b".to_string()));
}

#[test]
fn unquote_cases() {
    assert_eq!(unquote("  \"hi\"  "), "hi");
    assert_eq!(unquote("'a'"), "a");
    assert_eq!(unquote("`t`"), "t");
    assert_eq!(unquote("\"mismatch'"), "\"mismatch'");
    assert_eq!(unquote("\""), "\"");
    assert_eq!(unquote("\"\""), "");
    assert_eq!(unquote(" plain "), "plain");
}

#[test]
fn expand_vars_cases() {
    let mut vars = EnvVars::new();
    vars.insert("NAME".to_string(), "world".to_string());
    vars.insert("A_1".to_string(), "v".to_string());
    assert_eq!(expand_vars("hello $NAME!", &vars), "hello world!");
    assert_eq!(expand_vars("${NAME}s", &vars), "worlds");
    assert_eq!(expand_vars("$A_1-$MISSING.", &vars), "v-.");
    assert_eq!(expand_vars("cost: $", &vars), "cost: $");
    assert_eq!(expand_vars("$ x", &vars), "$ x");
    assert_eq!(expand_vars("\\$NAME", &vars), "$NAME");
    assert_eq!(expand_vars("\\n", &vars), "\\n");
    assert_eq!(expand_vars("${NAME", &vars), "world");
    assert_eq!(expand_vars("${}", &vars), "");
}

#[test]
fn expand_vars_keeps_non_ascii_characters() {
    let vars = EnvVars::new();
    assert_eq!(expand_vars("é", &vars), "é");
}

#[test]
fn unquote_and_expand_combines_both() {
    let mut vars = EnvVars::new();
    vars.insert("X".to_string(), "1".to_string());
    assert_eq!(unquote_and_expand("\"$X-$X\"", &vars), "1-1");
}

#[test]
fn env_vars_map_behaviour() {
    let mut vars = EnvVars::new();
    assert_eq!(vars.len(), 0);
    vars.insert("K".to_string(), "1".to_string());
    vars.insert("K".to_string(), "2".to_string());
    assert_eq!(vars.len(), 1);
    assert_eq!(get(&vars, "K"), Some("2".to_string()));
    assert_eq!(vars.entries().len(), 1);
}

#[test]
fn env_files_in_keeps_precedence_order() {
    let all = env_files_in("/p", "production", (true, true, true));
    assert_eq!(all, vec!["/p/.env".to_string(), "/p/.env.production".to_string(), "/p/.env.local".to_string()]);
    let some = env_files_in("/p", "test", (false, true, true));
    assert_eq!(some, vec!["/p/.env.test".to_string(), "/p/.env.local".to_string()]);
    assert!(env_files_in("/p", "x", (false, false, false)).is_empty());
}

#[test]
fn find_env_files_from_a_missing_directory_reaches_the_root() {
    let found = find_env_files("/no-such-dir-xyz/a/b", Some("test"));
    let mut expected = Vec::new();
    for f in ["/.env", "/.env.test", "/.env.local"] {
        if path_exists(f) {
            expected.push(f.to_string());
        }
    }
    assert_eq!(found, expected);
}

#[test]
fn inline_comments_after_values() {
    let vars = parse_env_file("A=1 # note\nB=\"x # y\" # c\nC=a#b\nD='q'   \nE=\"open # x\n");
    assert_eq!(get(&vars, "A"), Some("1".to_string()));
    assert_eq!(get(&vars, "B"), Some("x # y".to_string()));
    assert_eq!(get(&vars, "C"), Some("a#b".to_string()));
    assert_eq!(get(&vars, "D"), Some("q".to_string()));
    assert_eq!(get(&vars, "E"), Some("\"open # x".to_string()));
    assert_eq!(strip_inline_comment("v\t# c"), "v");
    assert_eq!(strip_inline_comment("'a' x"), "'a' x");
    assert_eq!(strip_inline_comment("'a'"), "'a'");
    assert_eq!(strip_inline_comment(""), "");
}

#[test]
fn later_files_override_earlier() {
    let base = parse_env_file("A=1\nB=2\n");
    let local = parse_env_file("B=3\nC=4\n");
    let merged = merge_env(&[base, local]);
    assert_eq!(merged.len(), 3);
    assert_eq!(get(&merged, "A"), Some("1".to_string()));
    assert_eq!(get(&merged, "B"), Some("3".to_string()));
    assert_eq!(get(&merged, "C"), Some("4".to_string()));
    assert_eq!(get(&merged, "D"), None);
    assert_eq!(merge_env(&[]).len(), 0);
}

#[test]
fn quoted_values_come_back_unchanged() {
    assert_eq!(unquote("\"  spaced  \""), "  spaced  ");
    assert_eq!(unquote("'a'"), "a");
    assert_eq!(unquote("`b`"), "b");
    assert_eq!(unquote("\"mismatched'"), "\"mismatched'");
}

#[test]
fn expansion_copies_other_text() {
    let vars = parse_env_file("A=1\n");
    assert_eq!(expand_vars("\\$A-$A-${A}-$B-${B}-$", &vars), "$A-1-1---$");
    assert_eq!(expand_vars("héllo", &vars), "héllo");
}

#[test]
fn env_files_from_takes_the_first_directory_with_any() {
    let seen = vec![(false, false, false), (true, false, true), (true, true, true)];
    let found = tails::dotenv::env_files_from("/a/b", "test", &seen);
    assert_eq!(found, vec!["/a/.env".to_string(), "/a/.env.local".to_string()]);
    assert!(tails::dotenv::env_files_from("/a/b", "test", &vec![(false, false, false)]).is_empty());
    assert!(tails::dotenv::env_files_from("/", "test", &vec![(false, false, false), (true, true, true)]).is_empty());
}
