use runger::config::{Config, Error as ConfigError};
use runger::path::{chars_equal, clone_chars, sort_paths, Path};

fn p(s: &str) -> Path {
    Path::new(s.chars().collect())
}

fn text(path: &Path) -> String {
    path.chars.iter().collect()
}

#[test]
fn parent_of_nested_path() {
    assert_eq!(text(&p("/a/b").parent().unwrap()), "/a");
}

#[test]
fn parent_of_top_level_path_is_root() {
    assert_eq!(text(&p("/a").parent().unwrap()), "/");
}

#[test]
fn root_has_no_parent() {
    assert!(p("/").parent().is_none());
}

#[test]
fn file_name_of_nested_path() {
    let f: String = p("/a/b").file_name().unwrap().iter().collect();
    assert_eq!(f, "b");
}

#[test]
fn root_has_no_file_name() {
    assert!(p("/").file_name().is_none());
}

#[test]
fn absolute_and_relative_paths() {
    assert!(p("/a").is_absolute());
    assert!(!p("a").is_absolute());
}

#[test]
fn lexicographic_order_on_paths() {
    assert!(p("/a").le(&p("/b")));
    assert!(!p("/b").le(&p("/a")));
    assert!(p("/a").le(&p("/a")));
    // '/' sorts before 'b', so the deeper path comes first
    assert!(p("/a/b").le(&p("/ab")));
    assert!(!p("/ab").le(&p("/a/b")));
    // a prefix sorts before its extension
    assert!(p("/a").le(&p("/a/b")));
}

#[test]
fn sort_paths_orders_by_full_path() {
    let sorted = sort_paths(vec![p("/a/d"), p("/a/b"), p("/a/c")]);
    let texts: Vec<String> = sorted.iter().map(text).collect();
    assert_eq!(texts, vec!["/a/b", "/a/c", "/a/d"]);
}

#[test]
fn path_equality_compares_text() {
    assert_eq!(p("/a/b"), p("/a/b"));
    assert_ne!(p("/a/b"), p("/a/c"));
    assert_ne!(p("/a"), p("/a/"));
}

#[test]
fn clone_keeps_the_text() {
    let a = p("/a/b");
    let b = a.clone();
    assert_eq!(a, b);
}

#[test]
fn chars_equal_compares_text() {
    let a: Vec<char> = "abc".chars().collect();
    let b: Vec<char> = "abc".chars().collect();
    let c: Vec<char> = "abd".chars().collect();
    assert!(chars_equal(&a, &b));
    assert!(!chars_equal(&a, &c));
    let _ = clone_chars(&a);
}

#[test]
fn config_default_is_three_columns() {
    let c = Config::default();
    assert_eq!(c.required_columns, 3);
    assert_eq!(c.column_margin, 0);
}

#[test]
fn config_from_values_takes_given_values() {
    let c = Config::from_values(Some(5), Some(2)).unwrap();
    assert_eq!(c.required_columns, 5);
    assert_eq!(c.column_margin, 2);
}

#[test]
fn config_from_values_falls_back_to_defaults() {
    let c = Config::from_values(None, None).unwrap();
    assert_eq!(c.required_columns, 3);
    assert_eq!(c.column_margin, 0);
}

#[test]
fn config_rejects_zero_columns() {
    assert_eq!(
        Config::from_values(Some(0), None).unwrap_err(),
        ConfigError::InvalidRequiredColumns
    );
}

#[test]
fn config_accepts_one_column() {
    let c = Config::from_values(Some(1), None).unwrap();
    assert_eq!(c.required_columns, 1);
}
