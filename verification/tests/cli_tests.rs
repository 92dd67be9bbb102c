use loof::cli::preprocess_args;

#[test]
fn test_preprocess_plus_d_uppercase() {
    let args = vec!["loof".to_string(), "+D".to_string(), "/tmp".to_string()];
    let result = preprocess_args(args);
    assert_eq!(result, vec!["loof", "--dir-tree", "/tmp"]);
}

#[test]
fn test_preprocess_plus_d_lowercase() {
    let args = vec!["loof".to_string(), "+d".to_string(), "/var".to_string()];
    let result = preprocess_args(args);
    assert_eq!(result, vec!["loof", "--dir", "/var"]);
}

#[test]
fn test_preprocess_plus_c() {
    let args = vec!["loof".to_string(), "+c".to_string(), "15".to_string()];
    let result = preprocess_args(args);
    assert_eq!(result, vec!["loof", "--cmd-width", "15"]);
}

#[test]
fn test_preprocess_mixed_args() {
    let args = vec![
        "loof".to_string(),
        "-p".to_string(),
        "1234".to_string(),
        "+D".to_string(),
        "/tmp".to_string(),
        "-t".to_string(),
    ];
    let result = preprocess_args(args);
    assert_eq!(result, vec!["loof", "-p", "1234", "--dir-tree", "/tmp", "-t"]);
}

#[test]
fn test_preprocess_no_plus_flags() {
    let args = vec![
        "loof".to_string(),
        "-p".to_string(),
        "1234".to_string(),
        "-n".to_string(),
    ];
    let result = preprocess_args(args.clone());
    assert_eq!(result, args);
}

#[test]
fn test_plus_c_equivalent_to_long_flag() {
    // `loof +c 15 -p 1234` rewrites to exactly the vector that
    // `loof --cmd-width 15 -p 1234` already is, so the two parse alike.
    let short = vec![
        "loof".to_string(),
        "+c".to_string(),
        "15".to_string(),
        "-p".to_string(),
        "1234".to_string(),
    ];
    let long = vec![
        "loof".to_string(),
        "--cmd-width".to_string(),
        "15".to_string(),
        "-p".to_string(),
        "1234".to_string(),
    ];
    assert_eq!(preprocess_args(short), long);
    assert_eq!(preprocess_args(long.clone()), long);
}

#[test]
fn test_preprocess_value_after_plus_flag_kept_verbatim() {
    // The token that follows a `+` flag is consumed as its value and is
    // never rewritten itself.
    let args = vec!["loof".to_string(), "+D".to_string(), "+c".to_string()];
    let result = preprocess_args(args);
    assert_eq!(result, vec!["loof", "--dir-tree", "+c"]);
}
