use agent_docs::api::render_markdown;
use agent_docs::auth::{generate_key, hash_key, verify_key};
use agent_docs::diff::{count_insertions, count_removals, diff_lines, render_ops, DiffOp};
use agent_docs::text::{
    ascii_lower, contains_str, slugify, split_lines, str_eq, trim, u64_to_string, word_count,
};

#[test]
fn slugify_lowers_and_joins_alphanumeric_runs() {
    assert_eq!(slugify("Hello World"), "hello-world");
    assert_eq!(slugify("  Already--dashed  title "), "already-dashed-title");
    assert_eq!(slugify("C'est l'été"), "c-est-l-été");
    assert_eq!(slugify("!!!"), "");
    assert_eq!(slugify("Same Title"), "same-title");
}

#[test]
fn word_count_counts_whitespace_delimited_tokens() {
    assert_eq!(word_count(""), 0);
    assert_eq!(word_count("   "), 0);
    assert_eq!(word_count("one"), 1);
    assert_eq!(word_count("Line one\nLine two"), 4);
    assert_eq!(word_count("  a\tb\n\nc  "), 3);
}

#[test]
fn trim_strips_whitespace_at_both_ends_only() {
    assert_eq!(trim("  hello  "), "hello");
    assert_eq!(trim("a b"), "a b");
    assert_eq!(trim("\t\n"), "");
    assert_eq!(trim(""), "");
    assert_eq!(trim("x"), "x");
}

#[test]
fn split_lines_matches_line_semantics() {
    let lines = split_lines("Line one\nLine two");
    assert_eq!(lines, vec!["Line one", "Line two"]);
    // a trailing newline adds no empty line; an inner empty line survives
    assert_eq!(split_lines("a\n"), vec!["a"]);
    assert_eq!(split_lines("a\n\nb"), vec!["a", "", "b"]);
    assert!(split_lines("").is_empty());
}

#[test]
fn string_helpers_behave() {
    assert!(str_eq("abc", "abc"));
    assert!(!str_eq("abc", "abd"));
    assert!(!str_eq("abc", "ab"));
    assert!(contains_str("hello world", "lo wo"));
    assert!(!contains_str("hello", "world"));
    assert!(contains_str("anything", ""));
    assert_eq!(ascii_lower("Rust GUIDE é"), "rust guide é");
    assert_eq!(u64_to_string(0), "0");
    assert_eq!(u64_to_string(42), "42");
    assert_eq!(u64_to_string(120), "120");
}

#[test]
fn hash_key_digests_rather_than_echoes() {
    let h = hash_key("adoc_secret");
    // 64 lowercase hex characters, nothing like the input
    assert_eq!(h.len(), 64);
    assert!(h.chars().all(|c| c.is_ascii_hexdigit()));
    assert_ne!(h, "adoc_secret");
    // deterministic, and different keys give different digests
    assert_eq!(h, hash_key("adoc_secret"));
    assert_ne!(h, hash_key("adoc_other"));
    // the known SHA-256 of the empty string pins the algorithm down
    assert_eq!(
        hash_key(""),
        "e3b0c44298fc1c149afbf4c8996fb92427ae41e4649b934ca495991b7852b855"
    );
}

#[test]
fn verify_key_accepts_exactly_the_hashed_key() {
    let h = hash_key("k1");
    assert!(verify_key("k1", &h));
    assert!(!verify_key("k2", &h));
    assert!(!verify_key("k1", "k1"));
}

#[test]
fn generated_keys_carry_the_prefix_and_vary() {
    let a = generate_key();
    let b = generate_key();
    assert!(a.starts_with("adoc_"));
    assert_eq!(a.len(), 37);
    assert!(a[5..].chars().all(|c| c.is_ascii_digit() || ('a'..='f').contains(&c)));
    assert_ne!(a, b);
}

#[test]
fn render_markdown_produces_html() {
    let html = render_markdown("# Title\n**bold**");
    assert!(html.contains("<h1>"));
    assert!(html.contains("<strong>"));
    assert_eq!(render_markdown(""), "");
}

#[test]
fn diff_script_reconstructs_both_sides() {
    let a: Vec<String> = vec!["x".into(), "y".into(), "z".into()];
    let b: Vec<String> = vec!["x".into(), "q".into(), "z".into()];
    let ops = diff_lines(&a, &b);
    assert_eq!(count_insertions(&ops), 1);
    assert_eq!(count_removals(&ops), 1);

    // equal+delete lines give back `a`; equal+insert lines give back `b`
    let mut src: Vec<&str> = Vec::new();
    let mut dst: Vec<&str> = Vec::new();
    for op in &ops {
        match op {
            DiffOp::Equal(l) => {
                src.push(l);
                dst.push(l);
            }
            DiffOp::Delete(l) => src.push(l),
            DiffOp::Insert(l) => dst.push(l),
        }
    }
    assert_eq!(src, vec!["x", "y", "z"]);
    assert_eq!(dst, vec!["x", "q", "z"]);

    let text = render_ops(&ops);
    assert_eq!(text, " x\n-y\n+q\n z\n");
}

#[test]
fn diff_counts_swap_under_reversal() {
    let a: Vec<String> = vec!["one".into(), "two".into()];
    let b: Vec<String> = vec!["one".into(), "two".into(), "three".into(), "four".into()];
    let forward = diff_lines(&a, &b);
    let backward = diff_lines(&b, &a);
    assert_eq!(count_insertions(&forward), 2);
    assert_eq!(count_removals(&forward), 0);
    assert_eq!(count_insertions(&forward), count_removals(&backward));
    assert_eq!(count_removals(&forward), count_insertions(&backward));
}

#[test]
fn diff_of_empty_sides() {
    let none: Vec<String> = Vec::new();
    let some: Vec<String> = vec!["only".into()];
    let ops = diff_lines(&none, &some);
    assert_eq!(count_insertions(&ops), 1);
    assert_eq!(count_removals(&ops), 0);
    let ops = diff_lines(&none, &none);
    assert!(ops.is_empty());
}
