use todo_tui::content::{find_closing_delimiter, format_content_file, split_front_matter, title_to_slug, FrontMatterError};
use todo_tui::validate::{
    context_structure_errors, item_report, missing_root_summary, report_lines, validate_content,
    ContentRead, ItemKind, ItemReport, ValidationSummary,
};

// --- slug helper ---

#[test]
fn slug_basic() {
    assert_eq!(title_to_slug("My First Todo"), "my_first_todo");
}

#[test]
fn slug_special_chars() {
    assert_eq!(title_to_slug("Hello, World!"), "hello_world");
}

#[test]
fn slug_collapses_separators() {
    assert_eq!(title_to_slug("foo  --  bar"), "foo_bar");
}

#[test]
fn slug_empty_input() {
    assert_eq!(title_to_slug("!!!"), "");
}

#[test]
fn slug_keeps_digits_and_non_ascii_letters() {
    assert_eq!(title_to_slug("Task 42"), "task_42");
    assert_eq!(title_to_slug("Café Crème"), "café_crème");
}

#[test]
fn slug_trims_leading_and_trailing_separators() {
    assert_eq!(title_to_slug("  (draft) plan  "), "draft_plan");
}

// --- front-matter parser ---

#[test]
fn parse_fm_basic() {
    let raw = "---\ntitle = \"hi\"\n---\n\nbody here";
    let (fm, body) = split_front_matter(raw).unwrap();
    assert_eq!(fm, "title = \"hi\"");
    assert_eq!(body, "body here");
}

#[test]
fn parse_fm_empty_body() {
    let raw = "---\ntitle = \"hi\"\n---\n";
    let (_, body) = split_front_matter(raw).unwrap();
    assert_eq!(body, "");
}

#[test]
fn parse_fm_body_with_horizontal_rule() {
    let raw = "---\ntitle = \"hi\"\n---\n\nSection A\n\n---\n\nSection B";
    let (_, body) = split_front_matter(raw).unwrap();
    assert_eq!(body, "Section A\n\n---\n\nSection B");
}

#[test]
fn parse_fm_missing_open_delimiter() {
    assert!(split_front_matter("no front matter").is_err());
}

#[test]
fn parse_fm_missing_close_delimiter() {
    assert!(split_front_matter("---\ntitle = \"hi\"\n").is_err());
}

#[test]
fn parse_fm_errors_say_which_delimiter() {
    assert_eq!(split_front_matter("no front matter"), Err(FrontMatterError::MissingOpen));
    assert_eq!(split_front_matter("---\ntitle = \"hi\"\n"), Err(FrontMatterError::MissingClose));
    assert_eq!(
        FrontMatterError::MissingOpen.message(),
        "CONTENT.md missing opening '---' front-matter delimiter"
    );
    assert_eq!(
        FrontMatterError::MissingClose.message(),
        "CONTENT.md missing closing '---' front-matter delimiter"
    );
}

#[test]
fn parse_fm_skips_leading_newlines_and_closes_at_end() {
    let (fm, body) = split_front_matter("\n\n---\na = 1\n---").unwrap();
    assert_eq!(fm, "a = 1");
    assert_eq!(body, "");
}

#[test]
fn dashes_inside_a_line_do_not_close() {
    let raw = "---\na = \"x\"\n----\nb = 2\n---\nbody";
    let (fm, body) = split_front_matter(raw).unwrap();
    assert_eq!(fm, "a = \"x\"\n----\nb = 2");
    assert_eq!(body, "body");
}

#[test]
fn format_content_file_shapes() {
    assert_eq!(format_content_file("title = \"a\"\n", ""), "---\ntitle = \"a\"\n---\n");
    assert_eq!(
        format_content_file("title = \"a\"\n", "Body"),
        "---\ntitle = \"a\"\n---\n\nBody"
    );
}

#[test]
fn format_then_split_round_trips() {
    let text = format_content_file("title = \"a\"\ndone = false\n", "Line 1\n\n---\n\nLine 2");
    let (fm, body) = split_front_matter(&text).unwrap();
    assert_eq!(fm, "title = \"a\"\ndone = false");
    assert_eq!(body, "Line 1\n\n---\n\nLine 2");
    let empty = format_content_file("title = \"b\"\n", "");
    let (fm, body) = split_front_matter(&empty).unwrap();
    assert_eq!(fm, "title = \"b\"");
    assert_eq!(body, "");
}

// --- validation ---

fn blank_report(kind: ItemKind, slug: &str) -> ItemReport {
    ItemReport {
        context: "inbox".to_string(),
        kind,
        slug: slug.to_string(),
        errors: Vec::new(),
        warnings: Vec::new(),
    }
}

fn check(raw: &str, kind: ItemKind, slug: &str) -> ItemReport {
    let mut r = blank_report(kind, slug);
    validate_content(raw, kind, slug, &mut r);
    r
}

#[test]
fn valid_todo_has_no_findings() {
    let r = check(
        "---\ntitle = \"Buy milk\"\ncreated_at = \"2026-04-25T10:00:00Z\"\ndone = false\n---\n\nbody",
        ItemKind::Todo,
        "buy_milk",
    );
    assert!(r.errors.is_empty(), "{:?}", r.errors);
    assert!(r.warnings.is_empty(), "{:?}", r.warnings);
    assert!(!r.has_errors());
}

#[test]
fn missing_fields_are_errors() {
    let r = check("---\ndescription = \"x\"\n---\n", ItemKind::Todo, "x");
    assert_eq!(
        r.errors,
        vec![
            "missing required field: title".to_string(),
            "missing required field: created_at".to_string(),
            "missing required field for todo: done".to_string(),
        ]
    );
    assert!(r.has_errors());
}

#[test]
fn notes_need_no_done_field() {
    let r = check(
        "---\ntitle = \"Meeting\"\ncreated_at = \"2026-04-25T10:00:00Z\"\n---\n",
        ItemKind::Note,
        "meeting",
    );
    assert!(r.errors.is_empty(), "{:?}", r.errors);
}

#[test]
fn wrong_types_and_bad_timestamps() {
    let r = check(
        "---\ntitle = 3\ncreated_at = \"yesterday\"\ndone = \"no\"\ndeleted_at = 5\n---\n",
        ItemKind::Todo,
        "t",
    );
    assert_eq!(
        r.errors,
        vec![
            "title must be a string".to_string(),
            "invalid created_at timestamp: \"yesterday\"".to_string(),
            "done must be a boolean".to_string(),
            "deleted_at must be a string (RFC3339)".to_string(),
        ]
    );
}

#[test]
fn empty_title_and_renamed_directory_are_warnings() {
    let r = check(
        "---\ntitle = \"\"\ncreated_at = \"2026-04-25T10:00:00Z\"\n---\n",
        ItemKind::Note,
        "whatever",
    );
    assert_eq!(r.warnings, vec!["title is empty".to_string()]);
    let r = check(
        "---\ntitle = \"New Name\"\ncreated_at = \"2026-04-25T10:00:00Z\"\n---\n",
        ItemKind::Note,
        "old_name",
    );
    assert_eq!(
        r.warnings,
        vec!["directory slug 'old_name' differs from title-derived slug 'new_name' (fine if renamed intentionally)"
            .to_string()]
    );
}

#[test]
fn framing_and_toml_errors() {
    let r = check("title = \"x\"", ItemKind::Todo, "x");
    assert_eq!(r.errors, vec!["missing opening '---' front-matter delimiter".to_string()]);
    let r = check("---\ntitle = \"x\"\n", ItemKind::Todo, "x");
    assert_eq!(r.errors, vec!["missing closing '---' front-matter delimiter".to_string()]);
    let r = check("---\ntitle = = \n---\n", ItemKind::Todo, "x");
    assert_eq!(r.errors.len(), 1);
    assert!(r.errors[0].starts_with("invalid TOML in front matter: "), "{}", r.errors[0]);
}

#[test]
fn item_reports_from_what_was_read() {
    let r = item_report("work", ItemKind::Note, "n", &ContentRead::Missing);
    assert_eq!(r.errors, vec!["missing CONTENT.md".to_string()]);
    assert_eq!(r.context, "work");
    let r = item_report("work", ItemKind::Note, "n", &ContentRead::Unreadable("denied".to_string()));
    assert_eq!(r.errors, vec!["cannot read CONTENT.md: denied".to_string()]);
    let r = item_report(
        "work",
        ItemKind::Todo,
        "t",
        &ContentRead::Text("---\ntitle = \"T\"\ncreated_at = \"2026-01-01T00:00:00Z\"\ndone = true\n---\n".to_string()),
    );
    assert!(r.errors.is_empty());
    assert!(r.warnings.is_empty());
}

#[test]
fn context_structure() {
    assert!(context_structure_errors("c", true, true).is_empty());
    assert!(context_structure_errors("c", false, false).is_empty());
    assert_eq!(context_structure_errors("c", false, true), vec!["[c] missing todos/ directory".to_string()]);
    assert_eq!(context_structure_errors("c", true, false), vec!["[c] missing notes/ directory".to_string()]);
    let s = missing_root_summary("/nowhere");
    assert_eq!(s.structural_errors, vec!["root directory not found: /nowhere".to_string()]);
    assert!(s.has_errors());
    assert_eq!(s.error_count(), 1);
}

#[test]
fn summary_counts() {
    let mut a = blank_report(ItemKind::Todo, "a");
    a.errors.push("e1".into());
    a.errors.push("e2".into());
    let mut b = blank_report(ItemKind::Note, "b");
    b.warnings.push("w".into());
    let s = ValidationSummary { items: vec![a, b], structural_errors: vec!["s".into()] };
    assert!(s.has_errors());
    assert_eq!(s.error_count(), 3);
    assert_eq!(s.warning_count(), 1);
    let clean = ValidationSummary { items: vec![blank_report(ItemKind::Note, "c")], structural_errors: vec![] };
    assert!(!clean.has_errors());
    assert_eq!(clean.error_count(), 0);
}

#[test]
fn report_lines_sort_and_count() {
    let mut t = blank_report(ItemKind::Todo, "zeta");
    t.context = "work".into();
    t.errors.push("bad".into());
    let mut n = blank_report(ItemKind::Note, "alpha");
    n.context = "work".into();
    n.warnings.push("odd".into());
    let i = blank_report(ItemKind::Todo, "b");
    let mut s = ValidationSummary { items: vec![t, n, i], structural_errors: vec![] };
    let lines = report_lines(&mut s);
    assert_eq!(
        lines,
        vec![
            "  ok     [inbox] todo/b".to_string(),
            "  warn   [work] note/alpha".to_string(),
            "         ~ odd".to_string(),
            "  error  [work] todo/zeta".to_string(),
            "         - bad".to_string(),
            "".to_string(),
            "  3 items checked — 1 error, 1 warning".to_string(),
        ]
    );
    assert_eq!(s.items[0].slug, "b");
}

#[test]
fn report_lines_with_structural_errors() {
    let mut s = ValidationSummary { items: vec![], structural_errors: vec!["[x] missing notes/ directory".into()] };
    let lines = report_lines(&mut s);
    assert_eq!(
        lines,
        vec![
            "  error  [x] missing notes/ directory".to_string(),
            "".to_string(),
            "".to_string(),
            "  0 items checked — 1 error, 0 warnings".to_string(),
        ]
    );
}

#[test]
fn kind_labels() {
    assert_eq!(ItemKind::Todo.label(), "todo");
    assert_eq!(ItemKind::Note.label(), "note");
}

#[test]
fn slug_never_has_stray_separators() {
    for title in ["__Hello__ -- World__", "  a  ", "x__y", "Ünïcödé Tïtle!", "--"] {
        let s = title_to_slug(title);
        assert!(!s.starts_with('_') && !s.ends_with('_'), "{s}");
        assert!(!s.contains("__"), "{s}");
        assert!(s.chars().all(|c| c == '_' || c.is_alphanumeric()), "{s}");
    }
    assert_eq!(title_to_slug("__Hello__ -- World__"), "hello_world");
}

#[test]
fn has_errors_matches_error_count() {
    let clean = ValidationSummary { items: vec![blank_report(ItemKind::Todo, "a")], structural_errors: vec![] };
    assert!(!clean.has_errors());
    assert_eq!(clean.error_count(), 0);
    let mut bad = blank_report(ItemKind::Note, "b");
    bad.warnings.push("w".into());
    let warned = ValidationSummary { items: vec![bad], structural_errors: vec![] };
    assert!(!warned.has_errors());
    assert_eq!(warned.error_count(), 0);
    let mut broken = blank_report(ItemKind::Note, "c");
    broken.errors.push("e".into());
    let failed = ValidationSummary { items: vec![blank_report(ItemKind::Todo, "a"), broken], structural_errors: vec![] };
    assert!(failed.has_errors());
    assert_eq!(failed.error_count(), 1);
}

#[test]
fn closing_delimiter_is_the_first_real_one() {
    let v: Vec<char> = "\n----\n---".chars().collect();
    assert_eq!(find_closing_delimiter(&v), Some(5));
    let v: Vec<char> = "a\n---x".chars().collect();
    assert_eq!(find_closing_delimiter(&v), None);
    let v: Vec<char> = "a\n---\nb\n---".chars().collect();
    assert_eq!(find_closing_delimiter(&v), Some(1));
}

#[test]
fn slug_is_empty_only_without_alphanumerics() {
    assert_eq!(title_to_slug("-- !! __"), "");
    assert_ne!(title_to_slug("-- a __"), "");
}

#[test]
fn slugging_a_slug_changes_nothing() {
    for t in ["My First Todo", "Hello, World!", "foo  --  bar", "!!!", "A_b__C"] {
        let s = title_to_slug(t);
        assert_eq!(title_to_slug(&s), s);
    }
}
