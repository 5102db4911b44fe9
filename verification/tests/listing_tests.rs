use todo_tui::listing::{clock_time, listed_notes, listed_todos, note_from, todo_from, UtcTime};
use todo_tui::tui::{Note, Todo};

fn fixed_now() -> UtcTime {
    UtcTime { secs: 1_777_000_000, nanos: 0, text: "2026-04-24T03:06:40+00:00".to_string() }
}

fn todo(slug: &str, created: &str, deleted: Option<&str>) -> Todo {
    todo_from(
        slug.to_string(),
        slug.to_string(),
        String::new(),
        false,
        created,
        deleted.map(String::from),
        String::new(),
        &fixed_now(),
    )
}

#[test]
fn dates_are_normalised_and_unreadable_ones_become_now() {
    let t = todo("a", "2026-04-25T10:00:00Z", None);
    assert_eq!(t.created_at, "2026-04-25T10:00:00+00:00");
    let t = todo("b", "yesterday", Some("also bad"));
    assert_eq!(t.created_at, fixed_now().text);
    assert_eq!(t.deleted_at, Some(fixed_now().text));
    let n: Note = note_from("n".into(), "N".into(), String::new(), "2026-01-01T00:00:00.5+02:00", None, "b".into(), &fixed_now());
    assert_eq!(n.created_at, "2025-12-31T22:00:00.500+00:00");
}

#[test]
fn listing_hides_deleted_and_orders_oldest_first_stably() {
    let items = vec![
        todo("late", "2026-05-01T00:00:00Z", None),
        todo("gone", "2026-01-01T00:00:00Z", Some("2026-02-01T00:00:00Z")),
        todo("early", "2026-03-01T00:00:00Z", None),
        todo("same1", "2026-04-01T00:00:00Z", None),
        todo("same2", "2026-04-01T00:00:00Z", None),
    ];
    let listed = listed_todos(items, &fixed_now());
    let slugs: Vec<&str> = listed.iter().map(|t| t.slug.as_str()).collect();
    assert_eq!(slugs, vec!["early", "same1", "same2", "late"]);
    let notes = vec![note_from("x".into(), "x".into(), String::new(), "bad", None, String::new(), &fixed_now())];
    assert_eq!(listed_notes(notes, &fixed_now()).len(), 1);
}

#[test]
fn clock_time_is_after_2020() {
    let now = clock_time();
    assert!(now.secs > 1_577_836_800);
    assert!(!now.text.is_empty());
}
