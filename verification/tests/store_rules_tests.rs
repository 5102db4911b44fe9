use todo_tui::store_rules::{
    context_message, context_slug, create_message, delete_message, done_message, edit_message, new_item_slug,
    rename_conflict, rename_message, renamed_slug, skip_warning, StoreError,
};
use todo_tui::validate::ItemKind;

#[test]
fn new_item_gets_title_slug() {
    assert_eq!(new_item_slug("My First Todo"), Ok("my_first_todo".to_string()));
}

#[test]
fn empty_slugs_are_refused_with_their_own_message() {
    let e = new_item_slug("!!!").unwrap_err();
    assert_eq!(e, StoreError::EmptyTitle);
    assert_eq!(e.message(), "title produces an empty slug");
    let e = renamed_slug("   ").unwrap_err();
    assert_eq!(e.message(), "new title produces an empty slug");
    let e = context_slug("--").unwrap_err();
    assert_eq!(e.message(), "context name produces an empty slug");
    assert_eq!(context_slug("Work Stuff"), Ok("work_stuff".to_string()));
}

#[test]
fn duplicate_message_names_kind_and_slug() {
    let e = StoreError::Exists { kind: ItemKind::Note, slug: "ideas".to_string() };
    assert_eq!(e.message(), "a note named 'ideas' already exists");
}

#[test]
fn rename_conflicts_only_with_another_item() {
    assert_eq!(rename_conflict(ItemKind::Todo, "a", "a", true), None);
    assert_eq!(rename_conflict(ItemKind::Todo, "a", "b", false), None);
    assert_eq!(
        rename_conflict(ItemKind::Todo, "a", "b", true),
        Some(StoreError::Exists { kind: ItemKind::Todo, slug: "b".to_string() })
    );
}

#[test]
fn commit_messages() {
    assert_eq!(create_message(ItemKind::Todo, "buy_milk", "inbox"), "todo: create buy_milk [inbox]");
    assert_eq!(rename_message(ItemKind::Note, "a", "a", "work"), "note: rename a [work]");
    assert_eq!(rename_message(ItemKind::Todo, "a", "b", "work"), "todo: rename a -> b [work]");
    assert_eq!(done_message("x", true, "inbox"), "todo: check x [inbox]");
    assert_eq!(done_message("x", false, "inbox"), "todo: uncheck x [inbox]");
    assert_eq!(edit_message(ItemKind::Note, "n", "c"), "note: edit n [c]");
    assert_eq!(delete_message(ItemKind::Todo, "t", "c"), "todo: delete t [c]");
    assert_eq!(context_message("work"), "context: create work");
}

#[test]
fn skipped_items_are_reported() {
    assert_eq!(skip_warning(ItemKind::Todo, "bad", "oops"), "skipping todo 'bad': oops");
}
