//! The store's rules that do not touch the disk: which directory name an
//! item or a context gets, when a change is refused, what each change is
//! committed as, and how a skipped item is reported.
use vstd::prelude::*;

use crate::content::{slug_spec, title_to_slug};
use crate::tui::cat;
use crate::validate::ItemKind;

verus! {

/// Why the store refused a change.
#[derive(PartialEq, Eq, Debug)]
pub enum StoreError {
    /// A new item's title gives an empty slug.
    EmptyTitle,
    /// A renamed item's new title gives an empty slug.
    EmptyNewTitle,
    /// A context's name gives an empty slug.
    EmptyContextName,
    /// Another item of the kind already has the slug.
    Exists { kind: ItemKind, slug: String },
}

pub open spec fn error_text(e: StoreError) -> Seq<char> {
    match e {
        StoreError::EmptyTitle => "title produces an empty slug"@,
        StoreError::EmptyNewTitle => "new title produces an empty slug"@,
        StoreError::EmptyContextName => "context name produces an empty slug"@,
        StoreError::Exists { kind, slug } => "a "@ + kind.label_spec() + " named '"@ + slug@ + "' already exists"@,
    }
}

impl StoreError {
    /// The user-facing description.
    pub fn message(&self) -> (m: String)
        ensures
            m@ == error_text(*self),
    {
        match self {
            StoreError::EmptyTitle => String::from_str("title produces an empty slug"),
            StoreError::EmptyNewTitle => String::from_str("new title produces an empty slug"),
            StoreError::EmptyContextName => String::from_str("context name produces an empty slug"),
            StoreError::Exists { kind, slug } => {
                let mut m = cat("a ", kind.label().as_str());
                m.append(" named '");
                m.append(slug.as_str());
                m.append("' already exists");
                m
            },
        }
    }
}

/// The slug of `text`, or `empty` where it has none.
fn nonempty_slug(text: &str, empty: StoreError) -> (r: Result<String, StoreError>)
    ensures
        r is Ok <==> slug_spec(text@).len() > 0,
        r is Ok ==> r->Ok_0@ == slug_spec(text@),
        r is Err ==> r->Err_0 == empty,
{
    let slug = title_to_slug(text);
    if slug.as_str().unicode_len() == 0 {
        Err(empty)
    } else {
        Ok(slug)
    }
}

/// The directory name of a new item titled `title`.
pub fn new_item_slug(title: &str) -> (r: Result<String, StoreError>)
    ensures
        r is Ok <==> slug_spec(title@).len() > 0,
        r is Ok ==> r->Ok_0@ == slug_spec(title@),
        r is Err ==> r->Err_0 == StoreError::EmptyTitle,
{
    nonempty_slug(title, StoreError::EmptyTitle)
}

/// The directory name an item gets when renamed to `new_title`.
pub fn renamed_slug(new_title: &str) -> (r: Result<String, StoreError>)
    ensures
        r is Ok <==> slug_spec(new_title@).len() > 0,
        r is Ok ==> r->Ok_0@ == slug_spec(new_title@),
        r is Err ==> r->Err_0 == StoreError::EmptyNewTitle,
{
    nonempty_slug(new_title, StoreError::EmptyNewTitle)
}

/// The directory name of the context called `name`.
pub fn context_slug(name: &str) -> (r: Result<String, StoreError>)
    ensures
        r is Ok <==> slug_spec(name@).len() > 0,
        r is Ok ==> r->Ok_0@ == slug_spec(name@),
        r is Err ==> r->Err_0 == StoreError::EmptyContextName,
{
    nonempty_slug(name, StoreError::EmptyContextName)
}

pub open spec fn is_exists(e: StoreError, kind: ItemKind, slug: Seq<char>) -> bool {
    match e {
        StoreError::Exists { kind: k, slug: s } => k == kind && s@ == slug,
        _ => false,
    }
}

/// Whether renaming `slug` to `new_slug` is refused: it is when another
/// item of the kind already has `new_slug` (`target_exists` says whether
/// a directory of that name is there).
pub fn rename_conflict(kind: ItemKind, slug: &str, new_slug: &str, target_exists: bool) -> (r: Option<StoreError>)
    ensures
        r is Some <==> target_exists && new_slug@ != slug@,
        r is Some ==> is_exists(r->Some_0, kind, new_slug@),
{
    if target_exists && !crate::text::same_text(&String::from_str(new_slug), &String::from_str(slug)) {
        Some(StoreError::Exists { kind, slug: String::from_str(new_slug) })
    } else {
        None
    }
}

// ---------------------------------------------------------------------------
// Commit messages
// ---------------------------------------------------------------------------

pub open spec fn in_context(text: Seq<char>, context: Seq<char>) -> Seq<char> {
    text + " ["@ + context + "]"@
}

/// `text` followed by ` [context]`.
fn tagged(mut text: String, context: &str) -> (m: String)
    ensures
        m@ == in_context(text@, context@),
{
    text.append(" [");
    text.append(context);
    text.append("]");
    text
}

pub open spec fn action_spec(kind: ItemKind, action: Seq<char>, slug: Seq<char>) -> Seq<char> {
    kind.label_spec() + ": "@ + action + " "@ + slug
}

/// `kind: action slug`.
fn action_line(kind: ItemKind, action: &str, slug: &str) -> (m: String)
    ensures
        m@ == action_spec(kind, action@, slug@),
{
    let mut m = kind.label();
    m.append(": ");
    m.append(action);
    m.append(" ");
    m.append(slug);
    m
}

pub open spec fn create_message_spec(kind: ItemKind, slug: Seq<char>, context: Seq<char>) -> Seq<char> {
    in_context(action_spec(kind, "create"@, slug), context)
}

/// What creating an item is committed as.
pub fn create_message(kind: ItemKind, slug: &str, context: &str) -> (m: String)
    ensures
        m@ == create_message_spec(kind, slug@, context@),
{
    tagged(action_line(kind, "create", slug), context)
}

pub open spec fn rename_message_spec(kind: ItemKind, slug: Seq<char>, new_slug: Seq<char>, context: Seq<char>) -> Seq<char> {
    if new_slug == slug {
        in_context(action_spec(kind, "rename"@, slug), context)
    } else {
        in_context(action_spec(kind, "rename"@, slug) + " -> "@ + new_slug, context)
    }
}

/// What renaming an item is committed as.
pub fn rename_message(kind: ItemKind, slug: &str, new_slug: &str, context: &str) -> (m: String)
    ensures
        m@ == rename_message_spec(kind, slug@, new_slug@, context@),
{
    let mut m = action_line(kind, "rename", slug);
    if !crate::text::same_text(&String::from_str(new_slug), &String::from_str(slug)) {
        m.append(" -> ");
        m.append(new_slug);
    }
    tagged(m, context)
}

pub open spec fn done_message_spec(slug: Seq<char>, done: bool, context: Seq<char>) -> Seq<char> {
    in_context(action_spec(ItemKind::Todo, if done { "check"@ } else { "uncheck"@ }, slug), context)
}

/// What checking or unchecking a todo is committed as.
pub fn done_message(slug: &str, done: bool, context: &str) -> (m: String)
    ensures
        m@ == done_message_spec(slug@, done, context@),
{
    let action = if done {
        "check"
    } else {
        "uncheck"
    };
    let m = action_line(ItemKind::Todo, action, slug);
    tagged(m, context)
}

pub open spec fn edit_message_spec(kind: ItemKind, slug: Seq<char>, context: Seq<char>) -> Seq<char> {
    in_context(action_spec(kind, "edit"@, slug), context)
}

/// What saving an item's body is committed as.
pub fn edit_message(kind: ItemKind, slug: &str, context: &str) -> (m: String)
    ensures
        m@ == edit_message_spec(kind, slug@, context@),
{
    tagged(action_line(kind, "edit", slug), context)
}

pub open spec fn delete_message_spec(kind: ItemKind, slug: Seq<char>, context: Seq<char>) -> Seq<char> {
    in_context(action_spec(kind, "delete"@, slug), context)
}

/// What deleting an item is committed as.
pub fn delete_message(kind: ItemKind, slug: &str, context: &str) -> (m: String)
    ensures
        m@ == delete_message_spec(kind, slug@, context@),
{
    tagged(action_line(kind, "delete", slug), context)
}

/// What creating a context is committed as.
pub fn context_message(slug: &str) -> (m: String)
    ensures
        m@ == "context: create "@ + slug@,
{
    cat("context: create ", slug)
}

/// How an item that could not be read is reported.
pub fn skip_warning(kind: ItemKind, slug: &str, reason: &str) -> (m: String)
    ensures
        m@ == "skipping "@ + kind.label_spec() + " '"@ + slug@ + "': "@ + reason@,
{
    let mut m = cat("skipping ", kind.label().as_str());
    m.append(" '");
    m.append(slug);
    m.append("': ");
    m.append(reason);
    m
}

} // verus!
