use journal_core::commands::{delete_note, get_all_notes, get_note, save_note, search_notes};
use journal_core::db::Database;
use journal_core::error::{AppError, StorageErrorKind};
use journal_core::models::{CreateNoteDto, Note, UpdateNoteDto};
use journal_core::services::NoteService;

fn service() -> NoteService {
    NoteService::new(Database::new())
}

fn dates(service: &NoteService) -> Vec<String> {
    service.get_all_notes().unwrap().into_iter().map(|m| m.date).collect()
}

fn counts_are_consistent(service: &NoteService) {
    for m in service.get_all_notes().unwrap() {
        let note = service.get_note(&m.date).unwrap().unwrap();
        assert_eq!(note.word_count as usize, note.content.split_whitespace().count());
        assert_eq!(m.word_count, note.word_count);
    }
}

#[test]
fn save_twice_then_list_end_to_end() {
    let mut s = service();
    let first = save_note(&mut s, "2024-01-01".to_string(), "hello world".to_string()).ok().unwrap();
    assert_eq!(first.word_count, 2);
    assert_eq!(first.date, "2024-01-01");
    assert_eq!(first.content, "hello world");
    let second = save_note(&mut s, "2024-01-01".to_string(), "hello".to_string()).ok().unwrap();
    assert_eq!(second.id, first.id);
    assert_eq!(second.word_count, 1);
    let list = get_all_notes(&s).ok().unwrap();
    assert_eq!(list.len(), 1);
    assert_eq!(list[0].preview, "hello");
    assert_eq!(list[0].id, first.id);
    assert_eq!(list[0].date, "2024-01-01");
    assert_eq!(list[0].word_count, 1);
}

#[test]
fn save_twice_keeps_one_row_with_identity() {
    let mut s = service();
    let first = s
        .save_note_at("2024-03-05".to_string(), "one two three".to_string(), "id-a".to_string(), "t1".to_string())
        .unwrap();
    assert_eq!(first.id, "id-a");
    assert_eq!(first.created_at, "t1");
    assert_eq!(first.updated_at, "t1");
    assert_eq!(first.word_count, 3);
    let second = s
        .save_note_at("2024-03-05".to_string(), "four five".to_string(), "id-b".to_string(), "t2".to_string())
        .unwrap();
    assert_eq!(second.id, "id-a");
    assert_eq!(second.created_at, "t1");
    assert_eq!(second.updated_at, "t2");
    assert_eq!(second.content, "four five");
    assert_eq!(second.word_count, 2);
    assert_eq!(dates(&s), vec!["2024-03-05"]);
    let stored = s.get_note("2024-03-05").unwrap().unwrap();
    assert_eq!(stored.id, "id-a");
    assert_eq!(stored.created_at, "t1");
    assert_eq!(stored.updated_at, "t2");
    assert_eq!(stored.content, "four five");
    assert_eq!(stored.word_count, 2);
}

#[test]
fn new_note_has_equal_creation_and_update_times() {
    let mut s = service();
    let n = s.save_note("2024-02-02".to_string(), "text".to_string()).unwrap();
    assert_eq!(n.created_at, n.updated_at);
    assert!(chrono::DateTime::parse_from_rfc3339(&n.created_at).is_ok());
}

#[test]
fn word_count_is_consistent_after_every_mutation() {
    let mut s = service();
    s.save_note("2024-01-01".to_string(), "a b c".to_string()).unwrap();
    counts_are_consistent(&s);
    s.save_note("2024-01-02".to_string(), "  spaced\nout\ttext  ".to_string()).unwrap();
    counts_are_consistent(&s);
    s.save_note("2024-01-01".to_string(), "".to_string()).unwrap();
    counts_are_consistent(&s);
    assert_eq!(s.get_note("2024-01-01").unwrap().unwrap().word_count, 0);
    s.update_note("2024-01-02", UpdateNoteDto { content: "now four words here".to_string() }).unwrap();
    counts_are_consistent(&s);
    assert_eq!(s.get_note("2024-01-02").unwrap().unwrap().word_count, 4);
    s.create_note(CreateNoteDto { date: "2024-01-03".to_string(), content: "x y".to_string() }).unwrap();
    counts_are_consistent(&s);
    s.delete_note("2024-01-01").unwrap();
    counts_are_consistent(&s);
}

#[test]
fn get_of_unknown_date_is_absent() {
    let s = service();
    assert!(get_note(&s, "2024-01-01".to_string()).ok().unwrap().is_none());
}

#[test]
fn get_after_delete_is_absent() {
    let mut s = service();
    save_note(&mut s, "2024-01-01".to_string(), "to go".to_string()).ok().unwrap();
    save_note(&mut s, "2024-01-02".to_string(), "to stay".to_string()).ok().unwrap();
    assert!(delete_note(&mut s, "2024-01-01".to_string()).is_ok());
    assert!(get_note(&s, "2024-01-01".to_string()).ok().unwrap().is_none());
    assert_eq!(get_note(&s, "2024-01-02".to_string()).ok().unwrap().unwrap().content, "to stay");
    assert_eq!(dates(&s), vec!["2024-01-02"]);
}

#[test]
fn delete_of_unknown_date_changes_nothing() {
    let mut s = service();
    save_note(&mut s, "2024-01-02".to_string(), "kept".to_string()).ok().unwrap();
    assert!(delete_note(&mut s, "2024-01-01".to_string()).is_ok());
    assert!(delete_note(&mut s, "2024-01-01".to_string()).is_ok());
    assert_eq!(dates(&s), vec!["2024-01-02"]);
}

#[test]
fn save_after_delete_makes_a_new_entry() {
    let mut s = service();
    s.save_note_at("2024-01-01".to_string(), "old".to_string(), "id-1".to_string(), "t1".to_string()).unwrap();
    s.delete_note("2024-01-01").unwrap();
    let again = s
        .save_note_at("2024-01-01".to_string(), "new".to_string(), "id-2".to_string(), "t2".to_string())
        .unwrap();
    assert_eq!(again.id, "id-2");
    assert_eq!(again.created_at, "t2");
}

#[test]
fn list_is_ordered_by_date_descending() {
    let mut s = service();
    for d in ["2024-01-15", "2023-12-31", "2024-02-01", "2024-01-02", "2022-06-30"] {
        save_note(&mut s, d.to_string(), format!("entry of {}", d)).ok().unwrap();
    }
    save_note(&mut s, "2024-01-15".to_string(), "rewritten".to_string()).ok().unwrap();
    let got = dates(&s);
    assert_eq!(got, vec!["2024-02-01", "2024-01-15", "2024-01-02", "2023-12-31", "2022-06-30"]);
    for pair in got.windows(2) {
        assert!(pair[0] > pair[1]);
    }
}

#[test]
fn list_of_empty_store_is_empty() {
    let s = service();
    assert!(get_all_notes(&s).ok().unwrap().is_empty());
    assert!(search_notes(&s, "x".to_string()).ok().unwrap().is_empty());
}

#[test]
fn list_carries_previews_not_content() {
    let mut s = service();
    let long = format!("  {}\nend", "w ".repeat(80));
    let saved = save_note(&mut s, "2024-05-05".to_string(), long.clone()).ok().unwrap();
    let list = get_all_notes(&s).ok().unwrap();
    assert_eq!(list.len(), 1);
    assert_eq!(list[0].preview.chars().count(), 103);
    assert!(list[0].preview.ends_with("..."));
    assert_eq!(list[0].preview, saved.get_preview(100));
    assert_eq!(list[0].word_count, 81);
    assert_eq!(list[0].updated_at, saved.updated_at);
}

#[test]
fn malformed_dates_are_kept_as_they_are() {
    let mut s = service();
    save_note(&mut s, "not a date".to_string(), "x".to_string()).ok().unwrap();
    save_note(&mut s, "".to_string(), "y".to_string()).ok().unwrap();
    assert_eq!(get_note(&s, "not a date".to_string()).ok().unwrap().unwrap().content, "x");
    assert_eq!(get_note(&s, "".to_string()).ok().unwrap().unwrap().content, "y");
    assert!(get_note(&s, "Not a date".to_string()).ok().unwrap().is_none());
    assert_eq!(dates(&s), vec!["not a date", ""]);
}

#[test]
fn search_finds_the_entries_that_hold_the_query() {
    let mut s = service();
    save_note(&mut s, "2024-01-01".to_string(), "walked the dog".to_string()).ok().unwrap();
    save_note(&mut s, "2024-01-02".to_string(), "fed the cat".to_string()).ok().unwrap();
    save_note(&mut s, "2024-01-03".to_string(), "dogged by rain".to_string()).ok().unwrap();
    let found: Vec<String> = search_notes(&s, "dog".to_string()).ok().unwrap().into_iter().map(|m| m.date).collect();
    assert_eq!(found, vec!["2024-01-03", "2024-01-01"]);
    let all: Vec<String> = search_notes(&s, "".to_string()).ok().unwrap().into_iter().map(|m| m.date).collect();
    assert_eq!(all, vec!["2024-01-03", "2024-01-02", "2024-01-01"]);
    assert!(search_notes(&s, "bird".to_string()).ok().unwrap().is_empty());
    assert!(search_notes(&s, "Dog".to_string()).ok().unwrap().is_empty());
}

#[test]
fn search_reads_wildcards_in_the_query() {
    let mut s = service();
    save_note(&mut s, "2024-01-01".to_string(), "100% sure".to_string()).ok().unwrap();
    save_note(&mut s, "2024-01-02".to_string(), "1000 steps".to_string()).ok().unwrap();
    save_note(&mut s, "2024-01-03".to_string(), "snake_case".to_string()).ok().unwrap();
    save_note(&mut s, "2024-01-04".to_string(), "snakeXcase".to_string()).ok().unwrap();
    let found = |q: &str| -> Vec<String> {
        search_notes(&s, q.to_string()).ok().unwrap().into_iter().map(|m| m.date).collect()
    };
    assert_eq!(found("100%"), vec!["2024-01-02", "2024-01-01"]);
    assert_eq!(found("snake_case"), vec!["2024-01-04", "2024-01-03"]);
    assert_eq!(found("1%s"), vec!["2024-01-02", "2024-01-01"]);
    assert_eq!(found("s_r"), vec!["2024-01-01"]);
}

#[test]
fn search_looks_at_content_not_at_preview() {
    let mut s = service();
    let content = format!("{} needle", "z".repeat(200));
    save_note(&mut s, "2024-01-01".to_string(), content).ok().unwrap();
    let found = search_notes(&s, "needle".to_string()).ok().unwrap();
    assert_eq!(found.len(), 1);
    assert!(!found[0].preview.contains("needle"));
}

#[test]
fn create_note_refuses_a_date_in_use() {
    let mut s = service();
    let first = s
        .create_note(CreateNoteDto { date: "2024-01-01".to_string(), content: "first".to_string() })
        .unwrap();
    assert_eq!(first.word_count, 1);
    let again = s.create_note(CreateNoteDto { date: "2024-01-01".to_string(), content: "second".to_string() });
    match again {
        Err(AppError::Database(e)) => assert_eq!(e.kind, StorageErrorKind::UniqueViolation),
        _ => panic!("a second entry for one date was accepted"),
    }
    assert_eq!(s.get_note("2024-01-01").unwrap().unwrap().content, "first");
}

#[test]
fn a_new_entry_under_an_identifier_in_use_is_refused() {
    let mut s = service();
    s.save_note_at("2024-01-01".to_string(), "a".to_string(), "same".to_string(), "t1".to_string()).unwrap();
    let clash = s.save_note_at("2024-01-02".to_string(), "b".to_string(), "same".to_string(), "t2".to_string());
    match clash {
        Err(AppError::Database(e)) => assert_eq!(e.kind, StorageErrorKind::UniqueViolation),
        _ => panic!("two entries under one identifier were accepted"),
    }
    assert_eq!(dates(&s), vec!["2024-01-01"]);
    let rewrite = s.save_note_at("2024-01-01".to_string(), "c".to_string(), "same".to_string(), "t3".to_string());
    assert_eq!(rewrite.unwrap().content, "c");
}

#[test]
fn update_note_of_unknown_date_is_not_found() {
    let mut s = service();
    let r = s.update_note("2024-09-09", UpdateNoteDto { content: "x".to_string() });
    match r {
        Err(AppError::NotFound(context)) => assert_eq!(context, "Note not found for date: 2024-09-09"),
        _ => panic!("an update of a missing entry did not fail"),
    }
    assert!(get_all_notes(&s).ok().unwrap().is_empty());
}

#[test]
fn update_note_rewrites_in_place() {
    let mut s = service();
    s.save_note_at("2024-01-01".to_string(), "a".to_string(), "id-1".to_string(), "t1".to_string()).unwrap();
    let n = s.update_note_at("2024-01-01", UpdateNoteDto { content: "b c".to_string() }, "t2".to_string()).unwrap();
    assert_eq!(n.id, "id-1");
    assert_eq!(n.created_at, "t1");
    assert_eq!(n.updated_at, "t2");
    assert_eq!(n.word_count, 2);
    assert_eq!(s.get_note("2024-01-01").unwrap().unwrap().content, "b c");
}

#[test]
fn note_new_takes_a_fresh_identifier_of_the_random_shape() {
    let a = Note::new("2024-01-01".to_string(), "one two".to_string());
    let b = Note::new("2024-01-01".to_string(), "one two".to_string());
    assert_ne!(a.id, b.id);
    assert_eq!(a.word_count, 2);
    assert_eq!(a.created_at, a.updated_at);
    for id in [&a.id, &b.id] {
        let cs: Vec<char> = id.chars().collect();
        assert_eq!(cs.len(), 36);
        for (i, c) in cs.iter().enumerate() {
            if i == 8 || i == 13 || i == 18 || i == 23 {
                assert_eq!(*c, '-');
            } else {
                assert!(c.is_ascii_digit() || ('a'..='f').contains(c));
            }
        }
        assert_eq!(cs[14], '4');
        assert!(matches!(cs[19], '8' | '9' | 'a' | 'b'));
        assert!(uuid::Uuid::parse_str(id).is_ok());
    }
}

#[test]
fn update_content_recounts_and_keeps_identity() {
    let mut n = Note::with_stamp("id-1".to_string(), "t1".to_string(), "2024-01-01".to_string(), "a".to_string());
    n.update_content("b c d".to_string());
    assert_eq!(n.id, "id-1");
    assert_eq!(n.date, "2024-01-01");
    assert_eq!(n.created_at, "t1");
    assert_eq!(n.content, "b c d");
    assert_eq!(n.word_count, 3);
    assert!(chrono::DateTime::parse_from_rfc3339(&n.updated_at).is_ok());
    assert!(n.updated_at.ends_with("+00:00"));
}
