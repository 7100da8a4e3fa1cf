use journal_core::db::Database;
use journal_core::error::{AppError, StorageErrorKind};
use journal_core::models::UpdateUserDto;
use journal_core::services::note_service::like_pattern;
use journal_core::services::{NoteService, UserService};
use sqlx::sqlite::{SqliteConnectOptions, SqlitePoolOptions};
use sqlx::{Pool, Sqlite};
use std::future::Future;

type NoteRow = (String, String, String, i32, String, String);
type UserRow = (String, String, String, String, String);

const UPSERT_NOTE: &str = "INSERT INTO notes (id, date, content, word_count, created_at, updated_at) \
    VALUES (?1, ?2, ?3, ?4, ?5, ?6) \
    ON CONFLICT(date) DO UPDATE SET content = excluded.content, \
    word_count = excluded.word_count, updated_at = excluded.updated_at \
    RETURNING id, date, content, word_count, created_at, updated_at";

const SELECT_NOTES: &str =
    "SELECT id, date, content, word_count, created_at, updated_at FROM notes ORDER BY date DESC";

const SEARCH_NOTES: &str = "SELECT id, date, content, word_count, created_at, updated_at FROM notes \
    WHERE content LIKE ?1 ORDER BY date DESC";

fn run<F: Future>(work: F) -> F::Output {
    tokio::runtime::Builder::new_current_thread().enable_all().build().unwrap().block_on(work)
}

async fn engine() -> Pool<Sqlite> {
    let options = SqliteConnectOptions::new().in_memory(true).pragma("case_sensitive_like", "ON");
    let pool = SqlitePoolOptions::new()
        .min_connections(1)
        .max_connections(1)
        .idle_timeout(None)
        .max_lifetime(None)
        .connect_with(options)
        .await
        .unwrap();
    sqlx::query(
        "CREATE TABLE IF NOT EXISTS users (id TEXT PRIMARY KEY NOT NULL, email TEXT NOT NULL UNIQUE, \
         name TEXT NOT NULL, created_at TEXT NOT NULL, updated_at TEXT NOT NULL)",
    )
    .execute(&pool)
    .await
    .unwrap();
    sqlx::query("CREATE INDEX IF NOT EXISTS idx_users_email ON users(email)").execute(&pool).await.unwrap();
    sqlx::query(
        "CREATE TABLE IF NOT EXISTS notes (id TEXT PRIMARY KEY NOT NULL, date TEXT NOT NULL UNIQUE, \
         content TEXT NOT NULL, word_count INTEGER NOT NULL, created_at TEXT NOT NULL, \
         updated_at TEXT NOT NULL)",
    )
    .execute(&pool)
    .await
    .unwrap();
    sqlx::query("CREATE INDEX IF NOT EXISTS idx_notes_date ON notes(date)").execute(&pool).await.unwrap();
    pool
}

fn is_unique_violation(e: &sqlx::Error) -> bool {
    match e {
        sqlx::Error::Database(inner) => inner.is_unique_violation(),
        _ => false,
    }
}

fn words(content: &str) -> i32 {
    content.split_whitespace().count() as i32
}

fn stored_notes(service: &NoteService) -> Vec<NoteRow> {
    service
        .get_all_notes()
        .unwrap()
        .into_iter()
        .map(|m| {
            let n = service.get_note(&m.date).unwrap().unwrap();
            assert_eq!((&m.id, m.word_count, &m.updated_at), (&n.id, n.word_count, &n.updated_at));
            (n.id, n.date, n.content, n.word_count, n.created_at, n.updated_at)
        })
        .collect()
}

async fn engine_notes(pool: &Pool<Sqlite>) -> Vec<NoteRow> {
    sqlx::query_as::<_, NoteRow>(SELECT_NOTES).fetch_all(pool).await.unwrap()
}

async fn save_both(pool: &Pool<Sqlite>, service: &mut NoteService, date: &str, content: &str, id: &str, now: &str) {
    let by_engine = sqlx::query_as::<_, NoteRow>(UPSERT_NOTE)
        .bind(id)
        .bind(date)
        .bind(content)
        .bind(words(content))
        .bind(now)
        .bind(now)
        .fetch_one(pool)
        .await;
    let by_store = service.save_note_at(date.to_string(), content.to_string(), id.to_string(), now.to_string());
    match (by_engine, by_store) {
        (Ok(row), Ok(n)) => {
            assert_eq!(row, (n.id, n.date, n.content, n.word_count, n.created_at, n.updated_at));
        }
        (Err(e), Err(AppError::Database(s))) => {
            assert!(is_unique_violation(&e), "{}", e);
            assert_eq!(s.kind, StorageErrorKind::UniqueViolation);
        }
        (a, b) => panic!("the engine gave {:?}, the store {:?}", a.map(|r| r.0), b.map(|n| n.id)),
    }
    assert_eq!(engine_notes(pool).await, stored_notes(service));
}

async fn delete_both(pool: &Pool<Sqlite>, service: &mut NoteService, date: &str) {
    sqlx::query("DELETE FROM notes WHERE date = ?1").bind(date).execute(pool).await.unwrap();
    service.delete_note(date).unwrap();
    assert_eq!(engine_notes(pool).await, stored_notes(service));
}

#[test]
fn saves_and_deletes_agree_with_the_engine() {
    run(async {
        let pool = engine().await;
        let mut service = NoteService::new(Database::new());
        save_both(&pool, &mut service, "2024-01-02", "second day", "id-b", "t1").await;
        save_both(&pool, &mut service, "2024-01-01", "first day of the year", "id-a", "t2").await;
        save_both(&pool, &mut service, "2024-01-03", "", "id-c", "t3").await;
        save_both(&pool, &mut service, "2024-01-02", "second day, rewritten", "id-x", "t4").await;
        save_both(&pool, &mut service, "2024-01-02", "again", "id-a", "t5").await;
        save_both(&pool, &mut service, "2024-01-04", "clash of identifiers", "id-a", "t6").await;
        delete_both(&pool, &mut service, "2024-01-01").await;
        delete_both(&pool, &mut service, "2024-01-01").await;
        delete_both(&pool, &mut service, "1999-12-31").await;
        save_both(&pool, &mut service, "2024-01-04", "free again", "id-a", "t7").await;
        save_both(&pool, &mut service, "2024-01-01", "back", "id-d", "t8").await;
        assert_eq!(engine_notes(&pool).await.len(), 4);
    });
}

#[test]
fn order_of_dates_agrees_with_the_engine() {
    run(async {
        let pool = engine().await;
        let mut service = NoteService::new(Database::new());
        let dates = [
            "2024-01-10", "2024-01-9", "2024-1-1", "", " ", "z", "Z", "é", "e", "日", "\u{FFFF}", "😀", "2024-01-10 ",
            "2023-12-31", "~", "not a date",
        ];
        for (i, d) in dates.iter().enumerate() {
            save_both(&pool, &mut service, d, "x", &format!("id-{}", i), "t").await;
        }
        let listed: Vec<String> = service.get_all_notes().unwrap().into_iter().map(|m| m.date).collect();
        let mut sorted: Vec<String> = dates.iter().map(|d| d.to_string()).collect();
        sorted.sort();
        sorted.reverse();
        assert_eq!(listed, sorted);
    });
}

#[test]
fn searches_agree_with_the_engine() {
    run(async {
        let pool = engine().await;
        let mut service = NoteService::new(Database::new());
        let contents = [
            "walked the dog",
            "Dog days",
            "100% sure",
            "1000 steps",
            "snake_case",
            "snakeXcase",
            "",
            "line one\nline two",
            "café au lait",
            "CAFÉ",
            "a%b_c",
            "日本語のテキスト",
            "under_score and per%cent",
            "aaa",
        ];
        for (i, c) in contents.iter().enumerate() {
            save_both(&pool, &mut service, &format!("2024-02-{:02}", i + 1), c, &format!("id-{}", i), "t").await;
        }
        let queries = [
            "", "dog", "Dog", "DOG", "100%", "%", "_", "__", "s_a", "snake_case", "e%e", "é", "É", "café", "a%b_c",
            "%%", "_%_", "line one\nline", "本語", "の_キ", "aa", "aaaa", "a_a", "x", " ", "e ",
        ];
        for q in queries {
            let by_engine: Vec<String> = sqlx::query_as::<_, NoteRow>(SEARCH_NOTES)
                .bind(like_pattern(q))
                .fetch_all(&pool)
                .await
                .unwrap()
                .into_iter()
                .map(|r| r.1)
                .collect();
            let by_store: Vec<String> = service.search_notes(q).unwrap().into_iter().map(|m| m.date).collect();
            assert_eq!(by_engine, by_store, "query {:?}", q);
        }
    });
}

async fn engine_users(pool: &Pool<Sqlite>) -> Vec<UserRow> {
    let mut rows = sqlx::query_as::<_, UserRow>("SELECT id, email, name, created_at, updated_at FROM users")
        .fetch_all(pool)
        .await
        .unwrap();
    rows.sort();
    rows
}

fn stored_users(service: &UserService, ids: &[&str]) -> Vec<UserRow> {
    let mut rows: Vec<UserRow> = ids
        .iter()
        .filter_map(|id| service.get_user(id).ok())
        .map(|u| (u.id, u.email, u.name, u.created_at, u.updated_at))
        .collect();
    rows.sort();
    rows
}

async fn create_both(pool: &Pool<Sqlite>, service: &mut UserService, email: &str, name: &str, id: &str, now: &str) {
    let by_engine = sqlx::query("INSERT INTO users (id, email, name, created_at, updated_at) VALUES (?, ?, ?, ?, ?)")
        .bind(id)
        .bind(email)
        .bind(name)
        .bind(now)
        .bind(now)
        .execute(pool)
        .await;
    let by_store = service.create_user_at(email.to_string(), name.to_string(), id.to_string(), now.to_string());
    match (by_engine, by_store) {
        (Ok(_), Ok(u)) => assert_eq!((u.id.as_str(), u.email.as_str(), u.name.as_str()), (id, email, name)),
        (Err(e), Err(AppError::Database(s))) => {
            assert!(is_unique_violation(&e), "{}", e);
            assert_eq!(s.kind, StorageErrorKind::UniqueViolation);
        }
        (a, b) => panic!("the engine gave {:?}, the store {:?}", a.is_ok(), b.is_ok()),
    }
}

async fn update_both(
    pool: &Pool<Sqlite>,
    service: &mut UserService,
    id: &str,
    name: Option<&str>,
    email: Option<&str>,
    now: &str,
) {
    let current = sqlx::query_as::<_, UserRow>("SELECT id, email, name, created_at, updated_at FROM users WHERE id = ?")
        .bind(id)
        .fetch_one(pool)
        .await;
    let by_engine = match current {
        Err(e) => Err(e),
        Ok(row) => sqlx::query("UPDATE users SET email = ?, name = ?, updated_at = ? WHERE id = ?")
            .bind(email.unwrap_or(&row.1))
            .bind(name.unwrap_or(&row.2))
            .bind(now)
            .bind(id)
            .execute(pool)
            .await
            .map(|_| ()),
    };
    let dto = UpdateUserDto { name: name.map(str::to_string), email: email.map(str::to_string) };
    let by_store = service.update_user_at(id, dto, now.to_string());
    match (by_engine, by_store) {
        (Ok(()), Ok(u)) => assert_eq!(u.updated_at, now),
        (Err(sqlx::Error::RowNotFound), Err(AppError::NotFound(context))) => {
            assert_eq!(context, format!("User not found: {}", id));
        }
        (Err(e), Err(AppError::Database(s))) => {
            assert!(is_unique_violation(&e), "{}", e);
            assert_eq!(s.kind, StorageErrorKind::UniqueViolation);
        }
        (a, b) => panic!("the engine gave {:?}, the store {:?}", a.is_ok(), b.is_ok()),
    }
}

#[test]
fn users_agree_with_the_engine() {
    run(async {
        let pool = engine().await;
        let mut service = UserService::new(Database::new());
        let ids = ["id-1", "id-2", "id-3", "id-4"];
        create_both(&pool, &mut service, "a@example.org", "A", "id-1", "t1").await;
        create_both(&pool, &mut service, "b@example.org", "B", "id-2", "t1").await;
        create_both(&pool, &mut service, "a@example.org", "Again", "id-3", "t2").await;
        create_both(&pool, &mut service, "c@example.org", "C", "id-1", "t2").await;
        create_both(&pool, &mut service, "A@example.org", "Upper", "id-3", "t3").await;
        assert_eq!(engine_users(&pool).await, stored_users(&service, &ids));
        update_both(&pool, &mut service, "id-1", Some("Anna"), None, "t4").await;
        update_both(&pool, &mut service, "id-2", None, Some("a@example.org"), "t5").await;
        update_both(&pool, &mut service, "id-2", Some("Bee"), Some("b@example.org"), "t6").await;
        update_both(&pool, &mut service, "id-2", None, Some("b2@example.org"), "t7").await;
        update_both(&pool, &mut service, "id-9", Some("Nobody"), None, "t8").await;
        update_both(&pool, &mut service, "id-3", None, None, "t9").await;
        create_both(&pool, &mut service, "b@example.org", "New B", "id-4", "t10").await;
        assert_eq!(engine_users(&pool).await, stored_users(&service, &ids));
        assert_eq!(engine_users(&pool).await.len(), 4);
    });
}
