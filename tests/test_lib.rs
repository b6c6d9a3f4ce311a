use libcub::note::{Cell, CubError, NoteStatus};
use libcub::timestamp::Timestamp;
use libcub::{find_note_by_id, list_notes, list_tags, Limit, SortOrder};
use rusqlite::Connection;

/// Creates a table shaped like the application's notes table and two notes.
fn bootstrap(conn: &Connection) {
    conn.execute(
        "CREATE TABLE ZSFNOTE (
            Z_PK                INTEGER PRIMARY KEY,
            ZARCHIVED           INTEGER,
            ZTITLE              VARCHAR,
            ZSUBTITLE           VARCHAR,
            ZTEXT               VARCHAR,
            ZLASTEDITINGDEVICE  VARCHAR,
            ZCREATIONDATE       TIMESTAMP,
            ZMODIFICATIONDATE   TIMESTAMP,
            ZTRASHED            INTEGER)",
        (),
    )
    .unwrap();

    conn.execute(
        "INSERT INTO ZSFNOTE (
            Z_PK, ZARCHIVED, ZTITLE, ZSUBTITLE, ZTEXT, ZLASTEDITINGDEVICE,
            ZCREATIONDATE, ZMODIFICATIONDATE, ZTRASHED
        ) VALUES (
            1, 0, 'title', 'subtitle', 'text body', 'device', 0, 0, 0
        )",
        (),
    )
    .unwrap();

    conn.execute(
        "INSERT INTO ZSFNOTE (
            Z_PK, ZARCHIVED, ZTITLE, ZSUBTITLE, ZTEXT, ZLASTEDITINGDEVICE,
            ZCREATIONDATE, ZMODIFICATIONDATE, ZTRASHED
        ) VALUES (
            2, 0, 'title', NULL, NULL, 'device', 0, 0, 0
        )",
        (),
    )
    .unwrap();
}

/// Adds the tag table, the note-tag association and three more notes.
fn bootstrap_tags(conn: &Connection) {
    conn.execute_batch(
        "CREATE TABLE ZSFNOTETAG (Z_PK INTEGER PRIMARY KEY, ZTITLE VARCHAR);
         CREATE TABLE Z_6TAGS (Z_6NOTES INTEGER, Z_13TAGS INTEGER);
         INSERT INTO ZSFNOTETAG VALUES (1, 'recipes'), (2, 'cooking'), (3, 'unused'), (4, 'Zebra');
         INSERT INTO ZSFNOTE VALUES (3, 1, 'b archived', NULL, NULL, 'phone', 100, 300, 0);
         INSERT INTO ZSFNOTE VALUES (4, 0, 'a trashed', NULL, NULL, 'phone', 100, 200, 1);
         INSERT INTO ZSFNOTE VALUES (5, 1, 'c both', NULL, NULL, 'phone', 100, 400, 1);
         INSERT INTO Z_6TAGS VALUES (1, 1), (3, 2), (4, 1);",
    )
    .unwrap();
}

fn store() -> Connection {
    let conn = Connection::open_in_memory().unwrap();
    bootstrap(&conn);
    conn
}

fn tagged_store() -> Connection {
    let conn = store();
    bootstrap_tags(&conn);
    conn
}

fn ids(notes: &[libcub::note::Note]) -> Vec<i32> {
    notes.iter().map(|n| n.pk).collect()
}

#[test]
fn test_list_notes() {
    let conn = Connection::open_in_memory().unwrap();
    bootstrap(&conn);

    let notes = list_notes(&conn, &[], &SortOrder::Title, &[], &Limit::INFINITE).unwrap();
    assert_eq!(notes.len(), 2);
}

#[test]
fn two_notes_by_title_keep_absent_subtitle() {
    let conn = store();
    let notes = list_notes(&conn, &[], &SortOrder::Title, &[], &Limit::INFINITE).unwrap();
    assert_eq!(ids(&notes), vec![1, 2]);
    assert_eq!(notes[0].subtitle, Some("subtitle".to_string()));
    assert_eq!(notes[0].text, Some("text body".to_string()));
    assert_eq!(notes[1].subtitle, None);
    assert_eq!(notes[1].text, None);
    assert_eq!(notes[0].status, NoteStatus::NORMAL);
}

#[test]
fn unfiltered_listing_returns_every_note() {
    let conn = tagged_store();
    let notes = list_notes(&conn, &[], &SortOrder::Title, &[], &Limit::INFINITE).unwrap();
    assert_eq!(notes.len(), 5);
    assert_eq!(ids(&notes), vec![4, 3, 5, 1, 2]);
}

#[test]
fn both_flags_set_maps_to_archived() {
    let conn = Connection::open_in_memory().unwrap();
    bootstrap(&conn);
    conn.execute(
        "INSERT INTO ZSFNOTE VALUES (7, 1, 'both', NULL, NULL, 'd', 0, 0, 1)",
        (),
    )
    .unwrap();
    let note = find_note_by_id(&conn, 7).unwrap();
    assert_eq!(note.status, NoteStatus::ARCHIVED);
}

#[test]
fn statuses_follow_flags() {
    let conn = tagged_store();
    assert_eq!(find_note_by_id(&conn, 3).unwrap().status, NoteStatus::ARCHIVED);
    assert_eq!(find_note_by_id(&conn, 4).unwrap().status, NoteStatus::TRASHED);
    assert_eq!(find_note_by_id(&conn, 1).unwrap().status, NoteStatus::NORMAL);
}

#[test]
fn finite_limit_caps_the_listing() {
    let conn = tagged_store();
    let one = list_notes(&conn, &[], &SortOrder::Title, &[], &Limit::FINITE(1)).unwrap();
    assert_eq!(ids(&one), vec![4]);
    let three = list_notes(&conn, &[], &SortOrder::Title, &[], &Limit::FINITE(3)).unwrap();
    assert_eq!(three.len(), 3);
    let many = list_notes(&conn, &[], &SortOrder::Title, &[], &Limit::FINITE(100)).unwrap();
    assert_eq!(many.len(), 5);
}

#[test]
fn non_positive_limit_admits_nothing() {
    let conn = tagged_store();
    let zero = list_notes(&conn, &[], &SortOrder::Title, &[], &Limit::FINITE(0)).unwrap();
    assert!(zero.is_empty());
    let negative = list_notes(&conn, &[], &SortOrder::Title, &[], &Limit::FINITE(-3)).unwrap();
    assert!(negative.is_empty());
}

#[test]
fn date_order_puts_latest_first() {
    let conn = tagged_store();
    let notes = list_notes(&conn, &[], &SortOrder::DateUpdated, &[], &Limit::INFINITE).unwrap();
    assert_eq!(ids(&notes), vec![5, 3, 4, 1, 2]);
}

#[test]
fn status_filters_select_by_flags() {
    let conn = tagged_store();
    let archived =
        list_notes(&conn, &[NoteStatus::ARCHIVED], &SortOrder::Title, &[], &Limit::INFINITE).unwrap();
    assert_eq!(ids(&archived), vec![3, 5]);
    let trashed =
        list_notes(&conn, &[NoteStatus::TRASHED], &SortOrder::Title, &[], &Limit::INFINITE).unwrap();
    assert_eq!(ids(&trashed), vec![4, 5]);
    let normal =
        list_notes(&conn, &[NoteStatus::NORMAL], &SortOrder::Title, &[], &Limit::INFINITE).unwrap();
    assert_eq!(ids(&normal), vec![1, 2]);
}

#[test]
fn all_statuses_equal_no_status_filter() {
    let conn = tagged_store();
    let all = [NoteStatus::ARCHIVED, NoteStatus::NORMAL, NoteStatus::TRASHED];
    let explicit = list_notes(&conn, &all, &SortOrder::Title, &[], &Limit::INFINITE).unwrap();
    let none = list_notes(&conn, &[], &SortOrder::Title, &[], &Limit::INFINITE).unwrap();
    assert_eq!(ids(&explicit), ids(&none));
}

#[test]
fn tag_filter_is_any_of() {
    let conn = tagged_store();
    let recipes = vec!["recipes".to_string()];
    let notes = list_notes(&conn, &[], &SortOrder::Title, &recipes, &Limit::INFINITE).unwrap();
    assert_eq!(ids(&notes), vec![4, 1]);
    let both = vec!["recipes".to_string(), "cooking".to_string()];
    let notes = list_notes(&conn, &[], &SortOrder::Title, &both, &Limit::INFINITE).unwrap();
    assert_eq!(ids(&notes), vec![4, 3, 1]);
}

#[test]
fn tag_and_status_filters_combine() {
    let conn = tagged_store();
    let both = vec!["recipes".to_string(), "cooking".to_string()];
    let filters = [NoteStatus::NORMAL, NoteStatus::TRASHED];
    let notes = list_notes(&conn, &filters, &SortOrder::Title, &both, &Limit::INFINITE).unwrap();
    assert_eq!(ids(&notes), vec![4, 1]);
}

#[test]
fn tag_without_notes_gives_empty_listing() {
    let conn = tagged_store();
    let unused = vec!["unused".to_string()];
    let notes = list_notes(&conn, &[], &SortOrder::Title, &unused, &Limit::INFINITE).unwrap();
    assert!(notes.is_empty());
}

#[test]
fn unknown_tag_gives_empty_listing() {
    let conn = tagged_store();
    let missing = vec!["no such tag".to_string()];
    let notes = list_notes(&conn, &[], &SortOrder::Title, &missing, &Limit::INFINITE);
    assert_eq!(notes.unwrap().len(), 0);
}

#[test]
fn tag_title_with_quotes_is_bound_as_value() {
    let conn = tagged_store();
    let hostile = vec!["x\") OR 1=1 --".to_string()];
    let notes = list_notes(&conn, &[], &SortOrder::Title, &hostile, &Limit::INFINITE).unwrap();
    assert!(notes.is_empty());
}

#[test]
fn tags_come_sorted_by_title() {
    let conn = tagged_store();
    let tags = list_tags(&conn).unwrap();
    let titles: Vec<&str> = tags.iter().map(|t| t.title.as_str()).collect();
    assert_eq!(titles, vec!["Zebra", "cooking", "recipes", "unused"]);
    assert_eq!(tags[1].pk, 2);
}

#[test]
fn find_by_id_returns_seeded_fields() {
    let conn = store();
    let note = find_note_by_id(&conn, 1).unwrap();
    assert_eq!(note.pk, 1);
    assert_eq!(note.title, "title");
    assert_eq!(note.subtitle, Some("subtitle".to_string()));
    assert_eq!(note.text, Some("text body".to_string()));
    assert_eq!(note.last_editing_device, "device");
    let start = Timestamp { year: 2001, month: 1, day: 1, hour: 0, minute: 0, second: 0 };
    assert_eq!(note.creation_date, start);
    assert_eq!(note.modification_date, start);
    assert_eq!(note.status, NoteStatus::NORMAL);
}

#[test]
fn find_by_id_parses_dates() {
    let conn = tagged_store();
    let note = find_note_by_id(&conn, 3).unwrap();
    let created = Timestamp { year: 2001, month: 1, day: 1, hour: 0, minute: 1, second: 40 };
    let modified = Timestamp { year: 2001, month: 1, day: 1, hour: 0, minute: 5, second: 0 };
    assert_eq!(note.creation_date, created);
    assert_eq!(note.modification_date, modified);
}

#[test]
fn find_missing_id_is_not_found() {
    let conn = store();
    assert!(matches!(find_note_by_id(&conn, 42), Err(CubError::NotFound)));
}

#[test]
fn null_title_is_malformed() {
    let conn = store();
    conn.execute("INSERT INTO ZSFNOTE VALUES (9, 0, NULL, NULL, NULL, 'd', 0, 0, 0)", ()).unwrap();
    assert_eq!(
        find_note_by_id(&conn, 9).unwrap_err(),
        CubError::MalformedRow { column: 1, id: Some(9), value: Some(Cell::Null) }
    );
    let listed = list_notes(&conn, &[], &SortOrder::DateUpdated, &[], &Limit::INFINITE);
    assert!(matches!(listed, Err(CubError::MalformedRow { column: 1, id: Some(9), value: Some(Cell::Null) })));
}

#[test]
fn missing_date_is_malformed() {
    let conn = store();
    conn.execute("INSERT INTO ZSFNOTE VALUES (8, 0, 't', NULL, NULL, 'd', NULL, 0, 0)", ()).unwrap();
    assert_eq!(
        find_note_by_id(&conn, 8).unwrap_err(),
        CubError::MalformedRow { column: 5, id: Some(8), value: Some(Cell::Null) }
    );
}

#[test]
fn missing_flag_is_malformed() {
    let conn = store();
    conn.execute("INSERT INTO ZSFNOTE VALUES (6, 0, 't', NULL, NULL, 'd', 0, 0, NULL)", ()).unwrap();
    assert_eq!(
        find_note_by_id(&conn, 6).unwrap_err(),
        CubError::MalformedRow { column: 8, id: Some(6), value: Some(Cell::Null) }
    );
}

#[test]
fn missing_tables_make_the_store_unavailable() {
    let conn = Connection::open_in_memory().unwrap();
    let listed = list_notes(&conn, &[], &SortOrder::Title, &[], &Limit::INFINITE);
    assert!(matches!(listed, Err(CubError::StoreUnavailable)));
    assert!(matches!(list_tags(&conn), Err(CubError::StoreUnavailable)));
    assert!(matches!(find_note_by_id(&conn, 1), Err(CubError::StoreUnavailable)));
}

#[test]
fn text_that_is_not_utf8_is_malformed() {
    let conn = store();
    conn.execute(
        "INSERT INTO ZSFNOTE VALUES (10, 0, CAST(X'FF' AS TEXT), NULL, NULL, 'd', 0, 0, 0)",
        (),
    )
    .unwrap();
    assert_eq!(
        find_note_by_id(&conn, 10).unwrap_err(),
        CubError::MalformedRow { column: 1, id: Some(10), value: Some(Cell::Other) }
    );
}

#[test]
fn dates_render_from_the_store_epoch() {
    let conn = store();
    conn.execute(
        "INSERT INTO ZSFNOTE VALUES (11, 0, 't', NULL, NULL, 'd', 86400, 31536000, 0)",
        (),
    )
    .unwrap();
    let note = find_note_by_id(&conn, 11).unwrap();
    let created = Timestamp { year: 2001, month: 1, day: 2, hour: 0, minute: 0, second: 0 };
    let modified = Timestamp { year: 2002, month: 1, day: 1, hour: 0, minute: 0, second: 0 };
    assert_eq!(note.creation_date, created);
    assert_eq!(note.modification_date, modified);
}
