use crate::note::{
    ascending_titles_are_sorted, note_of, tag_of, tags_in_title_order, title_le, titles_ascending, Cell, CubError, Note, Tag, NOTE_WIDTH,
    TAG_WIDTH, NoteStatus,
};
use crate::query::{limit_cap, note_by_id_query, note_query, tag_query, Limit, Param, SortOrder};
use rusqlite::types::Value;
use vstd::prelude::*;

verus! {

/// rusqlite's handle on an open database, carried through to `query_rows`.
#[verifier::external_type_specification]
#[verifier::external_body]
pub struct ExConnection(rusqlite::Connection);

/// rusqlite's error, which the repository operations map to their own.
#[verifier::external_type_specification]
#[verifier::external_body]
pub struct ExError(rusqlite::Error);

/// A result row of rusqlite, read column by column with `cell_at`.
#[verifier::external_type_specification]
#[verifier::external_body]
pub struct ExRow<'stmt>(rusqlite::Row<'stmt>);

/// Relies on rusqlite's `Row::get`, read as a `rusqlite::types::Value`: the
/// value of column `idx`, or an error where the row has no such column. Text
/// that is not UTF-8, which `Row::get` reports as `Error::Utf8Error`, is read
/// as a value of another kind. What it holds depends on the store.
#[verifier::external_body]
fn cell_at(row: &rusqlite::Row, idx: usize) -> (r: Result<Cell, rusqlite::Error>) {
    match row.get::<usize, Value>(idx) {
        Ok(Value::Null) => Ok(Cell::Null),
        Ok(Value::Integer(v)) => Ok(Cell::Integer(v)),
        Ok(Value::Text(s)) => Ok(Cell::Text(s)),
        Ok(Value::Real(_)) => Ok(Cell::Other),
        Ok(Value::Blob(_)) => Ok(Cell::Other),
        Err(rusqlite::Error::Utf8Error(..)) => Ok(Cell::Other),
        Err(e) => Err(e),
    }
}

/// Reads the first `width` columns of a result row.
fn read_cells(row: &rusqlite::Row, width: usize) -> (r: Result<Vec<Cell>, rusqlite::Error>)
    ensures
        r matches Ok(cells) ==> cells@.len() == width,
{
    let mut cells: Vec<Cell> = Vec::new();
    let mut i: usize = 0;
    while i < width
        invariant
            i <= width,
            cells@.len() == i,
        decreases width - i,
    {
        match cell_at(row, i) {
            Ok(c) => cells.push(c),
            Err(e) => return Err(e),
        }
        i += 1;
    }
    Ok(cells)
}

/// Relies on rusqlite's `Connection::prepare` and `Statement::query_map`: runs
/// `sql` with `params` bound to its placeholders in order, and reads each
/// result row with `read_cells`, so that each row has `width` cells. Which
/// rows come back depends on the store.
#[verifier::external_body]
fn query_rows(conn: &rusqlite::Connection, sql: &str, params: &Vec<Param>, width: usize) -> (r: Result<
    Vec<Vec<Cell>>,
    rusqlite::Error,
>)
    ensures
        r matches Ok(rows) ==> forall|i: int| 0 <= i < rows@.len() ==> (#[trigger] rows@[i])@.len() == width,
{
    let values = params.iter().map(|p| match p {
        Param::Integer(v) => Value::Integer(*v),
        Param::Text(t) => Value::Text(t.clone()),
    });
    let mut stmt = conn.prepare(sql)?;
    let rows = stmt.query_map(rusqlite::params_from_iter(values), |row| read_cells(row, width))?;
    rows.collect()
}

/// The rows that a limit admits: the first `n` for a finite limit of `n`,
/// all of them otherwise.
pub open spec fn capped<T>(rows: Seq<T>, limit: Limit) -> Seq<T> {
    match limit_cap(limit) {
        Some(n) => if rows.len() > n {
            rows.take(n as int)
        } else {
            rows
        },
        None => rows,
    }
}

/// The notes that `rows` describe, in order, or the error of the first
/// malformed row.
pub open spec fn notes_of_rows(rows: Seq<Vec<Cell>>) -> Result<Seq<Note>, CubError>
    decreases rows.len(),
{
    if rows.len() == 0 {
        Ok(Seq::empty())
    } else {
        match notes_of_rows(rows.drop_last()) {
            Err(e) => Err(e),
            Ok(notes) => match note_of(rows.last()@) {
                Err(e) => Err(e),
                Ok(n) => Ok(notes.push(n)),
            },
        }
    }
}

/// The tags that `rows` describe, in order, or the error of the first
/// malformed row.
pub open spec fn tags_of_rows(rows: Seq<Vec<Cell>>) -> Result<Seq<Tag>, CubError>
    decreases rows.len(),
{
    if rows.len() == 0 {
        Ok(Seq::empty())
    } else {
        match tags_of_rows(rows.drop_last()) {
            Err(e) => Err(e),
            Ok(tags) => match tag_of(rows.last()@) {
                Err(e) => Err(e),
                Ok(t) => Ok(tags.push(t)),
            },
        }
    }
}

/// The note with id `id` among the rows read for it: the first row, where
/// it maps and carries that id.
pub open spec fn note_by_id_of_rows(rows: Seq<Vec<Cell>>, id: i32) -> Result<Note, CubError> {
    if rows.len() == 0 {
        Err(CubError::NotFound)
    } else {
        match note_of(rows[0]@) {
            Err(e) => Err(e),
            Ok(n) => if n.pk == id {
                Ok(n)
            } else {
                Err(CubError::NotFound)
            },
        }
    }
}

proof fn lemma_note_error_is_malformed(row: Seq<Cell>)
    ensures
        note_of(row) matches Err(e) ==> e is MalformedRow,
{
}

/// Mapping rows fails only on a malformed row, and otherwise gives one note
/// per row.
proof fn lemma_notes_of_rows(rows: Seq<Vec<Cell>>)
    ensures
        notes_of_rows(rows) matches Err(e) ==> e is MalformedRow,
        notes_of_rows(rows) matches Ok(notes) ==> notes.len() == rows.len(),
    decreases rows.len(),
{
    if rows.len() > 0 {
        lemma_notes_of_rows(rows.drop_last());
        lemma_note_error_is_malformed(rows.last()@);
    }
}

/// Mapping tag rows fails only on a malformed row, and otherwise gives one
/// tag per row.
proof fn lemma_tags_of_rows(rows: Seq<Vec<Cell>>)
    ensures
        tags_of_rows(rows) matches Err(e) ==> e is MalformedRow,
        tags_of_rows(rows) matches Ok(tags) ==> tags.len() == rows.len(),
    decreases rows.len(),
{
    if rows.len() > 0 {
        lemma_tags_of_rows(rows.drop_last());
    }
}

/// Once a prefix of the rows fails to map, every longer prefix fails the same way.
proof fn lemma_notes_error_persists(rows: Seq<Vec<Cell>>, i: int, j: int)
    requires
        0 <= i <= j <= rows.len(),
        notes_of_rows(rows.take(i)) is Err,
    ensures
        notes_of_rows(rows.take(j)) == notes_of_rows(rows.take(i)),
    decreases j - i,
{
    if j > i {
        lemma_notes_error_persists(rows, i, j - 1);
        assert(rows.take(j).drop_last() =~= rows.take(j - 1));
    }
}

proof fn lemma_tags_error_persists(rows: Seq<Vec<Cell>>, i: int, j: int)
    requires
        0 <= i <= j <= rows.len(),
        tags_of_rows(rows.take(i)) is Err,
    ensures
        tags_of_rows(rows.take(j)) == tags_of_rows(rows.take(i)),
    decreases j - i,
{
    if j > i {
        lemma_tags_error_persists(rows, i, j - 1);
        assert(rows.take(j).drop_last() =~= rows.take(j - 1));
    }
}

/// Maps the rows that a note listing read, keeping those that `limit` admits.
pub fn notes_from_rows(rows: &Vec<Vec<Cell>>, limit: &Limit) -> (r: Result<Vec<Note>, CubError>)
    ensures
        r is Ok <==> notes_of_rows(capped(rows@, *limit)) is Ok,
        r matches Ok(notes) ==> notes_of_rows(capped(rows@, *limit)) == Ok::<Seq<Note>, CubError>(
            notes@,
        ),
        r matches Ok(notes) ==> notes@.len() == capped(rows@, *limit).len(),
        r matches Err(e) ==> notes_of_rows(capped(rows@, *limit)) == Err::<Seq<Note>, CubError>(e),
        r matches Err(e) ==> e is MalformedRow,
{
    let n: usize = match limit {
        Limit::INFINITE => rows.len(),
        Limit::FINITE(c) => if *c < 0 {
            0
        } else if (*c as usize) < rows.len() {
            *c as usize
        } else {
            rows.len()
        },
    };
    let ghost kept = capped(rows@, *limit);
    assert(kept =~= rows@.take(n as int));
    let mut notes: Vec<Note> = Vec::new();
    let mut i: usize = 0;
    assert(rows@.take(0) =~= Seq::<Vec<Cell>>::empty());
    while i < n
        invariant
            i <= n <= rows@.len(),
            kept == rows@.take(n as int),
            kept == capped(rows@, *limit),
            notes_of_rows(rows@.take(i as int)) == Ok::<Seq<Note>, CubError>(notes@),
        decreases n - i,
    {
        assert(rows@.take(i + 1).drop_last() =~= rows@.take(i as int));
        match Note::from_sql(rows[i].as_slice()) {
            Ok(note) => notes.push(note),
            Err(e) => {
                proof {
                    assert(rows@.take(i + 1).last() == rows@[i as int]);
                    assert(notes_of_rows(rows@.take(i + 1)) == Err::<Seq<Note>, CubError>(e));
                    lemma_notes_error_persists(rows@, i + 1, n as int);
                }
                return Err(e);
            },
        }
        i += 1;
    }
    proof {
        lemma_notes_of_rows(kept);
    }
    Ok(notes)
}

/// Maps the rows that the tag listing read.
pub fn tags_from_rows(rows: &Vec<Vec<Cell>>) -> (r: Result<Vec<Tag>, CubError>)
    ensures
        r is Ok <==> tags_of_rows(rows@) is Ok,
        r matches Ok(tags) ==> tags_of_rows(rows@) == Ok::<Seq<Tag>, CubError>(tags@),
        r matches Ok(tags) ==> tags@.len() == rows@.len(),
        r matches Err(e) ==> tags_of_rows(rows@) == Err::<Seq<Tag>, CubError>(e),
        r matches Err(e) ==> e is MalformedRow,
{
    let mut tags: Vec<Tag> = Vec::new();
    let mut i: usize = 0;
    assert(rows@.take(0) =~= Seq::<Vec<Cell>>::empty());
    while i < rows.len()
        invariant
            i <= rows@.len(),
            tags_of_rows(rows@.take(i as int)) == Ok::<Seq<Tag>, CubError>(tags@),
        decreases rows@.len() - i,
    {
        assert(rows@.take(i + 1).drop_last() =~= rows@.take(i as int));
        match Tag::from_sql(rows[i].as_slice()) {
            Ok(tag) => tags.push(tag),
            Err(e) => {
                proof {
                    assert(rows@.take(i + 1).last() == rows@[i as int]);
                    assert(tags_of_rows(rows@.take(i + 1)) == Err::<Seq<Tag>, CubError>(e));
                    lemma_tags_error_persists(rows@, i + 1, rows@.len() as int);
                    assert(rows@.take(rows@.len() as int) =~= rows@);
                    lemma_tags_of_rows(rows@);
                }
                return Err(e);
            },
        }
        i += 1;
    }
    assert(rows@.take(rows@.len() as int) =~= rows@);
    proof {
        lemma_tags_of_rows(rows@);
    }
    Ok(tags)
}

/// Picks the note with id `id` out of the rows read for it.
pub fn note_by_id_from_rows(rows: &Vec<Vec<Cell>>, id: i32) -> (r: Result<Note, CubError>)
    ensures
        r == note_by_id_of_rows(rows@, id),
{
    if rows.len() == 0 {
        return Err(CubError::NotFound);
    }
    match Note::from_sql(rows[0].as_slice()) {
        Err(e) => Err(e),
        Ok(n) => if n.pk == id {
            Ok(n)
        } else {
            Err(CubError::NotFound)
        },
    }
}

/// Reads the note with id `note_id`: `NotFound` where the store has none.
pub fn find_note_by_id(conn: &rusqlite::Connection, note_id: i32) -> (r: Result<Note, CubError>)
    ensures
        r matches Ok(n) ==> n.pk == note_id,
        r matches Ok(n) ==> exists|row: Seq<Cell>| note_of(row) == Ok::<Note, CubError>(n),
{
    let q = note_by_id_query(note_id as i64);
    match query_rows(conn, q.sql.as_str(), &q.params, NOTE_WIDTH) {
        Err(_) => Err(CubError::StoreUnavailable),
        Ok(rows) => note_by_id_from_rows(&rows, note_id),
    }
}

/// Lists the notes that match the status filters (any of them; none means
/// every status) and carry any of the tag titles (none means no tag
/// restriction), in the given order and up to the limit. No match is no
/// error: the listing is then empty.
pub fn list_notes(
    conn: &rusqlite::Connection,
    filters: &[NoteStatus],
    order: &SortOrder,
    tags: &[String],
    limit: &Limit,
) -> (r: Result<Vec<Note>, CubError>)
    ensures
        r matches Ok(notes) ==> exists|rows: Seq<Vec<Cell>>|
            notes_of_rows(capped(rows, *limit)) == Ok::<Seq<Note>, CubError>(notes@),
        r matches Ok(notes) ==> (limit_cap(*limit) matches Some(n) ==> notes@.len() <= n),
        r matches Err(e) ==> e is MalformedRow || e is StoreUnavailable,
{
    let q = note_query(filters, tags, order, limit);
    match query_rows(conn, q.sql.as_str(), &q.params, NOTE_WIDTH) {
        Err(_) => Err(CubError::StoreUnavailable),
        Ok(rows) => {
            let r = notes_from_rows(&rows, limit);
            proof {
                limit_bounds_listing(rows@, *limit);
            }
            r
        },
    }
}

/// The tag listing that `rows` give: their tags where they map and come in
/// ascending title order; a store that answers the ordered query out of
/// order is treated as unavailable.
pub open spec fn tag_listing_of_rows(rows: Seq<Vec<Cell>>) -> Result<Seq<Tag>, CubError> {
    match tags_of_rows(rows) {
        Err(e) => Err(e),
        Ok(tags) => if titles_ascending(tags) {
            Ok(tags)
        } else {
            Err(CubError::StoreUnavailable)
        },
    }
}

/// Maps the rows that the tag listing read and checks their title order.
pub fn tag_listing_from_rows(rows: &Vec<Vec<Cell>>) -> (r: Result<Vec<Tag>, CubError>)
    ensures
        r is Ok <==> tag_listing_of_rows(rows@) is Ok,
        r matches Ok(tags) ==> tag_listing_of_rows(rows@) == Ok::<Seq<Tag>, CubError>(tags@),
        r matches Err(e) ==> tag_listing_of_rows(rows@) == Err::<Seq<Tag>, CubError>(e),
{
    match tags_from_rows(rows) {
        Err(e) => Err(e),
        Ok(tags) => if tags_in_title_order(&tags) {
            Ok(tags)
        } else {
            Err(CubError::StoreUnavailable)
        },
    }
}

/// Lists every tag in ascending title order.
pub fn list_tags(conn: &rusqlite::Connection) -> (r: Result<Vec<Tag>, CubError>)
    ensures
        r matches Ok(tags) ==> exists|rows: Seq<Vec<Cell>>|
            tag_listing_of_rows(rows) == Ok::<Seq<Tag>, CubError>(tags@),
        r matches Ok(tags) ==> forall|i: int, j: int|
            0 <= i <= j < tags@.len() ==> title_le(#[trigger] tags@[i].title@, #[trigger] tags@[j].title@),
        r matches Err(e) ==> e is MalformedRow || e is StoreUnavailable,
{
    let q = tag_query();
    match query_rows(conn, q.sql.as_str(), &q.params, TAG_WIDTH) {
        Err(_) => Err(CubError::StoreUnavailable),
        Ok(rows) => {
            let r = tag_listing_from_rows(&rows);
            proof {
                lemma_tags_of_rows(rows@);
                if let Ok(tags) = &r {
                    assert forall|i: int, j: int| 0 <= i <= j < tags@.len() implies title_le(
                        #[trigger] tags@[i].title@,
                        #[trigger] tags@[j].title@,
                    ) by {
                        ascending_titles_are_sorted(tags@, i, j);
                    }
                }
            }
            r
        },
    }
}

/// A listing that maps gives one note per row, in order: the `i`-th note is
/// the `i`-th row, mapped.
pub proof fn notes_follow_rows(rows: Seq<Vec<Cell>>)
    ensures
        notes_of_rows(rows) matches Ok(notes) ==> {
            &&& notes.len() == rows.len()
            &&& forall|i: int| 0 <= i < rows.len() ==> note_of(#[trigger] rows[i]@) == Ok::<Note, CubError>(notes[i])
        },
    decreases rows.len(),
{
    if rows.len() > 0 {
        notes_follow_rows(rows.drop_last());
        lemma_notes_of_rows(rows);
        if let Ok(notes) = notes_of_rows(rows) {
            let prev = rows.drop_last();
            assert forall|i: int| 0 <= i < rows.len() implies note_of(#[trigger] rows[i]@) == Ok::<Note, CubError>(notes[i]) by {
                if i < rows.len() - 1 {
                    assert(rows[i] == prev[i]);
                }
            }
        }
    }
}

/// A tag listing that maps gives one tag per row, in order: the `i`-th tag
/// is the `i`-th row, mapped, so no tag is dropped or repeated.
pub proof fn tags_follow_rows(rows: Seq<Vec<Cell>>)
    ensures
        tags_of_rows(rows) matches Ok(tags) ==> {
            &&& tags.len() == rows.len()
            &&& forall|i: int| 0 <= i < rows.len() ==> tag_of(#[trigger] rows[i]@) == Ok::<Tag, CubError>(tags[i])
        },
    decreases rows.len(),
{
    if rows.len() > 0 {
        tags_follow_rows(rows.drop_last());
        lemma_tags_of_rows(rows);
        if let Ok(tags) = tags_of_rows(rows) {
            let prev = rows.drop_last();
            assert forall|i: int| 0 <= i < rows.len() implies tag_of(#[trigger] rows[i]@) == Ok::<Tag, CubError>(tags[i]) by {
                if i < rows.len() - 1 {
                    assert(rows[i] == prev[i]);
                }
            }
        }
    }
}

/// A finite limit of `n` keeps at most `n` rows, the first ones; no limit
/// keeps every row; and a listing that maps has one note per kept row.
pub proof fn limit_bounds_listing(rows: Seq<Vec<Cell>>, limit: Limit)
    ensures
        limit_cap(limit) matches Some(n) ==> capped(rows, limit).len() <= n,
        capped(rows, limit) == rows.take(capped(rows, limit).len() as int),
        limit is INFINITE ==> capped(rows, limit) == rows,
        notes_of_rows(capped(rows, limit)) matches Ok(notes) ==> notes.len() == capped(
            rows,
            limit,
        ).len(),
{
    assert(rows.take(rows.len() as int) =~= rows);
    lemma_notes_of_rows(capped(rows, limit));
}

/// A query that matches no row gives an empty listing, never an error.
pub proof fn no_rows_no_notes(limit: Limit)
    ensures
        notes_of_rows(capped(Seq::empty(), limit)) == Ok::<Seq<Note>, CubError>(Seq::empty()),
{
}

/// Looking a note up fails with `NotFound` where no row came back; a note it
/// finds carries the requested id and is the first row, mapped.
pub proof fn lookup_by_id(rows: Seq<Vec<Cell>>, id: i32)
    ensures
        rows.len() == 0 ==> note_by_id_of_rows(rows, id) == Err::<Note, CubError>(CubError::NotFound),
        note_by_id_of_rows(rows, id) matches Ok(n) ==> n.pk == id && note_of(rows[0]@) == Ok::<
            Note,
            CubError,
        >(n),
{
}

} // verus!
