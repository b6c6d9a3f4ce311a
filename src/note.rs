use crate::timestamp::{parse_timestamp, timestamp_of, Timestamp};
use vstd::prelude::*;

verus! {

/// The number of columns of a note row: id, title, subtitle, body, editing
/// device, creation date, modification date, archived flag, trashed flag.
pub const NOTE_WIDTH: usize = 9;

/// The number of columns of a tag row: id, title.
pub const TAG_WIDTH: usize = 2;

/// Where a note stands, derived from its archived and trashed flags.
#[allow(non_camel_case_types)]
#[derive(Clone, Copy, Debug, PartialEq, Eq, Structural)]
pub enum NoteStatus {
    ARCHIVED,
    TRASHED,
    NORMAL,
}

/// The status of a note with the given flags: archived wins over trashed.
pub open spec fn status_of(archived: bool, trashed: bool) -> NoteStatus {
    if archived {
        NoteStatus::ARCHIVED
    } else if trashed {
        NoteStatus::TRASHED
    } else {
        NoteStatus::NORMAL
    }
}

/// Derives a note's status from its two flags.
pub fn note_status(archived: bool, trashed: bool) -> (r: NoteStatus)
    ensures
        r == status_of(archived, trashed),
{
    if archived {
        NoteStatus::ARCHIVED
    } else if trashed {
        NoteStatus::TRASHED
    } else {
        NoteStatus::NORMAL
    }
}

/// Every pair of flags gives exactly one status, and the archived flag takes
/// precedence over the trashed flag.
pub proof fn status_precedence(archived: bool, trashed: bool)
    ensures
        (status_of(archived, trashed) == NoteStatus::ARCHIVED) <==> archived,
        (status_of(archived, trashed) == NoteStatus::TRASHED) <==> (!archived && trashed),
        (status_of(archived, trashed) == NoteStatus::NORMAL) <==> (!archived && !trashed),
{
}

impl NoteStatus {
    /// The one-letter mark of the status: `A`, `T` or `.`.
    pub fn mark(&self) -> (r: &'static str)
        ensures
            r@ == status_mark(*self),
    {
        match self {
            NoteStatus::ARCHIVED => "A",
            NoteStatus::TRASHED => "T",
            NoteStatus::NORMAL => ".",
        }
    }
}

/// The mark by which a listing shows a status.
pub open spec fn status_mark(s: NoteStatus) -> Seq<char> {
    match s {
        NoteStatus::ARCHIVED => "A"@,
        NoteStatus::TRASHED => "T"@,
        NoteStatus::NORMAL => "."@,
    }
}

/// One value read from a column of a result row.
#[derive(Clone, Debug, PartialEq, Eq)]
pub enum Cell {
    Null,
    Integer(i64),
    Text(String),
    /// A real number or a blob: no column that is read here holds one.
    Other,
}

/// Why a query or a row could not be turned into records.
#[derive(Clone, Debug, PartialEq, Eq)]
pub enum CubError {
    /// No note has the requested id.
    NotFound,
    /// The row's `column` has a missing value, one of the wrong kind or a
    /// date that does not parse; `id` is the row's id where that could be
    /// read, `value` the column's raw value, `None` where the row is too short.
    MalformedRow { column: usize, id: Option<i64>, value: Option<Cell> },
    /// The store could not be opened or queried.
    StoreUnavailable,
}

/// One note of the store.
#[derive(Clone, Debug)]
pub struct Note {
    pub pk: i32,
    pub title: String,
    pub subtitle: Option<String>,
    pub text: Option<String>,
    pub last_editing_device: String,
    pub creation_date: Timestamp,
    pub modification_date: Timestamp,
    pub status: NoteStatus,
}

/// One tag of the store.
#[derive(Clone, Debug)]
pub struct Tag {
    pub pk: u32,
    pub title: String,
}

pub open spec fn is_integer(c: Cell) -> bool {
    c is Integer
}

/// An integer that fits a note id.
pub open spec fn is_i32(c: Cell) -> bool {
    c matches Cell::Integer(v) && i32::MIN <= v <= i32::MAX
}

/// An integer that fits a tag id.
pub open spec fn is_u32(c: Cell) -> bool {
    c matches Cell::Integer(v) && 0 <= v <= u32::MAX
}

pub open spec fn is_text(c: Cell) -> bool {
    c is Text
}

/// A column that may be absent: NULL or text.
pub open spec fn is_optional_text(c: Cell) -> bool {
    c is Null || c is Text
}

pub open spec fn integer_of(c: Cell) -> i64 {
    match c {
        Cell::Integer(v) => v,
        _ => 0,
    }
}

pub open spec fn text_of(c: Cell) -> String {
    match c {
        Cell::Text(s) => s,
        _ => arbitrary(),
    }
}

pub open spec fn optional_text_of(c: Cell) -> Option<String> {
    match c {
        Cell::Text(s) => Some(s),
        _ => None,
    }
}

/// A flag column is set when it holds 1.
pub open spec fn flag_of(c: Cell) -> bool {
    integer_of(c) == 1
}

/// The id of a row, where its first column holds one.
pub open spec fn row_id(row: Seq<Cell>) -> Option<i64> {
    if row.len() > 0 && is_integer(row[0]) {
        Some(integer_of(row[0]))
    } else {
        None
    }
}

/// The error for a row whose `column` does not fit.
pub open spec fn malformed(row: Seq<Cell>, column: int) -> CubError {
    CubError::MalformedRow {
        column: column as usize,
        id: row_id(row),
        value: if 0 <= column < row.len() {
            Some(row[column])
        } else {
            None
        },
    }
}

fn copy_cell(c: &Cell) -> (r: Cell)
    ensures
        r == *c,
{
    match c {
        Cell::Null => Cell::Null,
        Cell::Integer(v) => Cell::Integer(*v),
        Cell::Text(s) => Cell::Text(s.clone()),
        Cell::Other => Cell::Other,
    }
}

fn malformed_at(row: &[Cell], column: usize) -> (e: CubError)
    ensures
        e == malformed(row@, column as int),
{
    let id: Option<i64> = if row.len() > 0 {
        match &row[0] {
            Cell::Integer(v) => Some(*v),
            _ => None,
        }
    } else {
        None
    };
    let value = if column < row.len() {
        Some(copy_cell(&row[column]))
    } else {
        None
    };
    CubError::MalformedRow { column, id, value }
}

/// What the date parser made of a date column, or `None` where the column
/// holds no text.
pub open spec fn parsed_date(c: Cell) -> Option<Timestamp> {
    match c {
        Cell::Text(s) => timestamp_of(s@),
        _ => None,
    }
}

/// The first column of a full note row whose value does not fit, given what
/// the date parser made of the two date columns.
pub open spec fn first_bad_column(
    row: Seq<Cell>,
    created: Option<Timestamp>,
    modified: Option<Timestamp>,
) -> Option<usize> {
    if !is_i32(row[0]) {
        Some(0)
    } else if !is_text(row[1]) {
        Some(1)
    } else if !is_optional_text(row[2]) {
        Some(2)
    } else if !is_optional_text(row[3]) {
        Some(3)
    } else if !is_text(row[4]) {
        Some(4)
    } else if !is_text(row[5]) || created is None {
        Some(5)
    } else if !is_text(row[6]) || modified is None {
        Some(6)
    } else if !is_integer(row[7]) {
        Some(7)
    } else if !is_integer(row[8]) {
        Some(8)
    } else {
        None
    }
}

/// The note that a row describes, given what the date parser made of its
/// two date columns; a row that is too short or holds a value that does not
/// fit is malformed at its first such column.
pub open spec fn note_of_row(
    row: Seq<Cell>,
    created: Option<Timestamp>,
    modified: Option<Timestamp>,
) -> Result<Note, CubError> {
    if row.len() < NOTE_WIDTH {
        Err(malformed(row, row.len() as int))
    } else if let Some(column) = first_bad_column(row, created, modified) {
        Err(malformed(row, column as int))
    } else {
        Ok(
            Note {
                pk: integer_of(row[0]) as i32,
                title: text_of(row[1]),
                subtitle: optional_text_of(row[2]),
                text: optional_text_of(row[3]),
                last_editing_device: text_of(row[4]),
                creation_date: created.unwrap(),
                modification_date: modified.unwrap(),
                status: status_of(flag_of(row[7]), flag_of(row[8])),
            },
        )
    }
}

/// The note that a row describes, its dates parsed by chrono.
pub open spec fn note_of(row: Seq<Cell>) -> Result<Note, CubError> {
    if row.len() < NOTE_WIDTH {
        note_of_row(row, None, None)
    } else {
        note_of_row(row, parsed_date(row[5]), parsed_date(row[6]))
    }
}

/// The tag that a row describes.
pub open spec fn tag_of(row: Seq<Cell>) -> Result<Tag, CubError> {
    if row.len() < TAG_WIDTH {
        Err(malformed(row, row.len() as int))
    } else if !is_u32(row[0]) {
        Err(malformed(row, 0))
    } else if !is_text(row[1]) {
        Err(malformed(row, 1))
    } else {
        Ok(Tag { pk: integer_of(row[0]) as u32, title: text_of(row[1]) })
    }
}

fn optional_text(c: &Cell) -> (r: Option<Option<String>>)
    ensures
        r matches Some(v) <==> is_optional_text(*c),
        r matches Some(v) ==> v == optional_text_of(*c),
{
    match c {
        Cell::Null => Some(None),
        Cell::Text(s) => Some(Some(s.clone())),
        _ => None,
    }
}

impl Note {
    /// Maps a note row, given what the date parser made of its two date
    /// columns.
    pub fn from_parts(row: &[Cell], created: Option<Timestamp>, modified: Option<Timestamp>) -> (r:
        Result<Note, CubError>)
        ensures
            r == note_of_row(row@, created, modified),
    {
        if row.len() < NOTE_WIDTH {
            return Err(malformed_at(row, row.len()));
        }
        let pk: i32 = match &row[0] {
            Cell::Integer(v) if i32::MIN as i64 <= *v && *v <= i32::MAX as i64 => *v as i32,
            _ => return Err(malformed_at(row, 0)),
        };
        let title = match &row[1] {
            Cell::Text(s) => s.clone(),
            _ => return Err(malformed_at(row, 1)),
        };
        let subtitle = match optional_text(&row[2]) {
            Some(v) => v,
            None => return Err(malformed_at(row, 2)),
        };
        let text = match optional_text(&row[3]) {
            Some(v) => v,
            None => return Err(malformed_at(row, 3)),
        };
        let last_editing_device = match &row[4] {
            Cell::Text(s) => s.clone(),
            _ => return Err(malformed_at(row, 4)),
        };
        let creation_date = match (&row[5], created) {
            (Cell::Text(_), Some(t)) => t,
            _ => return Err(malformed_at(row, 5)),
        };
        let modification_date = match (&row[6], modified) {
            (Cell::Text(_), Some(t)) => t,
            _ => return Err(malformed_at(row, 6)),
        };
        let archived = match &row[7] {
            Cell::Integer(v) => *v == 1,
            _ => return Err(malformed_at(row, 7)),
        };
        let trashed = match &row[8] {
            Cell::Integer(v) => *v == 1,
            _ => return Err(malformed_at(row, 8)),
        };
        Ok(
            Note {
                pk,
                title,
                subtitle,
                text,
                last_editing_device,
                creation_date,
                modification_date,
                status: note_status(archived, trashed),
            },
        )
    }

    /// Maps one note row, parsing its date columns with chrono.
    pub fn from_sql(row: &[Cell]) -> (r: Result<Note, CubError>)
        ensures
            r == note_of(row@),
    {
        if row.len() < NOTE_WIDTH {
            return Note::from_parts(row, None, None);
        }
        let created = match &row[5] {
            Cell::Text(s) => parse_timestamp(s.as_str()),
            _ => None,
        };
        let modified = match &row[6] {
            Cell::Text(s) => parse_timestamp(s.as_str()),
            _ => None,
        };
        Note::from_parts(row, created, modified)
    }
}

impl Tag {
    /// Maps one tag row.
    pub fn from_sql(row: &[Cell]) -> (r: Result<Tag, CubError>)
        ensures
            r == tag_of(row@),
    {
        if row.len() < TAG_WIDTH {
            return Err(malformed_at(row, row.len()));
        }
        let pk: u32 = match &row[0] {
            Cell::Integer(v) if 0 <= *v && *v <= u32::MAX as i64 => *v as u32,
            _ => return Err(malformed_at(row, 0)),
        };
        match &row[1] {
            Cell::Text(s) => Ok(Tag { pk, title: s.clone() }),
            _ => Err(malformed_at(row, 1)),
        }
    }
}

/// A mapped note's status follows from the row's two flags by the
/// precedence rule, and its fields are the row's values.
pub proof fn mapped_note_follows_row(row: Seq<Cell>)
    ensures
        note_of(row) matches Ok(n) ==> {
            &&& n.status == status_of(flag_of(row[7]), flag_of(row[8]))
            &&& Cell::Integer(n.pk as i64) == row[0]
            &&& Cell::Text(n.title) == row[1]
            &&& Cell::Text(n.last_editing_device) == row[4]
            &&& (n.subtitle matches Some(s) ==> row[2] == Cell::Text(s))
            &&& (n.subtitle is None ==> row[2] == Cell::Null)
            &&& (n.text matches Some(s) ==> row[3] == Cell::Text(s))
            &&& (n.text is None ==> row[3] == Cell::Null)
        },
{
}

/// `a` comes no later than `b` in lexicographic order by code point, the
/// order in which SQLite compares text by default.
pub open spec fn title_le(a: Seq<char>, b: Seq<char>) -> bool
    decreases a.len(),
{
    if a.len() == 0 {
        true
    } else if b.len() == 0 {
        false
    } else if a[0] != b[0] {
        (a[0] as u32) < (b[0] as u32)
    } else {
        title_le(a.drop_first(), b.drop_first())
    }
}

/// Each tag's title comes no later than the next one's.
pub open spec fn titles_ascending(tags: Seq<Tag>) -> bool {
    forall|i: int| 0 <= i < tags.len() - 1 ==> title_le(#[trigger] tags[i].title@, tags[i + 1].title@)
}

/// Compares two titles in lexicographic order by code point.
pub fn titles_in_order(a: &str, b: &str) -> (r: bool)
    ensures
        r == title_le(a@, b@),
{
    let la = a.unicode_len();
    let lb = b.unicode_len();
    let mut i: usize = 0;
    assert(a@.skip(0) =~= a@);
    assert(b@.skip(0) =~= b@);
    while i < la && i < lb
        invariant
            la == a@.len(),
            lb == b@.len(),
            i <= la,
            i <= lb,
            title_le(a@, b@) == title_le(a@.skip(i as int), b@.skip(i as int)),
        decreases la - i,
    {
        let ca = a.get_char(i);
        let cb = b.get_char(i);
        if ca != cb {
            return (ca as u32) < (cb as u32);
        }
        assert(a@.skip(i as int).drop_first() =~= a@.skip(i + 1));
        assert(b@.skip(i as int).drop_first() =~= b@.skip(i + 1));
        i += 1;
    }
    i == la
}

/// Tells whether the tags come in ascending title order.
pub fn tags_in_title_order(tags: &Vec<Tag>) -> (r: bool)
    ensures
        r == titles_ascending(tags@),
{
    if tags.len() == 0 {
        return true;
    }
    let mut i: usize = 1;
    while i < tags.len()
        invariant
            1 <= i <= tags@.len(),
            forall|j: int| 0 <= j < i - 1 ==> title_le(#[trigger] tags@[j].title@, tags@[j + 1].title@),
        decreases tags@.len() - i,
    {
        if !titles_in_order(tags[i - 1].title.as_str(), tags[i].title.as_str()) {
            return false;
        }
        i += 1;
    }
    true
}

proof fn lemma_title_le_reflexive(a: Seq<char>)
    ensures
        title_le(a, a),
    decreases a.len(),
{
    if a.len() > 0 {
        lemma_title_le_reflexive(a.drop_first());
    }
}

proof fn lemma_title_le_transitive(a: Seq<char>, b: Seq<char>, c: Seq<char>)
    requires
        title_le(a, b),
        title_le(b, c),
    ensures
        title_le(a, c),
    decreases a.len(),
{
    if a.len() > 0 && b.len() > 0 && c.len() > 0 && a[0] == b[0] && b[0] == c[0] {
        lemma_title_le_transitive(a.drop_first(), b.drop_first(), c.drop_first());
    }
}

/// Titles that ascend from each tag to the next ascend between any two
/// positions.
pub proof fn ascending_titles_are_sorted(tags: Seq<Tag>, i: int, j: int)
    requires
        titles_ascending(tags),
        0 <= i <= j < tags.len(),
    ensures
        title_le(tags[i].title@, tags[j].title@),
    decreases j - i,
{
    if i == j {
        lemma_title_le_reflexive(tags[i].title@);
    } else {
        ascending_titles_are_sorted(tags, i, j - 1);
        assert(title_le(tags[j - 1].title@, tags[j].title@));
        lemma_title_le_transitive(tags[i].title@, tags[j - 1].title@, tags[j].title@);
    }
}

} // verus!
