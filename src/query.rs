use crate::note::NoteStatus;
use vstd::prelude::*;

verus! {

/// How many notes a listing may return at most.
#[allow(non_camel_case_types)]
#[derive(Clone, Copy, Debug, PartialEq, Eq, Structural)]
pub enum Limit {
    INFINITE,
    /// At most this many; a count below zero admits none.
    FINITE(i32),
}

/// The order in which a listing returns notes.
#[derive(Clone, Copy, Debug, PartialEq, Eq, Structural)]
pub enum SortOrder {
    /// Most recently modified first.
    DateUpdated,
    /// By title, ascending.
    Title,
}

/// A value bound to a `?` placeholder of a query.
#[derive(Clone, Debug, PartialEq, Eq)]
pub enum Param {
    Integer(i64),
    Text(String),
}

/// A query text and the values bound to its placeholders, in order.
#[derive(Clone, Debug)]
pub struct Query {
    pub sql: String,
    pub params: Vec<Param>,
}

/// Reads the note columns in the order that `note::note_of` expects; the
/// store counts dates in seconds from 2001-01-01, which SQLite renders as text.
pub const BASE_NOTE_QUERY: &'static str = "SELECT Z_PK, ZTITLE, ZSUBTITLE, ZTEXT, ZLASTEDITINGDEVICE, datetime(ZCREATIONDATE, 'unixepoch', '+31 years'), datetime(ZMODIFICATIONDATE, 'unixepoch', '+31 years'), ZARCHIVED, ZTRASHED FROM ZSFNOTE";

/// Reads every tag, by title and then by id.
pub const TAG_QUERY: &'static str = "SELECT Z_PK, ZTITLE FROM ZSFNOTETAG ORDER BY ZTITLE, Z_PK";

/// The notes tagged with any of the titles bound to the placeholders that follow.
pub const TAG_FILTER_HEAD: &'static str = "Z_PK IN (SELECT Z_6NOTES FROM Z_6TAGS WHERE Z_13TAGS IN (SELECT Z_PK FROM ZSFNOTETAG WHERE ZTITLE IN (";

/// The count bound to a finite limit: never below zero.
pub open spec fn limit_count(n: i32) -> i64 {
    if n < 0 {
        0
    } else {
        n as i64
    }
}

/// The most notes that a limit admits, or `None` for no bound.
pub open spec fn limit_cap(limit: Limit) -> Option<nat> {
    match limit {
        Limit::INFINITE => None,
        Limit::FINITE(n) => Some(limit_count(n) as nat),
    }
}

/// The predicate that selects the notes of one status.
pub open spec fn status_clause(s: NoteStatus) -> Seq<char> {
    match s {
        NoteStatus::ARCHIVED => "ZARCHIVED = ?"@,
        NoteStatus::TRASHED => "ZTRASHED = ?"@,
        NoteStatus::NORMAL => "(ZARCHIVED = ? AND ZTRASHED = ?)"@,
    }
}

/// The flag values bound by `status_clause(s)`.
pub open spec fn status_clause_params(s: NoteStatus) -> Seq<Param> {
    match s {
        NoteStatus::ARCHIVED => seq![Param::Integer(1)],
        NoteStatus::TRASHED => seq![Param::Integer(1)],
        NoteStatus::NORMAL => seq![Param::Integer(0), Param::Integer(0)],
    }
}

/// The status predicates of `fs`, in order, joined by `OR`.
pub open spec fn status_disjunction(fs: Seq<NoteStatus>) -> Seq<char>
    decreases fs.len(),
{
    if fs.len() == 0 {
        Seq::empty()
    } else if fs.len() == 1 {
        status_clause(fs[0])
    } else {
        status_disjunction(fs.drop_last()) + " OR "@ + status_clause(fs.last())
    }
}

/// The values bound by `status_disjunction(fs)`, in order.
pub open spec fn status_params(fs: Seq<NoteStatus>) -> Seq<Param>
    decreases fs.len(),
{
    if fs.len() == 0 {
        Seq::empty()
    } else {
        status_params(fs.drop_last()) + status_clause_params(fs.last())
    }
}

/// `n` placeholders separated by commas.
pub open spec fn placeholders(n: nat) -> Seq<char>
    decreases n,
{
    if n == 0 {
        Seq::empty()
    } else if n == 1 {
        "?"@
    } else {
        placeholders((n - 1) as nat) + ", ?"@
    }
}

/// The predicate that selects the notes carrying any of `n` tag titles.
pub open spec fn tag_clause(n: nat) -> Seq<char> {
    TAG_FILTER_HEAD@ + placeholders(n) + ")))"@
}

/// The tag titles, each bound as text.
pub open spec fn tag_params(tags: Seq<String>) -> Seq<Param> {
    tags.map_values(|t: String| Param::Text(t))
}

/// The `WHERE` clause for the status filters `fs` and `n` tag titles: none
/// when both are empty, the one that is given, or both joined by `AND`.
pub open spec fn where_clause(fs: Seq<NoteStatus>, n: nat) -> Seq<char> {
    if fs.len() == 0 && n == 0 {
        Seq::empty()
    } else if n == 0 {
        " WHERE ("@ + status_disjunction(fs) + ")"@
    } else if fs.len() == 0 {
        " WHERE "@ + tag_clause(n)
    } else {
        " WHERE ("@ + status_disjunction(fs) + ") AND "@ + tag_clause(n)
    }
}

pub open spec fn order_clause(order: SortOrder) -> Seq<char> {
    match order {
        SortOrder::DateUpdated => " ORDER BY ZMODIFICATIONDATE DESC, Z_PK"@,
        SortOrder::Title => " ORDER BY ZTITLE, Z_PK"@,
    }
}

pub open spec fn limit_clause(limit: Limit) -> Seq<char> {
    match limit {
        Limit::INFINITE => Seq::empty(),
        Limit::FINITE(_) => " LIMIT ?"@,
    }
}

pub open spec fn limit_params(limit: Limit) -> Seq<Param> {
    match limit {
        Limit::INFINITE => Seq::empty(),
        Limit::FINITE(n) => seq![Param::Integer(limit_count(n))],
    }
}

/// The text of the note listing query: it depends on the tag filter only
/// through the number of titles, which are all bound as values.
pub open spec fn note_query_sql(fs: Seq<NoteStatus>, n_tags: nat, order: SortOrder, limit: Limit) -> Seq<char> {
    BASE_NOTE_QUERY@ + where_clause(fs, n_tags) + order_clause(order) + limit_clause(limit)
}

/// The values bound to the note listing query, in placeholder order.
pub open spec fn note_query_params(fs: Seq<NoteStatus>, tags: Seq<String>, limit: Limit) -> Seq<Param> {
    status_params(fs) + tag_params(tags) + limit_params(limit)
}

fn append_status_clause(sql: &mut String, params: &mut Vec<Param>, s: NoteStatus)
    ensures
        final(sql)@ == old(sql)@ + status_clause(s),
        final(params)@ == old(params)@ + status_clause_params(s),
{
    match s {
        NoteStatus::ARCHIVED => {
            sql.append("ZARCHIVED = ?");
            params.push(Param::Integer(1));
        },
        NoteStatus::TRASHED => {
            sql.append("ZTRASHED = ?");
            params.push(Param::Integer(1));
        },
        NoteStatus::NORMAL => {
            sql.append("(ZARCHIVED = ? AND ZTRASHED = ?)");
            params.push(Param::Integer(0));
            params.push(Param::Integer(0));
        },
    }
    assert(final(params)@ =~= old(params)@ + status_clause_params(s));
}

fn append_status_disjunction(sql: &mut String, params: &mut Vec<Param>, filters: &[NoteStatus])
    requires
        filters@.len() > 0,
    ensures
        final(sql)@ == old(sql)@ + status_disjunction(filters@),
        final(params)@ == old(params)@ + status_params(filters@),
{
    let ghost sql0 = sql@;
    let ghost params0 = params@;
    append_status_clause(sql, params, filters[0]);
    proof {
        let first = filters@.take(1);
        assert(first.drop_last() =~= Seq::<NoteStatus>::empty());
        assert(status_params(first.drop_last()) =~= Seq::<Param>::empty());
        assert(status_params(first) =~= status_clause_params(filters@[0]));
    }
    let mut i: usize = 1;
    while i < filters.len()
        invariant
            1 <= i <= filters@.len(),
            sql@ == sql0 + status_disjunction(filters@.take(i as int)),
            params@ == params0 + status_params(filters@.take(i as int)),
        decreases filters@.len() - i,
    {
        let ghost before_sql = sql@;
        let ghost before_params = params@;
        sql.append(" OR ");
        append_status_clause(sql, params, filters[i]);
        proof {
            let next = filters@.take(i + 1);
            assert(next.drop_last() =~= filters@.take(i as int));
            assert(next.last() == filters@[i as int]);
            assert(sql@ =~= sql0 + status_disjunction(next));
            assert(params@ =~= params0 + status_params(next));
        }
        i += 1;
    }
    assert(filters@.take(filters@.len() as int) =~= filters@);
}

fn append_tag_clause(sql: &mut String, params: &mut Vec<Param>, tags: &[String])
    requires
        tags@.len() > 0,
    ensures
        final(sql)@ == old(sql)@ + tag_clause(tags@.len()),
        final(params)@ == old(params)@ + tag_params(tags@),
{
    let ghost sql0 = sql@;
    let ghost params0 = params@;
    sql.append(TAG_FILTER_HEAD);
    sql.append("?");
    params.push(Param::Text(tags[0].clone()));
    proof {
        assert(tag_params(tags@.take(1)) =~= seq![Param::Text(tags@[0])]);
        assert(params@ =~= params0 + tag_params(tags@.take(1)));
    }
    let mut i: usize = 1;
    while i < tags.len()
        invariant
            1 <= i <= tags@.len(),
            sql@ == sql0 + TAG_FILTER_HEAD@ + placeholders(i as nat),
            params@ == params0 + tag_params(tags@.take(i as int)),
        decreases tags@.len() - i,
    {
        sql.append(", ?");
        params.push(Param::Text(tags[i].clone()));
        proof {
            assert(tag_params(tags@.take(i + 1)) =~= tag_params(tags@.take(i as int)).push(
                Param::Text(tags@[i as int]),
            ));
            assert(params@ =~= params0 + tag_params(tags@.take(i + 1)));
            assert(sql@ =~= sql0 + TAG_FILTER_HEAD@ + placeholders((i + 1) as nat));
        }
        i += 1;
    }
    sql.append(")))");
    assert(tags@.take(tags@.len() as int) =~= tags@);
    assert(sql@ =~= sql0 + tag_clause(tags@.len()));
}

/// Composes the note listing query: the base projection, the status and tag
/// filters, the sort order and the limit, every value bound as a parameter.
pub fn note_query(filters: &[NoteStatus], tags: &[String], order: &SortOrder, limit: &Limit) -> (q: Query)
    ensures
        q.sql@ == note_query_sql(filters@, tags@.len(), *order, *limit),
        q.params@ == note_query_params(filters@, tags@, *limit),
{
    let mut sql = String::from_str(BASE_NOTE_QUERY);
    let mut params: Vec<Param> = Vec::new();
    let ghost fs = filters@;
    let ghost n = tags@.len();
    if filters.len() > 0 {
        sql.append(" WHERE (");
        append_status_disjunction(&mut sql, &mut params, filters);
        if tags.len() > 0 {
            sql.append(") AND ");
            append_tag_clause(&mut sql, &mut params, tags);
        } else {
            sql.append(")");
            assert(tag_params(tags@) =~= Seq::<Param>::empty());
        }
    } else if tags.len() > 0 {
        sql.append(" WHERE ");
        append_tag_clause(&mut sql, &mut params, tags);
    } else {
        assert(tag_params(tags@) =~= Seq::<Param>::empty());
    }
    assert(sql@ =~= BASE_NOTE_QUERY@ + where_clause(fs, n));
    assert(params@ =~= status_params(fs) + tag_params(tags@));
    match order {
        SortOrder::DateUpdated => sql.append(" ORDER BY ZMODIFICATIONDATE DESC, Z_PK"),
        SortOrder::Title => sql.append(" ORDER BY ZTITLE, Z_PK"),
    }
    match limit {
        Limit::INFINITE => {},
        Limit::FINITE(count) => {
            sql.append(" LIMIT ?");
            let bound: i64 = if *count < 0 {
                0
            } else {
                *count as i64
            };
            params.push(Param::Integer(bound));
        },
    }
    assert(params@ =~= note_query_params(fs, tags@, *limit));
    Query { sql, params }
}

/// The tag listing query, which binds no value.
pub fn tag_query() -> (q: Query)
    ensures
        q.sql@ == TAG_QUERY@,
        q.params@.len() == 0,
{
    Query { sql: String::from_str(TAG_QUERY), params: Vec::new() }
}

/// The query that reads the note with id `id`.
pub fn note_by_id_query(id: i64) -> (q: Query)
    ensures
        q.sql@ == BASE_NOTE_QUERY@ + " WHERE Z_PK = ?"@,
        q.params@ == seq![Param::Integer(id)],
{
    let mut sql = String::from_str(BASE_NOTE_QUERY);
    sql.append(" WHERE Z_PK = ?");
    let mut params: Vec<Param> = Vec::new();
    params.push(Param::Integer(id));
    assert(params@ =~= seq![Param::Integer(id)]);
    Query { sql, params }
}

/// With no status filter and no tag filter the listing query carries no
/// condition: it is the base projection, ordered and limited, and binds
/// nothing but the limit.
pub proof fn unfiltered_query_has_no_condition(order: SortOrder, limit: Limit)
    ensures
        note_query_sql(Seq::empty(), 0, order, limit) == BASE_NOTE_QUERY@ + order_clause(order)
            + limit_clause(limit),
        note_query_params(Seq::empty(), Seq::empty(), limit) == limit_params(limit),
{
    assert(BASE_NOTE_QUERY@ + Seq::<char>::empty() =~= BASE_NOTE_QUERY@);
    assert(tag_params(Seq::empty()) =~= Seq::<Param>::empty());
    assert(Seq::<Param>::empty() + Seq::<Param>::empty() + limit_params(limit) =~= limit_params(limit));
}

/// The query text depends on the tag titles only through their number:
/// titles never enter the text, they are bound as values, each once and in
/// order, after the status flags.
pub proof fn tag_titles_are_bound_not_written(
    fs: Seq<NoteStatus>,
    tags1: Seq<String>,
    tags2: Seq<String>,
    order: SortOrder,
    limit: Limit,
)
    requires
        tags1.len() == tags2.len(),
    ensures
        note_query_sql(fs, tags1.len(), order, limit) == note_query_sql(fs, tags2.len(), order, limit),
        forall|i: int|
            0 <= i < tags1.len() ==> #[trigger] note_query_params(fs, tags1, limit)[status_params(fs).len() + i]
                == Param::Text(tags1[i]),
{
}

} // verus!
