use vstd::prelude::*;

verus! {

/// Where the application keeps its data, relative to the home directory:
/// the sandboxed location first, then the group container.
pub const APP_PATH_SANDBOXED: &'static str = "Library/Containers/net.shinyfrog.bear/Data/Documents";

pub const APP_PATH_GROUP: &'static str = "Library/Group Containers/9K33E3U3T4.net.shinyfrog.bear";

/// The database file, relative to an application data directory.
pub const DB_PATH: &'static str = "Application Data/database.sqlite";

/// The database file under the application directory `app` of `home`.
pub open spec fn db_path_in(home: Seq<char>, app: Seq<char>) -> Seq<char> {
    home + "/"@ + app + "/"@ + DB_PATH@
}

fn join_db_path(home: &str, app: &str) -> (r: String)
    ensures
        r@ == db_path_in(home@, app@),
{
    let mut path = String::from_str(home);
    path.append("/");
    path.append(app);
    path.append("/");
    path.append(DB_PATH);
    path
}

/// The places where the database may be found under `home`, in the order in
/// which they are tried.
pub fn db_candidates(home: &str) -> (r: Vec<String>)
    ensures
        r@.len() == 2,
        r@[0]@ == db_path_in(home@, APP_PATH_SANDBOXED@),
        r@[1]@ == db_path_in(home@, APP_PATH_GROUP@),
{
    let mut paths: Vec<String> = Vec::new();
    paths.push(join_db_path(home, APP_PATH_SANDBOXED));
    paths.push(join_db_path(home, APP_PATH_GROUP));
    paths
}

/// The first candidate whose flag in `exists` is set, if any.
pub open spec fn first_existing_of(candidates: Seq<String>, exists: Seq<bool>) -> Option<String>
    decreases candidates.len(),
{
    if candidates.len() == 0 || exists.len() == 0 {
        None
    } else if exists[0] {
        Some(candidates[0])
    } else {
        first_existing_of(candidates.drop_first(), exists.drop_first())
    }
}

/// Picks the first candidate path that exists, given whether each does.
pub fn first_existing(candidates: &Vec<String>, exists: &Vec<bool>) -> (r: Option<String>)
    ensures
        r == first_existing_of(candidates@, exists@),
{
    let mut i: usize = 0;
    assert(candidates@.skip(0) =~= candidates@);
    assert(exists@.skip(0) =~= exists@);
    while i < candidates.len() && i < exists.len()
        invariant
            i <= candidates@.len(),
            i <= exists@.len(),
            first_existing_of(candidates@, exists@) == first_existing_of(
                candidates@.skip(i as int),
                exists@.skip(i as int),
            ),
        decreases candidates@.len() - i,
    {
        if exists[i] {
            return Some(candidates[i].clone());
        }
        assert(candidates@.skip(i as int).drop_first() =~= candidates@.skip(i + 1));
        assert(exists@.skip(i as int).drop_first() =~= exists@.skip(i + 1));
        i += 1;
    }
    None
}

} // verus!
