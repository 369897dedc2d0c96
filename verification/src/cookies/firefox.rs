//! Firefox: profile directories and the `cookies.sqlite` database.

use vstd::prelude::*;

use super::jar::pairs_to_map;
use super::platform::{join_path, joined};
use super::{firefox_rows_view, newest_path, CookieError, CookieJar};

verus! {

/// The directory to look for profiles in: the one given, else the
/// platform's default; an error when neither is known.
pub fn profiles_dir(data_dir: Option<&str>, default_dir: Option<String>) -> (r: Result<
    String,
    CookieError,
>)
    ensures
        match data_dir {
            Some(d) => r matches Ok(p) && p@ == d@,
            None => match default_dir {
                Some(d) => r matches Ok(p) && p == d,
                None => r matches Err(CookieError::NoBrowserDir),
            },
        },
{
    match data_dir {
        Some(d) => Ok(d.to_owned()),
        None => match default_dir {
            Some(d) => Ok(d),
            None => Err(CookieError::NoBrowserDir),
        },
    }
}

/// Where a profile (or the profiles directory itself) keeps its cookies.
pub fn cookie_db_path(dir: &str, windows: bool) -> (r: String)
    ensures
        r@ == joined(dir@, "cookies.sqlite"@, windows),
{
    join_path(dir, "cookies.sqlite", windows)
}

/// Picks the database to read among the `cookies.sqlite` files found (each
/// with its modification time): the most recent. Errors when the profiles
/// directory does not exist or no database was found.
pub fn choose_db(dir_exists: bool, dbs: &Vec<(String, i128)>) -> (r: Result<String, CookieError>)
    ensures
        !dir_exists ==> r matches Err(CookieError::NoBrowserDir),
        dir_exists && dbs@.len() == 0 ==> r matches Err(CookieError::NoCookieDb),
        dir_exists && dbs@.len() > 0 ==> (r matches Ok(p) && exists|i: int|
            super::is_newest(dbs@, i) && p == dbs@[i].0),
{
    if !dir_exists {
        return Err(CookieError::NoBrowserDir);
    }
    match newest_path(dbs) {
        Some(p) => Ok(p),
        None => Err(CookieError::NoCookieDb),
    }
}

/// Builds the jar from the rows of `moz_cookies`: every row is kept, a
/// later one replacing an earlier one of the same name.
pub fn read(rows: &Vec<(String, String)>) -> (jar: CookieJar)
    ensures
        jar@ == pairs_to_map(firefox_rows_view(rows@)),
{
    let mut jar = CookieJar::new();
    let mut i: usize = 0;
    while i < rows.len()
        invariant
            0 <= i <= rows.len(),
            jar@ == pairs_to_map(firefox_rows_view(rows@.take(i as int))),
        decreases rows.len() - i,
    {
        assert(firefox_rows_view(rows@.take(i + 1)).drop_last() =~= firefox_rows_view(
            rows@.take(i as int),
        ));
        jar.insert(rows[i].0.clone(), rows[i].1.clone());
        i = i + 1;
    }
    assert(rows@.take(rows@.len() as int) =~= rows@);
    jar
}

} // verus!
