//! The records the application persists, and how its database is reached.

use vstd::prelude::*;
use vstd::string::*;
use crate::config::Config;
use crate::error::CrawlError;
use crate::paths::child_path;

pub mod crawl_queue;
pub mod indexed_document;
pub mod lens;

verus! {

/// How to connect to the database.
#[derive(Debug)]
pub struct ConnectOptions {
    /// Where the database is.
    pub uri: String,
    /// How many connections may be open at once.
    pub max_connections: u32,
    /// Whether every statement is logged.
    pub sqlx_logging: bool,
}

/// Where the database in the folder `data_dir` is, or where the one used in
/// tests is: that one is kept in memory.
pub open spec fn db_uri(is_test: bool, data_dir: Seq<char>) -> Seq<char> {
    if is_test {
        "sqlite::memory:"@
    } else {
        "sqlite://"@ + child_path(data_dir, "db.sqlite"@) + "?mode=rwc"@
    }
}

/// How to connect to the database in the folder `data_dir`, or to the one
/// used in tests.
pub fn connect_options(is_test: bool, data_dir: &str) -> (res: ConnectOptions)
    ensures
        res.uri@ == db_uri(is_test, data_dir@),
        res.max_connections == 5,
        !res.sqlx_logging,
{
    let uri = if is_test {
        "sqlite::memory:".to_string()
    } else {
        let mut uri = "sqlite://".to_string();
        uri.append(crate::paths::join(data_dir, "db.sqlite").as_str());
        uri.append("?mode=rwc");
        uri
    };
    ConnectOptions { uri, max_connections: 5, sqlx_logging: false }
}

/// How to connect to the application's database, or to the one used in
/// tests. The application's database lies in its data folder; where the
/// operating system knows no such folder, the database cannot be reached.
pub fn create_connection(is_test: bool) -> (res: Result<ConnectOptions, CrawlError>)
    ensures
        is_test ==> res is Ok,
        res matches Ok(options) ==> {
            &&& options.max_connections == 5
            &&& !options.sqlx_logging
            &&& exists|data_dir: Seq<char>| options.uri@ == #[trigger] db_uri(is_test, data_dir)
        },
        res matches Err(e) ==> e == CrawlError::StoreUnavailable,
{
    if is_test {
        let options = connect_options(true, "");
        assert(options.uri@ == db_uri(true, ""@));
        Ok(options)
    } else {
        match Config::data_dir() {
            Some(dir) => {
                let options = connect_options(false, dir.as_str());
                assert(options.uri@ == db_uri(false, dir@));
                Ok(options)
            },
            None => Err(CrawlError::StoreUnavailable),
        }
    }
}

} // verus!
