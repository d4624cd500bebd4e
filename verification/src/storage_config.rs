//! Where the bot keeps its durable data: the directories an embedding
//! application resolves from its environment, and the database location
//! derived from them.

use vstd::prelude::*;
use vstd::string::*;

verus! {

/// The database file's name inside the data directory.
pub open spec fn database_file_name() -> Seq<char> {
    "db.sqlite"@
}

/// The path of the database file under a data directory: the directory and
/// the file name, with a separator added unless the directory already ends
/// in one (or is empty), as a path join behaves.
pub open spec fn joined_database_path(dir: Seq<char>) -> Seq<char> {
    if dir.len() == 0 || dir[dir.len() - 1] == '/' {
        dir + database_file_name()
    } else {
        dir + "/"@ + database_file_name()
    }
}

/// The connection URL of the database file.
pub open spec fn database_url_of(dir: Seq<char>) -> Seq<char> {
    "sqlite://"@ + joined_database_path(dir)
}

/// The storage locations the bot writes to: one directory for logs, one for
/// durable data. An embedding application resolves and validates them (they
/// must exist and be writable) before constructing this.
#[derive(Debug)]
pub struct BotStorageConfig {
    pub log_directory: String,
    pub data_directory: String,
}

impl BotStorageConfig {
    /// A configuration over already-validated directories.
    pub fn from_directories(log_directory: String, data_directory: String) -> (c: Self)
        ensures
            c.log_directory@ == log_directory@,
            c.data_directory@ == data_directory@,
    {
        BotStorageConfig { log_directory, data_directory }
    }

    /// The path of the database file under the data directory.
    pub fn database_path(&self) -> (r: String)
        ensures
            r@ == joined_database_path(self.data_directory@),
    {
        let dir = self.data_directory.as_str();
        let n = dir.unicode_len();
        let ends_in_separator = if n == 0 {
            true
        } else {
            dir.get_char(n - 1) == '/'
        };
        if ends_in_separator {
            self.data_directory.clone().concat("db.sqlite")
        } else {
            self.data_directory.clone().concat("/").concat("db.sqlite")
        }
    }

    /// The connection URL of the database file.
    pub fn database_url(&self) -> (r: String)
        ensures
            r@ == database_url_of(self.data_directory@),
    {
        String::from_str("sqlite://").concat(self.database_path().as_str())
    }
}

} // verus!
