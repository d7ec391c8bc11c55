//! Where the secrets are kept, below the user's home directory.

use vstd::prelude::*;
use vstd::string::StringExecFns;

verus! {

/// The name of the secret file, behind the home directory.
pub const SECRET_FILE: &'static str = "/.secrets";

/// The name of the database, behind the home directory.
pub const SECRET_DB: &'static str = "/.secrets.db";

/// The path of the secret file for a given home directory.
pub fn get_secret_file_path(home: &str) -> (path: String)
    ensures
        path@ == home@ + SECRET_FILE@,
{
    let mut path = String::from_str(home);
    path.append(SECRET_FILE);
    path
}

/// The path of the database for a given home directory.
pub fn get_secret_db_path(home: &str) -> (path: String)
    ensures
        path@ == home@ + SECRET_DB@,
{
    let mut path = String::from_str(home);
    path.append(SECRET_DB);
    path
}

} // verus!
