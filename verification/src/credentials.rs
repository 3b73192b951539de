//! How a client authenticates to a database server.

use vstd::prelude::*;

verus! {

/// The kind of authentication, with what it needs.
pub enum Credentials<'a> {
    /// Authentication by the server's own accounts.
    SqlServer { user: &'a str, password: &'a str },
}

} // verus!
