//! Stored records that the service's decisions read and write.

use vstd::prelude::*;

verus! {

/// Password credentials of one user: the PHC string of the password hash,
/// and whether it should be hashed again with the current pepper.
#[derive(Clone, Debug)]
pub struct PasswordAuth {
    pub user_id: i32,
    pub hash: String,
    pub queue_rehash: bool,
}

} // verus!
