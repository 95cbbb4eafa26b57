//! Laws of passwords and of secrets.

use vstd::prelude::*;

use crate::accounts::{
    delete_secret, get_secret, hash_password, verify_password, Lookup, Removal, SECRET_SERVICE,
};

verus! {

/// A password is accepted against every hash of it, and no hash is the password itself, but for one
/// that is as long as a hash is. The error of hashing says that the system gave no salt.
pub proof fn law_password(
    password: &str,
    hashed: Result<String, String>,
    hash: &str,
    verdict: Result<bool, String>,
)
    requires
        call_ensures(hash_password, (password,), hashed),
        hashed matches Ok(h) ==> hash@ == h@,
        call_ensures(verify_password, (password, hash), verdict),
    ensures
        hashed is Ok ==> verdict == Ok::<bool, String>(true),
        hashed matches Ok(h) ==> h@.len() == 60 && (password@.len() != 60 ==> h@ != password@),
        hashed matches Err(e) ==> "Rand error: "@.is_prefix_of(e@),
{
}

/// Two checks of one password against one hash agree.
pub proof fn law_verdicts_agree(
    password: &str,
    hash: &str,
    a: Result<bool, String>,
    b: Result<bool, String>,
)
    requires
        call_ensures(verify_password, (password, hash), a),
        call_ensures(verify_password, (password, hash), b),
    ensures
        match a {
            Ok(v) => b == Ok::<bool, String>(v),
            Err(e) => b matches Err(f) && f@ == e@,
        },
{
}

/// Secrets are kept for WIM. One that is stored is handed out whole; a missing one is empty text
/// when it is looked up, and no failure when it is deleted. A failure of the store is told as it
/// is.
pub proof fn law_secrets(
    lookup: Lookup,
    removal: Removal,
    found: Result<String, String>,
    removed: Result<(), String>,
)
    requires
        call_ensures(get_secret, (lookup,), found),
        call_ensures(delete_secret, (removal,), removed),
    ensures
        SECRET_SERVICE@ == "WIM"@,
        lookup matches Lookup::Found(s) ==> (found matches Ok(t) && t@ == s@),
        lookup is Missing ==> (found matches Ok(t) && t@.len() == 0),
        lookup matches Lookup::Failed(e) ==> (found matches Err(f) && f@ == e@),
        removal is Removed || removal is Missing ==> removed is Ok,
        removal matches Removal::Failed(e) ==> (removed matches Err(f) && f@ == e@),
{
}

} // verus!
