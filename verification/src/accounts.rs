//! Passwords of the people who use the program, and secrets in the system's store.

use vstd::prelude::*;
use vstd::string::*;

use crate::outside::{bcrypt_hash, bcrypt_verdict, bcrypt_verify};

verus! {

/// A salted hash of a password, which `verify_password` accepts the password against. It is sixty
/// characters long, and so no password of another length. Which salt it has, and whether the system
/// gave one at all, rests on chance; the one error there is says that it gave none.
pub fn hash_password(password: &str) -> (r: Result<String, String>)
    ensures
        r matches Ok(hash) ==> {
            &&& bcrypt_verdict(password@, hash@) == Ok::<bool, Seq<char>>(true)
            &&& hash@.len() == 60
            &&& hash@.subrange(0, 7) == seq!['$', '2', 'b', '$', '1', '2', '$']
            &&& password@.len() != 60 ==> hash@ != password@
        },
        r matches Err(e) ==> "Rand error: "@.is_prefix_of(e@),
{
    bcrypt_hash(password)
}

/// Whether a password matches a hash, or why the hash cannot be read.
pub fn verify_password(password: &str, hash: &str) -> (r: Result<bool, String>)
    ensures
        bcrypt_verdict(password@, hash@) == (match r {
            Ok(verdict) => Ok::<bool, Seq<char>>(verdict),
            Err(e) => Err(e@),
        }),
{
    bcrypt_verify(password, hash)
}

/// The name under which the system's store keeps every secret; a key tells them apart.
pub const SECRET_SERVICE: &'static str = "WIM";

/// What became of looking a secret up.
pub enum Lookup {
    Found(String),
    Missing,
    Failed(String),
}

/// What became of deleting a secret.
pub enum Removal {
    Removed,
    Missing,
    Failed(String),
}

/// The secret, or empty text where none is stored yet, which is no failure. What is stored between
/// two lookups is the affair of the system's store.
pub fn get_secret(lookup: Lookup) -> (r: Result<String, String>)
    ensures
        match lookup {
            Lookup::Found(value) => r matches Ok(v) && v@ == value@,
            Lookup::Missing => r matches Ok(v) && v@ == Seq::<char>::empty(),
            Lookup::Failed(e) => r matches Err(m) && m@ == e@,
        },
{
    match lookup {
        Lookup::Found(value) => Ok(value),
        Lookup::Missing => {
            let none: String = String::new();
            assert(none@ =~= Seq::<char>::empty());
            Ok(none)
        },
        Lookup::Failed(e) => Err(e),
    }
}

/// Nothing, also where the secret was gone already, or why it could not be deleted.
pub fn delete_secret(removal: Removal) -> (r: Result<(), String>)
    ensures
        match removal {
            Removal::Removed => r is Ok,
            Removal::Missing => r is Ok,
            Removal::Failed(e) => r matches Err(m) && m@ == e@,
        },
{
    match removal {
        Removal::Removed => Ok(()),
        Removal::Missing => Ok(()),
        Removal::Failed(e) => Err(e),
    }
}

} // verus!
