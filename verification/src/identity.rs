//! The identity of a host.
//!
//! A host is known by its credential, not by its address: addresses are
//! reported by the host itself and change. The identity is the id under
//! which git stores the credential's text as a blob: forty lowercase
//! hexadecimal digits. The same credential always gives the same
//! identity, and the identity is safe in a path and in a document.
use vstd::prelude::*;
use crate::failure::Failure;

verus! {

/// The number of characters of an identity.
pub const IDENTITY_LEN: usize = 40;

/// A lowercase hexadecimal digit.
pub open spec fn is_hex_digit(c: char) -> bool {
    ('0' <= c && c <= '9') || ('a' <= c && c <= 'f')
}

/// The first `n` characters of a text are lowercase hexadecimal digits.
pub open spec fn hex_prefix(text: Seq<char>, n: int) -> bool {
    forall|i: int| 0 <= i < n ==> is_hex_digit(#[trigger] text[i])
}

/// A text that can be an identity: forty lowercase hexadecimal digits.
pub open spec fn is_identity(text: Seq<char>) -> bool {
    text.len() == IDENTITY_LEN && hex_prefix(text, text.len() as int)
}

/// What git makes of a text: the id of the blob that holds it, in
/// hexadecimal, or nothing if git cannot hash.
pub uninterp spec fn git_blob_id(text: Seq<char>) -> Option<Seq<char>>;

/// The identity that a blob id stands for, or `Internal` if git gave none
/// or one that is not forty lowercase hexadecimal digits.
pub open spec fn identity_of(digest: Option<Seq<char>>) -> Result<Seq<char>, Failure> {
    match digest {
        Some(text) => if is_identity(text) {
            Ok(text)
        } else {
            Err(Failure::Internal)
        },
        None => Err(Failure::Internal),
    }
}

/// Hashes a text as a git blob with `git2::Oid::hash_object` and spells
/// the id in hexadecimal with `Oid`'s `to_string`; `None` if git reports
/// an error. Nothing is stored anywhere.
///
/// The id is a function of the text alone, so it has a name. Nothing
/// more is claimed of it: the shape of the id is tested by the caller.
#[verifier::external_body]
fn blob_id(text: &str) -> (id: Option<String>)
    ensures
        id is Some == git_blob_id(text@) is Some,
        id matches Some(hex) ==> git_blob_id(text@) == Some(hex@),
{
    git2::Oid::hash_object(git2::ObjectType::Blob, text.as_bytes()).ok().map(|oid| oid.to_string())
}

/// Whether a text can be an identity.
pub fn check_identity(text: &str) -> (ok: bool)
    ensures
        ok == is_identity(text@),
{
    let mut count: usize = 0;
    for c in it: text.chars()
        invariant
            it.seq() == text@,
            count == it.index(),
            count <= IDENTITY_LEN,
            hex_prefix(text@, it.index() as int),
    {
        if count == IDENTITY_LEN {
            return false;
        }
        if !((c >= '0' && c <= '9') || (c >= 'a' && c <= 'f')) {
            assert(!is_hex_digit(text@[it.index() as int]));
            return false;
        }
        count += 1;
    }
    count == IDENTITY_LEN
}

/// The identity of a host.
#[derive(Debug)]
pub struct HostIdentity {
    text: String,
}

impl View for HostIdentity {
    type V = Seq<char>;

    closed spec fn view(&self) -> Seq<char> {
        self.text@
    }
}

impl HostIdentity {
    #[verifier::type_invariant]
    spec fn inv(self) -> bool {
        is_identity(self.text@)
    }

    /// Makes an identity of what git answered for a credential.
    pub fn from_digest(digest: Option<String>) -> (made: Result<HostIdentity, Failure>)
        ensures
            match made {
                Ok(identity) => identity_of(
                    match digest {
                        Some(text) => Some(text@),
                        None => None,
                    },
                ) == Ok::<Seq<char>, Failure>(identity@),
                Err(failure) => identity_of(
                    match digest {
                        Some(text) => Some(text@),
                        None => None,
                    },
                ) == Err::<Seq<char>, Failure>(failure),
            },
    {
        match digest {
            Some(text) => {
                if check_identity(text.as_str()) {
                    Ok(HostIdentity { text })
                } else {
                    Err(Failure::Internal)
                }
            },
            None => Err(Failure::Internal),
        }
    }

    /// Derives the identity of a host from its credential.
    ///
    /// What git makes of the credential is [`git_blob_id`]; the result
    /// is what [`HostIdentity::from_digest`] makes of that.
    pub fn derive(credential: &str) -> (made: Result<HostIdentity, Failure>)
        ensures
            match made {
                Ok(identity) => identity_of(git_blob_id(credential@)) == Ok::<Seq<char>, Failure>(
                    identity@,
                ),
                Err(failure) => identity_of(git_blob_id(credential@)) == Err::<Seq<char>, Failure>(
                    failure,
                ),
            },
    {
        HostIdentity::from_digest(blob_id(credential))
    }

    /// The identity as text.
    pub fn as_str(&self) -> (text: &str)
        ensures
            text@ == self@,
            is_identity(text@),
    {
        proof {
            use_type_invariant(self);
        }
        self.text.as_str()
    }
}

} // verus!
