//! The node's side of a registration: the request that it sends and what
//! it makes of the answer.
use vstd::prelude::*;
use crate::failure::{
    status_of, Failure, STATUS_CONFLICT, STATUS_MALFORMED, STATUS_OK, STATUS_TLS_ERROR,
    STATUS_UNAUTHORIZED,
};
use crate::submission::{
    field_place, field_value, fields_view, has_field, no_stranger_no_double, stands_at,
    well_formed, Fields, ADDRESS, CREDENTIAL, HARDWARE, OS, TOKEN,
};

verus! {

/// What the node tells its operator of a registration.
#[derive(Clone, Copy, Debug, PartialEq, Eq, Structural)]
pub enum Outcome {
    /// The node is registered.
    Registered,
    /// The registrar could not read the request.
    Malformed,
    /// The token was refused.
    Unauthorized,
    /// The host is registered already.
    Conflict,
    /// The remote's certificate was rejected.
    TlsRejected,
    /// Anything else.
    Other,
}

/// The outcome that a status stands for.
pub open spec fn outcome_of(status: u16) -> Outcome {
    if status == STATUS_OK {
        Outcome::Registered
    } else if status == STATUS_MALFORMED {
        Outcome::Malformed
    } else if status == STATUS_UNAUTHORIZED {
        Outcome::Unauthorized
    } else if status == STATUS_CONFLICT {
        Outcome::Conflict
    } else if status == STATUS_TLS_ERROR {
        Outcome::TlsRejected
    } else {
        Outcome::Other
    }
}

/// The outcome that the node reports for what the registrar did.
pub open spec fn outcome_for(done: Result<(), Failure>) -> Outcome {
    match done {
        Ok(_) => Outcome::Registered,
        Err(Failure::Malformed) => Outcome::Malformed,
        Err(Failure::Unauthorized) => Outcome::Unauthorized,
        Err(Failure::Conflict) => Outcome::Conflict,
        Err(Failure::TlsError) => Outcome::TlsRejected,
        Err(Failure::Internal) => Outcome::Other,
    }
}

/// The request that a node sends, as named texts.
pub open spec fn request_fields(
    address: Seq<char>,
    token: Seq<char>,
    credential: Seq<char>,
    hardware: Seq<char>,
    os: Seq<char>,
) -> Fields {
    seq![
        ("ip"@, address),
        ("otp"@, token),
        ("hostkey"@, credential),
        ("hardware_configuration"@, hardware),
        ("configuration"@, os),
    ]
}

impl Outcome {
    /// The status with which the node's process ends: zero for success
    /// only.
    pub open spec fn exit_status(self) -> u8 {
        if self == Outcome::Registered {
            0
        } else {
            1
        }
    }

    /// Computes [`Outcome::exit_status`].
    pub fn exit_code(self) -> (code: u8)
        ensures
            code == self.exit_status(),
    {
        match self {
            Outcome::Registered => 0,
            _ => 1,
        }
    }

    /// The message for the operator. It is one of six fixed texts: no
    /// part of the request, neither token nor credential, is in it.
    pub fn message(self) -> (text: &'static str)
        ensures
            text@ == match self {
                Outcome::Registered => "Registration completed."@,
                Outcome::Malformed => "Request not formatted correctly"@,
                Outcome::Unauthorized => "otp not authorised: out of uses or expired"@,
                Outcome::Conflict => "pubkey already used on server: human intervention needed"@,
                Outcome::TlsRejected => "Destination ssl certificate rejected"@,
                Outcome::Other => "Other error encountered"@,
            },
    {
        match self {
            Outcome::Registered => "Registration completed.",
            Outcome::Malformed => "Request not formatted correctly",
            Outcome::Unauthorized => "otp not authorised: out of uses or expired",
            Outcome::Conflict => "pubkey already used on server: human intervention needed",
            Outcome::TlsRejected => "Destination ssl certificate rejected",
            Outcome::Other => "Other error encountered",
        }
    }
}

/// Computes [`outcome_of`].
pub fn read_status(status: u16) -> (outcome: Outcome)
    ensures
        outcome == outcome_of(status),
{
    if status == STATUS_OK {
        Outcome::Registered
    } else if status == STATUS_MALFORMED {
        Outcome::Malformed
    } else if status == STATUS_UNAUTHORIZED {
        Outcome::Unauthorized
    } else if status == STATUS_CONFLICT {
        Outcome::Conflict
    } else if status == STATUS_TLS_ERROR {
        Outcome::TlsRejected
    } else {
        Outcome::Other
    }
}

/// A named text.
fn named(name: &str, text: &str) -> (field: (String, String))
    ensures
        field.0@ == name@,
        field.1@ == text@,
{
    (name.to_owned(), text.to_owned())
}

/// Builds the request that a node sends.
pub fn build_request(address: &str, token: &str, credential: &str, hardware: &str, os: &str) -> (fields:
    Vec<(String, String)>)
    ensures
        fields_view(fields@) == request_fields(address@, token@, credential@, hardware@, os@),
{
    let mut fields: Vec<(String, String)> = Vec::new();
    fields.push(named("ip", address));
    fields.push(named("otp", token));
    fields.push(named("hostkey", credential));
    fields.push(named("hardware_configuration", hardware));
    fields.push(named("configuration", os));
    assert(fields_view(fields@) =~= request_fields(address@, token@, credential@, hardware@, os@));
    fields
}

/// The node reads from the status what the registrar did: success as
/// success, and each kind of failure as the outcome of its name.
pub proof fn lemma_status_carries_outcome(done: Result<(), Failure>)
    ensures
        outcome_of(status_of(done)) == outcome_for(done),
        outcome_of(status_of(done)).exit_status() == 0 <==> done is Ok,
{
}

/// The request that a node builds is well formed, and the registrar
/// reads from it the very texts that the node put in.
pub proof fn lemma_request_is_well_formed(
    address: Seq<char>,
    token: Seq<char>,
    credential: Seq<char>,
    hardware: Seq<char>,
    os: Seq<char>,
)
    ensures
        well_formed(request_fields(address, token, credential, hardware, os)),
        field_value(request_fields(address, token, credential, hardware, os), ADDRESS) == address,
        field_value(request_fields(address, token, credential, hardware, os), TOKEN) == token,
        field_value(request_fields(address, token, credential, hardware, os), CREDENTIAL) == credential,
        field_value(request_fields(address, token, credential, hardware, os), HARDWARE) == hardware,
        field_value(request_fields(address, token, credential, hardware, os), OS) == os,
{
    let fields = request_fields(address, token, credential, hardware, os);
    reveal_strlit("ip");
    reveal_strlit("reporterAddress");
    reveal_strlit("otp");
    reveal_strlit("hostkey");
    reveal_strlit("hardware_configuration");
    reveal_strlit("configuration");
    assert("ip"@.len() == 2 && "otp"@.len() == 3 && "hostkey"@.len() == 7 && "configuration"@.len() == 13
        && "hardware_configuration"@.len() == 22 && "reporterAddress"@.len() == 15);
    assert(field_place(fields[0].0) == Some(ADDRESS));
    assert(field_place(fields[1].0) == Some(TOKEN));
    assert(field_place(fields[2].0) == Some(CREDENTIAL));
    assert(field_place(fields[3].0) == Some(HARDWARE));
    assert(field_place(fields[4].0) == Some(OS));
    assert(stands_at(fields, 0, ADDRESS));
    assert(stands_at(fields, 1, TOKEN));
    assert(stands_at(fields, 2, CREDENTIAL));
    assert(stands_at(fields, 3, HARDWARE));
    assert(stands_at(fields, 4, OS));
    assert(no_stranger_no_double(fields, 5));
    assert forall|place: usize, k: int| place < 5 && stands_at(fields, k, place) implies k == place by {}
    assert(has_field(fields, ADDRESS));
}

} // verus!
