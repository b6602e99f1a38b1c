//! The schema of a registration request.
//!
//! A request is a list of named texts. It is well formed if each name is
//! one of the schema, no field is given twice, and none is missing. The
//! reporter's address may be sent as `ip` or as `reporterAddress`; the
//! two names stand for one field.
use vstd::prelude::*;
use crate::failure::Failure;

verus! {

/// The number of fields of a submission.
pub const FIELD_COUNT: usize = 5;

/// The place of the reporter's address among the fields.
pub const ADDRESS: usize = 0;

/// The place of the token.
pub const TOKEN: usize = 1;

/// The place of the host's credential.
pub const CREDENTIAL: usize = 2;

/// The place of the hardware configuration.
pub const HARDWARE: usize = 3;

/// The place of the system configuration.
pub const OS: usize = 4;

/// A registration request that has every field of the schema.
#[derive(Debug)]
pub struct Submission {
    /// The address that the node reports for itself.
    pub reporter_address: String,
    /// The token that authorises the registration.
    pub token: String,
    /// The host's public key material.
    pub host_credential: String,
    /// The text of the hardware configuration.
    pub hardware_config_text: String,
    /// The text of the system configuration.
    pub os_config_text: String,
}

/// The fields of a request as values of specifications.
pub type Fields = Seq<(Seq<char>, Seq<char>)>;

/// The views of a list of named texts.
pub open spec fn fields_view(fields: Seq<(String, String)>) -> Fields {
    fields.map_values(|field: (String, String)| (field.0@, field.1@))
}

/// The place of the field that a name stands for, if it is a name of the
/// schema.
pub open spec fn field_place(name: Seq<char>) -> Option<usize> {
    if name == "ip"@ || name == "reporterAddress"@ {
        Some(ADDRESS)
    } else if name == "otp"@ {
        Some(TOKEN)
    } else if name == "hostkey"@ {
        Some(CREDENTIAL)
    } else if name == "hardware_configuration"@ {
        Some(HARDWARE)
    } else if name == "configuration"@ {
        Some(OS)
    } else {
        None
    }
}

/// Among the first `n` fields, the one at index `k` stands at `place`.
pub open spec fn stands_at(fields: Fields, k: int, place: usize) -> bool {
    0 <= k < fields.len() && field_place(fields[k].0) == Some(place)
}

/// The first `n` fields bear names of the schema, no two of them for one
/// place.
pub open spec fn no_stranger_no_double(fields: Fields, n: int) -> bool {
    &&& forall|k: int| 0 <= k < n ==> (#[trigger] field_place(fields[k].0)) is Some
    &&& forall|j: int, k: int|
        0 <= j < k < n ==> #[trigger] field_place(fields[j].0) != #[trigger] field_place(fields[k].0)
}

/// A field of the request stands at `place`.
pub open spec fn has_field(fields: Fields, place: usize) -> bool {
    exists|k: int| stands_at(fields, k, place)
}

/// The request is well formed: names of the schema only, no field twice,
/// none missing.
pub open spec fn well_formed(fields: Fields) -> bool {
    &&& no_stranger_no_double(fields, fields.len() as int)
    &&& has_field(fields, ADDRESS)
    &&& has_field(fields, TOKEN)
    &&& has_field(fields, CREDENTIAL)
    &&& has_field(fields, HARDWARE)
    &&& has_field(fields, OS)
}

/// The text given for the field at `place`.
pub open spec fn field_value(fields: Fields, place: usize) -> Seq<char> {
    fields[choose|k: int| stands_at(fields, k, place)].1
}

/// A literal as an owned string.
fn owned(text: &str) -> (copy: String)
    ensures
        copy@ == text@,
{
    text.to_owned()
}

/// Computes [`field_place`].
pub fn place_of(name: &String) -> (place: Option<usize>)
    ensures
        place == field_place(name@),
        place matches Some(at) ==> at < FIELD_COUNT,
{
    if *name == owned("ip") || *name == owned("reporterAddress") {
        Some(ADDRESS)
    } else if *name == owned("otp") {
        Some(TOKEN)
    } else if *name == owned("hostkey") {
        Some(CREDENTIAL)
    } else if *name == owned("hardware_configuration") {
        Some(HARDWARE)
    } else if *name == owned("configuration") {
        Some(OS)
    } else {
        None
    }
}

/// Where each field of the first `n` stands, or nothing for a place
/// where none stands.
spec fn filled(slots: Seq<Option<usize>>, fields: Fields, n: int) -> bool {
    &&& slots.len() == FIELD_COUNT
    &&& forall|place: usize|
        place < FIELD_COUNT ==> match #[trigger] slots[place as int] {
            Some(k) => k < n && stands_at(fields, k as int, place),
            None => forall|k: int| 0 <= k < n ==> !stands_at(fields, k, place),
        }
}

impl Submission {
    /// Reads a request against the schema: `Malformed` unless it is well
    /// formed.
    pub fn from_fields(fields: &Vec<(String, String)>) -> (read: Result<Submission, Failure>)
        ensures
            read is Ok == well_formed(fields_view(fields@)),
            read matches Err(failure) ==> failure == Failure::Malformed,
            read matches Ok(submission) ==> {
                &&& submission.reporter_address@ == field_value(fields_view(fields@), ADDRESS)
                &&& submission.token@ == field_value(fields_view(fields@), TOKEN)
                &&& submission.host_credential@ == field_value(fields_view(fields@), CREDENTIAL)
                &&& submission.hardware_config_text@ == field_value(fields_view(fields@), HARDWARE)
                &&& submission.os_config_text@ == field_value(fields_view(fields@), OS)
            },
    {
        let ghost view = fields_view(fields@);
        let mut slots: Vec<Option<usize>> = Vec::new();
        slots.push(None);
        slots.push(None);
        slots.push(None);
        slots.push(None);
        slots.push(None);
        let mut i: usize = 0;
        while i < fields.len()
            invariant
                i <= fields@.len(),
                view == fields_view(fields@),
                no_stranger_no_double(view, i as int),
                filled(slots@, view, i as int),
            decreases fields@.len() - i,
        {
            let place = match place_of(&fields[i].0) {
                Some(place) => place,
                None => {
                    assert(field_place(view[i as int].0) is None);
                    return Err(Failure::Malformed);
                },
            };
            if slots[place].is_some() {
                let ghost j = slots@[place as int]->0 as int;
                assert(stands_at(view, j, place));
                assert(field_place(view[j].0) == field_place(view[i as int].0));
                return Err(Failure::Malformed);
            }
            let ghost before = slots@;
            slots.set(place, Some(i));
            proof {
                assert(stands_at(view, i as int, place));
                assert forall|other: usize| other < FIELD_COUNT implies match #[trigger] slots@[other as int] {
                    Some(k) => k < i + 1 && stands_at(view, k as int, other),
                    None => forall|k: int| 0 <= k < i + 1 ==> !stands_at(view, k, other),
                } by {
                    if other != place {
                        assert(slots@[other as int] == before[other as int]);
                    }
                }
                assert forall|j: int, k: int| 0 <= j < k < i + 1 implies #[trigger] field_place(view[j].0)
                    != #[trigger] field_place(view[k].0) by {
                    if k == i {
                        assert(!stands_at(view, j, place));
                    }
                }
            }
            i += 1;
        }
        let address = Submission::taken(fields, &slots, ADDRESS);
        let token = Submission::taken(fields, &slots, TOKEN);
        let credential = Submission::taken(fields, &slots, CREDENTIAL);
        let hardware = Submission::taken(fields, &slots, HARDWARE);
        let os = Submission::taken(fields, &slots, OS);
        match (address, token, credential, hardware, os) {
            (Some(address), Some(token), Some(credential), Some(hardware), Some(os)) => {
                assert(well_formed(view)) by {
                    assert forall|place: usize| place < FIELD_COUNT implies #[trigger] has_field(
                        view,
                        place,
                    ) by {
                        assert(slots@[place as int] is Some);
                        assert(stands_at(view, slots@[place as int]->0 as int, place));
                    }
                }
                Ok(
                    Submission {
                        reporter_address: address,
                        token,
                        host_credential: credential,
                        hardware_config_text: hardware,
                        os_config_text: os,
                    },
                )
            },
            _ => {
                assert(!well_formed(view)) by {
                    let missing = choose|place: usize| place < FIELD_COUNT && slots@[place as int] is None;
                    assert(slots@[missing as int] is None);
                    assert(forall|k: int| !stands_at(view, k, missing));
                    assert(!has_field(view, missing));
                }
                Err(Failure::Malformed)
            },
        }
    }

    /// The text of the field at `place`, if one stands there.
    fn taken(fields: &Vec<(String, String)>, slots: &Vec<Option<usize>>, place: usize) -> (text: Option<
        String,
    >)
        requires
            place < FIELD_COUNT,
            no_stranger_no_double(fields_view(fields@), fields@.len() as int),
            filled(slots@, fields_view(fields@), fields@.len() as int),
        ensures
            text is Some == slots@[place as int] is Some,
            text matches Some(value) ==> value@ == field_value(fields_view(fields@), place),
    {
        match slots[place] {
            Some(k) => {
                proof {
                    let view = fields_view(fields@);
                    assert(stands_at(view, k as int, place));
                    let chosen = choose|c: int| stands_at(view, c, place);
                    assert(stands_at(view, chosen, place));
                    if chosen != k {
                        if chosen < k {
                            assert(field_place(view[chosen].0) != field_place(view[k as int].0));
                        } else {
                            assert(field_place(view[k as int].0) != field_place(view[chosen].0));
                        }
                    }
                }
                Some(fields[k].1.clone())
            },
            None => None,
        }
    }
}

} // verus!
