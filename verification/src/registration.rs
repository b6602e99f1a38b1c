//! The state machine that handles one registration request.
//!
//! A request goes from `Received` through `Authenticated`, `Parsed`,
//! `Merged` and `Committed` to `Responded`, and leaves this path for
//! `Failed` at the first step that fails. Each step is one function from
//! the state and what the step needs to the next state. The steps that
//! touch the repository are the caller's: the machine says which one is
//! due, the caller performs it and hands back its outcome.
use vstd::prelude::*;
use crate::document::{parsed_document, ConfigDocument, DocumentView, ParseError};
use crate::failure::{status_of, Failure, STATUS_INTERNAL, STATUS_OK};
use crate::identity::{git_blob_id, identity_of, HostIdentity};
use crate::merge::{merge_host_entry, merge_result, ChangeSet, ChangeSetView};
use crate::submission::{
    field_value, fields_view, well_formed, Fields, Submission, CREDENTIAL, HARDWARE, OS, TOKEN,
};
use crate::token::{
    clock_millis, in_clock_range, qualifies, table_after_consume, TokenStore, TokenTable,
};

verus! {

/// A registration request on its way.
#[derive(Debug)]
pub enum Registration {
    /// The request has arrived; nothing is known of it.
    Received {
        /// The named texts of the request.
        fields: Vec<(String, String)>,
    },
    /// The request is well formed and its token was accepted.
    Authenticated {
        /// The request, read against the schema.
        submission: Submission,
    },
    /// Both configuration texts are documents.
    Parsed {
        /// The identity of the host.
        identity: HostIdentity,
        /// The credential of the host.
        credential: String,
        /// The hardware configuration.
        hardware: ConfigDocument,
        /// The system configuration.
        os: ConfigDocument,
    },
    /// The host's entry is merged; nothing is written yet.
    Merged {
        /// What is to be written, committed and pushed.
        change: ChangeSet,
    },
    /// The change is committed and pushed.
    Committed,
    /// The request is answered.
    Responded {
        /// The status that was answered.
        status: u16,
    },
    /// The request failed.
    Failed {
        /// Why.
        failure: Failure,
    },
}

/// What is due next for a request.
#[derive(Clone, Copy, Debug, PartialEq, Eq, Structural)]
pub enum Action {
    /// Check the schema and the token.
    Authenticate,
    /// Parse the configuration texts.
    Parse,
    /// Clone or open the repository and read the cluster document.
    OpenRepository,
    /// Write the files, commit and push.
    Publish,
    /// Answer the request.
    Respond,
    /// Nothing: the request is answered.
    Done,
}

/// Whether a request passes authentication: it must be well formed, and
/// with authentication enabled its token must be usable.
pub open spec fn admitted(fields: Fields, table: TokenTable, auth_enabled: bool, now: int) -> Result<
    (),
    Failure,
> {
    if !well_formed(fields) {
        Err(Failure::Malformed)
    } else if auth_enabled && !qualifies(table, field_value(fields, TOKEN), now) {
        Err(Failure::Unauthorized)
    } else {
        Ok(())
    }
}

/// The token table after the authentication of a request: one use of the
/// token is consumed if the request is well formed and authentication is
/// enabled; else nothing changes.
pub open spec fn table_after_admission(fields: Fields, table: TokenTable, auth_enabled: bool, now: int) -> TokenTable {
    if well_formed(fields) && auth_enabled {
        table_after_consume(table, field_value(fields, TOKEN), now)
    } else {
        table
    }
}

/// What authentication makes of a received request at `now`: the table
/// is left as [`table_after_admission`] says, and the request is
/// authenticated, with the texts of its fields, or has failed.
pub open spec fn admission(
    fields: Fields,
    before: TokenTable,
    after: TokenTable,
    auth_enabled: bool,
    now: int,
    next: Registration,
) -> bool {
    &&& after == table_after_admission(fields, before, auth_enabled, now)
    &&& match admitted(fields, before, auth_enabled, now) {
        Ok(_) => {
            &&& next matches Registration::Authenticated { submission }
            &&& submission.token@ == field_value(fields, TOKEN)
            &&& submission.host_credential@ == field_value(fields, CREDENTIAL)
            &&& submission.hardware_config_text@ == field_value(fields, HARDWARE)
            &&& submission.os_config_text@ == field_value(fields, OS)
        },
        Err(failure) => next == (Registration::Failed { failure }),
    }
}

/// Whether the texts of a submission can be parsed and its host named:
/// `Malformed` if either configuration text is no document, `Internal`
/// if the credential has no identity.
pub open spec fn parse_failure(credential: Seq<char>, hardware: Seq<char>, os: Seq<char>) -> Option<Failure> {
    if parsed_document(hardware) is Err || parsed_document(os) is Err {
        Some(Failure::Malformed)
    } else if identity_of(git_blob_id(credential)) is Err {
        Some(Failure::Internal)
    } else {
        None
    }
}

/// What the merge step makes of the repository's answer: the failure
/// with which the repository could not be had; `Internal` if the cluster
/// document does not parse; else the outcome of the merge.
pub open spec fn merge_step(
    identity: Seq<char>,
    credential: Seq<char>,
    hardware: DocumentView,
    os: DocumentView,
    repository: Result<Seq<char>, Failure>,
) -> Result<ChangeSetView, Failure> {
    match repository {
        Err(failure) => Err(failure),
        Ok(text) => match parsed_document(text) {
            Err(_) => Err(Failure::Internal),
            Ok(cluster) => merge_result(cluster, identity, credential, hardware, os),
        },
    }
}

impl Registration {
    /// The status that answers a request in this state: 200 once the
    /// change is committed, the failure's status after a failure, the
    /// status answered once answered, and 500 for a request that was
    /// given up on the way.
    pub open spec fn status(self) -> u16 {
        match self {
            Registration::Committed => STATUS_OK,
            Registration::Failed { failure } => failure.status(),
            Registration::Responded { status } => status,
            _ => STATUS_INTERNAL,
        }
    }

    /// The state after the publication of a merged request came to
    /// `published`: committed if it succeeded, else failed as it failed.
    /// Any other state stays as it is.
    pub open spec fn after_commit(self, published: Result<(), Failure>) -> Registration {
        match self {
            Registration::Merged { .. } => match published {
                Ok(_) => Registration::Committed,
                Err(failure) => Registration::Failed { failure },
            },
            _ => self,
        }
    }

    /// The state after the answer: answered, with the status of the state
    /// that the request was in.
    pub open spec fn answered(self) -> Registration {
        Registration::Responded { status: self.status() }
    }

    /// What is due next in this state.
    pub open spec fn due(self) -> Action {
        match self {
            Registration::Received { .. } => Action::Authenticate,
            Registration::Authenticated { .. } => Action::Parse,
            Registration::Parsed { .. } => Action::OpenRepository,
            Registration::Merged { .. } => Action::Publish,
            Registration::Committed => Action::Respond,
            Registration::Failed { .. } => Action::Respond,
            Registration::Responded { .. } => Action::Done,
        }
    }

    /// Takes in a request.
    pub fn receive(fields: Vec<(String, String)>) -> (request: Registration)
        ensures
            request == (Registration::Received { fields }),
    {
        Registration::Received { fields }
    }

    /// Computes [`Registration::due`].
    pub fn next_action(&self) -> (action: Action)
        ensures
            action == self.due(),
    {
        match self {
            Registration::Received { .. } => Action::Authenticate,
            Registration::Authenticated { .. } => Action::Parse,
            Registration::Parsed { .. } => Action::OpenRepository,
            Registration::Merged { .. } => Action::Publish,
            Registration::Committed => Action::Respond,
            Registration::Failed { .. } => Action::Respond,
            Registration::Responded { .. } => Action::Done,
        }
    }

    /// The change that is to be published, if the request is merged.
    pub fn change(&self) -> (change: Option<&ChangeSet>)
        ensures
            match *self {
                Registration::Merged { change: merged } => change == Some(&merged),
                _ => change is None,
            },
    {
        match self {
            Registration::Merged { change } => Some(change),
            _ => None,
        }
    }

    /// Authenticates a received request at `now`: reads it against the
    /// schema and, with authentication enabled, consumes one use of its
    /// token, check and decrement in one step. A request in any other
    /// state is handed back, and the table is left alone.
    pub fn authenticate_at(self, store: &mut TokenStore, auth_enabled: bool, now: i64) -> (next:
        Registration)
        ensures
            match self {
                Registration::Received { fields } => admission(
                    fields_view(fields@),
                    old(store)@,
                    final(store)@,
                    auth_enabled,
                    now as int,
                    next,
                ),
                _ => next == self && final(store)@ == old(store)@,
            },
    {
        match self {
            Registration::Received { fields } => {
                let submission = match Submission::from_fields(&fields) {
                    Ok(submission) => submission,
                    Err(failure) => {
                        return Registration::Failed { failure };
                    },
                };
                if auth_enabled {
                    match store.consume_at(submission.token.as_str(), now) {
                        Ok(()) => {},
                        Err(_) => {
                            return Registration::Failed { failure: Failure::Unauthorized };
                        },
                    }
                }
                Registration::Authenticated { submission }
            },
            other => other,
        }
    }

    /// Authenticates a received request now.
    ///
    /// The time comes from outside: whatever it is, the request and the
    /// table fare as [`Registration::authenticate_at`] says for it.
    pub fn authenticate(self, store: &mut TokenStore, auth_enabled: bool) -> (next: Registration)
        ensures
            match self {
                Registration::Received { fields } => exists|now: int|
                    in_clock_range(now) && admission(
                        fields_view(fields@),
                        old(store)@,
                        final(store)@,
                        auth_enabled,
                        now,
                        next,
                    ),
                _ => next == self && final(store)@ == old(store)@,
            },
    {
        let now = clock_millis();
        let ghost request = self;
        let next = self.authenticate_at(store, auth_enabled, now);
        proof {
            if let Registration::Received { fields } = request {
                assert(admission(
                    fields_view(fields@),
                    old(store)@,
                    store@,
                    auth_enabled,
                    now as int,
                    next,
                ));
            }
        }
        next
    }

    /// Parses both configuration texts of an authenticated request and
    /// names its host. Both results are looked at: one text that is no
    /// document makes the request `Malformed`. A request in any other
    /// state is handed back.
    pub fn parse(self) -> (next: Registration)
        ensures
            match self {
                Registration::Authenticated { submission } => match parse_failure(
                    submission.host_credential@,
                    submission.hardware_config_text@,
                    submission.os_config_text@,
                ) {
                    Some(failure) => next == (Registration::Failed { failure }),
                    None => {
                        &&& next matches Registration::Parsed { identity, credential, hardware, os }
                        &&& credential@ == submission.host_credential@
                        &&& identity_of(git_blob_id(credential@)) == Ok::<Seq<char>, Failure>(identity@)
                        &&& parsed_document(submission.hardware_config_text@) == Ok::<
                            DocumentView,
                            ParseError,
                        >(hardware@)
                        &&& parsed_document(submission.os_config_text@) == Ok::<
                            DocumentView,
                            ParseError,
                        >(os@)
                    },
                },
                _ => next == self,
            },
    {
        match self {
            Registration::Authenticated { submission } => {
                let hardware = ConfigDocument::parse(submission.hardware_config_text.as_str());
                let os = ConfigDocument::parse(submission.os_config_text.as_str());
                let (hardware, os) = match (hardware, os) {
                    (Ok(hardware), Ok(os)) => (hardware, os),
                    _ => {
                        return Registration::Failed { failure: Failure::Malformed };
                    },
                };
                let identity = match HostIdentity::derive(submission.host_credential.as_str()) {
                    Ok(identity) => identity,
                    Err(_) => {
                        return Registration::Failed { failure: Failure::Internal };
                    },
                };
                Registration::Parsed { identity, credential: submission.host_credential, hardware, os }
            },
            other => other,
        }
    }

    /// Merges the host of a parsed request into the cluster document
    /// that the repository holds, or fails with the failure with which
    /// the repository could not be had. A request in any other state is
    /// handed back.
    pub fn merge(self, repository: Result<String, Failure>) -> (next: Registration)
        ensures
            match self {
                Registration::Parsed { identity, credential, hardware, os } => match merge_step(
                    identity@,
                    credential@,
                    hardware@,
                    os@,
                    match repository {
                        Ok(text) => Ok(text@),
                        Err(failure) => Err(failure),
                    },
                ) {
                    Ok(merged) => next matches Registration::Merged { change } && change@ == merged
                        && change.cluster@.faithful(),
                    Err(failure) => next == (Registration::Failed { failure }),
                },
                _ => next == self,
            },
    {
        match self {
            Registration::Parsed { identity, credential, hardware, os } => {
                let text = match repository {
                    Ok(text) => text,
                    Err(failure) => {
                        return Registration::Failed { failure };
                    },
                };
                let cluster = match ConfigDocument::parse(text.as_str()) {
                    Ok(cluster) => cluster,
                    Err(_) => {
                        return Registration::Failed { failure: Failure::Internal };
                    },
                };
                match merge_host_entry(&cluster, &identity, credential.as_str(), &hardware, &os) {
                    Ok(change) => Registration::Merged { change },
                    Err(failure) => Registration::Failed { failure },
                }
            },
            other => other,
        }
    }

    /// Records what became of the publication of a merged request. A
    /// request in any other state is handed back.
    pub fn commit(self, published: Result<(), Failure>) -> (next: Registration)
        ensures
            next == self.after_commit(published),
    {
        match self {
            Registration::Merged { .. } => match published {
                Ok(_) => Registration::Committed,
                Err(failure) => Registration::Failed { failure },
            },
            other => other,
        }
    }

    /// Answers the request: the state becomes `Responded` with the
    /// status of the state it was in.
    pub fn respond(self) -> (next: Registration)
        ensures
            next == self.answered(),
    {
        let status = self.status_code();
        Registration::Responded { status }
    }

    /// Computes [`Registration::status`].
    pub fn status_code(&self) -> (status: u16)
        ensures
            status == self.status(),
    {
        match self {
            Registration::Committed => STATUS_OK,
            Registration::Failed { failure } => failure.status_code(),
            Registration::Responded { status } => *status,
            _ => STATUS_INTERNAL,
        }
    }
}

/// A request whose merge stands is answered as its publication fares:
/// with 200 if the change was committed and pushed, else with the status
/// of the failure. A request that failed earlier keeps its failure,
/// whatever is reported of a publication.
pub proof fn lemma_published_merge_answers_ok(request: Registration, published: Result<(), Failure>)
    ensures
        request is Merged ==> request.after_commit(published).answered().status() == status_of(
            published,
        ),
        request is Merged ==> (request.after_commit(published).answered().status() == STATUS_OK
            <==> published is Ok),
        request matches Registration::Failed { failure } ==> request.after_commit(
            published,
        ).answered().status() == failure.status(),
{
}

/// Only a request whose change is committed and pushed is answered with
/// 200: every other state that is not yet answered has another status.
pub proof fn lemma_ok_means_committed(request: Registration)
    requires
        !(request is Responded),
    ensures
        request.status() == STATUS_OK <==> request is Committed,
        request.due() == Action::Publish <==> request is Merged,
{
}

} // verus!
