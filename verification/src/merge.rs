//! The insertion of a host entry into the cluster document.
//!
//! The entry of a host is one binding in the registry. Its key is the
//! host's identity in quotes; it names the host's credential and the two
//! files that hold the host's configuration. The entry is written into
//! the text right before the registry's closing brace, so that every
//! character of the document as it was stays where it was. The new text
//! is then parsed again, and the merge stands only if the registry of the
//! new document holds the keys of the old one followed by the new key.
use vstd::prelude::*;
use vstd::string::StringExecFns;
use crate::document::{
    document_of, lemma_place_is_in_tree, locate, parsed_document, registry_keys, ConfigDocument,
    DocumentView, ParseError,
};
use crate::failure::Failure;
use crate::identity::HostIdentity;
use crate::syntax::{
    fits_depth_budget, fits_scan_budget, flat_text, lemma_flat_text_splits, nix_parse, nix_tokens, parse_walk,
    text_of_range, token_kinds, walk_view, Walk, WalkStep,
};
use crate::text::{contains_text, escape, escaped, is_extended_by, texts};

verus! {

/// The path of the cluster document in the repository.
pub const CLUSTER_PATH: &'static str = "secrets/secrets.nix";

/// The key of a host's entry: the identity in quotes.
pub open spec fn key_text(identity: Seq<char>) -> Seq<char> {
    "\""@ + identity + "\""@
}

/// The path of the file that holds a host's hardware configuration.
pub open spec fn hardware_path_text(identity: Seq<char>) -> Seq<char> {
    "hosts/"@ + identity + "/hardware.conf"@
}

/// The path of the file that holds a host's system configuration.
pub open spec fn os_path_text(identity: Seq<char>) -> Seq<char> {
    "hosts/"@ + identity + "/os.conf"@
}

/// The message of the commit that registers a host.
pub open spec fn message_text(identity: Seq<char>) -> Seq<char> {
    "Register host "@ + identity
}

/// The text of a host's entry: one line that binds the key to the
/// credential, escaped, and to the paths of the two files as seen from
/// the cluster document. The line is indented, and after it the closing
/// brace that follows is indented anew.
pub open spec fn entry_text(identity: Seq<char>, credential: Seq<char>) -> Seq<char> {
    "  "@ + key_text(identity) + " = { hostKey = \""@ + escaped(credential) + "\"; hardware = ../"@
        + hardware_path_text(identity) + "; os = ../"@ + os_path_text(identity) + "; };\n  "@
}

/// A file of the repository.
#[derive(Debug)]
pub struct RepoFile {
    /// The path from the repository's root.
    pub path: String,
    /// What the file holds.
    pub content: String,
}

/// What a merge changes: the cluster document, two new files, and the
/// message of the commit that records it.
#[derive(Debug)]
pub struct ChangeSet {
    /// The cluster document with the new entry.
    pub cluster: ConfigDocument,
    /// The file with the host's hardware configuration.
    pub hardware: RepoFile,
    /// The file with the host's system configuration.
    pub os: RepoFile,
    /// The message of the commit.
    pub message: String,
}

/// A change set as a value of specifications.
pub struct ChangeSetView {
    /// The cluster document with the new entry.
    pub cluster: DocumentView,
    /// The path of the hardware file.
    pub hardware_path: Seq<char>,
    /// The content of the hardware file.
    pub hardware_text: Seq<char>,
    /// The path of the system file.
    pub os_path: Seq<char>,
    /// The content of the system file.
    pub os_text: Seq<char>,
    /// The message of the commit.
    pub message: Seq<char>,
}

impl View for ChangeSet {
    type V = ChangeSetView;

    open spec fn view(&self) -> ChangeSetView {
        ChangeSetView {
            cluster: self.cluster@,
            hardware_path: self.hardware.path@,
            hardware_text: self.hardware.content@,
            os_path: self.os.path@,
            os_text: self.os.content@,
            message: self.message@,
        }
    }
}

/// The view of the outcome of a merge.
pub open spec fn outcome_view(outcome: Result<ChangeSet, Failure>) -> Result<ChangeSetView, Failure> {
    match outcome {
        Ok(change) => Ok(change@),
        Err(failure) => Err(failure),
    }
}

/// The view of a text or a failure.
pub open spec fn text_view(outcome: Result<String, Failure>) -> Result<Seq<char>, Failure> {
    match outcome {
        Ok(text) => Ok(text@),
        Err(failure) => Err(failure),
    }
}

/// Whether a registry with these keys holds an entry for the identity:
/// one whose key is the identity in quotes, as entries are written here,
/// or the bare identity, as a hand may have written it.
pub open spec fn holds_entry(keys: Seq<Seq<char>>, identity: Seq<char>) -> bool {
    keys.contains(key_text(identity)) || keys.contains(identity)
}

/// The text of the cluster document with a host's entry: `Internal` if
/// the document has no registry, `Conflict` if the registry holds an
/// entry for the host, else the document's text with the entry written
/// in before the registry's closing brace.
pub open spec fn merge_text(cluster: DocumentView, identity: Seq<char>, credential: Seq<char>) -> Result<
    Seq<char>,
    Failure,
> {
    match registry_keys(cluster.tree) {
        None => Err(Failure::Internal),
        Some(keys) => if holds_entry(keys, identity) {
            Err(Failure::Conflict)
        } else {
            let brace = locate(cluster.tree)->0.brace;
            Ok(
                flat_text(cluster.tree, 0, brace) + entry_text(identity, credential) + flat_text(
                    cluster.tree,
                    brace,
                    cluster.tree.len() as int,
                ),
            )
        },
    }
}

/// What becomes of a new text once it is parsed again: a change set, if
/// the text makes a document whose registry holds the keys of the old
/// registry followed by the host's key; else `Internal`.
pub open spec fn finish_outcome(
    cluster: DocumentView,
    identity: Seq<char>,
    hardware: DocumentView,
    os: DocumentView,
    text: Seq<char>,
    kinds: Seq<rnix::SyntaxKind>,
    parsed: (Walk, nat),
) -> Result<ChangeSetView, Failure> {
    match (registry_keys(cluster.tree), document_of(text, kinds, parsed)) {
        (Some(keys), Ok(merged)) => if registry_keys(merged.tree) == Some(keys.push(key_text(identity))) {
            Ok(
                ChangeSetView {
                    cluster: merged,
                    hardware_path: hardware_path_text(identity),
                    hardware_text: hardware.text,
                    os_path: os_path_text(identity),
                    os_text: os.text,
                    message: message_text(identity),
                },
            )
        } else {
            Err(Failure::Internal)
        },
        _ => Err(Failure::Internal),
    }
}

/// The outcome of a merge, given what the tokenizer and the parser make
/// of the new text.
pub open spec fn merge_outcome(
    cluster: DocumentView,
    identity: Seq<char>,
    credential: Seq<char>,
    hardware: DocumentView,
    os: DocumentView,
    kinds: Seq<rnix::SyntaxKind>,
    parsed: (Walk, nat),
) -> Result<ChangeSetView, Failure> {
    match merge_text(cluster, identity, credential) {
        Ok(text) => finish_outcome(cluster, identity, hardware, os, text, kinds, parsed),
        Err(failure) => Err(failure),
    }
}

/// The outcome of a merge.
pub open spec fn merge_result(
    cluster: DocumentView,
    identity: Seq<char>,
    credential: Seq<char>,
    hardware: DocumentView,
    os: DocumentView,
) -> Result<ChangeSetView, Failure> {
    match merge_text(cluster, identity, credential) {
        Ok(text) => finish_outcome(
            cluster,
            identity,
            hardware,
            os,
            text,
            nix_tokens(text),
            nix_parse(text),
        ),
        Err(failure) => Err(failure),
    }
}

/// The key of a host's entry.
pub fn entry_key(identity: &HostIdentity) -> (key: String)
    ensures
        key@ == key_text(identity@),
{
    let mut key = "\"".to_owned();
    key.append(identity.as_str());
    key.append("\"");
    key
}

/// The path of the file for a host's hardware configuration.
pub fn hardware_path(identity: &HostIdentity) -> (path: String)
    ensures
        path@ == hardware_path_text(identity@),
{
    let mut path = "hosts/".to_owned();
    path.append(identity.as_str());
    path.append("/hardware.conf");
    path
}

/// The path of the file for a host's system configuration.
pub fn os_path(identity: &HostIdentity) -> (path: String)
    ensures
        path@ == os_path_text(identity@),
{
    let mut path = "hosts/".to_owned();
    path.append(identity.as_str());
    path.append("/os.conf");
    path
}

/// The message of the commit that registers a host.
pub fn commit_message(identity: &HostIdentity) -> (message: String)
    ensures
        message@ == message_text(identity@),
{
    let mut message = "Register host ".to_owned();
    message.append(identity.as_str());
    message
}

/// The text of a host's entry.
pub fn render_entry(identity: &HostIdentity, credential: &str) -> (entry: String)
    ensures
        entry@ == entry_text(identity@, credential@),
{
    let mut entry = "  ".to_owned();
    entry.append(entry_key(identity).as_str());
    entry.append(" = { hostKey = \"");
    entry.append(escape(credential).as_str());
    entry.append("\"; hardware = ../");
    entry.append(hardware_path(identity).as_str());
    entry.append("; os = ../");
    entry.append(os_path(identity).as_str());
    entry.append("; };\n  ");
    entry
}

/// Writes a host's entry into the text of the cluster document.
pub fn merged_text(cluster: &ConfigDocument, identity: &HostIdentity, credential: &str) -> (made: Result<
    String,
    Failure,
>)
    ensures
        text_view(made) == merge_text(cluster@, identity@, credential@),
{
    let keys = match cluster.host_keys() {
        Ok(keys) => keys,
        Err(_) => {
            return Err(Failure::Internal);
        },
    };
    let key = entry_key(identity);
    let bare = identity.as_str().to_owned();
    if contains_text(&keys, &key) || contains_text(&keys, &bare) {
        return Err(Failure::Conflict);
    }
    let root = match cluster.locate_cluster_root() {
        Ok(root) => root,
        Err(_) => {
            return Err(Failure::Internal);
        },
    };
    proof {
        lemma_place_is_in_tree(cluster@.tree);
    }
    let elements = cluster.elements();
    let mut text = text_of_range(elements, 0, root.brace);
    text.append(render_entry(identity, credential).as_str());
    text.append(text_of_range(elements, root.brace, elements.len()).as_str());
    Ok(text)
}

/// Completes a merge with what the tokenizer and the parser made of the
/// new text.
pub fn finish_merge(
    cluster: &ConfigDocument,
    identity: &HostIdentity,
    hardware: &ConfigDocument,
    os: &ConfigDocument,
    text: String,
    kinds: &Vec<rnix::SyntaxKind>,
    walk: &Vec<WalkStep>,
    errors: usize,
) -> (made: Result<ChangeSet, Failure>)
    ensures
        outcome_view(made) == finish_outcome(
            cluster@,
            identity@,
            hardware@,
            os@,
            text@,
            kinds@,
            (walk_view(walk@), errors as nat),
        ),
{
    let keys = match cluster.host_keys() {
        Ok(keys) => keys,
        Err(_) => {
            return Err(Failure::Internal);
        },
    };
    let merged = match ConfigDocument::from_walk(text, kinds, walk, errors) {
        Ok(merged) => merged,
        Err(_) => {
            return Err(Failure::Internal);
        },
    };
    let merged_keys = match merged.host_keys() {
        Ok(merged_keys) => merged_keys,
        Err(_) => {
            return Err(Failure::Internal);
        },
    };
    let key = entry_key(identity);
    if !is_extended_by(&merged_keys, &keys, &key) {
        return Err(Failure::Internal);
    }
    Ok(
        ChangeSet {
            cluster: merged,
            hardware: RepoFile { path: hardware_path(identity), content: hardware.serialize() },
            os: RepoFile { path: os_path(identity), content: os.serialize() },
            message: commit_message(identity),
        },
    )
}

/// Merges a host's entry into the cluster document.
///
/// Fails with `Internal` if the cluster document has no registry, and
/// with `Conflict`, changing nothing, if the registry holds an entry for
/// the identity, its key spelled in quotes or bare. Else the new text,
/// if it is within the scan budget, is split into tokens and, if these
/// are within the depth budget, parsed; a text beyond either budget
/// fails with `Internal`. What the tokenizer and the parser make of the
/// text are [`nix_tokens`] and [`nix_parse`], and the result is what
/// [`finish_merge`] makes of them. The cluster document of a change set
/// is faithful: parsing its text gives it again.
pub fn merge_host_entry(
    cluster: &ConfigDocument,
    identity: &HostIdentity,
    credential: &str,
    hardware: &ConfigDocument,
    os: &ConfigDocument,
) -> (made: Result<ChangeSet, Failure>)
    ensures
        outcome_view(made) == merge_result(cluster@, identity@, credential@, hardware@, os@),
        made matches Ok(change) ==> change.cluster@.faithful(),
{
    let text = match merged_text(cluster, identity, credential) {
        Ok(text) => text,
        Err(failure) => {
            return Err(failure);
        },
    };
    if !fits_scan_budget(text.as_str()) {
        return Err(Failure::Internal);
    }
    let kinds = token_kinds(text.as_str());
    if !fits_depth_budget(&kinds) {
        return Err(Failure::Internal);
    }
    let (walk, errors) = parse_walk(text.as_str());
    finish_merge(cluster, identity, hardware, os, text, &kinds, &walk, errors)
}

/// A merge writes the entry into the document's text and moves nothing
/// else: the new text is the old one up to some place, the entry, and the
/// old one from that place on.
pub proof fn lemma_merge_keeps_text(cluster: DocumentView, identity: Seq<char>, credential: Seq<char>)
    requires
        cluster.spells_text(),
        merge_text(cluster, identity, credential) is Ok,
    ensures
        ({
            let at = flat_text(cluster.tree, 0, locate(cluster.tree)->0.brace).len() as int;
            &&& 0 <= at <= cluster.text.len()
            &&& merge_text(cluster, identity, credential)->Ok_0 == cluster.text.subrange(0, at)
                + entry_text(identity, credential) + cluster.text.subrange(
                at,
                cluster.text.len() as int,
            )
        }),
{
    lemma_place_is_in_tree(cluster.tree);
    let brace = locate(cluster.tree)->0.brace;
    let head = flat_text(cluster.tree, 0, brace);
    let tail = flat_text(cluster.tree, brace, cluster.tree.len() as int);
    lemma_flat_text_splits(cluster.tree, 0, brace, cluster.tree.len() as int);
    assert(cluster.text == head + tail);
    assert(cluster.text.subrange(0, head.len() as int) =~= head);
    assert(cluster.text.subrange(head.len() as int, cluster.text.len() as int) =~= tail);
}

/// A merge into a registry without an entry for the identity gives a
/// document with exactly one entry for it, the last one, after the
/// entries that were there, and two new files under the host's own path.
/// A second merge for the same identity into that document fails with
/// `Conflict`, whatever else is submitted and whatever the parser would
/// make of it: no change set comes of it.
pub proof fn lemma_merge_registers_once(
    cluster: DocumentView,
    identity: Seq<char>,
    credential: Seq<char>,
    hardware: DocumentView,
    os: DocumentView,
    kinds: Seq<rnix::SyntaxKind>,
    parsed: (Walk, nat),
    credential_again: Seq<char>,
    hardware_again: DocumentView,
    os_again: DocumentView,
    kinds_again: Seq<rnix::SyntaxKind>,
    parsed_again: (Walk, nat),
)
    requires
        merge_outcome(cluster, identity, credential, hardware, os, kinds, parsed) is Ok,
    ensures
        ({
            let change = merge_outcome(cluster, identity, credential, hardware, os, kinds, parsed)->Ok_0;
            let before = registry_keys(cluster.tree)->0;
            let after = registry_keys(change.cluster.tree)->0;
            &&& registry_keys(cluster.tree) is Some
            &&& registry_keys(change.cluster.tree) is Some
            &&& !holds_entry(before, identity)
            &&& after == before.push(key_text(identity))
            &&& forall|i: int|
                0 <= i < after.len() ==> ((#[trigger] after[i] == key_text(identity) || after[i]
                    == identity) <==> i == after.len() - 1)
            &&& change.hardware_path == hardware_path_text(identity)
            &&& change.hardware_text == hardware.text
            &&& change.os_path == os_path_text(identity)
            &&& change.os_text == os.text
            &&& change.hardware_path != change.os_path
            &&& merge_outcome(
                change.cluster,
                identity,
                credential_again,
                hardware_again,
                os_again,
                kinds_again,
                parsed_again,
            ) == Err::<ChangeSetView, Failure>(Failure::Conflict)
        }),
{
    let change = merge_outcome(cluster, identity, credential, hardware, os, kinds, parsed)->Ok_0;
    let before = registry_keys(cluster.tree)->0;
    let after = registry_keys(change.cluster.tree)->0;
    let key = key_text(identity);
    assert(after == before.push(key));
    assert(after[after.len() - 1] == key);
    assert(after.contains(key));
    assert forall|i: int| 0 <= i < after.len() implies ((#[trigger] after[i] == key || after[i]
        == identity) <==> i == after.len() - 1) by {
        if i < before.len() {
            assert(after[i] == before[i]);
            assert(before.contains(before[i]));
        }
    }
    assert(change.hardware_path != change.os_path) by {
        lemma_paths_differ(identity);
    }
}

/// The two files of a host have different paths.
pub proof fn lemma_paths_differ(identity: Seq<char>)
    ensures
        hardware_path_text(identity) != os_path_text(identity),
{
    reveal_strlit("hosts/");
    reveal_strlit("/hardware.conf");
    reveal_strlit("/os.conf");
    let h = hardware_path_text(identity);
    let o = os_path_text(identity);
    assert(h.len() == 6 + identity.len() + 14);
    assert(o.len() == 6 + identity.len() + 8);
}

/// A document that a merge produces is faithful: parsing the text that
/// it serialises to gives the same document, element for element.
pub proof fn lemma_merged_document_round_trips(
    cluster: DocumentView,
    identity: Seq<char>,
    credential: Seq<char>,
    hardware: DocumentView,
    os: DocumentView,
)
    requires
        merge_result(cluster, identity, credential, hardware, os) is Ok,
    ensures
        ({
            let merged = merge_result(cluster, identity, credential, hardware, os)->Ok_0.cluster;
            &&& merged.spells_text()
            &&& parsed_document(merged.text) == Ok::<DocumentView, ParseError>(merged)
        }),
{
}

} // verus!
