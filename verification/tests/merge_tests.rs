use server_init::document::ConfigDocument;
use server_init::failure::Failure;
use server_init::identity::HostIdentity;
use server_init::merge::{entry_key, finish_merge, merge_host_entry, merged_text, render_entry};

const CLUSTER: &str = "{\n  cluster = {\n  };\n}\n";
const KEY: &str = "ssh-ed25519 AAAAC3NzaC1lZDI1NTE5AAAAIJb root@node1\n";

fn config(text: &str) -> ConfigDocument {
    ConfigDocument::parse(text).unwrap()
}

#[test]
fn identity_is_the_git_blob_id() {
    let identity = HostIdentity::derive("hello world\n").unwrap();
    assert_eq!(identity.as_str(), "3b18e512dba79e4c8300dd08aeb37f8e728b8dad");
    let empty = HostIdentity::derive("").unwrap();
    assert_eq!(empty.as_str(), "e69de29bb2d1d6434b8b29ae775ad8c2e48c5391");
}

#[test]
fn same_credential_same_identity() {
    let a = HostIdentity::derive(KEY).unwrap();
    let b = HostIdentity::derive(KEY).unwrap();
    assert_eq!(a.as_str(), b.as_str());
    let c = HostIdentity::derive("ssh-ed25519 AAAAother root@node2\n").unwrap();
    assert_ne!(a.as_str(), c.as_str());
}

#[test]
fn digest_of_wrong_shape_is_internal() {
    assert_eq!(HostIdentity::from_digest(None).err(), Some(Failure::Internal));
    assert_eq!(HostIdentity::from_digest(Some("abc".to_string())).err(), Some(Failure::Internal));
    let upper = "3B18E512DBA79E4C8300DD08AEB37F8E728B8DAD".to_string();
    assert_eq!(HostIdentity::from_digest(Some(upper)).err(), Some(Failure::Internal));
    let long = "3b18e512dba79e4c8300dd08aeb37f8e728b8dad0".to_string();
    assert_eq!(HostIdentity::from_digest(Some(long)).err(), Some(Failure::Internal));
    let good = "3b18e512dba79e4c8300dd08aeb37f8e728b8dad".to_string();
    assert!(HostIdentity::from_digest(Some(good)).is_ok());
}

#[test]
fn entry_is_rendered_on_one_line() {
    let identity = HostIdentity::derive("hello world\n").unwrap();
    assert_eq!(entry_key(&identity), "\"3b18e512dba79e4c8300dd08aeb37f8e728b8dad\"");
    let entry = render_entry(&identity, "a\"b\\c$d\ne");
    assert_eq!(
        entry,
        "  \"3b18e512dba79e4c8300dd08aeb37f8e728b8dad\" = { hostKey = \"a\\\"b\\\\c\\$d\\ne\"; \
hardware = ../hosts/3b18e512dba79e4c8300dd08aeb37f8e728b8dad/hardware.conf; \
os = ../hosts/3b18e512dba79e4c8300dd08aeb37f8e728b8dad/os.conf; };\n  "
    );
}

#[test]
fn merge_adds_one_entry_and_two_files() {
    let cluster = config(CLUSTER);
    let identity = HostIdentity::derive(KEY).unwrap();
    let hardware = config("{ boot = true; }");
    let os = config("{ services = [ ]; }");
    let change = merge_host_entry(&cluster, &identity, KEY, &hardware, &os).unwrap();
    let id = identity.as_str();
    assert_eq!(change.cluster.host_keys().unwrap(), vec![format!("\"{id}\"")]);
    assert_eq!(change.hardware.path, format!("hosts/{id}/hardware.conf"));
    assert_eq!(change.hardware.content, "{ boot = true; }");
    assert_eq!(change.os.path, format!("hosts/{id}/os.conf"));
    assert_eq!(change.os.content, "{ services = [ ]; }");
    assert_eq!(change.message, format!("Register host {id}"));
    let expected = format!(
        "{{\n  cluster = {{\n  {}}};\n}}\n",
        render_entry(&identity, KEY)
    );
    assert_eq!(change.cluster.serialize(), expected);
}

#[test]
fn second_merge_is_a_conflict() {
    let cluster = config(CLUSTER);
    let identity = HostIdentity::derive(KEY).unwrap();
    let hardware = config("{ }");
    let os = config("{ }");
    let change = merge_host_entry(&cluster, &identity, KEY, &hardware, &os).unwrap();
    let before = change.cluster.serialize();
    let again = merge_host_entry(&change.cluster, &identity, KEY, &hardware, &os);
    assert_eq!(again.err(), Some(Failure::Conflict));
    assert_eq!(change.cluster.serialize(), before);
}

#[test]
fn merged_document_parses_to_itself() {
    let cluster = config(CLUSTER);
    let identity = HostIdentity::derive(KEY).unwrap();
    let change = merge_host_entry(&cluster, &identity, KEY, &config("{ }"), &config("{ }")).unwrap();
    let text = change.cluster.serialize();
    let parsed = ConfigDocument::parse(&text).unwrap();
    assert_eq!(parsed.serialize(), text);
    assert_eq!(parsed.elements().len(), change.cluster.elements().len());
    assert_eq!(parsed.host_keys().unwrap(), change.cluster.host_keys().unwrap());
}

#[test]
fn other_hosts_keep_their_entries() {
    let text = "{\n  cluster = {\n    \"old\" = { hostKey = \"k\"; };\n  };\n  other = 1;\n}\n";
    let cluster = config(text);
    let identity = HostIdentity::derive(KEY).unwrap();
    let change = merge_host_entry(&cluster, &identity, KEY, &config("{ }"), &config("{ }")).unwrap();
    let keys = change.cluster.host_keys().unwrap();
    assert_eq!(keys, vec!["\"old\"".to_string(), format!("\"{}\"", identity.as_str())]);
    let merged = change.cluster.serialize();
    assert!(merged.starts_with("{\n  cluster = {\n    \"old\" = { hostKey = \"k\"; };\n  "));
    assert!(merged.ends_with("};\n  other = 1;\n}\n"));
    assert_eq!(merged.len(), text.len() + render_entry(&identity, KEY).len());
}

#[test]
fn entry_with_a_bare_key_is_a_conflict_too() {
    let credential = (0..1000)
        .map(|n| format!("credential {n}"))
        .find(|text| {
            HostIdentity::derive(text).unwrap().as_str().starts_with(|c: char| c.is_ascii_lowercase())
        })
        .unwrap();
    let credential = credential.as_str();
    let identity = HostIdentity::derive(credential).unwrap();
    let id = identity.as_str();
    let text = format!("{{\n  cluster = {{\n    {id} = {{ hostKey = \"k\"; }};\n  }};\n}}\n");
    let cluster = config(&text);
    assert_eq!(cluster.host_keys().unwrap(), vec![id.to_string()]);
    assert_eq!(merged_text(&cluster, &identity, credential).err(), Some(Failure::Conflict));
    let again = merge_host_entry(&cluster, &identity, credential, &config("{ }"), &config("{ }"));
    assert_eq!(again.err(), Some(Failure::Conflict));
}

#[test]
fn document_without_registry_is_internal() {
    let identity = HostIdentity::derive(KEY).unwrap();
    let list = config("[ 1 2 ]");
    assert_eq!(merged_text(&list, &identity, KEY).err(), Some(Failure::Internal));
    let result = merge_host_entry(&list, &identity, KEY, &config("{ }"), &config("{ }"));
    assert_eq!(result.err(), Some(Failure::Internal));
}

#[test]
fn hostile_credential_stays_inside_its_string() {
    let cluster = config(CLUSTER);
    let hostile = "x\"; }; \"evil\" = { a = \"${builtins.readFile /etc/shadow}";
    let identity = HostIdentity::derive(hostile).unwrap();
    let change = merge_host_entry(&cluster, &identity, hostile, &config("{ }"), &config("{ }")).unwrap();
    assert_eq!(change.cluster.host_keys().unwrap(), vec![format!("\"{}\"", identity.as_str())]);
}

#[test]
fn finish_refuses_a_text_that_parses_to_other_keys() {
    let cluster = config(CLUSTER);
    let identity = HostIdentity::derive(KEY).unwrap();
    let text = "{\n  cluster = {\n    \"someone-else\" = { };\n  };\n}\n".to_string();
    let other = config(&text);
    let walk = Vec::new();
    let kinds = rnix::tokenize(&text).map(|token| token.0).collect();
    let none = config("{ }");
    let refused = finish_merge(&cluster, &identity, &none, &none, text, &kinds, &walk, 0);
    assert_eq!(refused.err(), Some(Failure::Internal));
    assert_eq!(other.host_keys().unwrap(), vec!["\"someone-else\"".to_string()]);
}
