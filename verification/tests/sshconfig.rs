//! The SSH configuration.
use mox::sshconfig::{
    default_path, ensure_subnet_block, render_block, strip_block, subnet_host_pattern, upsert_vm_entry,
};

const ID: &str = "/home/u/.ssh/proxmox/id_ed25519";

#[test]
fn insert_then_idempotent_replace() {
    let first = upsert_vm_entry("", "web-01", "web-01.example.ts.net", "ubuntu", ID);
    assert!(first.contains("Host web-01 web-01.example.ts.net"));
    assert!(first.contains("User ubuntu"));
    assert_eq!(first.matches("# mox-managed: web-01").count(), 1);

    // Re-running replaces (not duplicates) the block.
    let second = upsert_vm_entry(&first, "web-01", "web-01.example.ts.net", "root", ID);
    assert_eq!(second.matches("# mox-managed: web-01").count(), 1);
    assert!(second.contains("User root"));
    assert!(!second.contains("User ubuntu"));
}

#[test]
fn subnet_pattern_from_cidr() {
    assert_eq!(subnet_host_pattern("192.168.3.0/24"), "192.168.3.*");
    assert_eq!(subnet_host_pattern("10.0.0.0/8"), "10.0.0.*");
    assert_eq!(subnet_host_pattern("weird"), "weird");
}

#[test]
fn subnet_block_is_idempotent() {
    let wrote1 = ensure_subnet_block("", "192.168.3.0/24", "ubuntu", ID);
    assert!(wrote1.is_some(), "first call writes the block");
    let content = wrote1.unwrap();
    let wrote2 = ensure_subnet_block(&content, "192.168.3.0/24", "ubuntu", ID);
    assert!(wrote2.is_none(), "second call is a no-op");

    assert_eq!(content.matches("# mox-managed subnet").count(), 1);
    assert!(content.contains("Host 192.168.3.*"));
}

#[test]
fn strip_leaves_unmanaged_content_intact() {
    let existing = "Host bastion\n    HostName 10.0.0.9\n\n# mox-managed: old\nHost old x\n# mox-managed end\n";
    let stripped = strip_block(existing, "old");
    assert!(stripped.contains("Host bastion"));
    assert!(!stripped.contains("Host old x"));
    assert!(!stripped.contains("# mox-managed"));
}

#[test]
fn other_blocks_stay_where_they_are() {
    let one = upsert_vm_entry("Host a\n", "web-01", "web-01.t.net", "u", ID);
    let two = upsert_vm_entry(&one, "db-01", "db-01.t.net", "u", ID);
    let three = upsert_vm_entry(&two, "web-01", "web-01.t.net", "u", ID);
    assert!(three.starts_with("Host a\n"));
    assert_eq!(three.matches("# mox-managed: web-01").count(), 1);
    assert_eq!(three.matches("# mox-managed: db-01").count(), 1);
    // The block that was put in last stands last.
    assert!(three.find("# mox-managed: db-01").unwrap() < three.find("# mox-managed: web-01").unwrap());
    // Once more changes nothing.
    assert_eq!(upsert_vm_entry(&three, "web-01", "web-01.t.net", "u", ID), three);
}

#[test]
fn a_block_has_its_markers_and_its_settings() {
    let b = render_block("web-01", "web-01.t.net", "ubuntu", ID);
    assert!(b.contains("# mox-managed: web-01\n"));
    assert!(b.contains("Host web-01 web-01.t.net\n"));
    assert!(b.contains(ID));
    assert!(b.contains("# mox-managed end\n"));
}

#[test]
fn the_configuration_lies_below_the_home() {
    assert_eq!(default_path(Some("/home/u")).as_deref(), Some("/home/u/.ssh/config"));
    assert_eq!(default_path(None), None);
}

#[test]
fn a_blank_line_separates_the_block_from_what_was_there() {
    let block = "# mox-managed: web\nHost web web.ts.net\n    HostName web.ts.net\n    User ubuntu\n    \
                 IdentityFile /k\n    IdentitiesOnly yes\n# mox-managed end\n";
    for before in ["Host bastion\n", "Host bastion", "Host bastion\n\n\n"] {
        let text = upsert_vm_entry(before, "web", "web.ts.net", "ubuntu", "/k");
        assert_eq!(text, format!("Host bastion\n\n{block}"));
        // Once more changes nothing.
        assert_eq!(upsert_vm_entry(&text, "web", "web.ts.net", "ubuntu", "/k"), text);
    }
    for nothing in ["", "\n\n"] {
        let text = upsert_vm_entry(nothing, "web", "web.ts.net", "ubuntu", "/k");
        assert_eq!(text, format!("\n{block}"));
        assert_eq!(upsert_vm_entry(&text, "web", "web.ts.net", "ubuntu", "/k"), text);
    }
}

#[test]
fn the_subnet_block_stands_behind_what_was_there() {
    let text = ensure_subnet_block("Host a\r\n\n", "10.0.0.0/24", "u", "/k").unwrap();
    assert_eq!(
        text,
        "Host a\r\n# mox-managed subnet\nHost 10.0.0.*\n    User u\n    IdentityFile /k\n    \
         IdentitiesOnly yes\n# mox-managed end\n"
    );
    assert_eq!(text.lines().filter(|l| *l == "# mox-managed subnet").count(), 1);
    // A block that is there stays, whatever is asked for.
    assert!(ensure_subnet_block(&text, "192.168.3.0/24", "root", "/other").is_none());
    assert!(ensure_subnet_block("# mox-managed subnet\r\n", "10.0.0.0/24", "u", "/k").is_none());
    // A marker inside another line marks nothing.
    assert!(ensure_subnet_block(" # mox-managed subnet\n", "10.0.0.0/24", "u", "/k").is_some());
}

#[test]
fn taking_a_new_block_out_restores_the_text() {
    let text = "Host bastion\n    HostName 10.0.0.9\n\n";
    let with = upsert_vm_entry(text, "web-01", "web-01.example.ts.net", "ubuntu", ID);
    assert!(with.contains("Host web-01"));
    assert_eq!(strip_block(&with, "web-01"), text);
}
