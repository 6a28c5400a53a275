//! The interactive setup.
use mox::config::Config;
use mox::init::{
    backup_path, derive_subnet, greeting_lines, prompt, prompt_text, prompt_yes_no, Wizard, WizardEvent,
    WizardStep,
};

#[test]
fn derive_subnet_from_ip_or_default() {
    assert_eq!(derive_subnet("192.168.3.160"), "192.168.3.0/24");
    assert_eq!(derive_subnet("10.1.2.3"), "10.1.2.0/24");
    assert_eq!(derive_subnet("pve.example.com"), "192.0.2.0/24");
}

#[test]
fn backup_path_appends_suffix() {
    assert_eq!(backup_path("/home/u/.config/mox/config"), "/home/u/.config/mox/config.bak");
    assert_eq!(backup_path("/x/.env"), "/x/.env.bak");
}

#[test]
fn questions_show_their_default() {
    assert_eq!(prompt_text("SSH user", "root"), "SSH user [root]: ");
    assert_eq!(prompt_text("SSH user", ""), "SSH user: ");
    assert_eq!(prompt("  admin \n", "root"), "admin");
    assert_eq!(prompt(" \n", "root"), "root");
}

#[test]
fn yes_comes_in_any_case() {
    for yes in ["y\n", "Y", "yes", "YES", "yEs", "", "  \n"] {
        assert!(prompt_yes_no(yes, true), "{yes:?}");
    }
    for no in ["n\n", "no", "ye", "yess", "yep", "да"] {
        assert!(!prompt_yes_no(no, true), "{no:?}");
    }
    assert!(!prompt_yes_no("", false));
}

fn line(w: &mut Wizard, s: &str) -> Vec<String> {
    w.run(WizardEvent::Line(format!("{s}\n")))
}

fn question(w: &Wizard) -> (String, String) {
    w.asked().unwrap()
}

fn q(label: &str, default: &str) -> (String, String) {
    (label.to_string(), default.to_string())
}

#[test]
fn a_first_setup_asks_for_everything() {
    assert_eq!(greeting_lines(), vec!["mox interactive setup", "====================="]);
    let (mut w, says) =
        Wizard::new(Some("/h/.config/mox/config".into()), Err("none".into()), Some("/h".into()), false).unwrap();
    assert_eq!(says, vec!["", "== Proxmox node connection =="]);
    assert_eq!(question(&w), q("Proxmox node IP or hostname", ""));
    assert_eq!(line(&mut w, ""), vec!["Host is required."]);
    assert!(line(&mut w, "10.1.2.3").is_empty());
    assert_eq!(question(&w), q("SSH user", "root"));
    line(&mut w, "");
    assert_eq!(question(&w), q("SSH port", "22"));
    assert_eq!(line(&mut w, "0"), vec!["Invalid port: 0"]);
    assert_eq!(line(&mut w, "65536"), vec!["Invalid port: 65536"]);
    assert_eq!(line(&mut w, "x"), vec!["Invalid port: x"]);
    line(&mut w, "2222");
    assert_eq!(question(&w), q("SSH identity file", "/h/.ssh/proxmox/id_ed25519"));
    line(&mut w, "");
    assert_eq!(question(&w), q("VM subnet (for ~/.ssh/config)", "10.1.2.0/24"));
    assert_eq!(line(&mut w, ""), vec!["", "== Node resources =="]);
    assert_eq!(w.step, WizardStep::Storages);
    assert!(w.asked().is_none());
    let says = w.run(WizardEvent::Names(Ok(vec!["local".into(), "local-lvm".into()])));
    assert_eq!(says, vec!["Detected storages: local, local-lvm"]);
    assert_eq!(question(&w), q("Storage for VM disks", "local-lvm"));
    line(&mut w, "local");
    assert_eq!(w.step, WizardStep::Bridges);
    assert!(w.run(WizardEvent::Names(Err("down".into()))).is_empty());
    assert_eq!(question(&w), q("Network bridge", "vmbr0"));
    assert_eq!(line(&mut w, ""), vec!["", "== Tailscale (optional) =="]);
    assert_eq!(question(&w), q("Join new VMs to a tailnet by default?", "n"));
    assert!(line(&mut w, "yes").is_empty());
    assert_eq!(question(&w), q("Tailscale reusable auth key (tskey-auth-...)", ""));
    line(&mut w, "tskey-auth-x");
    assert_eq!(question(&w), q("Tailnet domain (e.g. example-name.ts.net)", ""));
    line(&mut w, "");
    assert_eq!(w.step, WizardStep::BackUp);
    assert!(w.run(WizardEvent::BackedUp(false)).is_empty());
    let back = Config::parse_env(&w.text(), None).unwrap();
    assert_eq!(back.host, "10.1.2.3");
    assert_eq!(back.port, 2222);
    assert_eq!(back.identity_file.as_deref(), Some("/h/.ssh/proxmox/id_ed25519"));
    assert_eq!(back.vm_subnet.as_deref(), Some("10.1.2.0/24"));
    assert_eq!(back.storage, "local");
    assert!(back.tailscale_default);
    assert_eq!(back.tailscale_authkey.as_deref(), Some("tskey-auth-x"));
    assert_eq!(back.tailnet_domain, None);
    let says = w.run(WizardEvent::Written);
    assert_eq!(
        says,
        vec![
            "Wrote /h/.config/mox/config",
            "",
            "Next: `mox doctor`, then `mox template` (if needed), then create VMs."
        ]
    );
    assert_eq!(w.step, WizardStep::Done);
    assert!(line(&mut w, "x").is_empty());
}

#[test]
fn an_existing_setup_is_kept_aside() {
    let mut cfg = Config::defaults();
    cfg.host = "h".into();
    cfg.tailscale_default = true;
    cfg.identity_file = Some("/k".into());
    let (mut w, says) = Wizard::new(Some("/c".into()), Ok(cfg), None, true).unwrap();
    assert_eq!(
        says,
        vec![
            "",
            "A config already exists at /c.",
            "Continuing backs it up to <config>.bak and writes a new one."
        ]
    );
    assert_eq!(question(&w), q("Continue?", "y"));
    assert_eq!(line(&mut w, ""), vec!["", "== Proxmox node connection =="]);
    for _ in 0..5 {
        line(&mut w, "");
    }
    w.run(WizardEvent::Names(Ok(vec![])));
    line(&mut w, "");
    w.run(WizardEvent::Names(Ok(vec!["vmbr0".into()])));
    line(&mut w, "");
    assert_eq!(question(&w).1, "y");
    assert_eq!(
        line(&mut w, "n"),
        vec!["Tailscale off by default. Toggle it per-VM in the create wizard."]
    );
    assert_eq!(
        w.run(WizardEvent::BackedUp(true)),
        vec!["", "Backed up existing config to /c.bak"]
    );
    assert_eq!(w.cfg.identity_file.as_deref(), Some("/k"));
    assert!(!w.cfg.tailscale_default);
}

#[test]
fn a_setup_can_be_cancelled() {
    let (mut w, _) = Wizard::new(Some("/c".into()), Err("x".into()), None, true).unwrap();
    assert_eq!(line(&mut w, "no"), vec!["Cancelled."]);
    assert_eq!(w.step, WizardStep::Done);
    assert!(w.run(WizardEvent::Written).is_empty());
}

#[test]
fn a_setup_needs_a_file_to_write() {
    let e = Wizard::new(None, Err("x".into()), None, false).err().unwrap();
    assert_eq!(e, "cannot resolve ~/.config/mox/config (no HOME)");
}
