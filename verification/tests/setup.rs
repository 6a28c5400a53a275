//! The setup of access to the node.
use mox::config::Config;
use mox::node::NodeInfo;
use mox::setup::{run_interactive, Ended, Setup, SetupEvent, SetupStep};

fn config() -> Config {
    let mut c = Config::defaults();
    c.host = "h".into();
    c.identity_file = Some("/k".into());
    c.vm_subnet = Some("10.0.0.0/24".into());
    c
}

fn ok() -> Ended {
    Ended::Exited { success: true, status: "exit status: 0".into() }
}

#[test]
fn a_new_key_is_made_and_installed() {
    let mut s = Setup::new(config(), Some("/h/.ssh/config".into())).unwrap();
    assert!(s.command().is_none());
    assert!(s.run(SetupEvent::KeyFound(false)).is_empty());
    assert!(matches!(s.step, SetupStep::MakeDirectory));
    assert_eq!(s.run(SetupEvent::DirectoryMade), vec!["Creating dedicated Proxmox SSH key: /k"]);
    assert_eq!(
        s.command().unwrap(),
        vec!["ssh-keygen", "-t", "ed25519", "-f", "/k", "-N", "", "-C", "mox-automation"]
    );
    assert_eq!(
        s.run(SetupEvent::CommandEnded(ok())),
        vec!["", "You should be prompted once for the root password on h."]
    );
    assert_eq!(s.command().unwrap(), vec!["ssh-copy-id", "-i", "/k.pub", "-p", "22", "root@h"]);
    assert_eq!(s.run(SetupEvent::CommandEnded(ok())), vec!["", "Wiring local ssh config..."]);
    assert!(matches!(s.step, SetupStep::ReadSshConfig));
    assert!(s.run(SetupEvent::SshConfigRead("Host a\n".into())).is_empty());
    match &s.step {
        SetupStep::WriteSshConfig(t) => {
            assert!(t.starts_with("Host a\n"));
            assert!(t.contains("Host 10.0.0.*"));
        }
        _ => panic!("expected a text to write"),
    }
    assert_eq!(
        s.run(SetupEvent::SshConfigWritten),
        vec!["Added subnet block to /h/.ssh/config", "", "Checking access..."]
    );
    let info = NodeInfo { hostname: "pve".into(), pve_version: "9.2".into(), virt_customize: None };
    assert_eq!(
        s.run(SetupEvent::NodeInfo(Ok(info))),
        vec!["Connected to pve (9.2).", "", "Setup complete. Try: mox doctor"]
    );
    assert!(matches!(s.step, SetupStep::Done));
}

#[test]
fn an_existing_key_is_used() {
    let mut s = Setup::new(config(), Some("/h/.ssh/config".into())).unwrap();
    assert_eq!(
        s.run(SetupEvent::KeyFound(true)),
        vec!["Using existing SSH key: /k", "", "You should be prompted once for the root password on h."]
    );
    assert!(matches!(s.step, SetupStep::InstallKey));
    s.run(SetupEvent::CommandEnded(ok()));
    assert_eq!(
        s.run(SetupEvent::SshConfigRead("# mox-managed subnet\n".into())),
        vec!["ssh config subnet block already present.", "", "Checking access..."]
    );
    s.run(SetupEvent::NodeInfo(Err("down".into())));
    assert!(matches!(&s.step, SetupStep::Failed(m) if m == "access check failed: down"));
}

#[test]
fn the_ssh_configuration_is_left_alone_where_it_has_to_be() {
    let mut c = config();
    c.vm_subnet = None;
    let mut s = Setup::new(c, Some("/x".into())).unwrap();
    s.run(SetupEvent::KeyFound(true));
    assert_eq!(
        s.run(SetupEvent::CommandEnded(ok())),
        vec![
            "",
            "Wiring local ssh config...",
            "(no PVE_VM_SUBNET set — skipping ~/.ssh/config subnet block)",
            "",
            "Checking access..."
        ]
    );
    let mut s = Setup::new(config(), None).unwrap();
    s.run(SetupEvent::KeyFound(true));
    assert_eq!(
        s.run(SetupEvent::CommandEnded(ok()))[2],
        "(no HOME — skipping ~/.ssh/config subnet block)"
    );
    assert!(matches!(s.step, SetupStep::CheckAccess));
}

#[test]
fn a_command_that_fails_ends_the_setup() {
    let mut s = Setup::new(config(), None).unwrap();
    s.run(SetupEvent::KeyFound(true));
    assert!(s.run(SetupEvent::CommandEnded(Ended::NotFound)).is_empty());
    assert!(matches!(&s.step, SetupStep::Failed(m)
        if m == "`ssh-copy-id` not found — is it installed and on your PATH?"));
    assert!(s.run(SetupEvent::CommandEnded(ok())).is_empty());
}

#[test]
fn commands_end_in_three_ways() {
    assert_eq!(run_interactive("p", &ok()), Ok(()));
    assert_eq!(
        run_interactive("p", &Ended::NotRun("denied".into())),
        Err("failed to run `p`: denied".into())
    );
    assert_eq!(
        run_interactive("p", &Ended::Exited { success: false, status: "exit status: 1".into() }),
        Err("`p` exited with exit status: 1".into())
    );
}

#[test]
fn access_takes_an_identity() {
    let e = Setup::new(Config::defaults(), None).err().unwrap();
    assert_eq!(e, "no SSH identity configured (set PVE_IDENTITY_FILE)");
}
