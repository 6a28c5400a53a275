//! What is asked of the node, and what its answers mean.
use mox::config::Config;
use mox::model::{GuestAddr, GuestIface, GuestIps};
use mox::node::{
    create_args, first_column_after_header, parse_node_info, parse_vm_id, run_outcome, script_outcome,
    streamed_outcome, template_package_list, CreateSpec, Node, Script, Step, Wait,
};
use mox::text::words;

fn config() -> Config {
    Config {
        host: "h".into(),
        user: "root".into(),
        port: 22,
        identity_file: None,
        template_id: 9000,
        bridge: "vmbr0".into(),
        template_name: "ubuntu-2404-cloudinit".into(),
        image_url: "https://example.com/img.img".into(),
        storage: "local-lvm".into(),
        cpu_type: "host".into(),
        template_packages: String::new(),
        default_cores: 2,
        default_memory: 4096,
        default_disk: 20,
        default_full_clone: false,
        ci_user: "ubuntu".into(),
        tailscale_default: false,
        tailscale_authkey: None,
        tailnet_domain: Some("example.ts.net".into()),
        ip_timeout: 120,
        vm_subnet: None,
    }
}

fn spec() -> CreateSpec {
    CreateSpec {
        name: "web-01".into(),
        vmid: None,
        cores: 4,
        memory: 8192,
        disk: 40,
        ip: "dhcp".into(),
        gateway: None,
        nameserver: None,
        ci_user: "ubuntu".into(),
        ssh_pubkey: "ssh-ed25519 AAAA".into(),
        full_clone: true,
        start: true,
        tags: Some("dev".into()),
        tailscale: false,
    }
}

fn command<T>(s: Step<T>) -> String {
    match s {
        Step::Run(r) => {
            assert!(r.script.is_none());
            r.remote
        }
        Step::Done(_) => panic!("expected a command"),
    }
}

fn done<T>(s: Step<T>) -> Result<T, String> {
    match s {
        Step::Run(_) => panic!("expected a result"),
        Step::Done(r) => r,
    }
}

#[test]
fn parse_vm_id_reads_summary() {
    let out = "Cloning...\nVM_ID=142\nVM_NAME=web-01\nSTARTED=1\n";
    assert_eq!(parse_vm_id(out), Some(142));
    assert_eq!(parse_vm_id("no id here"), None);
}

#[test]
fn create_args_positional_order() {
    let cfg = config();
    let spec = spec();
    let args = create_args(&spec, &cfg, "KEYB64", "");
    assert_eq!(args.len(), 17);
    assert_eq!(args[0], "9000"); // template_id
    assert_eq!(args[1], ""); // vmid (None → next id on the node)
    assert_eq!(args[2], "web-01");
    assert_eq!(args[10], "1"); // full clone
    assert_eq!(args[11], "1"); // start
    assert_eq!(args[13], "KEYB64");
    assert_eq!(args[14], "0"); // tailscale off
    assert_eq!(args[16], "example.ts.net");
}

#[test]
fn template_packages_floor_and_extras() {
    assert_eq!(template_package_list(""), "qemu-guest-agent");
    assert_eq!(template_package_list("   "), "qemu-guest-agent");
    assert_eq!(template_package_list("vim htop"), "qemu-guest-agent,vim,htop");
    // Commas, extra spaces, and mixed separators all normalize cleanly.
    assert_eq!(template_package_list("vim, htop,,git"), "qemu-guest-agent,vim,htop,git");
}

#[test]
fn parses_node_info_present_and_missing() {
    let present = "HOST=think-1\nPVE=pve-manager/9.2.4\nVC=virt-customize 1.52.3\n";
    let info = parse_node_info(present);
    assert_eq!(info.hostname, "think-1");
    assert_eq!(info.pve_version, "pve-manager/9.2.4");
    assert_eq!(info.virt_customize.as_deref(), Some("virt-customize 1.52.3"));

    // Empty VC= → virt-customize not installed.
    let missing = "HOST=n\nPVE=x\nVC=\n";
    assert_eq!(parse_node_info(missing).virt_customize, None);
}

#[test]
fn parses_pvesm_status_names() {
    let sample = "\
Name             Type     Status           Total            Used       Available        %
local            dir      active        98559220        12897012        80612624   13.08%
local-lvm        lvmthin  active       142606336        23074406       119531929   16.18%";
    assert_eq!(
        first_column_after_header(sample),
        vec!["local".to_string(), "local-lvm".to_string()]
    );
}

#[test]
fn empty_or_header_only_yields_nothing() {
    assert!(first_column_after_header("").is_empty());
    assert!(first_column_after_header("Name Type Status").is_empty());
}

#[test]
fn the_first_id_that_is_a_number_counts() {
    assert_eq!(parse_vm_id("VM_ID=x\nVM_ID= 7 \nVM_ID=8\n"), Some(7));
    assert_eq!(parse_vm_id("VM_ID=4294967296\n"), None);
    assert_eq!(parse_vm_id(" VM_ID=7\n"), None);
}

#[test]
fn failures_are_told_by_a_line_of_standard_error() {
    assert_eq!(run_outcome(true, "out".into(), "err"), Ok("out".into()));
    assert_eq!(run_outcome(false, "out".into(), "\n a\nb\n"), Err("remote command failed: a".into()));
    assert_eq!(run_outcome(false, "".into(), " \n"), Err("remote command failed: (no stderr)".into()));
    assert_eq!(script_outcome(false, "".into(), "a\nb\n"), Err("remote script failed: b".into()));
    assert_eq!(script_outcome(false, "".into(), ""), Err("remote script failed: (no stderr)".into()));
    assert_eq!(script_outcome(true, "out".into(), "a"), Ok("out".into()));
    assert_eq!(streamed_outcome(true, "0"), Ok(()));
    assert_eq!(streamed_outcome(false, "exit status: 3"), Err("template build failed (ssh exit exit status: 3)".into()));
}

#[test]
fn ssh_is_told_how_to_reach_the_node() {
    let mut cfg = config();
    cfg.identity_file = Some("/k".into());
    let node = Node::new(cfg);
    assert_eq!(node.host(), "h");
    let base = ["-p", "22", "-o", "BatchMode=yes", "-o", "ConnectTimeout=8", "-o", "StrictHostKeyChecking=accept-new"];
    let mut want: Vec<&str> = base.to_vec();
    want.extend(["root@h", "uptime"]);
    assert_eq!(node.run("uptime", false), want);
    let mut want: Vec<&str> = base.to_vec();
    want.extend(["-i", "/k", "-o", "IdentitiesOnly=yes", "root@h", "uptime"]);
    assert_eq!(node.run("uptime", true), want);
}

#[test]
fn vms_are_started_stopped_and_destroyed() {
    let node = Node::new(config());
    assert_eq!(command(node.start_vm(7, None)), "qm start 7");
    assert_eq!(command(node.stop_vm(7, None)), "qm shutdown 7 --timeout 60 || qm stop 7");
    assert_eq!(
        command(node.destroy_vm(7, None)),
        "qm stop 7 >/dev/null 2>&1 || true; qm destroy 7 --purge 1"
    );
    assert_eq!(done(node.start_vm(7, Some(Ok("".into())))), Ok(()));
    assert_eq!(done(node.destroy_vm(7, Some(Err("no".into())))), Err("no".into()));
}

#[test]
fn the_node_is_asked_for_lists() {
    let node = Node::new(config());
    assert_eq!(command(node.storages(None)), "pvesm status");
    assert_eq!(done(node.storages(Some(Ok("Name\na x\n\nb y\n".into())))).unwrap(), vec!["a", "b"]);
    assert_eq!(command(node.bridges(None)), "ip -brief link show type bridge");
    assert_eq!(done(node.bridges(Some(Ok("vmbr0 UP\nvmbr1 DOWN\n".into())))).unwrap(), vec!["vmbr0", "vmbr1"]);
    assert_eq!(
        command(node.vms(None)),
        "pvesh get /cluster/resources --type vm --output-format json"
    );
    assert!(done(node.vms(Some(Err("bad".into())))).is_err());
    assert!(done(node.vms(Some(Ok(vec![])))).unwrap().is_empty());
}

#[test]
fn the_next_id_comes_with_or_without_quotes() {
    let node = Node::new(config());
    assert_eq!(command(node.next_id(None)), "pvesh get /cluster/nextid");
    assert_eq!(done(node.next_id(Some(Ok("\"142\"\n".into())))), Ok(142));
    assert_eq!(done(node.next_id(Some(Ok("142\n".into())))), Ok(142));
    let odd = "so\t\"me\" id";
    assert_eq!(
        done(node.next_id(Some(Ok(odd.into())))),
        Err(format!("parsing next id from {:?}", odd))
    );
    assert_eq!(done(node.next_id(Some(Err("gone".into())))), Err("gone".into()));
}

#[test]
fn a_creation_is_one_script() {
    let node = Node::new(config());
    match node.create(&spec(), None) {
        Step::Run(r) => {
            assert_eq!(r.script, Some(Script::Create));
            assert_eq!(
                r.remote,
                "bash -s -- '9000' '' 'web-01' '4' '8192' '40' 'dhcp' '' '' 'ubuntu' '1' '1' 'dev' \
                 'c3NoLWVkMjU1MTkgQUFBQQ==' '0' '' 'example.ts.net'"
            );
        }
        Step::Done(_) => panic!("expected a script"),
    }
    assert_eq!(done(node.create(&spec(), Some(Ok("VM_ID=5\n".into())))), Ok(5));
    assert_eq!(
        done(node.create(&spec(), Some(Ok("oops".into())))),
        Err("create finished but returned no VM_ID:\noops".into())
    );
}

#[test]
fn joining_a_tailnet_takes_a_key() {
    let mut s = spec();
    s.tailscale = true;
    let node = Node::new(config());
    assert_eq!(
        done(node.create(&s, None)),
        Err("Tailscale requested but PVE_TAILSCALE_AUTHKEY is not set in the config".into())
    );
    let mut cfg = config();
    cfg.tailscale_authkey = Some("foo".into());
    match Node::new(cfg).create(&s, None) {
        // The key travels with a line feed behind it.
        Step::Run(r) => assert!(r.remote.contains("'1' 'Zm9vCg==' 'example.ts.net'")),
        Step::Done(_) => panic!("expected a script"),
    }
}

#[test]
fn the_template_is_one_script() {
    let r = Node::new(config()).create_template();
    assert_eq!(r.script, Some(Script::Template));
    assert_eq!(
        r.remote,
        "bash -s -- '9000' 'ubuntu-2404-cloudinit' 'https://example.com/img.img' 'local-lvm' 'vmbr0' \
         'host' 'ubuntu' 'qemu-guest-agent' 'https://tailscale.com/install.sh'"
    );
}

#[test]
fn node_info_is_gathered_with_one_command() {
    let node = Node::new(config());
    let c = command(node.node_info(None));
    assert!(c.starts_with("echo \"HOST=$(hostname)\"; "));
    let info = done(node.node_info(Some(Ok("HOST=a\nPVE=b\nVC=\n".into())))).unwrap();
    assert_eq!((info.hostname.as_str(), info.pve_version.as_str()), ("a", "b"));
}

#[test]
fn guest_addresses_are_asked_of_the_agent() {
    let node = Node::new(config());
    assert_eq!(command(node.guest_ips(9, None)), "qm guest cmd 9 network-get-interfaces");
    let ifaces = vec![GuestIface {
        ip_addresses: vec![GuestAddr {
            ip_address_type: Some("ipv4".into()),
            ip_address: Some("10.0.0.2".into()),
        }],
    }];
    let ips = done(node.guest_ips(9, Some(Ok(ifaces)))).unwrap();
    assert_eq!(ips.lan.as_deref(), Some("10.0.0.2"));
}

#[test]
fn a_tailnet_vm_gets_an_ssh_entry() {
    let mut cfg = config();
    cfg.identity_file = Some("/k".into());
    let node = Node::new(cfg);
    let e = node.write_vm_ssh_config("web-01", true, "Host a\n").unwrap();
    assert_eq!(e.alias, "web-01.example.ts.net");
    assert!(e.text.starts_with("Host a\n"));
    assert!(e.text.contains("Host web-01 web-01.example.ts.net"));
    assert!(node.write_vm_ssh_config("web-01", false, "").is_none());
    assert!(Node::new(config()).write_vm_ssh_config("web-01", true, "").is_none());
}

#[test]
fn addresses_are_waited_for_until_there_are_enough() {
    let lan = || GuestIps { lan: Some("10.0.0.2".into()), tailscale: None };
    assert!(matches!(Node::wait_for_ips(Ok(lan()), false, false), Wait::Over(_)));
    assert!(matches!(Node::wait_for_ips(Ok(lan()), true, false), Wait::Again(3)));
    match Node::wait_for_ips(Ok(lan()), true, true) {
        Wait::Over(i) => assert_eq!(i.lan.as_deref(), Some("10.0.0.2")),
        Wait::Again(_) => panic!("the time was up"),
    }
    match Node::wait_for_ips(Err("no agent".into()), false, true) {
        Wait::Over(i) => assert!(i.lan.is_none() && i.tailscale.is_none()),
        Wait::Again(_) => panic!("the time was up"),
    }
    assert!(matches!(Node::wait_for_ips(Err("no agent".into()), false, false), Wait::Again(3)));
}

#[test]
fn the_package_list_splits_into_the_packages() {
    assert_eq!(
        words(&template_package_list("vim, htop,,git"), true),
        vec!["qemu-guest-agent", "vim", "htop", "git"]
    );
    assert_eq!(words(&template_package_list(" , "), true), vec!["qemu-guest-agent"]);
}
