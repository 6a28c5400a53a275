//! What is printed.
use mox::config::Config;
use mox::model::Vm;
use mox::node::NodeInfo;
use mox::report::{building_notice, join_or_dash, list_header, list_row, Doctor, NodeJson, Probe};
use mox::screen::Figures;

fn config() -> Config {
    let mut c = Config::defaults();
    c.host = "h".into();
    c
}

#[test]
fn a_reachable_node_is_asked_three_times() {
    let mut d = Doctor::new(config());
    assert_eq!(d.next_probe(), Probe::NodeInfo);
    d.heard_info(Ok(NodeInfo { hostname: "pve".into(), pve_version: "9.2".into(), virt_customize: None }));
    assert_eq!(d.next_probe(), Probe::Storages);
    d.heard_storages(Ok(vec!["a".into(), "b".into()]));
    assert_eq!(d.next_probe(), Probe::Bridges);
    d.heard_bridges(Err("x".into()));
    assert_eq!(d.next_probe(), Probe::Done);
    assert_eq!(
        d.report(),
        vec![
            "mox doctor",
            "",
            "Connection",
            "  host        h",
            "  web UI      https://h:8006",
            "  ssh         root@h:22",
            "  ssh key     (none configured)",
            "  template    9000",
            "  tailnet     (unset)",
            "  tailscale   (no auth key — new VMs won't join the tailnet)",
            "",
            "Node status",
            "  hostname        pve",
            "  proxmox         9.2",
            "  virt-customize  MISSING (auto-installed by template build)",
            "  storages        a, b",
            "  bridges         —",
        ]
    );
}

#[test]
fn an_unreachable_node_is_asked_no_more() {
    let mut c = config();
    c.identity_file = Some("/k".into());
    c.tailnet_domain = Some("t.net".into());
    c.tailscale_authkey = Some("x".into());
    let mut d = Doctor::new(c);
    d.heard_info(Err("timed out".into()));
    assert_eq!(d.next_probe(), Probe::Done);
    let r = d.report();
    assert_eq!(r[6], "  ssh key     /k");
    assert_eq!(r[8], "  tailnet     t.net");
    assert_eq!(r[9], "  tailscale   configured");
    assert_eq!(r.last().unwrap(), "  unreachable: timed out");
}

#[test]
fn names_are_joined() {
    assert_eq!(join_or_dash(&vec![]), "—");
    assert_eq!(join_or_dash(&vec!["a".into()]), "a");
    assert_eq!(join_or_dash(&vec!["a".into(), "b".into()]), "a, b");
}

#[test]
fn the_list_is_a_table() {
    assert_eq!(
        list_header("h"),
        vec![
            "node h".to_string(),
            String::new(),
            format!("{:<6} {:<20} {:<10} {:>6} {:>6} {:>8}", "ID", "NAME", "STATUS", "CPU%", "MEM%", "UPTIME"),
        ]
    );
    let vm = Vm {
        vmid: 100,
        name: "a-name-of-more-than-twenty".into(),
        status: "running".into(),
        is_template: false,
        mem: 1,
        maxmem: 3,
        maxdisk: 0,
        cpu_bits: 0.055f64.to_bits(),
        maxcpu_bits: 2.0f64.to_bits(),
        uptime: 5940,
    };
    let cpu = f64::from_bits(vm.cpu_bits) * 100.0;
    let mem = vm.mem as f64 / vm.maxmem as f64 * 100.0;
    let g = Figures { cpus: 2, cpu_percent: format!("{cpu:.0}"), mem_percent: format!("{mem:.0}") };
    assert_eq!(
        list_row(&vm, &g),
        format!(
            "{:<6} {:<20} {:<10} {:>5.0}% {:>5.0}% {:>8}",
            100, "a-name-of-more-than…", "running", cpu, mem, "1h39m"
        )
    );
}

#[test]
fn building_a_template_is_announced() {
    assert_eq!(building_notice(&config()), "Building template ubuntu-2404-cloudinit (9000) on h…");
}

#[test]
fn a_program_is_told_the_same() {
    let mut c = config();
    c.identity_file = Some("/k".into());
    c.tailscale_authkey = Some("tskey".into());
    let mut d = Doctor::new(c);
    assert!(d.json().is_none());
    d.heard_info(Ok(NodeInfo {
        hostname: "pve".into(),
        pve_version: "9.2".into(),
        virt_customize: Some("1.52".into()),
    }));
    d.heard_storages(Ok(vec!["a".into(), "b".into()]));
    d.heard_bridges(Err("x".into()));
    let told = d.json().unwrap();
    let c = told.connection;
    assert_eq!((c.host.as_str(), c.web_ui.as_str(), c.user.as_str()), ("h", "https://h:8006", "root"));
    assert_eq!((c.port, c.template_id, c.tailscale_configured), (22, 9000, true));
    assert_eq!((c.ssh_key.as_deref(), c.tailnet.as_deref()), (Some("/k"), None));
    match told.node {
        NodeJson::Reachable { hostname, proxmox, virt_customize, storages, bridges } => {
            assert_eq!((hostname.as_str(), proxmox.as_str()), ("pve", "9.2"));
            assert_eq!(virt_customize.as_deref(), Some("1.52"));
            assert_eq!(storages, Some(vec!["a".to_string(), "b".to_string()]));
            assert_eq!(bridges, None);
        }
        NodeJson::Unreachable { .. } => panic!("the node was reached"),
    }
}

#[test]
fn a_program_is_told_why_a_node_is_not_reached() {
    let mut d = Doctor::new(config());
    d.heard_info(Err("timed out".into()));
    let told = d.json().unwrap();
    assert!(!told.connection.tailscale_configured);
    assert!(matches!(told.node, NodeJson::Unreachable { error } if error == "timed out"));
}
