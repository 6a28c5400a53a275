//! VMs and the addresses inside them.
use mox::model::{is_tailscale, vms_from, GuestAddr, GuestIface, GuestIps, Resource, TemplateFlag, Vm};
use mox::number::parse_ipv4;

// Shaped exactly like real `qm guest cmd VMID network-get-interfaces` output:
// loopback + a LAN interface + a Tailscale (CGNAT) interface, with IPv6 mixed in.
const IFACES: &str = r#"[
      {"name":"lo","ip-addresses":[
        {"ip-address":"127.0.0.1","ip-address-type":"ipv4","prefix":8},
        {"ip-address":"::1","ip-address-type":"ipv6","prefix":128}]},
      {"name":"eth0","ip-addresses":[
        {"ip-address":"192.168.3.170","ip-address-type":"ipv4","prefix":24},
        {"ip-address":"fe80::be24:11ff:fe14:da9f","ip-address-type":"ipv6","prefix":64}]},
      {"name":"tailscale0","ip-addresses":[
        {"ip-address":"100.101.102.103","ip-address-type":"ipv4","prefix":32}]}
    ]"#;

/// The interfaces in an answer of the guest agent.
fn decoded(json: &str) -> Vec<GuestIface> {
    let v: serde_json::Value = serde_json::from_str(json).unwrap();
    let text = |a: &serde_json::Value, key: &str| a.get(key).and_then(|t| t.as_str()).map(|t| t.to_string());
    v.as_array()
        .unwrap()
        .iter()
        .map(|i| GuestIface {
            ip_addresses: i
                .get("ip-addresses")
                .and_then(|a| a.as_array())
                .map(|list| {
                    list.iter()
                        .map(|a| GuestAddr {
                            ip_address_type: text(a, "ip-address-type"),
                            ip_address: text(a, "ip-address"),
                        })
                        .collect()
                })
                .unwrap_or_default(),
        })
        .collect()
}

#[test]
fn classifies_lan_and_tailscale_ips() {
    let ips = GuestIps::from_interfaces_json(&decoded(IFACES));
    assert_eq!(ips.lan.as_deref(), Some("192.168.3.170"));
    assert_eq!(ips.tailscale.as_deref(), Some("100.101.102.103"));
}

#[test]
fn skips_loopback_and_reports_none_without_addresses() {
    let ips = GuestIps::from_interfaces_json(&decoded(
        r#"[{"name":"lo","ip-addresses":[{"ip-address":"127.0.0.1","ip-address-type":"ipv4","prefix":8}]}]"#,
    ));
    assert_eq!(ips.lan, None);
    assert_eq!(ips.tailscale, None);
}

#[test]
fn tailscale_range_boundary() {
    // 100.64.0.0/10 spans 100.64.x – 100.127.x; 100.128 and 100.63 are LAN.
    assert!(is_tailscale(parse_ipv4("100.64.0.1").unwrap()));
    assert!(is_tailscale(parse_ipv4("100.127.255.255").unwrap()));
    assert!(!is_tailscale(parse_ipv4("100.63.0.1").unwrap()));
    assert!(!is_tailscale(parse_ipv4("100.128.0.1").unwrap()));
}

#[test]
fn the_first_address_of_each_kind_is_picked() {
    let ips = GuestIps::from_interfaces_json(&decoded(
        r#"[{"ip-addresses":[{"ip-address":"bad","ip-address-type":"ipv4"},
             {"ip-address":"10.0.0.1","ip-address-type":"ipv6"},
             {"ip-address":"10.0.0.2","ip-address-type":"ipv4"},
             {"ip-address":"100.64.0.9","ip-address-type":"ipv4"}]},
            {"ip-addresses":[{"ip-address":"10.0.0.3","ip-address-type":"ipv4"},
             {"ip-address":"100.64.0.8","ip-address-type":"ipv4"}]}, {"name":"x"}]"#,
    ));
    assert_eq!(ips.lan.as_deref(), Some("10.0.0.2"));
    assert_eq!(ips.tailscale.as_deref(), Some("100.64.0.9"));
}

fn row(vmid: u32, kind: &str, template: Option<TemplateFlag>) -> Resource {
    Resource {
        vmid: Some(vmid),
        name: Some("n".into()),
        status: Some("stopped".into()),
        maxmem: Some(8),
        mem: Some(4),
        maxdisk: Some(2),
        maxcpu_bits: Some(2.0f64.to_bits()),
        cpu_bits: Some(0.25f64.to_bits()),
        uptime: Some(1),
        template,
        rtype: Some(kind.into()),
    }
}

#[test]
fn rows_become_vms() {
    let vm = Vm::from(row(7, "qemu", None));
    assert_eq!((vm.vmid, vm.mem, vm.maxmem, vm.maxdisk, vm.uptime), (7, 4, 8, 2, 1));
    assert_eq!((vm.name.as_str(), vm.status.as_str(), vm.is_template), ("n", "stopped", false));
    assert_eq!(f64::from_bits(vm.cpu_bits), 0.25);
    assert_eq!(f64::from_bits(vm.maxcpu_bits), 2.0);
    for flag in [TemplateFlag::Int(1), TemplateFlag::Bool(true), TemplateFlag::Text("1".into())] {
        let vm = Vm::from(row(7, "qemu", Some(flag)));
        assert!(vm.is_template);
        assert_eq!(vm.status, "template");
    }
    for flag in [
        TemplateFlag::Int(0),
        TemplateFlag::Bool(false),
        TemplateFlag::Text("yes".into()),
        TemplateFlag::Other,
    ] {
        assert!(!Vm::from(row(7, "qemu", Some(flag))).is_template);
    }
}

#[test]
fn an_empty_row_is_an_unknown_vm() {
    let vm = Vm::from(Resource {
        vmid: None,
        name: None,
        status: None,
        maxmem: None,
        mem: None,
        maxdisk: None,
        maxcpu_bits: None,
        cpu_bits: None,
        uptime: None,
        template: None,
        rtype: None,
    });
    assert_eq!((vm.vmid, vm.name.as_str(), vm.status.as_str()), (0, "", "unknown"));
    assert_eq!(f64::from_bits(vm.cpu_bits), 0.0);
}

#[test]
fn the_list_holds_vms_alone_in_the_order_of_their_ids() {
    let mut second = row(100, "qemu", None);
    second.name = Some("second".into());
    let rows = vec![row(300, "qemu", None), row(50, "lxc", None), row(100, "qemu", None), second];
    let vms = vms_from(rows);
    let ids: Vec<u32> = vms.iter().map(|v| v.vmid).collect();
    assert_eq!(ids, vec![100, 100, 300]);
    // Equal ids keep their order.
    assert_eq!(vms[0].name, "n");
    assert_eq!(vms[1].name, "second");
}

#[test]
fn uptimes_are_compact() {
    let mut vm = Vm::from(row(1, "qemu", None));
    for (s, want) in [
        (0, "—"),
        (59, "0m"),
        (60, "1m"),
        (3599, "59m"),
        (3600, "1h0m"),
        (7740, "2h9m"),
        (86399, "23h59m"),
        (86400, "1d0h"),
        (273600, "3d4h"),
    ] {
        vm.uptime = s;
        assert_eq!(vm.uptime_human(), want);
    }
}

#[test]
fn sizes_of_a_vm() {
    let mut vm = Vm::from(row(1, "qemu", None));
    vm.mem = 3 << 29;
    vm.maxmem = 4 << 30;
    vm.maxdisk = 0;
    assert_eq!(vm.mem_used_human(), "1.5 GiB");
    assert_eq!(vm.mem_total_human(), "4.0 GiB");
    assert_eq!(vm.disk_human(), "—");
    assert!(!vm.is_running());
    vm.status = "running".into();
    assert!(vm.is_running());
}

#[test]
fn no_addresses_are_the_default() {
    let ips = GuestIps::default();
    assert_eq!((ips.lan, ips.tailscale), (None, None));
}
