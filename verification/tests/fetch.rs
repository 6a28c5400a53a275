//! What is asked of the node in the background.
use mox::dashboard::{ActionKind, Req, Update};
use mox::fetch::{Event, News, Stage, Work};
use mox::model::GuestIps;
use mox::node::CreateSpec;

fn spec(start: bool, tailscale: bool) -> CreateSpec {
    CreateSpec {
        name: "web-01".into(),
        vmid: None,
        cores: 4,
        memory: 8192,
        disk: 40,
        ip: "dhcp".into(),
        gateway: None,
        nameserver: None,
        ci_user: "ubuntu".into(),
        ssh_pubkey: "ssh-ed25519 AAAA".into(),
        full_clone: true,
        start,
        tags: None,
        tailscale,
    }
}

fn waiting() -> Stage {
    let (s, news) = Stage::new().after(Event::Vms(Ok(vec![])));
    assert_eq!(news.len(), 1);
    assert!(news[0].required && matches!(news[0].update, Update::Vms(_)));
    assert_eq!(s.work(120), Work::Receive(3));
    s
}

fn silent(r: (Stage, Vec<News>)) -> Stage {
    assert!(r.1.is_empty());
    r.0
}

#[test]
fn the_list_is_fetched_on_request_and_after_a_while() {
    assert_eq!(Stage::new().work(120), Work::ListVms);
    let s = silent(waiting().after(Event::Request(Req::Refresh)));
    assert_eq!(s.work(120), Work::ListVms);
    let s = silent(waiting().after(Event::Timeout));
    let (s, news) = s.after(Event::Vms(Err("down".into())));
    assert!(matches!(&news[0].update, Update::Error(e) if e == "down"));
    assert_eq!(s.work(120), Work::Receive(3));
    let s = silent(s.after(Event::Gone));
    assert_eq!(s.work(120), Work::Stop);
}

#[test]
fn lookups_are_answered() {
    let s = silent(waiting().after(Event::Request(Req::Ips(7))));
    assert_eq!(s.work(120), Work::LookUpIps(7));
    let (_, news) = s.after(Event::Ips(Err("x".into())));
    assert!(matches!(&news[0].update, Update::Ips { vmid: 7, result: Err(e) } if e == "x"));
    let s = silent(waiting().after(Event::Request(Req::NextId)));
    assert_eq!(s.work(120), Work::LookUpNextId);
    let (s, news) = s.after(Event::NextId(Ok(142)));
    assert!(matches!(news[0].update, Update::NextId(142)));
    // A hint that cannot be had is left out.
    let s = silent(s.after(Event::Request(Req::NextId)));
    silent(s.after(Event::NextId(Err("x".into()))));
}

#[test]
fn an_action_is_told_and_followed_by_the_list() {
    let s = silent(waiting().after(Event::Request(Req::Action { vmid: 7, kind: ActionKind::Stop })));
    assert_eq!(s.work(120), Work::Act { vmid: 7, kind: ActionKind::Stop });
    let (s, news) = s.after(Event::Acted(Ok(())));
    assert!(matches!(news[0].update, Update::ActionDone { kind: ActionKind::Stop, result: Ok(()) }));
    assert_eq!(s.work(120), Work::ListVms);
}

#[test]
fn a_started_tailnet_vm_is_waited_for_and_entered() {
    let s = silent(waiting().after(Event::Request(Req::Create(spec(true, true)))));
    assert_eq!(s.work(120), Work::Create);
    assert_eq!(s.new_vm().unwrap().name, "web-01");
    let s = silent(s.after(Event::Created(Ok(142))));
    assert_eq!(s.work(120), Work::ListVms);
    let (s, news) = s.after(Event::Vms(Ok(vec![])));
    assert!(!news[0].required);
    assert_eq!(s.work(90), Work::WaitForIps { vmid: 142, want_tailscale: true, seconds: 90 });
    let ips = GuestIps { lan: Some("10.0.0.2".into()), tailscale: None };
    let s = silent(s.after(Event::Waited(ips)));
    assert_eq!(s.work(120), Work::WriteEntry);
    let (s, news) = s.after(Event::Written(Some("web-01.t.net".into())));
    match &news[0].update {
        Update::CreateDone(Ok(o)) => {
            assert_eq!((o.vmid, o.name.as_str(), o.user.as_str(), o.started), (142, "web-01", "ubuntu", true));
            assert_eq!(o.ips.lan.as_deref(), Some("10.0.0.2"));
            assert_eq!(o.ssh_alias.as_deref(), Some("web-01.t.net"));
        }
        _ => panic!("expected the outcome"),
    }
    assert_eq!(s.work(120), Work::ListVms);
    // The last list is left out where it cannot be had.
    let s = silent(s.after(Event::Vms(Err("x".into()))));
    assert_eq!(s.work(120), Work::Receive(3));
}

#[test]
fn a_vm_that_is_not_started_is_told_at_once() {
    let s = silent(waiting().after(Event::Request(Req::Create(spec(false, true)))));
    let s = silent(s.after(Event::Created(Ok(5))));
    let (s, news) = s.after(Event::Vms(Ok(vec![])));
    assert_eq!(news.len(), 2);
    assert!(!news[0].required && news[1].required);
    match &news[1].update {
        Update::CreateDone(Ok(o)) => assert!(!o.started && o.ips.lan.is_none() && o.ssh_alias.is_none()),
        _ => panic!("expected the outcome"),
    }
    assert_eq!(s.work(120), Work::ListVms);
}

#[test]
fn a_vm_outside_a_tailnet_gets_no_entry() {
    let s = silent(waiting().after(Event::Request(Req::Create(spec(true, false)))));
    let s = silent(s.after(Event::Created(Ok(5))));
    let (s, _) = s.after(Event::Vms(Err("x".into())));
    assert_eq!(s.work(1), Work::WaitForIps { vmid: 5, want_tailscale: false, seconds: 1 });
    let (_, news) = s.after(Event::Waited(GuestIps { lan: None, tailscale: None }));
    assert!(matches!(&news[0].update, Update::CreateDone(Ok(o)) if o.ssh_alias.is_none()));
}

#[test]
fn a_failed_creation_is_told() {
    let s = silent(waiting().after(Event::Request(Req::Create(spec(true, true)))));
    let (s, news) = s.after(Event::Created(Err("no space".into())));
    assert!(matches!(&news[0].update, Update::CreateDone(Err(e)) if e == "no space"));
    assert_eq!(s.work(120), Work::ListVms);
}

#[test]
fn what_was_not_asked_for_is_not_heeded() {
    let s = silent(waiting().after(Event::Created(Ok(5))));
    assert_eq!(s.work(120), Work::Receive(3));
}
