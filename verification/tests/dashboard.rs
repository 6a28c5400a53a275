//! The dashboard: its state, and what it looks like on a terminal.
use mox::config::Config;
use mox::dashboard::{
    short_reason, ActionKind, App, Confirm, CreateOutcome, DetailView, FieldKind, FormState, IpState, Key,
    KeyOutcome, Req, Update,
};
use mox::layout::{centered_rect, regions, Area};
use mox::model::{GuestIps, Vm};
use mox::screen::{
    render_footer, render_header, render_overlay, table_frame, vm_row, Color, Figures, Gauge, Level, Line,
    Style, Width,
};
use ratatui::backend::TestBackend;
use ratatui::layout::{Constraint, Rect};
use ratatui::widgets::{Block, Borders, Clear, Paragraph, Row, Table, TableState};
use ratatui::Terminal;

fn test_config() -> Config {
    Config {
        host: "10.0.0.1".into(),
        user: "root".into(),
        port: 22,
        identity_file: None,
        template_id: 9000,
        bridge: "vmbr0".into(),
        template_name: "ubuntu-2404-cloudinit".into(),
        image_url: "https://example.com/img.img".into(),
        storage: "local-lvm".into(),
        cpu_type: "host".into(),
        template_packages: String::new(),
        default_cores: 2,
        default_memory: 4096,
        default_disk: 20,
        default_full_clone: false,
        ci_user: "ubuntu".into(),
        tailscale_default: false,
        tailscale_authkey: None,
        tailnet_domain: None,
        ip_timeout: 120,
        vm_subnet: None,
    }
}

fn sample_vm(id: u32, name: &str, status: &str, cpu: f64, mem: f64, up: u64, tmpl: bool) -> Vm {
    Vm {
        vmid: id,
        name: name.to_string(),
        status: status.to_string(),
        is_template: tmpl,
        mem: mem as u64,
        maxmem: 100,
        maxdisk: 20 * 1024 * 1024 * 1024,
        cpu_bits: (cpu / 100.0).to_bits(),
        maxcpu_bits: 2.0f64.to_bits(),
        uptime: up,
    }
}

fn app_with(vms: Vec<Vm>) -> App {
    let mut app = App::new(test_config());
    app.selected = if vms.is_empty() { None } else { Some(0) };
    app.vms = vms;
    app.last_update = Some(0);
    app.loading = false;
    app
}

fn cpu_pct(vm: &Vm) -> f64 {
    f64::from_bits(vm.cpu_bits) * 100.0
}

fn mem_pct(vm: &Vm) -> f64 {
    vm.mem as f64 / vm.maxmem as f64 * 100.0
}

fn gauge(pct: f64) -> Gauge {
    let p = pct.clamp(0.0, 100.0);
    let level = if p < 60.0 {
        Level::Low
    } else if p < 85.0 {
        Level::Raised
    } else {
        Level::High
    };
    Gauge { filled: ((p / 100.0) * 8.0).round() as usize, level, percent: format!("{p:.0}") }
}

fn figures(app: &App) -> Figures {
    match app.detail_vm() {
        Some(v) => Figures {
            cpus: f64::from_bits(v.maxcpu_bits) as u64,
            cpu_percent: format!("{:.0}", cpu_pct(v)),
            mem_percent: format!("{:.0}", mem_pct(v)),
        },
        None => Figures { cpus: 0, cpu_percent: String::new(), mem_percent: String::new() },
    }
}

fn style(s: Style) -> ratatui::style::Style {
    let color = |c: Color| match c {
        Color::Black => ratatui::style::Color::Black,
        Color::Red => ratatui::style::Color::Red,
        Color::Green => ratatui::style::Color::Green,
        Color::Yellow => ratatui::style::Color::Yellow,
        Color::Blue => ratatui::style::Color::Blue,
        Color::Cyan => ratatui::style::Color::Cyan,
        Color::Gray => ratatui::style::Color::Gray,
        Color::DarkGray => ratatui::style::Color::DarkGray,
        Color::White => ratatui::style::Color::White,
    };
    let mut out = ratatui::style::Style::new();
    out.fg = s.fg.map(color);
    out.bg = s.bg.map(color);
    if s.bold {
        out = out.add_modifier(ratatui::style::Modifier::BOLD);
    }
    out
}

fn line(l: &Line) -> ratatui::text::Line<'static> {
    let spans: Vec<ratatui::text::Span<'static>> =
        l.iter().map(|s| ratatui::text::Span::styled(s.text.clone(), style(s.style))).collect();
    ratatui::text::Line::from(spans)
}

fn rect(a: Area) -> Rect {
    Rect { x: a.x, y: a.y, width: a.width, height: a.height }
}

fn buffer_text(app: &App, w: u16, h: u16) -> String {
    let mut terminal = Terminal::new(TestBackend::new(w, h)).unwrap();
    terminal
        .draw(|f| {
            let r = regions(Area { x: 0, y: 0, width: w, height: h });
            f.render_widget(Paragraph::new(line(&render_header(app, 0))), rect(r.header));
            let rows: Vec<Row> = app
                .vms
                .iter()
                .map(|v| {
                    let cells = vm_row(v, &gauge(cpu_pct(v)), &gauge(mem_pct(v)));
                    Row::new(cells.iter().map(line).collect::<Vec<_>>())
                })
                .collect();
            let frame = table_frame();
            let widths: Vec<Constraint> = frame
                .columns
                .iter()
                .map(|c| match c.width {
                    Width::Exactly(n) => Constraint::Length(n),
                    Width::AtLeast(n) => Constraint::Min(n),
                })
                .collect();
            let table = Table::new(rows, widths)
                .header(Row::new(frame.columns.iter().map(|c| c.title.clone())))
                .block(Block::default().borders(Borders::ALL).title(frame.title))
                .highlight_symbol(frame.mark);
            let mut state = TableState::default().with_selected(app.selected);
            f.render_stateful_widget(table, rect(r.table), &mut state);
            f.render_widget(Paragraph::new(line(&render_footer(app))), rect(r.footer));
            if let Some(p) = render_overlay(app, &figures(app), r.table.height) {
                let area = rect(centered_rect(r.table, p.width, p.height));
                let title = ratatui::text::Span::styled(p.title.text.clone(), style(p.title.style));
                let lines: Vec<_> = p.lines.iter().map(line).collect();
                f.render_widget(Clear, area);
                f.render_widget(
                    Paragraph::new(lines).block(Block::default().borders(Borders::ALL).title(title)),
                    area,
                );
            }
        })
        .unwrap();
    let buf = terminal.backend().buffer();
    let area = *buf.area();
    let mut out = String::new();
    for y in 0..area.height {
        for x in 0..area.width {
            out.push_str(buf[(x, y)].symbol());
        }
        out.push('\n');
    }
    out
}

#[test]
fn renders_dashboard() {
    let app = app_with(vec![
        sample_vm(100, "web-01", "running", 5.0, 37.0, 5940, false),
        sample_vm(101, "db-01", "running", 1.0, 36.0, 1260, false),
        sample_vm(9000, "ubuntu-2404-cloudinit", "template", 0.0, 0.0, 0, true),
    ]);
    let out = buffer_text(&app, 78, 10);
    println!("\n{out}");

    assert!(out.contains("mox"));
    assert!(out.contains("web-01"));
    assert!(out.contains("template"));
    assert!(out.contains('%'));
    // Templates are not counted among the VMs.
    assert!(out.contains("2 VMs"));
    assert!(out.contains("███░░░░░  37%"));
    assert!(out.contains("1h39m"));
}

#[test]
fn renders_detail_overlay() {
    let mut app = app_with(vec![sample_vm(100, "web-01", "running", 5.0, 37.0, 5940, false)]);
    app.detail = Some(DetailView {
        vmid: 100,
        ips: IpState::Loaded(GuestIps {
            lan: Some("192.168.3.42".into()),
            tailscale: Some("100.101.102.103".into()),
        }),
    });

    let out = buffer_text(&app, 78, 16);
    println!("\n{out}");
    assert!(out.contains("web-01 (100)"));
    assert!(out.contains("CPU"));
    assert!(out.contains("Disk"));
    assert!(out.contains("192.168.3.42"), "LAN IP should show");
    assert!(out.contains("100.101.102.103"), "Tailscale IP should show");
    assert!(out.contains("Esc"), "footer should offer back");
    assert!(out.contains("2 vCPU  ·  5% used"));
}

#[test]
fn renders_destroy_confirm() {
    let mut app = app_with(vec![sample_vm(101, "db-01", "running", 1.0, 36.0, 1260, false)]);
    app.confirm =
        Some(Confirm { kind: ActionKind::Destroy, vmid: 101, name: "db-01".into(), running: false });

    let out = buffer_text(&app, 78, 16);
    println!("\n{out}");
    assert!(out.contains("destroy db-01 (101)"), "prompt should name the action + VM");
    assert!(out.contains("Irreversible"), "destroy should warn");
    assert!(out.contains("confirm"), "footer/body should offer confirm");
}

fn app_with_form() -> App {
    let mut app = app_with(vec![]);
    app.open_form();
    app
}

#[test]
fn renders_create_form() {
    let app = app_with_form();
    let out = buffer_text(&app, 78, 20);
    println!("\n{out}");
    assert!(out.contains("create vm"));
    assert!(out.contains("Name"));
    assert!(out.contains("Cores"));
    assert!(out.contains("Tailscale"));
    assert!(out.contains("create"), "footer should offer create");
}

#[test]
fn form_shows_next_id_hint() {
    let mut app = app_with_form();
    app.form.as_mut().unwrap().next_id = Some(142);
    let out = buffer_text(&app, 78, 20);
    assert!(
        out.contains("next available: 142"),
        "VM ID field should hint the resolved next id"
    );
}

#[test]
fn form_editing_rules() {
    let mut app = app_with_form();
    // Focus "Cores" (index 2): digits accepted, letters ignored.
    app.form.as_mut().unwrap().focus = 2;
    app.form_char('9');
    app.form_char('a');
    assert_eq!(App::field_value(app.form.as_ref().unwrap(), "Cores"), "29");
    // Focus the Tailscale toggle (last field) and flip it on.
    let last = app.form.as_ref().unwrap().fields.len() - 1;
    app.form.as_mut().unwrap().focus = last;
    assert!(!App::field_on(app.form.as_ref().unwrap(), "Join Tailscale"));
    app.form_char(' ');
    assert!(App::field_on(app.form.as_ref().unwrap(), "Join Tailscale"));
    // Navigation wraps.
    app.form.as_mut().unwrap().focus = 0;
    app.form_move(-1);
    assert_eq!(app.form.as_ref().unwrap().focus, last);
}

fn no_key() -> Result<String, String> {
    Err("No such file or directory (os error 2)".into())
}

#[test]
fn submit_requires_name() {
    let mut app = app_with_form();
    // Name is empty by default → submit should refuse with a message.
    app.submit_form(&no_key());
    match &app.form.as_ref().unwrap().state {
        FormState::Editing(Some(msg)) => assert!(msg.contains("Name")),
        _ => panic!("expected a validation error about Name"),
    }
}

#[test]
fn begin_action_blocks_start_on_template() {
    let mut app = app_with(vec![sample_vm(9000, "tmpl", "template", 0.0, 0.0, 0, true)]);
    app.begin_action(ActionKind::Start);
    assert!(app.confirm.is_none(), "start must be refused on a template");
    app.begin_action(ActionKind::Destroy);
    assert!(app.confirm.is_some(), "destroy is allowed on a template");
}

fn type_text(app: &mut App, text: &str) {
    for c in text.chars() {
        assert_eq!(app.handle_key(Key::Char(c)), KeyOutcome::Stay);
    }
}

fn message(app: &App) -> String {
    match &app.form.as_ref().unwrap().state {
        FormState::Editing(Some(m)) => m.clone(),
        _ => panic!("expected a message"),
    }
}

fn set(app: &mut App, label: &str, value: &str) {
    let f = app.form.as_mut().unwrap();
    for field in f.fields.iter_mut() {
        if field.label == label {
            field.value = value.into();
        }
    }
}

#[test]
fn a_named_form_asks_for_a_vm_with_the_defaults() {
    let mut app = app_with_form();
    app.cfg.identity_file = Some("/k".into());
    type_text(&mut app, " web-01 ");
    assert_eq!(app.handle_key(Key::Enter), KeyOutcome::Submit);
    assert_eq!(app.pubkey_path().as_deref(), Some("/k.pub"));
    app.submit_form(&Ok("ssh-ed25519 AAAA\n".into()));
    assert!(matches!(app.form.as_ref().unwrap().state, FormState::Submitting));
    let asked = app.take_requests();
    assert!(matches!(asked[0], Req::NextId));
    match &asked[1] {
        Req::Create(s) => {
            assert_eq!(s.name, "web-01");
            assert_eq!(s.vmid, None);
            assert_eq!((s.cores, s.memory, s.disk), (2, 4096, 20));
            assert_eq!((s.ip.as_str(), s.ci_user.as_str()), ("dhcp", "ubuntu"));
            assert_eq!(s.ssh_pubkey, "ssh-ed25519 AAAA\n");
            assert!(!s.full_clone && s.start && !s.tailscale);
            assert!(s.gateway.is_none() && s.nameserver.is_none() && s.tags.is_none());
        }
        _ => panic!("expected a request for a VM"),
    }
    assert!(app.take_requests().is_empty());
    // Nothing is heeded until the answer comes.
    assert_eq!(app.handle_key(Key::Esc), KeyOutcome::Stay);
    assert!(app.form.is_some());
}

#[test]
fn every_fault_of_a_form_is_named() {
    let mut app = app_with_form();
    set(&mut app, "Name", "n");
    set(&mut app, "VM ID", "x");
    app.submit_form(&no_key());
    assert_eq!(message(&app), "VM ID must be a number");
    set(&mut app, "VM ID", "142");
    set(&mut app, "Cores", "");
    app.submit_form(&no_key());
    assert_eq!(message(&app), "Cores must be a number");
    set(&mut app, "Cores", "4");
    set(&mut app, "Memory (MB)", "4294967296");
    app.submit_form(&no_key());
    assert_eq!(message(&app), "Memory (MB) must be a number");
    set(&mut app, "Memory (MB)", "1");
    set(&mut app, "Disk (GB)", "-1");
    app.submit_form(&no_key());
    assert_eq!(message(&app), "Disk (GB) must be a number");
    set(&mut app, "Disk (GB)", "1");
    set(&mut app, "IP", "  ");
    app.submit_form(&no_key());
    assert_eq!(message(&app), "IP is required (dhcp or a CIDR)");
    set(&mut app, "IP", "10.0.0.5/24");
    set(&mut app, "Join Tailscale", "yes");
    app.submit_form(&no_key());
    assert_eq!(message(&app), "Join Tailscale needs PVE_TAILSCALE_AUTHKEY in the config");
    app.cfg.tailscale_authkey = Some("k".into());
    app.submit_form(&no_key());
    assert_eq!(message(&app), "no SSH identity configured (set PVE_IDENTITY_FILE)");
    app.cfg.identity_file = Some("/k".into());
    app.submit_form(&no_key());
    assert_eq!(
        message(&app),
        "cannot read SSH public key /k.pub: No such file or directory (os error 2)"
    );
    set(&mut app, "User", " ");
    set(&mut app, "Gateway", "10.0.0.1");
    set(&mut app, "Tags", "a;b");
    app.take_requests();
    app.submit_form(&Ok("key".into()));
    match &app.take_requests()[0] {
        Req::Create(s) => {
            assert_eq!(s.vmid, Some(142));
            assert_eq!(s.ci_user, "ubuntu");
            assert_eq!(s.gateway.as_deref(), Some("10.0.0.1"));
            assert_eq!(s.tags.as_deref(), Some("a;b"));
            assert!(s.tailscale);
        }
        _ => panic!("expected a request for a VM"),
    }
}

#[test]
fn keys_of_the_form() {
    let mut app = app_with_form();
    type_text(&mut app, "ab");
    app.handle_key(Key::Backspace);
    assert_eq!(app.form.as_ref().unwrap().fields[0].value, "a");
    app.handle_key(Key::Backspace);
    app.handle_key(Key::Backspace);
    assert_eq!(app.form.as_ref().unwrap().fields[0].value, "");
    app.handle_key(Key::Down);
    app.handle_key(Key::Tab);
    assert_eq!(app.form.as_ref().unwrap().focus, 2);
    app.handle_key(Key::Up);
    app.handle_key(Key::BackTab);
    app.handle_key(Key::Up);
    let f = app.form.as_ref().unwrap();
    assert_eq!(f.focus, 12);
    assert_eq!(f.fields[12].kind, FieldKind::Bool);
    app.handle_key(Key::Left);
    assert!(app.form.as_ref().unwrap().fields[12].is_on());
    app.handle_key(Key::Right);
    assert!(!app.form.as_ref().unwrap().fields[12].is_on());
    app.handle_key(Key::Char('y'));
    assert!(app.form.as_ref().unwrap().fields[12].is_on());
    app.handle_key(Key::Backspace);
    app.handle_key(Key::Char('x'));
    assert!(app.form.as_ref().unwrap().fields[12].is_on());
    app.handle_key(Key::Char('n'));
    assert!(!app.form.as_ref().unwrap().fields[12].is_on());
    app.handle_key(Key::Other);
    app.handle_key(Key::Esc);
    assert!(app.form.is_none());
}

#[test]
fn the_focus_moves_round_by_any_distance() {
    let mut app = app_with_form();
    for (d, want) in [(0, 0), (13, 0), (1, 1), (-27, 0), (isize::MAX, (isize::MAX % 13) as usize)] {
        app.form_move(d);
        assert_eq!(app.form.as_ref().unwrap().focus, want, "{d}");
    }
    app.form.as_mut().unwrap().focus = 0;
    app.form_move(isize::MIN);
    assert_eq!(app.form.as_ref().unwrap().focus as isize, isize::MIN.rem_euclid(13));
}

#[test]
fn an_action_is_asked_for_once() {
    let mut app = app_with(vec![sample_vm(7, "a", "stopped", 0.0, 0.0, 0, false)]);
    app.handle_key(Key::Char('s'));
    assert!(app.take_requests().is_empty());
    app.handle_key(Key::Char('y'));
    app.handle_key(Key::Char('y'));
    app.handle_key(Key::Enter);
    let asked = app.take_requests();
    assert_eq!(asked.len(), 1);
    assert!(matches!(asked[0], Req::Action { vmid: 7, kind: ActionKind::Start }));
    // While it is being done, it cannot be called off.
    app.handle_key(Key::Esc);
    assert!(app.confirm.as_ref().unwrap().running);
    assert!(buffer_text(&app, 78, 16).contains("starting a (7)…"));
    app.apply_update(
        Update::ActionDone { kind: ActionKind::Start, result: Err("remote command failed: busy\nmore".into()) },
        5,
    );
    assert!(app.confirm.is_none());
    assert_eq!(app.error.as_deref(), Some("start failed: busy"));
    assert!(buffer_text(&app, 78, 16).contains(" error: start failed: busy "));
    app.apply_update(Update::ActionDone { kind: ActionKind::Stop, result: Ok(()) }, 5);
    assert_eq!(app.error, None);
}

#[test]
fn a_question_can_be_declined() {
    let mut app = app_with(vec![sample_vm(7, "a", "running", 0.0, 0.0, 0, false)]);
    for no in [Key::Char('n'), Key::Esc] {
        app.handle_key(Key::Char('x'));
        assert_eq!(app.confirm.as_ref().unwrap().kind, ActionKind::Stop);
        assert_eq!(app.handle_key(Key::Char('q')), KeyOutcome::Stay);
        app.handle_key(no);
        assert!(app.confirm.is_none());
    }
    assert!(app.take_requests().is_empty());
}

#[test]
fn the_selection_wraps_and_survives_refreshes() {
    let vm = |id| sample_vm(id, "a", "running", 0.0, 0.0, 0, false);
    let mut app = app_with(vec![]);
    app.handle_key(Key::Down);
    assert_eq!(app.selected, None);
    app.apply_update(Update::Vms(vec![vm(1), vm(2), vm(3)]), 9);
    assert_eq!(app.selected, Some(0));
    assert_eq!(app.last_update, Some(9));
    app.handle_key(Key::Up);
    assert_eq!(app.selected, Some(2));
    app.handle_key(Key::Char('j'));
    assert_eq!(app.selected, Some(0));
    app.handle_key(Key::Char('k'));
    app.apply_update(Update::Vms(vec![vm(1), vm(2)]), 10);
    assert_eq!(app.selected, Some(1));
    app.apply_update(Update::Vms(vec![]), 11);
    assert_eq!(app.selected, None);
    app.apply_update(Update::Error("down".into()), 12);
    assert_eq!(app.error.as_deref(), Some("down"));
    assert_eq!(app.last_update, Some(11));
}

#[test]
fn details_ask_for_addresses_of_running_vms() {
    let mut app = app_with(vec![
        sample_vm(1, "a", "running", 0.0, 0.0, 0, false),
        sample_vm(2, "b", "stopped", 0.0, 0.0, 0, false),
    ]);
    app.handle_key(Key::Enter);
    assert!(matches!(app.take_requests()[0], Req::Ips(1)));
    assert!(buffer_text(&app, 78, 16).contains("resolving…"));
    // Addresses of another VM are not shown.
    app.apply_update(Update::Ips { vmid: 2, result: Err("x".into()) }, 0);
    assert!(matches!(app.detail.as_ref().unwrap().ips, IpState::Loading));
    app.apply_update(Update::Ips { vmid: 1, result: Err("remote command failed: no agent".into()) }, 0);
    assert!(buffer_text(&app, 78, 16).contains("— (no agent)"));
    app.handle_key(Key::Char('r'));
    let asked = app.take_requests();
    assert!(matches!(asked[0], Req::Refresh));
    assert!(matches!(asked[1], Req::Ips(1)));
    assert!(app.loading);
    // The VM goes, its details stay.
    app.apply_update(Update::Vms(vec![]), 0);
    let out = buffer_text(&app, 78, 16);
    assert!(out.contains(" vm 1 ") && out.contains("(vm no longer present)"));
    app.handle_key(Key::Esc);
    assert!(app.detail.is_none());
    app.apply_update(Update::Vms(vec![sample_vm(2, "b", "stopped", 0.0, 0.0, 0, false)]), 0);
    app.handle_key(Key::Enter);
    assert!(app.take_requests().is_empty());
    assert!(buffer_text(&app, 78, 16).contains("— (VM not running)"));
    app.handle_key(Key::Char('r'));
    assert_eq!(app.take_requests().len(), 1);
    assert_eq!(app.handle_key(Key::Char('q')), KeyOutcome::Quit);
}

#[test]
fn a_new_vm_is_shown_with_how_to_reach_it() {
    let mut app = app_with_form();
    app.apply_update(Update::NextId(142), 0);
    assert_eq!(app.form.as_ref().unwrap().next_id, Some(142));
    app.apply_update(Update::CreateDone(Err("remote script failed: x".into())), 0);
    assert_eq!(message(&app), "remote script failed: x");
    assert!(buffer_text(&app, 78, 24).contains("⚠ remote script failed: x"));
    app.apply_update(
        Update::CreateDone(Ok(CreateOutcome {
            vmid: 142,
            name: "web-01".into(),
            user: "ubuntu".into(),
            started: true,
            ips: GuestIps { lan: Some("10.0.0.2".into()), tailscale: None },
            ssh_alias: Some("web-01.t.net".into()),
        })),
        0,
    );
    let out = buffer_text(&app, 78, 20);
    assert!(out.contains("✓ created web-01 (142)"));
    assert!(out.contains("ssh ubuntu@10.0.0.2"));
    assert!(out.contains("  ssh web-01 "));
    assert!(out.contains("any key"));
    app.handle_key(Key::Char('c'));
    assert!(app.form.is_none());
    assert_eq!(app.handle_key(Key::Esc), KeyOutcome::Quit);
}

#[test]
fn reasons_are_short() {
    assert_eq!(short_reason("remote command failed: no such VM\nx"), "no such VM");
    assert_eq!(short_reason(""), "");
    assert_eq!(short_reason("  a  "), "a");
    let long = "123456789012345678901234567890";
    assert_eq!(short_reason(long), long);
    assert_eq!(short_reason(&format!("{long}1")), "12345678901234567890123456789…");
}

#[test]
fn the_header_tells_how_fresh_the_list_is() {
    let text = |l: Line| l.iter().map(|s| s.text.as_str()).collect::<String>();
    let mut app = App::new(test_config());
    assert_eq!(text(render_header(&app, 0)), " ☾ mox   node 10.0.0.1   0 VMs  ·  ↻ refreshing");
    app.loading = false;
    assert!(text(render_header(&app, 0)).ends_with("  ·  —"));
    app.last_update = Some(1_000_000_000);
    assert!(text(render_header(&app, 3_999_999_999)).ends_with("updated 2s ago"));
    assert!(text(render_header(&app, 0)).ends_with("updated 0s ago"));
}

#[test]
fn gauges_are_colored_by_load() {
    let vm = sample_vm(1, "a", "running", 0.0, 0.0, 0, false);
    for (pct, bar, color, text) in [
        (0.0, "░░░░░░░░", Color::Green, "   0%"),
        (59.9, "█████░░░", Color::Green, "  60%"),
        (60.0, "█████░░░", Color::Yellow, "  60%"),
        (85.0, "███████░", Color::Red, "  85%"),
        (250.0, "████████", Color::Red, " 100%"),
    ] {
        let cell = &vm_row(&vm, &gauge(pct), &gauge(0.0))[3];
        assert_eq!(cell[0].text, bar);
        assert_eq!(cell[0].style.fg, Some(color));
        assert_eq!(cell[1].text, text);
    }
    let off = sample_vm(1, "a", "stopped", 0.0, 0.0, 0, false);
    assert_eq!(vm_row(&off, &gauge(50.0), &gauge(50.0))[3][0].text, "       —");
}

#[test]
fn the_table_has_six_columns() {
    let frame = table_frame();
    let columns: Vec<(&str, Width)> = frame.columns.iter().map(|c| (c.title.as_str(), c.width)).collect();
    assert_eq!(
        columns,
        vec![
            ("ID", Width::Exactly(5)),
            ("NAME", Width::AtLeast(14)),
            ("STATUS", Width::Exactly(12)),
            ("CPU", Width::Exactly(15)),
            ("MEM", Width::Exactly(15)),
            ("UPTIME", Width::Exactly(8)),
        ]
    );
    assert_eq!((frame.title.as_str(), frame.mark.as_str()), (" virtual machines ", "▶ "));
    assert_eq!((frame.heading.fg, frame.heading.bold), (Some(Color::Gray), true));
    let vm = sample_vm(1, "a", "running", 0.0, 0.0, 0, false);
    assert_eq!(vm_row(&vm, &gauge(0.0), &gauge(0.0)).len(), frame.columns.len());
}
