//! What the dashboard shows: lines of styled text.
use vstd::prelude::*;

use crate::dashboard::{
    ActionKind, App, AppView, ConfirmView, CreateForm, CreateFormView, CreateOutcome,
    CreateOutcomeView, Detail, Field, FieldKind, FieldView, FormState, FormStateView, IpState,
    IpStateView,
};
use crate::model::{uptime_text, vm_views, Vm, VmView};
use crate::number::{decimal, gib_text, uint_text};
use crate::text::{opt_text, pad_left, pad_right, padded_left, padded_right, same_text};

verus! {

// ---------------------------------------------------------------------------------------------
// Styled text.
#[derive(Debug, Clone, Copy, PartialEq, Eq, Structural)]
pub enum Color {
    Black,
    Red,
    Green,
    Yellow,
    Blue,
    Cyan,
    Gray,
    DarkGray,
    White,
}

/// How a piece of text looks. Where a color is missing, it is the terminal's own.
#[derive(Debug, Clone, Copy, PartialEq, Eq)]
pub struct Style {
    pub fg: Option<Color>,
    pub bg: Option<Color>,
    pub bold: bool,
}

pub open spec fn plain_style() -> Style {
    Style { fg: None, bg: None, bold: false }
}

pub open spec fn colored(c: Color) -> Style {
    Style { fg: Some(c), bg: None, bold: false }
}

pub open spec fn strong(c: Color) -> Style {
    Style { fg: Some(c), bg: None, bold: true }
}

/// A piece of text in one style.
#[derive(Debug, Clone, PartialEq, Eq)]
pub struct Span {
    pub text: String,
    pub style: Style,
}

#[verifier::ext_equal]
pub struct SpanView {
    pub text: Seq<char>,
    pub style: Style,
}

impl View for Span {
    type V = SpanView;

    open spec fn view(&self) -> SpanView {
        SpanView { text: self.text@, style: self.style }
    }
}

impl DeepView for Span {
    type V = SpanView;

    open spec fn deep_view(&self) -> SpanView {
        self@
    }
}

/// A line of text, in pieces.
pub type Line = Vec<Span>;

pub open spec fn raw(text: Seq<char>) -> SpanView {
    SpanView { text, style: plain_style() }
}

pub open spec fn styled(text: Seq<char>, style: Style) -> SpanView {
    SpanView { text, style }
}

fn raw_span(text: &str) -> (r: Span)
    ensures
        r@ == raw(text@),
{
    Span { text: text.to_owned(), style: Style { fg: None, bg: None, bold: false } }
}

fn colored_span(text: &str, c: Color) -> (r: Span)
    ensures
        r@ == styled(text@, colored(c)),
{
    Span { text: text.to_owned(), style: Style { fg: Some(c), bg: None, bold: false } }
}

fn strong_span(text: &str, c: Color) -> (r: Span)
    ensures
        r@ == styled(text@, strong(c)),
{
    Span { text: text.to_owned(), style: Style { fg: Some(c), bg: None, bold: true } }
}

fn line_of(s: Span) -> (r: Line)
    ensures
        r.deep_view() == seq![s@],
{
    let r: Line = vec![s];
    assert(r.deep_view() =~= seq![s@]);
    r
}

/// An empty line.
pub open spec fn blank() -> Seq<SpanView> {
    Seq::empty()
}

fn blank_line() -> (r: Line)
    ensures
        r.deep_view() == blank(),
{
    let r: Line = Vec::new();
    assert(r.deep_view() =~= blank());
    r
}

fn add_line(lines: &mut Vec<Line>, line: Line)
    ensures
        final(lines).deep_view() == old(lines).deep_view().push(line.deep_view()),
{
    let ghost before = lines.deep_view();
    lines.push(line);
    assert(lines.deep_view() =~= before.push(line.deep_view()));
}

// ---------------------------------------------------------------------------------------------
// The header and the footer.
/// How many of the VMs are no templates.
pub open spec fn vm_count(vms: Seq<VmView>) -> nat
    decreases vms.len(),
{
    if vms.len() == 0 {
        0
    } else if vms.last().is_template {
        vm_count(vms.drop_last())
    } else {
        vm_count(vms.drop_last()) + 1
    }
}

/// Whole seconds from one time to another, in nanoseconds; none where the second is the earlier.
pub open spec fn seconds_between(from: u64, to: u64) -> nat {
    if to <= from {
        0
    } else {
        ((to - from) / 1_000_000_000) as nat
    }
}

/// How fresh the list is, at the time `now`.
pub open spec fn freshness(a: AppView, now: u64) -> Seq<char> {
    if a.loading {
        "↻ refreshing"@
    } else {
        match a.last_update {
            Some(t) => "updated "@ + decimal(seconds_between(t, now)) + "s ago"@,
            None => "—"@,
        }
    }
}

/// The header, at the time `now`.
pub open spec fn header(a: AppView, now: u64) -> Seq<SpanView> {
    seq![
        styled(
            " ☾ mox "@,
            Style { fg: Some(Color::Black), bg: Some(Color::Cyan), bold: true },
        ),
        raw("  node "@ + a.cfg.host + "   "@),
        styled(decimal(vm_count(a.vms)) + " VMs"@, colored(Color::Gray)),
        raw("  ·  "@),
        styled(freshness(a, now), colored(Color::DarkGray)),
    ]
}

fn count_vms(vms: &Vec<Vm>) -> (r: usize)
    ensures
        r == vm_count(vm_views(vms@)),
{
    let ghost all = vm_views(vms@);
    let mut n: usize = 0;
    let mut i: usize = 0;
    assert(all.take(0) =~= Seq::<VmView>::empty());
    while i < vms.len()
        invariant
            n <= i <= vms@.len(),
            all == vm_views(vms@),
            n == vm_count(all.take(i as int)),
        decreases vms@.len() - i,
    {
        assert(all.take(i + 1).drop_last() =~= all.take(i as int));
        assert(all.take(i + 1).last() == vms@[i as int]@);
        if !vms[i].is_template {
            n = n + 1;
        }
        i = i + 1;
    }
    assert(all.take(i as int) =~= all);
    n
}

/// The header line, at the time `now`.
pub fn render_header(app: &App, now: u64) -> (r: Line)
    ensures
        r.deep_view() == header(app@, now),
{
    let status: String = if app.loading {
        "↻ refreshing".to_owned()
    } else {
        match app.last_update {
            Some(t) => {
                let s: u64 = if now <= t {
                    0
                } else {
                    (now - t) / 1_000_000_000
                };
                let mut m: String = "updated ".to_owned();
                m.append(uint_text(s).as_str());
                m.append("s ago");
                m
            },
            None => "—".to_owned(),
        }
    };
    let mut node: String = "  node ".to_owned();
    node.append(app.cfg.host.as_str());
    node.append("   ");
    let mut count: String = uint_text(count_vms(&app.vms) as u64);
    count.append(" VMs");
    let r: Line = vec![
        Span {
            text: " ☾ mox ".to_owned(),
            style: Style { fg: Some(Color::Black), bg: Some(Color::Cyan), bold: true },
        },
        raw_span(node.as_str()),
        colored_span(count.as_str(), Color::Gray),
        raw_span("  ·  "),
        colored_span(status.as_str(), Color::DarkGray),
    ];
    assert(r.deep_view() =~= header(app@, now));
    r
}

/// A key in the footer.
pub open spec fn key(k: Seq<char>) -> SpanView {
    styled(k, strong(Color::Cyan))
}

/// The footer: an error, or the keys that can be pressed.
pub open spec fn footer(a: AppView) -> Seq<SpanView> {
    match (a.error, a.form) {
        (Some(e), _) => seq![
            styled(
                " error: "@ + e + " "@,
                Style { fg: Some(Color::White), bg: Some(Color::Red), bold: false },
            ),
        ],
        (None, Some(f)) => match f.state {
            FormStateView::Editing(_) => seq![
                raw(" "@),
                key("↑/↓"@),
                raw(" field  "@),
                key("Enter"@),
                raw(" create  "@),
                key("Esc"@),
                raw(" cancel"@),
            ],
            FormStateView::Submitting => seq![styled(" creating…"@, colored(Color::Yellow))],
            FormStateView::Done(_) => seq![raw(" "@), key("any key"@), raw(" close"@)],
        },
        (None, None) => if a.confirm is Some {
            seq![raw(" "@), key("y"@), raw(" confirm   "@), key("n"@), raw(" cancel"@)]
        } else if a.detail is Some {
            seq![
                raw(" "@),
                key("Esc"@),
                raw(" back   "@),
                key("r"@),
                raw(" refresh   "@),
                key("q"@),
                raw(" quit"@),
            ]
        } else {
            seq![
                raw(" "@),
                key("↑/↓"@),
                raw(" move  "@),
                key("Enter"@),
                raw(" details  "@),
                key("s"@),
                raw("/"@),
                key("x"@),
                raw("/"@),
                key("d"@),
                raw(" start/stop/destroy  "@),
                key("c"@),
                raw(" new  "@),
                key("r"@),
                raw(" refresh  "@),
                key("q"@),
                raw(" quit"@),
            ]
        },
    }
}

fn key_span(k: &str) -> (r: Span)
    ensures
        r@ == key(k@),
{
    strong_span(k, Color::Cyan)
}

/// The footer line.
pub fn render_footer(app: &App) -> (r: Line)
    ensures
        r.deep_view() == footer(app@),
{
    if let Some(e) = &app.error {
        let mut m: String = " error: ".to_owned();
        m.append(e.as_str());
        m.append(" ");
        return line_of(
            Span {
                text: m,
                style: Style { fg: Some(Color::White), bg: Some(Color::Red), bold: false },
            },
        );
    }
    let r: Line = if let Some(form) = &app.form {
        match &form.state {
            FormState::Editing(_) => vec![
                raw_span(" "),
                key_span("↑/↓"),
                raw_span(" field  "),
                key_span("Enter"),
                raw_span(" create  "),
                key_span("Esc"),
                raw_span(" cancel"),
            ],
            FormState::Submitting => vec![colored_span(" creating…", Color::Yellow)],
            FormState::Done(_) => vec![raw_span(" "), key_span("any key"), raw_span(" close")],
        }
    } else if app.confirm.is_some() {
        vec![
            raw_span(" "),
            key_span("y"),
            raw_span(" confirm   "),
            key_span("n"),
            raw_span(" cancel"),
        ]
    } else if app.detail.is_some() {
        vec![
            raw_span(" "),
            key_span("Esc"),
            raw_span(" back   "),
            key_span("r"),
            raw_span(" refresh   "),
            key_span("q"),
            raw_span(" quit"),
        ]
    } else {
        vec![
            raw_span(" "),
            key_span("↑/↓"),
            raw_span(" move  "),
            key_span("Enter"),
            raw_span(" details  "),
            key_span("s"),
            raw_span("/"),
            key_span("x"),
            raw_span("/"),
            key_span("d"),
            raw_span(" start/stop/destroy  "),
            key_span("c"),
            raw_span(" new  "),
            key_span("r"),
            raw_span(" refresh  "),
            key_span("q"),
            raw_span(" quit"),
        ]
    };
    assert(r.deep_view() =~= footer(app@));
    r
}

// ---------------------------------------------------------------------------------------------
// The table.
/// The dot before a VM's status, and its color.
pub open spec fn dot_of(status: Seq<char>) -> (Seq<char>, Color) {
    if status == "running"@ {
        ("●"@, Color::Green)
    } else if status == "stopped"@ {
        ("○"@, Color::DarkGray)
    } else if status == "template"@ {
        ("◆"@, Color::Blue)
    } else {
        ("○"@, Color::Yellow)
    }
}

/// The dot before a VM's status, and its color.
pub fn status_dot(status: &str) -> (r: (&'static str, Color))
    ensures
        (r.0@, r.1) == dot_of(status@),
{
    if same_text(status, "running") {
        ("●", Color::Green)
    } else if same_text(status, "stopped") {
        ("○", Color::DarkGray)
    } else if same_text(status, "template") {
        ("◆", Color::Blue)
    } else {
        ("○", Color::Yellow)
    }
}

/// A VM's status behind its dot.
pub open spec fn status_line(status: Seq<char>) -> Seq<SpanView> {
    seq![styled(dot_of(status).0, colored(dot_of(status).1)), raw(" "@ + status)]
}

fn status_spans(status: &str) -> (r: Line)
    ensures
        r.deep_view() == status_line(status@),
{
    let (dot, color): (&'static str, Color) = status_dot(status);
    let mut text: String = " ".to_owned();
    text.append(status);
    let r: Line = vec![colored_span(dot, color), raw_span(text.as_str())];
    assert(r.deep_view() =~= status_line(status@));
    r
}

/// How high a load is.
#[derive(Debug, Clone, Copy, PartialEq, Eq, Structural)]
pub enum Level {
    Low,
    Raised,
    High,
}

/// A load in percent, as a gauge shows it.
#[derive(Debug, Clone)]
pub struct Gauge {
    /// How many of the eight cells are filled.
    pub filled: usize,
    pub level: Level,
    /// The percentage, rounded to an integer.
    pub percent: String,
}

#[verifier::ext_equal]
pub struct GaugeView {
    pub filled: nat,
    pub level: Level,
    pub percent: Seq<char>,
}

impl View for Gauge {
    type V = GaugeView;

    open spec fn view(&self) -> GaugeView {
        GaugeView { filled: self.filled as nat, level: self.level, percent: self.percent@ }
    }
}

/// The same character, `n` times.
pub open spec fn repeated(c: char, n: nat) -> Seq<char> {
    Seq::new(n, |i: int| c)
}

/// A bar of eight cells, of which the first `filled` are filled.
pub open spec fn bar(filled: nat) -> Seq<char> {
    let n: nat = if filled < 8 {
        filled
    } else {
        8
    };
    repeated('█', n) + repeated('░', (8 - n) as nat)
}

pub open spec fn level_color(l: Level) -> Color {
    match l {
        Level::Low => Color::Green,
        Level::Raised => Color::Yellow,
        Level::High => Color::Red,
    }
}

/// A gauge, colored by load; a dash where the VM does not run.
pub open spec fn gauge_line(g: GaugeView, active: bool) -> Seq<SpanView> {
    if active {
        seq![
            styled(bar(g.filled), colored(level_color(g.level))),
            raw(" "@ + padded_left(g.percent, 3) + "%"@),
        ]
    } else {
        seq![styled("       —"@, colored(Color::DarkGray))]
    }
}

fn bar_text(filled: usize) -> (r: String)
    ensures
        r@ == bar(filled as nat),
{
    let n: usize = if filled < 8 {
        filled
    } else {
        8
    };
    let mut out: String = String::new();
    let mut i: usize = 0;
    while i < 8
        invariant
            i <= 8,
            n <= 8,
            out@.len() == i,
            forall|j: int| 0 <= j < i ==> (#[trigger] out@[j]) == (if j < n {
                '█'
            } else {
                '░'
            }),
        decreases 8 - i,
    {
        out.push(
            if i < n {
                '█'
            } else {
                '░'
            },
        );
        i = i + 1;
    }
    assert(out@ =~= bar(filled as nat));
    out
}

/// A gauge, colored by load; a dash where the VM does not run.
pub fn gauge_cell(g: &Gauge, active: bool) -> (r: Line)
    ensures
        r.deep_view() == gauge_line(g@, active),
{
    if !active {
        return line_of(colored_span("       —", Color::DarkGray));
    }
    let color: Color = match g.level {
        Level::Low => Color::Green,
        Level::Raised => Color::Yellow,
        Level::High => Color::Red,
    };
    let mut text: String = " ".to_owned();
    text.append(pad_left(g.percent.as_str(), 3).as_str());
    text.append("%");
    let r: Line = vec![colored_span(bar_text(g.filled).as_str(), color), raw_span(text.as_str())];
    assert(r.deep_view() =~= gauge_line(g@, active));
    r
}

/// The cells of a VM's row.
pub open spec fn row(vm: VmView, cpu: GaugeView, mem: GaugeView) -> Seq<Seq<SpanView>> {
    let running = vm.status == "running"@;
    seq![
        seq![raw(decimal(vm.vmid as nat))],
        seq![raw(vm.name)],
        status_line(vm.status),
        gauge_line(cpu, running),
        gauge_line(mem, running),
        seq![raw(uptime_text(vm.uptime as nat))],
    ]
}

/// The cells of a VM's row: id, name, status, CPU and memory load, uptime.
pub fn vm_row(vm: &Vm, cpu: &Gauge, mem: &Gauge) -> (r: Vec<Line>)
    ensures
        r.deep_view() == row(vm@, cpu@, mem@),
{
    let running: bool = vm.is_running();
    let r: Vec<Line> = vec![
        line_of(raw_span(uint_text(vm.vmid as u64).as_str())),
        line_of(raw_span(vm.name.as_str())),
        status_spans(vm.status.as_str()),
        gauge_cell(cpu, running),
        gauge_cell(mem, running),
        line_of(raw_span(vm.uptime_human().as_str())),
    ];
    assert(r.deep_view() =~= row(vm@, cpu@, mem@));
    r
}

/// How wide a column is, in cells.
#[derive(Debug, Clone, Copy, PartialEq, Eq, Structural)]
pub enum Width {
    Exactly(u16),
    AtLeast(u16),
}

/// A column of the table.
#[derive(Debug, Clone, PartialEq, Eq)]
pub struct Column {
    pub title: String,
    pub width: Width,
}

#[verifier::ext_equal]
pub struct ColumnView {
    pub title: Seq<char>,
    pub width: Width,
}

impl View for Column {
    type V = ColumnView;

    open spec fn view(&self) -> ColumnView {
        ColumnView { title: self.title@, width: self.width }
    }
}

impl DeepView for Column {
    type V = ColumnView;

    open spec fn deep_view(&self) -> ColumnView {
        self@
    }
}

/// What stands round the rows of the table: its title, the mark before the selected row, the
/// columns, and the style of their titles.
#[derive(Debug, Clone)]
pub struct TableFrame {
    pub title: String,
    pub mark: String,
    pub columns: Vec<Column>,
    pub heading: Style,
}

#[verifier::ext_equal]
pub struct TableFrameView {
    pub title: Seq<char>,
    pub mark: Seq<char>,
    pub columns: Seq<ColumnView>,
    pub heading: Style,
}

impl View for TableFrame {
    type V = TableFrameView;

    open spec fn view(&self) -> TableFrameView {
        TableFrameView {
            title: self.title@,
            mark: self.mark@,
            columns: self.columns.deep_view(),
            heading: self.heading,
        }
    }
}

/// The frame of the table of VMs.
pub open spec fn frame() -> TableFrameView {
    TableFrameView {
        title: " virtual machines "@,
        mark: "▶ "@,
        columns: seq![
            ColumnView { title: "ID"@, width: Width::Exactly(5) },
            ColumnView { title: "NAME"@, width: Width::AtLeast(14) },
            ColumnView { title: "STATUS"@, width: Width::Exactly(12) },
            ColumnView { title: "CPU"@, width: Width::Exactly(15) },
            ColumnView { title: "MEM"@, width: Width::Exactly(15) },
            ColumnView { title: "UPTIME"@, width: Width::Exactly(8) },
        ],
        heading: strong(Color::Gray),
    }
}

/// The frame of the table of VMs.
pub fn table_frame() -> (r: TableFrame)
    ensures
        r@ == frame(),
{
    let columns: Vec<Column> = vec![
        Column { title: "ID".to_owned(), width: Width::Exactly(5) },
        Column { title: "NAME".to_owned(), width: Width::AtLeast(14) },
        Column { title: "STATUS".to_owned(), width: Width::Exactly(12) },
        Column { title: "CPU".to_owned(), width: Width::Exactly(15) },
        Column { title: "MEM".to_owned(), width: Width::Exactly(15) },
        Column { title: "UPTIME".to_owned(), width: Width::Exactly(8) },
    ];
    assert(columns.deep_view() =~= frame().columns);
    TableFrame {
        title: " virtual machines ".to_owned(),
        mark: "▶ ".to_owned(),
        columns,
        heading: Style { fg: Some(Color::Gray), bg: None, bold: true },
    }
}

// ---------------------------------------------------------------------------------------------
// Popups.
/// A framed box over the table.
#[derive(Debug, Clone)]
pub struct Popup {
    pub title: Span,
    pub border: Color,
    pub width: u16,
    pub height: u16,
    pub lines: Vec<Line>,
}

#[verifier::ext_equal]
pub struct PopupView {
    pub title: SpanView,
    pub border: Color,
    pub width: u16,
    pub height: u16,
    pub lines: Seq<Seq<SpanView>>,
}

impl View for Popup {
    type V = PopupView;

    open spec fn view(&self) -> PopupView {
        PopupView {
            title: self.title@,
            border: self.border,
            width: self.width,
            height: self.height,
            lines: self.lines.deep_view(),
        }
    }
}

/// A box round the given lines, with a title in the color of its border.
pub open spec fn boxed(
    title: Seq<char>,
    border: Color,
    width: u16,
    lines: Seq<Seq<SpanView>>,
) -> PopupView {
    PopupView {
        title: styled(title, strong(border)),
        border,
        width,
        height: (lines.len() + 2) as u16,
        lines,
    }
}

/// A label and a value.
pub open spec fn labelled(label: Seq<char>, value: Seq<char>) -> Seq<SpanView> {
    seq![styled(padded_right(label, 11), colored(Color::Gray)), raw(value)]
}

/// A label and a dimmed value.
pub open spec fn labelled_dim(label: Seq<char>, value: Seq<char>) -> Seq<SpanView> {
    seq![
        styled(padded_right(label, 11), colored(Color::Gray)),
        styled(value, colored(Color::DarkGray)),
    ]
}

/// A label and a value.
pub fn kv(label: &str, value: &str) -> (r: Line)
    ensures
        r.deep_view() == labelled(label@, value@),
{
    let r: Line = vec![
        colored_span(pad_right(label, 11).as_str(), Color::Gray),
        raw_span(value),
    ];
    assert(r.deep_view() =~= labelled(label@, value@));
    r
}

/// A label and a dimmed value.
pub fn kv_dim(label: &str, value: &str) -> (r: Line)
    ensures
        r.deep_view() == labelled_dim(label@, value@),
{
    let r: Line = vec![
        colored_span(pad_right(label, 11).as_str(), Color::Gray),
        colored_span(value, Color::DarkGray),
    ];
    assert(r.deep_view() =~= labelled_dim(label@, value@));
    r
}

/// The figures of a VM that are fractions: its CPUs, and its loads in percent, rounded to
/// integers.
#[derive(Debug, Clone)]
pub struct Figures {
    pub cpus: u64,
    pub cpu_percent: String,
    pub mem_percent: String,
}

#[verifier::ext_equal]
pub struct FiguresView {
    pub cpus: u64,
    pub cpu_percent: Seq<char>,
    pub mem_percent: Seq<char>,
}

impl View for Figures {
    type V = FiguresView;

    open spec fn view(&self) -> FiguresView {
        FiguresView {
            cpus: self.cpus,
            cpu_percent: self.cpu_percent@,
            mem_percent: self.mem_percent@,
        }
    }
}

/// What is known of a VM itself.
pub open spec fn vm_lines(vm: Option<VmView>, g: FiguresView) -> Seq<Seq<SpanView>> {
    match vm {
        Some(v) => seq![
            status_line(v.status),
            blank(),
            labelled(
                "CPU"@,
                decimal(g.cpus as nat) + " vCPU  ·  "@ + g.cpu_percent + "% used"@,
            ),
            labelled(
                "Memory"@,
                gib_text(v.mem as nat) + " / "@ + gib_text(v.maxmem as nat) + "  ("@
                    + g.mem_percent + "%)"@,
            ),
            labelled("Disk"@, gib_text(v.maxdisk as nat)),
            labelled("Uptime"@, uptime_text(v.uptime as nat)),
        ],
        None => seq![labelled_dim(""@, "(vm no longer present)"@)],
    }
}

/// An address, or a dash.
pub open spec fn address_line(label: Seq<char>, ip: Option<Seq<char>>) -> Seq<SpanView> {
    match ip {
        Some(ip) => labelled(label, ip),
        None => labelled_dim(label, "—"@),
    }
}

/// What is known of a VM's addresses.
pub open spec fn address_lines(ips: IpStateView) -> Seq<Seq<SpanView>> {
    match ips {
        IpStateView::Loading => seq![
            labelled_dim("LAN IP"@, "resolving…"@),
            labelled_dim("Tailscale"@, "resolving…"@),
        ],
        IpStateView::NotRunning => seq![
            labelled_dim("LAN IP"@, "— (VM not running)"@),
            labelled_dim("Tailscale"@, "—"@),
        ],
        IpStateView::Unavailable(reason) => seq![
            labelled_dim("LAN IP"@, "— ("@ + reason + ")"@),
            labelled_dim("Tailscale"@, "—"@),
        ],
        IpStateView::Loaded(ips) => seq![
            address_line("LAN IP"@, ips.lan),
            address_line("Tailscale"@, ips.tailscale),
        ],
    }
}

/// The details of a VM.
pub open spec fn detail_popup(d: Detail, vm: Option<VmView>, g: FiguresView) -> PopupView {
    boxed(
        match vm {
            Some(v) => " "@ + v.name + " ("@ + decimal(v.vmid as nat) + ") "@,
            None => " vm "@ + decimal(d.vmid as nat) + " "@,
        },
        Color::Cyan,
        48,
        vm_lines(vm, g).push(blank()) + address_lines(d.ips),
    )
}

fn vm_line_vec(vm: Option<&Vm>, g: &Figures) -> (r: Vec<Line>)
    ensures
        r.deep_view() == vm_lines(
            match vm {
                Some(v) => Some(v@),
                None => None,
            },
            g@,
        ),
{
    match vm {
        Some(v) => {
            let mut cpu: String = uint_text(g.cpus);
            cpu.append(" vCPU  ·  ");
            cpu.append(g.cpu_percent.as_str());
            cpu.append("% used");
            let mut mem: String = v.mem_used_human();
            mem.append(" / ");
            mem.append(v.mem_total_human().as_str());
            mem.append("  (");
            mem.append(g.mem_percent.as_str());
            mem.append("%)");
            let r: Vec<Line> = vec![
                status_spans(v.status.as_str()),
                blank_line(),
                kv("CPU", cpu.as_str()),
                kv("Memory", mem.as_str()),
                kv("Disk", v.disk_human().as_str()),
                kv("Uptime", v.uptime_human().as_str()),
            ];
            assert(r.deep_view() =~= vm_lines(Some(v@), g@));
            r
        },
        None => {
            let r: Vec<Line> = vec![kv_dim("", "(vm no longer present)")];
            assert(r.deep_view() =~= vm_lines(None, g@));
            r
        },
    }
}

fn address_spans(label: &str, ip: &Option<String>) -> (r: Line)
    ensures
        r.deep_view() == address_line(label@, opt_text(*ip)),
{
    match ip {
        Some(ip) => kv(label, ip.as_str()),
        None => kv_dim(label, "—"),
    }
}

fn address_line_pair(ips: &IpState) -> (r: (Line, Line))
    ensures
        seq![r.0.deep_view(), r.1.deep_view()] == address_lines(ips@),
{
    match ips {
        IpState::Loading => (kv_dim("LAN IP", "resolving…"), kv_dim("Tailscale", "resolving…")),
        IpState::NotRunning => (
            kv_dim("LAN IP", "— (VM not running)"),
            kv_dim("Tailscale", "—"),
        ),
        IpState::Unavailable(reason) => {
            let mut m: String = "— (".to_owned();
            m.append(reason.as_str());
            m.append(")");
            (kv_dim("LAN IP", m.as_str()), kv_dim("Tailscale", "—"))
        },
        IpState::Loaded(ips) => (
            address_spans("LAN IP", &ips.lan),
            address_spans("Tailscale", &ips.tailscale),
        ),
    }
}

/// The details of the VM that they are open for, with its figures; nothing where they are not
/// open.
pub fn render_detail(app: &App, figures: &Figures) -> (r: Option<Popup>)
    ensures
        match r {
            Some(p) => app@.detail is Some && p@ == detail_popup(
                app@.detail->0,
                app@.detail_vm(),
                figures@,
            ),
            None => app@.detail is None,
        },
{
    let d = match &app.detail {
        Some(d) => d,
        None => {
            return None;
        },
    };
    let vm: Option<&Vm> = app.detail_vm();
    let mut title: String = " ".to_owned();
    match vm {
        Some(v) => {
            title.append(v.name.as_str());
            title.append(" (");
            title.append(uint_text(v.vmid as u64).as_str());
            title.append(") ");
        },
        None => {
            title = " vm ".to_owned();
            title.append(uint_text(d.vmid as u64).as_str());
            title.append(" ");
        },
    }
    let mut lines: Vec<Line> = vm_line_vec(vm, figures);
    let ghost of_vm = lines.deep_view();
    add_line(&mut lines, blank_line());
    let (lan, tailscale): (Line, Line) = address_line_pair(&d.ips);
    assert(address_lines(d.ips@).len() == 2);
    assert(address_lines(d.ips@)[0] == lan.deep_view());
    assert(address_lines(d.ips@)[1] == tailscale.deep_view());
    add_line(&mut lines, lan);
    add_line(&mut lines, tailscale);
    assert(lines.deep_view() =~= of_vm.push(blank()) + address_lines(d.ips@));
    assert(lines.deep_view().len() == lines@.len());
    let height: u16 = (lines.len() + 2) as u16;
    Some(
        Popup {
            title: strong_span(title.as_str(), Color::Cyan),
            border: Color::Cyan,
            width: 48,
            height,
            lines,
        },
    )
}

/// The color of a question: destroying is marked.
pub open spec fn accent_of(kind: ActionKind) -> Color {
    if kind == ActionKind::Destroy {
        Color::Red
    } else {
        Color::Cyan
    }
}

/// A VM by its name and id.
pub open spec fn named(name: Seq<char>, vmid: u32) -> Seq<char> {
    name + " ("@ + decimal(vmid as nat) + ")"@
}

/// The lines of a question: what is being done, or whether to do it.
pub open spec fn confirm_lines(c: ConfirmView) -> Seq<Seq<SpanView>> {
    if c.running {
        seq![
            blank(),
            seq![
                styled(
                    "  "@ + c.kind.gerund_text() + " "@ + named(c.name, c.vmid) + "…"@,
                    colored(accent_of(c.kind)),
                ),
            ],
        ]
    } else {
        let question = seq![
            raw("  "@),
            raw(c.kind.verb_text() + " "@),
            styled(named(c.name, c.vmid), Style { fg: None, bg: None, bold: true }),
            raw("?"@),
        ];
        let choice = seq![
            raw("  "@),
            styled("y"@, strong(accent_of(c.kind))),
            styled(" confirm    "@, colored(Color::Gray)),
            styled("n"@, strong(Color::Cyan)),
            styled(" cancel"@, colored(Color::Gray)),
        ];
        if c.kind == ActionKind::Destroy {
            seq![
                blank(),
                question,
                blank(),
                seq![
                    styled(
                        "  This deletes the VM and purges it. Irreversible."@,
                        colored(Color::Red),
                    ),
                ],
                blank(),
                choice,
            ]
        } else {
            seq![blank(), question, blank(), choice]
        }
    }
}

/// A question whether to do something to a VM.
pub open spec fn confirm_popup(c: ConfirmView) -> PopupView {
    boxed(
        if c.kind == ActionKind::Destroy {
            " confirm destroy "@
        } else {
            " confirm "@
        },
        accent_of(c.kind),
        52,
        confirm_lines(c),
    )
}

fn name_and_id(name: &str, vmid: u32) -> (r: String)
    ensures
        r@ == named(name@, vmid),
{
    let mut out: String = name.to_owned();
    out.append(" (");
    out.append(uint_text(vmid as u64).as_str());
    out.append(")");
    out
}

/// The open question; nothing where none is open.
pub fn render_confirm(app: &App) -> (r: Option<Popup>)
    ensures
        match r {
            Some(p) => app@.confirm is Some && p@ == confirm_popup(app@.confirm->0),
            None => app@.confirm is None,
        },
{
    let c = match &app.confirm {
        Some(c) => c,
        None => {
            return None;
        },
    };
    let destroys: bool = c.kind == ActionKind::Destroy;
    let accent: Color = if destroys {
        Color::Red
    } else {
        Color::Cyan
    };
    let name: String = name_and_id(c.name.as_str(), c.vmid);
    let mut lines: Vec<Line> = Vec::new();
    assert(lines.deep_view() =~= Seq::<Seq<SpanView>>::empty());
    add_line(&mut lines, blank_line());
    if c.running {
        let mut text: String = "  ".to_owned();
        text.append(c.kind.gerund());
        text.append(" ");
        text.append(name.as_str());
        text.append("…");
        add_line(&mut lines, line_of(colored_span(text.as_str(), accent)));
    } else {
        let mut verb: String = c.kind.verb().to_owned();
        verb.append(" ");
        let question: Line = vec![
            raw_span("  "),
            raw_span(verb.as_str()),
            Span { text: name, style: Style { fg: None, bg: None, bold: true } },
            raw_span("?"),
        ];
        assert(question.deep_view() =~= seq![
            raw("  "@),
            raw(c.kind.verb_text() + " "@),
            styled(named(c@.name, c.vmid), Style { fg: None, bg: None, bold: true }),
            raw("?"@),
        ]);
        add_line(&mut lines, question);
        if destroys {
            add_line(&mut lines, blank_line());
            add_line(
                &mut lines,
                line_of(
                    colored_span(
                        "  This deletes the VM and purges it. Irreversible.",
                        Color::Red,
                    ),
                ),
            );
        }
        add_line(&mut lines, blank_line());
        let choice: Line = vec![
            raw_span("  "),
            strong_span("y", accent),
            colored_span(" confirm    ", Color::Gray),
            strong_span("n", Color::Cyan),
            colored_span(" cancel", Color::Gray),
        ];
        assert(choice.deep_view() =~= seq![
            raw("  "@),
            styled("y"@, strong(accent_of(c.kind))),
            styled(" confirm    "@, colored(Color::Gray)),
            styled("n"@, strong(Color::Cyan)),
            styled(" cancel"@, colored(Color::Gray)),
        ]);
        add_line(&mut lines, choice);
    }
    assert(lines.deep_view() =~= confirm_lines(c@));
    assert(lines.deep_view().len() == lines@.len());
    let height: u16 = (lines.len() + 2) as u16;
    let title: &str = if destroys {
        " confirm destroy "
    } else {
        " confirm "
    };
    Some(Popup { title: strong_span(title, accent), border: accent, width: 52, height, lines })
}

// ---------------------------------------------------------------------------------------------
// The create form.
/// The lines where a line is shown only under a condition.
pub open spec fn shown_if(c: bool, line: Seq<SpanView>) -> Seq<Seq<SpanView>> {
    if c {
        seq![line]
    } else {
        Seq::empty()
    }
}

/// How to reach a new VM that was started.
pub open spec fn reach_lines(o: CreateOutcomeView) -> Seq<Seq<SpanView>> {
    (match o.ips.lan {
        Some(ip) => seq![labelled("LAN IP"@, ip)],
        None => seq![labelled_dim("LAN IP"@, "not yet available"@)],
    }) + (match o.ips.tailscale {
        Some(ip) => seq![labelled("Tailscale"@, ip)],
        None => Seq::empty(),
    }) + shown_if(o.ips.lan is Some || o.ssh_alias is Some, blank()) + (match o.ips.lan {
        Some(ip) => seq![seq![styled("  ssh "@ + o.user + "@"@ + ip, colored(Color::Cyan))]],
        None => Seq::empty(),
    }) + shown_if(
        o.ssh_alias is Some,
        seq![styled("  ssh "@ + o.name, colored(Color::Cyan))],
    )
}

/// What came of creating a VM.
pub open spec fn outcome_lines(o: CreateOutcomeView) -> Seq<Seq<SpanView>> {
    seq![
        blank(),
        seq![styled("  ✓ created "@ + named(o.name, o.vmid), strong(Color::Green))],
        blank(),
        labelled(
            "Status"@,
            if o.started {
                "started"@
            } else {
                "created (not started)"@
            },
        ),
    ] + (if o.started {
        reach_lines(o)
    } else {
        Seq::empty()
    }) + seq![blank()]
}

/// What is shown in place of an empty value.
pub open spec fn hint(f: FieldView, next_id: Option<u32>) -> Seq<char> {
    if f.label == "VM ID"@ && next_id is Some {
        "(next available: "@ + decimal((next_id->0) as nat) + ")"@
    } else if f.label != "VM ID"@ && f.placeholder.len() == 0 {
        "—"@
    } else {
        f.placeholder
    }
}

/// The value of a field as it is shown.
pub open spec fn value_span(f: FieldView, focused: bool, next_id: Option<u32>) -> SpanView {
    if f.value.len() == 0 && !focused {
        styled(hint(f, next_id), colored(Color::DarkGray))
    } else if focused && f.kind != FieldKind::Bool {
        raw(f.value.push('▏'))
    } else {
        raw(f.value)
    }
}

/// The line of a field.
pub open spec fn field_line(f: FieldView, focused: bool, next_id: Option<u32>) -> Seq<SpanView> {
    seq![
        styled(
            if focused {
                "▶ "@
            } else {
                "  "@
            },
            colored(Color::Cyan),
        ),
        styled(
            padded_right(f.label, 19),
            if focused {
                strong(Color::Cyan)
            } else {
                colored(Color::Gray)
            },
        ),
        value_span(f, focused, next_id),
    ]
}

pub open spec fn field_lines(f: CreateFormView) -> Seq<Seq<SpanView>> {
    Seq::new(f.fields.len(), |i: int| field_line(f.fields[i], i == f.focus, f.next_id))
}

/// The lines of the form.
pub open spec fn form_lines(f: CreateFormView) -> Seq<Seq<SpanView>> {
    match f.state {
        FormStateView::Submitting => seq![
            blank(),
            seq![styled("  creating VM…"@, colored(Color::Yellow))],
            blank(),
        ],
        FormStateView::Done(o) => outcome_lines(o),
        FormStateView::Editing(None) => field_lines(f),
        FormStateView::Editing(Some(m)) => field_lines(f).push(blank()).push(
            seq![styled("  ⚠ "@ + m, colored(Color::Red))],
        ),
    }
}

/// The form, in an area of the given height.
pub open spec fn form_popup(f: CreateFormView, room: u16) -> PopupView {
    PopupView {
        title: styled(" create vm "@, strong(Color::Cyan)),
        border: Color::Cyan,
        width: 56,
        height: if form_lines(f).len() + 2 <= room {
            (form_lines(f).len() + 2) as u16
        } else {
            room
        },
        lines: form_lines(f),
    }
}

fn reach_line_vec(o: &CreateOutcome) -> (r: Vec<Line>)
    ensures
        r.deep_view() == reach_lines(o@),
{
    let mut lines: Vec<Line> = Vec::new();
    assert(lines.deep_view() =~= Seq::<Seq<SpanView>>::empty());
    match &o.ips.lan {
        Some(ip) => {
            add_line(&mut lines, kv("LAN IP", ip.as_str()));
        },
        None => {
            add_line(&mut lines, kv_dim("LAN IP", "not yet available"));
        },
    }
    if let Some(ip) = &o.ips.tailscale {
        add_line(&mut lines, kv("Tailscale", ip.as_str()));
    }
    if o.ips.lan.is_some() || o.ssh_alias.is_some() {
        add_line(&mut lines, blank_line());
    }
    if let Some(ip) = &o.ips.lan {
        let mut text: String = "  ssh ".to_owned();
        text.append(o.user.as_str());
        text.append("@");
        text.append(ip.as_str());
        add_line(&mut lines, line_of(colored_span(text.as_str(), Color::Cyan)));
    }
    if o.ssh_alias.is_some() {
        let mut text: String = "  ssh ".to_owned();
        text.append(o.name.as_str());
        add_line(&mut lines, line_of(colored_span(text.as_str(), Color::Cyan)));
    }
    assert(lines.deep_view() =~= reach_lines(o@));
    lines
}

fn outcome_line_vec(o: &CreateOutcome) -> (r: Vec<Line>)
    ensures
        r.deep_view() == outcome_lines(o@),
{
    let mut created: String = "  ✓ created ".to_owned();
    created.append(name_and_id(o.name.as_str(), o.vmid).as_str());
    let mut lines: Vec<Line> = Vec::new();
    assert(lines.deep_view() =~= Seq::<Seq<SpanView>>::empty());
    add_line(&mut lines, blank_line());
    add_line(&mut lines, line_of(strong_span(created.as_str(), Color::Green)));
    add_line(&mut lines, blank_line());
    add_line(
        &mut lines,
        kv(
            "Status",
            if o.started {
                "started"
            } else {
                "created (not started)"
            },
        ),
    );
    if o.started {
        let mut reach: Vec<Line> = reach_line_vec(o);
        let ghost before = lines.deep_view();
        let ghost more = reach.deep_view();
        lines.append(&mut reach);
        assert(lines.deep_view() =~= before + more);
    }
    add_line(&mut lines, blank_line());
    assert(lines.deep_view() =~= outcome_lines(o@));
    lines
}

fn field_spans(f: &Field, focused: bool, next_id: Option<u32>) -> (r: Line)
    ensures
        r.deep_view() == field_line(f@, focused, next_id),
{
    let marker: &str = if focused {
        "▶ "
    } else {
        "  "
    };
    let label: String = pad_right(f.label, 19);
    let label_span: Span = if focused {
        strong_span(label.as_str(), Color::Cyan)
    } else {
        colored_span(label.as_str(), Color::Gray)
    };
    let value: Span = if f.value.as_str().unicode_len() == 0 && !focused {
        let is_id: bool = same_text(f.label, "VM ID");
        let text: String = match next_id {
            Some(id) if is_id => {
                let mut m: String = "(next available: ".to_owned();
                m.append(uint_text(id as u64).as_str());
                m.append(")");
                m
            },
            _ => if !is_id && f.placeholder.unicode_len() == 0 {
                "—".to_owned()
            } else {
                f.placeholder.to_owned()
            },
        };
        colored_span(text.as_str(), Color::DarkGray)
    } else {
        let mut v: String = f.value.clone();
        if focused && f.kind != FieldKind::Bool {
            v.push('▏');
        }
        raw_span(v.as_str())
    };
    let r: Line = vec![colored_span(marker, Color::Cyan), label_span, value];
    assert(r.deep_view() =~= field_line(f@, focused, next_id));
    r
}

fn field_line_vec(f: &CreateForm) -> (r: Vec<Line>)
    ensures
        r.deep_view() == field_lines(f@),
{
    let mut lines: Vec<Line> = Vec::new();
    let mut i: usize = 0;
    assert(lines.deep_view() =~= field_lines(f@).take(0));
    while i < f.fields.len()
        invariant
            i <= f.fields@.len(),
            lines.deep_view() == field_lines(f@).take(i as int),
        decreases f.fields@.len() - i,
    {
        assert(f@.fields[i as int] == f.fields@[i as int]@);
        add_line(&mut lines, field_spans(&f.fields[i], i == f.focus, f.next_id));
        assert(field_lines(f@).take(i + 1) =~= field_lines(f@).take(i as int).push(
            field_lines(f@)[i as int],
        ));
        i = i + 1;
    }
    assert(field_lines(f@).take(i as int) =~= field_lines(f@));
    lines
}

fn form_line_vec(f: &CreateForm) -> (r: Vec<Line>)
    ensures
        r.deep_view() == form_lines(f@),
{
    match &f.state {
        FormState::Submitting => {
            let r: Vec<Line> = vec![
                blank_line(),
                line_of(colored_span("  creating VM…", Color::Yellow)),
                blank_line(),
            ];
            assert(r.deep_view() =~= form_lines(f@));
            r
        },
        FormState::Done(o) => outcome_line_vec(o),
        FormState::Editing(message) => {
            let mut lines: Vec<Line> = field_line_vec(f);
            if let Some(m) = message {
                let mut text: String = "  ⚠ ".to_owned();
                text.append(m.as_str());
                add_line(&mut lines, blank_line());
                add_line(&mut lines, line_of(colored_span(text.as_str(), Color::Red)));
            }
            lines
        },
    }
}

/// The create form, in an area of the given height; nothing where it is not open.
pub fn render_form(app: &App, room: u16) -> (r: Option<Popup>)
    ensures
        match r {
            Some(p) => app@.form is Some && p@ == form_popup(app@.form->0, room),
            None => app@.form is None,
        },
{
    let f = match &app.form {
        Some(f) => f,
        None => {
            return None;
        },
    };
    let lines: Vec<Line> = form_line_vec(f);
    assert(lines.deep_view().len() == lines@.len());
    let n: usize = lines.len();
    let height: u16 = if n < room as usize && n + 2 <= room as usize {
        (n + 2) as u16
    } else {
        room
    };
    Some(
        Popup {
            title: strong_span(" create vm ", Color::Cyan),
            border: Color::Cyan,
            width: 56,
            height,
            lines,
        },
    )
}

/// What lies over the table: the form before a question, and that before the details.
pub open spec fn overlay(a: AppView, g: FiguresView, room: u16) -> Option<PopupView> {
    match (a.form, a.confirm, a.detail) {
        (Some(f), _, _) => Some(form_popup(f, room)),
        (None, Some(c), _) => Some(confirm_popup(c)),
        (None, None, Some(d)) => Some(detail_popup(d, a.detail_vm(), g)),
        (None, None, None) => None,
    }
}

/// What lies over the table, in an area of the given height.
pub fn render_overlay(app: &App, figures: &Figures, room: u16) -> (r: Option<Popup>)
    ensures
        match r {
            Some(p) => overlay(app@, figures@, room) == Some(p@),
            None => overlay(app@, figures@, room) is None,
        },
{
    if app.form.is_some() {
        render_form(app, room)
    } else if app.confirm.is_some() {
        render_confirm(app)
    } else {
        render_detail(app, figures)
    }
}

// ---------------------------------------------------------------------------------------------
// Laws.
/// A bar has eight cells, whatever the load.
pub proof fn bars_are_of_one_length(filled: nat)
    ensures
        bar(filled).len() == 8,
        forall|i: int| 0 <= i < 8 ==> (bar(filled)[i] == '█' <==> i < filled),
{
}

/// The row of a VM has a cell for each column of the table.
pub proof fn rows_fill_the_columns(vm: VmView, cpu: GaugeView, mem: GaugeView)
    ensures
        row(vm, cpu, mem).len() == frame().columns.len(),
{
}

/// A question and the details of a VM are as high as their lines and their frame.
pub proof fn boxes_hold_their_lines(a: AppView, g: FiguresView, room: u16)
    requires
        a.form is None,
    ensures
        overlay(a, g, room) matches Some(p) ==> p.height == p.lines.len() + 2,
{
}

/// The form is as high as its lines and its frame, or as high as the area that it lies over.
pub proof fn the_form_stays_in_its_area(f: CreateFormView, room: u16)
    ensures
        form_popup(f, room).height <= room,
        form_popup(f, room).lines.len() + 2 <= room ==> form_popup(f, room).height == form_popup(
            f,
            room,
        ).lines.len() + 2,
{
}

/// The question whether to destroy a VM is red, and warns.
pub proof fn destroying_is_marked(c: ConfirmView)
    requires
        c.kind == ActionKind::Destroy,
        !c.running,
    ensures
        confirm_popup(c).border == Color::Red,
        confirm_popup(c).lines.contains(
            seq![
                styled(
                    "  This deletes the VM and purges it. Irreversible."@,
                    colored(Color::Red),
                ),
            ],
        ),
{
    assert(confirm_popup(c).lines[3] == seq![
        styled("  This deletes the VM and purges it. Irreversible."@, colored(Color::Red)),
    ]);
}

/// An error is shown before all else, and alone.
pub proof fn errors_come_first(a: AppView, e: Seq<char>)
    requires
        a.error == Some(e),
    ensures
        footer(a).len() == 1,
        footer(a)[0].text == " error: "@ + e + " "@,
{
}

/// Where no error is shown, the footer is that of what lies over the table.
pub proof fn the_footer_goes_with_the_overlay(a: AppView, b: AppView)
    requires
        a.error is None,
        b.error is None,
        a.form == b.form,
        a.confirm is Some == b.confirm is Some,
        a.detail is Some == b.detail is Some,
    ensures
        footer(a) == footer(b),
{
}

/// The header names the node, counts the VMs that are no templates, and says how fresh the list
/// is: that it is being fetched, how many whole seconds ago it came, or that none came yet.
pub proof fn the_header_tells_the_state_of_the_list(a: AppView, t: u64, s: nat, rest: nat, now: u64)
    requires
        rest < 1_000_000_000,
    ensures
        header(a, now).len() == 5,
        header(a, now)[1].text == "  node "@ + a.cfg.host + "   "@,
        header(a, now)[2].text == decimal(a.vms.filter(|v: VmView| !v.is_template).len())
            + " VMs"@,
        a.loading ==> header(a, now)[4].text == "↻ refreshing"@,
        !a.loading && a.last_update is None ==> header(a, now)[4].text == "—"@,
        !a.loading && a.last_update == Some(t) && now == t + s * 1_000_000_000 + rest ==> header(
            a,
            now,
        )[4].text == "updated "@ + decimal(s) + "s ago"@,
        !a.loading && a.last_update == Some(t) && now < t ==> header(a, now)[4].text
            == "updated "@ + decimal(0) + "s ago"@,
{
    lemma_vm_count(a.vms);
    if now == t + s * 1_000_000_000 + rest {
        assert(now - t == s * 1_000_000_000 + rest);
        if now > t {
            assert((now - t) / 1_000_000_000 == s);
        } else {
            assert(s == 0);
        }
    }
}

proof fn lemma_vm_count(vms: Seq<VmView>)
    ensures
        vm_count(vms) == vms.filter(|v: VmView| !v.is_template).len(),
    decreases vms.len(),
{
    reveal(Seq::filter);
    if vms.len() > 0 {
        lemma_vm_count(vms.drop_last());
    }
}

/// Where no error is shown, the footer names the keys that can be pressed, before what each does:
/// those of the list, of the details, of a question, and of a form that is filled in or done.
pub proof fn the_footer_names_the_keys(a: AppView)
    requires
        a.error is None,
    ensures
        ({
            let f = footer(a);
            &&& a.form is None && a.confirm is None && a.detail is None ==> {
                &&& f.len() == 17
                &&& f[1].text == "↑/↓"@ && f[2].text == " move  "@
                &&& f[3].text == "Enter"@ && f[4].text == " details  "@
                &&& f[5].text == "s"@ && f[7].text == "x"@ && f[9].text == "d"@
                &&& f[10].text == " start/stop/destroy  "@
                &&& f[11].text == "c"@ && f[12].text == " new  "@
                &&& f[13].text == "r"@ && f[14].text == " refresh  "@
                &&& f[15].text == "q"@ && f[16].text == " quit"@
            }
            &&& a.form is None && a.confirm is None && a.detail is Some ==> {
                &&& f.len() == 7
                &&& f[1].text == "Esc"@ && f[2].text == " back   "@
                &&& f[3].text == "r"@ && f[4].text == " refresh   "@
                &&& f[5].text == "q"@ && f[6].text == " quit"@
            }
            &&& a.form is None && a.confirm is Some ==> {
                &&& f.len() == 5
                &&& f[1].text == "y"@ && f[2].text == " confirm   "@
                &&& f[3].text == "n"@ && f[4].text == " cancel"@
            }
            &&& a.form matches Some(g) ==> {
                &&& g.state is Editing ==> f.len() == 7 && f[1].text == "↑/↓"@ && f[2].text
                    == " field  "@ && f[3].text == "Enter"@ && f[4].text == " create  "@ && f[5].text
                    == "Esc"@ && f[6].text == " cancel"@
                &&& g.state is Submitting ==> f.len() == 1 && f[0].text == " creating…"@
                &&& g.state is Done ==> f.len() == 3 && f[1].text == "any key"@ && f[2].text
                    == " close"@
            }
        }),
{
}

/// A row tells of its VM, column by column: its id, its name, its status behind a dot, the load
/// of its CPU, the load of its memory and its uptime. Loads are shown of a running VM alone.
pub proof fn a_row_tells_of_its_vm(vm: VmView, cpu: GaugeView, mem: GaugeView)
    ensures
        ({
            let r = row(vm, cpu, mem);
            &&& r.len() == 6
            &&& r[0].len() == 1 && r[0][0].text == decimal(vm.vmid as nat)
            &&& r[1].len() == 1 && r[1][0].text == vm.name
            &&& r[2].len() == 2 && r[2][1].text == " "@ + vm.status
            &&& r[5].len() == 1 && r[5][0].text == uptime_text(vm.uptime as nat)
            &&& vm.status == "running"@ ==> {
                &&& r[3].len() == 2 && r[3][0].text == bar(cpu.filled) && r[3][1].text == " "@
                    + padded_left(cpu.percent, 3) + "%"@
                &&& r[4].len() == 2 && r[4][0].text == bar(mem.filled) && r[4][1].text == " "@
                    + padded_left(mem.percent, 3) + "%"@
                &&& r[3][0].style.fg == Some(
                    match cpu.level {
                        Level::Low => Color::Green,
                        Level::Raised => Color::Yellow,
                        Level::High => Color::Red,
                    },
                )
                &&& r[4][0].style.fg == Some(
                    match mem.level {
                        Level::Low => Color::Green,
                        Level::Raised => Color::Yellow,
                        Level::High => Color::Red,
                    },
                )
            }
            &&& vm.status != "running"@ ==> r[3].len() == 1 && r[3][0].text == "       —"@
                && r[4].len() == 1 && r[4][0].text == "       —"@
        }),
{
}

/// The dot before a status tells a running VM, a stopped one and a template from each other and
/// from all else.
pub proof fn the_dot_tells_the_status(status: Seq<char>)
    ensures
        ({
            let d = status_line(status)[0];
            &&& status == "running"@ ==> d.text == "●"@ && d.style.fg == Some(Color::Green)
            &&& status == "stopped"@ ==> d.text == "○"@ && d.style.fg == Some(Color::DarkGray)
            &&& status == "template"@ ==> d.text == "◆"@ && d.style.fg == Some(Color::Blue)
            &&& status != "running"@ && status != "stopped"@ && status != "template"@ ==> d.text
                == "○"@ && d.style.fg == Some(Color::Yellow)
        }),
{
    reveal_strlit("running");
    reveal_strlit("stopped");
    reveal_strlit("template");
    assert("running"@[0] == 'r' && "stopped"@[0] == 's' && "template"@[0] == 't');
}

/// The details tell of their VM, line by line: its name and id in the title, its status, its CPUs
/// and their load, its memory in use, its memory, their ratio, its disk and its uptime. A VM that
/// is gone is told by its id.
pub proof fn the_details_tell_of_their_vm(d: Detail, vm: VmView, g: FiguresView)
    ensures
        ({
            let p = detail_popup(d, Some(vm), g);
            &&& p.title.text == " "@ + vm.name + " ("@ + decimal(vm.vmid as nat) + ") "@
            &&& p.lines.len() == 9
            &&& p.lines[0][1].text == " "@ + vm.status
            &&& p.lines[2][0].text == padded_right("CPU"@, 11) && p.lines[2][1].text == decimal(
                g.cpus as nat,
            ) + " vCPU  ·  "@ + g.cpu_percent + "% used"@
            &&& p.lines[3][0].text == padded_right("Memory"@, 11) && p.lines[3][1].text == gib_text(
                vm.mem as nat,
            ) + " / "@ + gib_text(vm.maxmem as nat) + "  ("@ + g.mem_percent + "%)"@
            &&& p.lines[4][0].text == padded_right("Disk"@, 11) && p.lines[4][1].text == gib_text(
                vm.maxdisk as nat,
            )
            &&& p.lines[5][0].text == padded_right("Uptime"@, 11) && p.lines[5][1].text
                == uptime_text(vm.uptime as nat)
        }),
        ({
            let p = detail_popup(d, None, g);
            &&& p.title.text == " vm "@ + decimal(d.vmid as nat) + " "@
            &&& p.lines.len() == 4
            &&& p.lines[0][1].text == "(vm no longer present)"@
        }),
{
}

/// The last two lines of the details are the LAN address and the Tailscale address, each behind
/// its own label: the address itself, a dash where there is none, or why there is none yet.
pub proof fn the_details_tell_each_address_behind_its_label(
    d: Detail,
    vm: Option<VmView>,
    g: FiguresView,
)
    ensures
        ({
            let p = detail_popup(d, vm, g);
            let n = p.lines.len() as int;
            let lan = p.lines[n - 2];
            let ts = p.lines[n - 1];
            &&& n >= 4 && lan.len() == 2 && ts.len() == 2
            &&& lan[0].text == padded_right("LAN IP"@, 11)
            &&& ts[0].text == padded_right("Tailscale"@, 11)
            &&& d.ips matches IpStateView::Loaded(i) ==> {
                &&& i.lan matches Some(t) ==> lan[1].text == t
                &&& i.lan is None ==> lan[1].text == "—"@
                &&& i.tailscale matches Some(t) ==> ts[1].text == t
                &&& i.tailscale is None ==> ts[1].text == "—"@
            }
            &&& d.ips is Loading ==> lan[1].text == "resolving…"@ && ts[1].text == "resolving…"@
            &&& d.ips is NotRunning ==> lan[1].text == "— (VM not running)"@ && ts[1].text == "—"@
            &&& d.ips matches IpStateView::Unavailable(why) ==> lan[1].text == "— ("@ + why
                + ")"@ && ts[1].text == "—"@
        }),
{
}

/// A question names what is to be done and to which VM, by its name and its id, and while it is
/// being done, so does the notice.
pub proof fn a_question_names_the_action_and_the_vm(c: ConfirmView)
    ensures
        ({
            let p = confirm_popup(c);
            let verb = match c.kind {
                ActionKind::Start => "start"@,
                ActionKind::Stop => "stop"@,
                ActionKind::Destroy => "destroy"@,
            };
            let doing = match c.kind {
                ActionKind::Start => "starting"@,
                ActionKind::Stop => "stopping"@,
                ActionKind::Destroy => "destroying"@,
            };
            let vm = c.name + " ("@ + decimal(c.vmid as nat) + ")"@;
            &&& !c.running ==> p.lines[1].len() == 4 && p.lines[1][1].text == verb + " "@
                && p.lines[1][2].text == vm && p.lines[1][3].text == "?"@
            &&& !c.running ==> p.lines.last().len() == 5 && p.lines.last()[1].text == "y"@
                && p.lines.last()[2].text == " confirm    "@ && p.lines.last()[3].text == "n"@
                && p.lines.last()[4].text == " cancel"@
            &&& c.running ==> p.lines[1].len() == 1 && p.lines[1][0].text == "  "@ + doing + " "@
                + vm + "…"@
            &&& c.kind != ActionKind::Destroy ==> p.border == Color::Cyan && p.title.text
                == " confirm "@
            &&& c.kind == ActionKind::Destroy ==> p.title.text == " confirm destroy "@
        }),
{
}

/// What came of a creation is told: the new VM by its name and its id, whether it was started,
/// and of a started one its addresses, each behind its own label, and how to reach it.
pub proof fn a_new_vm_is_told_with_how_to_reach_it(
    f: CreateFormView,
    o: CreateOutcomeView,
    room: u16,
)
    requires
        f.state == FormStateView::Done(o),
    ensures
        ({
            let l = form_popup(f, room).lines;
            &&& l.len() >= 5
            &&& l[1].len() == 1 && l[1][0].text == "  ✓ created "@ + (o.name + " ("@ + decimal(
                o.vmid as nat,
            ) + ")"@)
            &&& l[3].len() == 2 && l[3][1].text == (if o.started {
                "started"@
            } else {
                "created (not started)"@
            })
            &&& !o.started ==> l.len() == 5
            &&& o.started ==> {
                &&& l[4].len() == 2 && l[4][0].text == padded_right("LAN IP"@, 11)
                &&& o.ips.lan matches Some(ip) ==> l[4][1].text == ip && l.contains(
                    seq![styled("  ssh "@ + o.user + "@"@ + ip, colored(Color::Cyan))],
                )
                &&& o.ips.lan is None ==> l[4][1].text == "not yet available"@
                &&& o.ips.tailscale matches Some(ip) ==> l[5].len() == 2 && l[5][0].text
                    == padded_right("Tailscale"@, 11) && l[5][1].text == ip
                &&& o.ssh_alias is Some ==> l.contains(
                    seq![styled("  ssh "@ + o.name, colored(Color::Cyan))],
                )
            }
        }),
{
    let l = outcome_lines(o);
    if o.started {
        let n: int = if o.ips.tailscale is Some {
            6
        } else {
            5
        };
        if let Some(ip) = o.ips.lan {
            assert(l[n + 1] == seq![
                styled("  ssh "@ + o.user + "@"@ + ip, colored(Color::Cyan)),
            ]);
        }
        if o.ssh_alias is Some {
            let k: int = if o.ips.lan is Some {
                n + 2
            } else {
                n + 1
            };
            assert(l[k] == seq![styled("  ssh "@ + o.name, colored(Color::Cyan))]);
        }
    }
}

/// The form shows each of its fields on a line of its own: a mark on the one that has the focus,
/// its label, and its value. An empty value that has no focus is told by what it stands for: the
/// next free id, once it is known, or the placeholder. What is wrong with the form stands below.
pub proof fn the_form_shows_its_fields(f: CreateFormView, i: int, room: u16, why: Seq<char>)
    requires
        0 <= i < f.fields.len(),
        f.state is Editing,
    ensures
        ({
            let l = form_popup(f, room).lines;
            let field = f.fields[i];
            &&& l.len() >= f.fields.len()
            &&& l[i].len() == 3
            &&& l[i][0].text == (if i == f.focus { "▶ "@ } else { "  "@ })
            &&& l[i][1].text == padded_right(field.label, 19)
            &&& field.value.len() > 0 && i != f.focus ==> l[i][2].text == field.value
            &&& i == f.focus && field.kind == FieldKind::Bool ==> l[i][2].text == field.value
            &&& i == f.focus && field.kind != FieldKind::Bool ==> l[i][2].text
                == field.value.push('▏')
            &&& field.value.len() == 0 && i != f.focus && field.label == "VM ID"@ ==> (
            f.next_id matches Some(id) ==> l[i][2].text == "(next available: "@ + decimal(
                id as nat,
            ) + ")"@)
            &&& field.value.len() == 0 && i != f.focus && field.label == "VM ID"@ && f.next_id
                is None ==> l[i][2].text == field.placeholder
            &&& field.value.len() == 0 && i != f.focus && field.label != "VM ID"@
                && field.placeholder.len() > 0 ==> l[i][2].text == field.placeholder
            &&& field.value.len() == 0 && i != f.focus && field.label != "VM ID"@
                && field.placeholder.len() == 0 ==> l[i][2].text == "—"@
            &&& f.state == FormStateView::Editing(None) ==> l.len() == f.fields.len()
            &&& f.state == FormStateView::Editing(Some(why)) ==> l.len() == f.fields.len() + 2
                && l.last().len() == 1 && l.last()[0].text == "  ⚠ "@ + why
        }),
{
    assert(field_lines(f)[i] == field_line(f.fields[i], i == f.focus, f.next_id));
}

/// What lies over the table is the form, or else a question, or else the details, or else
/// nothing.
pub proof fn the_uppermost_is_shown(a: AppView, g: FiguresView, room: u16)
    ensures
        a.form matches Some(f) ==> (overlay(a, g, room) matches Some(p) && p.title.text
            == " create vm "@ && p.lines == form_lines(f) && p.width == 56 && p.border
            == Color::Cyan && p.title.style == strong(Color::Cyan)),
        a.form is None ==> (a.confirm matches Some(c) ==> (overlay(a, g, room) matches Some(p)
            && p.lines == confirm_lines(c) && p.width == 52 && p.title.style == strong(p.border))),
        a.form is None && a.confirm is None ==> (a.detail matches Some(d) ==> overlay(a, g, room)
            == Some(detail_popup(d, a.detail_vm(), g)) && (overlay(a, g, room)->0).width == 48 && (
        overlay(a, g, room)->0).border == Color::Cyan),
        a.form is None && a.confirm is None && a.detail is None ==> overlay(a, g, room) is None,
{
}

/// Figures and gauges are seen as they are.
pub proof fn figures_are_seen_as_they_are(f: Figures, g: Gauge, s: Span)
    ensures
        f@.cpus == f.cpus && f@.cpu_percent == f.cpu_percent@ && f@.mem_percent == f.mem_percent@,
        g@.filled == g.filled && g@.level == g.level && g@.percent == g.percent@,
        s@.text == s.text@ && s@.style == s.style,
{
}

/// Styles are what their names say: a color and nothing else, or a color and bold.
pub proof fn styles_are_what_they_say(c: Color, text: Seq<char>)
    ensures
        plain_style().fg is None && plain_style().bg is None && !plain_style().bold,
        colored(c).fg == Some(c) && colored(c).bg is None && !colored(c).bold,
        strong(c).fg == Some(c) && strong(c).bg is None && strong(c).bold,
        styled(text, colored(c)).text == text && styled(text, colored(c)).style == colored(c),
        raw(text).text == text && raw(text).style == plain_style(),
{
}

/// Colors tell things apart: an error is white on red, a key is bold cyan, a label is gray and what
/// is not there is dim, the field that has the focus is marked in bold cyan, what is wrong with a
/// form is red, and a VM that was created is told in bold green.
pub proof fn colors_tell_things_apart(
    a: AppView,
    e: Seq<char>,
    label: Seq<char>,
    value: Seq<char>,
    f: CreateFormView,
    i: int,
    o: CreateOutcomeView,
    now: u64,
)
    ensures
        a.error == Some(e) ==> footer(a)[0].style.fg == Some(Color::White) && footer(a)[0].style.bg
            == Some(Color::Red),
        key(label).style == strong(Color::Cyan) && key(label).text == label,
        header(a, now)[0].text == " ☾ mox "@ && header(a, now)[0].style.fg == Some(Color::Black)
            && header(a, now)[0].style.bg == Some(Color::Cyan) && header(a, now)[0].style.bold,
        header(a, now)[2].style == colored(Color::Gray) && header(a, now)[4].style == colored(
            Color::DarkGray,
        ),
        labelled(label, value) == seq![
            styled(padded_right(label, 11), colored(Color::Gray)),
            raw(value),
        ],
        labelled_dim(label, value) == seq![
            styled(padded_right(label, 11), colored(Color::Gray)),
            styled(value, colored(Color::DarkGray)),
        ],
        0 <= i < f.fields.len() ==> {
            let l = field_lines(f)[i];
            &&& i == f.focus ==> l[1].style == strong(Color::Cyan)
            &&& i != f.focus ==> l[1].style == colored(Color::Gray)
            &&& i != f.focus && f.fields[i].value.len() == 0 ==> l[2].style == colored(
                Color::DarkGray,
            )
        },
        f.state == FormStateView::Editing(Some(e)) ==> form_lines(f).last()[0].style == colored(
            Color::Red,
        ),
        outcome_lines(o)[1][0].style == strong(Color::Green),
{
}

} // verus!
