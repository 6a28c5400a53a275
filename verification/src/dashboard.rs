//! The state of the dashboard: what is shown, what keys and news from the node do to it, and
//! what it asks of the node.
use vstd::prelude::*;

use crate::config::{Config, ConfigView};
use crate::model::{vm_views, GuestIps, GuestIpsView, Vm, VmView};
use crate::node::{CreateSpec, CreateSpecView};
use crate::number::{decimal, is_digit, parse_u32, read_uint, uint_text};
use crate::text::{
    after_prefix, chars_of, lines, lines_of, non_empty, opt_text, same_text, shortened,
    some_if_not_empty, string_of, strip_prefix, trim, trimmed, truncate,
};

verus! {

// ---------------------------------------------------------------------------------------------
// Parts of the state.
/// What can be done to a VM.
#[derive(Debug, Clone, Copy, PartialEq, Eq, Structural)]
pub enum ActionKind {
    Start,
    Stop,
    Destroy,
}

impl ActionKind {
    pub open spec fn verb_text(self) -> Seq<char> {
        match self {
            ActionKind::Start => "start"@,
            ActionKind::Stop => "stop"@,
            ActionKind::Destroy => "destroy"@,
        }
    }

    pub open spec fn gerund_text(self) -> Seq<char> {
        match self {
            ActionKind::Start => "starting"@,
            ActionKind::Stop => "stopping"@,
            ActionKind::Destroy => "destroying"@,
        }
    }

    /// The verb, as in the question whether to do it.
    pub fn verb(self) -> (r: &'static str)
        ensures
            r@ == self.verb_text(),
    {
        match self {
            ActionKind::Start => "start",
            ActionKind::Stop => "stop",
            ActionKind::Destroy => "destroy",
        }
    }

    /// What is said while it is being done.
    pub fn gerund(self) -> (r: &'static str)
        ensures
            r@ == self.gerund_text(),
    {
        match self {
            ActionKind::Start => "starting",
            ActionKind::Stop => "stopping",
            ActionKind::Destroy => "destroying",
        }
    }
}

/// The question whether to do something to a VM.
#[derive(Debug, Clone)]
pub struct Confirm {
    pub kind: ActionKind,
    pub vmid: u32,
    pub name: String,
    /// Whether it was confirmed and is being done.
    pub running: bool,
}

#[verifier::ext_equal]
pub struct ConfirmView {
    pub kind: ActionKind,
    pub vmid: u32,
    pub name: Seq<char>,
    pub running: bool,
}

impl View for Confirm {
    type V = ConfirmView;

    open spec fn view(&self) -> ConfirmView {
        ConfirmView {
            kind: self.kind,
            vmid: self.vmid,
            name: self.name@,
            running: self.running,
        }
    }
}

/// How a field of the create form is edited.
#[derive(Debug, Clone, Copy, PartialEq, Eq, Structural)]
pub enum FieldKind {
    /// Free text.
    Text,
    /// Digits alone.
    Uint,
    /// A switch whose value is `yes` or `no`.
    Bool,
}

/// A field of the create form.
#[derive(Debug, Clone)]
pub struct Field {
    pub label: &'static str,
    pub value: String,
    pub kind: FieldKind,
    /// What is shown where the value is empty.
    pub placeholder: &'static str,
}

#[verifier::ext_equal]
pub struct FieldView {
    pub label: Seq<char>,
    pub value: Seq<char>,
    pub kind: FieldKind,
    pub placeholder: Seq<char>,
}

impl View for Field {
    type V = FieldView;

    open spec fn view(&self) -> FieldView {
        FieldView {
            label: self.label@,
            value: self.value@,
            kind: self.kind,
            placeholder: self.placeholder@,
        }
    }
}

impl DeepView for Field {
    type V = FieldView;

    open spec fn deep_view(&self) -> FieldView {
        self@
    }
}

pub open spec fn text_field(
    label: Seq<char>,
    value: Seq<char>,
    placeholder: Seq<char>,
) -> FieldView {
    FieldView { label, value, kind: FieldKind::Text, placeholder }
}

pub open spec fn uint_field(label: Seq<char>, value: Seq<char>) -> FieldView {
    FieldView { label, value, kind: FieldKind::Uint, placeholder: ""@ }
}

/// A switch as it stands in a form.
pub open spec fn yes_no(on: bool) -> Seq<char> {
    if on {
        "yes"@
    } else {
        "no"@
    }
}

pub open spec fn bool_field(label: Seq<char>, on: bool) -> FieldView {
    FieldView { label, value: yes_no(on), kind: FieldKind::Bool, placeholder: ""@ }
}

impl Field {
    /// A field for free text.
    pub fn text(label: &'static str, value: String, placeholder: &'static str) -> (r: Field)
        ensures
            r@ == text_field(label@, value@, placeholder@),
    {
        Field { label, value, kind: FieldKind::Text, placeholder }
    }

    /// A field for digits.
    pub fn uint(label: &'static str, value: String) -> (r: Field)
        ensures
            r@ == uint_field(label@, value@),
    {
        Field { label, value, kind: FieldKind::Uint, placeholder: "" }
    }

    /// A switch.
    pub fn boolean(label: &'static str, on: bool) -> (r: Field)
        ensures
            r@ == bool_field(label@, on),
    {
        let value: String = if on {
            "yes".to_owned()
        } else {
            "no".to_owned()
        };
        Field { label, value, kind: FieldKind::Bool, placeholder: "" }
    }

    /// Whether a switch is on.
    pub fn is_on(&self) -> (r: bool)
        ensures
            r == (self@.value == "yes"@),
    {
        same_text(self.value.as_str(), "yes")
    }
}

/// What came of creating a VM.
#[derive(Debug, Clone)]
pub struct CreateOutcome {
    pub vmid: u32,
    pub name: String,
    pub user: String,
    pub started: bool,
    pub ips: GuestIps,
    /// The name under which the SSH configuration knows the VM, where it was written there.
    pub ssh_alias: Option<String>,
}

#[verifier::ext_equal]
pub struct CreateOutcomeView {
    pub vmid: u32,
    pub name: Seq<char>,
    pub user: Seq<char>,
    pub started: bool,
    pub ips: GuestIpsView,
    pub ssh_alias: Option<Seq<char>>,
}

impl View for CreateOutcome {
    type V = CreateOutcomeView;

    open spec fn view(&self) -> CreateOutcomeView {
        CreateOutcomeView {
            vmid: self.vmid,
            name: self.name@,
            user: self.user@,
            started: self.started,
            ips: self.ips@,
            ssh_alias: opt_text(self.ssh_alias),
        }
    }
}

/// Where the create form stands.
#[derive(Debug, Clone)]
pub enum FormState {
    /// Being filled in, with a message where it was refused.
    Editing(Option<String>),
    /// Handed to the node.
    Submitting,
    /// Done.
    Done(CreateOutcome),
}

pub enum FormStateView {
    Editing(Option<Seq<char>>),
    Submitting,
    Done(CreateOutcomeView),
}

impl View for FormState {
    type V = FormStateView;

    open spec fn view(&self) -> FormStateView {
        match self {
            FormState::Editing(m) => FormStateView::Editing(opt_text(*m)),
            FormState::Submitting => FormStateView::Submitting,
            FormState::Done(o) => FormStateView::Done(o@),
        }
    }
}

/// The create form.
#[derive(Debug, Clone)]
pub struct CreateForm {
    pub fields: Vec<Field>,
    pub focus: usize,
    pub state: FormState,
    /// The next free VM id, once the node has said it.
    pub next_id: Option<u32>,
}

#[verifier::ext_equal]
pub struct CreateFormView {
    pub fields: Seq<FieldView>,
    pub focus: int,
    pub state: FormStateView,
    pub next_id: Option<u32>,
}

impl View for CreateForm {
    type V = CreateFormView;

    open spec fn view(&self) -> CreateFormView {
        CreateFormView {
            fields: self.fields.deep_view(),
            focus: self.focus as int,
            state: self.state@,
            next_id: self.next_id,
        }
    }
}

/// What the dashboard asks of the node.
#[derive(Debug, Clone)]
pub enum Req {
    /// The list of VMs.
    Refresh,
    /// The addresses of a VM.
    Ips(u32),
    /// Something done to a VM.
    Action { vmid: u32, kind: ActionKind },
    /// A new VM.
    Create(CreateSpec),
    /// The next free VM id.
    NextId,
}

pub enum ReqView {
    Refresh,
    Ips(u32),
    Action { vmid: u32, kind: ActionKind },
    Create(CreateSpecView),
    NextId,
}

impl View for Req {
    type V = ReqView;

    open spec fn view(&self) -> ReqView {
        match self {
            Req::Refresh => ReqView::Refresh,
            Req::Ips(n) => ReqView::Ips(*n),
            Req::Action { vmid, kind } => ReqView::Action { vmid: *vmid, kind: *kind },
            Req::Create(s) => ReqView::Create(s@),
            Req::NextId => ReqView::NextId,
        }
    }
}

impl DeepView for Req {
    type V = ReqView;

    open spec fn deep_view(&self) -> ReqView {
        self@
    }
}

/// News from the node.
#[derive(Debug)]
pub enum Update {
    Vms(Vec<Vm>),
    Error(String),
    Ips { vmid: u32, result: Result<GuestIps, String> },
    ActionDone { kind: ActionKind, result: Result<(), String> },
    CreateDone(Result<CreateOutcome, String>),
    NextId(u32),
}

pub enum UpdateView {
    Vms(Seq<VmView>),
    Error(Seq<char>),
    Ips { vmid: u32, result: Result<GuestIpsView, Seq<char>> },
    ActionDone { kind: ActionKind, result: Result<(), Seq<char>> },
    CreateDone(Result<CreateOutcomeView, Seq<char>>),
    NextId(u32),
}

impl View for Update {
    type V = UpdateView;

    open spec fn view(&self) -> UpdateView {
        match self {
            Update::Vms(v) => UpdateView::Vms(vm_views(v@)),
            Update::Error(e) => UpdateView::Error(e@),
            Update::Ips { vmid, result } => UpdateView::Ips {
                vmid: *vmid,
                result: match result {
                    Ok(i) => Ok(i@),
                    Err(e) => Err(e@),
                },
            },
            Update::ActionDone { kind, result } => UpdateView::ActionDone {
                kind: *kind,
                result: match result {
                    Ok(_) => Ok(()),
                    Err(e) => Err(e@),
                },
            },
            Update::CreateDone(result) => UpdateView::CreateDone(
                match result {
                    Ok(o) => Ok(o@),
                    Err(e) => Err(e@),
                },
            ),
            Update::NextId(n) => UpdateView::NextId(*n),
        }
    }
}

/// How far the lookup of a VM's addresses is.
#[derive(Debug, Clone)]
pub enum IpState {
    Loading,
    NotRunning,
    Unavailable(String),
    Loaded(GuestIps),
}

pub enum IpStateView {
    Loading,
    NotRunning,
    Unavailable(Seq<char>),
    Loaded(GuestIpsView),
}

impl View for IpState {
    type V = IpStateView;

    open spec fn view(&self) -> IpStateView {
        match self {
            IpState::Loading => IpStateView::Loading,
            IpState::NotRunning => IpStateView::NotRunning,
            IpState::Unavailable(r) => IpStateView::Unavailable(r@),
            IpState::Loaded(i) => IpStateView::Loaded(i@),
        }
    }
}

/// The details of a VM, by its id, so that they stay those of that VM while the list changes.
#[derive(Debug, Clone)]
pub struct DetailView {
    pub vmid: u32,
    pub ips: IpState,
}

#[verifier::ext_equal]
pub struct Detail {
    pub vmid: u32,
    pub ips: IpStateView,
}

impl View for DetailView {
    type V = Detail;

    open spec fn view(&self) -> Detail {
        Detail { vmid: self.vmid, ips: self.ips@ }
    }
}

/// The dashboard.
pub struct App {
    pub cfg: Config,
    pub vms: Vec<Vm>,
    /// The selected row of the list.
    pub selected: Option<usize>,
    pub error: Option<String>,
    /// When the list was last updated, in nanoseconds on a clock that never goes back.
    pub last_update: Option<u64>,
    pub loading: bool,
    pub detail: Option<DetailView>,
    pub confirm: Option<Confirm>,
    pub form: Option<CreateForm>,
    /// What is still to be asked of the node.
    pub outbox: Vec<Req>,
}

#[verifier::ext_equal]
pub struct AppView {
    pub cfg: ConfigView,
    pub vms: Seq<VmView>,
    pub selected: Option<usize>,
    pub error: Option<Seq<char>>,
    pub last_update: Option<u64>,
    pub loading: bool,
    pub detail: Option<Detail>,
    pub confirm: Option<ConfirmView>,
    pub form: Option<CreateFormView>,
    pub outbox: Seq<ReqView>,
}

impl View for App {
    type V = AppView;

    open spec fn view(&self) -> AppView {
        AppView {
            cfg: self.cfg@,
            vms: vm_views(self.vms@),
            selected: self.selected,
            error: opt_text(self.error),
            last_update: self.last_update,
            loading: self.loading,
            detail: match self.detail {
                Some(d) => Some(d@),
                None => None,
            },
            confirm: match self.confirm {
                Some(c) => Some(c@),
                None => None,
            },
            form: match self.form {
                Some(f) => Some(f@),
                None => None,
            },
            outbox: self.outbox.deep_view(),
        }
    }
}

impl AppView {
    /// The selected row is a row of the list, and the focus of the form is on one of its fields.
    pub open spec fn wf(self) -> bool {
        &&& self.selected matches Some(i) ==> i < self.vms.len()
        &&& self.form matches Some(f) ==> 0 <= f.focus < f.fields.len()
    }

    pub open spec fn selected_vm(self) -> Option<VmView> {
        match self.selected {
            Some(i) => if i < self.vms.len() {
                Some(self.vms[i as int])
            } else {
                None
            },
            None => None,
        }
    }

    /// With one more request to the node.
    pub open spec fn asking(self, r: ReqView) -> AppView {
        AppView { outbox: self.outbox.push(r), ..self }
    }

    /// With the details of the selected VM open. Its addresses are asked for where it runs.
    pub open spec fn with_detail(self) -> AppView {
        match self.selected_vm() {
            Some(vm) => if vm.status == "running"@ {
                AppView {
                    detail: Some(Detail { vmid: vm.vmid, ips: IpStateView::Loading }),
                    ..self.asking(ReqView::Ips(vm.vmid))
                }
            } else {
                AppView {
                    detail: Some(Detail { vmid: vm.vmid, ips: IpStateView::NotRunning }),
                    ..self
                }
            },
            None => self,
        }
    }

    /// With the question whether to do something to the selected VM. A template can only be
    /// destroyed.
    pub open spec fn with_question(self, kind: ActionKind) -> AppView {
        match self.selected_vm() {
            Some(vm) => if vm.is_template && kind != ActionKind::Destroy {
                self
            } else {
                AppView {
                    confirm: Some(
                        ConfirmView { kind, vmid: vm.vmid, name: vm.name, running: false },
                    ),
                    ..self
                }
            },
            None => self,
        }
    }

    /// With the question answered: what it is about is asked of the node, once.
    pub open spec fn with_confirmation(self) -> AppView {
        match self.confirm {
            Some(c) => if c.running {
                self
            } else {
                AppView {
                    confirm: Some(ConfirmView { running: true, ..c }),
                    ..self.asking(ReqView::Action { vmid: c.vmid, kind: c.kind })
                }
            },
            None => self,
        }
    }

    /// With the selection moved down, from the last row to the first.
    pub open spec fn with_next(self) -> AppView {
        if self.vms.len() == 0 {
            self
        } else {
            AppView {
                selected: Some(
                    match self.selected {
                        Some(i) => ((i + 1) % self.vms.len() as int) as usize,
                        None => 0,
                    },
                ),
                ..self
            }
        }
    }

    /// With the selection moved up, from the first row to the last.
    pub open spec fn with_prev(self) -> AppView {
        if self.vms.len() == 0 {
            self
        } else {
            AppView {
                selected: Some(
                    match self.selected {
                        Some(i) => if i == 0 {
                            (self.vms.len() - 1) as usize
                        } else {
                            (i - 1) as usize
                        },
                        None => 0,
                    },
                ),
                ..self
            }
        }
    }

    /// With the list asked for again, and the addresses in the open details too, where they were
    /// asked for before and the answer has come.
    pub open spec fn with_refresh(self) -> AppView {
        let s = AppView { loading: true, ..self.asking(ReqView::Refresh) };
        match s.detail {
            Some(d) => if d.ips is Loaded || d.ips is Unavailable {
                AppView {
                    detail: Some(Detail { ips: IpStateView::Loading, ..d }),
                    ..s.asking(ReqView::Ips(d.vmid))
                }
            } else {
                s
            },
            None => s,
        }
    }

    pub open spec fn with_form(self, f: CreateFormView) -> AppView {
        AppView { form: Some(f), ..self }
    }
}

// ---------------------------------------------------------------------------------------------
// The create form.
/// The create form as it is opened.
pub open spec fn new_form(c: ConfigView) -> CreateFormView {
    CreateFormView {
        fields: seq![
            text_field("Name"@, ""@, "required"@),
            text_field("VM ID"@, ""@, "(next available)"@),
            uint_field("Cores"@, decimal(c.default_cores as nat)),
            uint_field("Memory (MB)"@, decimal(c.default_memory as nat)),
            uint_field("Disk (GB)"@, decimal(c.default_disk as nat)),
            text_field("IP"@, "dhcp"@, "dhcp or CIDR"@),
            text_field("Gateway"@, ""@, "(static IP only)"@),
            text_field("Nameserver"@, ""@, "(optional)"@),
            text_field("User"@, c.ci_user, "cloud-init user"@),
            text_field("Tags"@, ""@, "(optional, ;-separated)"@),
            bool_field("Full clone"@, c.default_full_clone),
            bool_field("Start after create"@, true),
            bool_field("Join Tailscale"@, c.tailscale_default),
        ],
        focus: 0,
        state: FormStateView::Editing(None),
        next_id: None,
    }
}

/// The value of a field after a character was typed into it.
pub open spec fn typed(f: FieldView, ch: char) -> Seq<char> {
    match f.kind {
        FieldKind::Text => f.value.push(ch),
        FieldKind::Uint => if is_digit(ch) {
            f.value.push(ch)
        } else {
            f.value
        },
        FieldKind::Bool => if ch == 'y' {
            "yes"@
        } else if ch == 'n' {
            "no"@
        } else if ch == ' ' {
            yes_no(f.value != "yes"@)
        } else {
            f.value
        },
    }
}

/// The value of a field after its last character was taken back.
pub open spec fn taken_back(f: FieldView) -> Seq<char> {
    if f.kind != FieldKind::Bool && f.value.len() > 0 {
        f.value.drop_last()
    } else {
        f.value
    }
}

impl CreateFormView {
    pub open spec fn focused(self) -> FieldView {
        self.fields[self.focus]
    }

    /// With another value in the field that has the focus.
    pub open spec fn with_value(self, v: Seq<char>) -> CreateFormView {
        CreateFormView {
            fields: self.fields.update(self.focus, FieldView { value: v, ..self.focused() }),
            ..self
        }
    }

    /// With the focus moved by `delta` fields, round the end.
    pub open spec fn moved(self, delta: int) -> CreateFormView {
        CreateFormView { focus: (self.focus + delta) % self.fields.len() as int, ..self }
    }
}

/// The first field from `from` on with the given label, or the number of fields where there is
/// none.
pub open spec fn field_at(fields: Seq<FieldView>, label: Seq<char>, from: int) -> int
    decreases fields.len() - from,
{
    if from >= fields.len() {
        fields.len() as int
    } else if fields[from].label == label {
        from
    } else {
        field_at(fields, label, from + 1)
    }
}

/// The value of the field with the given label, without white space around it.
pub open spec fn value_of(f: CreateFormView, label: Seq<char>) -> Seq<char> {
    let n = field_at(f.fields, label, 0);
    if n < f.fields.len() {
        trimmed(f.fields[n].value)
    } else {
        Seq::empty()
    }
}

/// Whether the switch with the given label is on.
pub open spec fn is_on(f: CreateFormView, label: Seq<char>) -> bool {
    let n = field_at(f.fields, label, 0);
    n < f.fields.len() && f.fields[n].value == "yes"@
}

/// The number in the field with the given label.
pub open spec fn number_of(f: CreateFormView, label: Seq<char>) -> Option<int> {
    read_uint(value_of(f, label), u32::MAX as int)
}

/// The public key that is installed into new VMs, from the attempt to read its file.
pub open spec fn public_key(
    c: ConfigView,
    read: Result<Seq<char>, Seq<char>>,
) -> Result<Seq<char>, Seq<char>> {
    match c.identity_file {
        None => Err("no SSH identity configured (set PVE_IDENTITY_FILE)"@),
        Some(id) => match read {
            Ok(key) => Ok(key),
            Err(e) => Err(
                "cannot read SSH public key "@ + (id + ".pub"@) + ": "@ + e,
            ),
        },
    }
}

/// The VM that a filled-in form asks for, or what is wrong with the form.
pub open spec fn requested(
    f: CreateFormView,
    c: ConfigView,
    read: Result<Seq<char>, Seq<char>>,
) -> Result<CreateSpecView, Seq<char>> {
    if value_of(f, "Name"@).len() == 0 {
        Err("Name is required"@)
    } else if value_of(f, "VM ID"@).len() > 0 && number_of(f, "VM ID"@) is None {
        Err("VM ID must be a number"@)
    } else if number_of(f, "Cores"@) is None {
        Err("Cores"@ + " must be a number"@)
    } else if number_of(f, "Memory (MB)"@) is None {
        Err("Memory (MB)"@ + " must be a number"@)
    } else if number_of(f, "Disk (GB)"@) is None {
        Err("Disk (GB)"@ + " must be a number"@)
    } else if value_of(f, "IP"@).len() == 0 {
        Err("IP is required (dhcp or a CIDR)"@)
    } else if is_on(f, "Join Tailscale"@) && c.tailscale_authkey is None {
        Err("Join Tailscale needs PVE_TAILSCALE_AUTHKEY in the config"@)
    } else {
        match public_key(c, read) {
            Err(e) => Err(e),
            Ok(key) => Ok(
                CreateSpecView {
                    name: value_of(f, "Name"@),
                    vmid: if value_of(f, "VM ID"@).len() == 0 {
                        None
                    } else {
                        Some((number_of(f, "VM ID"@)->0) as u32)
                    },
                    cores: (number_of(f, "Cores"@)->0) as u32,
                    memory: (number_of(f, "Memory (MB)"@)->0) as u32,
                    disk: (number_of(f, "Disk (GB)"@)->0) as u32,
                    ip: value_of(f, "IP"@),
                    gateway: non_empty(value_of(f, "Gateway"@)),
                    nameserver: non_empty(value_of(f, "Nameserver"@)),
                    ci_user: if value_of(f, "User"@).len() == 0 {
                        c.ci_user
                    } else {
                        value_of(f, "User"@)
                    },
                    ssh_pubkey: key,
                    full_clone: is_on(f, "Full clone"@),
                    start: is_on(f, "Start after create"@),
                    tags: non_empty(value_of(f, "Tags"@)),
                    tailscale: is_on(f, "Join Tailscale"@),
                },
            ),
        }
    }
}

impl AppView {
    pub open spec fn with_new_form(self) -> AppView {
        self.with_form(new_form(self.cfg)).asking(ReqView::NextId)
    }

    /// With the form handed to the node, or with what is wrong with it.
    pub open spec fn with_submission(self, read: Result<Seq<char>, Seq<char>>) -> AppView {
        match self.form {
            Some(f) => match requested(f, self.cfg, read) {
                Ok(s) => self.asking(ReqView::Create(s)).with_form(
                    CreateFormView { state: FormStateView::Submitting, ..f },
                ),
                Err(m) => self.with_form(
                    CreateFormView { state: FormStateView::Editing(Some(m)), ..f },
                ),
            },
            None => self,
        }
    }
}

// ---------------------------------------------------------------------------------------------
// News from the node.
/// The first line of a message, without the words that every failed command starts with, cut to
/// fit beside a label.
pub open spec fn brief(e: Seq<char>) -> Seq<char> {
    let first = trimmed(
        if lines_of(e).len() > 0 {
            lines_of(e)[0]
        } else {
            e
        },
    );
    let s = trimmed(
        match after_prefix(first, "remote command failed: "@) {
            Some(rest) => rest,
            None => first,
        },
    );
    shortened(s, 30)
}

/// Trims a message into a short reason on one line.
pub fn short_reason(e: &str) -> (r: String)
    ensures
        r@ == brief(e@),
{
    let ls: Vec<&str> = lines(e);
    assert(ls.deep_view().len() == ls@.len());
    let first: &str = if ls.len() > 0 {
        assert(ls.deep_view()[0] == ls@[0]@);
        trim(ls[0])
    } else {
        trim(e)
    };
    let s: &str = match strip_prefix(first, "remote command failed: ") {
        Some(rest) => trim(rest),
        None => trim(first),
    };
    truncate(s, 30)
}

/// The selected row of a list of `n` rows, where another list was shown before.
pub open spec fn reselected(selected: Option<usize>, n: nat) -> Option<usize> {
    match selected {
        _ if n == 0 => None,
        None => Some(0),
        Some(i) => if i < n {
            Some(i)
        } else {
            Some((n - 1) as usize)
        },
    }
}

impl AppView {
    pub open spec fn with_form_state(self, state: FormStateView) -> AppView {
        match self.form {
            Some(f) => self.with_form(CreateFormView { state, ..f }),
            None => self,
        }
    }

    /// With news from the node taken into account, at the time `now`.
    pub open spec fn with_update(self, u: UpdateView, now: u64) -> AppView {
        match u {
            UpdateView::Vms(vms) => AppView {
                vms,
                error: None,
                loading: false,
                last_update: Some(now),
                selected: reselected(self.selected, vms.len()),
                ..self
            },
            UpdateView::Error(e) => AppView { error: Some(e), loading: false, ..self },
            UpdateView::Ips { vmid, result } => match self.detail {
                Some(d) => if d.vmid == vmid {
                    AppView {
                        detail: Some(
                            Detail {
                                ips: match result {
                                    Ok(ips) => IpStateView::Loaded(ips),
                                    Err(e) => IpStateView::Unavailable(brief(e)),
                                },
                                ..d
                            },
                        ),
                        ..self
                    }
                } else {
                    self
                },
                None => self,
            },
            UpdateView::ActionDone { kind, result } => AppView {
                confirm: None,
                error: match result {
                    Ok(_) => None,
                    Err(e) => Some(kind.verb_text() + " failed: "@ + brief(e)),
                },
                ..self
            },
            UpdateView::NextId(id) => match self.form {
                Some(f) => self.with_form(CreateFormView { next_id: Some(id), ..f }),
                None => self,
            },
            UpdateView::CreateDone(result) => match result {
                Ok(o) => AppView {
                    error: None,
                    ..self.with_form_state(FormStateView::Done(o))
                },
                Err(e) => self.with_form_state(FormStateView::Editing(Some(brief(e)))),
            },
        }
    }
}

// ---------------------------------------------------------------------------------------------
// Keys.
/// A key that was pressed.
#[derive(Debug, Clone, Copy, PartialEq, Eq, Structural)]
pub enum Key {
    Char(char),
    Enter,
    Esc,
    Up,
    Down,
    Left,
    Right,
    Tab,
    BackTab,
    Backspace,
    Other,
}

/// What is to follow a key.
#[derive(Debug, Clone, Copy, PartialEq, Eq, Structural)]
pub enum KeyOutcome {
    Stay,
    /// The dashboard is left.
    Quit,
    /// The form is to be submitted, with the public key that is installed into the VM.
    Submit,
}

impl AppView {
    /// What a key does while the form is open.
    pub open spec fn form_key(self, key: Key) -> (AppView, KeyOutcome) {
        match self.form {
            None => (self, KeyOutcome::Stay),
            Some(f) => match f.state {
                FormStateView::Submitting => (self, KeyOutcome::Stay),
                FormStateView::Done(_) => (AppView { form: None, ..self }, KeyOutcome::Stay),
                FormStateView::Editing(_) => match key {
                    Key::Esc => (AppView { form: None, ..self }, KeyOutcome::Stay),
                    Key::Enter => (self, KeyOutcome::Submit),
                    Key::Up | Key::BackTab => (self.with_form(f.moved(-1)), KeyOutcome::Stay),
                    Key::Down | Key::Tab => (self.with_form(f.moved(1)), KeyOutcome::Stay),
                    Key::Backspace => (
                        self.with_form(f.with_value(taken_back(f.focused()))),
                        KeyOutcome::Stay,
                    ),
                    Key::Left | Key::Right => if f.focused().kind == FieldKind::Bool {
                        (self.with_form(f.with_value(typed(f.focused(), ' '))), KeyOutcome::Stay)
                    } else {
                        (self, KeyOutcome::Stay)
                    },
                    Key::Char(c) => (
                        self.with_form(f.with_value(typed(f.focused(), c))),
                        KeyOutcome::Stay,
                    ),
                    Key::Other => (self, KeyOutcome::Stay),
                },
            },
        }
    }

    /// What a key does while a question is open.
    pub open spec fn confirm_key(self, key: Key) -> AppView {
        match self.confirm {
            None => self,
            Some(c) => if c.running {
                self
            } else {
                match key {
                    Key::Char('y') | Key::Enter => self.with_confirmation(),
                    Key::Char('n') | Key::Esc => AppView { confirm: None, ..self },
                    _ => self,
                }
            },
        }
    }

    /// What a key does while the details of a VM are open.
    pub open spec fn detail_key(self, key: Key) -> (AppView, KeyOutcome) {
        match key {
            Key::Char('q') => (self, KeyOutcome::Quit),
            Key::Esc | Key::Enter => (AppView { detail: None, ..self }, KeyOutcome::Stay),
            Key::Char('r') => (self.with_refresh(), KeyOutcome::Stay),
            _ => (self, KeyOutcome::Stay),
        }
    }

    /// What a key does in the list.
    pub open spec fn list_key(self, key: Key) -> (AppView, KeyOutcome) {
        match key {
            Key::Char('q') | Key::Esc => (self, KeyOutcome::Quit),
            Key::Enter => (self.with_detail(), KeyOutcome::Stay),
            Key::Char('j') | Key::Down => (self.with_next(), KeyOutcome::Stay),
            Key::Char('k') | Key::Up => (self.with_prev(), KeyOutcome::Stay),
            Key::Char('s') => (self.with_question(ActionKind::Start), KeyOutcome::Stay),
            Key::Char('x') => (self.with_question(ActionKind::Stop), KeyOutcome::Stay),
            Key::Char('d') => (self.with_question(ActionKind::Destroy), KeyOutcome::Stay),
            Key::Char('c') => (self.with_new_form(), KeyOutcome::Stay),
            Key::Char('r') => (self.with_refresh(), KeyOutcome::Stay),
            _ => (self, KeyOutcome::Stay),
        }
    }

    /// What a key does. The form comes before a question, that before the details, and those
    /// before the list.
    pub open spec fn after_key(self, key: Key) -> (AppView, KeyOutcome) {
        if self.form is Some {
            self.form_key(key)
        } else if self.confirm is Some {
            (self.confirm_key(key), KeyOutcome::Stay)
        } else if self.detail is Some {
            self.detail_key(key)
        } else {
            self.list_key(key)
        }
    }
}

// ---------------------------------------------------------------------------------------------
// The dashboard at work.
/// The dashboard as it is opened, before the first answer of the node.
pub open spec fn new_app(c: ConfigView) -> AppView {
    AppView {
        cfg: c,
        vms: Seq::empty(),
        selected: None,
        error: None,
        last_update: None,
        loading: true,
        detail: None,
        confirm: None,
        form: None,
        outbox: Seq::empty(),
    }
}

impl App {
    /// The dashboard as it is opened, before the first answer of the node.
    pub fn new(cfg: Config) -> (r: App)
        ensures
            r@ == new_app(cfg@),
            r@.wf(),
    {
        let r = App {
            cfg,
            vms: Vec::new(),
            selected: None,
            error: None,
            last_update: None,
            loading: true,
            detail: None,
            confirm: None,
            form: None,
            outbox: Vec::new(),
        };
        assert(r@ =~= new_app(cfg@));
        r
    }

    /// Hands over what is to be asked of the node.
    pub fn take_requests(&mut self) -> (r: Vec<Req>)
        ensures
            r.deep_view() == old(self)@.outbox,
            final(self)@ == (AppView { outbox: Seq::empty(), ..old(self)@ }),
    {
        let mut out: Vec<Req> = Vec::new();
        std::mem::swap(&mut out, &mut self.outbox);
        assert(self.outbox.deep_view() =~= Seq::<ReqView>::empty());
        out
    }

    fn ask(&mut self, r: Req)
        ensures
            final(self)@ == old(self)@.asking(r@),
            final(self).cfg == old(self).cfg,
            final(self).vms == old(self).vms,
            final(self).selected == old(self).selected,
            final(self).error == old(self).error,
            final(self).last_update == old(self).last_update,
            final(self).loading == old(self).loading,
            final(self).detail == old(self).detail,
            final(self).confirm == old(self).confirm,
            final(self).form == old(self).form,
    {
        self.outbox.push(r);
        assert(self@.outbox =~= old(self)@.outbox.push(r@));
    }

    /// The VM of the selected row.
    pub fn selected_vm(&self) -> (r: Option<&Vm>)
        ensures
            match r {
                Some(vm) => self@.selected_vm() == Some(vm@),
                None => self@.selected_vm() is None,
            },
    {
        match self.selected {
            Some(i) => if i < self.vms.len() {
                Some(&self.vms[i])
            } else {
                None
            },
            None => None,
        }
    }

    /// Opens the details of the selected VM. Its addresses are asked for where it runs.
    pub fn open_detail(&mut self)
        ensures
            final(self)@ == old(self)@.with_detail(),
    {
        let (vmid, running): (u32, bool) = match self.selected_vm() {
            Some(vm) => (vm.vmid, vm.is_running()),
            None => {
                return;
            },
        };
        let ips: IpState = if running {
            self.ask(Req::Ips(vmid));
            IpState::Loading
        } else {
            IpState::NotRunning
        };
        self.detail = Some(DetailView { vmid, ips });
    }
}

/// The first VM from `from` on with the given id.
pub open spec fn vm_with_id(vms: Seq<VmView>, id: u32, from: int) -> Option<VmView>
    decreases vms.len() - from,
{
    if from >= vms.len() {
        None
    } else if vms[from].vmid == id {
        Some(vms[from])
    } else {
        vm_with_id(vms, id, from + 1)
    }
}

impl AppView {
    /// The VM whose details are open, where the list still has it.
    pub open spec fn detail_vm(self) -> Option<VmView> {
        match self.detail {
            Some(d) => vm_with_id(self.vms, d.vmid, 0),
            None => None,
        }
    }
}

impl App {
    /// The VM whose details are open, as the list has it now.
    pub fn detail_vm(&self) -> (r: Option<&Vm>)
        ensures
            match r {
                Some(vm) => self@.detail_vm() == Some(vm@),
                None => self@.detail_vm() is None,
            },
    {
        let id: u32 = match &self.detail {
            Some(d) => d.vmid,
            None => {
                return None;
            },
        };
        let mut i: usize = 0;
        while i < self.vms.len()
            invariant
                i <= self.vms@.len(),
                self@.detail matches Some(d) && d.vmid == id,
                self@.detail_vm() == vm_with_id(self@.vms, id, i as int),
            decreases self.vms@.len() - i,
        {
            assert(self@.vms[i as int] == self.vms@[i as int]@);
            if self.vms[i].vmid == id {
                return Some(&self.vms[i]);
            }
            i = i + 1;
        }
        None
    }

    /// Asks whether to do something to the selected VM. A template is neither started nor
    /// stopped.
    pub fn begin_action(&mut self, kind: ActionKind)
        ensures
            final(self)@ == old(self)@.with_question(kind),
    {
        let c: Confirm = match self.selected_vm() {
            Some(vm) => {
                if vm.is_template && kind != ActionKind::Destroy {
                    return;
                }
                Confirm { kind, vmid: vm.vmid, name: vm.name.clone(), running: false }
            },
            None => {
                return;
            },
        };
        self.confirm = Some(c);
    }

    /// Does what was asked about, unless it is being done already.
    pub fn confirm_action(&mut self)
        ensures
            final(self)@ == old(self)@.with_confirmation(),
    {
        let (vmid, kind): (u32, ActionKind) = match &mut self.confirm {
            Some(c) => {
                if c.running {
                    return;
                }
                c.running = true;
                (c.vmid, c.kind)
            },
            None => {
                return;
            },
        };
        self.ask(Req::Action { vmid, kind });
    }

    /// Opens the create form, with the settings' defaults, and asks for the next free id.
    pub fn open_form(&mut self)
        ensures
            final(self)@ == old(self)@.with_new_form(),
    {
        let fields: Vec<Field> = vec![
            Field::text("Name", "".to_owned(), "required"),
            Field::text("VM ID", "".to_owned(), "(next available)"),
            Field::uint("Cores", uint_text(self.cfg.default_cores as u64)),
            Field::uint("Memory (MB)", uint_text(self.cfg.default_memory as u64)),
            Field::uint("Disk (GB)", uint_text(self.cfg.default_disk as u64)),
            Field::text("IP", "dhcp".to_owned(), "dhcp or CIDR"),
            Field::text("Gateway", "".to_owned(), "(static IP only)"),
            Field::text("Nameserver", "".to_owned(), "(optional)"),
            Field::text("User", self.cfg.ci_user.clone(), "cloud-init user"),
            Field::text("Tags", "".to_owned(), "(optional, ;-separated)"),
            Field::boolean("Full clone", self.cfg.default_full_clone),
            Field::boolean("Start after create", true),
            Field::boolean("Join Tailscale", self.cfg.tailscale_default),
        ];
        assert(fields.deep_view() =~= new_form(self.cfg@).fields);
        self.form = Some(
            CreateForm { fields, focus: 0, state: FormState::Editing(None), next_id: None },
        );
        assert(self@.form == Some(new_form(self.cfg@)));
        self.ask(Req::NextId);
    }

    /// Selects the next row, from the last the first.
    pub fn next(&mut self)
        requires
            old(self)@.wf(),
        ensures
            final(self)@ == old(self)@.with_next(),
    {
        let n: usize = self.vms.len();
        if n == 0 {
            return;
        }
        let i: usize = match self.selected {
            Some(i) => if i + 1 == n {
                0
            } else {
                i + 1
            },
            None => 0,
        };
        assert(match self.selected {
            Some(j) => i == (j + 1) % n as int,
            None => i == 0,
        }) by {
            if let Some(j) = self.selected {
                if j + 1 < n {
                    vstd::arithmetic::div_mod::lemma_small_mod((j + 1) as nat, n as nat);
                } else {
                    vstd::arithmetic::div_mod::lemma_mod_self_0(n as int);
                }
            }
        }
        self.selected = Some(i);
    }

    /// Selects the previous row, from the first the last.
    pub fn prev(&mut self)
        requires
            old(self)@.wf(),
        ensures
            final(self)@ == old(self)@.with_prev(),
    {
        if self.vms.len() == 0 {
            return;
        }
        let i: usize = match self.selected {
            Some(i) => if i == 0 {
                self.vms.len() - 1
            } else {
                i - 1
            },
            None => 0,
        };
        self.selected = Some(i);
    }

    /// Asks for the list again, and for the addresses in the open details where they were
    /// answered before.
    pub fn request_refresh(&mut self)
        ensures
            final(self)@ == old(self)@.with_refresh(),
    {
        self.loading = true;
        self.ask(Req::Refresh);
        let vmid: u32 = match &mut self.detail {
            Some(d) => {
                match &d.ips {
                    IpState::Loaded(_) | IpState::Unavailable(_) => {},
                    _ => {
                        return;
                    },
                }
                d.ips = IpState::Loading;
                d.vmid
            },
            None => {
                return;
            },
        };
        self.ask(Req::Ips(vmid));
    }
}

/// The text that was read, or why it was not.
pub open spec fn read_view(r: Result<String, String>) -> Result<Seq<char>, Seq<char>> {
    match r {
        Ok(t) => Ok(t@),
        Err(e) => Err(e@),
    }
}

/// A `VM` to create, or what is wrong with the form, as models.
pub open spec fn spec_view(r: Result<CreateSpec, String>) -> Result<CreateSpecView, Seq<char>> {
    match r {
        Ok(s) => Ok(s@),
        Err(e) => Err(e@),
    }
}

impl App {
    /// Moves the focus by `delta` fields, round the end.
    pub fn form_move(&mut self, delta: isize)
        requires
            old(self)@.wf(),
        ensures
            final(self)@ == (match old(self)@.form {
                Some(f) => old(self)@.with_form(f.moved(delta as int)),
                None => old(self)@,
            }),
    {
        if let Some(f) = &mut self.form {
            let n: usize = f.fields.len();
            let focus: usize = f.focus;
            // What is still to be moved forward, below the number of fields.
            let ahead: usize = if delta >= 0 {
                delta as usize % n
            } else {
                let back: usize = (-(delta + 1)) as usize % n;
                n - 1 - back
            };
            let to: usize = if ahead < n - focus {
                focus + ahead
            } else {
                ahead - (n - focus)
            };
            proof {
                lemma_moved(focus as int, delta as int, ahead as int, n as int);
            }
            f.focus = to;
        }
    }

    /// Types a character into the field that has the focus.
    pub fn form_char(&mut self, ch: char)
        requires
            old(self)@.wf(),
        ensures
            final(self)@ == (match old(self)@.form {
                Some(f) => old(self)@.with_form(f.with_value(typed(f.focused(), ch))),
                None => old(self)@,
            }),
    {
        if let Some(f) = &mut self.form {
            let ghost before = f@;
            let at: usize = f.focus;
            assert(before.focused() == f.fields@[at as int]@);
            let kind: FieldKind = f.fields[at].kind;
            let mut value: String = f.fields[at].value.clone();
            match kind {
                FieldKind::Text => {
                    value.push(ch);
                },
                FieldKind::Uint => {
                    if '0' <= ch && ch <= '9' {
                        value.push(ch);
                    }
                },
                FieldKind::Bool => {
                    if ch == 'y' {
                        value = "yes".to_owned();
                    } else if ch == 'n' {
                        value = "no".to_owned();
                    } else if ch == ' ' {
                        value = if f.fields[at].is_on() {
                            "no".to_owned()
                        } else {
                            "yes".to_owned()
                        };
                    }
                },
            }
            f.fields[at].value = value;
            assert(f@.fields =~= before.with_value(typed(before.focused(), ch)).fields);
        }
    }

    /// Takes the last character of the field that has the focus back. A switch has none.
    pub fn form_backspace(&mut self)
        requires
            old(self)@.wf(),
        ensures
            final(self)@ == (match old(self)@.form {
                Some(f) => old(self)@.with_form(f.with_value(taken_back(f.focused()))),
                None => old(self)@,
            }),
    {
        if let Some(f) = &mut self.form {
            let ghost before = f@;
            let at: usize = f.focus;
            assert(before.focused() == f.fields@[at as int]@);
            if f.fields[at].kind != FieldKind::Bool {
                let cs: Vec<char> = chars_of(f.fields[at].value.as_str());
                if cs.len() > 0 {
                    let value: String = string_of(&cs, 0, cs.len() - 1);
                    assert(value@ =~= before.focused().value.drop_last());
                    f.fields[at].value = value;
                }
            }
            assert(f@.fields =~= before.with_value(taken_back(before.focused())).fields);
        }
    }

    fn field_index(form: &CreateForm, label: &str) -> (r: Option<usize>)
        ensures
            match r {
                Some(i) => i < form@.fields.len() && i == field_at(form@.fields, label@, 0),
                None => field_at(form@.fields, label@, 0) == form@.fields.len(),
            },
    {
        let mut i: usize = 0;
        while i < form.fields.len()
            invariant
                i <= form.fields@.len(),
                field_at(form@.fields, label@, 0) == field_at(form@.fields, label@, i as int),
            decreases form.fields@.len() - i,
        {
            assert(form@.fields[i as int] == form.fields@[i as int]@);
            if same_text(form.fields[i].label, label) {
                return Some(i);
            }
            i = i + 1;
        }
        None
    }

    /// The value of the field with the given label, without white space around it.
    pub fn field_value(form: &CreateForm, label: &str) -> (r: String)
        ensures
            r@ == value_of(form@, label@),
    {
        match Self::field_index(form, label) {
            Some(i) => {
                assert(form@.fields[i as int] == form.fields@[i as int]@);
                trim(form.fields[i].value.as_str()).to_owned()
            },
            None => String::new(),
        }
    }

    /// Whether the switch with the given label is on.
    pub fn field_on(form: &CreateForm, label: &str) -> (r: bool)
        ensures
            r == is_on(form@, label@),
    {
        match Self::field_index(form, label) {
            Some(i) => {
                assert(form@.fields[i as int] == form.fields@[i as int]@);
                form.fields[i].is_on()
            },
            None => false,
        }
    }

    fn field_number(form: &CreateForm, label: &str) -> (r: Result<u32, String>)
        ensures
            match r {
                Ok(n) => number_of(form@, label@) == Some(n as int),
                Err(m) => number_of(form@, label@) is None && m@ == label@
                    + " must be a number"@,
            },
    {
        match parse_u32(Self::field_value(form, label).as_str()) {
            Some(n) => Ok(n),
            None => {
                let mut m: String = label.to_owned();
                m.append(" must be a number");
                Err(m)
            },
        }
    }

    /// The file that holds the public key, where an identity is set.
    pub fn pubkey_path(&self) -> (r: Option<String>)
        ensures
            match r {
                Some(p) => self@.cfg.identity_file is Some && p@ == self@.cfg.identity_file->0
                    + ".pub"@,
                None => self@.cfg.identity_file is None,
            },
    {
        match &self.cfg.identity_file {
            Some(id) => {
                let mut p: String = id.clone();
                p.append(".pub");
                Some(p)
            },
            None => None,
        }
    }

    /// The public key that is installed into new VMs, from the attempt to read its file.
    pub fn read_pubkey(&self, read: &Result<String, String>) -> (r: Result<String, String>)
        ensures
            read_view(r) == public_key(self@.cfg, read_view(*read)),
    {
        match self.pubkey_path() {
            None => Err("no SSH identity configured (set PVE_IDENTITY_FILE)".to_owned()),
            Some(p) => match read {
                Ok(key) => Ok(key.clone()),
                Err(e) => {
                    let mut m: String = "cannot read SSH public key ".to_owned();
                    m.append(p.as_str());
                    m.append(": ");
                    m.append(e.as_str());
                    Err(m)
                },
            },
        }
    }

    /// The VM that a form asks for, or what is wrong with the form. The public key that is
    /// installed into the VM comes from the attempt to read its file.
    pub fn build_spec(&self, form: &CreateForm, read: &Result<String, String>) -> (r: Result<
        CreateSpec,
        String,
    >)
        ensures
            spec_view(r) == requested(form@, self@.cfg, read_view(*read)),
    {
        let name: String = Self::field_value(form, "Name");
        if name.as_str().unicode_len() == 0 {
            return Err("Name is required".to_owned());
        }
        let raw: String = Self::field_value(form, "VM ID");
        let vmid: Option<u32> = if raw.as_str().unicode_len() == 0 {
            None
        } else {
            match parse_u32(raw.as_str()) {
                Some(n) => Some(n),
                None => {
                    return Err("VM ID must be a number".to_owned());
                },
            }
        };
        let cores: u32 = match Self::field_number(form, "Cores") {
            Ok(n) => n,
            Err(m) => {
                return Err(m);
            },
        };
        let memory: u32 = match Self::field_number(form, "Memory (MB)") {
            Ok(n) => n,
            Err(m) => {
                return Err(m);
            },
        };
        let disk: u32 = match Self::field_number(form, "Disk (GB)") {
            Ok(n) => n,
            Err(m) => {
                return Err(m);
            },
        };
        let ip: String = Self::field_value(form, "IP");
        if ip.as_str().unicode_len() == 0 {
            return Err("IP is required (dhcp or a CIDR)".to_owned());
        }
        let user: String = Self::field_value(form, "User");
        let tailscale: bool = Self::field_on(form, "Join Tailscale");
        if tailscale && self.cfg.tailscale_authkey.is_none() {
            return Err("Join Tailscale needs PVE_TAILSCALE_AUTHKEY in the config".to_owned());
        }
        let ssh_pubkey: String = match self.read_pubkey(read) {
            Ok(k) => k,
            Err(m) => {
                return Err(m);
            },
        };
        Ok(
            CreateSpec {
                name,
                vmid,
                cores,
                memory,
                disk,
                ip,
                gateway: some_if_not_empty(Self::field_value(form, "Gateway")),
                nameserver: some_if_not_empty(Self::field_value(form, "Nameserver")),
                ci_user: if user.as_str().unicode_len() == 0 {
                    self.cfg.ci_user.clone()
                } else {
                    user
                },
                ssh_pubkey,
                full_clone: Self::field_on(form, "Full clone"),
                start: Self::field_on(form, "Start after create"),
                tags: some_if_not_empty(Self::field_value(form, "Tags")),
                tailscale,
            },
        )
    }

    /// Hands the form to the node, or shows what is wrong with it.
    pub fn submit_form(&mut self, read: &Result<String, String>)
        ensures
            final(self)@ == old(self)@.with_submission(read_view(*read)),
    {
        let built: Result<CreateSpec, String> = match &self.form {
            Some(form) => self.build_spec(form, read),
            None => {
                return;
            },
        };
        match built {
            Ok(s) => {
                self.ask(Req::Create(s));
                if let Some(f) = &mut self.form {
                    f.state = FormState::Submitting;
                }
            },
            Err(m) => {
                if let Some(f) = &mut self.form {
                    f.state = FormState::Editing(Some(m));
                }
            },
        }
    }
}

/// A move by `delta` is one forward by `ahead`, where the two differ by a whole number of rounds.
proof fn lemma_moved(focus: int, delta: int, ahead: int, n: int)
    requires
        0 <= focus < n,
        0 <= ahead < n,
        if delta >= 0 {
            ahead == delta % n
        } else {
            ahead == n - 1 - (-(delta + 1)) % n
        },
    ensures
        (focus + delta) % n == (if ahead < n - focus {
            focus + ahead
        } else {
            ahead - (n - focus)
        }),
{
    let to = if ahead < n - focus {
        focus + ahead
    } else {
        ahead - (n - focus)
    };
    let rounds = if delta >= 0 {
        delta / n
    } else {
        -1 - (-(delta + 1)) / n
    };
    assert(delta == rounds * n + ahead) by {
        if delta >= 0 {
            vstd::arithmetic::div_mod::lemma_fundamental_div_mod(delta, n);
            assert(n * (delta / n) == (delta / n) * n) by (nonlinear_arith);
        } else {
            let m = -(delta + 1);
            vstd::arithmetic::div_mod::lemma_fundamental_div_mod(m, n);
            assert((-1 - m / n) * n == -n - n * (m / n)) by (nonlinear_arith);
        }
    }
    let q = if ahead < n - focus {
        rounds
    } else {
        rounds + 1
    };
    assert(focus + delta == q * n + to) by (nonlinear_arith)
        requires
            delta == rounds * n + ahead,
            q == (if ahead < n - focus {
                rounds
            } else {
                rounds + 1
            }),
            to == (if ahead < n - focus {
                focus + ahead
            } else {
                ahead - (n - focus)
            }),
    ;
    vstd::arithmetic::div_mod::lemma_fundamental_div_mod_converse(focus + delta, n, q, to);
}

impl App {
    /// Takes news from the node into account, at the time `now`.
    pub fn apply_update(&mut self, update: Update, now: u64)
        ensures
            final(self)@ == old(self)@.with_update(update@, now),
            old(self)@.wf() ==> final(self)@.wf(),
    {
        match update {
            Update::Vms(vms) => {
                let n: usize = vms.len();
                self.vms = vms;
                self.error = None;
                self.loading = false;
                self.last_update = Some(now);
                self.selected = if n == 0 {
                    None
                } else {
                    match self.selected {
                        None => Some(0),
                        Some(i) => if i < n {
                            Some(i)
                        } else {
                            Some(n - 1)
                        },
                    }
                };
            },
            Update::Error(e) => {
                self.error = Some(e);
                self.loading = false;
            },
            Update::Ips { vmid, result } => {
                if let Some(d) = &mut self.detail {
                    if d.vmid == vmid {
                        d.ips = match result {
                            Ok(ips) => IpState::Loaded(ips),
                            Err(e) => IpState::Unavailable(short_reason(e.as_str())),
                        };
                    }
                }
            },
            Update::ActionDone { kind, result } => {
                self.confirm = None;
                self.error = match result {
                    Ok(_) => None,
                    Err(e) => {
                        let mut m: String = kind.verb().to_owned();
                        m.append(" failed: ");
                        m.append(short_reason(e.as_str()).as_str());
                        Some(m)
                    },
                };
            },
            Update::NextId(id) => {
                if let Some(f) = &mut self.form {
                    f.next_id = Some(id);
                }
            },
            Update::CreateDone(result) => {
                match result {
                    Ok(outcome) => {
                        if let Some(f) = &mut self.form {
                            f.state = FormState::Done(outcome);
                        }
                        self.error = None;
                    },
                    Err(e) => {
                        if let Some(f) = &mut self.form {
                            f.state = FormState::Editing(Some(short_reason(e.as_str())));
                        }
                    },
                }
            },
        }
    }

    /// Acts on a key.
    pub fn handle_key(&mut self, key: Key) -> (r: KeyOutcome)
        requires
            old(self)@.wf(),
        ensures
            (final(self)@, r) == old(self)@.after_key(key),
            final(self)@.wf(),
    {
        proof {
            lemma_key_keeps_wf(self@, key);
        }
        if self.form.is_some() {
            return handle_form_key(self, key);
        }
        if let Some(c) = &self.confirm {
            if !c.running {
                match key {
                    Key::Char('y') | Key::Enter => {
                        self.confirm_action();
                    },
                    Key::Char('n') | Key::Esc => {
                        self.confirm = None;
                    },
                    _ => {},
                }
            }
            return KeyOutcome::Stay;
        }
        if self.detail.is_some() {
            match key {
                Key::Char('q') => {
                    return KeyOutcome::Quit;
                },
                Key::Esc | Key::Enter => {
                    self.detail = None;
                },
                Key::Char('r') => {
                    self.request_refresh();
                },
                _ => {},
            }
            return KeyOutcome::Stay;
        }
        match key {
            Key::Char('q') | Key::Esc => {
                return KeyOutcome::Quit;
            },
            Key::Enter => {
                self.open_detail();
            },
            Key::Char('j') | Key::Down => {
                self.next();
            },
            Key::Char('k') | Key::Up => {
                self.prev();
            },
            Key::Char('s') => {
                self.begin_action(ActionKind::Start);
            },
            Key::Char('x') => {
                self.begin_action(ActionKind::Stop);
            },
            Key::Char('d') => {
                self.begin_action(ActionKind::Destroy);
            },
            Key::Char('c') => {
                self.open_form();
            },
            Key::Char('r') => {
                self.request_refresh();
            },
            _ => {},
        }
        KeyOutcome::Stay
    }
}

/// Acts on a key while the form is open.
pub fn handle_form_key(app: &mut App, key: Key) -> (r: KeyOutcome)
    requires
        old(app)@.wf(),
    ensures
        (final(app)@, r) == old(app)@.form_key(key),
{
    let (editing, done, is_switch): (bool, bool, bool) = match &app.form {
        Some(f) => {
            assert(f@.focused() == f.fields@[f.focus as int]@);
            let is_switch: bool = f.fields[f.focus].kind == FieldKind::Bool;
            match &f.state {
                FormState::Editing(_) => (true, false, is_switch),
                FormState::Submitting => (false, false, is_switch),
                FormState::Done(_) => (false, true, is_switch),
            }
        },
        None => {
            return KeyOutcome::Stay;
        },
    };
    if done {
        app.form = None;
    } else if editing {
        match key {
            Key::Esc => {
                app.form = None;
            },
            Key::Enter => {
                return KeyOutcome::Submit;
            },
            Key::Up | Key::BackTab => {
                app.form_move(-1);
            },
            Key::Down | Key::Tab => {
                app.form_move(1);
            },
            Key::Backspace => {
                app.form_backspace();
            },
            Key::Left | Key::Right => {
                if is_switch {
                    app.form_char(' ');
                }
            },
            Key::Char(c) => {
                app.form_char(c);
            },
            Key::Other => {},
        }
    }
    KeyOutcome::Stay
}

/// A key leaves the selected row and the focus in range.
proof fn lemma_key_keeps_wf(a: AppView, key: Key)
    requires
        a.wf(),
    ensures
        a.after_key(key).0.wf(),
{
    if let Some(f) = a.form {
        let n = f.fields.len() as int;
        vstd::arithmetic::div_mod::lemma_mod_bound(f.focus - 1, n);
        vstd::arithmetic::div_mod::lemma_mod_bound(f.focus + 1, n);
    }
    if a.vms.len() > 0 {
        if let Some(i) = a.selected {
            vstd::arithmetic::div_mod::lemma_mod_bound(i + 1, a.vms.len() as int);
        }
    }
}

} // verus!
