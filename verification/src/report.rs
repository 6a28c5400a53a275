//! What is printed: the state of the connection and the node, and the list of VMs.
use vstd::prelude::*;

use crate::config::{Config, ConfigView};
use crate::model::{uptime_text, Vm, VmView};
use crate::node::{NodeInfo, NodeInfoView};
use crate::number::{decimal, uint_text};
use crate::screen::{Figures, FiguresView};
use crate::text::{
    join, joined, opt_text, pad_left, pad_right, padded_left, padded_right, shortened, truncate,
};

verus! {

fn tell(says: &mut Vec<String>, line: String)
    ensures
        final(says).deep_view() == old(says).deep_view().push(line@),
{
    let ghost before = says.deep_view();
    says.push(line);
    assert(says.deep_view() =~= before.push(line@));
}

/// Two texts, one behind the other.
fn pair(a: &str, b: &str) -> (r: String)
    ensures
        r@ == a@ + b@,
{
    let mut out: String = a.to_owned();
    out.append(b);
    out
}

// ---------------------------------------------------------------------------------------------
// The state of the connection and the node.
/// Names, with commas between them; a dash where there are none.
pub open spec fn names_or_dash(names: Seq<Seq<char>>) -> Seq<char> {
    if names.len() == 0 {
        "—"@
    } else {
        joined(names, ", "@)
    }
}

/// Names, with commas between them; a dash where there are none.
pub fn join_or_dash(items: &Vec<String>) -> (r: String)
    ensures
        r@ == names_or_dash(items.deep_view()),
{
    assert(items.deep_view().len() == items@.len());
    if items.len() == 0 {
        "—".to_owned()
    } else {
        join(items, ", ")
    }
}

/// What the node is asked next.
#[derive(Debug, Clone, Copy, PartialEq, Eq, Structural)]
pub enum Probe {
    NodeInfo,
    Storages,
    Bridges,
    Done,
}

/// The examination of a node: what was asked, and what came of it. A list that was asked for and
/// not given is `Some(None)`.
pub struct Doctor {
    pub cfg: Config,
    pub info: Option<Result<NodeInfo, String>>,
    pub storages: Option<Option<Vec<String>>>,
    pub bridges: Option<Option<Vec<String>>>,
}

#[verifier::ext_equal]
pub struct DoctorView {
    pub cfg: ConfigView,
    pub info: Option<Result<NodeInfoView, Seq<char>>>,
    pub storages: Option<Option<Seq<Seq<char>>>>,
    pub bridges: Option<Option<Seq<Seq<char>>>>,
}

/// A list that was asked for, as models.
pub open spec fn names_view(o: Option<Option<Vec<String>>>) -> Option<Option<Seq<Seq<char>>>> {
    match o {
        Some(Some(v)) => Some(Some(v.deep_view())),
        Some(None) => Some(None),
        None => None,
    }
}

/// The node's identity or why it is not known, as models.
pub open spec fn info_view(r: Result<NodeInfo, String>) -> Result<NodeInfoView, Seq<char>> {
    match r {
        Ok(i) => Ok(i@),
        Err(e) => Err(e@),
    }
}

impl View for Doctor {
    type V = DoctorView;

    open spec fn view(&self) -> DoctorView {
        DoctorView {
            cfg: self.cfg@,
            info: match self.info {
                Some(r) => Some(info_view(r)),
                None => None,
            },
            storages: names_view(self.storages),
            bridges: names_view(self.bridges),
        }
    }
}

/// A list that came, or none.
pub open spec fn came(r: Result<Vec<String>, String>) -> Option<Seq<Seq<char>>> {
    match r {
        Ok(v) => Some(v.deep_view()),
        Err(_) => None,
    }
}

impl DoctorView {
    /// What the node is asked next: who it is, and only where it says so, what it has.
    pub open spec fn next_probe(self) -> Probe {
        match self.info {
            None => Probe::NodeInfo,
            Some(Err(_)) => Probe::Done,
            Some(Ok(_)) => if self.storages is None {
                Probe::Storages
            } else if self.bridges is None {
                Probe::Bridges
            } else {
                Probe::Done
            },
        }
    }
}

/// The lines on the connection.
pub open spec fn connection_lines(c: ConfigView) -> Seq<Seq<char>> {
    seq![
        "Connection"@,
        "  host        "@ + c.host,
        "  web UI      "@ + web_ui(c.host),
        "  ssh         "@ + c.user + "@"@ + c.host + ":"@ + decimal(c.port as nat),
        "  ssh key     "@ + match c.identity_file {
            Some(p) => p,
            None => "(none configured)"@,
        },
        "  template    "@ + decimal(c.template_id as nat),
        "  tailnet     "@ + match c.tailnet_domain {
            Some(d) => d,
            None => "(unset)"@,
        },
        "  tailscale   "@ + if c.tailscale_authkey is Some {
            "configured"@
        } else {
            "(no auth key — new VMs won't join the tailnet)"@
        },
    ]
}

/// The address of the node's web interface.
pub open spec fn web_ui(host: Seq<char>) -> Seq<char> {
    "https://"@ + host + ":8006"@
}

/// The names that came, if any.
pub open spec fn names_of(o: Option<Option<Seq<Seq<char>>>>) -> Seq<Seq<char>> {
    match o {
        Some(Some(names)) => names,
        _ => Seq::empty(),
    }
}

impl DoctorView {
    /// The lines on the node.
    pub open spec fn node_lines(self) -> Seq<Seq<char>> {
        match self.info {
            Some(Ok(i)) => seq![
                "  hostname        "@ + i.hostname,
                "  proxmox         "@ + i.pve_version,
                "  virt-customize  "@ + match i.virt_customize {
                    Some(v) => v,
                    None => "MISSING (auto-installed by template build)"@,
                },
                "  storages        "@ + names_or_dash(names_of(self.storages)),
                "  bridges         "@ + names_or_dash(names_of(self.bridges)),
            ],
            Some(Err(e)) => seq!["  unreachable: "@ + e],
            None => Seq::empty(),
        }
    }

    /// All that is printed.
    pub open spec fn report(self) -> Seq<Seq<char>> {
        seq!["mox doctor"@, ""@] + connection_lines(self.cfg) + seq![""@, "Node status"@]
            + self.node_lines()
    }
}

/// The address of the node's web interface.
pub fn web_ui_address(host: &str) -> (r: String)
    ensures
        r@ == web_ui(host@),
{
    let mut out: String = "https://".to_owned();
    out.append(host);
    out.append(":8006");
    out
}

fn tell_connection(cfg: &Config, says: &mut Vec<String>)
    ensures
        final(says).deep_view() == old(says).deep_view() + connection_lines(cfg@),
{
    let ghost before = says.deep_view();
    let mut target: String = pair("  ssh         ", cfg.user.as_str());
    target.append("@");
    target.append(cfg.host.as_str());
    target.append(":");
    target.append(uint_text(cfg.port as u64).as_str());
    let key: &str = match &cfg.identity_file {
        Some(p) => p.as_str(),
        None => "(none configured)",
    };
    let domain: &str = match &cfg.tailnet_domain {
        Some(d) => d.as_str(),
        None => "(unset)",
    };
    let tailscale: &str = if cfg.tailscale_authkey.is_some() {
        "configured"
    } else {
        "(no auth key — new VMs won't join the tailnet)"
    };
    tell(says, "Connection".to_owned());
    tell(says, pair("  host        ", cfg.host.as_str()));
    tell(says, pair("  web UI      ", web_ui_address(cfg.host.as_str()).as_str()));
    tell(says, target);
    tell(says, pair("  ssh key     ", key));
    tell(says, pair("  template    ", uint_text(cfg.template_id as u64).as_str()));
    tell(says, pair("  tailnet     ", domain));
    tell(says, pair("  tailscale   ", tailscale));
    assert(says.deep_view() =~= before + connection_lines(cfg@));
}

fn names_text(o: &Option<Option<Vec<String>>>) -> (r: String)
    ensures
        r@ == names_or_dash(names_of(names_view(*o))),
{
    match o {
        Some(Some(v)) => join_or_dash(v),
        _ => "—".to_owned(),
    }
}

impl Doctor {
    /// The examination of a node, before anything is asked.
    pub fn new(cfg: Config) -> (r: Doctor)
        ensures
            r@ == (DoctorView { cfg: cfg@, info: None, storages: None, bridges: None }),
    {
        Doctor { cfg, info: None, storages: None, bridges: None }
    }

    /// What the node is asked next.
    pub fn next_probe(&self) -> (r: Probe)
        ensures
            r == self@.next_probe(),
    {
        match &self.info {
            None => Probe::NodeInfo,
            Some(Err(_)) => Probe::Done,
            Some(Ok(_)) => if self.storages.is_none() {
                Probe::Storages
            } else if self.bridges.is_none() {
                Probe::Bridges
            } else {
                Probe::Done
            },
        }
    }

    /// Takes what the node said of itself.
    pub fn heard_info(&mut self, r: Result<NodeInfo, String>)
        ensures
            final(self)@ == (DoctorView { info: Some(info_view(r)), ..old(self)@ }),
    {
        self.info = Some(r);
    }

    /// Takes what the node said of its storages.
    pub fn heard_storages(&mut self, r: Result<Vec<String>, String>)
        ensures
            final(self)@ == (DoctorView { storages: Some(came(r)), ..old(self)@ }),
    {
        self.storages = Some(
            match r {
                Ok(v) => Some(v),
                Err(_) => None,
            },
        );
    }

    /// Takes what the node said of its bridges.
    pub fn heard_bridges(&mut self, r: Result<Vec<String>, String>)
        ensures
            final(self)@ == (DoctorView { bridges: Some(came(r)), ..old(self)@ }),
    {
        self.bridges = Some(
            match r {
                Ok(v) => Some(v),
                Err(_) => None,
            },
        );
    }

    /// What is printed, line by line.
    pub fn report(&self) -> (r: Vec<String>)
        ensures
            r.deep_view() == self@.report(),
    {
        let mut says: Vec<String> = vec!["mox doctor".to_owned(), "".to_owned()];
        assert(says.deep_view() =~= seq!["mox doctor"@, ""@]);
        tell_connection(&self.cfg, &mut says);
        let ghost before = says.deep_view();
        tell(&mut says, "".to_owned());
        tell(&mut says, "Node status".to_owned());
        assert(says.deep_view() =~= before + seq![""@, "Node status"@]);
        let ghost above = says.deep_view();
        match &self.info {
            Some(Ok(i)) => {
                let tool: &str = match &i.virt_customize {
                    Some(v) => v.as_str(),
                    None => "MISSING (auto-installed by template build)",
                };
                tell(&mut says, pair("  hostname        ", i.hostname.as_str()));
                tell(&mut says, pair("  proxmox         ", i.pve_version.as_str()));
                tell(&mut says, pair("  virt-customize  ", tool));
                tell(
                    &mut says,
                    pair("  storages        ", names_text(&self.storages).as_str()),
                );
                tell(&mut says, pair("  bridges         ", names_text(&self.bridges).as_str()));
            },
            Some(Err(e)) => {
                tell(&mut says, pair("  unreachable: ", e.as_str()));
            },
            None => {},
        }
        assert(says.deep_view() =~= above + self@.node_lines());
        says
    }
}

// ---------------------------------------------------------------------------------------------
// The same, for programs.
/// The settings of the connection, as a program is told them. Of the auth key, only whether there
/// is one.
#[derive(Debug, Clone)]
pub struct ConnectionJson {
    pub host: String,
    pub web_ui: String,
    pub user: String,
    pub port: u16,
    pub ssh_key: Option<String>,
    pub template_id: u32,
    pub tailnet: Option<String>,
    pub tailscale_configured: bool,
}

#[verifier::ext_equal]
pub struct ConnectionJsonView {
    pub host: Seq<char>,
    pub web_ui: Seq<char>,
    pub user: Seq<char>,
    pub port: u16,
    pub ssh_key: Option<Seq<char>>,
    pub template_id: u32,
    pub tailnet: Option<Seq<char>>,
    pub tailscale_configured: bool,
}

impl View for ConnectionJson {
    type V = ConnectionJsonView;

    open spec fn view(&self) -> ConnectionJsonView {
        ConnectionJsonView {
            host: self.host@,
            web_ui: self.web_ui@,
            user: self.user@,
            port: self.port,
            ssh_key: opt_text(self.ssh_key),
            template_id: self.template_id,
            tailnet: opt_text(self.tailnet),
            tailscale_configured: self.tailscale_configured,
        }
    }
}

/// The node, as a program is told of it.
#[derive(Debug, Clone)]
pub enum NodeJson {
    /// A list that was not given is `None`.
    Reachable {
        hostname: String,
        proxmox: String,
        virt_customize: Option<String>,
        storages: Option<Vec<String>>,
        bridges: Option<Vec<String>>,
    },
    Unreachable { error: String },
}

pub enum NodeJsonView {
    Reachable {
        hostname: Seq<char>,
        proxmox: Seq<char>,
        virt_customize: Option<Seq<char>>,
        storages: Option<Seq<Seq<char>>>,
        bridges: Option<Seq<Seq<char>>>,
    },
    Unreachable { error: Seq<char> },
}

/// A list that may be missing, as models.
pub open spec fn list_view(o: Option<Vec<String>>) -> Option<Seq<Seq<char>>> {
    match o {
        Some(v) => Some(v.deep_view()),
        None => None,
    }
}

impl View for NodeJson {
    type V = NodeJsonView;

    open spec fn view(&self) -> NodeJsonView {
        match self {
            NodeJson::Reachable { hostname, proxmox, virt_customize, storages, bridges } =>
            NodeJsonView::Reachable {
                hostname: hostname@,
                proxmox: proxmox@,
                virt_customize: opt_text(*virt_customize),
                storages: list_view(*storages),
                bridges: list_view(*bridges),
            },
            NodeJson::Unreachable { error } => NodeJsonView::Unreachable { error: error@ },
        }
    }
}

/// What a program is told of the connection and the node.
#[derive(Debug, Clone)]
pub struct DoctorJson {
    pub connection: ConnectionJson,
    pub node: NodeJson,
}

#[verifier::ext_equal]
pub struct DoctorJsonView {
    pub connection: ConnectionJsonView,
    pub node: NodeJsonView,
}

impl View for DoctorJson {
    type V = DoctorJsonView;

    open spec fn view(&self) -> DoctorJsonView {
        DoctorJsonView { connection: self.connection@, node: self.node@ }
    }
}

/// The settings of the connection, as a program is told them.
pub open spec fn connection_json(c: ConfigView) -> ConnectionJsonView {
    ConnectionJsonView {
        host: c.host,
        web_ui: web_ui(c.host),
        user: c.user,
        port: c.port,
        ssh_key: c.identity_file,
        template_id: c.template_id,
        tailnet: c.tailnet_domain,
        tailscale_configured: c.tailscale_authkey is Some,
    }
}

/// The list that came, if it was asked for and came.
pub open spec fn list_that_came(o: Option<Option<Seq<Seq<char>>>>) -> Option<Seq<Seq<char>>> {
    match o {
        Some(names) => names,
        None => None,
    }
}

impl DoctorView {
    /// What a program is told: nothing before the node was asked who it is.
    pub open spec fn json(self) -> Option<DoctorJsonView> {
        match self.info {
            Some(r) => Some(
                DoctorJsonView {
                    connection: connection_json(self.cfg),
                    node: match r {
                        Ok(i) => NodeJsonView::Reachable {
                            hostname: i.hostname,
                            proxmox: i.pve_version,
                            virt_customize: i.virt_customize,
                            storages: list_that_came(self.storages),
                            bridges: list_that_came(self.bridges),
                        },
                        Err(error) => NodeJsonView::Unreachable { error },
                    },
                },
            ),
            None => None,
        }
    }
}

fn copy_names(names: &Vec<String>) -> (r: Vec<String>)
    ensures
        r.deep_view() == names.deep_view(),
{
    let mut out: Vec<String> = Vec::new();
    let mut i: usize = 0;
    assert(out.deep_view() =~= names.deep_view().take(0));
    while i < names.len()
        invariant
            i <= names@.len(),
            out.deep_view() == names.deep_view().take(i as int),
        decreases names@.len() - i,
    {
        tell(&mut out, names[i].clone());
        assert(names.deep_view().take(i + 1) =~= names.deep_view().take(i as int).push(
            names@[i as int]@,
        ));
        i = i + 1;
    }
    assert(names.deep_view().take(i as int) =~= names.deep_view());
    out
}

fn copy_list(o: &Option<Option<Vec<String>>>) -> (r: Option<Vec<String>>)
    ensures
        list_view(r) == list_that_came(names_view(*o)),
{
    match o {
        Some(Some(names)) => Some(copy_names(names)),
        _ => None,
    }
}

impl Doctor {
    /// What a program is told of the connection and the node: nothing before the node was asked
    /// who it is.
    pub fn json(&self) -> (r: Option<DoctorJson>)
        ensures
            match r {
                Some(j) => self@.json() == Some(j@),
                None => self@.json() is None,
            },
    {
        let node: NodeJson = match &self.info {
            Some(Ok(i)) => NodeJson::Reachable {
                hostname: i.hostname.clone(),
                proxmox: i.pve_version.clone(),
                virt_customize: i.virt_customize.clone(),
                storages: copy_list(&self.storages),
                bridges: copy_list(&self.bridges),
            },
            Some(Err(e)) => NodeJson::Unreachable { error: e.clone() },
            None => {
                return None;
            },
        };
        let connection: ConnectionJson = ConnectionJson {
            host: self.cfg.host.clone(),
            web_ui: web_ui_address(self.cfg.host.as_str()),
            user: self.cfg.user.clone(),
            port: self.cfg.port,
            ssh_key: self.cfg.identity_file.clone(),
            template_id: self.cfg.template_id,
            tailnet: self.cfg.tailnet_domain.clone(),
            tailscale_configured: self.cfg.tailscale_authkey.is_some(),
        };
        Some(DoctorJson { connection, node })
    }
}

/// The auth key is told to nobody: neither what is printed nor what a program is told depends on
/// more than whether there is one.
pub proof fn the_auth_key_is_not_told(d: DoctorView, key: Seq<char>)
    requires
        d.cfg.tailscale_authkey is Some,
    ensures
        ({
            let other = DoctorView {
                cfg: ConfigView { tailscale_authkey: Some(key), ..d.cfg },
                ..d
            };
            &&& other.report() == d.report()
            &&& other.json() == d.json()
        }),
{
    let other = DoctorView { cfg: ConfigView { tailscale_authkey: Some(key), ..d.cfg }, ..d };
    assert(connection_lines(other.cfg) =~= connection_lines(d.cfg));
}

/// Once nothing more is asked, there is something to tell a program, and it says that the node
/// is reachable exactly where it said who it is.
pub proof fn a_finished_examination_is_told(d: DoctorView)
    requires
        d.next_probe() == Probe::Done,
    ensures
        d.json() is Some,
        (d.json()->0).node is Reachable <==> d.info matches Some(Ok(_)),
        d.info matches Some(Err(e)) ==> (d.json()->0).node == (NodeJsonView::Unreachable {
            error: e,
        }),
{
}

/// A node that is not reached is asked once: what it has is asked only of one that said who it
/// is.
pub proof fn an_unreachable_node_is_asked_once(d: DoctorView, e: Seq<char>)
    ensures
        (DoctorView { info: Some(Err(e)), ..d }).next_probe() == Probe::Done,
        d.next_probe() == Probe::Storages || d.next_probe() == Probe::Bridges
            ==> d.info matches Some(Ok(_)),
{
}

/// Each question is asked once: what was heard is not asked again, whether it was an answer or
/// not.
pub proof fn no_probe_is_repeated(d: DoctorView, r: Result<NodeInfoView, Seq<char>>, names: Option<
    Seq<Seq<char>>,
>)
    ensures
        (DoctorView { info: Some(r), ..d }).next_probe() != Probe::NodeInfo,
        (DoctorView { storages: Some(names), ..d }).next_probe() != Probe::Storages,
        (DoctorView { bridges: Some(names), ..d }).next_probe() != Probe::Bridges,
{
}

// ---------------------------------------------------------------------------------------------
// The list of VMs.
/// The lines above the list.
pub open spec fn list_head(host: Seq<char>) -> Seq<Seq<char>> {
    seq![
        "node "@ + host,
        ""@,
        padded_right("ID"@, 6) + " "@ + padded_right("NAME"@, 20) + " "@ + padded_right(
            "STATUS"@,
            10,
        ) + " "@ + padded_left("CPU%"@, 6) + " "@ + padded_left("MEM%"@, 6) + " "@ + padded_left(
            "UPTIME"@,
            8,
        ),
    ]
}

/// The line of a VM.
pub open spec fn list_line(vm: VmView, g: FiguresView) -> Seq<char> {
    padded_right(decimal(vm.vmid as nat), 6) + " "@ + padded_right(shortened(vm.name, 20), 20)
        + " "@ + padded_right(vm.status, 10) + " "@ + padded_left(g.cpu_percent, 5) + "% "@
        + padded_left(g.mem_percent, 5) + "% "@ + padded_left(uptime_text(vm.uptime as nat), 8)
}

/// The lines above the list.
pub fn list_header(host: &str) -> (r: Vec<String>)
    ensures
        r.deep_view() == list_head(host@),
{
    let mut columns: String = pad_right("ID", 6);
    columns.append(" ");
    columns.append(pad_right("NAME", 20).as_str());
    columns.append(" ");
    columns.append(pad_right("STATUS", 10).as_str());
    columns.append(" ");
    columns.append(pad_left("CPU%", 6).as_str());
    columns.append(" ");
    columns.append(pad_left("MEM%", 6).as_str());
    columns.append(" ");
    columns.append(pad_left("UPTIME", 8).as_str());
    let r: Vec<String> = vec![pair("node ", host), "".to_owned(), columns];
    assert(r.deep_view() =~= list_head(host@));
    r
}

/// The line of a VM, with its figures.
pub fn list_row(vm: &Vm, figures: &Figures) -> (r: String)
    ensures
        r@ == list_line(vm@, figures@),
{
    let mut out: String = pad_right(uint_text(vm.vmid as u64).as_str(), 6);
    out.append(" ");
    out.append(pad_right(truncate(vm.name.as_str(), 20).as_str(), 20).as_str());
    out.append(" ");
    out.append(pad_right(vm.status.as_str(), 10).as_str());
    out.append(" ");
    out.append(pad_left(figures.cpu_percent.as_str(), 5).as_str());
    out.append("% ");
    out.append(pad_left(figures.mem_percent.as_str(), 5).as_str());
    out.append("% ");
    out.append(pad_left(vm.uptime_human().as_str(), 8).as_str());
    out
}

// ---------------------------------------------------------------------------------------------
// The template.
/// What is said before the template is built.
pub open spec fn building(c: ConfigView) -> Seq<char> {
    "Building template "@ + c.template_name + " ("@ + decimal(c.template_id as nat) + ") on "@
        + c.host + "…"@
}

/// What is said before the template is built.
pub fn building_notice(cfg: &Config) -> (r: String)
    ensures
        r@ == building(cfg@),
{
    let mut out: String = "Building template ".to_owned();
    out.append(cfg.template_name.as_str());
    out.append(" (");
    out.append(uint_text(cfg.template_id as u64).as_str());
    out.append(") on ");
    out.append(cfg.host.as_str());
    out.append("…");
    out
}

// ---------------------------------------------------------------------------------------------
// Laws.
/// What is printed of the connection is what the settings say, each on the line that names it: the
/// host, its web interface, the user, host and port of SSH, the identity file, the template, the
/// tailnet's domain, and whether there is an auth key.
pub proof fn the_connection_is_told_line_by_line(d: DoctorView)
    ensures
        ({
            let r = d.report();
            let c = d.cfg;
            &&& r.len() >= 12
            &&& r[0] == "mox doctor"@ && r[2] == "Connection"@
            &&& r[3] == "  host        "@ + c.host
            &&& r[4] == "  web UI      "@ + ("https://"@ + c.host + ":8006"@)
            &&& r[5] == "  ssh         "@ + c.user + "@"@ + c.host + ":"@ + decimal(c.port as nat)
            &&& r[6] == "  ssh key     "@ + (match c.identity_file {
                Some(p) => p,
                None => "(none configured)"@,
            })
            &&& r[7] == "  template    "@ + decimal(c.template_id as nat)
            &&& r[8] == "  tailnet     "@ + (match c.tailnet_domain {
                Some(t) => t,
                None => "(unset)"@,
            })
            &&& r[9] == "  tailscale   "@ + (if c.tailscale_authkey is Some {
                "configured"@
            } else {
                "(no auth key — new VMs won't join the tailnet)"@
            })
            &&& r[11] == "Node status"@
        }),
{
}

/// What is printed of the node is what it said, each on the line that names it: its host name, its
/// version, its tool, its storages and its bridges. A node that is not reached is told by the
/// reason alone.
pub proof fn the_node_is_told_line_by_line(
    d: DoctorView,
    i: NodeInfoView,
    storages: Seq<Seq<char>>,
    bridges: Seq<Seq<char>>,
    why: Seq<char>,
)
    ensures
        ({
            let r = (DoctorView {
                info: Some(Ok(i)),
                storages: Some(Some(storages)),
                bridges: Some(Some(bridges)),
                ..d
            }).report();
            &&& r.len() == 17
            &&& r[12] == "  hostname        "@ + i.hostname
            &&& r[13] == "  proxmox         "@ + i.pve_version
            &&& r[14] == "  virt-customize  "@ + (match i.virt_customize {
                Some(v) => v,
                None => "MISSING (auto-installed by template build)"@,
            })
            &&& r[15] == "  storages        "@ + (if storages.len() == 0 {
                "—"@
            } else {
                joined(storages, ", "@)
            })
            &&& r[16] == "  bridges         "@ + (if bridges.len() == 0 {
                "—"@
            } else {
                joined(bridges, ", "@)
            })
        }),
        ({
            let r = (DoctorView {
                info: Some(Ok(i)),
                storages: Some(None),
                bridges: Some(None),
                ..d
            }).report();
            r.len() == 17 && r[15] == "  storages        "@ + "—"@ && r[16] == "  bridges         "@
                + "—"@
        }),
        ({
            let r = (DoctorView { info: Some(Err(why)), ..d }).report();
            r.len() == 13 && r[12] == "  unreachable: "@ + why
        }),
{
}

/// A program is told the same: each setting and each answer under its own name, and whether there
/// is an auth key.
pub proof fn a_program_is_told_field_by_field(
    d: DoctorView,
    i: NodeInfoView,
    storages: Option<Seq<Seq<char>>>,
    bridges: Option<Seq<Seq<char>>>,
    why: Seq<char>,
)
    ensures
        ({
            let j = (DoctorView {
                info: Some(Ok(i)),
                storages: Some(storages),
                bridges: Some(bridges),
                ..d
            }).json();
            &&& j is Some
            &&& ({
                let c = (j->0).connection;
                &&& c.host == d.cfg.host
                &&& c.web_ui == "https://"@ + d.cfg.host + ":8006"@
                &&& c.user == d.cfg.user
                &&& c.port == d.cfg.port
                &&& c.ssh_key == d.cfg.identity_file
                &&& c.template_id == d.cfg.template_id
                &&& c.tailnet == d.cfg.tailnet_domain
                &&& c.tailscale_configured == (d.cfg.tailscale_authkey is Some)
            })
            &&& (j->0).node == (NodeJsonView::Reachable {
                hostname: i.hostname,
                proxmox: i.pve_version,
                virt_customize: i.virt_customize,
                storages,
                bridges,
            })
        }),
        ({
            let j = (DoctorView { info: Some(Err(why)), ..d }).json();
            j is Some && (j->0).node == (NodeJsonView::Unreachable { error: why })
        }),
{
}

/// The node is asked who it is, then for its storages, then for its bridges, and then for nothing
/// more.
pub proof fn a_node_is_asked_in_order(
    c: ConfigView,
    i: NodeInfoView,
    storages: Option<Seq<Seq<char>>>,
    bridges: Option<Seq<Seq<char>>>,
)
    ensures
        ({
            let d = DoctorView { cfg: c, info: None, storages: None, bridges: None };
            let e = DoctorView { info: Some(Ok(i)), ..d };
            let f = DoctorView { storages: Some(storages), ..e };
            let g = DoctorView { bridges: Some(bridges), ..f };
            &&& d.next_probe() == Probe::NodeInfo
            &&& e.next_probe() == Probe::Storages
            &&& f.next_probe() == Probe::Bridges
            &&& g.next_probe() == Probe::Done
        }),
{
}

/// A line of the list has its columns at fixed places, under those of the titles: the id from the
/// first, the name from the eighth and the status from the twenty-ninth character on; then the
/// loads of the CPU and the memory, each up to its percent sign; and the uptime at the end.
pub proof fn columns_stand_below_their_titles(vm: VmView, g: FiguresView, host: Seq<char>)
    requires
        decimal(vm.vmid as nat).len() <= 6,
        vm.status.len() <= 10,
        g.cpu_percent.len() <= 5,
        g.mem_percent.len() <= 5,
    ensures
        ({
            let l = list_line(vm, g);
            let t = list_head(host)[2];
            &&& l.subrange(0, 6) == padded_right(decimal(vm.vmid as nat), 6)
            &&& l.subrange(7, 27) == padded_right(shortened(vm.name, 20), 20)
            &&& l.subrange(28, 38) == padded_right(vm.status, 10)
            &&& l.subrange(39, 44) == padded_left(g.cpu_percent, 5) && l[44] == '%'
            &&& l.subrange(46, 51) == padded_left(g.mem_percent, 5) && l[51] == '%'
            &&& l.skip(53) == padded_left(uptime_text(vm.uptime as nat), 8)
            &&& t.subrange(0, 2) == "ID"@
            &&& t.subrange(7, 11) == "NAME"@
            &&& t.subrange(28, 34) == "STATUS"@
            &&& t.subrange(41, 45) == "CPU%"@
            &&& t.subrange(48, 52) == "MEM%"@
            &&& t.subrange(55, 61) == "UPTIME"@
            &&& list_head(host)[0] == "node "@ + host
        }),
{
    reveal_strlit(" ");
    reveal_strlit("% ");
    let a = padded_right(decimal(vm.vmid as nat), 6);
    let b = padded_right(shortened(vm.name, 20), 20);
    let c = padded_right(vm.status, 10);
    let d = padded_left(g.cpu_percent, 5);
    let e = padded_left(g.mem_percent, 5);
    let f = padded_left(uptime_text(vm.uptime as nat), 8);
    let l = list_line(vm, g);
    assert(a.len() == 6 && b.len() == 20 && c.len() == 10 && d.len() == 5 && e.len() == 5);
    assert(l.subrange(0, 6) =~= a);
    assert(l.subrange(7, 27) =~= b);
    assert(l.subrange(28, 38) =~= c);
    assert(l.subrange(39, 44) =~= d);
    assert(l.subrange(46, 51) =~= e);
    assert(l.skip(53) =~= f);
    reveal_strlit("ID");
    reveal_strlit("NAME");
    reveal_strlit("STATUS");
    reveal_strlit("CPU%");
    reveal_strlit("MEM%");
    reveal_strlit("UPTIME");
    let t = list_head(host)[2];
    assert(t.subrange(0, 2) =~= "ID"@);
    assert(t.subrange(7, 11) =~= "NAME"@);
    assert(t.subrange(28, 34) =~= "STATUS"@);
    assert(t.subrange(41, 45) =~= "CPU%"@);
    assert(t.subrange(48, 52) =~= "MEM%"@);
    assert(t.subrange(55, 61) =~= "UPTIME"@);
}

/// What is said before the template is built names the template, its id and the node.
pub proof fn the_template_is_named_before_it_is_built(c: ConfigView)
    ensures
        building(c) == "Building template "@ + c.template_name + " ("@ + decimal(
            c.template_id as nat,
        ) + ") on "@ + c.host + "…"@,
{
}

/// What the node said is kept as it said it: a list that came is that list, also an empty one,
/// and one that did not come is none.
pub proof fn answers_are_kept_as_they_came(d: Doctor, names: Vec<String>, i: NodeInfo, e: String)
    ensures
        came(Ok(names)) == Some(names.deep_view()),
        came(Err(e)) is None,
        info_view(Ok(i)) == Ok::<NodeInfoView, Seq<char>>(i@),
        info_view(Err(e)) == Err::<NodeInfoView, Seq<char>>(e@),
        d@.cfg == d.cfg@,
        d.info is None ==> d@.info is None,
        d.info matches Some(r) ==> d@.info == Some(info_view(r)),
        d.storages matches Some(Some(v)) ==> d@.storages == Some(Some(v.deep_view())),
        d.bridges matches Some(Some(v)) ==> d@.bridges == Some(Some(v.deep_view())),
        d.storages == Some(None::<Vec<String>>) ==> d@.storages == Some(None::<Seq<Seq<char>>>),
        d.bridges == Some(None::<Vec<String>>) ==> d@.bridges == Some(None::<Seq<Seq<char>>>),
        d.storages is None ==> d@.storages is None,
        d.bridges is None ==> d@.bridges is None,
{
}

/// What a program is told is seen as it is.
pub proof fn what_is_told_is_seen_as_it_is(c: ConnectionJson)
    ensures
        c@.host == c.host@ && c@.web_ui == c.web_ui@ && c@.user == c.user@ && c@.port == c.port,
        c@.template_id == c.template_id && c@.tailscale_configured == c.tailscale_configured,
        c.ssh_key matches Some(t) ==> c@.ssh_key == Some(t@),
        c.ssh_key is None ==> c@.ssh_key is None,
        c.tailnet matches Some(t) ==> c@.tailnet == Some(t@),
        c.tailnet is None ==> c@.tailnet is None,
{
}

} // verus!
