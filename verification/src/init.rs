//! The interactive setup: questions about the node, its resources and the tailnet, and the
//! configuration file that is written from the answers.
use vstd::prelude::*;

use crate::config::{default_config, env_lines, Config, ConfigView};
use crate::number::{
    addresses_read_back, decimal, dotted, numbers_read_back, parse_ipv4, parse_u16, read_ipv4,
    read_uint, uint_text,
};
use crate::text::{
    chars_of, join, joined, non_empty, opt_text, some_if_not_empty, string_or_empty,
    text_or_empty, trim, trimmed, trimming_stops, unlines,
};

verus! {

// ---------------------------------------------------------------------------------------------
// Questions and answers.
/// How a question is put: with its default answer in brackets, where it has one.
pub open spec fn question(label: Seq<char>, default: Seq<char>) -> Seq<char> {
    if default.len() == 0 {
        label + ": "@
    } else {
        label + " ["@ + default + "]: "@
    }
}

/// How a question is put: with its default answer in brackets, where it has one.
pub fn prompt_text(label: &str, default: &str) -> (r: String)
    ensures
        r@ == question(label@, default@),
{
    let mut out: String = label.to_owned();
    if default.unicode_len() == 0 {
        out.append(": ");
    } else {
        out.append(" [");
        out.append(default);
        out.append("]: ");
    }
    out
}

/// The answer in a line: the default where there is none.
pub open spec fn answer(line: Seq<char>, default: Seq<char>) -> Seq<char> {
    if trimmed(line).len() == 0 {
        default
    } else {
        trimmed(line)
    }
}

/// The answer in a line: the default where there is none.
pub fn prompt(line: &str, default: &str) -> (r: String)
    ensures
        r@ == answer(line@, default@),
{
    let t: &str = trim(line);
    if t.unicode_len() == 0 {
        default.to_owned()
    } else {
        t.to_owned()
    }
}

/// Whether an answer means yes: `y` or `yes`, in whatever case.
pub open spec fn is_yes(s: Seq<char>) -> bool {
    ||| s.len() == 1 && (s[0] == 'y' || s[0] == 'Y')
    ||| s.len() == 3 && (s[0] == 'y' || s[0] == 'Y') && (s[1] == 'e' || s[1] == 'E') && (s[2] == 's'
        || s[2] == 'S')
}

/// The default answer to a question that is answered with yes or no.
pub open spec fn y_or_n(yes: bool) -> Seq<char> {
    if yes {
        "y"@
    } else {
        "n"@
    }
}

/// Whether the answer in a line means yes.
pub fn prompt_yes_no(line: &str, default_yes: bool) -> (r: bool)
    ensures
        r == is_yes(answer(line@, y_or_n(default_yes))),
{
    let ans: String = prompt(
        line,
        if default_yes {
            "y"
        } else {
            "n"
        },
    );
    let cs: Vec<char> = chars_of(ans.as_str());
    if cs.len() == 1 {
        cs[0] == 'y' || cs[0] == 'Y'
    } else if cs.len() == 3 {
        (cs[0] == 'y' || cs[0] == 'Y') && (cs[1] == 'e' || cs[1] == 'E') && (cs[2] == 's' || cs[2]
            == 'S')
    } else {
        false
    }
}

/// Where a file is kept before it is overwritten.
pub fn backup_path(path: &str) -> (r: String)
    ensures
        r@ == path@ + ".bak"@,
{
    let mut out: String = path.to_owned();
    out.append(".bak");
    out
}

/// The subnet that a host is guessed to be in: that of its first three octets, or the
/// documentation range where it is no address.
pub open spec fn guessed_subnet(host: Seq<char>) -> Seq<char> {
    match read_ipv4(host) {
        Some(ip) => decimal(ip.0 as nat) + "."@ + decimal(ip.1 as nat) + "."@ + decimal(ip.2 as nat)
            + ".0/24"@,
        None => "192.0.2.0/24"@,
    }
}

/// Guesses the subnet of a host.
pub fn derive_subnet(host: &str) -> (r: String)
    ensures
        r@ == guessed_subnet(host@),
{
    match parse_ipv4(host) {
        Some(ip) => {
            let mut out: String = uint_text(ip.0 as u64);
            out.append(".");
            out.append(uint_text(ip.1 as u64).as_str());
            out.append(".");
            out.append(uint_text(ip.2 as u64).as_str());
            out.append(".0/24");
            out
        },
        None => "192.0.2.0/24".to_owned(),
    }
}

// ---------------------------------------------------------------------------------------------
// The wizard.
/// Where the wizard is.
#[derive(Debug, Clone, Copy, PartialEq, Eq, Structural)]
pub enum WizardStep {
    /// Asking whether to go on although there is a configuration.
    Continue,
    Host,
    User,
    Port,
    Identity,
    Subnet,
    /// Asking the node for its storages.
    Storages,
    Storage,
    /// Asking the node for its bridges.
    Bridges,
    Bridge,
    Tailscale,
    AuthKey,
    Domain,
    /// Keeping the existing configuration, where there is one.
    BackUp,
    /// Writing the configuration.
    Write,
    Done,
}

/// The interactive setup, on its way.
pub struct Wizard {
    pub cfg: Config,
    /// The file that is written.
    pub path: String,
    /// The home directory, empty where it is not known.
    pub home: String,
    pub step: WizardStep,
}

#[verifier::ext_equal]
pub struct WizardView {
    pub cfg: ConfigView,
    pub path: Seq<char>,
    pub home: Seq<char>,
    pub step: WizardStep,
}

impl View for Wizard {
    type V = WizardView;

    open spec fn view(&self) -> WizardView {
        WizardView {
            cfg: self.cfg@,
            path: self.path@,
            home: self.home@,
            step: self.step,
        }
    }
}

/// What comes to the wizard.
pub enum WizardEvent {
    /// A line that the user typed.
    Line(String),
    /// What the node said to the wizard's question, or why it did not.
    Names(Result<Vec<String>, String>),
    /// Whether there was a configuration to keep.
    BackedUp(bool),
    Written,
}

pub enum WizardEventView {
    Line(Seq<char>),
    Names(Result<Seq<Seq<char>>, Seq<char>>),
    BackedUp(bool),
    Written,
}

impl View for WizardEvent {
    type V = WizardEventView;

    open spec fn view(&self) -> WizardEventView {
        match self {
            WizardEvent::Line(s) => WizardEventView::Line(s@),
            WizardEvent::Names(r) => WizardEventView::Names(
                match r {
                    Ok(v) => Ok(v.deep_view()),
                    Err(e) => Err(e@),
                },
            ),
            WizardEvent::BackedUp(b) => WizardEventView::BackedUp(*b),
            WizardEvent::Written => WizardEventView::Written,
        }
    }
}

/// The identity file that is proposed.
pub open spec fn proposed_identity(c: ConfigView, home: Seq<char>) -> Seq<char> {
    match c.identity_file {
        Some(p) => p,
        None => home + "/.ssh/proxmox/id_ed25519"@,
    }
}

/// The subnet that is proposed.
pub open spec fn proposed_subnet(c: ConfigView) -> Seq<char> {
    match c.vm_subnet {
        Some(s) => s,
        None => guessed_subnet(c.host),
    }
}

/// What the node has of something.
pub open spec fn detected(what: Seq<char>, r: Result<Seq<Seq<char>>, Seq<char>>) -> Seq<
    Seq<char>,
> {
    match r {
        Ok(names) => if names.len() > 0 {
            seq!["Detected "@ + what + ": "@ + joined(names, ", "@)]
        } else {
            Seq::empty()
        },
        Err(_) => Seq::empty(),
    }
}

impl WizardView {
    /// The question that is open, with its default answer.
    pub open spec fn asked(self) -> Option<(Seq<char>, Seq<char>)> {
        let c = self.cfg;
        match self.step {
            WizardStep::Continue => Some(("Continue?"@, y_or_n(true))),
            WizardStep::Host => Some(("Proxmox node IP or hostname"@, c.host)),
            WizardStep::User => Some(("SSH user"@, c.user)),
            WizardStep::Port => Some(("SSH port"@, decimal(c.port as nat))),
            WizardStep::Identity => Some(
                ("SSH identity file"@, proposed_identity(c, self.home)),
            ),
            WizardStep::Subnet => Some(("VM subnet (for ~/.ssh/config)"@, proposed_subnet(c))),
            WizardStep::Storage => Some(("Storage for VM disks"@, c.storage)),
            WizardStep::Bridge => Some(("Network bridge"@, c.bridge)),
            WizardStep::Tailscale => Some(
                ("Join new VMs to a tailnet by default?"@, y_or_n(c.tailscale_default)),
            ),
            WizardStep::AuthKey => Some(
                (
                    "Tailscale reusable auth key (tskey-auth-...)"@,
                    text_or_empty(c.tailscale_authkey),
                ),
            ),
            WizardStep::Domain => Some(
                ("Tailnet domain (e.g. example-name.ts.net)"@, text_or_empty(c.tailnet_domain)),
            ),
            _ => None,
        }
    }

    pub open spec fn at(self, step: WizardStep) -> WizardView {
        WizardView { step, ..self }
    }

    /// With other settings, at another step.
    pub open spec fn with_cfg(self, cfg: ConfigView, step: WizardStep) -> WizardView {
        WizardView { cfg, step, ..self }
    }

    /// The wizard after an answer, and what it says.
    pub open spec fn answered(self, a: Seq<char>) -> (WizardView, Seq<Seq<char>>) {
        let c = self.cfg;
        let quiet = Seq::<Seq<char>>::empty();
        match self.step {
            WizardStep::Continue => if is_yes(a) {
                (self.at(WizardStep::Host), seq![""@, "== Proxmox node connection =="@])
            } else {
                (self.at(WizardStep::Done), seq!["Cancelled."@])
            },
            WizardStep::Host => if trimmed(a).len() == 0 {
                (
                    self.with_cfg(ConfigView { host: a, ..c }, WizardStep::Host),
                    seq!["Host is required."@],
                )
            } else {
                (self.with_cfg(ConfigView { host: a, ..c }, WizardStep::User), quiet)
            },
            WizardStep::User => (
                self.with_cfg(ConfigView { user: a, ..c }, WizardStep::Port),
                quiet,
            ),
            WizardStep::Port => match read_uint(a, u16::MAX as int) {
                Some(n) => if n > 0 {
                    (
                        self.with_cfg(ConfigView { port: n as u16, ..c }, WizardStep::Identity),
                        quiet,
                    )
                } else {
                    (self, seq!["Invalid port: "@ + a])
                },
                None => (self, seq!["Invalid port: "@ + a]),
            },
            WizardStep::Identity => (
                self.with_cfg(
                    ConfigView { identity_file: non_empty(a), ..c },
                    WizardStep::Subnet,
                ),
                quiet,
            ),
            WizardStep::Subnet => (
                self.with_cfg(
                    ConfigView { vm_subnet: non_empty(a), ..c },
                    WizardStep::Storages,
                ),
                seq![""@, "== Node resources =="@],
            ),
            WizardStep::Storage => (
                self.with_cfg(ConfigView { storage: a, ..c }, WizardStep::Bridges),
                quiet,
            ),
            WizardStep::Bridge => (
                self.with_cfg(ConfigView { bridge: a, ..c }, WizardStep::Tailscale),
                seq![""@, "== Tailscale (optional) =="@],
            ),
            WizardStep::Tailscale => if is_yes(a) {
                (
                    self.with_cfg(
                        ConfigView { tailscale_default: true, ..c },
                        WizardStep::AuthKey,
                    ),
                    quiet,
                )
            } else {
                (
                    self.with_cfg(
                        ConfigView { tailscale_default: false, ..c },
                        WizardStep::BackUp,
                    ),
                    seq!["Tailscale off by default. Toggle it per-VM in the create wizard."@],
                )
            },
            WizardStep::AuthKey => (
                self.with_cfg(
                    ConfigView { tailscale_authkey: non_empty(a), ..c },
                    WizardStep::Domain,
                ),
                quiet,
            ),
            WizardStep::Domain => (
                self.with_cfg(
                    ConfigView { tailnet_domain: non_empty(a), ..c },
                    WizardStep::BackUp,
                ),
                quiet,
            ),
            _ => (self, quiet),
        }
    }

    /// The wizard after an event, and what it says. What answers nothing changes nothing.
    pub open spec fn after(self, e: WizardEventView) -> (WizardView, Seq<Seq<char>>) {
        match (self.step, e) {
            (_, WizardEventView::Line(line)) => match self.asked() {
                Some(q) => self.answered(answer(line, q.1)),
                None => (self, Seq::empty()),
            },
            (WizardStep::Storages, WizardEventView::Names(r)) => (
                self.at(WizardStep::Storage),
                detected("storages"@, r),
            ),
            (WizardStep::Bridges, WizardEventView::Names(r)) => (
                self.at(WizardStep::Bridge),
                detected("bridges"@, r),
            ),
            (WizardStep::BackUp, WizardEventView::BackedUp(there)) => (
                self.at(WizardStep::Write),
                if there {
                    seq![""@, "Backed up existing config to "@ + (self.path + ".bak"@)]
                } else {
                    Seq::empty()
                },
            ),
            (WizardStep::Write, WizardEventView::Written) => (
                self.at(WizardStep::Done),
                seq![
                    "Wrote "@ + self.path,
                    ""@,
                    "Next: `mox doctor`, then `mox template` (if needed), then create VMs."@,
                ],
            ),
            _ => (self, Seq::empty()),
        }
    }
}

/// What the wizard greets with.
pub open spec fn greeting() -> Seq<Seq<char>> {
    seq!["mox interactive setup"@, "====================="@]
}

/// The wizard as it starts: with the settings that are there, or the built-in ones, and with a
/// question where there is a configuration already.
pub open spec fn new_wizard(
    path: Seq<char>,
    cfg: Option<ConfigView>,
    home: Seq<char>,
    exists: bool,
) -> (WizardView, Seq<Seq<char>>) {
    (
        WizardView {
            cfg: match cfg {
                Some(c) => c,
                None => default_config(),
            },
            path,
            home,
            step: if exists {
                WizardStep::Continue
            } else {
                WizardStep::Host
            },
        },
        if exists {
            seq![
                ""@,
                "A config already exists at "@ + path + "."@,
                "Continuing backs it up to <config>.bak and writes a new one."@,
            ]
        } else {
            seq![""@, "== Proxmox node connection =="@]
        },
    )
}

fn quiet() -> (r: Vec<String>)
    ensures
        r.deep_view() == Seq::<Seq<char>>::empty(),
{
    let r: Vec<String> = Vec::new();
    assert(r.deep_view() =~= Seq::<Seq<char>>::empty());
    r
}

fn say(a: String) -> (r: Vec<String>)
    ensures
        r.deep_view() == seq![a@],
{
    let r: Vec<String> = vec![a];
    assert(r.deep_view() =~= seq![a@]);
    r
}

fn say_apart(a: String) -> (r: Vec<String>)
    ensures
        r.deep_view() == seq![""@, a@],
{
    let r: Vec<String> = vec!["".to_owned(), a];
    assert(r.deep_view() =~= seq![""@, a@]);
    r
}

fn say_detected(what: &str, names: Result<Vec<String>, String>) -> (r: Vec<String>)
    ensures
        r.deep_view() == detected(
            what@,
            match names {
                Ok(v) => Ok(v.deep_view()),
                Err(e) => Err(e@),
            },
        ),
{
    match names {
        Ok(v) => {
            assert(v.deep_view().len() == v@.len());
            if v.len() > 0 {
                let mut m: String = "Detected ".to_owned();
                m.append(what);
                m.append(": ");
                m.append(join(&v, ", ").as_str());
                say(m)
            } else {
                quiet()
            }
        },
        Err(_) => quiet(),
    }
}

/// What the wizard greets with.
pub fn greeting_lines() -> (r: Vec<String>)
    ensures
        r.deep_view() == greeting(),
{
    let r: Vec<String> = vec![
        "mox interactive setup".to_owned(),
        "=====================".to_owned(),
    ];
    assert(r.deep_view() =~= greeting());
    r
}

impl Wizard {
    /// The wizard as it starts, and what it says: with the settings that are there, or the
    /// built-in ones. Without a file to write, it does not start.
    pub fn new(
        path: Option<String>,
        cfg: Result<Config, String>,
        home: Option<String>,
        exists: bool,
    ) -> (r: Result<(Wizard, Vec<String>), String>)
        ensures
            match r {
                Ok(w) => path is Some && (w.0@, w.1.deep_view()) == new_wizard(
                    (path->0)@,
                    match cfg {
                        Ok(c) => Some(c@),
                        Err(_) => None,
                    },
                    text_or_empty(opt_text(home)),
                    exists,
                ),
                Err(m) => path is None && m@
                    == "cannot resolve ~/.config/mox/config (no HOME)"@,
            },
    {
        let path: String = match path {
            Some(p) => p,
            None => {
                return Err("cannot resolve ~/.config/mox/config (no HOME)".to_owned());
            },
        };
        let cfg: Config = match cfg {
            Ok(c) => c,
            Err(_) => Config::defaults(),
        };
        let home: String = string_or_empty(&home);
        if exists {
            let mut m: String = "A config already exists at ".to_owned();
            m.append(path.as_str());
            m.append(".");
            let says: Vec<String> = vec![
                "".to_owned(),
                m,
                "Continuing backs it up to <config>.bak and writes a new one.".to_owned(),
            ];
            assert(says.deep_view() =~= seq![
                ""@,
                "A config already exists at "@ + path@ + "."@,
                "Continuing backs it up to <config>.bak and writes a new one."@,
            ]);
            Ok((Wizard { cfg, path, home, step: WizardStep::Continue }, says))
        } else {
            Ok(
                (
                    Wizard { cfg, path, home, step: WizardStep::Host },
                    say_apart("== Proxmox node connection ==".to_owned()),
                ),
            )
        }
    }

    /// The question that is open, with its default answer.
    pub fn asked(&self) -> (r: Option<(String, String)>)
        ensures
            match r {
                Some(q) => self@.asked() == Some((q.0@, q.1@)),
                None => self@.asked() is None,
            },
    {
        let c: &Config = &self.cfg;
        match self.step {
            WizardStep::Continue => Some(("Continue?".to_owned(), "y".to_owned())),
            WizardStep::Host => Some(("Proxmox node IP or hostname".to_owned(), c.host.clone())),
            WizardStep::User => Some(("SSH user".to_owned(), c.user.clone())),
            WizardStep::Port => Some(("SSH port".to_owned(), uint_text(c.port as u64))),
            WizardStep::Identity => {
                let default: String = match &c.identity_file {
                    Some(p) => p.clone(),
                    None => {
                        let mut p: String = self.home.clone();
                        p.append("/.ssh/proxmox/id_ed25519");
                        p
                    },
                };
                Some(("SSH identity file".to_owned(), default))
            },
            WizardStep::Subnet => {
                let default: String = match &c.vm_subnet {
                    Some(s) => s.clone(),
                    None => derive_subnet(c.host.as_str()),
                };
                Some(("VM subnet (for ~/.ssh/config)".to_owned(), default))
            },
            WizardStep::Storage => Some(("Storage for VM disks".to_owned(), c.storage.clone())),
            WizardStep::Bridge => Some(("Network bridge".to_owned(), c.bridge.clone())),
            WizardStep::Tailscale => {
                let default: &str = if c.tailscale_default {
                    "y"
                } else {
                    "n"
                };
                Some(("Join new VMs to a tailnet by default?".to_owned(), default.to_owned()))
            },
            WizardStep::AuthKey => Some(
                (
                    "Tailscale reusable auth key (tskey-auth-...)".to_owned(),
                    string_or_empty(&c.tailscale_authkey),
                ),
            ),
            WizardStep::Domain => Some(
                (
                    "Tailnet domain (e.g. example-name.ts.net)".to_owned(),
                    string_or_empty(&c.tailnet_domain),
                ),
            ),
            _ => None,
        }
    }

    /// The text of the configuration file, once all questions are answered.
    pub fn text(&self) -> (r: String)
        ensures
            r@ == unlines(env_lines(self@.cfg)),
    {
        self.cfg.to_env_string()
    }

    fn answered(&mut self, line: String) -> (r: Vec<String>)
        requires
            old(self)@.asked() is Some,
        ensures
            (final(self)@, r.deep_view()) == old(self)@.answered(
                answer(line@, (old(self)@.asked()->0).1),
            ),
    {
        let default: String = match self.asked() {
            Some(q) => q.1,
            None => {
                return quiet();
            },
        };
        let a: String = prompt(line.as_str(), default.as_str());
        match self.step {
            WizardStep::Continue => {
                if prompt_yes_no(line.as_str(), true) {
                    self.step = WizardStep::Host;
                    say_apart("== Proxmox node connection ==".to_owned())
                } else {
                    self.step = WizardStep::Done;
                    say("Cancelled.".to_owned())
                }
            },
            WizardStep::Host => {
                let is_blank: bool = trim(a.as_str()).unicode_len() == 0;
                self.cfg.host = a;
                if is_blank {
                    say("Host is required.".to_owned())
                } else {
                    self.step = WizardStep::User;
                    quiet()
                }
            },
            WizardStep::User => {
                self.cfg.user = a;
                self.step = WizardStep::Port;
                quiet()
            },
            WizardStep::Port => {
                let n: u16 = match parse_u16(a.as_str()) {
                    Some(n) => n,
                    None => 0,
                };
                if n > 0 {
                    self.cfg.port = n;
                    self.step = WizardStep::Identity;
                    quiet()
                } else {
                    let mut m: String = "Invalid port: ".to_owned();
                    m.append(a.as_str());
                    say(m)
                }
            },
            WizardStep::Identity => {
                self.cfg.identity_file = some_if_not_empty(a);
                self.step = WizardStep::Subnet;
                quiet()
            },
            WizardStep::Subnet => {
                self.cfg.vm_subnet = some_if_not_empty(a);
                self.step = WizardStep::Storages;
                say_apart("== Node resources ==".to_owned())
            },
            WizardStep::Storage => {
                self.cfg.storage = a;
                self.step = WizardStep::Bridges;
                quiet()
            },
            WizardStep::Bridge => {
                self.cfg.bridge = a;
                self.step = WizardStep::Tailscale;
                say_apart("== Tailscale (optional) ==".to_owned())
            },
            WizardStep::Tailscale => {
                if prompt_yes_no(line.as_str(), self.cfg.tailscale_default) {
                    self.cfg.tailscale_default = true;
                    self.step = WizardStep::AuthKey;
                    quiet()
                } else {
                    self.cfg.tailscale_default = false;
                    self.step = WizardStep::BackUp;
                    say(
                        "Tailscale off by default. Toggle it per-VM in the create wizard.".to_owned(),
                    )
                }
            },
            WizardStep::AuthKey => {
                self.cfg.tailscale_authkey = some_if_not_empty(a);
                self.step = WizardStep::Domain;
                quiet()
            },
            WizardStep::Domain => {
                self.cfg.tailnet_domain = some_if_not_empty(a);
                self.step = WizardStep::BackUp;
                quiet()
            },
            _ => quiet(),
        }
    }

    /// Goes on with what came, and says what is to be printed, line by line.
    pub fn run(&mut self, event: WizardEvent) -> (r: Vec<String>)
        ensures
            (final(self)@, r.deep_view()) == old(self)@.after(event@),
    {
        match event {
            WizardEvent::Line(line) => {
                if self.asked().is_some() {
                    self.answered(line)
                } else {
                    quiet()
                }
            },
            WizardEvent::Names(names) => {
                match self.step {
                    WizardStep::Storages => {
                        self.step = WizardStep::Storage;
                        say_detected("storages", names)
                    },
                    WizardStep::Bridges => {
                        self.step = WizardStep::Bridge;
                        say_detected("bridges", names)
                    },
                    _ => quiet(),
                }
            },
            WizardEvent::BackedUp(there) => {
                if self.step != WizardStep::BackUp {
                    return quiet();
                }
                self.step = WizardStep::Write;
                if there {
                    let mut m: String = "Backed up existing config to ".to_owned();
                    m.append(backup_path(self.path.as_str()).as_str());
                    say_apart(m)
                } else {
                    quiet()
                }
            },
            WizardEvent::Written => {
                if self.step != WizardStep::Write {
                    return quiet();
                }
                self.step = WizardStep::Done;
                let mut m: String = "Wrote ".to_owned();
                m.append(self.path.as_str());
                let says: Vec<String> = vec![
                    m,
                    "".to_owned(),
                    "Next: `mox doctor`, then `mox template` (if needed), then create VMs.".to_owned(),
                ];
                assert(says.deep_view() =~= seq![
                    "Wrote "@ + self.path@,
                    ""@,
                    "Next: `mox doctor`, then `mox template` (if needed), then create VMs."@,
                ]);
                says
            },
        }
    }
}

// ---------------------------------------------------------------------------------------------
// Laws.
/// An answer without anything but white space is the default answer.
pub proof fn an_empty_answer_is_the_default(line: Seq<char>, default: Seq<char>)
    requires
        trimmed(line).len() == 0,
    ensures
        answer(line, default) == default,
{
}

/// An answer that is given is taken as it is, without white space around it, and stays so when
/// it is proposed and taken again.
pub proof fn a_given_answer_counts(line: Seq<char>, default: Seq<char>)
    requires
        trimmed(line).len() > 0,
    ensures
        answer(line, default) == trimmed(line),
        answer(answer(line, default), default) == answer(line, default),
{
    trimming_stops(line);
}

/// How many questions and answers may still be ahead, at most, but for answers that are refused.
pub open spec fn steps_left(s: WizardStep) -> nat {
    match s {
        WizardStep::Continue => 15,
        WizardStep::Host => 14,
        WizardStep::User => 13,
        WizardStep::Port => 12,
        WizardStep::Identity => 11,
        WizardStep::Subnet => 10,
        WizardStep::Storages => 9,
        WizardStep::Storage => 8,
        WizardStep::Bridges => 7,
        WizardStep::Bridge => 6,
        WizardStep::Tailscale => 5,
        WizardStep::AuthKey => 4,
        WizardStep::Domain => 3,
        WizardStep::BackUp => 2,
        WizardStep::Write => 1,
        WizardStep::Done => 0,
    }
}

/// No question comes back once it is answered: an event leaves the wizard at its step or leads
/// it on.
pub proof fn no_question_comes_back(w: WizardView, e: WizardEventView)
    ensures
        w.after(e).0.step == w.step || steps_left(w.after(e).0.step) < steps_left(w.step),
{
}

/// A question that is asked again after an answer is that for the host, which must not be blank,
/// or that for the port, which must be a number between 1 and 65535.
pub proof fn only_host_and_port_are_refused(w: WizardView, line: Seq<char>)
    requires
        w.asked() is Some,
        w.after(WizardEventView::Line(line)).0.step == w.step,
    ensures
        ({
            let a = answer(line, (w.asked()->0).1);
            ||| w.step == WizardStep::Host && trimmed(a).len() == 0
            ||| w.step == WizardStep::Port && !(read_uint(a, u16::MAX as int) matches Some(n) && n
                > 0)
        }),
{
}

/// What holds of the settings at a step: the host is not blank once it was asked for, and the
/// port is not zero once it was.
pub open spec fn checked_so_far(w: WizardView) -> bool {
    &&& w.step != WizardStep::Continue && w.step != WizardStep::Host && w.step != WizardStep::Done
        ==> trimmed(w.cfg.host).len() > 0
    &&& w.step != WizardStep::Continue && w.step != WizardStep::Host && w.step != WizardStep::User
        && w.step != WizardStep::Port && w.step != WizardStep::Done ==> w.cfg.port > 0
}

/// The settings that are written have a host and a port: that is so of a new wizard's steps, and
/// every event keeps it.
pub proof fn written_settings_have_a_host_and_a_port(w: WizardView, e: WizardEventView)
    requires
        checked_so_far(w),
    ensures
        checked_so_far(w.after(e).0),
        forall|path: Seq<char>, cfg: Option<ConfigView>, home: Seq<char>, exists_: bool|
            checked_so_far(#[trigger] new_wizard(path, cfg, home, exists_).0),
{
}

/// Whoever does not want to go on writes nothing: the wizard is done at once, with the settings
/// as they were.
pub proof fn nothing_is_written_after_a_refusal(w: WizardView, line: Seq<char>)
    requires
        w.step == WizardStep::Continue,
        !is_yes(answer(line, y_or_n(true))),
    ensures
        w.after(WizardEventView::Line(line)).0 == w.at(WizardStep::Done),
{
}

/// A wizard that is done stays done and says nothing.
pub proof fn a_done_wizard_is_silent(w: WizardView, e: WizardEventView)
    requires
        w.step == WizardStep::Done,
    ensures
        w.after(e) == (w, Seq::<Seq<char>>::empty()),
{
}

/// The wizard keeps the path that it writes to, and every setting that it does not ask about.
pub proof fn other_settings_stay(w: WizardView, e: WizardEventView)
    ensures
        ({
            let v = w.after(e).0;
            &&& v.path == w.path
            &&& v.cfg.template_id == w.cfg.template_id
            &&& v.cfg.template_name == w.cfg.template_name
            &&& v.cfg.image_url == w.cfg.image_url
            &&& v.cfg.cpu_type == w.cfg.cpu_type
            &&& v.cfg.template_packages == w.cfg.template_packages
            &&& v.cfg.default_cores == w.cfg.default_cores
            &&& v.cfg.default_memory == w.cfg.default_memory
            &&& v.cfg.default_disk == w.cfg.default_disk
            &&& v.cfg.default_full_clone == w.cfg.default_full_clone
            &&& v.cfg.ci_user == w.cfg.ci_user
            &&& v.cfg.ip_timeout == w.cfg.ip_timeout
        }),
{
}

/// Each answer is taken, without white space around it, as the setting that was asked for, and as
/// no other, and leads to the next question: host, user, port, identity file, subnet, storage,
/// bridge, whether to join a tailnet, and only then the auth key and the domain.
pub proof fn each_answer_sets_what_was_asked(w: WizardView, line: Seq<char>)
    requires
        trimmed(line).len() > 0,
    ensures
        ({
            let a = trimmed(line);
            let c = w.cfg;
            let v = w.after(WizardEventView::Line(line)).0;
            &&& w.step == WizardStep::Host ==> v == (WizardView {
                cfg: ConfigView { host: a, ..c },
                step: WizardStep::User,
                ..w
            })
            &&& w.step == WizardStep::User ==> v == (WizardView {
                cfg: ConfigView { user: a, ..c },
                step: WizardStep::Port,
                ..w
            })
            &&& w.step == WizardStep::Port ==> (read_uint(a, u16::MAX as int) matches Some(n)
                ==> (n > 0 ==> v == (WizardView {
                cfg: ConfigView { port: n as u16, ..c },
                step: WizardStep::Identity,
                ..w
            })))
            &&& w.step == WizardStep::Port && !(read_uint(a, u16::MAX as int) matches Some(n) && n
                > 0) ==> v == w
            &&& w.step == WizardStep::Identity ==> v == (WizardView {
                cfg: ConfigView { identity_file: Some(a), ..c },
                step: WizardStep::Subnet,
                ..w
            })
            &&& w.step == WizardStep::Subnet ==> v == (WizardView {
                cfg: ConfigView { vm_subnet: Some(a), ..c },
                step: WizardStep::Storages,
                ..w
            })
            &&& w.step == WizardStep::Storage ==> v == (WizardView {
                cfg: ConfigView { storage: a, ..c },
                step: WizardStep::Bridges,
                ..w
            })
            &&& w.step == WizardStep::Bridge ==> v == (WizardView {
                cfg: ConfigView { bridge: a, ..c },
                step: WizardStep::Tailscale,
                ..w
            })
            &&& w.step == WizardStep::Tailscale && is_yes(a) ==> v == (WizardView {
                cfg: ConfigView { tailscale_default: true, ..c },
                step: WizardStep::AuthKey,
                ..w
            })
            &&& w.step == WizardStep::Tailscale && !is_yes(a) ==> v == (WizardView {
                cfg: ConfigView { tailscale_default: false, ..c },
                step: WizardStep::BackUp,
                ..w
            })
            &&& w.step == WizardStep::AuthKey ==> v == (WizardView {
                cfg: ConfigView { tailscale_authkey: Some(a), ..c },
                step: WizardStep::Domain,
                ..w
            })
            &&& w.step == WizardStep::Domain ==> v == (WizardView {
                cfg: ConfigView { tailnet_domain: Some(a), ..c },
                step: WizardStep::BackUp,
                ..w
            })
            &&& w.step == WizardStep::Continue && is_yes(a) ==> v == (WizardView {
                step: WizardStep::Host,
                ..w
            })
            &&& w.step == WizardStep::Continue && !is_yes(a) ==> v == (WizardView {
                step: WizardStep::Done,
                ..w
            })
        }),
{
    trimming_stops(line);
}

/// Whoever presses Enter keeps what was set: each of these settings stays as it is, and what was
/// not set stays unset, but for the identity file and the subnet, which are proposed. Whether to
/// go on is then answered with yes, and whether to join a tailnet as it was before.
pub proof fn an_empty_answer_keeps_what_was_set(w: WizardView, line: Seq<char>)
    requires
        trimmed(line).len() == 0,
    ensures
        ({
            let c = w.cfg;
            let v = w.after(WizardEventView::Line(line)).0;
            &&& w.step == WizardStep::Continue ==> v == (WizardView { step: WizardStep::Host, ..w })
            &&& w.step == WizardStep::Host && trimmed(c.host).len() > 0 ==> v == (WizardView {
                step: WizardStep::User,
                ..w
            })
            &&& w.step == WizardStep::Host && trimmed(c.host).len() == 0 ==> v == w
            &&& w.step == WizardStep::User ==> v == (WizardView { step: WizardStep::Port, ..w })
            &&& w.step == WizardStep::Port && c.port > 0 ==> v == (WizardView {
                step: WizardStep::Identity,
                ..w
            })
            &&& w.step == WizardStep::Identity ==> (c.identity_file matches Some(p) && p.len() > 0
                ==> v == (WizardView { step: WizardStep::Subnet, ..w }))
            &&& w.step == WizardStep::Identity && c.identity_file is None ==> v == (WizardView {
                cfg: ConfigView {
                    identity_file: Some(w.home + "/.ssh/proxmox/id_ed25519"@),
                    ..c
                },
                step: WizardStep::Subnet,
                ..w
            })
            &&& w.step == WizardStep::Subnet ==> (c.vm_subnet matches Some(s) && s.len() > 0 ==> v
                == (WizardView { step: WizardStep::Storages, ..w }))
            &&& w.step == WizardStep::Subnet && c.vm_subnet is None ==> v == (WizardView {
                cfg: ConfigView { vm_subnet: Some(guessed_subnet(c.host)), ..c },
                step: WizardStep::Storages,
                ..w
            })
            &&& w.step == WizardStep::Storage ==> v == (WizardView {
                step: WizardStep::Bridges,
                ..w
            })
            &&& w.step == WizardStep::Bridge ==> v == (WizardView {
                step: WizardStep::Tailscale,
                ..w
            })
            &&& w.step == WizardStep::Tailscale && c.tailscale_default ==> v == (WizardView {
                step: WizardStep::AuthKey,
                ..w
            })
            &&& w.step == WizardStep::Tailscale && !c.tailscale_default ==> v == (WizardView {
                step: WizardStep::BackUp,
                ..w
            })
            &&& w.step == WizardStep::AuthKey ==> (c.tailscale_authkey matches Some(k) && k.len() > 0
                ==> v == (WizardView { step: WizardStep::Domain, ..w }))
            &&& w.step == WizardStep::AuthKey && c.tailscale_authkey is None ==> v == (WizardView {
                step: WizardStep::Domain,
                ..w
            })
            &&& w.step == WizardStep::Domain ==> (c.tailnet_domain matches Some(d) && d.len() > 0
                ==> v == (WizardView { step: WizardStep::BackUp, ..w }))
            &&& w.step == WizardStep::Domain && c.tailnet_domain is None ==> v == (WizardView {
                step: WizardStep::BackUp,
                ..w
            })
        }),
{
    numbers_read_back(w.cfg.port as nat, u16::MAX as int);
    reveal_strlit("y");
    reveal_strlit("n");
    reveal_strlit("/.ssh/proxmox/id_ed25519");
    reveal_strlit("192.0.2.0/24");
    reveal_strlit(".0/24");
}

/// Each question proposes the setting that it is about.
pub proof fn questions_propose_what_is_set(w: WizardView)
    ensures
        w.asked() matches Some(q) ==> {
            &&& w.step == WizardStep::Continue ==> q.0 == "Continue?"@ && q.1 == "y"@
            &&& w.step == WizardStep::Host ==> q.0 == "Proxmox node IP or hostname"@ && q.1
                == w.cfg.host
            &&& w.step == WizardStep::User ==> q.0 == "SSH user"@ && q.1 == w.cfg.user
            &&& w.step == WizardStep::Port ==> q.0 == "SSH port"@ && read_uint(
                q.1,
                u16::MAX as int,
            ) == Some(w.cfg.port as int)
            &&& w.step == WizardStep::Identity ==> q.0 == "SSH identity file"@ && (
            w.cfg.identity_file matches Some(p) ==> q.1 == p)
            &&& w.step == WizardStep::Subnet ==> q.0 == "VM subnet (for ~/.ssh/config)"@ && (
            w.cfg.vm_subnet matches Some(s) ==> q.1 == s)
            &&& w.step == WizardStep::Storage ==> q.0 == "Storage for VM disks"@ && q.1
                == w.cfg.storage
            &&& w.step == WizardStep::Bridge ==> q.0 == "Network bridge"@ && q.1 == w.cfg.bridge
            &&& w.step == WizardStep::Tailscale ==> q.0
                == "Join new VMs to a tailnet by default?"@ && q.1 == (if w.cfg.tailscale_default {
                "y"@
            } else {
                "n"@
            })
            &&& w.step == WizardStep::AuthKey ==> q.0
                == "Tailscale reusable auth key (tskey-auth-...)"@ && (
            w.cfg.tailscale_authkey matches Some(k) ==> q.1 == k)
            &&& w.step == WizardStep::Domain ==> q.0
                == "Tailnet domain (e.g. example-name.ts.net)"@ && (
            w.cfg.tailnet_domain matches Some(d) ==> q.1 == d)
        },
        w.asked() is None <==> w.step == WizardStep::Storages || w.step == WizardStep::Bridges
            || w.step == WizardStep::BackUp || w.step == WizardStep::Write || w.step
            == WizardStep::Done,
{
    numbers_read_back(w.cfg.port as nat, u16::MAX as int);
}

/// What the node has is asked before the question that it helps with, and is told where the node
/// has anything; then the old file is kept, the new one written, and the wizard is done.
pub proof fn the_wizard_acts_between_its_questions(
    w: WizardView,
    names: Seq<Seq<char>>,
    why: Seq<char>,
)
    ensures
        ({
            let (v, says) = w.after(WizardEventView::Names(Ok(names)));
            &&& w.step == WizardStep::Storages ==> v == (WizardView {
                step: WizardStep::Storage,
                ..w
            }) && (names.len() > 0 ==> says == seq![
                "Detected "@ + "storages"@ + ": "@ + joined(names, ", "@),
            ]) && (names.len() == 0 ==> says.len() == 0)
            &&& w.step == WizardStep::Bridges ==> v == (WizardView {
                step: WizardStep::Bridge,
                ..w
            }) && (names.len() > 0 ==> says == seq![
                "Detected "@ + "bridges"@ + ": "@ + joined(names, ", "@),
            ]) && (names.len() == 0 ==> says.len() == 0)
        }),
        ({
            let (v, says) = w.after(WizardEventView::Names(Err(why)));
            &&& w.step == WizardStep::Storages ==> v == (WizardView {
                step: WizardStep::Storage,
                ..w
            }) && says.len() == 0
            &&& w.step == WizardStep::Bridges ==> v == (WizardView {
                step: WizardStep::Bridge,
                ..w
            }) && says.len() == 0
        }),
        w.step == WizardStep::BackUp ==> {
            &&& w.after(WizardEventView::BackedUp(true)) == (
                WizardView { step: WizardStep::Write, ..w },
                seq![""@, "Backed up existing config to "@ + (w.path + ".bak"@)],
            )
            &&& w.after(WizardEventView::BackedUp(false)) == (
                WizardView { step: WizardStep::Write, ..w },
                Seq::<Seq<char>>::empty(),
            )
        },
        w.step == WizardStep::Write ==> ({
            let (v, says) = w.after(WizardEventView::Written);
            v == (WizardView { step: WizardStep::Done, ..w }) && says.len() > 0 && says[0]
                == "Wrote "@ + w.path
        }),
{
}

/// A new wizard starts with the settings that are there, or with the built-in ones, and asks
/// first whether to go on exactly where there is a configuration already.
pub proof fn a_wizard_starts_from_what_is_there(
    path: Seq<char>,
    c: ConfigView,
    home: Seq<char>,
    there: bool,
)
    ensures
        ({
            let w = new_wizard(path, Some(c), home, there).0;
            &&& w.cfg == c && w.path == path && w.home == home
            &&& there ==> w.step == WizardStep::Continue
            &&& !there ==> w.step == WizardStep::Host
        }),
        ({
            let w = new_wizard(path, None, home, there).0;
            &&& w.cfg == default_config() && w.path == path && w.home == home
            &&& there ==> w.step == WizardStep::Continue
            &&& !there ==> w.step == WizardStep::Host
        }),
{
}

/// A question that is answered with yes or no takes its default from an empty line, and from any
/// other whether it says yes, in whatever case.
pub proof fn yes_or_no_is_the_line_or_the_default(line: Seq<char>, default_yes: bool)
    ensures
        trimmed(line).len() == 0 ==> is_yes(answer(line, y_or_n(default_yes))) == default_yes,
        trimmed(line).len() > 0 ==> is_yes(answer(line, y_or_n(default_yes))) == is_yes(
            trimmed(line),
        ),
        is_yes(seq!['y']) && is_yes(seq!['Y']) && is_yes(seq!['y', 'e', 's']) && is_yes(
            seq!['Y', 'E', 'S'],
        ),
        forall|s: Seq<char>| #[trigger]
            is_yes(s) ==> (s.len() == 1 || s.len() == 3) && (s[0] == 'y' || s[0] == 'Y') && (s.len()
                == 3 ==> (s[1] == 'e' || s[1] == 'E') && (s[2] == 's' || s[2] == 'S')),
        forall|s: Seq<char>|
            s.len() == 3 && (s[0] == 'y' || s[0] == 'Y') && (s[1] == 'e' || s[1] == 'E') && (s[2]
                == 's' || s[2] == 'S') ==> #[trigger] is_yes(s),
{
    reveal_strlit("y");
    reveal_strlit("n");
}

/// The subnet that is proposed for a node with an IPv4 address is the one of its first three
/// numbers, and for any other the one for documentation.
pub proof fn the_subnet_is_that_of_the_host(a: u8, b: u8, c: u8, d: u8, host: Seq<char>)
    ensures
        guessed_subnet(dotted(a, b, c, d)) == decimal(a as nat) + "."@ + decimal(b as nat) + "."@
            + decimal(c as nat) + ".0/24"@,
        read_ipv4(host) is None ==> guessed_subnet(host) == "192.0.2.0/24"@,
{
    addresses_read_back(a, b, c, d);
}

/// The wizard is seen as it is.
pub proof fn the_wizard_is_seen_as_it_is(w: Wizard, line: String, names: Vec<String>)
    ensures
        w@.cfg == w.cfg@ && w@.path == w.path@ && w@.home == w.home@ && w@.step == w.step,
        WizardEvent::Line(line)@ == WizardEventView::Line(line@),
        WizardEvent::Names(Ok(names))@ == WizardEventView::Names(Ok(names.deep_view())),
        WizardEvent::Names(Err(line))@ == WizardEventView::Names(Err(line@)),
        WizardEvent::BackedUp(true)@ == WizardEventView::BackedUp(true),
        WizardEvent::BackedUp(false)@ == WizardEventView::BackedUp(false),
{
}

/// A question is put with its default in brackets, where it has one.
pub proof fn a_default_stands_in_brackets(label: Seq<char>, default: Seq<char>)
    ensures
        default.len() > 0 ==> question(label, default) == label + " ["@ + default + "]: "@,
        question(label, Seq::empty()) == label + ": "@,
{
}

} // verus!
