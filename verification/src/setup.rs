//! The one-time setup of access to the node: a key of its own, its public half installed on the
//! node, and the block of the SSH configuration for the VMs' subnet.
use vstd::prelude::*;

use crate::config::{Config, ConfigView};
use crate::node::{NodeInfo, NodeInfoView};
use crate::number::{decimal, numbers_read_back, read_uint, uint_text};
use crate::sshconfig::{
    ensure_subnet_block, subnet_block_is_put_in_once, subnet_pattern, with_subnet,
};
use crate::text::{
    lines_of, opt_text, string_or_empty, text_or_empty, trimmed_end_of, unlines,
};

verus! {

// ---------------------------------------------------------------------------------------------
// Commands that talk to the user.
/// How a command that the user sees ended.
pub enum Ended {
    /// There is no such program.
    NotFound,
    /// It could not be run, for the given reason.
    NotRun(String),
    /// It ran, with success or not, and ended with the given status.
    Exited { success: bool, status: String },
}

pub enum EndedView {
    NotFound,
    NotRun(Seq<char>),
    Exited { success: bool, status: Seq<char> },
}

impl View for Ended {
    type V = EndedView;

    open spec fn view(&self) -> EndedView {
        match self {
            Ended::NotFound => EndedView::NotFound,
            Ended::NotRun(e) => EndedView::NotRun(e@),
            Ended::Exited { success, status } => EndedView::Exited {
                success: *success,
                status: status@,
            },
        }
    }
}

/// What is wrong with how a command ended, if anything.
pub open spec fn complaint(program: Seq<char>, e: EndedView) -> Option<Seq<char>> {
    match e {
        EndedView::NotFound => Some(
            "`"@ + program + "` not found — is it installed and on your PATH?"@,
        ),
        EndedView::NotRun(why) => Some("failed to run `"@ + program + "`: "@ + why),
        EndedView::Exited { success, status } => if success {
            None
        } else {
            Some("`"@ + program + "` exited with "@ + status)
        },
    }
}

/// What is wrong with how a command ended, if anything.
pub fn run_interactive(program: &str, e: &Ended) -> (r: Result<(), String>)
    ensures
        match r {
            Ok(_) => complaint(program@, e@) is None,
            Err(m) => complaint(program@, e@) == Some(m@),
        },
{
    match e {
        Ended::NotFound => {
            let mut m: String = "`".to_owned();
            m.append(program);
            m.append("` not found — is it installed and on your PATH?");
            Err(m)
        },
        Ended::NotRun(why) => {
            let mut m: String = "failed to run `".to_owned();
            m.append(program);
            m.append("`: ");
            m.append(why.as_str());
            Err(m)
        },
        Ended::Exited { success, status } => {
            if *success {
                Ok(())
            } else {
                let mut m: String = "`".to_owned();
                m.append(program);
                m.append("` exited with ");
                m.append(status.as_str());
                Err(m)
            }
        },
    }
}

/// The command that makes a key, without a passphrase.
pub open spec fn keygen_command(identity: Seq<char>) -> Seq<Seq<char>> {
    seq![
        "ssh-keygen"@,
        "-t"@,
        "ed25519"@,
        "-f"@,
        identity,
        "-N"@,
        ""@,
        "-C"@,
        "mox-automation"@,
    ]
}

/// The command that installs the public key on the node.
pub open spec fn copy_id_command(c: ConfigView, identity: Seq<char>) -> Seq<Seq<char>> {
    seq![
        "ssh-copy-id"@,
        "-i"@,
        identity + ".pub"@,
        "-p"@,
        decimal(c.port as nat),
        c.user + "@"@ + c.host,
    ]
}

// ---------------------------------------------------------------------------------------------
// The setup, step by step.
/// Where the setup is.
#[derive(Debug)]
pub enum SetupStep {
    /// Looking whether the key is there.
    LookForKey,
    /// Making the directory of the key.
    MakeDirectory,
    MakeKey,
    InstallKey,
    /// Reading the SSH configuration.
    ReadSshConfig,
    /// Writing the SSH configuration, with the given text.
    WriteSshConfig(String),
    /// Asking the node who it is.
    CheckAccess,
    Done,
    Failed(String),
}

pub enum SetupStepView {
    LookForKey,
    MakeDirectory,
    MakeKey,
    InstallKey,
    ReadSshConfig,
    WriteSshConfig(Seq<char>),
    CheckAccess,
    Done,
    Failed(Seq<char>),
}

impl View for SetupStep {
    type V = SetupStepView;

    open spec fn view(&self) -> SetupStepView {
        match self {
            SetupStep::LookForKey => SetupStepView::LookForKey,
            SetupStep::MakeDirectory => SetupStepView::MakeDirectory,
            SetupStep::MakeKey => SetupStepView::MakeKey,
            SetupStep::InstallKey => SetupStepView::InstallKey,
            SetupStep::ReadSshConfig => SetupStepView::ReadSshConfig,
            SetupStep::WriteSshConfig(t) => SetupStepView::WriteSshConfig(t@),
            SetupStep::CheckAccess => SetupStepView::CheckAccess,
            SetupStep::Done => SetupStepView::Done,
            SetupStep::Failed(m) => SetupStepView::Failed(m@),
        }
    }
}

/// The setup of access, on its way.
pub struct Setup {
    pub cfg: Config,
    pub identity: String,
    /// The SSH configuration, where its path is known.
    pub ssh_config: Option<String>,
    pub step: SetupStep,
}

#[verifier::ext_equal]
pub struct SetupView {
    pub cfg: ConfigView,
    pub identity: Seq<char>,
    pub ssh_config: Option<Seq<char>>,
    pub step: SetupStepView,
}

impl View for Setup {
    type V = SetupView;

    open spec fn view(&self) -> SetupView {
        SetupView {
            cfg: self.cfg@,
            identity: self.identity@,
            ssh_config: opt_text(self.ssh_config),
            step: self.step@,
        }
    }
}

/// What came of a step.
pub enum SetupEvent {
    /// Whether the key is there.
    KeyFound(bool),
    DirectoryMade,
    CommandEnded(Ended),
    /// The text of the SSH configuration, empty where there is none.
    SshConfigRead(String),
    SshConfigWritten,
    NodeInfo(Result<NodeInfo, String>),
}

pub enum SetupEventView {
    KeyFound(bool),
    DirectoryMade,
    CommandEnded(EndedView),
    SshConfigRead(Seq<char>),
    SshConfigWritten,
    NodeInfo(Result<NodeInfoView, Seq<char>>),
}

impl View for SetupEvent {
    type V = SetupEventView;

    open spec fn view(&self) -> SetupEventView {
        match self {
            SetupEvent::KeyFound(b) => SetupEventView::KeyFound(*b),
            SetupEvent::DirectoryMade => SetupEventView::DirectoryMade,
            SetupEvent::CommandEnded(e) => SetupEventView::CommandEnded(e@),
            SetupEvent::SshConfigRead(t) => SetupEventView::SshConfigRead(t@),
            SetupEvent::SshConfigWritten => SetupEventView::SshConfigWritten,
            SetupEvent::NodeInfo(r) => SetupEventView::NodeInfo(
                match r {
                    Ok(i) => Ok(i@),
                    Err(e) => Err(e@),
                },
            ),
        }
    }
}

impl SetupView {
    pub open spec fn at(self, step: SetupStepView) -> SetupView {
        SetupView { step, ..self }
    }

    /// The command that a step runs.
    pub open spec fn command(self) -> Option<Seq<Seq<char>>> {
        match self.step {
            SetupStepView::MakeKey => Some(keygen_command(self.identity)),
            SetupStepView::InstallKey => Some(copy_id_command(self.cfg, self.identity)),
            _ => None,
        }
    }

    /// What is said before the public key is installed.
    pub open spec fn password_notice(self) -> Seq<Seq<char>> {
        seq![
            ""@,
            "You should be prompted once for the "@ + self.cfg.user + " password on "@
                + self.cfg.host + "."@,
        ]
    }

    pub open spec fn checking_notice() -> Seq<Seq<char>> {
        seq![""@, "Checking access..."@]
    }

    /// The setup once the public key is installed: with the SSH configuration, where the subnet
    /// and the configuration's path are known.
    pub open spec fn wiring(self) -> (SetupView, Seq<Seq<char>>) {
        let says = seq![""@, "Wiring local ssh config..."@];
        match (self.cfg.vm_subnet, self.ssh_config) {
            (Some(_), Some(_)) => (self.at(SetupStepView::ReadSshConfig), says),
            (None, _) => (
                self.at(SetupStepView::CheckAccess),
                says.push(
                    "(no PVE_VM_SUBNET set — skipping ~/.ssh/config subnet block)"@,
                ) + Self::checking_notice(),
            ),
            (_, None) => (
                self.at(SetupStepView::CheckAccess),
                says.push("(no HOME — skipping ~/.ssh/config subnet block)"@)
                    + Self::checking_notice(),
            ),
        }
    }

    /// The setup after an event, and what it says. What answers nothing changes nothing.
    pub open spec fn after(self, e: SetupEventView) -> (SetupView, Seq<Seq<char>>) {
        match (self.step, e) {
            (SetupStepView::LookForKey, SetupEventView::KeyFound(there)) => if there {
                (
                    self.at(SetupStepView::InstallKey),
                    seq!["Using existing SSH key: "@ + self.identity] + self.password_notice(),
                )
            } else {
                (self.at(SetupStepView::MakeDirectory), Seq::empty())
            },
            (SetupStepView::MakeDirectory, SetupEventView::DirectoryMade) => (
                self.at(SetupStepView::MakeKey),
                seq!["Creating dedicated Proxmox SSH key: "@ + self.identity],
            ),
            (SetupStepView::MakeKey, SetupEventView::CommandEnded(end)) => match complaint(
                "ssh-keygen"@,
                end,
            ) {
                Some(m) => (self.at(SetupStepView::Failed(m)), Seq::empty()),
                None => (self.at(SetupStepView::InstallKey), self.password_notice()),
            },
            (SetupStepView::InstallKey, SetupEventView::CommandEnded(end)) => match complaint(
                "ssh-copy-id"@,
                end,
            ) {
                Some(m) => (self.at(SetupStepView::Failed(m)), Seq::empty()),
                None => self.wiring(),
            },
            (SetupStepView::ReadSshConfig, SetupEventView::SshConfigRead(text)) => match with_subnet(
                text,
                text_or_empty(self.cfg.vm_subnet),
                self.cfg.ci_user,
                self.identity,
            ) {
                Some(t) => (self.at(SetupStepView::WriteSshConfig(t)), Seq::empty()),
                None => (
                    self.at(SetupStepView::CheckAccess),
                    seq!["ssh config subnet block already present."@] + Self::checking_notice(),
                ),
            },
            (SetupStepView::WriteSshConfig(_), SetupEventView::SshConfigWritten) => (
                self.at(SetupStepView::CheckAccess),
                seq!["Added subnet block to "@ + text_or_empty(self.ssh_config)]
                    + Self::checking_notice(),
            ),
            (SetupStepView::CheckAccess, SetupEventView::NodeInfo(Ok(info))) => (
                self.at(SetupStepView::Done),
                seq![
                    "Connected to "@ + info.hostname + " ("@ + info.pve_version + ")."@,
                    ""@,
                    "Setup complete. Try: mox doctor"@,
                ],
            ),
            (SetupStepView::CheckAccess, SetupEventView::NodeInfo(Err(m))) => (
                self.at(SetupStepView::Failed("access check failed: "@ + m)),
                Seq::empty(),
            ),
            _ => (self, Seq::empty()),
        }
    }
}

fn quiet() -> (r: Vec<String>)
    ensures
        r.deep_view() == Seq::<Seq<char>>::empty(),
{
    let r: Vec<String> = Vec::new();
    assert(r.deep_view() =~= Seq::<Seq<char>>::empty());
    r
}

fn tell(says: &mut Vec<String>, line: String)
    ensures
        final(says).deep_view() == old(says).deep_view().push(line@),
{
    let ghost before = says.deep_view();
    says.push(line);
    assert(says.deep_view() =~= before.push(line@));
}

fn add_checking_notice(says: &mut Vec<String>)
    ensures
        final(says).deep_view() == old(says).deep_view() + SetupView::checking_notice(),
{
    let ghost before = says.deep_view();
    tell(says, "".to_owned());
    tell(says, "Checking access...".to_owned());
    assert(says.deep_view() =~= before + SetupView::checking_notice());
}

/// The setup as it starts.
pub open spec fn new_setup(c: ConfigView, ssh_config: Option<Seq<char>>) -> SetupView {
    SetupView {
        cfg: c,
        identity: c.identity_file->0,
        ssh_config,
        step: SetupStepView::LookForKey,
    }
}

impl Setup {
    /// The setup as it starts. It takes an identity file.
    pub fn new(cfg: Config, ssh_config: Option<String>) -> (r: Result<Setup, String>)
        ensures
            match r {
                Ok(s) => cfg@.identity_file is Some && s@ == new_setup(cfg@, opt_text(ssh_config)),
                Err(m) => cfg@.identity_file is None && m@
                    == "no SSH identity configured (set PVE_IDENTITY_FILE)"@,
            },
    {
        let identity: String = match &cfg.identity_file {
            Some(p) => p.clone(),
            None => {
                return Err("no SSH identity configured (set PVE_IDENTITY_FILE)".to_owned());
            },
        };
        Ok(Setup { cfg, identity, ssh_config, step: SetupStep::LookForKey })
    }

    /// The command that the step runs.
    pub fn command(&self) -> (r: Option<Vec<String>>)
        ensures
            match r {
                Some(argv) => self@.command() == Some(argv.deep_view()),
                None => self@.command() is None,
            },
    {
        match &self.step {
            SetupStep::MakeKey => {
                let argv: Vec<String> = vec![
                    "ssh-keygen".to_owned(),
                    "-t".to_owned(),
                    "ed25519".to_owned(),
                    "-f".to_owned(),
                    self.identity.clone(),
                    "-N".to_owned(),
                    "".to_owned(),
                    "-C".to_owned(),
                    "mox-automation".to_owned(),
                ];
                assert(argv.deep_view() =~= keygen_command(self.identity@));
                Some(argv)
            },
            SetupStep::InstallKey => {
                let mut key: String = self.identity.clone();
                key.append(".pub");
                let mut target: String = self.cfg.user.clone();
                target.append("@");
                target.append(self.cfg.host.as_str());
                let argv: Vec<String> = vec![
                    "ssh-copy-id".to_owned(),
                    "-i".to_owned(),
                    key,
                    "-p".to_owned(),
                    uint_text(self.cfg.port as u64),
                    target,
                ];
                assert(argv.deep_view() =~= copy_id_command(self.cfg@, self.identity@));
                Some(argv)
            },
            _ => None,
        }
    }

    fn add_password_notice(&self, says: &mut Vec<String>)
        ensures
            final(says).deep_view() == old(says).deep_view() + self@.password_notice(),
    {
        let ghost before = says.deep_view();
        let mut m: String = "You should be prompted once for the ".to_owned();
        m.append(self.cfg.user.as_str());
        m.append(" password on ");
        m.append(self.cfg.host.as_str());
        m.append(".");
        tell(says, "".to_owned());
        tell(says, m);
        assert(says.deep_view() =~= before + self@.password_notice());
    }

    fn wiring(&mut self) -> (r: Vec<String>)
        ensures
            (final(self)@, r.deep_view()) == old(self)@.wiring(),
    {
        let mut says: Vec<String> = quiet();
        tell(&mut says, "".to_owned());
        tell(&mut says, "Wiring local ssh config...".to_owned());
        assert(says.deep_view() =~= seq![""@, "Wiring local ssh config..."@]);
        if self.cfg.vm_subnet.is_none() {
            tell(
                &mut says,
                "(no PVE_VM_SUBNET set — skipping ~/.ssh/config subnet block)".to_owned(),
            );
            add_checking_notice(&mut says);
            self.step = SetupStep::CheckAccess;
        } else if self.ssh_config.is_none() {
            tell(
                &mut says,
                "(no HOME — skipping ~/.ssh/config subnet block)".to_owned(),
            );
            add_checking_notice(&mut says);
            self.step = SetupStep::CheckAccess;
        } else {
            self.step = SetupStep::ReadSshConfig;
        }
        says
    }

    /// Goes on with what came of the step, and says what is to be printed, line by line.
    pub fn run(&mut self, event: SetupEvent) -> (r: Vec<String>)
        ensures
            (final(self)@, r.deep_view()) == old(self)@.after(event@),
    {
        let mut says: Vec<String> = quiet();
        match (&self.step, event) {
            (SetupStep::LookForKey, SetupEvent::KeyFound(there)) => {
                if there {
                    let mut m: String = "Using existing SSH key: ".to_owned();
                    m.append(self.identity.as_str());
                    tell(&mut says, m);
                    assert(says.deep_view() =~= seq![
                        "Using existing SSH key: "@ + self.identity@,
                    ]);
                    self.add_password_notice(&mut says);
                    self.step = SetupStep::InstallKey;
                } else {
                    self.step = SetupStep::MakeDirectory;
                }
            },
            (SetupStep::MakeDirectory, SetupEvent::DirectoryMade) => {
                let mut m: String = "Creating dedicated Proxmox SSH key: ".to_owned();
                m.append(self.identity.as_str());
                tell(&mut says, m);
                assert(says.deep_view() =~= seq![
                    "Creating dedicated Proxmox SSH key: "@ + self.identity@,
                ]);
                self.step = SetupStep::MakeKey;
            },
            (SetupStep::MakeKey, SetupEvent::CommandEnded(end)) => {
                match run_interactive("ssh-keygen", &end) {
                    Ok(_) => {
                        self.add_password_notice(&mut says);
                        assert(says.deep_view() =~= self@.password_notice());
                        self.step = SetupStep::InstallKey;
                    },
                    Err(m) => {
                        self.step = SetupStep::Failed(m);
                    },
                }
            },
            (SetupStep::InstallKey, SetupEvent::CommandEnded(end)) => {
                match run_interactive("ssh-copy-id", &end) {
                    Ok(_) => {
                        says = self.wiring();
                    },
                    Err(m) => {
                        self.step = SetupStep::Failed(m);
                    },
                }
            },
            (SetupStep::ReadSshConfig, SetupEvent::SshConfigRead(text)) => {
                let subnet: String = string_or_empty(&self.cfg.vm_subnet);
                match ensure_subnet_block(
                    text.as_str(),
                    subnet.as_str(),
                    self.cfg.ci_user.as_str(),
                    self.identity.as_str(),
                ) {
                    Some(t) => {
                        self.step = SetupStep::WriteSshConfig(t);
                    },
                    None => {
                        tell(
                            &mut says,
                            "ssh config subnet block already present.".to_owned(),
                        );
                        assert(says.deep_view() =~= seq![
                            "ssh config subnet block already present."@,
                        ]);
                        add_checking_notice(&mut says);
                        self.step = SetupStep::CheckAccess;
                    },
                }
            },
            (SetupStep::WriteSshConfig(_), SetupEvent::SshConfigWritten) => {
                let mut m: String = "Added subnet block to ".to_owned();
                m.append(string_or_empty(&self.ssh_config).as_str());
                tell(&mut says, m);
                assert(says.deep_view() =~= seq![
                    "Added subnet block to "@ + text_or_empty(self@.ssh_config),
                ]);
                add_checking_notice(&mut says);
                self.step = SetupStep::CheckAccess;
            },
            (SetupStep::CheckAccess, SetupEvent::NodeInfo(Ok(info))) => {
                let mut m: String = "Connected to ".to_owned();
                m.append(info.hostname.as_str());
                m.append(" (");
                m.append(info.pve_version.as_str());
                m.append(").");
                tell(&mut says, m);
                tell(&mut says, "".to_owned());
                tell(&mut says, "Setup complete. Try: mox doctor".to_owned());
                assert(says.deep_view() =~= seq![
                    "Connected to "@ + info@.hostname + " ("@ + info@.pve_version + ")."@,
                    ""@,
                    "Setup complete. Try: mox doctor"@,
                ]);
                self.step = SetupStep::Done;
            },
            (SetupStep::CheckAccess, SetupEvent::NodeInfo(Err(e))) => {
                let mut m: String = "access check failed: ".to_owned();
                m.append(e.as_str());
                self.step = SetupStep::Failed(m);
            },
            _ => {},
        }
        says
    }
}

// ---------------------------------------------------------------------------------------------
// Laws.
/// How many steps may still be ahead, at most.
pub open spec fn steps_left(s: SetupStepView) -> nat {
    match s {
        SetupStepView::LookForKey => 7,
        SetupStepView::MakeDirectory => 6,
        SetupStepView::MakeKey => 5,
        SetupStepView::InstallKey => 4,
        SetupStepView::ReadSshConfig => 3,
        SetupStepView::WriteSshConfig(_) => 2,
        SetupStepView::CheckAccess => 1,
        SetupStepView::Done | SetupStepView::Failed(_) => 0,
    }
}

/// An event changes nothing, or leads the setup on: no step comes back.
pub proof fn no_step_comes_back(s: SetupView, e: SetupEventView)
    ensures
        s.after(e) == (s, Seq::<Seq<char>>::empty()) || steps_left(s.after(e).0.step) < steps_left(
            s.step,
        ),
{
}

/// A key that is there is never made again: only where none was found does a step make one.
pub proof fn an_existing_key_is_kept(s: SetupView)
    requires
        s.step is LookForKey,
    ensures
        s.after(SetupEventView::KeyFound(true)).0.step is InstallKey,
        s.after(SetupEventView::KeyFound(false)).0.step is MakeDirectory,
{
}

/// A command that fails ends the setup with what is wrong, and nothing is wired or checked.
pub proof fn a_failed_command_ends_the_setup(s: SetupView, end: EndedView)
    requires
        s.command() is Some,
        complaint((s.command()->0)[0], end) is Some,
    ensures
        s.after(SetupEventView::CommandEnded(end)) == (
            s.at(SetupStepView::Failed(complaint((s.command()->0)[0], end)->0)),
            Seq::<Seq<char>>::empty(),
        ),
{
}

/// The setup is complete only once the node has said who it is.
pub proof fn the_setup_ends_with_a_check(s: SetupView, e: SetupEventView)
    requires
        s.step !is Done,
        s.after(e).0.step is Done,
    ensures
        s.step is CheckAccess,
        e matches SetupEventView::NodeInfo(Ok(_)),
{
}

/// The SSH configuration is written at most once: with the text that was written, it needs no
/// more writing.
pub proof fn the_ssh_config_is_wired_once(s: SetupView, text: Seq<char>)
    requires
        s.step is ReadSshConfig,
        s.after(SetupEventView::SshConfigRead(text)).0.step is WriteSshConfig,
    ensures
        s.after(
            SetupEventView::SshConfigRead(
                s.after(SetupEventView::SshConfigRead(text)).0.step->WriteSshConfig_0,
            ),
        ).0.step is CheckAccess,
{
    subnet_block_is_put_in_once(
        text,
        text_or_empty(s.cfg.vm_subnet),
        s.cfg.ci_user,
        s.identity,
    );
}

/// The key is made where the settings' identity file is to be, as an Ed25519 key without a
/// passphrase, and its public half is what is installed, for the settings' user, on the settings'
/// host and port. No other step runs a command.
pub proof fn commands_are_about_the_identity(s: SetupView)
    ensures
        s.step is MakeKey ==> (s.command() matches Some(a) && a.len() == 9 && a[0] == "ssh-keygen"@
            && a[1] == "-t"@ && a[2] == "ed25519"@ && a[3] == "-f"@ && a[4] == s.identity && a[5]
            == "-N"@ && a[6].len() == 0 && a[7] == "-C"@ && a[8] == "mox-automation"@),
        s.step is InstallKey ==> (s.command() matches Some(a) && a.len() == 6 && a[0]
            == "ssh-copy-id"@ && a[1] == "-i"@ && a[2] == s.identity + ".pub"@ && a[3] == "-p"@
            && read_uint(a[4], u16::MAX as int) == Some(s.cfg.port as int) && a[5] == s.cfg.user
            + "@"@ + s.cfg.host),
        s.step !is MakeKey && s.step !is InstallKey ==> s.command() is None,
{
    reveal_strlit("");
    assert(""@.len() == 0);
    numbers_read_back(s.cfg.port as nat, u16::MAX as int);
}

/// The setup starts with the settings that it is given, with their identity file, and with a look
/// for the key.
pub proof fn a_setup_starts_with_the_key(c: ConfigView, id: Seq<char>, path: Option<Seq<char>>)
    requires
        c.identity_file == Some(id),
    ensures
        new_setup(c, path).cfg == c,
        new_setup(c, path).identity == id,
        new_setup(c, path).ssh_config == path,
        new_setup(c, path).step is LookForKey,
{
}

/// The setup goes from the key to its installation, from there to the SSH configuration where the
/// subnet and the configuration's path are known, and then to the check. Nothing but the step
/// changes on the way.
pub proof fn each_step_leads_to_the_next(s: SetupView, status: Seq<char>, text: Seq<char>)
    ensures
        ({
            let ended = SetupEventView::CommandEnded(EndedView::Exited { success: true, status });
            &&& s.step is LookForKey ==> s.after(SetupEventView::KeyFound(true)).0 == (SetupView {
                step: SetupStepView::InstallKey,
                ..s
            })
            &&& s.step is LookForKey ==> s.after(SetupEventView::KeyFound(false)).0 == (SetupView {
                step: SetupStepView::MakeDirectory,
                ..s
            })
            &&& s.step is MakeDirectory ==> s.after(SetupEventView::DirectoryMade).0 == (SetupView {
                step: SetupStepView::MakeKey,
                ..s
            })
            &&& s.step is MakeKey ==> s.after(ended).0 == (SetupView {
                step: SetupStepView::InstallKey,
                ..s
            })
            &&& s.step is InstallKey ==> s.after(ended).0 == (SetupView {
                step: if s.cfg.vm_subnet is Some && s.ssh_config is Some {
                    SetupStepView::ReadSshConfig
                } else {
                    SetupStepView::CheckAccess
                },
                ..s
            })
            &&& s.step is WriteSshConfig ==> s.after(SetupEventView::SshConfigWritten).0
                == (SetupView { step: SetupStepView::CheckAccess, ..s })
        }),
{
}

/// What is written into the SSH configuration is the block for the settings' subnet, with the
/// settings' user of new VMs and with the identity file, behind what was there; and nothing is
/// written where a block is there already.
pub proof fn the_subnet_block_is_wired(s: SetupView, text: Seq<char>, subnet: Seq<char>)
    requires
        s.step is ReadSshConfig,
        s.cfg.vm_subnet == Some(subnet),
    ensures
        lines_of(text).contains("# mox-managed subnet"@) ==> s.after(
            SetupEventView::SshConfigRead(text),
        ).0 == (SetupView { step: SetupStepView::CheckAccess, ..s }),
        !lines_of(text).contains("# mox-managed subnet"@) ==> s.after(
            SetupEventView::SshConfigRead(text),
        ).0 == (SetupView {
            step: SetupStepView::WriteSshConfig(
                trimmed_end_of(text, '\n') + "\n"@ + unlines(
                    seq![
                        "# mox-managed subnet"@,
                        "Host "@ + subnet_pattern(subnet),
                        "    User "@ + s.cfg.ci_user,
                        "    IdentityFile "@ + s.identity,
                        "    IdentitiesOnly yes"@,
                        "# mox-managed end"@,
                    ],
                ),
            ),
            ..s
        }),
{
    if !lines_of(text).contains("# mox-managed subnet"@) {
        let block = unlines(
            seq![
                "# mox-managed subnet"@,
                "Host "@ + subnet_pattern(subnet),
                "    User "@ + s.cfg.ci_user,
                "    IdentityFile "@ + s.identity,
                "    IdentitiesOnly yes"@,
                "# mox-managed end"@,
            ],
        );
        assert(trimmed_end_of(text, '\n') + ("\n"@ + block) =~= trimmed_end_of(text, '\n') + "\n"@
            + block);
    }
}

/// The check tells who the node is, or ends the setup with the reason.
pub proof fn the_check_tells_who_the_node_is(s: SetupView, i: NodeInfoView, why: Seq<char>)
    requires
        s.step is CheckAccess,
    ensures
        ({
            let (v, says) = s.after(SetupEventView::NodeInfo(Ok(i)));
            &&& v == (SetupView { step: SetupStepView::Done, ..s })
            &&& says.len() > 0 && says[0] == "Connected to "@ + i.hostname + " ("@ + i.pve_version
                + ")."@
        }),
        s.after(SetupEventView::NodeInfo(Err(why))).0 == (SetupView {
            step: SetupStepView::Failed("access check failed: "@ + why),
            ..s
        }),
{
}

/// A command has failed where there is no such program, it could not be run, or it ended without
/// success; and the message names the program.
pub proof fn complaints_name_the_program(program: Seq<char>, text: Seq<char>)
    ensures
        complaint(program, EndedView::Exited { success: true, status: text }) is None,
        complaint(program, EndedView::Exited { success: false, status: text }) == Some(
            "`"@ + program + "` exited with "@ + text,
        ),
        complaint(program, EndedView::NotRun(text)) == Some(
            "failed to run `"@ + program + "`: "@ + text,
        ),
        complaint(program, EndedView::NotFound) == Some(
            "`"@ + program + "` not found — is it installed and on your PATH?"@,
        ),
{
}

/// The setup is seen as it is.
pub proof fn the_setup_is_seen_as_it_is(s: Setup, text: String, i: NodeInfo, success: bool)
    ensures
        s@.cfg == s.cfg@ && s@.identity == s.identity@ && s@.step == s.step@,
        s.ssh_config matches Some(p) ==> s@.ssh_config == Some(p@),
        s.ssh_config is None ==> s@.ssh_config is None,
        SetupStep::WriteSshConfig(text)@ == SetupStepView::WriteSshConfig(text@),
        SetupStep::Failed(text)@ == SetupStepView::Failed(text@),
        SetupEvent::SshConfigRead(text)@ == SetupEventView::SshConfigRead(text@),
        SetupEvent::KeyFound(success)@ == SetupEventView::KeyFound(success),
        SetupEvent::NodeInfo(Ok(i))@ == SetupEventView::NodeInfo(Ok(i@)),
        SetupEvent::NodeInfo(Err(text))@ == SetupEventView::NodeInfo(Err(text@)),
        (Ended::Exited { success, status: text })@ == (EndedView::Exited {
            success,
            status: text@,
        }),
        Ended::NotRun(text)@ == EndedView::NotRun(text@),
        Ended::NotFound@ == EndedView::NotFound,
{
}

} // verus!
