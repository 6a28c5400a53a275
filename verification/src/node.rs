//! What is asked of the node, and what its answers mean.
//!
//! The node is reached by running `ssh`. An operation says what to run, and is then given what
//! came of it.
use vstd::prelude::*;
use vstd::utf8::encode_utf8;

use crate::config::{flag, flag_text, Config, ConfigView};
use crate::encode::{
    arguments_cannot_break_out, base64, base64_decoded, base64_encode, base64_round_trips,
    bash_command, bash_command_text, is_plain, is_plain_word, lemma_plain_upto, plain_upto,
    plain_words_stay_words, shell_words,
};
use crate::model::{
    all_addresses, guest_ips_of, is_sorted_from, qemu_vms, vm_views, vms_from, GuestIface,
    GuestIps, GuestIpsView, Resource, Vm,
};
use crate::number::{
    all_digits, decimal, is_digit, lemma_decimal, numbers_read_back, parse_u32, read_uint,
    uint_text,
};
use crate::sshconfig::{upsert_vm_entry, upserted};
use crate::text::{
    after_prefix, all_lines, first_word, first_word_of, is_line, is_trimmed, is_white_space,
    is_word, join, joined, joined_words_split_again, lemma_find_from_is, lemma_first_word,
    lemma_joined_first, lemma_lines_of_concat, lemma_lines_of_first, lemma_separator_free,
    lemma_trimmed_blank, lemma_trimmed_bounds, lemma_trimmed_is, lemma_words_are_words, lines,
    lines_of, lines_read_back, non_empty, opt_text, opt_view, separator_free, some_if_not_empty,
    starts_with, string_or_empty, strip_prefix, text_or_empty, trim, trim_end_of, trim_start_of,
    trimmed, trimmed_end_of, trimmed_start_of, trimming_stops, unlines, words, words_of,
};

verus! {

/// The node's identity and tools.
#[derive(Debug, Clone)]
pub struct NodeInfo {
    pub hostname: String,
    pub pve_version: String,
    /// The version of `virt-customize`, where it is installed.
    pub virt_customize: Option<String>,
}

#[verifier::ext_equal]
pub struct NodeInfoView {
    pub hostname: Seq<char>,
    pub pve_version: Seq<char>,
    pub virt_customize: Option<Seq<char>>,
}

impl View for NodeInfo {
    type V = NodeInfoView;

    open spec fn view(&self) -> NodeInfoView {
        NodeInfoView {
            hostname: self.hostname@,
            pve_version: self.pve_version@,
            virt_customize: opt_text(self.virt_customize),
        }
    }
}

/// Everything needed to clone and configure a new VM.
#[derive(Debug, Clone)]
pub struct CreateSpec {
    pub name: String,
    /// The id of the VM, or `None` to let the node assign the next free one.
    pub vmid: Option<u32>,
    pub cores: u32,
    pub memory: u32,
    pub disk: u32,
    /// `dhcp` or a static address with its prefix length, such as `192.168.1.50/24`.
    pub ip: String,
    pub gateway: Option<String>,
    pub nameserver: Option<String>,
    pub ci_user: String,
    /// The text of the SSH public key that is installed into the VM.
    pub ssh_pubkey: String,
    pub full_clone: bool,
    pub start: bool,
    pub tags: Option<String>,
    pub tailscale: bool,
}

#[verifier::ext_equal]
pub struct CreateSpecView {
    pub name: Seq<char>,
    pub vmid: Option<u32>,
    pub cores: u32,
    pub memory: u32,
    pub disk: u32,
    pub ip: Seq<char>,
    pub gateway: Option<Seq<char>>,
    pub nameserver: Option<Seq<char>>,
    pub ci_user: Seq<char>,
    pub ssh_pubkey: Seq<char>,
    pub full_clone: bool,
    pub start: bool,
    pub tags: Option<Seq<char>>,
    pub tailscale: bool,
}

impl View for CreateSpec {
    type V = CreateSpecView;

    open spec fn view(&self) -> CreateSpecView {
        CreateSpecView {
            name: self.name@,
            vmid: self.vmid,
            cores: self.cores,
            memory: self.memory,
            disk: self.disk,
            ip: self.ip@,
            gateway: opt_text(self.gateway),
            nameserver: opt_text(self.nameserver),
            ci_user: self.ci_user@,
            ssh_pubkey: self.ssh_pubkey@,
            full_clone: self.full_clone,
            start: self.start,
            tags: opt_text(self.tags),
            tailscale: self.tailscale,
        }
    }
}

/// A script that is fed to the node on standard input.
#[derive(Debug, Clone, Copy, PartialEq, Eq, Structural)]
pub enum Script {
    /// Clones and configures a VM. Its arguments: template id, VM id, name, cores, memory, disk,
    /// address, gateway, nameserver, user, full clone, start, tags, public key in base64,
    /// Tailscale, auth key in base64, tailnet domain.
    Create,
    /// Builds the template. Its arguments: template id, template name, image URL, storage,
    /// bridge, CPU type, user, packages, URL of the Tailscale installer.
    Template,
}

/// A command to run on the node, with a script on its standard input where there is one.
#[derive(Debug, Clone)]
pub struct Request {
    pub remote: String,
    pub script: Option<Script>,
}

#[verifier::ext_equal]
pub struct RequestView {
    pub remote: Seq<char>,
    pub script: Option<Script>,
}

impl View for Request {
    type V = RequestView;

    open spec fn view(&self) -> RequestView {
        RequestView { remote: self.remote@, script: self.script }
    }
}

/// A command without a script.
pub open spec fn plain(remote: Seq<char>) -> RequestView {
    RequestView { remote, script: None }
}

fn plain_request(remote: String) -> (r: Request)
    ensures
        r@ == plain(remote@),
{
    Request { remote, script: None }
}

/// What came of a command: its output, or what went wrong.
pub type Outcome = Result<String, String>;

/// How an operation goes on: with a command to run, or at its end.
#[derive(Debug)]
pub enum Step<T> {
    Run(Request),
    Done(Result<T, String>),
}

// ---------------------------------------------------------------------------------------------
// What came of a command.
/// A message about a failed command: the given line of what it wrote to standard error.
pub open spec fn failure(label: Seq<char>, line: Option<Seq<char>>) -> Seq<char> {
    label + match line {
        Some(l) => l,
        None => "(no stderr)"@,
    }
}

pub open spec fn first_of(ls: Seq<Seq<char>>) -> Option<Seq<char>> {
    if ls.len() > 0 {
        Some(ls[0])
    } else {
        None
    }
}

pub open spec fn last_of(ls: Seq<Seq<char>>) -> Option<Seq<char>> {
    if ls.len() > 0 {
        Some(ls.last())
    } else {
        None
    }
}

/// The output of a command that succeeded, or the first line of what a failed one wrote to
/// standard error.
pub fn run_outcome(success: bool, stdout: String, stderr: &str) -> (r: Outcome)
    ensures
        match r {
            Ok(out) => success && out@ == stdout@,
            Err(m) => !success && m@ == failure(
                "remote command failed: "@,
                first_of(lines_of(trimmed(stderr@))),
            ),
        },
{
    if success {
        Ok(stdout)
    } else {
        let ls: Vec<&str> = lines(trim(stderr));
        assert(ls.deep_view().len() == ls@.len());
        let mut m: String = "remote command failed: ".to_owned();
        if ls.len() > 0 {
            assert(ls.deep_view()[0] == ls@[0]@);
            m.append(ls[0]);
        } else {
            m.append("(no stderr)");
        }
        Err(m)
    }
}

/// The output of a script that succeeded, or the last line of what a failed one wrote to
/// standard error.
pub fn script_outcome(success: bool, stdout: String, stderr: &str) -> (r: Outcome)
    ensures
        match r {
            Ok(out) => success && out@ == stdout@,
            Err(m) => !success && m@ == failure(
                "remote script failed: "@,
                last_of(lines_of(trimmed(stderr@))),
            ),
        },
{
    if success {
        Ok(stdout)
    } else {
        let ls: Vec<&str> = lines(trim(stderr));
        assert(ls.deep_view().len() == ls@.len());
        let mut m: String = "remote script failed: ".to_owned();
        if ls.len() > 0 {
            assert(ls.deep_view().last() == ls@[ls@.len() - 1]@);
            m.append(ls[ls.len() - 1]);
        } else {
            m.append("(no stderr)");
        }
        Err(m)
    }
}

/// What came of a script whose output went to the terminal, from how `ssh` ended.
pub fn streamed_outcome(success: bool, status: &str) -> (r: Result<(), String>)
    ensures
        match r {
            Ok(_) => success,
            Err(m) => !success && m@ == "template build failed (ssh exit "@ + status@ + ")"@,
        },
{
    if success {
        Ok(())
    } else {
        let mut m: String = "template build failed (ssh exit ".to_owned();
        m.append(status);
        m.append(")");
        Err(m)
    }
}

// ---------------------------------------------------------------------------------------------
// Reading answers.
/// The number behind the first `VM_ID=` that has one.
pub open spec fn vm_id_in(ls: Seq<Seq<char>>) -> Option<int>
    decreases ls.len(),
{
    if ls.len() == 0 {
        None
    } else {
        match vm_id_in(ls.drop_last()) {
            Some(n) => Some(n),
            None => match after_prefix(ls.last(), "VM_ID="@) {
                Some(v) => read_uint(trimmed(v), u32::MAX as int),
                None => None,
            },
        }
    }
}

/// Finds the `VM_ID=<n>` line in what the create script wrote.
pub fn parse_vm_id(output: &str) -> (r: Option<u32>)
    ensures
        match r {
            Some(n) => vm_id_in(lines_of(output@)) == Some(n as int),
            None => vm_id_in(lines_of(output@)) is None,
        },
{
    let ls: Vec<&str> = lines(output);
    let ghost all = ls.deep_view();
    let mut found: Option<u32> = None;
    let mut i: usize = 0;
    assert(all.take(0) =~= Seq::<Seq<char>>::empty());
    while i < ls.len()
        invariant
            i <= ls@.len(),
            all == ls.deep_view(),
            match found {
                Some(n) => vm_id_in(all.take(i as int)) == Some(n as int),
                None => vm_id_in(all.take(i as int)) is None,
            },
        decreases ls@.len() - i,
    {
        assert(all.take(i + 1).drop_last() =~= all.take(i as int));
        assert(all.take(i + 1).last() == ls@[i as int]@);
        if found.is_none() {
            if let Some(v) = strip_prefix(ls[i], "VM_ID=") {
                found = parse_u32(trim(v));
            }
        }
        i = i + 1;
    }
    assert(all.take(i as int) =~= all);
    found
}

/// What stands behind the first line that starts with `key`.
pub open spec fn field_in(ls: Seq<Seq<char>>, key: Seq<char>) -> Option<Seq<char>>
    decreases ls.len(),
{
    if ls.len() == 0 {
        None
    } else {
        match field_in(ls.drop_last(), key) {
            Some(v) => Some(v),
            None => after_prefix(ls.last(), key),
        }
    }
}

/// The text of a field, without white space around it; empty where there is no such field.
pub open spec fn field_text(text: Seq<char>, key: Seq<char>) -> Seq<char> {
    trimmed(text_or_empty(field_in(lines_of(text), key)))
}

fn field(text: &str, key: &str) -> (r: String)
    ensures
        r@ == field_text(text@, key@),
{
    let ls: Vec<&str> = lines(text);
    let ghost all = ls.deep_view();
    let mut i: usize = 0;
    let mut found: Option<&str> = None;
    assert(all.take(0) =~= Seq::<Seq<char>>::empty());
    while i < ls.len()
        invariant
            i <= ls@.len(),
            all == ls.deep_view(),
            opt_view(found) == field_in(all.take(i as int), key@),
        decreases ls@.len() - i,
    {
        assert(all.take(i + 1).drop_last() =~= all.take(i as int));
        assert(all.take(i + 1).last() == ls@[i as int]@);
        if found.is_none() {
            found = strip_prefix(ls[i], key);
        }
        i = i + 1;
    }
    assert(all.take(i as int) =~= all);
    match found {
        Some(v) => trim(v).to_owned(),
        None => {
            assert(trimmed(Seq::<char>::empty()) =~= Seq::<char>::empty());
            String::new()
        },
    }
}

/// The node's identity and tools, from the answer to `node_info`.
pub open spec fn node_info_in(out: Seq<char>) -> NodeInfoView {
    NodeInfoView {
        hostname: field_text(out, "HOST="@),
        pve_version: field_text(out, "PVE="@),
        virt_customize: non_empty(field_text(out, "VC="@)),
    }
}

/// Reads the `HOST=`, `PVE=` and `VC=` lines. An empty `VC=` means that `virt-customize` is
/// missing.
pub fn parse_node_info(out: &str) -> (r: NodeInfo)
    ensures
        r@ == node_info_in(out@),
{
    NodeInfo {
        hostname: field(out, "HOST="),
        pve_version: field(out, "PVE="),
        virt_customize: some_if_not_empty(field(out, "VC=")),
    }
}

/// The first word of each line that has one.
pub open spec fn first_words(ls: Seq<Seq<char>>) -> Seq<Seq<char>>
    decreases ls.len(),
{
    if ls.len() == 0 {
        Seq::empty()
    } else {
        match first_word_of(ls.last()) {
            Some(w) => first_words(ls.drop_last()).push(w),
            None => first_words(ls.drop_last()),
        }
    }
}

/// The lines after the first.
pub open spec fn after_header(ls: Seq<Seq<char>>) -> Seq<Seq<char>> {
    if ls.len() == 0 {
        ls
    } else {
        ls.skip(1)
    }
}

fn first_column(ls: &Vec<&str>, from: usize) -> (r: Vec<String>)
    requires
        from <= ls@.len(),
    ensures
        r.deep_view() == first_words(ls.deep_view().skip(from as int)),
{
    let ghost all = ls.deep_view().skip(from as int);
    let mut out: Vec<String> = Vec::new();
    let mut i: usize = from;
    assert(all.take(0) =~= Seq::<Seq<char>>::empty());
    assert(out.deep_view() =~= Seq::<Seq<char>>::empty());
    while i < ls.len()
        invariant
            from <= i <= ls@.len(),
            all == ls.deep_view().skip(from as int),
            out.deep_view() == first_words(all.take(i - from)),
        decreases ls@.len() - i,
    {
        assert(all.take(i - from + 1).drop_last() =~= all.take(i - from));
        assert(all.take(i - from + 1).last() == ls@[i as int]@);
        let ghost before = out.deep_view();
        if let Some(w) = first_word(ls[i]) {
            out.push(w);
            assert(out.deep_view() =~= before.push(w@));
        }
        i = i + 1;
    }
    assert(all.take(i - from) =~= all);
    out
}

/// The first column of every line after the header row.
pub fn first_column_after_header(text: &str) -> (r: Vec<String>)
    ensures
        r.deep_view() == first_words(after_header(lines_of(text@))),
{
    let ls: Vec<&str> = lines(text);
    assert(ls.deep_view().len() == ls@.len());
    if ls.len() == 0 {
        assert(ls.deep_view().skip(0) =~= ls.deep_view());
        first_column(&ls, 0)
    } else {
        first_column(&ls, 1)
    }
}

// ---------------------------------------------------------------------------------------------
// What the scripts are given.
/// The packages of the template: the one that is always installed, and the extra ones.
pub open spec fn package_list(extra: Seq<char>) -> Seq<char> {
    let parts = words_of(extra, true);
    if parts.len() == 0 {
        "qemu-guest-agent"@
    } else {
        "qemu-guest-agent"@ + ","@ + joined(parts, ","@)
    }
}

/// The packages of the template, with commas between them: the one that is always installed,
/// and the extra ones, which commas or white space separate.
pub fn template_package_list(extra: &str) -> (r: String)
    ensures
        r@ == package_list(extra@),
{
    let parts: Vec<String> = words(extra, true);
    assert(parts.deep_view().len() == parts@.len());
    let mut out: String = "qemu-guest-agent".to_owned();
    if parts.len() > 0 {
        out.append(",");
        out.append(join(&parts, ",").as_str());
    }
    out
}

/// The arguments of the create script, in order.
pub open spec fn create_arguments(
    s: CreateSpecView,
    c: ConfigView,
    key_b64: Seq<char>,
    authkey_b64: Seq<char>,
) -> Seq<Seq<char>> {
    seq![
        decimal(c.template_id as nat),
        match s.vmid {
            Some(n) => decimal(n as nat),
            None => Seq::empty(),
        },
        s.name,
        decimal(s.cores as nat),
        decimal(s.memory as nat),
        decimal(s.disk as nat),
        s.ip,
        text_or_empty(s.gateway),
        text_or_empty(s.nameserver),
        s.ci_user,
        flag(s.full_clone),
        flag(s.start),
        text_or_empty(s.tags),
        key_b64,
        flag(s.tailscale),
        authkey_b64,
        text_or_empty(c.tailnet_domain),
    ]
}

/// The positional arguments of the create script, in order.
pub fn create_args(spec_: &CreateSpec, cfg: &Config, key_b64: &str, authkey_b64: &str) -> (r: Vec<
    String,
>)
    ensures
        r.deep_view() == create_arguments(spec_@, cfg@, key_b64@, authkey_b64@),
        r@.len() == 17,
        r@[0]@ == decimal(cfg.template_id as nat),
        r@[1]@ == (match spec_.vmid {
            Some(n) => decimal(n as nat),
            None => Seq::<char>::empty(),
        }),
        r@[2]@ == spec_.name@,
        r@[3]@ == decimal(spec_.cores as nat),
        r@[4]@ == decimal(spec_.memory as nat),
        r@[5]@ == decimal(spec_.disk as nat),
        r@[6]@ == spec_.ip@,
        r@[7]@ == (match spec_.gateway {
            Some(t) => t@,
            None => Seq::<char>::empty(),
        }),
        r@[8]@ == (match spec_.nameserver {
            Some(t) => t@,
            None => Seq::<char>::empty(),
        }),
        r@[9]@ == spec_.ci_user@,
        r@[10]@ == (if spec_.full_clone {
            "1"@
        } else {
            "0"@
        }),
        r@[11]@ == (if spec_.start {
            "1"@
        } else {
            "0"@
        }),
        r@[12]@ == (match spec_.tags {
            Some(t) => t@,
            None => Seq::<char>::empty(),
        }),
        r@[13]@ == key_b64@,
        r@[14]@ == (if spec_.tailscale {
            "1"@
        } else {
            "0"@
        }),
        r@[15]@ == authkey_b64@,
        r@[16]@ == (match cfg.tailnet_domain {
            Some(t) => t@,
            None => Seq::<char>::empty(),
        }),
{
    let out: Vec<String> = vec![
        uint_text(cfg.template_id as u64),
        match spec_.vmid {
            Some(n) => uint_text(n as u64),
            None => String::new(),
        },
        spec_.name.clone(),
        uint_text(spec_.cores as u64),
        uint_text(spec_.memory as u64),
        uint_text(spec_.disk as u64),
        spec_.ip.clone(),
        string_or_empty(&spec_.gateway),
        string_or_empty(&spec_.nameserver),
        spec_.ci_user.clone(),
        flag_text(spec_.full_clone),
        flag_text(spec_.start),
        string_or_empty(&spec_.tags),
        key_b64.to_owned(),
        flag_text(spec_.tailscale),
        authkey_b64.to_owned(),
        string_or_empty(&cfg.tailnet_domain),
    ];
    assert(out.deep_view() =~= create_arguments(spec_@, cfg@, key_b64@, authkey_b64@));
    out
}

/// The arguments of the template script, in order.
pub open spec fn template_arguments(c: ConfigView) -> Seq<Seq<char>> {
    seq![
        decimal(c.template_id as nat),
        c.template_name,
        c.image_url,
        c.storage,
        c.bridge,
        c.cpu_type,
        c.ci_user,
        package_list(c.template_packages),
        "https://tailscale.com/install.sh"@,
    ]
}

/// The request that creates a VM; `None` where it is to join a tailnet and there is no key for
/// that. The public key travels as it is, the auth key with a line feed behind it.
pub open spec fn create_request(s: CreateSpecView, c: ConfigView) -> Option<RequestView> {
    if s.tailscale && c.tailscale_authkey is None {
        None
    } else {
        Some(
            RequestView {
                remote: bash_command(
                    create_arguments(
                        s,
                        c,
                        base64(encode_utf8(s.ssh_pubkey)),
                        if s.tailscale {
                            base64(encode_utf8((c.tailscale_authkey->0).push('\n')))
                        } else {
                            Seq::empty()
                        },
                    ),
                ),
                script: Some(Script::Create),
            },
        )
    }
}

// ---------------------------------------------------------------------------------------------
// The node.
/// A node, by the settings that say how to reach it.
pub struct Node {
    pub cfg: Config,
}

/// The arguments that `ssh` is given before the command.
pub open spec fn ssh_arguments(c: ConfigView, identity_is_file: bool) -> Seq<Seq<char>> {
    seq![
        "-p"@,
        decimal(c.port as nat),
        "-o"@,
        "BatchMode=yes"@,
        "-o"@,
        "ConnectTimeout=8"@,
        "-o"@,
        "StrictHostKeyChecking=accept-new"@,
    ] + (if c.identity_file is Some && identity_is_file {
        seq!["-i"@, c.identity_file->0, "-o"@, "IdentitiesOnly=yes"@]
    } else {
        Seq::<Seq<char>>::empty()
    }) + seq![c.user + "@"@ + c.host]
}

pub open spec fn start_command(vmid: u32) -> Seq<char> {
    "qm start "@ + decimal(vmid as nat)
}

/// A graceful shutdown, and a hard stop where that fails.
pub open spec fn stop_command(vmid: u32) -> Seq<char> {
    "qm shutdown "@ + decimal(vmid as nat) + " --timeout 60 || qm stop "@ + decimal(vmid as nat)
}

/// A stop that may fail, and then the removal from all configurations.
pub open spec fn destroy_command(vmid: u32) -> Seq<char> {
    "qm stop "@ + decimal(vmid as nat) + " >/dev/null 2>&1 || true; qm destroy "@ + decimal(
        vmid as nat,
    ) + " --purge 1"@
}

pub open spec fn guest_ips_command(vmid: u32) -> Seq<char> {
    "qm guest cmd "@ + decimal(vmid as nat) + " network-get-interfaces"@
}

pub open spec fn vms_command() -> Seq<char> {
    "pvesh get /cluster/resources --type vm --output-format json"@
}

pub open spec fn node_info_command() -> Seq<char> {
    "echo \"HOST=$(hostname)\"; echo \"PVE=$(pveversion 2>/dev/null | head -1)\"; if command -v virt-customize >/dev/null 2>&1; then echo \"VC=$(virt-customize --version 2>/dev/null | head -1)\"; else echo \"VC=\"; fi"@
}

/// The next free id in the answer to `next_id`: a number, with or without quotes around it.
pub open spec fn next_id_text(out: Seq<char>) -> Seq<char> {
    trimmed_end_of(trimmed_start_of(trimmed(out), '"'), '"')
}

/// A text as `std` writes it with its debug format: between double quotes, with escapes.
pub uninterp spec fn debug_text(s: Seq<char>) -> Seq<char>;

/// The text that the `Debug` implementation of `str` in `std` writes: a function of the
/// characters alone. Which of them it escapes, and how, is left unsaid.
#[verifier::external_body]
fn debug_format(s: &str) -> (r: String)
    ensures
        r@ == debug_text(s@),
{
    format!("{:?}", s)
}

/// An operation without an answer: the command to run, and then whether it succeeded.
pub open spec fn is_command_step(
    command: Seq<char>,
    outcome: Option<Outcome>,
    r: Step<()>,
) -> bool {
    match (outcome, r) {
        (None, Step::Run(q)) => q@ == plain(command),
        (Some(Ok(_)), Step::Done(Ok(_))) => true,
        (Some(Err(e)), Step::Done(Err(m))) => m@ == e@,
        _ => false,
    }
}

fn command_step(command: String, outcome: Option<Outcome>) -> (r: Step<()>)
    ensures
        is_command_step(command@, outcome, r),
{
    match outcome {
        None => Step::Run(plain_request(command)),
        Some(Ok(_)) => Step::Done(Ok(())),
        Some(Err(e)) => Step::Done(Err(e)),
    }
}

/// How long to wait before a new VM is asked for its addresses again, in seconds.
pub const POLL: u64 = 3;

/// Whether the wait for a new VM's addresses is over, and with which addresses.
pub enum Wait {
    /// Ask again after so many seconds.
    Again(u64),
    Over(GuestIps),
}

/// The addresses of an answer; none where there was no answer.
pub open spec fn answered_ips(answer: Result<GuestIps, String>) -> GuestIpsView {
    match answer {
        Ok(ips) => ips@,
        Err(_) => GuestIpsView { lan: None, tailscale: None },
    }
}

/// What is written for a new VM that joined a tailnet: its name there, and the new text of the
/// SSH configuration.
pub struct VmSshEntry {
    pub alias: String,
    pub text: String,
}

impl Node {
    /// The node that the settings lead to.
    pub fn new(cfg: Config) -> (r: Node)
        ensures
            r.cfg == cfg,
    {
        Node { cfg }
    }

    /// The host of the node.
    pub fn host(&self) -> (r: &str)
        ensures
            r@ == self.cfg@.host,
    {
        self.cfg.host.as_str()
    }

    /// The arguments that `ssh` is given before the command. The identity file is named only
    /// where it is a file.
    pub fn ssh_args(&self, identity_is_file: bool) -> (r: Vec<String>)
        ensures
            r.deep_view() == ssh_arguments(self.cfg@, identity_is_file),
    {
        let mut args: Vec<String> = vec![
            "-p".to_owned(),
            uint_text(self.cfg.port as u64),
            "-o".to_owned(),
            "BatchMode=yes".to_owned(),
            "-o".to_owned(),
            "ConnectTimeout=8".to_owned(),
            "-o".to_owned(),
            "StrictHostKeyChecking=accept-new".to_owned(),
        ];
        if let Some(id) = &self.cfg.identity_file {
            if identity_is_file {
                args.push("-i".to_owned());
                args.push(id.clone());
                args.push("-o".to_owned());
                args.push("IdentitiesOnly=yes".to_owned());
            }
        }
        let mut target: String = self.cfg.user.clone();
        target.append("@");
        target.append(self.cfg.host.as_str());
        args.push(target);
        assert(args.deep_view() =~= ssh_arguments(self.cfg@, identity_is_file));
        args
    }

    /// The arguments with which `ssh` runs a command on the node.
    pub fn run(&self, remote: &str, identity_is_file: bool) -> (r: Vec<String>)
        ensures
            r.deep_view() == ssh_arguments(self.cfg@, identity_is_file).push(remote@),
    {
        let mut args: Vec<String> = self.ssh_args(identity_is_file);
        let ghost before = args.deep_view();
        args.push(remote.to_owned());
        assert(args.deep_view() =~= before.push(remote@));
        args
    }

    /// Fetches all VMs and templates: what to run, and then the list, from the decoded rows.
    pub fn vms(&self, rows: Option<Result<Vec<Resource>, String>>) -> (r: Step<Vec<Vm>>)
        ensures
            match (rows, r) {
                (None, Step::Run(q)) => q@ == plain(vms_command()),
                (Some(Ok(rows)), Step::Done(Ok(vms))) => is_sorted_from(
                    vm_views(vms@),
                    qemu_vms(rows@),
                ),
                (Some(Err(e)), Step::Done(Err(m))) => m@ == e@,
                _ => false,
            },
            rows is None ==> (r matches Step::Run(q) && q.script is None && q.remote@
                == "pvesh get /cluster/resources --type vm --output-format json"@),
    {
        match rows {
            None => Step::Run(
                plain_request(
                    "pvesh get /cluster/resources --type vm --output-format json".to_owned(),
                ),
            ),
            Some(Ok(rows)) => Step::Done(Ok(vms_from(rows))),
            Some(Err(e)) => Step::Done(Err(e)),
        }
    }

    /// Asks the guest agent of a VM for its addresses: what to run, and then the addresses, from
    /// the decoded answer.
    pub fn guest_ips(
        &self,
        vmid: u32,
        answer: Option<Result<Vec<GuestIface>, String>>,
    ) -> (r: Step<GuestIps>)
        ensures
            match (answer, r) {
                (None, Step::Run(q)) => q@ == plain(guest_ips_command(vmid)),
                (Some(Ok(ifaces)), Step::Done(Ok(ips))) => ips@ == guest_ips_of(
                    all_addresses(ifaces@),
                ),
                (Some(Err(e)), Step::Done(Err(m))) => m@ == e@,
                _ => false,
            },
    {
        match answer {
            None => {
                let mut c: String = "qm guest cmd ".to_owned();
                c.append(uint_text(vmid as u64).as_str());
                c.append(" network-get-interfaces");
                Step::Run(plain_request(c))
            },
            Some(Ok(ifaces)) => Step::Done(Ok(GuestIps::from_interfaces_json(&ifaces))),
            Some(Err(e)) => Step::Done(Err(e)),
        }
    }

    /// Starts a VM.
    pub fn start_vm(&self, vmid: u32, outcome: Option<Outcome>) -> (r: Step<()>)
        ensures
            is_command_step(start_command(vmid), outcome, r),
            outcome is None ==> (r matches Step::Run(q) && q.script is None && q.remote@
                == "qm start "@ + decimal(vmid as nat)),
            outcome matches Some(Ok(_)) ==> r matches Step::Done(Ok(_)),
            outcome matches Some(Err(e)) ==> (r matches Step::Done(Err(m)) && m@ == e@),
    {
        let mut c: String = "qm start ".to_owned();
        c.append(uint_text(vmid as u64).as_str());
        command_step(c, outcome)
    }

    /// Shuts a VM down gracefully, for up to a minute, and stops it where that fails.
    pub fn stop_vm(&self, vmid: u32, outcome: Option<Outcome>) -> (r: Step<()>)
        ensures
            is_command_step(stop_command(vmid), outcome, r),
            outcome is None ==> (r matches Step::Run(q) && q.script is None && q.remote@
                == "qm shutdown "@ + decimal(vmid as nat) + " --timeout 60 || qm stop "@ + decimal(
                vmid as nat,
            )),
            outcome matches Some(Ok(_)) ==> r matches Step::Done(Ok(_)),
            outcome matches Some(Err(e)) ==> (r matches Step::Done(Err(m)) && m@ == e@),
    {
        let mut c: String = "qm shutdown ".to_owned();
        c.append(uint_text(vmid as u64).as_str());
        c.append(" --timeout 60 || qm stop ");
        c.append(uint_text(vmid as u64).as_str());
        command_step(c, outcome)
    }

    /// Stops a VM, as far as that is possible, then deletes it and purges it from all
    /// configurations.
    pub fn destroy_vm(&self, vmid: u32, outcome: Option<Outcome>) -> (r: Step<()>)
        ensures
            is_command_step(destroy_command(vmid), outcome, r),
            outcome is None ==> (r matches Step::Run(q) && q.script is None && q.remote@
                == "qm stop "@ + decimal(vmid as nat) + " >/dev/null 2>&1 || true; qm destroy "@
                + decimal(vmid as nat) + " --purge 1"@),
            outcome matches Some(Ok(_)) ==> r matches Step::Done(Ok(_)),
            outcome matches Some(Err(e)) ==> (r matches Step::Done(Err(m)) && m@ == e@),
    {
        let mut c: String = "qm stop ".to_owned();
        c.append(uint_text(vmid as u64).as_str());
        c.append(" >/dev/null 2>&1 || true; qm destroy ");
        c.append(uint_text(vmid as u64).as_str());
        c.append(" --purge 1");
        command_step(c, outcome)
    }

    /// The node's identity and tools, gathered with one command.
    pub fn node_info(&self, outcome: Option<Outcome>) -> (r: Step<NodeInfo>)
        ensures
            match (outcome, r) {
                (None, Step::Run(q)) => q@ == plain(node_info_command()),
                (Some(Ok(out)), Step::Done(Ok(info))) => info@ == node_info_in(out@),
                (Some(Err(e)), Step::Done(Err(m))) => m@ == e@,
                _ => false,
            },
            outcome is None ==> (r matches Step::Run(q) && q.script is None && q.remote@
                == "echo \"HOST=$(hostname)\"; echo \"PVE=$(pveversion 2>/dev/null | head -1)\"; if command -v virt-customize >/dev/null 2>&1; then echo \"VC=$(virt-customize --version 2>/dev/null | head -1)\"; else echo \"VC=\"; fi"@),
    {
        match outcome {
            None => Step::Run(
                plain_request(
                    "echo \"HOST=$(hostname)\"; echo \"PVE=$(pveversion 2>/dev/null | head -1)\"; if command -v virt-customize >/dev/null 2>&1; then echo \"VC=$(virt-customize --version 2>/dev/null | head -1)\"; else echo \"VC=\"; fi".to_owned(),
                ),
            ),
            Some(Ok(out)) => Step::Done(Ok(parse_node_info(out.as_str()))),
            Some(Err(e)) => Step::Done(Err(e)),
        }
    }

    /// The next free VM id that the cluster would assign.
    pub fn next_id(&self, outcome: Option<Outcome>) -> (r: Step<u32>)
        ensures
            match (outcome, r) {
                (None, Step::Run(q)) => q@ == plain("pvesh get /cluster/nextid"@),
                (Some(Ok(out)), Step::Done(Ok(id))) => read_uint(
                    next_id_text(out@),
                    u32::MAX as int,
                ) == Some(id as int),
                (Some(Ok(out)), Step::Done(Err(m))) => read_uint(
                    next_id_text(out@),
                    u32::MAX as int,
                ) is None && m@ == "parsing next id from "@ + debug_text(next_id_text(out@)),
                (Some(Err(e)), Step::Done(Err(m))) => m@ == e@,
                _ => false,
            },
    {
        match outcome {
            None => Step::Run(plain_request("pvesh get /cluster/nextid".to_owned())),
            Some(Ok(out)) => {
                let t: &str = trim_end_of(trim_start_of(trim(out.as_str()), '"'), '"');
                match parse_u32(t) {
                    Some(n) => Step::Done(Ok(n)),
                    None => {
                        let mut m: String = "parsing next id from ".to_owned();
                        m.append(debug_format(t).as_str());
                        Step::Done(Err(m))
                    },
                }
            },
            Some(Err(e)) => Step::Done(Err(e)),
        }
    }

    /// The names of the node's storages.
    pub fn storages(&self, outcome: Option<Outcome>) -> (r: Step<Vec<String>>)
        ensures
            match (outcome, r) {
                (None, Step::Run(q)) => q@ == plain("pvesm status"@),
                (Some(Ok(out)), Step::Done(Ok(names))) => names.deep_view() == first_words(
                    after_header(lines_of(out@)),
                ),
                (Some(Err(e)), Step::Done(Err(m))) => m@ == e@,
                _ => false,
            },
    {
        match outcome {
            None => Step::Run(plain_request("pvesm status".to_owned())),
            Some(Ok(out)) => Step::Done(Ok(first_column_after_header(out.as_str()))),
            Some(Err(e)) => Step::Done(Err(e)),
        }
    }

    /// The names of the node's bridges.
    pub fn bridges(&self, outcome: Option<Outcome>) -> (r: Step<Vec<String>>)
        ensures
            match (outcome, r) {
                (None, Step::Run(q)) => q@ == plain("ip -brief link show type bridge"@),
                (Some(Ok(out)), Step::Done(Ok(names))) => names.deep_view() == first_words(
                    lines_of(out@),
                ),
                (Some(Err(e)), Step::Done(Err(m))) => m@ == e@,
                _ => false,
            },
    {
        match outcome {
            None => Step::Run(plain_request("ip -brief link show type bridge".to_owned())),
            Some(Ok(out)) => {
                let ls: Vec<&str> = lines(out.as_str());
                assert(ls.deep_view().skip(0) =~= ls.deep_view());
                Step::Done(Ok(first_column(&ls, 0)))
            },
            Some(Err(e)) => Step::Done(Err(e)),
        }
    }

    /// Clones and configures a new VM: the script to run, and then the id of the VM.
    pub fn create(&self, spec_: &CreateSpec, outcome: Option<Outcome>) -> (r: Step<u32>)
        ensures
            match (outcome, r) {
                (None, Step::Run(q)) => create_request(spec_@, self.cfg@) == Some(q@),
                (None, Step::Done(Err(m))) => create_request(spec_@, self.cfg@) is None && m@
                    == "Tailscale requested but PVE_TAILSCALE_AUTHKEY is not set in the config"@,
                (Some(Ok(out)), Step::Done(Ok(id))) => vm_id_in(lines_of(out@)) == Some(
                    id as int,
                ),
                (Some(Ok(out)), Step::Done(Err(m))) => vm_id_in(lines_of(out@)) is None && m@
                    == "create finished but returned no VM_ID:\n"@ + out@,
                (Some(Err(e)), Step::Done(Err(m))) => m@ == e@,
                _ => false,
            },
    {
        match outcome {
            None => {
                let key: String = base64_encode(spec_.ssh_pubkey.as_str().as_bytes());
                let authkey: String = if spec_.tailscale {
                    match &self.cfg.tailscale_authkey {
                        Some(k) => {
                            let mut t: String = k.clone();
                            t.push('\n');
                            base64_encode(t.as_str().as_bytes())
                        },
                        None => {
                            return Step::Done(
                                Err(
                                    "Tailscale requested but PVE_TAILSCALE_AUTHKEY is not set in the config".to_owned(),
                                ),
                            );
                        },
                    }
                } else {
                    String::new()
                };
                let args: Vec<String> = create_args(
                    spec_,
                    &self.cfg,
                    key.as_str(),
                    authkey.as_str(),
                );
                Step::Run(
                    Request { remote: bash_command_text(&args), script: Some(Script::Create) },
                )
            },
            Some(Ok(out)) => match parse_vm_id(out.as_str()) {
                Some(id) => Step::Done(Ok(id)),
                None => {
                    let mut m: String = "create finished but returned no VM_ID:\n".to_owned();
                    m.append(out.as_str());
                    Step::Done(Err(m))
                },
            },
            Some(Err(e)) => Step::Done(Err(e)),
        }
    }

    /// Builds the base template on the node: the script to run.
    pub fn create_template(&self) -> (r: Request)
        ensures
            r@ == (RequestView {
                remote: bash_command(template_arguments(self.cfg@)),
                script: Some(Script::Template),
            }),
    {
        let args: Vec<String> = vec![
            uint_text(self.cfg.template_id as u64),
            self.cfg.template_name.clone(),
            self.cfg.image_url.clone(),
            self.cfg.storage.clone(),
            self.cfg.bridge.clone(),
            self.cfg.cpu_type.clone(),
            self.cfg.ci_user.clone(),
            template_package_list(self.cfg.template_packages.as_str()),
            "https://tailscale.com/install.sh".to_owned(),
        ];
        assert(args.deep_view() =~= template_arguments(self.cfg@));
        Request { remote: bash_command_text(&args), script: Some(Script::Template) }
    }

    /// What to write into the SSH configuration for a new VM that joined a tailnet. Nothing,
    /// unless a tailnet domain, an identity file and the configuration's path are all known.
    pub fn write_vm_ssh_config(&self, name: &str, path_known: bool, existing: &str) -> (r: Option<
        VmSshEntry,
    >)
        ensures
            match r {
                Some(e) => {
                    let alias = name@ + "."@ + self.cfg@.tailnet_domain->0;
                    &&& self.cfg@.tailnet_domain is Some
                    &&& self.cfg@.identity_file is Some
                    &&& path_known
                    &&& e.alias@ == alias
                    &&& e.text@ == upserted(
                        existing@,
                        name@,
                        alias,
                        self.cfg@.ci_user,
                        self.cfg@.identity_file->0,
                    )
                },
                None => self.cfg@.tailnet_domain is None || self.cfg@.identity_file is None
                    || !path_known,
            },
    {
        match (&self.cfg.tailnet_domain, &self.cfg.identity_file) {
            (Some(domain), Some(identity)) => {
                if !path_known {
                    return None;
                }
                let mut alias: String = name.to_owned();
                alias.append(".");
                alias.append(domain.as_str());
                let text: String = upsert_vm_entry(
                    existing,
                    name,
                    alias.as_str(),
                    self.cfg.ci_user.as_str(),
                    identity.as_str(),
                );
                Some(VmSshEntry { alias, text })
            },
            _ => None,
        }
    }

    /// Whether to go on waiting for the addresses of a new VM: until it has a LAN address, and a
    /// Tailscale address where one is wanted, or until the time is up. What is known by then is
    /// the result.
    pub fn wait_for_ips(
        answer: Result<GuestIps, String>,
        want_tailscale: bool,
        time_is_up: bool,
    ) -> (r: Wait)
        ensures
            ({
                let ips = answered_ips(answer);
                let enough = ips.lan is Some && (!want_tailscale || ips.tailscale is Some);
                match r {
                    Wait::Over(i) => (enough || time_is_up) && i@ == ips,
                    Wait::Again(seconds) => !enough && !time_is_up && seconds == POLL,
                }
            }),
            answer matches Ok(i) ==> (i.lan is Some && (want_tailscale ==> i.tailscale is Some)
                ==> r == Wait::Over(i)),
            time_is_up ==> (answer matches Ok(i) ==> r == Wait::Over(i)),
            time_is_up && answer is Err ==> (r matches Wait::Over(i) && i.lan is None
                && i.tailscale is None),
            !time_is_up && answer is Err ==> r == Wait::Again(3),
    {
        let ips: GuestIps = match answer {
            Ok(i) => i,
            Err(_) => GuestIps::default(),
        };
        let have_lan: bool = ips.lan.is_some();
        let have_ts: bool = !want_tailscale || ips.tailscale.is_some();
        if (have_lan && have_ts) || time_is_up {
            Wait::Over(ips)
        } else {
            Wait::Again(POLL)
        }
    }
}

// ---------------------------------------------------------------------------------------------
// Laws.
/// The packages of the template are the one that is always installed and then the extra ones, as
/// they were given, whatever separates them.
pub proof fn the_package_list_holds_the_packages(extra: Seq<char>)
    ensures
        words_of(package_list(extra), true) == seq!["qemu-guest-agent"@] + words_of(extra, true),
{
    let floor = "qemu-guest-agent"@;
    let parts = words_of(extra, true);
    let all = seq![floor] + parts;
    assert(is_word(floor, true)) by {
        reveal_strlit("qemu-guest-agent");
        reveal_with_fuel(separator_free, 17);
        lemma_separator_free(floor, floor.len());
    }
    lemma_words_are_words(extra, true, 0);
    assert forall|i: int| 0 <= i < all.len() implies is_word(#[trigger] all[i], true) by {
        if i > 0 {
            assert(all[i] == parts[i - 1]);
        }
    }
    joined_words_split_again(all);
    if parts.len() == 0 {
        assert(all =~= seq![floor]);
    } else {
        lemma_joined_first(floor, parts, ","@);
    }
}

/// The create script finds each part of the VM at its position: the template, the VM's id, its
/// name, cores, memory, disk, address, gateway, nameserver, user, whether it is a full clone,
/// whether it is started, its tags, the public key, whether it joins a tailnet, the auth key and
/// the tailnet's domain. What is missing is empty.
pub proof fn the_create_script_reads_the_vm_back(
    s: CreateSpecView,
    c: ConfigView,
    key_b64: Seq<char>,
    authkey_b64: Seq<char>,
)
    ensures
        ({
            let a = create_arguments(s, c, key_b64, authkey_b64);
            &&& a.len() == 17
            &&& read_uint(a[0], u32::MAX as int) == Some(c.template_id as int)
            &&& s.vmid matches Some(n) ==> read_uint(a[1], u32::MAX as int) == Some(n as int)
            &&& s.vmid is None ==> a[1].len() == 0
            &&& a[2] == s.name
            &&& read_uint(a[3], u32::MAX as int) == Some(s.cores as int)
            &&& read_uint(a[4], u32::MAX as int) == Some(s.memory as int)
            &&& read_uint(a[5], u32::MAX as int) == Some(s.disk as int)
            &&& a[6] == s.ip
            &&& s.gateway matches Some(t) ==> a[7] == t
            &&& s.gateway is None ==> a[7].len() == 0
            &&& s.nameserver matches Some(t) ==> a[8] == t
            &&& s.nameserver is None ==> a[8].len() == 0
            &&& a[9] == s.ci_user
            &&& a[10] == (if s.full_clone { "1"@ } else { "0"@ })
            &&& a[11] == (if s.start { "1"@ } else { "0"@ })
            &&& s.tags matches Some(t) ==> a[12] == t
            &&& s.tags is None ==> a[12].len() == 0
            &&& a[13] == key_b64
            &&& a[14] == (if s.tailscale { "1"@ } else { "0"@ })
            &&& a[15] == authkey_b64
            &&& c.tailnet_domain matches Some(t) ==> a[16] == t
            &&& c.tailnet_domain is None ==> a[16].len() == 0
        }),
{
    numbers_read_back(c.template_id as nat, u32::MAX as int);
    numbers_read_back(s.cores as nat, u32::MAX as int);
    numbers_read_back(s.memory as nat, u32::MAX as int);
    numbers_read_back(s.disk as nat, u32::MAX as int);
    if let Some(n) = s.vmid {
        numbers_read_back(n as nat, u32::MAX as int);
    }
}

/// What the node is asked to run for a new VM is the create script, and its shell hands the
/// script the VM, part by part: behind `bash -s --` stand the seventeen arguments, the public
/// key and the auth key decode to the keys, and no auth key travels to a VM that stays outside
/// the tailnet. Only a VM that is to join a tailnet without a key is refused.
pub proof fn a_creation_hands_over_the_vm(s: CreateSpecView, c: ConfigView)
    ensures
        create_request(s, c) is None <==> s.tailscale && c.tailscale_authkey is None,
        create_request(s, c) matches Some(q) ==> {
            &&& q.script == Some(Script::Create)
            &&& shell_words(q.remote) is Some
            &&& ({
                let w = shell_words(q.remote)->0;
                &&& w.len() == 20
                &&& w[0] == "bash"@ && w[1] == "-s"@ && w[2] == "--"@
                &&& read_uint(w[3], u32::MAX as int) == Some(c.template_id as int)
                &&& s.vmid matches Some(n) ==> read_uint(w[4], u32::MAX as int) == Some(n as int)
                &&& s.vmid is None ==> w[4].len() == 0
                &&& w[5] == s.name
                &&& read_uint(w[6], u32::MAX as int) == Some(s.cores as int)
                &&& read_uint(w[7], u32::MAX as int) == Some(s.memory as int)
                &&& read_uint(w[8], u32::MAX as int) == Some(s.disk as int)
                &&& w[9] == s.ip
                &&& s.gateway matches Some(t) ==> w[10] == t
                &&& s.gateway is None ==> w[10].len() == 0
                &&& s.nameserver matches Some(t) ==> w[11] == t
                &&& s.nameserver is None ==> w[11].len() == 0
                &&& w[12] == s.ci_user
                &&& w[13] == (if s.full_clone { "1"@ } else { "0"@ })
                &&& w[14] == (if s.start { "1"@ } else { "0"@ })
                &&& s.tags matches Some(t) ==> w[15] == t
                &&& s.tags is None ==> w[15].len() == 0
                &&& base64_decoded(w[16]) == Some(encode_utf8(s.ssh_pubkey))
                &&& w[17] == (if s.tailscale { "1"@ } else { "0"@ })
                &&& s.tailscale ==> (c.tailscale_authkey matches Some(k) && base64_decoded(w[18])
                    == Some(encode_utf8(k.push('\n'))))
                &&& !s.tailscale ==> w[18].len() == 0
                &&& c.tailnet_domain matches Some(t) ==> w[19] == t
                &&& c.tailnet_domain is None ==> w[19].len() == 0
            })
        },
{
    if let Some(q) = create_request(s, c) {
        let key = base64(encode_utf8(s.ssh_pubkey));
        let authkey = if s.tailscale {
            base64(encode_utf8((c.tailscale_authkey->0).push('\n')))
        } else {
            Seq::empty()
        };
        let a = create_arguments(s, c, key, authkey);
        the_create_script_reads_the_vm_back(s, c, key, authkey);
        arguments_cannot_break_out(a);
        base64_round_trips(encode_utf8(s.ssh_pubkey));
        if s.tailscale {
            base64_round_trips(encode_utf8((c.tailscale_authkey->0).push('\n')));
        }
        let h = seq!["bash"@, "-s"@, "--"@];
        assert forall|i: int| 0 <= i < 17 implies (h + a)[i + 3] == #[trigger] a[i] by {}
        assert(a[0] == (h + a)[3] && a[1] == (h + a)[4] && a[2] == (h + a)[5]);
        assert(a[3] == (h + a)[6] && a[4] == (h + a)[7] && a[5] == (h + a)[8]);
        assert(a[6] == (h + a)[9] && a[7] == (h + a)[10] && a[8] == (h + a)[11]);
        assert(a[9] == (h + a)[12] && a[10] == (h + a)[13] && a[11] == (h + a)[14]);
        assert(a[12] == (h + a)[15] && a[13] == (h + a)[16] && a[14] == (h + a)[17]);
        assert(a[15] == (h + a)[18] && a[16] == (h + a)[19]);
    }
}

/// The template script is handed the settings of the template, part by part: its id, its name,
/// the image, the storage, the bridge, the CPU type, the user, the packages and where the
/// Tailscale installer is.
pub proof fn the_template_script_is_handed_the_settings(c: ConfigView)
    ensures
        shell_words(bash_command(template_arguments(c))) is Some,
        ({
            let w = shell_words(bash_command(template_arguments(c)))->0;
            &&& w.len() == 12
            &&& w[0] == "bash"@ && w[1] == "-s"@ && w[2] == "--"@
            &&& read_uint(w[3], u32::MAX as int) == Some(c.template_id as int)
            &&& w[4] == c.template_name
            &&& w[5] == c.image_url
            &&& w[6] == c.storage
            &&& w[7] == c.bridge
            &&& w[8] == c.cpu_type
            &&& w[9] == c.ci_user
            &&& words_of(w[10], true) == seq!["qemu-guest-agent"@] + words_of(
                c.template_packages,
                true,
            )
            &&& w[11] == "https://tailscale.com/install.sh"@
        }),
{
    let a = template_arguments(c);
    arguments_cannot_break_out(a);
    numbers_read_back(c.template_id as nat, u32::MAX as int);
    the_package_list_holds_the_packages(c.template_packages);
    let h = seq!["bash"@, "-s"@, "--"@];
    assert(a[0] == (h + a)[3] && a[1] == (h + a)[4] && a[2] == (h + a)[5]);
    assert(a[3] == (h + a)[6] && a[4] == (h + a)[7] && a[5] == (h + a)[8]);
    assert(a[6] == (h + a)[9] && a[7] == (h + a)[10] && a[8] == (h + a)[11]);
}

/// `ssh` is led to the settings' port, user and host, never asks the user for anything, takes the
/// key of a host that it sees for the first time, and uses the identity file, and no other key,
/// exactly where that is a file.
pub proof fn ssh_is_led_to_the_node(c: ConfigView, identity_is_file: bool)
    ensures
        ({
            let a = ssh_arguments(c, identity_is_file);
            &&& a[0] == "-p"@ && read_uint(a[1], u16::MAX as int) == Some(c.port as int)
            &&& a[2] == "-o"@ && a[3] == "BatchMode=yes"@
            &&& a[4] == "-o"@ && a[5] == "ConnectTimeout=8"@
            &&& a[6] == "-o"@ && a[7] == "StrictHostKeyChecking=accept-new"@
            &&& a.last() == c.user + "@"@ + c.host
            &&& identity_is_file && c.identity_file is Some ==> a.len() == 13 && a[8] == "-i"@
                && c.identity_file == Some(a[9]) && a[10] == "-o"@ && a[11]
                == "IdentitiesOnly=yes"@
            &&& !identity_is_file || c.identity_file is None ==> a.len() == 9
        }),
{
    numbers_read_back(c.port as nat, u16::MAX as int);
}

proof fn lemma_plain_number(n: nat)
    ensures
        is_plain_word(decimal(n)),
{
    lemma_decimal(n);
    assert forall|i: int| 0 <= i < decimal(n).len() implies is_plain(#[trigger] decimal(n)[i]) by {
        assert(is_digit(decimal(n)[i]));
    }
}

proof fn lemma_command_words()
    ensures
        is_plain_word("qm"@),
        is_plain_word("start"@),
        is_plain_word("stop"@),
        is_plain_word("shutdown"@),
        is_plain_word("destroy"@),
        is_plain_word("--timeout"@),
        is_plain_word("60"@),
        is_plain_word("--purge"@),
        is_plain_word("1"@),
        is_plain_word("guest"@),
        is_plain_word("cmd"@),
        is_plain_word("network-get-interfaces"@),
{
    reveal_strlit("qm");
    reveal_strlit("start");
    reveal_strlit("stop");
    reveal_strlit("shutdown");
    reveal_strlit("destroy");
    reveal_strlit("--timeout");
    reveal_strlit("60");
    reveal_strlit("--purge");
    reveal_strlit("1");
    reveal_strlit("guest");
    reveal_strlit("cmd");
    reveal_strlit("network-get-interfaces");
    reveal_with_fuel(plain_upto, 23);
    lemma_plain_upto("qm"@, "qm"@.len());
    lemma_plain_upto("start"@, "start"@.len());
    lemma_plain_upto("stop"@, "stop"@.len());
    lemma_plain_upto("shutdown"@, "shutdown"@.len());
    lemma_plain_upto("destroy"@, "destroy"@.len());
    lemma_plain_upto("--timeout"@, "--timeout"@.len());
    lemma_plain_upto("60"@, "60"@.len());
    lemma_plain_upto("--purge"@, "--purge"@.len());
    lemma_plain_upto("1"@, "1"@.len());
    lemma_plain_upto("guest"@, "guest"@.len());
    lemma_plain_upto("cmd"@, "cmd"@.len());
    lemma_plain_upto("network-get-interfaces"@, "network-get-interfaces"@.len());
}

/// A VM is started, and asked for its addresses, by one command with its id.
pub proof fn one_command_starts_a_vm(vmid: u32)
    ensures
        shell_words(start_command(vmid)) == Some(seq!["qm"@, "start"@, decimal(vmid as nat)]),
        shell_words(guest_ips_command(vmid)) == Some(
            seq!["qm"@, "guest"@, "cmd"@, decimal(vmid as nat), "network-get-interfaces"@],
        ),
{
    let n = decimal(vmid as nat);
    lemma_command_words();
    lemma_plain_number(vmid as nat);
    let a = seq!["qm"@, "start"@, n];
    let b = seq!["qm"@, "guest"@, "cmd"@, n, "network-get-interfaces"@];
    plain_words_stay_words(a);
    plain_words_stay_words(b);
    assert(start_command(vmid) == joined(a, " "@)) by {
        reveal_strlit("qm start ");
        reveal_strlit("qm");
        reveal_strlit("start");
        reveal_strlit(" ");
        lemma_joined3("qm"@, "start"@, n);
        assert(start_command(vmid) =~= "qm"@ + " "@ + "start"@ + " "@ + n);
    }
    assert(guest_ips_command(vmid) == joined(b, " "@)) by {
        reveal_strlit("qm guest cmd ");
        reveal_strlit(" network-get-interfaces");
        reveal_strlit("network-get-interfaces");
        reveal_strlit("qm");
        reveal_strlit("guest");
        reveal_strlit("cmd");
        reveal_strlit(" ");
        lemma_joined5("qm"@, "guest"@, "cmd"@, n, "network-get-interfaces"@);
        assert(guest_ips_command(vmid) =~= "qm"@ + " "@ + "guest"@ + " "@ + "cmd"@ + " "@ + n
            + " "@ + "network-get-interfaces"@);
    }
}

/// A VM is shut down, and stopped only where that fails; and it is stopped, as far as that is
/// possible, before it is destroyed and purged. All commands are about the same VM.
pub proof fn stopping_and_destroying_are_about_one_vm(
    vmid: u32,
    shutdown: Seq<char>,
    stop: Seq<char>,
    destroy: Seq<char>,
)
    requires
        shutdown == joined(
            seq!["qm"@, "shutdown"@, decimal(vmid as nat), "--timeout"@, "60"@],
            " "@,
        ),
        stop == joined(seq!["qm"@, "stop"@, decimal(vmid as nat)], " "@),
        destroy == joined(
            seq!["qm"@, "destroy"@, decimal(vmid as nat), "--purge"@, "1"@],
            " "@,
        ),
    ensures
        stop_command(vmid) == shutdown + " || "@ + stop,
        destroy_command(vmid) == stop + " >/dev/null 2>&1 || true; "@ + destroy,
        shell_words(shutdown) == Some(
            seq!["qm"@, "shutdown"@, decimal(vmid as nat), "--timeout"@, "60"@],
        ),
        shell_words(stop) == Some(seq!["qm"@, "stop"@, decimal(vmid as nat)]),
        shell_words(destroy) == Some(
            seq!["qm"@, "destroy"@, decimal(vmid as nat), "--purge"@, "1"@],
        ),
{
    let n = decimal(vmid as nat);
    lemma_command_words();
    lemma_plain_number(vmid as nat);
    let a = seq!["qm"@, "shutdown"@, n, "--timeout"@, "60"@];
    let b = seq!["qm"@, "stop"@, n];
    let d = seq!["qm"@, "destroy"@, n, "--purge"@, "1"@];
    plain_words_stay_words(a);
    plain_words_stay_words(b);
    plain_words_stay_words(d);
    lemma_joined5("qm"@, "shutdown"@, n, "--timeout"@, "60"@);
    lemma_joined3("qm"@, "stop"@, n);
    lemma_joined5("qm"@, "destroy"@, n, "--purge"@, "1"@);
    reveal_strlit("qm");
    reveal_strlit("stop");
    reveal_strlit(" ");
    assert(stop_command(vmid) =~= shutdown + " || "@ + stop) by {
        reveal_strlit("qm shutdown ");
        reveal_strlit(" --timeout 60 || qm stop ");
        reveal_strlit("shutdown");
        reveal_strlit("--timeout");
        reveal_strlit("60");
        reveal_strlit(" || ");
    }
    assert(destroy_command(vmid) =~= stop + " >/dev/null 2>&1 || true; "@ + destroy) by {
        reveal_strlit("qm stop ");
        reveal_strlit(" >/dev/null 2>&1 || true; qm destroy ");
        reveal_strlit(" --purge 1");
        reveal_strlit("destroy");
        reveal_strlit("--purge");
        reveal_strlit("1");
        reveal_strlit(" >/dev/null 2>&1 || true; ");
    }
}

proof fn lemma_joined3(a: Seq<char>, b: Seq<char>, c: Seq<char>)
    ensures
        joined(seq![a, b, c], " "@) == a + " "@ + b + " "@ + c,
{
    let two = seq![a, b];
    assert(seq![a, b, c].drop_last() =~= two);
    assert(two.drop_last() =~= seq![a]);
    assert(joined(seq![a], " "@) == a);
    assert(joined(two, " "@) == a + " "@ + b);
}

proof fn lemma_joined5(a: Seq<char>, b: Seq<char>, c: Seq<char>, d: Seq<char>, e: Seq<char>)
    ensures
        joined(seq![a, b, c, d, e], " "@) == a + " "@ + b + " "@ + c + " "@ + d + " "@ + e,
{
    lemma_joined3(a, b, c);
    let three = seq![a, b, c];
    let four = seq![a, b, c, d];
    assert(four.drop_last() =~= three);
    assert(seq![a, b, c, d, e].drop_last() =~= four);
    assert(joined(four, " "@) == joined(three, " "@) + " "@ + d);
}

proof fn lemma_vm_id_concat(a: Seq<Seq<char>>, b: Seq<Seq<char>>)
    ensures
        vm_id_in(a + b) == match vm_id_in(a) {
            Some(n) => Some(n),
            None => vm_id_in(b),
        },
    decreases b.len(),
{
    if b.len() == 0 {
        assert(a + b =~= a);
    } else {
        lemma_vm_id_concat(a, b.drop_last());
        assert((a + b).drop_last() =~= a + b.drop_last());
    }
}

proof fn lemma_no_vm_id(a: Seq<Seq<char>>)
    requires
        forall|i: int| 0 <= i < a.len() ==> !starts_with(#[trigger] a[i], "VM_ID="@),
    ensures
        vm_id_in(a) is None,
    decreases a.len(),
{
    if a.len() > 0 {
        assert(!starts_with(a[a.len() - 1], "VM_ID="@));
        let t = a.drop_last();
        assert forall|i: int| 0 <= i < t.len() implies !starts_with(#[trigger] t[i], "VM_ID="@) by {
            assert(t[i] == a[i]);
        }
        lemma_no_vm_id(t);
    }
}

/// The id of the new VM is the number on the first line that gives one, whatever else the script
/// wrote; without such a line there is none.
pub proof fn the_new_vms_id_is_found(before: Seq<Seq<char>>, vmid: u32, after: Seq<Seq<char>>)
    requires
        forall|i: int| 0 <= i < before.len() ==> !starts_with(#[trigger] before[i], "VM_ID="@),
    ensures
        vm_id_in(before.push("VM_ID="@ + decimal(vmid as nat)) + after) == Some(vmid as int),
        vm_id_in(before) is None,
{
    let n = decimal(vmid as nat);
    let line = "VM_ID="@ + n;
    lemma_no_vm_id(before);
    assert(before.push(line).drop_last() =~= before);
    assert(line.take("VM_ID="@.len() as int) =~= "VM_ID="@);
    assert(line.skip("VM_ID="@.len() as int) =~= n);
    lemma_decimal(vmid as nat);
    assert(is_digit(n[0]) && is_digit(n[n.len() - 1]));
    trimming_stops(n);
    numbers_read_back(vmid as nat, u32::MAX as int);
    lemma_vm_id_concat(before.push(line), after);
}

proof fn lemma_field_found(a: Seq<Seq<char>>, key: Seq<char>, v: Seq<char>, b: Seq<Seq<char>>)
    requires
        forall|i: int| 0 <= i < a.len() ==> !starts_with(#[trigger] a[i], key),
    ensures
        field_in(a, key) is None,
        field_in(a.push(key + v) + b, key) == Some(v),
    decreases a.len() + b.len(),
{
    if b.len() > 0 {
        lemma_field_found(a, key, v, b.drop_last());
        assert((a.push(key + v) + b).drop_last() =~= a.push(key + v) + b.drop_last());
    } else {
        assert(a.push(key + v) + b =~= a.push(key + v));
        assert(a.push(key + v).drop_last() =~= a);
        assert((key + v).take(key.len() as int) =~= key);
        assert((key + v).skip(key.len() as int) =~= v);
        if a.len() > 0 {
            assert(!starts_with(a[a.len() - 1], key));
            let t = a.drop_last();
            assert forall|i: int| 0 <= i < t.len() implies !starts_with(#[trigger] t[i], key) by {
                assert(t[i] == a[i]);
            }
            lemma_field_found(t, key, v, b);
        }
    }
}

/// What the node says of itself is read back, each part from the line that bears its name: the
/// host from `HOST=`, the version from `PVE=`, the tool from `VC=`, where it is there at all.
pub proof fn the_node_is_known_by_its_answer(
    host: Seq<char>,
    version: Seq<char>,
    tool: Seq<char>,
)
    requires
        is_line(host) && is_trimmed(host),
        is_line(version) && is_trimmed(version),
        is_line(tool) && is_trimmed(tool),
    ensures
        ({
            let i = node_info_in(
                unlines(seq!["HOST="@ + host, "PVE="@ + version, "VC="@ + tool]),
            );
            &&& i.hostname == host
            &&& i.pve_version == version
            &&& tool.len() > 0 ==> i.virt_customize == Some(tool)
            &&& tool.len() == 0 ==> i.virt_customize is None
        }),
{
    reveal_strlit("HOST=");
    reveal_strlit("PVE=");
    reveal_strlit("VC=");
    let h = "HOST="@ + host;
    let p = "PVE="@ + version;
    let v = "VC="@ + tool;
    let ls = seq![h, p, v];
    assert(is_line(h)) by {
        assert forall|i: int| 0 <= i < h.len() implies h[i] != '\n' by {
            if i >= 5 {
                assert(h[i] == host[i - 5]);
            }
        }
        if host.len() > 0 {
            assert(h.last() == host.last());
        }
    }
    assert(is_line(p)) by {
        assert forall|i: int| 0 <= i < p.len() implies p[i] != '\n' by {
            if i >= 4 {
                assert(p[i] == version[i - 4]);
            }
        }
        if version.len() > 0 {
            assert(p.last() == version.last());
        }
    }
    assert(is_line(v)) by {
        assert forall|i: int| 0 <= i < v.len() implies v[i] != '\n' by {
            if i >= 3 {
                assert(v[i] == tool[i - 3]);
            }
        }
        if tool.len() > 0 {
            assert(v.last() == tool.last());
        }
    }
    lines_read_back(ls);
    let none = Seq::<Seq<char>>::empty();
    assert(h[0] == 'H' && p[0] == 'P' && v[0] == 'V');
    assert(!starts_with(h, "PVE="@)) by {
        if starts_with(h, "PVE="@) {
            assert(h.take(4)[0] == h[0]);
        }
    }
    assert(!starts_with(h, "VC="@)) by {
        if starts_with(h, "VC="@) {
            assert(h.take(3)[0] == h[0]);
        }
    }
    assert(!starts_with(p, "VC="@)) by {
        if starts_with(p, "VC="@) {
            assert(p.take(3)[0] == p[0]);
        }
    }
    lemma_field_found(none, "HOST="@, host, seq![p, v]);
    assert(none.push(h) + seq![p, v] =~= ls);
    lemma_field_found(seq![h], "PVE="@, version, seq![v]);
    assert(seq![h].push(p) + seq![v] =~= ls);
    lemma_field_found(seq![h, p], "VC="@, tool, none);
    assert(seq![h, p].push(v) + none =~= ls);
    trimming_stops(host);
    trimming_stops(version);
    trimming_stops(tool);
}

proof fn lemma_first_words(ls: Seq<Seq<char>>, names: Seq<Seq<char>>)
    requires
        ls.len() == names.len(),
        forall|i: int| 0 <= i < ls.len() ==> first_word_of(#[trigger] ls[i]) == Some(names[i]),
    ensures
        first_words(ls) == names,
    decreases ls.len(),
{
    if ls.len() == 0 {
        assert(first_words(ls) =~= names);
    } else {
        let t = ls.drop_last();
        let u = names.drop_last();
        assert forall|i: int| 0 <= i < t.len() implies first_word_of(#[trigger] t[i]) == Some(
            u[i],
        ) by {
            assert(t[i] == ls[i]);
        }
        lemma_first_words(t, u);
        assert(first_word_of(ls[ls.len() - 1]) == Some(names[names.len() - 1]));
        assert(first_words(ls) =~= names);
    }
}

/// The names of a table are the first words of its rows, all of them and in their order. The
/// storages' table has a row of titles above them, which is no name.
pub proof fn the_names_of_a_table_are_its_first_column(
    title: Seq<char>,
    rows: Seq<Seq<char>>,
    names: Seq<Seq<char>>,
)
    requires
        rows.len() == names.len(),
        forall|i: int|
            0 <= i < rows.len() ==> is_word(#[trigger] names[i], false) && rows[i].len()
                > names[i].len() && rows[i].take(names[i].len() as int) == names[i]
                && is_white_space(rows[i][names[i].len() as int]),
    ensures
        first_words(rows) == names,
        first_words(after_header(seq![title] + rows)) == names,
        first_words(after_header(Seq::empty())) == Seq::<Seq<char>>::empty(),
{
    assert forall|i: int| 0 <= i < rows.len() implies first_word_of(#[trigger] rows[i]) == Some(
        names[i],
    ) by {
        assert(is_word(names[i], false));
        lemma_first_word(rows[i], names[i]);
    }
    lemma_first_words(rows, names);
    assert((seq![title] + rows).skip(1) =~= rows);
}

proof fn lemma_next_id(n: Seq<char>, out: Seq<char>, a: int, b: int)
    requires
        all_digits(n),
        n.len() > 0,
        0 <= a < b <= out.len(),
        !is_white_space(out[a]),
        !is_white_space(out[b - 1]),
        forall|i: int| 0 <= i < a ==> is_white_space(#[trigger] out[i]),
        forall|i: int| b <= i < out.len() ==> is_white_space(#[trigger] out[i]),
        out.subrange(a, b) == n || out.subrange(a, b) == seq!['"'] + n + seq!['"'],
    ensures
        next_id_text(out) == n,
{
    lemma_trimmed_is(out, a, b);
    let t = trimmed(out);
    assert(is_digit(n[0]) && is_digit(n[n.len() - 1]));
    assert(trimmed_start_of(n, '"') == n);
    assert(trimmed_end_of(n, '"') == n);
    if t != n {
        let u = n.push('"');
        assert(t.skip(1) =~= u);
        assert(u[0] == n[0]);
        assert(trimmed_start_of(u, '"') == u);
        assert(trimmed_start_of(t, '"') == u);
        assert(u.drop_last() =~= n);
        assert(trimmed_end_of(u, '"') == n);
    }
}

/// The next free id is the number that the node answers with, in quotes or not, and with a line
/// feed behind it.
pub proof fn the_next_id_is_the_number_that_was_answered(vmid: u32)
    ensures
        read_uint(next_id_text(decimal(vmid as nat).push('\n')), u32::MAX as int) == Some(
            vmid as int,
        ),
        read_uint(
            next_id_text((seq!['"'] + decimal(vmid as nat) + seq!['"']).push('\n')),
            u32::MAX as int,
        ) == Some(vmid as int),
{
    let n = decimal(vmid as nat);
    lemma_decimal(vmid as nat);
    numbers_read_back(vmid as nat, u32::MAX as int);
    assert(is_digit(n[0]) && is_digit(n[n.len() - 1]));
    let a = n.push('\n');
    assert(a.subrange(0, n.len() as int) =~= n);
    lemma_next_id(n, a, 0, n.len() as int);
    let q = seq!['"'] + n + seq!['"'];
    let b = q.push('\n');
    assert(b.subrange(0, q.len() as int) =~= q);
    lemma_next_id(n, b, 0, q.len() as int);
}

/// A command that failed is told by the first line that it wrote to standard error, and a script
/// by the last, whatever stands behind the one or before the other.
pub proof fn failures_are_told_by_their_line(
    line: Seq<char>,
    before: Seq<char>,
    after: Seq<char>,
)
    requires
        is_line(line),
        is_trimmed(line),
        line.len() > 0,
    ensures
        first_of(lines_of(trimmed(line.push('\n') + after))) == Some(line),
        last_of(lines_of(trimmed(before.push('\n') + line.push('\n')))) == Some(line),
        first_of(lines_of(trimmed(Seq::empty()))) is None,
        last_of(lines_of(trimmed(Seq::empty()))) is None,
        failure("remote command failed: "@, Some(line)) == "remote command failed: "@ + line,
        failure("remote script failed: "@, Some(line)) == "remote script failed: "@ + line,
        failure("remote command failed: "@, None) == "remote command failed: "@
            + "(no stderr)"@,
        failure("remote script failed: "@, None) == "remote script failed: "@ + "(no stderr)"@,
{
    lemma_trimmed_blank(Seq::<char>::empty());
    assert(lines_of(Seq::<char>::empty()) =~= Seq::<Seq<char>>::empty());
    lemma_first_line(line, after);
    lemma_last_line(before, line);
}

proof fn lemma_first_line(line: Seq<char>, after: Seq<char>)
    requires
        is_line(line),
        is_trimmed(line),
        line.len() > 0,
    ensures
        first_of(lines_of(trimmed(line.push('\n') + after))) == Some(line),
{
    let n = line.len() as int;
    let s = line.push('\n') + after;
    assert(s[0] == line[0] && s[n - 1] == line.last());
    let (a, b) = lemma_trimmed_bounds(s);
    lemma_trimmed_is(s, a, b);
    assert(a == 0);
    assert(b >= n);
    let t = s.subrange(0, b);
    if b == n {
        assert(t =~= line);
        lemma_one_line(line);
    } else {
        let rest = t.skip(n + 1);
        assert(t =~= line.push('\n') + rest);
        lemma_lines_of_first(line, rest);
    }
}

proof fn lemma_last_line(before: Seq<char>, line: Seq<char>)
    requires
        is_line(line),
        is_trimmed(line),
        line.len() > 0,
    ensures
        last_of(lines_of(trimmed(before.push('\n') + line.push('\n')))) == Some(line),
{
    let n = line.len() as int;
    lemma_one_line(line);
    let s = before.push('\n') + line.push('\n');
    let m = before.len() as int + 1;
    assert(s[m] == line[0] && s[m + n - 1] == line.last());
    assert forall|i: int| m + n <= i < s.len() implies is_white_space(#[trigger] s[i]) by {
        assert(i == m + n);
    }
    let (a, b) = lemma_trimmed_bounds(s);
    lemma_trimmed_is(s, a, b);
    assert(b == m + n);
    assert(a <= m);
    let t = s.subrange(a, b);
    if a < m {
        let head = t.take(m - a);
        assert(head.last() == s[m - 1]);
        assert(t =~= head + line);
        lemma_lines_of_concat(head, line);
        assert(lines_of(t).last() == line);
    } else {
        assert(t =~= line);
    }
}

proof fn lemma_one_line(line: Seq<char>)
    requires
        is_line(line),
        line.len() > 0,
    ensures
        lines_of(line) == seq![line],
{
    lemma_find_from_is(line, '\n', 0, line.len() as int);
}

/// A VM to create, and what the node said of itself, are seen as they are.
pub proof fn a_vm_to_create_is_seen_as_it_is(s: CreateSpec, i: NodeInfo)
    ensures
        s@.name == s.name@ && s@.vmid == s.vmid && s@.ip == s.ip@,
        s@.cores == s.cores && s@.memory == s.memory && s@.disk == s.disk,
        s.gateway matches Some(t) ==> s@.gateway == Some(t@),
        s.gateway is None ==> s@.gateway is None,
        s.nameserver matches Some(t) ==> s@.nameserver == Some(t@),
        s.nameserver is None ==> s@.nameserver is None,
        s@.ci_user == s.ci_user@ && s@.ssh_pubkey == s.ssh_pubkey@,
        s@.full_clone == s.full_clone && s@.start == s.start && s@.tailscale == s.tailscale,
        s.tags matches Some(t) ==> s@.tags == Some(t@),
        s.tags is None ==> s@.tags is None,
        i@.hostname == i.hostname@ && i@.pve_version == i.pve_version@,
        i.virt_customize matches Some(t) ==> i@.virt_customize == Some(t@),
        i.virt_customize is None ==> i@.virt_customize is None,
{
}

/// What the node says of something is what stands behind the first line that bears its name,
/// without white space around it, whatever other lines there are.
pub proof fn a_field_is_read_from_its_first_line(
    before: Seq<Seq<char>>,
    key: Seq<char>,
    v: Seq<char>,
    after: Seq<Seq<char>>,
)
    requires
        all_lines(before.push(key + v) + after),
        forall|i: int| 0 <= i < before.len() ==> !starts_with(#[trigger] before[i], key),
    ensures
        field_text(unlines(before.push(key + v) + after), key) == trimmed(v),
        field_text(unlines(before), key) == Seq::<char>::empty(),
{
    let ls = before.push(key + v) + after;
    lines_read_back(ls);
    lemma_field_found(before, key, v, after);
    assert forall|i: int| 0 <= i < before.len() implies is_line(#[trigger] before[i]) by {
        assert(ls[i] == before[i]);
    }
    lines_read_back(before);
    lemma_trimmed_blank(Seq::<char>::empty());
}

/// The node is asked for three lines that tell who it is: its host name, its version, and the
/// version of `virt-customize`, which is empty where that is not installed.
pub proof fn the_node_is_asked_for_three_lines(host: Seq<char>, version: Seq<char>, tool: Seq<char>)
    requires
        host == "echo \"HOST=$(hostname)\"; "@,
        version == "echo \"PVE=$(pveversion 2>/dev/null | head -1)\"; "@,
        tool
            == "if command -v virt-customize >/dev/null 2>&1; then echo \"VC=$(virt-customize --version 2>/dev/null | head -1)\"; else echo \"VC=\"; fi"@,
    ensures
        node_info_command() == host + version + tool,
{
    reveal_strlit("echo \"HOST=$(hostname)\"; ");
    reveal_strlit("echo \"PVE=$(pveversion 2>/dev/null | head -1)\"; ");
    reveal_strlit("if command -v virt-customize >/dev/null 2>&1; then echo \"VC=$(virt-customize --version 2>/dev/null | head -1)\"; else echo \"VC=\"; fi");
    reveal_strlit("echo \"HOST=$(hostname)\"; echo \"PVE=$(pveversion 2>/dev/null | head -1)\"; if command -v virt-customize >/dev/null 2>&1; then echo \"VC=$(virt-customize --version 2>/dev/null | head -1)\"; else echo \"VC=\"; fi");
    assert(node_info_command() =~= host + version + tool);
}

/// Names come line by line: each line gives its first word, and a line without words gives none.
pub proof fn names_come_line_by_line(a: Seq<Seq<char>>, l: Seq<char>, b: Seq<Seq<char>>)
    ensures
        first_word_of(l) matches Some(w) ==> first_words(a.push(l) + b) == first_words(a).push(w)
            + first_words(b),
        first_word_of(l) is None ==> first_words(a.push(l) + b) == first_words(a) + first_words(b),
    decreases b.len(),
{
    if b.len() == 0 {
        assert(a.push(l) + b =~= a.push(l));
        assert(a.push(l).drop_last() =~= a);
        if let Some(w) = first_word_of(l) {
            assert(first_words(a).push(w) + first_words(b) =~= first_words(a).push(w));
        } else {
            assert(first_words(a) + first_words(b) =~= first_words(a));
        }
    } else {
        let c = b.drop_last();
        names_come_line_by_line(a, l, c);
        assert((a.push(l) + b).drop_last() =~= a.push(l) + c);
        if let Some(v) = first_word_of(b.last()) {
            if let Some(w) = first_word_of(l) {
                assert((first_words(a).push(w) + first_words(c)).push(v) =~= first_words(a).push(w)
                    + first_words(b));
            } else {
                assert((first_words(a) + first_words(c)).push(v) =~= first_words(a) + first_words(
                    b,
                ));
            }
        }
    }
}

} // verus!
