//! Settings: how the node is reached and what new VMs look like, read from and written to
//! `KEY=value` text.
use vstd::prelude::*;

use crate::number::{decimal, parse_u16, parse_u32, parse_uint, read_uint, uint_text};
use crate::text::{
    chars_of, cut_at, find_from, join_lines, lines, lines_of, opt_text, opt_view, same_text,
    split_once, starts_with, string_or_empty, strip_prefix, text_or_empty, trim, trim_end, trimmed,
    trimmed_end, unlines,
};

verus! {

/// Connection settings for reaching the Proxmox node over SSH, and the defaults for new VMs and
/// for the template they are cloned from.
#[derive(Debug, Clone)]
pub struct Config {
    pub host: String,
    pub user: String,
    pub port: u16,
    pub identity_file: Option<String>,
    /// The template that new VMs are cloned from.
    pub template_id: u32,
    pub bridge: String,
    pub template_name: String,
    pub image_url: String,
    pub storage: String,
    pub cpu_type: String,
    pub template_packages: String,
    pub default_cores: u32,
    pub default_memory: u32,
    pub default_disk: u32,
    pub default_full_clone: bool,
    pub ci_user: String,
    pub tailscale_default: bool,
    pub tailscale_authkey: Option<String>,
    pub tailnet_domain: Option<String>,
    /// How many seconds to wait for an address of a new VM.
    pub ip_timeout: u64,
    /// The subnet of the VMs, for the subnet block of the SSH configuration.
    pub vm_subnet: Option<String>,
}

/// The settings with their texts as sequences of characters.
#[verifier::ext_equal]
pub struct ConfigView {
    pub host: Seq<char>,
    pub user: Seq<char>,
    pub port: u16,
    pub identity_file: Option<Seq<char>>,
    pub template_id: u32,
    pub bridge: Seq<char>,
    pub template_name: Seq<char>,
    pub image_url: Seq<char>,
    pub storage: Seq<char>,
    pub cpu_type: Seq<char>,
    pub template_packages: Seq<char>,
    pub default_cores: u32,
    pub default_memory: u32,
    pub default_disk: u32,
    pub default_full_clone: bool,
    pub ci_user: Seq<char>,
    pub tailscale_default: bool,
    pub tailscale_authkey: Option<Seq<char>>,
    pub tailnet_domain: Option<Seq<char>>,
    pub ip_timeout: u64,
    pub vm_subnet: Option<Seq<char>>,
}

impl View for Config {
    type V = ConfigView;

    open spec fn view(&self) -> ConfigView {
        ConfigView {
            host: self.host@,
            user: self.user@,
            port: self.port,
            identity_file: opt_text(self.identity_file),
            template_id: self.template_id,
            bridge: self.bridge@,
            template_name: self.template_name@,
            image_url: self.image_url@,
            storage: self.storage@,
            cpu_type: self.cpu_type@,
            template_packages: self.template_packages@,
            default_cores: self.default_cores,
            default_memory: self.default_memory,
            default_disk: self.default_disk,
            default_full_clone: self.default_full_clone,
            ci_user: self.ci_user@,
            tailscale_default: self.tailscale_default,
            tailscale_authkey: opt_text(self.tailscale_authkey),
            tailnet_domain: opt_text(self.tailnet_domain),
            ip_timeout: self.ip_timeout,
            vm_subnet: opt_text(self.vm_subnet),
        }
    }
}

/// The built-in settings. The host is left empty: it has to be set.
pub open spec fn default_config() -> ConfigView {
    ConfigView {
        host: Seq::empty(),
        user: "root"@,
        port: 22,
        identity_file: None,
        template_id: 9000,
        bridge: "vmbr0"@,
        template_name: "ubuntu-2404-cloudinit"@,
        image_url:
            "https://cloud-images.ubuntu.com/noble/current/noble-server-cloudimg-amd64.img"@,
        storage: "local-lvm"@,
        cpu_type: "host"@,
        template_packages: Seq::empty(),
        default_cores: 2,
        default_memory: 4096,
        default_disk: 20,
        default_full_clone: false,
        ci_user: "ubuntu"@,
        tailscale_default: false,
        tailscale_authkey: None,
        tailnet_domain: None,
        ip_timeout: 120,
        vm_subnet: None,
    }
}

// ---------------------------------------------------------------------------------------------
// Values.
/// The length of the quoted text that a value starts with, closing quote included, or zero where
/// it starts with none.
pub open spec fn quoted_length(s: Seq<char>) -> int {
    if s.len() > 0 && (s[0] == '"' || s[0] == '\'') && find_from(s, s[0], 1) < s.len() {
        find_from(s, s[0], 1) + 1
    } else {
        0
    }
}

/// The first position from `from` on where a space stands before a hash sign, or the length
/// where there is none.
pub open spec fn comment_from(s: Seq<char>, from: int) -> int
    decreases s.len() - from,
{
    if from + 1 >= s.len() {
        s.len() as int
    } else if s[from] == ' ' && s[from + 1] == '#' {
        from
    } else {
        comment_from(s, from + 1)
    }
}

/// A value without its trailing ` # comment`. A hash sign that follows no space, or that stands
/// inside the quotes that the value starts with, is part of the value.
pub open spec fn without_comment(s: Seq<char>) -> Seq<char> {
    let n = comment_from(s, quoted_length(s));
    if n < s.len() {
        trimmed_end(s.take(n))
    } else {
        s
    }
}

/// Whether a text stands between two copies of `q`.
pub open spec fn is_between(s: Seq<char>, q: char) -> bool {
    s.len() >= 2 && s[0] == q && s.last() == q
}

/// A text without one layer of surrounding quotes.
pub open spec fn without_quotes(s: Seq<char>) -> Seq<char> {
    let t = trimmed(s);
    if is_between(t, '"') || is_between(t, '\'') {
        t.subrange(1, t.len() - 1)
    } else {
        t
    }
}

/// A text with a leading `$HOME` or `~` replaced by the home directory, where that is known.
pub open spec fn home_expanded(s: Seq<char>, home: Option<Seq<char>>) -> Seq<char> {
    match home {
        Some(h) => if starts_with(s, "$HOME"@) {
            h + s.skip(5)
        } else if starts_with(s, "~"@) {
            h + s.skip(1)
        } else {
            s
        },
        None => s,
    }
}

/// What the text after a `KEY=` stands for.
pub open spec fn env_value(s: Seq<char>, home: Option<Seq<char>>) -> Seq<char> {
    home_expanded(without_quotes(without_comment(trimmed(s))), home)
}

/// Drops a trailing ` # comment` from a value. Only a `#` that follows a space starts a comment,
/// so one inside a quoted value or a URL fragment is kept.
pub fn strip_inline_comment(s: &str) -> (r: &str)
    ensures
        r@ == without_comment(s@),
{
    let cs: Vec<char> = chars_of(s);
    let mut i: usize = 0;
    if cs.len() > 0 && (cs[0] == '"' || cs[0] == '\'') {
        let q: char = cs[0];
        let mut j: usize = 1;
        while j < cs.len() && cs[j] != q
            invariant
                1 <= j <= cs@.len(),
                find_from(cs@, q, 1) == find_from(cs@, q, j as int),
            decreases cs@.len() - j,
        {
            j = j + 1;
        }
        if j < cs.len() {
            i = j + 1;
        }
    }
    assert(i == quoted_length(s@));
    let ghost start = i as int;
    while i < cs.len() && i + 1 < cs.len()
        invariant
            start <= i <= cs@.len(),
            cs@ == s@,
            start == quoted_length(s@),
            comment_from(s@, start) == comment_from(s@, i as int),
        decreases cs@.len() - i,
    {
        if cs[i] == ' ' && cs[i + 1] == '#' {
            let head: &str = s.substring_char(0, i);
            assert(head@ =~= s@.take(i as int));
            return trim_end(head);
        }
        i = i + 1;
    }
    s
}

/// Replaces a leading `$HOME` or `~` by the home directory, where that is known.
pub fn expand_home(s: &str, home: Option<&str>) -> (r: String)
    ensures
        r@ == home_expanded(s@, opt_view(home)),
{
    match home {
        Some(h) => {
            proof {
                reveal_strlit("$HOME");
                reveal_strlit("~");
            }
            match strip_prefix(s, "$HOME") {
                Some(rest) => {
                    let mut out: String = h.to_owned();
                    out.append(rest);
                    return out;
                },
                None => {},
            }
            match strip_prefix(s, "~") {
                Some(rest) => {
                    let mut out: String = h.to_owned();
                    out.append(rest);
                    return out;
                },
                None => {},
            }
            s.to_owned()
        },
        None => s.to_owned(),
    }
}

/// Strips one layer of surrounding quotes and expands a leading `$HOME` or `~`.
pub fn unquote(s: &str, home: Option<&str>) -> (r: String)
    ensures
        r@ == home_expanded(without_quotes(s@), opt_view(home)),
{
    let t: &str = trim(s);
    let n: usize = t.unicode_len();
    if n >= 2 {
        let first: char = t.get_char(0);
        let last: char = t.get_char(n - 1);
        if (first == '"' && last == '"') || (first == '\'' && last == '\'') {
            return expand_home(t.substring_char(1, n - 1), home);
        }
    }
    expand_home(t, home)
}

// ---------------------------------------------------------------------------------------------
// Keys.
/// The settings that a configuration file can hold.
#[derive(Debug, Clone, Copy)]
pub enum EnvKey {
    Host,
    User,
    SshPort,
    IdentityFile,
    TemplateId,
    Bridge,
    TemplateName,
    ImageUrl,
    Storage,
    CpuType,
    TemplatePackages,
    DefaultCores,
    DefaultMemory,
    DefaultDisk,
    DefaultFullClone,
    CiUser,
    TailscaleDefault,
    TailscaleAuthkey,
    TailnetDomain,
    IpTimeout,
    VmSubnet,
}

/// The setting that a key names, where it names one.
pub open spec fn env_key(k: Seq<char>) -> Option<EnvKey> {
    if k == "PVE_HOST"@ {
        Some(EnvKey::Host)
    } else if k == "PVE_USER"@ {
        Some(EnvKey::User)
    } else if k == "PVE_SSH_PORT"@ {
        Some(EnvKey::SshPort)
    } else if k == "PVE_IDENTITY_FILE"@ {
        Some(EnvKey::IdentityFile)
    } else if k == "PVE_TEMPLATE_ID"@ {
        Some(EnvKey::TemplateId)
    } else if k == "PVE_BRIDGE"@ {
        Some(EnvKey::Bridge)
    } else if k == "PVE_TEMPLATE_NAME"@ {
        Some(EnvKey::TemplateName)
    } else if k == "PVE_IMAGE_URL"@ {
        Some(EnvKey::ImageUrl)
    } else if k == "PVE_STORAGE"@ {
        Some(EnvKey::Storage)
    } else if k == "PVE_CPU_TYPE"@ {
        Some(EnvKey::CpuType)
    } else if k == "PVE_TEMPLATE_PACKAGES"@ {
        Some(EnvKey::TemplatePackages)
    } else if k == "PVE_DEFAULT_CORES"@ {
        Some(EnvKey::DefaultCores)
    } else if k == "PVE_DEFAULT_MEMORY"@ {
        Some(EnvKey::DefaultMemory)
    } else if k == "PVE_DEFAULT_DISK"@ {
        Some(EnvKey::DefaultDisk)
    } else if k == "PVE_DEFAULT_FULL_CLONE"@ {
        Some(EnvKey::DefaultFullClone)
    } else if k == "PVE_CI_USER"@ {
        Some(EnvKey::CiUser)
    } else if k == "PVE_TAILSCALE_DEFAULT"@ {
        Some(EnvKey::TailscaleDefault)
    } else if k == "PVE_TAILSCALE_AUTHKEY"@ {
        Some(EnvKey::TailscaleAuthkey)
    } else if k == "PVE_TAILNET_DOMAIN"@ {
        Some(EnvKey::TailnetDomain)
    } else if k == "PVE_IP_TIMEOUT"@ {
        Some(EnvKey::IpTimeout)
    } else if k == "PVE_VM_SUBNET"@ {
        Some(EnvKey::VmSubnet)
    } else {
        None
    }
}

fn env_key_of(k: &str) -> (r: Option<EnvKey>)
    ensures
        r == env_key(k@),
{
    if same_text(k, "PVE_HOST") {
        Some(EnvKey::Host)
    } else if same_text(k, "PVE_USER") {
        Some(EnvKey::User)
    } else if same_text(k, "PVE_SSH_PORT") {
        Some(EnvKey::SshPort)
    } else if same_text(k, "PVE_IDENTITY_FILE") {
        Some(EnvKey::IdentityFile)
    } else if same_text(k, "PVE_TEMPLATE_ID") {
        Some(EnvKey::TemplateId)
    } else if same_text(k, "PVE_BRIDGE") {
        Some(EnvKey::Bridge)
    } else if same_text(k, "PVE_TEMPLATE_NAME") {
        Some(EnvKey::TemplateName)
    } else if same_text(k, "PVE_IMAGE_URL") {
        Some(EnvKey::ImageUrl)
    } else if same_text(k, "PVE_STORAGE") {
        Some(EnvKey::Storage)
    } else if same_text(k, "PVE_CPU_TYPE") {
        Some(EnvKey::CpuType)
    } else if same_text(k, "PVE_TEMPLATE_PACKAGES") {
        Some(EnvKey::TemplatePackages)
    } else if same_text(k, "PVE_DEFAULT_CORES") {
        Some(EnvKey::DefaultCores)
    } else if same_text(k, "PVE_DEFAULT_MEMORY") {
        Some(EnvKey::DefaultMemory)
    } else if same_text(k, "PVE_DEFAULT_DISK") {
        Some(EnvKey::DefaultDisk)
    } else if same_text(k, "PVE_DEFAULT_FULL_CLONE") {
        Some(EnvKey::DefaultFullClone)
    } else if same_text(k, "PVE_CI_USER") {
        Some(EnvKey::CiUser)
    } else if same_text(k, "PVE_TAILSCALE_DEFAULT") {
        Some(EnvKey::TailscaleDefault)
    } else if same_text(k, "PVE_TAILSCALE_AUTHKEY") {
        Some(EnvKey::TailscaleAuthkey)
    } else if same_text(k, "PVE_TAILNET_DOMAIN") {
        Some(EnvKey::TailnetDomain)
    } else if same_text(k, "PVE_IP_TIMEOUT") {
        Some(EnvKey::IpTimeout)
    } else if same_text(k, "PVE_VM_SUBNET") {
        Some(EnvKey::VmSubnet)
    } else {
        None
    }
}

/// A text, or another where it is empty.
pub open spec fn or_kept(v: Seq<char>, kept: Seq<char>) -> Seq<char> {
    if v.len() > 0 {
        v
    } else {
        kept
    }
}

/// `Some` of a text, or another value where it is empty.
pub open spec fn or_kept_opt(v: Seq<char>, kept: Option<Seq<char>>) -> Option<Seq<char>> {
    if v.len() > 0 {
        Some(v)
    } else {
        kept
    }
}

/// The number that a text stands for, or another where it stands for none of at most `max`.
pub open spec fn or_kept_int(v: Seq<char>, max: int, kept: int) -> int {
    match read_uint(v, max) {
        Some(n) => n,
        None => kept,
    }
}

/// The settings after one of them has been given a value: an empty text leaves a text as it was
/// (but for the extra packages), what is no number leaves a number as it was, and a switch is on
/// for `1` alone.
pub open spec fn with_setting(c: ConfigView, key: EnvKey, v: Seq<char>) -> ConfigView {
    match key {
        EnvKey::Host => ConfigView { host: or_kept(v, c.host), ..c },
        EnvKey::User => ConfigView { user: or_kept(v, c.user), ..c },
        EnvKey::SshPort => ConfigView {
            port: or_kept_int(v, u16::MAX as int, c.port as int) as u16,
            ..c
        },
        EnvKey::IdentityFile => ConfigView {
            identity_file: or_kept_opt(v, c.identity_file),
            ..c
        },
        EnvKey::TemplateId => ConfigView {
            template_id: or_kept_int(v, u32::MAX as int, c.template_id as int) as u32,
            ..c
        },
        EnvKey::Bridge => ConfigView { bridge: or_kept(v, c.bridge), ..c },
        EnvKey::TemplateName => ConfigView { template_name: or_kept(v, c.template_name), ..c },
        EnvKey::ImageUrl => ConfigView { image_url: or_kept(v, c.image_url), ..c },
        EnvKey::Storage => ConfigView { storage: or_kept(v, c.storage), ..c },
        EnvKey::CpuType => ConfigView { cpu_type: or_kept(v, c.cpu_type), ..c },
        EnvKey::TemplatePackages => ConfigView { template_packages: v, ..c },
        EnvKey::DefaultCores => ConfigView {
            default_cores: or_kept_int(v, u32::MAX as int, c.default_cores as int) as u32,
            ..c
        },
        EnvKey::DefaultMemory => ConfigView {
            default_memory: or_kept_int(v, u32::MAX as int, c.default_memory as int) as u32,
            ..c
        },
        EnvKey::DefaultDisk => ConfigView {
            default_disk: or_kept_int(v, u32::MAX as int, c.default_disk as int) as u32,
            ..c
        },
        EnvKey::DefaultFullClone => ConfigView { default_full_clone: v == "1"@, ..c },
        EnvKey::CiUser => ConfigView { ci_user: or_kept(v, c.ci_user), ..c },
        EnvKey::TailscaleDefault => ConfigView { tailscale_default: v == "1"@, ..c },
        EnvKey::TailscaleAuthkey => ConfigView {
            tailscale_authkey: or_kept_opt(v, c.tailscale_authkey),
            ..c
        },
        EnvKey::TailnetDomain => ConfigView {
            tailnet_domain: or_kept_opt(v, c.tailnet_domain),
            ..c
        },
        EnvKey::IpTimeout => ConfigView {
            ip_timeout: or_kept_int(v, u64::MAX as int, c.ip_timeout as int) as u64,
            ..c
        },
        EnvKey::VmSubnet => ConfigView { vm_subnet: or_kept_opt(v, c.vm_subnet), ..c },
    }
}

/// The settings after one line. Blank lines, comments, lines without an equals sign and unknown
/// keys change nothing.
pub open spec fn after_line(c: ConfigView, line: Seq<char>, home: Option<Seq<char>>) -> ConfigView {
    let l = trimmed(line);
    if l.len() == 0 || l[0] == '#' {
        c
    } else {
        match cut_at(l, '=') {
            Some((k, v)) => match env_key(trimmed(k)) {
                Some(key) => with_setting(c, key, env_value(v, home)),
                None => c,
            },
            None => c,
        }
    }
}

/// The settings after the given lines, one after the other.
pub open spec fn after_lines(
    c: ConfigView,
    ls: Seq<Seq<char>>,
    home: Option<Seq<char>>,
) -> ConfigView
    decreases ls.len(),
{
    if ls.len() == 0 {
        c
    } else {
        after_line(after_lines(c, ls.drop_last(), home), ls.last(), home)
    }
}

/// A line that sets nothing: it is blank, a comment, has no equals sign, or names no setting.
pub open spec fn sets_nothing(line: Seq<char>) -> bool {
    let l = trimmed(line);
    ||| l.len() == 0
    ||| l[0] == '#'
    ||| cut_at(l, '=') is None
    ||| env_key(trimmed((cut_at(l, '=')->0).0)) is None
}

/// Lines that set nothing are irrelevant, wherever they stand.
pub proof fn lines_that_set_nothing_are_irrelevant(
    c: ConfigView,
    before: Seq<Seq<char>>,
    line: Seq<char>,
    after: Seq<Seq<char>>,
    home: Option<Seq<char>>,
)
    requires
        sets_nothing(line),
    ensures
        after_lines(c, before.push(line) + after, home) == after_lines(c, before + after, home),
    decreases after.len(),
{
    if after.len() == 0 {
        assert(before.push(line) + after =~= before.push(line));
        assert(before.push(line).drop_last() =~= before);
        assert(before + after =~= before);
    } else {
        let init = after.drop_last();
        lines_that_set_nothing_are_irrelevant(c, before, line, init, home);
        assert((before.push(line) + after).drop_last() =~= before.push(line) + init);
        assert((before + after).drop_last() =~= before + init);
    }
}

/// The settings that a text holds, over the built-in ones; `None` where no host is set.
pub open spec fn read_env(text: Seq<char>, home: Option<Seq<char>>) -> Option<ConfigView> {
    let c = after_lines(default_config(), lines_of(text), home);
    if c.host.len() == 0 {
        None
    } else {
        Some(c)
    }
}

fn uint_or_kept(v: &str, max: u64, kept: u64) -> (r: u64)
    ensures
        r == or_kept_int(v@, max as int, kept as int),
{
    match parse_uint(v, max) {
        Some(n) => n,
        None => kept,
    }
}

impl Config {
    /// Gives one setting a value.
    fn set(&mut self, key: EnvKey, v: String)
        ensures
            final(self)@ == with_setting(old(self)@, key, v@),
    {
        let empty: bool = v.as_str().is_empty();
        match key {
            EnvKey::Host => {
                if !empty {
                    self.host = v;
                }
            },
            EnvKey::User => {
                if !empty {
                    self.user = v;
                }
            },
            EnvKey::SshPort => {
                if let Some(n) = parse_u16(v.as_str()) {
                    self.port = n;
                }
            },
            EnvKey::IdentityFile => {
                if !empty {
                    self.identity_file = Some(v);
                }
            },
            EnvKey::TemplateId => {
                if let Some(n) = parse_u32(v.as_str()) {
                    self.template_id = n;
                }
            },
            EnvKey::Bridge => {
                if !empty {
                    self.bridge = v;
                }
            },
            EnvKey::TemplateName => {
                if !empty {
                    self.template_name = v;
                }
            },
            EnvKey::ImageUrl => {
                if !empty {
                    self.image_url = v;
                }
            },
            EnvKey::Storage => {
                if !empty {
                    self.storage = v;
                }
            },
            EnvKey::CpuType => {
                if !empty {
                    self.cpu_type = v;
                }
            },
            EnvKey::TemplatePackages => {
                self.template_packages = v;
            },
            EnvKey::DefaultCores => {
                if let Some(n) = parse_u32(v.as_str()) {
                    self.default_cores = n;
                }
            },
            EnvKey::DefaultMemory => {
                if let Some(n) = parse_u32(v.as_str()) {
                    self.default_memory = n;
                }
            },
            EnvKey::DefaultDisk => {
                if let Some(n) = parse_u32(v.as_str()) {
                    self.default_disk = n;
                }
            },
            EnvKey::DefaultFullClone => {
                self.default_full_clone = same_text(v.as_str(), "1");
            },
            EnvKey::CiUser => {
                if !empty {
                    self.ci_user = v;
                }
            },
            EnvKey::TailscaleDefault => {
                self.tailscale_default = same_text(v.as_str(), "1");
            },
            EnvKey::TailscaleAuthkey => {
                if !empty {
                    self.tailscale_authkey = Some(v);
                }
            },
            EnvKey::TailnetDomain => {
                if !empty {
                    self.tailnet_domain = Some(v);
                }
            },
            EnvKey::IpTimeout => {
                self.ip_timeout = uint_or_kept(v.as_str(), u64::MAX, self.ip_timeout);
            },
            EnvKey::VmSubnet => {
                if !empty {
                    self.vm_subnet = Some(v);
                }
            },
        }
    }
}

/// Why a text holds no usable settings.
#[derive(Debug, Clone, Copy, PartialEq, Eq, Structural)]
pub enum ConfigError {
    /// No line sets `PVE_HOST`.
    HostNotSet,
}

impl ConfigError {
    pub open spec fn message_text(self) -> Seq<char> {
        match self {
            ConfigError::HostNotSet => "PVE_HOST is not set"@,
        }
    }

    /// The message for the user.
    pub fn message(self) -> (r: String)
        ensures
            r@ == self.message_text(),
    {
        match self {
            ConfigError::HostNotSet => "PVE_HOST is not set".to_owned(),
        }
    }
}

/// A configuration file that was found: its path, and its text where it could be read.
pub struct EnvFile {
    pub path: String,
    pub text: Option<String>,
}

/// The settings of the file that was found, or what to tell the user: that there is no file,
/// that it cannot be read, or what is wrong with it and in which file.
pub open spec fn loaded(found: Option<EnvFile>, home: Option<Seq<char>>) -> Result<
    ConfigView,
    Seq<char>,
> {
    match found {
        None => Err("no config found — run `mox init` or set PVE_CONFIG_FILE"@),
        Some(f) => match f.text {
            None => Err("reading "@ + f.path@),
            Some(t) => match read_env(t@, home) {
                Some(c) => Ok(c),
                None => Err(
                    ConfigError::HostNotSet.message_text() + " (in "@ + f.path@ + ")"@,
                ),
            },
        },
    }
}

impl Config {
    /// A copy of the settings.
    pub fn copy(&self) -> (r: Config)
        ensures
            r@ == self@,
            r == *self,
    {
        Config {
            host: self.host.clone(),
            user: self.user.clone(),
            port: self.port,
            identity_file: self.identity_file.clone(),
            template_id: self.template_id,
            bridge: self.bridge.clone(),
            template_name: self.template_name.clone(),
            image_url: self.image_url.clone(),
            storage: self.storage.clone(),
            cpu_type: self.cpu_type.clone(),
            template_packages: self.template_packages.clone(),
            default_cores: self.default_cores,
            default_memory: self.default_memory,
            default_disk: self.default_disk,
            default_full_clone: self.default_full_clone,
            ci_user: self.ci_user.clone(),
            tailscale_default: self.tailscale_default,
            tailscale_authkey: self.tailscale_authkey.clone(),
            tailnet_domain: self.tailnet_domain.clone(),
            ip_timeout: self.ip_timeout,
            vm_subnet: self.vm_subnet.clone(),
        }
    }

    /// The built-in settings, with an empty host, which has to be set.
    pub fn defaults() -> (r: Config)
        ensures
            r@ == default_config(),
    {
        Config {
            host: String::new(),
            user: "root".to_owned(),
            port: 22,
            identity_file: None,
            template_id: 9000,
            bridge: "vmbr0".to_owned(),
            template_name: "ubuntu-2404-cloudinit".to_owned(),
            image_url:
                "https://cloud-images.ubuntu.com/noble/current/noble-server-cloudimg-amd64.img".to_owned(),
            storage: "local-lvm".to_owned(),
            cpu_type: "host".to_owned(),
            template_packages: String::new(),
            default_cores: 2,
            default_memory: 4096,
            default_disk: 20,
            default_full_clone: false,
            ci_user: "ubuntu".to_owned(),
            tailscale_default: false,
            tailscale_authkey: None,
            tailnet_domain: None,
            ip_timeout: 120,
            vm_subnet: None,
        }
    }

    /// Applies one line of a configuration file.
    fn apply_line(&mut self, line: &str, home: Option<&str>)
        ensures
            final(self)@ == after_line(old(self)@, line@, opt_view(home)),
    {
        let l: &str = trim(line);
        if l.is_empty() {
            return;
        }
        if l.get_char(0) == '#' {
            return;
        }
        match split_once(l, '=') {
            Some(kv) => {
                let value: String = unquote(strip_inline_comment(trim(kv.1)), home);
                match env_key_of(trim(kv.0)) {
                    Some(key) => {
                        self.set(key, value);
                    },
                    None => {},
                }
            },
            None => {},
        }
    }

    /// Reads `KEY=value` text over the built-in settings. A leading `$HOME` or `~` of a value is
    /// replaced by `home`. Fails where `PVE_HOST` is not set.
    pub fn parse_env(text: &str, home: Option<&str>) -> (r: Result<Config, ConfigError>)
        ensures
            match r {
                Ok(c) => read_env(text@, opt_view(home)) == Some(c@),
                Err(e) => e == ConfigError::HostNotSet && read_env(text@, opt_view(home)) is None,
            },
    {
        let ls: Vec<&str> = lines(text);
        let ghost all = ls.deep_view();
        let mut cfg: Config = Config::defaults();
        let mut i: usize = 0;
        assert(all.take(0) =~= Seq::<Seq<char>>::empty());
        while i < ls.len()
            invariant
                i <= ls@.len(),
                all == ls.deep_view(),
                cfg@ == after_lines(default_config(), all.take(i as int), opt_view(home)),
            decreases ls@.len() - i,
        {
            cfg.apply_line(ls[i], home);
            assert(all.take(i + 1).drop_last() =~= all.take(i as int));
            assert(all.take(i + 1).last() == ls@[i as int]@);
            i = i + 1;
        }
        assert(all.take(i as int) =~= all);
        if cfg.host.as_str().is_empty() {
            Err(ConfigError::HostNotSet)
        } else {
            Ok(cfg)
        }
    }

    /// The settings of the configuration file that was found, or what to tell the user.
    pub fn load(found: &Option<EnvFile>, home: Option<&str>) -> (r: Result<Config, String>)
        ensures
            match r {
                Ok(c) => loaded(*found, opt_view(home)) == Ok::<ConfigView, Seq<char>>(c@),
                Err(e) => loaded(*found, opt_view(home)) == Err::<ConfigView, Seq<char>>(e@),
            },
    {
        match found {
            None => Err("no config found — run `mox init` or set PVE_CONFIG_FILE".to_owned()),
            Some(f) => match &f.text {
                None => {
                    let mut m: String = "reading ".to_owned();
                    m.append(f.path.as_str());
                    Err(m)
                },
                Some(t) => match Config::parse_env(t.as_str(), home) {
                    Ok(c) => Ok(c),
                    Err(e) => {
                        let mut m: String = e.message();
                        m.append(" (in ");
                        m.append(f.path.as_str());
                        m.append(")");
                        Err(m)
                    },
                },
            },
        }
    }
}

// ---------------------------------------------------------------------------------------------
// Where the configuration file is.
/// What was found where a configuration file may be.
pub struct EnvProbe {
    /// Whether the path that `PVE_CONFIG_FILE` gives is a file, where it is set.
    pub explicit: Option<bool>,
    /// Whether there is a `.env` file, in the current directory and each directory above it.
    pub dirs: Vec<bool>,
    /// Whether `.config/mox/config` and `.config/pve/.env` are files, where a home is known.
    pub home: Option<(bool, bool)>,
}

/// Which configuration file is read.
#[derive(Debug, Clone, Copy, PartialEq, Eq, Structural)]
pub enum EnvSource {
    /// The one that `PVE_CONFIG_FILE` names.
    Explicit,
    /// The `.env` file this many directories above the current one.
    Dir(usize),
    /// `~/.config/mox/config`.
    Native,
    /// `~/.config/pve/.env`.
    Legacy,
}

/// The first position from `from` on that holds `true`, or the length where there is none.
pub open spec fn first_true(b: Seq<bool>, from: int) -> int
    decreases b.len() - from,
{
    if from >= b.len() {
        b.len() as int
    } else if b[from] {
        from
    } else {
        first_true(b, from + 1)
    }
}

/// The explicit file comes first, then the nearest `.env` file on the way up, then the native
/// location, then the legacy one.
pub open spec fn chosen_source(p: EnvProbe) -> Option<EnvSource> {
    let n = first_true(p.dirs@, 0);
    if p.explicit == Some(true) {
        Some(EnvSource::Explicit)
    } else if n < p.dirs@.len() {
        Some(EnvSource::Dir(n as usize))
    } else {
        match p.home {
            Some((true, _)) => Some(EnvSource::Native),
            Some((false, true)) => Some(EnvSource::Legacy),
            _ => None,
        }
    }
}

/// Picks the configuration file to read from what was found.
pub fn find_env_file(p: &EnvProbe) -> (r: Option<EnvSource>)
    ensures
        r == chosen_source(*p),
{
    if let Some(is_file) = p.explicit {
        if is_file {
            return Some(EnvSource::Explicit);
        }
    }
    let mut i: usize = 0;
    while i < p.dirs.len()
        invariant
            i <= p.dirs@.len(),
            p.explicit != Some(true),
            first_true(p.dirs@, 0) == first_true(p.dirs@, i as int),
        decreases p.dirs@.len() - i,
    {
        if p.dirs[i] {
            return Some(EnvSource::Dir(i));
        }
        i = i + 1;
    }
    match p.home {
        Some((native, legacy)) => if native {
            Some(EnvSource::Native)
        } else if legacy {
            Some(EnvSource::Legacy)
        } else {
            None
        },
        None => None,
    }
}

/// A relative path below a directory.
pub open spec fn path_below(dir: Seq<char>, rel: Seq<char>) -> Seq<char> {
    if dir.len() == 0 {
        rel
    } else if dir.last() == '/' {
        dir + rel
    } else {
        dir + "/"@ + rel
    }
}

/// A path below a directory.
pub fn join_path(dir: &str, rel: &str) -> (r: String)
    ensures
        r@ == path_below(dir@, rel@),
{
    let n: usize = dir.unicode_len();
    if n == 0 {
        rel.to_owned()
    } else {
        let mut out: String = dir.to_owned();
        if dir.get_char(n - 1) != '/' {
            out.append("/");
        }
        out.append(rel);
        out
    }
}

/// The native configuration file, below the home directory where that is known.
pub fn init_path(home: Option<&str>) -> (r: Option<String>)
    ensures
        opt_text(r) == match home {
            Some(h) => Some(path_below(h@, ".config/mox/config"@)),
            None => None,
        },
{
    match home {
        Some(h) => Some(join_path(h, ".config/mox/config")),
        None => None,
    }
}

// ---------------------------------------------------------------------------------------------
// Writing the settings.
/// A switch as it is written: `1` for on, `0` for off.
pub open spec fn flag(b: bool) -> Seq<char> {
    if b {
        "1"@
    } else {
        "0"@
    }
}

/// A switch as it is written: `1` or `0`.
pub fn flag_text(b: bool) -> (r: String)
    ensures
        r@ == flag(b),
{
    if b {
        "1".to_owned()
    } else {
        "0".to_owned()
    }
}

/// The lines of a configuration file that holds the given settings.
pub open spec fn env_lines(c: ConfigView) -> Seq<Seq<char>> {
    seq![
        "# Generated by `mox init` on "@ + c.host + ". Re-run `mox init` to regenerate."@,
        "PVE_HOST="@ + c.host,
        "PVE_USER="@ + c.user,
        "PVE_SSH_PORT="@ + decimal(c.port as nat),
        "PVE_IDENTITY_FILE="@ + ("\""@ + text_or_empty(c.identity_file) + "\""@),
        ""@,
        "PVE_STORAGE="@ + c.storage,
        "PVE_BRIDGE="@ + c.bridge,
        ""@,
        "PVE_TEMPLATE_ID="@ + decimal(c.template_id as nat),
        "PVE_TEMPLATE_NAME="@ + c.template_name,
        "PVE_IMAGE_URL="@ + c.image_url,
        "PVE_CPU_TYPE="@ + c.cpu_type,
        "PVE_CI_USER="@ + c.ci_user,
        ""@,
        "PVE_DEFAULT_CORES="@ + decimal(c.default_cores as nat),
        "PVE_DEFAULT_MEMORY="@ + decimal(c.default_memory as nat),
        "PVE_DEFAULT_DISK="@ + decimal(c.default_disk as nat),
        "PVE_DEFAULT_FULL_CLONE="@ + flag(c.default_full_clone),
        ""@,
        "# Extra packages baked into the template (comma-separated); the"@,
        "# qemu-guest-agent + tailscale floor is always installed."@,
        "PVE_TEMPLATE_PACKAGES="@ + c.template_packages,
        ""@,
        "# Whether new VMs join the tailnet by default (1) or not (0)."@,
        "PVE_TAILSCALE_DEFAULT="@ + flag(c.tailscale_default),
        "PVE_TAILSCALE_AUTHKEY="@ + text_or_empty(c.tailscale_authkey),
        "PVE_TAILNET_DOMAIN="@ + text_or_empty(c.tailnet_domain),
        ""@,
        "# Subnet of DHCP VMs, for the ~/.ssh/config subnet block."@,
        "PVE_VM_SUBNET="@ + text_or_empty(c.vm_subnet),
        ""@,
        "# Seconds to wait for an IP at create time."@,
        "PVE_IP_TIMEOUT="@ + decimal(c.ip_timeout as nat),
    ]
}

fn entry(key: &str, value: &str) -> (r: String)
    ensures
        r@ == key@ + value@,
{
    let mut out: String = key.to_owned();
    out.append(value);
    out
}

impl Config {
    /// The settings as the text of a configuration file.
    pub fn to_env_string(&self) -> (r: String)
        ensures
            r@ == unlines(env_lines(self@)),
    {
        let mut head: String = "# Generated by `mox init` on ".to_owned();
        head.append(self.host.as_str());
        head.append(". Re-run `mox init` to regenerate.");
        let mut id: String = "\"".to_owned();
        id.append(string_or_empty(&self.identity_file).as_str());
        id.append("\"");
        let ls: Vec<String> = vec![
            head,
            entry("PVE_HOST=", self.host.as_str()),
            entry("PVE_USER=", self.user.as_str()),
            entry("PVE_SSH_PORT=", uint_text(self.port as u64).as_str()),
            entry("PVE_IDENTITY_FILE=", id.as_str()),
            "".to_owned(),
            entry("PVE_STORAGE=", self.storage.as_str()),
            entry("PVE_BRIDGE=", self.bridge.as_str()),
            "".to_owned(),
            entry("PVE_TEMPLATE_ID=", uint_text(self.template_id as u64).as_str()),
            entry("PVE_TEMPLATE_NAME=", self.template_name.as_str()),
            entry("PVE_IMAGE_URL=", self.image_url.as_str()),
            entry("PVE_CPU_TYPE=", self.cpu_type.as_str()),
            entry("PVE_CI_USER=", self.ci_user.as_str()),
            "".to_owned(),
            entry("PVE_DEFAULT_CORES=", uint_text(self.default_cores as u64).as_str()),
            entry("PVE_DEFAULT_MEMORY=", uint_text(self.default_memory as u64).as_str()),
            entry("PVE_DEFAULT_DISK=", uint_text(self.default_disk as u64).as_str()),
            entry("PVE_DEFAULT_FULL_CLONE=", flag_text(self.default_full_clone).as_str()),
            "".to_owned(),
            "# Extra packages baked into the template (comma-separated); the".to_owned(),
            "# qemu-guest-agent + tailscale floor is always installed.".to_owned(),
            entry("PVE_TEMPLATE_PACKAGES=", self.template_packages.as_str()),
            "".to_owned(),
            "# Whether new VMs join the tailnet by default (1) or not (0).".to_owned(),
            entry("PVE_TAILSCALE_DEFAULT=", flag_text(self.tailscale_default).as_str()),
            entry(
                "PVE_TAILSCALE_AUTHKEY=",
                string_or_empty(&self.tailscale_authkey).as_str(),
            ),
            entry("PVE_TAILNET_DOMAIN=", string_or_empty(&self.tailnet_domain).as_str()),
            "".to_owned(),
            "# Subnet of DHCP VMs, for the ~/.ssh/config subnet block.".to_owned(),
            entry("PVE_VM_SUBNET=", string_or_empty(&self.vm_subnet).as_str()),
            "".to_owned(),
            "# Seconds to wait for an IP at create time.".to_owned(),
            entry("PVE_IP_TIMEOUT=", uint_text(self.ip_timeout).as_str()),
        ];
        assert(ls.deep_view() =~= env_lines(self@));
        join_lines(&ls)
    }
}

// ---------------------------------------------------------------------------------------------
// Laws.
/// The file that is named explicitly counts where it is there; otherwise the `.env` file of the
/// nearest directory; otherwise the native file; otherwise the legacy one; and none that is not
/// there.
pub proof fn the_nearest_file_counts(p: EnvProbe, n: int)
    ensures
        p.explicit == Some(true) ==> chosen_source(p) == Some(EnvSource::Explicit),
        p.explicit != Some(true) && 0 <= n < p.dirs@.len() && n <= usize::MAX && p.dirs@[n] && (
        forall|k: int| 0 <= k < n ==> !p.dirs@[k]) ==> chosen_source(p) == Some(
            EnvSource::Dir(n as usize),
        ),
        p.explicit != Some(true) && (forall|k: int| 0 <= k < p.dirs@.len() ==> !p.dirs@[k]) ==> {
            &&& (p.home matches Some(f) && f.0) ==> chosen_source(p) == Some(EnvSource::Native)
            &&& (p.home matches Some(f) && !f.0 && f.1) ==> chosen_source(p) == Some(
                EnvSource::Legacy,
            )
            &&& (p.home matches Some(f) ==> !f.0 && !f.1) ==> chosen_source(p) is None
        },
{
    if 0 <= n < p.dirs@.len() && p.dirs@[n] && (forall|k: int| 0 <= k < n ==> !p.dirs@[k]) {
        lemma_first_true(p.dirs@, 0, n);
    }
    if forall|k: int| 0 <= k < p.dirs@.len() ==> !p.dirs@[k] {
        lemma_first_true(p.dirs@, 0, p.dirs@.len() as int);
    }
}

proof fn lemma_first_true(b: Seq<bool>, from: int, n: int)
    requires
        0 <= from <= n <= b.len(),
        n < b.len() ==> b[n],
        forall|k: int| from <= k < n ==> !b[k],
    ensures
        first_true(b, from) == n,
    decreases n - from,
{
    if from < n {
        lemma_first_true(b, from + 1, n);
    }
}

/// The settings that are loaded are those of the file's text. Where there is no file, it cannot
/// be read, or it sets no host, nothing is loaded, and the message names the file.
pub proof fn loading_reads_the_file_or_names_it(f: EnvFile, home: Option<Seq<char>>)
    ensures
        loaded(None, home) == Err::<ConfigView, Seq<char>>(
            "no config found — run `mox init` or set PVE_CONFIG_FILE"@,
        ),
        f.text is None ==> loaded(Some(f), home) == Err::<ConfigView, Seq<char>>(
            "reading "@ + f.path@,
        ),
        f.text matches Some(t) ==> (read_env(t@, home) matches Some(c) ==> loaded(Some(f), home)
            == Ok::<ConfigView, Seq<char>>(c)),
        f.text matches Some(t) ==> (read_env(t@, home) is None ==> loaded(Some(f), home) == Err::<
            ConfigView,
            Seq<char>,
        >("PVE_HOST is not set"@ + " (in "@ + f.path@ + ")"@)),
{
}

/// A path below a directory has one slash between the two.
pub proof fn paths_are_joined_by_one_slash(dir: Seq<char>, rel: Seq<char>)
    ensures
        dir.len() > 0 && dir.last() != '/' ==> path_below(dir, rel) == dir.push('/') + rel,
        path_below(dir.push('/'), rel) == dir.push('/') + rel,
        path_below(Seq::empty(), rel) == rel,
{
    reveal_strlit("/");
    assert("/"@ =~= seq!['/']);
    assert(dir + "/"@ + rel =~= dir.push('/') + rel);
}

/// The settings' model has the settings' own fields.
pub proof fn settings_are_seen_as_they_are(c: Config)
    ensures
        c@.host == c.host@ && c@.user == c.user@ && c@.port == c.port,
        c.identity_file matches Some(t) ==> c@.identity_file == Some(t@),
        c.identity_file is None ==> c@.identity_file is None,
        c@.template_id == c.template_id && c@.bridge == c.bridge@,
        c@.template_name == c.template_name@ && c@.image_url == c.image_url@,
        c@.storage == c.storage@ && c@.cpu_type == c.cpu_type@,
        c@.template_packages == c.template_packages@ && c@.ci_user == c.ci_user@,
        c@.default_cores == c.default_cores && c@.default_memory == c.default_memory,
        c@.default_disk == c.default_disk && c@.default_full_clone == c.default_full_clone,
        c@.tailscale_default == c.tailscale_default && c@.ip_timeout == c.ip_timeout,
        c.tailscale_authkey matches Some(t) ==> c@.tailscale_authkey == Some(t@),
        c.tailscale_authkey is None ==> c@.tailscale_authkey is None,
        c.tailnet_domain matches Some(t) ==> c@.tailnet_domain == Some(t@),
        c.tailnet_domain is None ==> c@.tailnet_domain is None,
        c.vm_subnet matches Some(t) ==> c@.vm_subnet == Some(t@),
        c.vm_subnet is None ==> c@.vm_subnet is None,
{
}

} // verus!
