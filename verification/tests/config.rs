//! Reading and writing the settings.
use mox::config::{
    expand_home, find_env_file, init_path, strip_inline_comment, unquote, Config, ConfigError,
    EnvFile, EnvProbe, EnvSource,
};

#[test]
fn env_string_round_trips() {
    let mut cfg = Config::defaults();
    cfg.host = "192.0.2.10".into();
    cfg.user = "root".into();
    cfg.port = 2222;
    cfg.identity_file = Some("/home/u/.ssh/proxmox/id_ed25519".into());
    cfg.tailscale_default = true;
    cfg.tailscale_authkey = Some("tskey-auth-xxx".into());
    cfg.tailnet_domain = Some("example.ts.net".into());
    cfg.vm_subnet = Some("192.0.2.0/24".into());
    cfg.template_packages = "vim,htop".into();

    let parsed = Config::parse_env(&cfg.to_env_string(), Some("/home/u")).unwrap();
    assert_eq!(parsed.host, "192.0.2.10");
    assert_eq!(parsed.port, 2222);
    assert_eq!(parsed.identity_file, cfg.identity_file);
    assert!(parsed.tailscale_default);
    assert_eq!(parsed.tailscale_authkey.as_deref(), Some("tskey-auth-xxx"));
    assert_eq!(parsed.tailnet_domain.as_deref(), Some("example.ts.net"));
    assert_eq!(parsed.vm_subnet.as_deref(), Some("192.0.2.0/24"));
    assert_eq!(parsed.template_packages, "vim,htop");
}

#[test]
fn parse_env_requires_host() {
    assert!(Config::parse_env("PVE_USER=root\n", None).is_err());
    assert!(Config::parse_env("PVE_HOST=10.0.0.1\n", None).is_ok());
}

#[test]
fn strips_trailing_comment_but_keeps_hash_in_value() {
    assert_eq!(strip_inline_comment("192.0.2.10   # node IP"), "192.0.2.10");
    assert_eq!(strip_inline_comment("root"), "root");
    // A '#' not preceded by whitespace (e.g. a URL fragment) is preserved.
    assert_eq!(strip_inline_comment("https://example.com/img#frag"), "https://example.com/img#frag");
}

#[test]
fn a_hash_inside_quotes_is_no_comment() {
    assert_eq!(strip_inline_comment("\"a #b\" # note"), "\"a #b\"");
    assert_eq!(strip_inline_comment("'a #b'"), "'a #b'");
    // An open quote is no quote.
    assert_eq!(strip_inline_comment("\"a #b"), "\"a");
}

#[test]
fn every_setting_is_read() {
    let text = "\
# a comment\n\
\n\
PVE_HOST = pve.example.com   # the node\n\
PVE_USER=admin\n\
PVE_SSH_PORT=2200\n\
PVE_IDENTITY_FILE=\"$HOME/.ssh/id\"\n\
PVE_VM_SUBNET='10.9.8.0/24'\n\
nonsense\n\
PVE_UNKNOWN=1\n";
    let c = Config::parse_env(text, Some("/home/u")).unwrap();
    assert_eq!(c.host, "pve.example.com");
    assert_eq!(c.user, "admin");
    assert_eq!(c.port, 2200);
    assert_eq!(c.identity_file.as_deref(), Some("/home/u/.ssh/id"));
    assert_eq!(c.vm_subnet.as_deref(), Some("10.9.8.0/24"));
    // What is not set is as built in.
    assert_eq!(c.bridge, "vmbr0");
    assert_eq!(c.storage, "local-lvm");
    assert_eq!(c.default_cores, 2);
    assert_eq!(c.default_memory, 4096);
    assert_eq!(c.default_disk, 20);
    assert_eq!(c.ip_timeout, 120);
    assert!(!c.default_full_clone);
}

#[test]
fn a_setting_that_is_no_number_keeps_its_default() {
    let c = Config::parse_env("PVE_HOST=h\nPVE_SSH_PORT=many\n", None).unwrap();
    assert_eq!(c.port, 22);
}

#[test]
fn homes_are_expanded_at_the_start_alone() {
    assert_eq!(expand_home("~/x", Some("/home/u")), "/home/u/x");
    assert_eq!(expand_home("$HOME/x", Some("/home/u")), "/home/u/x");
    assert_eq!(expand_home("/a/~", Some("/home/u")), "/a/~");
    assert_eq!(expand_home("~/x", None), "~/x");
    assert_eq!(unquote(" \"~/x\" ", Some("/h")), "/h/x");
    assert_eq!(unquote("'it'", None), "it");
    assert_eq!(unquote("\"", None), "\"");
}

#[test]
fn built_in_settings_have_no_host() {
    let c = Config::defaults();
    assert_eq!(c.host, "");
    assert_eq!(c.user, "root");
    assert_eq!(c.port, 22);
    assert_eq!(c.template_id, 9000);
    assert_eq!(c.template_name, "ubuntu-2404-cloudinit");
}

#[test]
fn an_existing_explicit_file_comes_first() {
    let p = EnvProbe { explicit: Some(true), dirs: vec![true], home: Some((true, true)) };
    assert!(matches!(find_env_file(&p), Some(EnvSource::Explicit)));
    // One that is no file is passed over.
    let p = EnvProbe { explicit: Some(false), dirs: vec![false, true], home: Some((true, true)) };
    assert!(matches!(find_env_file(&p), Some(EnvSource::Dir(1))));
    let p = EnvProbe { explicit: None, dirs: vec![false, false], home: Some((true, true)) };
    assert!(matches!(find_env_file(&p), Some(EnvSource::Native)));
    let p = EnvProbe { explicit: None, dirs: vec![], home: Some((false, true)) };
    assert!(matches!(find_env_file(&p), Some(EnvSource::Legacy)));
    let p = EnvProbe { explicit: None, dirs: vec![false], home: None };
    assert!(find_env_file(&p).is_none());
}

#[test]
fn loading_says_what_is_wrong() {
    assert_eq!(
        Config::load(&None, None).err().unwrap(),
        "no config found — run `mox init` or set PVE_CONFIG_FILE"
    );
    let f = EnvFile { path: "/x/.env".into(), text: None };
    assert_eq!(Config::load(&Some(f), None).err().unwrap(), "reading /x/.env");
    let f = EnvFile { path: "/x/.env".into(), text: Some("PVE_USER=u\n".into()) };
    let m = Config::load(&Some(f), None).err().unwrap();
    assert!(m.starts_with(&ConfigError::HostNotSet.message()));
    assert!(m.ends_with(" (in /x/.env)"));
    let f = EnvFile { path: "/x/.env".into(), text: Some("PVE_HOST=h\n".into()) };
    assert_eq!(Config::load(&Some(f), None).unwrap().host, "h");
}

#[test]
fn the_native_file_lies_below_the_home() {
    assert_eq!(init_path(Some("/home/u")).as_deref(), Some("/home/u/.config/mox/config"));
    assert_eq!(init_path(None), None);
}

#[test]
fn awkward_texts_round_trip_where_they_can() {
    let mut c = Config::defaults();
    c.host = "h".into();
    c.identity_file = Some("/a path #1/key".into());
    c.template_packages = "vim  htop".into();
    let back = Config::parse_env(&c.to_env_string(), None).unwrap();
    assert_eq!(back.identity_file.as_deref(), Some("/a path #1/key"));
    assert_eq!(back.template_packages, "vim  htop");
}

#[test]
fn lines_that_set_nothing_change_nothing() {
    let set = ["PVE_HOST=10.0.0.1", "PVE_USER=admin", "PVE_SSH_PORT=2200"];
    let plain = Config::parse_env(&set.join("\n"), None).unwrap().to_env_string();
    for idle in ["", "   ", "# PVE_USER=root", "  #", "PVE_USER", "NO_SUCH_SETTING=1", "=x"] {
        for at in 0..=set.len() {
            let mut with: Vec<&str> = set.to_vec();
            with.insert(at, idle);
            let read = Config::parse_env(&with.join("\n"), None).unwrap();
            assert_eq!(read.to_env_string(), plain, "{idle:?} at {at}");
        }
    }
}
