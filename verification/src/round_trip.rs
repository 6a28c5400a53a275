//! What the settings keep when they are written and read back.
use vstd::prelude::*;

use crate::config::{
    after_line, after_lines, comment_from, default_config, env_key, env_lines, env_value, flag,
    home_expanded, or_kept_int, or_kept_opt, quoted_length, read_env, with_setting,
    without_comment, without_quotes, ConfigView, EnvKey,
};
use crate::number::{
    all_digits, decimal, is_digit, lemma_decimal, numbers_read_back, read_uint,
};
use crate::text::{
    feed_free, find_from, is_trimmed, is_white_space, lemma_feed_free, lemma_find_from,
    lemma_find_from_is, lemma_trimmed_blank, lemma_trimmed_bounds, lemma_trimmed_is,
    lemma_trimmed_of_end, lemma_trimmed_without_cr, lines_of, no_feed, starts_with, text_or_empty,
    trimmed, trimmed_end, trimming_stops, unlines, without_cr,
};

verus! {

/// A text that reads back as itself behind a `KEY=`.
pub open spec fn reads_back(v: Seq<char>, home: Option<Seq<char>>) -> bool {
    no_feed(v) && env_value(v, home) == v
}

/// A text that reads back as itself behind a `KEY=`, and is not empty.
pub open spec fn sets(v: Seq<char>, home: Option<Seq<char>>) -> bool {
    v.len() > 0 && reads_back(v, home)
}

pub open spec fn sets_opt(v: Option<Seq<char>>, home: Option<Seq<char>>) -> bool {
    match v {
        Some(s) => sets(s, home),
        None => true,
    }
}

/// Settings each of whose texts reads back from the line it is written on. An identity file is
/// written in quotes.
pub open spec fn representable(c: ConfigView, home: Option<Seq<char>>) -> bool {
    &&& sets(c.host, home)
    &&& sets(c.user, home)
    &&& sets(c.bridge, home)
    &&& sets(c.template_name, home)
    &&& sets(c.image_url, home)
    &&& sets(c.storage, home)
    &&& sets(c.cpu_type, home)
    &&& sets(c.ci_user, home)
    &&& reads_back(c.template_packages, home)
    &&& sets_opt(c.tailscale_authkey, home)
    &&& sets_opt(c.tailnet_domain, home)
    &&& sets_opt(c.vm_subnet, home)
    &&& match c.identity_file {
        Some(s) => s.len() > 0 && no_feed(s) && env_value("\""@ + s + "\""@, home) == s,
        None => true,
    }
}

/// A key character.
pub open spec fn is_key_char(c: char) -> bool {
    ('A' <= c && c <= 'Z') || c == '_'
}

spec fn key_chars(s: Seq<char>, n: nat) -> bool
    decreases n,
{
    n == 0 || (is_key_char(s[n - 1]) && key_chars(s, (n - 1) as nat))
}

proof fn lemma_key_chars(s: Seq<char>, n: nat)
    requires
        key_chars(s, n),
    ensures
        forall|i: int| 0 <= i < n ==> is_key_char(#[trigger] s[i]),
    decreases n,
{
    if n > 0 {
        lemma_key_chars(s, (n - 1) as nat);
    }
}

/// A line `KEY=value` gives the setting the value.
proof fn lemma_entry(c: ConfigView, key: Seq<char>, v: Seq<char>, home: Option<Seq<char>>)
    requires
        key.len() > 0,
        forall|i: int| 0 <= i < key.len() ==> is_key_char(#[trigger] key[i]),
    ensures
        after_line(c, key.push('=') + v, home) == match env_key(key) {
            Some(k) => with_setting(c, k, env_value(v, home)),
            None => c,
        },
{
    assert(is_key_char(key[0]) && is_key_char(key[key.len() - 1]));
    assert forall|i: int| 0 <= i < key.len() implies key[i] != '=' by {
        assert(is_key_char(key[i]));
    }
    lemma_any_entry(c, key, v, home);
}

/// A line that is cut at its equals sign gives the setting that stands before it, if any, the
/// value behind it.
proof fn lemma_any_entry(c: ConfigView, key: Seq<char>, v: Seq<char>, home: Option<Seq<char>>)
    requires
        key.len() > 0,
        is_trimmed(key),
        key[0] != '#',
        forall|i: int| 0 <= i < key.len() ==> key[i] != '=',
    ensures
        after_line(c, key.push('=') + v, home) == match env_key(key) {
            Some(k) => with_setting(c, k, env_value(v, home)),
            None => c,
        },
{
    let line = key.push('=') + v;
    let n = key.len() as int;
    let vt = trimmed_end(v);
    assert(line[0] == key[0]);
    assert(trimmed(line) == key.push('=') + vt) by {
        if exists|i: int| 0 <= i < v.len() && !is_white_space(#[trigger] v[i]) {
            let (a, b) = lemma_trimmed_bounds(v);
            lemma_trimmed_is(v, a, b);
            assert(line[n + b] == v[b - 1]);
            assert forall|i: int| n + 1 + b <= i < line.len() implies is_white_space(
                #[trigger] line[i],
            ) by {
                assert(line[i] == v[i - n - 1]);
            }
            lemma_trimmed_is(line, 0, n + 1 + b);
            assert(line.subrange(0, n + 1 + b) =~= key.push('=') + v.take(b));
        } else {
            lemma_trimmed_blank(v);
            assert(line[n] == '=');
            assert forall|i: int| n + 1 <= i < line.len() implies is_white_space(
                #[trigger] line[i],
            ) by {
                assert(line[i] == v[i - n - 1]);
            }
            lemma_trimmed_is(line, 0, n + 1);
            assert(line.subrange(0, n + 1) =~= key.push('=') + vt);
        }
    }
    let l = trimmed(line);
    assert(l[0] == key[0]);
    assert forall|j: int| 0 <= j < n implies l[j] != '=' by {
        assert(l[j] == key[j]);
    }
    assert(l[n] == '=');
    lemma_find_from_is(l, '=', 0, n);
    assert(l.take(n) =~= key);
    assert(l.skip(n + 1) =~= vt);
    trimming_stops(key);
    lemma_trimmed_of_end(v);
}

/// The keys are told apart.
proof fn lemma_keys()
    ensures
        env_key("PVE_HOST"@) == Some(EnvKey::Host),
        env_key("PVE_USER"@) == Some(EnvKey::User),
        env_key("PVE_SSH_PORT"@) == Some(EnvKey::SshPort),
        env_key("PVE_IDENTITY_FILE"@) == Some(EnvKey::IdentityFile),
        env_key("PVE_TEMPLATE_ID"@) == Some(EnvKey::TemplateId),
        env_key("PVE_BRIDGE"@) == Some(EnvKey::Bridge),
        env_key("PVE_TEMPLATE_NAME"@) == Some(EnvKey::TemplateName),
        env_key("PVE_IMAGE_URL"@) == Some(EnvKey::ImageUrl),
        env_key("PVE_STORAGE"@) == Some(EnvKey::Storage),
        env_key("PVE_CPU_TYPE"@) == Some(EnvKey::CpuType),
        env_key("PVE_TEMPLATE_PACKAGES"@) == Some(EnvKey::TemplatePackages),
        env_key("PVE_DEFAULT_CORES"@) == Some(EnvKey::DefaultCores),
        env_key("PVE_DEFAULT_MEMORY"@) == Some(EnvKey::DefaultMemory),
        env_key("PVE_DEFAULT_DISK"@) == Some(EnvKey::DefaultDisk),
        env_key("PVE_DEFAULT_FULL_CLONE"@) == Some(EnvKey::DefaultFullClone),
        env_key("PVE_CI_USER"@) == Some(EnvKey::CiUser),
        env_key("PVE_TAILSCALE_DEFAULT"@) == Some(EnvKey::TailscaleDefault),
        env_key("PVE_TAILSCALE_AUTHKEY"@) == Some(EnvKey::TailscaleAuthkey),
        env_key("PVE_TAILNET_DOMAIN"@) == Some(EnvKey::TailnetDomain),
        env_key("PVE_IP_TIMEOUT"@) == Some(EnvKey::IpTimeout),
        env_key("PVE_VM_SUBNET"@) == Some(EnvKey::VmSubnet),
{
    reveal_strlit("PVE_HOST");
    reveal_strlit("PVE_USER");
    reveal_strlit("PVE_SSH_PORT");
    reveal_strlit("PVE_IDENTITY_FILE");
    reveal_strlit("PVE_TEMPLATE_ID");
    reveal_strlit("PVE_BRIDGE");
    reveal_strlit("PVE_TEMPLATE_NAME");
    reveal_strlit("PVE_IMAGE_URL");
    reveal_strlit("PVE_STORAGE");
    reveal_strlit("PVE_CPU_TYPE");
    reveal_strlit("PVE_TEMPLATE_PACKAGES");
    reveal_strlit("PVE_DEFAULT_CORES");
    reveal_strlit("PVE_DEFAULT_MEMORY");
    reveal_strlit("PVE_DEFAULT_DISK");
    reveal_strlit("PVE_DEFAULT_FULL_CLONE");
    reveal_strlit("PVE_CI_USER");
    reveal_strlit("PVE_TAILSCALE_DEFAULT");
    reveal_strlit("PVE_TAILSCALE_AUTHKEY");
    reveal_strlit("PVE_TAILNET_DOMAIN");
    reveal_strlit("PVE_IP_TIMEOUT");
    reveal_strlit("PVE_VM_SUBNET");
    assert("PVE_HOST"@.len() == 8);
    assert("PVE_USER"@.len() == 8);
    assert("PVE_SSH_PORT"@.len() == 12);
    assert("PVE_IDENTITY_FILE"@.len() == 17);
    assert("PVE_TEMPLATE_ID"@.len() == 15);
    assert("PVE_BRIDGE"@.len() == 10);
    assert("PVE_TEMPLATE_NAME"@.len() == 17);
    assert("PVE_IMAGE_URL"@.len() == 13);
    assert("PVE_STORAGE"@.len() == 11);
    assert("PVE_CPU_TYPE"@.len() == 12);
    assert("PVE_TEMPLATE_PACKAGES"@.len() == 21);
    assert("PVE_DEFAULT_CORES"@.len() == 17);
    assert("PVE_DEFAULT_MEMORY"@.len() == 18);
    assert("PVE_DEFAULT_DISK"@.len() == 16);
    assert("PVE_DEFAULT_FULL_CLONE"@.len() == 22);
    assert("PVE_CI_USER"@.len() == 11);
    assert("PVE_TAILSCALE_DEFAULT"@.len() == 21);
    assert("PVE_TAILSCALE_AUTHKEY"@.len() == 21);
    assert("PVE_TAILNET_DOMAIN"@.len() == 18);
    assert("PVE_IP_TIMEOUT"@.len() == 14);
    assert("PVE_VM_SUBNET"@.len() == 13);
    assert("PVE_HOST"@[4] == 'H' && "PVE_USER"@[4] == 'U');
    assert("PVE_SSH_PORT"@[4] == 'S' && "PVE_CPU_TYPE"@[4] == 'C');
    assert("PVE_IDENTITY_FILE"@[4] == 'I' && "PVE_TEMPLATE_NAME"@[4] == 'T'
        && "PVE_DEFAULT_CORES"@[4] == 'D');
    assert("PVE_IMAGE_URL"@[4] == 'I' && "PVE_VM_SUBNET"@[4] == 'V');
    assert("PVE_STORAGE"@[4] == 'S' && "PVE_CI_USER"@[4] == 'C');
    assert("PVE_DEFAULT_MEMORY"@[4] == 'D' && "PVE_TAILNET_DOMAIN"@[4] == 'T');
    assert("PVE_TEMPLATE_PACKAGES"@[5] == 'E' && "PVE_TAILSCALE_DEFAULT"@[5] == 'A'
        && "PVE_TAILSCALE_AUTHKEY"@[5] == 'A');
    assert("PVE_TAILSCALE_DEFAULT"@[14] == 'D' && "PVE_TAILSCALE_AUTHKEY"@[14] == 'A');
}

spec fn same_upto(a: Seq<char>, b: Seq<char>, n: nat) -> bool
    decreases n,
{
    n == 0 || (a[n - 1] == b[n - 1] && same_upto(a, b, (n - 1) as nat))
}

proof fn lemma_same_upto(a: Seq<char>, b: Seq<char>, n: nat)
    requires
        same_upto(a, b, n),
    ensures
        forall|i: int| 0 <= i < n ==> a[i] == b[i],
    decreases n,
{
    if n > 0 {
        lemma_same_upto(a, b, (n - 1) as nat);
    }
}

/// `start` is the key `key` with an equals sign behind it.
spec fn starts_entry(key: Seq<char>, start: Seq<char>) -> bool {
    &&& key.len() > 0
    &&& forall|i: int| 0 <= i < key.len() ==> is_key_char(#[trigger] key[i])
    &&& start == key.push('=')
}

proof fn lemma_starts_entry(key: Seq<char>, start: Seq<char>)
    requires
        key.len() > 0,
        start.len() == key.len() + 1,
        start.last() == '=',
        key_chars(key, key.len()),
        same_upto(key, start, key.len()),
    ensures
        starts_entry(key, start),
        no_feed(start),
{
    lemma_key_chars(key, key.len());
    lemma_same_upto(key, start, key.len());
    assert(start =~= key.push('='));
    assert forall|i: int| 0 <= i < start.len() implies start[i] != '\n' by {
        if i < key.len() {
            assert(is_key_char(key[i]));
        }
    }
}

#[verifier::rlimit(40)]
proof fn lemma_entry_starts()
    ensures
        starts_entry("PVE_HOST"@, "PVE_HOST="@) && no_feed("PVE_HOST="@),
        starts_entry("PVE_USER"@, "PVE_USER="@) && no_feed("PVE_USER="@),
        starts_entry("PVE_SSH_PORT"@, "PVE_SSH_PORT="@) && no_feed("PVE_SSH_PORT="@),
        starts_entry("PVE_IDENTITY_FILE"@, "PVE_IDENTITY_FILE="@) && no_feed("PVE_IDENTITY_FILE="@),
        starts_entry("PVE_TEMPLATE_ID"@, "PVE_TEMPLATE_ID="@) && no_feed("PVE_TEMPLATE_ID="@),
        starts_entry("PVE_BRIDGE"@, "PVE_BRIDGE="@) && no_feed("PVE_BRIDGE="@),
        starts_entry("PVE_TEMPLATE_NAME"@, "PVE_TEMPLATE_NAME="@) && no_feed("PVE_TEMPLATE_NAME="@),
        starts_entry("PVE_IMAGE_URL"@, "PVE_IMAGE_URL="@) && no_feed("PVE_IMAGE_URL="@),
        starts_entry("PVE_STORAGE"@, "PVE_STORAGE="@) && no_feed("PVE_STORAGE="@),
        starts_entry("PVE_CPU_TYPE"@, "PVE_CPU_TYPE="@) && no_feed("PVE_CPU_TYPE="@),
        starts_entry("PVE_TEMPLATE_PACKAGES"@, "PVE_TEMPLATE_PACKAGES="@) && no_feed("PVE_TEMPLATE_PACKAGES="@),
        starts_entry("PVE_DEFAULT_CORES"@, "PVE_DEFAULT_CORES="@) && no_feed("PVE_DEFAULT_CORES="@),
        starts_entry("PVE_DEFAULT_MEMORY"@, "PVE_DEFAULT_MEMORY="@) && no_feed("PVE_DEFAULT_MEMORY="@),
        starts_entry("PVE_DEFAULT_DISK"@, "PVE_DEFAULT_DISK="@) && no_feed("PVE_DEFAULT_DISK="@),
        starts_entry("PVE_DEFAULT_FULL_CLONE"@, "PVE_DEFAULT_FULL_CLONE="@) && no_feed("PVE_DEFAULT_FULL_CLONE="@),
        starts_entry("PVE_CI_USER"@, "PVE_CI_USER="@) && no_feed("PVE_CI_USER="@),
        starts_entry("PVE_TAILSCALE_DEFAULT"@, "PVE_TAILSCALE_DEFAULT="@) && no_feed("PVE_TAILSCALE_DEFAULT="@),
        starts_entry("PVE_TAILSCALE_AUTHKEY"@, "PVE_TAILSCALE_AUTHKEY="@) && no_feed("PVE_TAILSCALE_AUTHKEY="@),
        starts_entry("PVE_TAILNET_DOMAIN"@, "PVE_TAILNET_DOMAIN="@) && no_feed("PVE_TAILNET_DOMAIN="@),
        starts_entry("PVE_IP_TIMEOUT"@, "PVE_IP_TIMEOUT="@) && no_feed("PVE_IP_TIMEOUT="@),
        starts_entry("PVE_VM_SUBNET"@, "PVE_VM_SUBNET="@) && no_feed("PVE_VM_SUBNET="@),
{
    assert(starts_entry("PVE_HOST"@, "PVE_HOST="@) && no_feed("PVE_HOST="@)) by {
        reveal_strlit("PVE_HOST");
        reveal_strlit("PVE_HOST=");
        reveal_with_fuel(key_chars, 9);
        reveal_with_fuel(same_upto, 9);
        lemma_starts_entry("PVE_HOST"@, "PVE_HOST="@);
    }
    assert(starts_entry("PVE_USER"@, "PVE_USER="@) && no_feed("PVE_USER="@)) by {
        reveal_strlit("PVE_USER");
        reveal_strlit("PVE_USER=");
        reveal_with_fuel(key_chars, 9);
        reveal_with_fuel(same_upto, 9);
        lemma_starts_entry("PVE_USER"@, "PVE_USER="@);
    }
    assert(starts_entry("PVE_SSH_PORT"@, "PVE_SSH_PORT="@) && no_feed("PVE_SSH_PORT="@)) by {
        reveal_strlit("PVE_SSH_PORT");
        reveal_strlit("PVE_SSH_PORT=");
        reveal_with_fuel(key_chars, 13);
        reveal_with_fuel(same_upto, 13);
        lemma_starts_entry("PVE_SSH_PORT"@, "PVE_SSH_PORT="@);
    }
    assert(starts_entry("PVE_IDENTITY_FILE"@, "PVE_IDENTITY_FILE="@) && no_feed("PVE_IDENTITY_FILE="@)) by {
        reveal_strlit("PVE_IDENTITY_FILE");
        reveal_strlit("PVE_IDENTITY_FILE=");
        reveal_with_fuel(key_chars, 18);
        reveal_with_fuel(same_upto, 18);
        lemma_starts_entry("PVE_IDENTITY_FILE"@, "PVE_IDENTITY_FILE="@);
    }
    assert(starts_entry("PVE_TEMPLATE_ID"@, "PVE_TEMPLATE_ID="@) && no_feed("PVE_TEMPLATE_ID="@)) by {
        reveal_strlit("PVE_TEMPLATE_ID");
        reveal_strlit("PVE_TEMPLATE_ID=");
        reveal_with_fuel(key_chars, 16);
        reveal_with_fuel(same_upto, 16);
        lemma_starts_entry("PVE_TEMPLATE_ID"@, "PVE_TEMPLATE_ID="@);
    }
    assert(starts_entry("PVE_BRIDGE"@, "PVE_BRIDGE="@) && no_feed("PVE_BRIDGE="@)) by {
        reveal_strlit("PVE_BRIDGE");
        reveal_strlit("PVE_BRIDGE=");
        reveal_with_fuel(key_chars, 11);
        reveal_with_fuel(same_upto, 11);
        lemma_starts_entry("PVE_BRIDGE"@, "PVE_BRIDGE="@);
    }
    assert(starts_entry("PVE_TEMPLATE_NAME"@, "PVE_TEMPLATE_NAME="@) && no_feed("PVE_TEMPLATE_NAME="@)) by {
        reveal_strlit("PVE_TEMPLATE_NAME");
        reveal_strlit("PVE_TEMPLATE_NAME=");
        reveal_with_fuel(key_chars, 18);
        reveal_with_fuel(same_upto, 18);
        lemma_starts_entry("PVE_TEMPLATE_NAME"@, "PVE_TEMPLATE_NAME="@);
    }
    assert(starts_entry("PVE_IMAGE_URL"@, "PVE_IMAGE_URL="@) && no_feed("PVE_IMAGE_URL="@)) by {
        reveal_strlit("PVE_IMAGE_URL");
        reveal_strlit("PVE_IMAGE_URL=");
        reveal_with_fuel(key_chars, 14);
        reveal_with_fuel(same_upto, 14);
        lemma_starts_entry("PVE_IMAGE_URL"@, "PVE_IMAGE_URL="@);
    }
    assert(starts_entry("PVE_STORAGE"@, "PVE_STORAGE="@) && no_feed("PVE_STORAGE="@)) by {
        reveal_strlit("PVE_STORAGE");
        reveal_strlit("PVE_STORAGE=");
        reveal_with_fuel(key_chars, 12);
        reveal_with_fuel(same_upto, 12);
        lemma_starts_entry("PVE_STORAGE"@, "PVE_STORAGE="@);
    }
    assert(starts_entry("PVE_CPU_TYPE"@, "PVE_CPU_TYPE="@) && no_feed("PVE_CPU_TYPE="@)) by {
        reveal_strlit("PVE_CPU_TYPE");
        reveal_strlit("PVE_CPU_TYPE=");
        reveal_with_fuel(key_chars, 13);
        reveal_with_fuel(same_upto, 13);
        lemma_starts_entry("PVE_CPU_TYPE"@, "PVE_CPU_TYPE="@);
    }
    assert(starts_entry("PVE_TEMPLATE_PACKAGES"@, "PVE_TEMPLATE_PACKAGES="@) && no_feed("PVE_TEMPLATE_PACKAGES="@)) by {
        reveal_strlit("PVE_TEMPLATE_PACKAGES");
        reveal_strlit("PVE_TEMPLATE_PACKAGES=");
        reveal_with_fuel(key_chars, 22);
        reveal_with_fuel(same_upto, 22);
        lemma_starts_entry("PVE_TEMPLATE_PACKAGES"@, "PVE_TEMPLATE_PACKAGES="@);
    }
    assert(starts_entry("PVE_DEFAULT_CORES"@, "PVE_DEFAULT_CORES="@) && no_feed("PVE_DEFAULT_CORES="@)) by {
        reveal_strlit("PVE_DEFAULT_CORES");
        reveal_strlit("PVE_DEFAULT_CORES=");
        reveal_with_fuel(key_chars, 18);
        reveal_with_fuel(same_upto, 18);
        lemma_starts_entry("PVE_DEFAULT_CORES"@, "PVE_DEFAULT_CORES="@);
    }
    assert(starts_entry("PVE_DEFAULT_MEMORY"@, "PVE_DEFAULT_MEMORY="@) && no_feed("PVE_DEFAULT_MEMORY="@)) by {
        reveal_strlit("PVE_DEFAULT_MEMORY");
        reveal_strlit("PVE_DEFAULT_MEMORY=");
        reveal_with_fuel(key_chars, 19);
        reveal_with_fuel(same_upto, 19);
        lemma_starts_entry("PVE_DEFAULT_MEMORY"@, "PVE_DEFAULT_MEMORY="@);
    }
    assert(starts_entry("PVE_DEFAULT_DISK"@, "PVE_DEFAULT_DISK="@) && no_feed("PVE_DEFAULT_DISK="@)) by {
        reveal_strlit("PVE_DEFAULT_DISK");
        reveal_strlit("PVE_DEFAULT_DISK=");
        reveal_with_fuel(key_chars, 17);
        reveal_with_fuel(same_upto, 17);
        lemma_starts_entry("PVE_DEFAULT_DISK"@, "PVE_DEFAULT_DISK="@);
    }
    assert(starts_entry("PVE_DEFAULT_FULL_CLONE"@, "PVE_DEFAULT_FULL_CLONE="@) && no_feed("PVE_DEFAULT_FULL_CLONE="@)) by {
        reveal_strlit("PVE_DEFAULT_FULL_CLONE");
        reveal_strlit("PVE_DEFAULT_FULL_CLONE=");
        reveal_with_fuel(key_chars, 23);
        reveal_with_fuel(same_upto, 23);
        lemma_starts_entry("PVE_DEFAULT_FULL_CLONE"@, "PVE_DEFAULT_FULL_CLONE="@);
    }
    assert(starts_entry("PVE_CI_USER"@, "PVE_CI_USER="@) && no_feed("PVE_CI_USER="@)) by {
        reveal_strlit("PVE_CI_USER");
        reveal_strlit("PVE_CI_USER=");
        reveal_with_fuel(key_chars, 12);
        reveal_with_fuel(same_upto, 12);
        lemma_starts_entry("PVE_CI_USER"@, "PVE_CI_USER="@);
    }
    assert(starts_entry("PVE_TAILSCALE_DEFAULT"@, "PVE_TAILSCALE_DEFAULT="@) && no_feed("PVE_TAILSCALE_DEFAULT="@)) by {
        reveal_strlit("PVE_TAILSCALE_DEFAULT");
        reveal_strlit("PVE_TAILSCALE_DEFAULT=");
        reveal_with_fuel(key_chars, 22);
        reveal_with_fuel(same_upto, 22);
        lemma_starts_entry("PVE_TAILSCALE_DEFAULT"@, "PVE_TAILSCALE_DEFAULT="@);
    }
    assert(starts_entry("PVE_TAILSCALE_AUTHKEY"@, "PVE_TAILSCALE_AUTHKEY="@) && no_feed("PVE_TAILSCALE_AUTHKEY="@)) by {
        reveal_strlit("PVE_TAILSCALE_AUTHKEY");
        reveal_strlit("PVE_TAILSCALE_AUTHKEY=");
        reveal_with_fuel(key_chars, 22);
        reveal_with_fuel(same_upto, 22);
        lemma_starts_entry("PVE_TAILSCALE_AUTHKEY"@, "PVE_TAILSCALE_AUTHKEY="@);
    }
    assert(starts_entry("PVE_TAILNET_DOMAIN"@, "PVE_TAILNET_DOMAIN="@) && no_feed("PVE_TAILNET_DOMAIN="@)) by {
        reveal_strlit("PVE_TAILNET_DOMAIN");
        reveal_strlit("PVE_TAILNET_DOMAIN=");
        reveal_with_fuel(key_chars, 19);
        reveal_with_fuel(same_upto, 19);
        lemma_starts_entry("PVE_TAILNET_DOMAIN"@, "PVE_TAILNET_DOMAIN="@);
    }
    assert(starts_entry("PVE_IP_TIMEOUT"@, "PVE_IP_TIMEOUT="@) && no_feed("PVE_IP_TIMEOUT="@)) by {
        reveal_strlit("PVE_IP_TIMEOUT");
        reveal_strlit("PVE_IP_TIMEOUT=");
        reveal_with_fuel(key_chars, 15);
        reveal_with_fuel(same_upto, 15);
        lemma_starts_entry("PVE_IP_TIMEOUT"@, "PVE_IP_TIMEOUT="@);
    }
    assert(starts_entry("PVE_VM_SUBNET"@, "PVE_VM_SUBNET="@) && no_feed("PVE_VM_SUBNET="@)) by {
        reveal_strlit("PVE_VM_SUBNET");
        reveal_strlit("PVE_VM_SUBNET=");
        reveal_with_fuel(key_chars, 14);
        reveal_with_fuel(same_upto, 14);
        lemma_starts_entry("PVE_VM_SUBNET"@, "PVE_VM_SUBNET="@);
    }
}

#[verifier::rlimit(40)]
proof fn lemma_comment_texts()
    ensures
        no_feed("# Generated by `mox init` on "@),
        "# Generated by `mox init` on "@.len() > 0 && "# Generated by `mox init` on "@[0] == '#',
        no_feed(". Re-run `mox init` to regenerate."@),
        no_feed("# Extra packages baked into the template (comma-separated); the"@),
        "# Extra packages baked into the template (comma-separated); the"@.len() > 0 && "# Extra packages baked into the template (comma-separated); the"@[0] == '#',
        no_feed("# qemu-guest-agent + tailscale floor is always installed."@),
        "# qemu-guest-agent + tailscale floor is always installed."@.len() > 0 && "# qemu-guest-agent + tailscale floor is always installed."@[0] == '#',
        no_feed("# Whether new VMs join the tailnet by default (1) or not (0)."@),
        "# Whether new VMs join the tailnet by default (1) or not (0)."@.len() > 0 && "# Whether new VMs join the tailnet by default (1) or not (0)."@[0] == '#',
        no_feed("# Subnet of DHCP VMs, for the ~/.ssh/config subnet block."@),
        "# Subnet of DHCP VMs, for the ~/.ssh/config subnet block."@.len() > 0 && "# Subnet of DHCP VMs, for the ~/.ssh/config subnet block."@[0] == '#',
        no_feed("# Seconds to wait for an IP at create time."@),
        "# Seconds to wait for an IP at create time."@.len() > 0 && "# Seconds to wait for an IP at create time."@[0] == '#',
{
    assert(no_feed("# Generated by `mox init` on "@)) by {
        reveal_strlit("# Generated by `mox init` on ");
        reveal_with_fuel(feed_free, 30);
        lemma_feed_free("# Generated by `mox init` on "@, "# Generated by `mox init` on "@.len());
    }
    reveal_strlit("# Generated by `mox init` on ");
    assert(no_feed(". Re-run `mox init` to regenerate."@)) by {
        reveal_strlit(". Re-run `mox init` to regenerate.");
        reveal_with_fuel(feed_free, 35);
        lemma_feed_free(". Re-run `mox init` to regenerate."@, ". Re-run `mox init` to regenerate."@.len());
    }
    assert(no_feed("# Extra packages baked into the template (comma-separated); the"@)) by {
        reveal_strlit("# Extra packages baked into the template (comma-separated); the");
        reveal_with_fuel(feed_free, 64);
        lemma_feed_free("# Extra packages baked into the template (comma-separated); the"@, "# Extra packages baked into the template (comma-separated); the"@.len());
    }
    reveal_strlit("# Extra packages baked into the template (comma-separated); the");
    assert(no_feed("# qemu-guest-agent + tailscale floor is always installed."@)) by {
        reveal_strlit("# qemu-guest-agent + tailscale floor is always installed.");
        reveal_with_fuel(feed_free, 58);
        lemma_feed_free("# qemu-guest-agent + tailscale floor is always installed."@, "# qemu-guest-agent + tailscale floor is always installed."@.len());
    }
    reveal_strlit("# qemu-guest-agent + tailscale floor is always installed.");
    assert(no_feed("# Whether new VMs join the tailnet by default (1) or not (0)."@)) by {
        reveal_strlit("# Whether new VMs join the tailnet by default (1) or not (0).");
        reveal_with_fuel(feed_free, 62);
        lemma_feed_free("# Whether new VMs join the tailnet by default (1) or not (0)."@, "# Whether new VMs join the tailnet by default (1) or not (0)."@.len());
    }
    reveal_strlit("# Whether new VMs join the tailnet by default (1) or not (0).");
    assert(no_feed("# Subnet of DHCP VMs, for the ~/.ssh/config subnet block."@)) by {
        reveal_strlit("# Subnet of DHCP VMs, for the ~/.ssh/config subnet block.");
        reveal_with_fuel(feed_free, 58);
        lemma_feed_free("# Subnet of DHCP VMs, for the ~/.ssh/config subnet block."@, "# Subnet of DHCP VMs, for the ~/.ssh/config subnet block."@.len());
    }
    reveal_strlit("# Subnet of DHCP VMs, for the ~/.ssh/config subnet block.");
    assert(no_feed("# Seconds to wait for an IP at create time."@)) by {
        reveal_strlit("# Seconds to wait for an IP at create time.");
        reveal_with_fuel(feed_free, 44);
        lemma_feed_free("# Seconds to wait for an IP at create time."@, "# Seconds to wait for an IP at create time."@.len());
    }
    reveal_strlit("# Seconds to wait for an IP at create time.");
}

/// The settings after the text that is made of the given lines.
#[verifier::opaque]
spec fn after_text(ls: Seq<Seq<char>>, home: Option<Seq<char>>) -> ConfigView {
    after_lines(default_config(), lines_of(unlines(ls)), home)
}

/// Each further line is read on its own.
proof fn lemma_step(ls: Seq<Seq<char>>, l: Seq<char>, home: Option<Seq<char>>)
    requires
        no_feed(l),
    ensures
        after_text(ls.push(l), home) == after_line(after_text(ls, home), l, home),
{
    reveal(after_text);
    let before = unlines(ls);
    assert(ls.push(l).drop_last() =~= ls);
    crate::text::lemma_unlines_ends(ls);
    crate::text::lemma_lines_of_concat(before, l.push('\n'));
    crate::text::lemma_lines_of_first(l, Seq::empty());
    assert(l.push('\n') + Seq::<char>::empty() =~= l.push('\n'));
    let read = lines_of(before);
    assert(lines_of(unlines(ls.push(l))) =~= read.push(without_cr(l)));
    assert(read.push(without_cr(l)).drop_last() =~= read);
    lemma_trimmed_without_cr(l);
}

proof fn lemma_comment_step(ls: Seq<Seq<char>>, l: Seq<char>, home: Option<Seq<char>>)
    requires
        no_feed(l),
        l.len() == 0 || l[0] == '#',
    ensures
        after_text(ls.push(l), home) == after_text(ls, home),
{
    lemma_step(ls, l, home);
    if l.len() > 0 {
        assert(!is_white_space(l[0]));
        let (a, b) = lemma_trimmed_bounds(l);
        lemma_trimmed_is(l, a, b);
    } else {
        lemma_trimmed_blank(l);
    }
}

proof fn lemma_entry_step(
    ls: Seq<Seq<char>>,
    key: Seq<char>,
    start: Seq<char>,
    v: Seq<char>,
    home: Option<Seq<char>>,
)
    requires
        starts_entry(key, start),
        no_feed(start),
        no_feed(v),
        env_key(key) is Some,
    ensures
        after_text(ls.push(start + v), home) == with_setting(
            after_text(ls, home),
            env_key(key)->0,
            env_value(v, home),
        ),
{
    lemma_step(ls, start + v, home);
    lemma_entry(after_text(ls, home), key, v, home);
}

proof fn lemma_no_comment(s: Seq<char>, from: int)
    requires
        0 <= from <= s.len(),
        forall|i: int| from <= i < s.len() ==> s[i] != '#',
    ensures
        comment_from(s, from) == s.len(),
    decreases s.len() - from,
{
    if from + 1 < s.len() {
        lemma_no_comment(s, from + 1);
    }
}

/// Digits stand for themselves.
proof fn lemma_digits_value(v: Seq<char>, home: Option<Seq<char>>)
    requires
        all_digits(v),
    ensures
        env_value(v, home) == v,
        no_feed(v),
{
    reveal_strlit("$HOME");
    reveal_strlit("~");
    if v.len() > 0 {
        assert(is_digit(v[0]));
        assert(is_digit(v[v.len() - 1]));
    }
    trimming_stops(v);
    assert forall|i: int| 0 <= i < v.len() implies v[i] != '#' && v[i] != '\n' by {
        assert(is_digit(v[i]));
    }
    lemma_no_comment(v, 0);
    if starts_with(v, "$HOME"@) {
        assert(v.take(5)[0] == v[0]);
        assert("$HOME"@[0] == '$');
    }
    if starts_with(v, "~"@) {
        assert(v.take(1)[0] == v[0]);
        assert("~"@[0] == '~');
    }
}

proof fn lemma_number_value(n: nat, max: int, kept: int, home: Option<Seq<char>>)
    requires
        n <= max,
    ensures
        or_kept_int(env_value(decimal(n), home), max, kept) == n,
        no_feed(decimal(n)),
{
    lemma_decimal(n);
    lemma_digits_value(decimal(n), home);
    numbers_read_back(n, max);
}

proof fn lemma_flag_value(b: bool, home: Option<Seq<char>>)
    ensures
        (env_value(flag(b), home) == "1"@) == b,
        no_feed(flag(b)),
{
    reveal_strlit("1");
    reveal_strlit("0");
    assert("1"@ =~= seq!['1']);
    assert("0"@ =~= seq!['0']);
    assert("1"@[0] != "0"@[0]);
    lemma_digits_value(flag(b), home);
}

/// A pair of quotes with nothing between them stands for the empty text.
proof fn lemma_empty_quotes(home: Option<Seq<char>>)
    ensures
        env_value("\""@ + Seq::<char>::empty() + "\""@, home) == Seq::<char>::empty(),
        no_feed("\""@),
{
    reveal_strlit("\"");
    reveal_strlit("$HOME");
    reveal_strlit("~");
    let s = "\""@ + Seq::<char>::empty() + "\""@;
    assert(s.len() == 2 && s[0] == '"' && s[1] == '"');
    trimming_stops(s);
    lemma_find_from_is(s, '"', 1, 1);
    assert(quoted_length(s) == 2);
    assert(comment_from(s, 2) == 2);
    assert(without_comment(s) == s);
    assert(s.subrange(1, 1) =~= Seq::<char>::empty());
}

proof fn lemma_opt_value(v: Option<Seq<char>>, home: Option<Seq<char>>)
    requires
        sets_opt(v, home),
    ensures
        no_feed(text_or_empty(v)),
        or_kept_opt(env_value(text_or_empty(v), home), None) == v,
{
    if v is None {
        lemma_digits_value(Seq::empty(), home);
    }
}

proof fn lemma_identity_value(v: Option<Seq<char>>, home: Option<Seq<char>>)
    requires
        match v {
            Some(s) => s.len() > 0 && no_feed(s) && env_value("\""@ + s + "\""@, home) == s,
            None => true,
        },
    ensures
        no_feed("\""@ + text_or_empty(v) + "\""@),
        or_kept_opt(
            env_value("\""@ + text_or_empty(v) + "\""@, home),
            None,
        ) == v,
{
    lemma_empty_quotes(home);
    reveal_strlit("\"");
}

/// The settings that are written are the settings that are read back, where each text reads back
/// from the line it is written on.
#[verifier::rlimit(60)]
pub proof fn settings_round_trip(c: ConfigView, home: Option<Seq<char>>)
    requires
        representable(c, home),
    ensures
        read_env(unlines(env_lines(c)), home) == Some(c),
{
    let d = default_config();
    let p0 = Seq::<Seq<char>>::empty();
    assert(after_text(p0, home) == d) by {
        reveal(after_text);
        assert(lines_of(unlines(p0)) =~= p0);
    }
    let head = "# Generated by `mox init` on "@ + c.host + ". Re-run `mox init` to regenerate."@;
    let p1 = p0.push(head);
    assert(after_text(p1, home) == d) by {
        lemma_comment_texts();
        reveal_strlit("");
        assert(no_feed(head) && head[0] == '#');
        lemma_comment_step(p0, head, home);
    }
    let p2 = p1.push("PVE_HOST="@ + c.host);
    let c2 = ConfigView { host: c.host, ..d };
    assert(after_text(p2, home) == c2) by {
        lemma_keys();
        lemma_entry_starts();
        lemma_entry_step(p1, "PVE_HOST"@, "PVE_HOST="@, c.host, home);
    }
    let p3 = p2.push("PVE_USER="@ + c.user);
    let c3 = ConfigView { user: c.user, ..c2 };
    assert(after_text(p3, home) == c3) by {
        lemma_keys();
        lemma_entry_starts();
        lemma_entry_step(p2, "PVE_USER"@, "PVE_USER="@, c.user, home);
    }
    let p4 = p3.push("PVE_SSH_PORT="@ + decimal(c.port as nat));
    let c4 = ConfigView { port: c.port, ..c3 };
    assert(after_text(p4, home) == c4) by {
        lemma_keys();
        lemma_entry_starts();
        lemma_number_value(c.port as nat, u16::MAX as int, d.port as int, home);
        lemma_entry_step(p3, "PVE_SSH_PORT"@, "PVE_SSH_PORT="@, decimal(c.port as nat), home);
    }
    let p5 = p4.push("PVE_IDENTITY_FILE="@ + ("\""@ + text_or_empty(c.identity_file) + "\""@));
    let c5 = ConfigView { identity_file: c.identity_file, ..c4 };
    assert(after_text(p5, home) == c5) by {
        lemma_keys();
        lemma_entry_starts();
        lemma_identity_value(c.identity_file, home);
        lemma_entry_step(p4, "PVE_IDENTITY_FILE"@, "PVE_IDENTITY_FILE="@, "\""@ + text_or_empty(c.identity_file) + "\""@, home);
    }
    let p6 = p5.push(""@);
    assert(after_text(p6, home) == c5) by {
        lemma_comment_texts();
        reveal_strlit("");
        lemma_comment_step(p5, ""@, home);
    }
    let p7 = p6.push("PVE_STORAGE="@ + c.storage);
    let c7 = ConfigView { storage: c.storage, ..c5 };
    assert(after_text(p7, home) == c7) by {
        lemma_keys();
        lemma_entry_starts();
        lemma_entry_step(p6, "PVE_STORAGE"@, "PVE_STORAGE="@, c.storage, home);
    }
    let p8 = p7.push("PVE_BRIDGE="@ + c.bridge);
    let c8 = ConfigView { bridge: c.bridge, ..c7 };
    assert(after_text(p8, home) == c8) by {
        lemma_keys();
        lemma_entry_starts();
        lemma_entry_step(p7, "PVE_BRIDGE"@, "PVE_BRIDGE="@, c.bridge, home);
    }
    let p9 = p8.push(""@);
    assert(after_text(p9, home) == c8) by {
        lemma_comment_texts();
        reveal_strlit("");
        lemma_comment_step(p8, ""@, home);
    }
    let p10 = p9.push("PVE_TEMPLATE_ID="@ + decimal(c.template_id as nat));
    let c10 = ConfigView { template_id: c.template_id, ..c8 };
    assert(after_text(p10, home) == c10) by {
        lemma_keys();
        lemma_entry_starts();
        lemma_number_value(c.template_id as nat, u32::MAX as int, d.template_id as int, home);
        lemma_entry_step(p9, "PVE_TEMPLATE_ID"@, "PVE_TEMPLATE_ID="@, decimal(c.template_id as nat), home);
    }
    let p11 = p10.push("PVE_TEMPLATE_NAME="@ + c.template_name);
    let c11 = ConfigView { template_name: c.template_name, ..c10 };
    assert(after_text(p11, home) == c11) by {
        lemma_keys();
        lemma_entry_starts();
        lemma_entry_step(p10, "PVE_TEMPLATE_NAME"@, "PVE_TEMPLATE_NAME="@, c.template_name, home);
    }
    let p12 = p11.push("PVE_IMAGE_URL="@ + c.image_url);
    let c12 = ConfigView { image_url: c.image_url, ..c11 };
    assert(after_text(p12, home) == c12) by {
        lemma_keys();
        lemma_entry_starts();
        lemma_entry_step(p11, "PVE_IMAGE_URL"@, "PVE_IMAGE_URL="@, c.image_url, home);
    }
    let p13 = p12.push("PVE_CPU_TYPE="@ + c.cpu_type);
    let c13 = ConfigView { cpu_type: c.cpu_type, ..c12 };
    assert(after_text(p13, home) == c13) by {
        lemma_keys();
        lemma_entry_starts();
        lemma_entry_step(p12, "PVE_CPU_TYPE"@, "PVE_CPU_TYPE="@, c.cpu_type, home);
    }
    let p14 = p13.push("PVE_CI_USER="@ + c.ci_user);
    let c14 = ConfigView { ci_user: c.ci_user, ..c13 };
    assert(after_text(p14, home) == c14) by {
        lemma_keys();
        lemma_entry_starts();
        lemma_entry_step(p13, "PVE_CI_USER"@, "PVE_CI_USER="@, c.ci_user, home);
    }
    let p15 = p14.push(""@);
    assert(after_text(p15, home) == c14) by {
        lemma_comment_texts();
        reveal_strlit("");
        lemma_comment_step(p14, ""@, home);
    }
    let p16 = p15.push("PVE_DEFAULT_CORES="@ + decimal(c.default_cores as nat));
    let c16 = ConfigView { default_cores: c.default_cores, ..c14 };
    assert(after_text(p16, home) == c16) by {
        lemma_keys();
        lemma_entry_starts();
        lemma_number_value(c.default_cores as nat, u32::MAX as int, d.default_cores as int, home);
        lemma_entry_step(p15, "PVE_DEFAULT_CORES"@, "PVE_DEFAULT_CORES="@, decimal(c.default_cores as nat), home);
    }
    let p17 = p16.push("PVE_DEFAULT_MEMORY="@ + decimal(c.default_memory as nat));
    let c17 = ConfigView { default_memory: c.default_memory, ..c16 };
    assert(after_text(p17, home) == c17) by {
        lemma_keys();
        lemma_entry_starts();
        lemma_number_value(c.default_memory as nat, u32::MAX as int, d.default_memory as int, home);
        lemma_entry_step(p16, "PVE_DEFAULT_MEMORY"@, "PVE_DEFAULT_MEMORY="@, decimal(c.default_memory as nat), home);
    }
    let p18 = p17.push("PVE_DEFAULT_DISK="@ + decimal(c.default_disk as nat));
    let c18 = ConfigView { default_disk: c.default_disk, ..c17 };
    assert(after_text(p18, home) == c18) by {
        lemma_keys();
        lemma_entry_starts();
        lemma_number_value(c.default_disk as nat, u32::MAX as int, d.default_disk as int, home);
        lemma_entry_step(p17, "PVE_DEFAULT_DISK"@, "PVE_DEFAULT_DISK="@, decimal(c.default_disk as nat), home);
    }
    let p19 = p18.push("PVE_DEFAULT_FULL_CLONE="@ + flag(c.default_full_clone));
    let c19 = ConfigView { default_full_clone: c.default_full_clone, ..c18 };
    assert(after_text(p19, home) == c19) by {
        lemma_keys();
        lemma_entry_starts();
        lemma_flag_value(c.default_full_clone, home);
        lemma_entry_step(p18, "PVE_DEFAULT_FULL_CLONE"@, "PVE_DEFAULT_FULL_CLONE="@, flag(c.default_full_clone), home);
    }
    let p20 = p19.push(""@);
    assert(after_text(p20, home) == c19) by {
        lemma_comment_texts();
        reveal_strlit("");
        lemma_comment_step(p19, ""@, home);
    }
    let p21 = p20.push("# Extra packages baked into the template (comma-separated); the"@);
    assert(after_text(p21, home) == c19) by {
        lemma_comment_texts();
        reveal_strlit("");
        lemma_comment_step(p20, "# Extra packages baked into the template (comma-separated); the"@, home);
    }
    let p22 = p21.push("# qemu-guest-agent + tailscale floor is always installed."@);
    assert(after_text(p22, home) == c19) by {
        lemma_comment_texts();
        reveal_strlit("");
        lemma_comment_step(p21, "# qemu-guest-agent + tailscale floor is always installed."@, home);
    }
    let p23 = p22.push("PVE_TEMPLATE_PACKAGES="@ + c.template_packages);
    let c23 = ConfigView { template_packages: c.template_packages, ..c19 };
    assert(after_text(p23, home) == c23) by {
        lemma_keys();
        lemma_entry_starts();
        lemma_entry_step(p22, "PVE_TEMPLATE_PACKAGES"@, "PVE_TEMPLATE_PACKAGES="@, c.template_packages, home);
    }
    let p24 = p23.push(""@);
    assert(after_text(p24, home) == c23) by {
        lemma_comment_texts();
        reveal_strlit("");
        lemma_comment_step(p23, ""@, home);
    }
    let p25 = p24.push("# Whether new VMs join the tailnet by default (1) or not (0)."@);
    assert(after_text(p25, home) == c23) by {
        lemma_comment_texts();
        reveal_strlit("");
        lemma_comment_step(p24, "# Whether new VMs join the tailnet by default (1) or not (0)."@, home);
    }
    let p26 = p25.push("PVE_TAILSCALE_DEFAULT="@ + flag(c.tailscale_default));
    let c26 = ConfigView { tailscale_default: c.tailscale_default, ..c23 };
    assert(after_text(p26, home) == c26) by {
        lemma_keys();
        lemma_entry_starts();
        lemma_flag_value(c.tailscale_default, home);
        lemma_entry_step(p25, "PVE_TAILSCALE_DEFAULT"@, "PVE_TAILSCALE_DEFAULT="@, flag(c.tailscale_default), home);
    }
    let p27 = p26.push("PVE_TAILSCALE_AUTHKEY="@ + text_or_empty(c.tailscale_authkey));
    let c27 = ConfigView { tailscale_authkey: c.tailscale_authkey, ..c26 };
    assert(after_text(p27, home) == c27) by {
        lemma_keys();
        lemma_entry_starts();
        lemma_opt_value(c.tailscale_authkey, home);
        lemma_entry_step(p26, "PVE_TAILSCALE_AUTHKEY"@, "PVE_TAILSCALE_AUTHKEY="@, text_or_empty(c.tailscale_authkey), home);
    }
    let p28 = p27.push("PVE_TAILNET_DOMAIN="@ + text_or_empty(c.tailnet_domain));
    let c28 = ConfigView { tailnet_domain: c.tailnet_domain, ..c27 };
    assert(after_text(p28, home) == c28) by {
        lemma_keys();
        lemma_entry_starts();
        lemma_opt_value(c.tailnet_domain, home);
        lemma_entry_step(p27, "PVE_TAILNET_DOMAIN"@, "PVE_TAILNET_DOMAIN="@, text_or_empty(c.tailnet_domain), home);
    }
    let p29 = p28.push(""@);
    assert(after_text(p29, home) == c28) by {
        lemma_comment_texts();
        reveal_strlit("");
        lemma_comment_step(p28, ""@, home);
    }
    let p30 = p29.push("# Subnet of DHCP VMs, for the ~/.ssh/config subnet block."@);
    assert(after_text(p30, home) == c28) by {
        lemma_comment_texts();
        reveal_strlit("");
        lemma_comment_step(p29, "# Subnet of DHCP VMs, for the ~/.ssh/config subnet block."@, home);
    }
    let p31 = p30.push("PVE_VM_SUBNET="@ + text_or_empty(c.vm_subnet));
    let c31 = ConfigView { vm_subnet: c.vm_subnet, ..c28 };
    assert(after_text(p31, home) == c31) by {
        lemma_keys();
        lemma_entry_starts();
        lemma_opt_value(c.vm_subnet, home);
        lemma_entry_step(p30, "PVE_VM_SUBNET"@, "PVE_VM_SUBNET="@, text_or_empty(c.vm_subnet), home);
    }
    let p32 = p31.push(""@);
    assert(after_text(p32, home) == c31) by {
        lemma_comment_texts();
        reveal_strlit("");
        lemma_comment_step(p31, ""@, home);
    }
    let p33 = p32.push("# Seconds to wait for an IP at create time."@);
    assert(after_text(p33, home) == c31) by {
        lemma_comment_texts();
        reveal_strlit("");
        lemma_comment_step(p32, "# Seconds to wait for an IP at create time."@, home);
    }
    let p34 = p33.push("PVE_IP_TIMEOUT="@ + decimal(c.ip_timeout as nat));
    let c34 = ConfigView { ip_timeout: c.ip_timeout, ..c31 };
    assert(after_text(p34, home) == c34) by {
        lemma_keys();
        lemma_entry_starts();
        lemma_number_value(c.ip_timeout as nat, u64::MAX as int, d.ip_timeout as int, home);
        lemma_entry_step(p33, "PVE_IP_TIMEOUT"@, "PVE_IP_TIMEOUT="@, decimal(c.ip_timeout as nat), home);
    }
    assert(p34 =~= env_lines(c));
    assert(c34 =~= c);
    reveal(after_text);
}

/// A text that says nothing about the home directory.
pub open spec fn names_no_home(v: Seq<char>) -> bool {
    !starts_with(v, "$HOME"@) && !starts_with(v, "~"@)
}

/// A text reads back as itself where it is one line without white space at its ends, starts with
/// no quote, holds no ` #` and does not start with the home directory's signs.
pub proof fn plain_values_read_back(v: Seq<char>, home: Option<Seq<char>>)
    requires
        no_feed(v),
        is_trimmed(v),
        v.len() > 0 ==> v[0] != '"' && v[0] != '\'',
        comment_from(v, 0) == v.len(),
        names_no_home(v),
    ensures
        reads_back(v, home),
{
    trimming_stops(v);
    assert(without_comment(v) == v);
    assert(without_quotes(v) == v);
}

/// A text between double quotes stands for itself where it holds none and does not start with the
/// home directory's signs, also where it holds ` #` or has white space at its ends.
pub proof fn quoted_values_stand_for_themselves(v: Seq<char>, home: Option<Seq<char>>)
    requires
        forall|i: int| 0 <= i < v.len() ==> v[i] != '"',
        names_no_home(v),
    ensures
        env_value("\""@ + v + "\""@, home) == v,
{
    reveal_strlit("\"");
    let s = "\""@ + v + "\""@;
    let n = v.len() as int;
    assert(s.len() == n + 2 && s[0] == '"' && s[n + 1] == '"');
    assert forall|j: int| 1 <= j < n + 1 implies s[j] != '"' by {
        assert(s[j] == v[j - 1]);
    }
    trimming_stops(s);
    lemma_find_from_is(s, '"', 1, n + 1);
    assert(quoted_length(s) == n + 2);
    assert(comment_from(s, n + 2) == s.len());
    assert(without_comment(s) == s);
    assert(s.subrange(1, n + 1) =~= v);
}

/// A comment behind a value, set off by a space, does not change what the value stands for. A
/// value that starts with a quote has to close it.
pub proof fn comments_do_not_count(v: Seq<char>, note: Seq<char>, home: Option<Seq<char>>)
    requires
        v.len() > 0,
        is_trimmed(v),
        v[0] == '"' || v[0] == '\'' ==> quoted_length(v) > 0,
        comment_from(v, quoted_length(v)) == v.len(),
    ensures
        env_value(v + " #"@ + note, home) == env_value(v, home),
{
    reveal_strlit(" #");
    let s = v + " #"@ + note;
    let n = v.len() as int;
    trimming_stops(v);
    // What is left of the text once white space is gone from its ends.
    let t = trimmed(s);
    assert(s[0] == v[0]);
    assert(s[n] == ' ' && s[n + 1] == '#');
    assert(!is_white_space(s[n + 1]));
    let (a, b) = lemma_trimmed_bounds(s);
    lemma_trimmed_is(s, a, b);
    assert(a == 0);
    assert(b > n + 1);
    assert(t == s.subrange(0, b));
    assert forall|j: int| 0 <= j <= n + 1 implies t[j] == s[j] by {}
    lemma_find_from(v, v[0], 1);
    if v[0] == '"' || v[0] == '\'' {
        let k = find_from(v, v[0], 1);
        assert forall|j: int| 1 <= j < k implies t[j] != v[0] by {
            assert(t[j] == v[j]);
        }
        lemma_find_from_is(t, v[0], 1, k);
    }
    assert(quoted_length(t) == quoted_length(v));
    lemma_comment_at(v, t, quoted_length(v));
    assert(t.take(n) =~= v);
    lemma_trimmed_is(v, 0, n);
    assert(v.take(n) =~= v);
    assert(without_comment(t) == v);
    assert(without_comment(v) == v);
}

/// The comment of a longer text starts where a shorter one without a comment ends.
proof fn lemma_comment_at(v: Seq<char>, t: Seq<char>, from: int)
    requires
        0 <= from <= v.len(),
        v.len() > 0,
        t.len() >= v.len() + 2,
        forall|j: int| 0 <= j < v.len() ==> t[j] == v[j],
        !is_white_space(v.last()),
        t[v.len() as int] == ' ',
        t[v.len() as int + 1] == '#',
        comment_from(v, from) == v.len(),
    ensures
        comment_from(t, from) == v.len(),
    decreases v.len() - from,
{
    let n = v.len() as int;
    if from < n {
        if from + 1 < n {
            assert(t[from] == v[from] && t[from + 1] == v[from + 1]);
            lemma_comment_at(v, t, from + 1);
        } else {
            assert(t[from] == v.last());
            assert(comment_from(v, n) == n);
            lemma_comment_at(v, t, n);
        }
    }
}

// ---------------------------------------------------------------------------------------------
// What each line of a file says.
/// A text that stands for itself behind an equals sign: one line without white space at its ends
/// and without a hash sign, which starts neither with a quote nor with a sign for the home
/// directory.
pub open spec fn is_plain_value(v: Seq<char>) -> bool {
    &&& v.len() > 0
    &&& is_trimmed(v)
    &&& forall|i: int| 0 <= i < v.len() ==> v[i] != '#' && v[i] != '\n'
    &&& v[0] != '"' && v[0] != '\'' && v[0] != '~' && v[0] != '$'
}

proof fn lemma_plain_value(v: Seq<char>, home: Option<Seq<char>>)
    requires
        is_plain_value(v),
    ensures
        env_value(v, home) == v,
        no_feed(v),
{
    reveal_strlit("$HOME");
    reveal_strlit("~");
    trimming_stops(v);
    lemma_no_comment(v, 0);
    if starts_with(v, "$HOME"@) {
        assert(v.take(5)[0] == v[0]);
        assert("$HOME"@[0] == '$');
    }
    if starts_with(v, "~"@) {
        assert(v.take(1)[0] == v[0]);
        assert("~"@[0] == '~');
    }
}

/// A line `KEY=value` sets the text that its key names, and nothing else.
pub proof fn a_text_is_set_by_its_line(
    c: ConfigView,
    v: Seq<char>,
    home: Option<Seq<char>>,
)
    requires
        is_plain_value(v),
    ensures
        after_line(c, "PVE_HOST="@ + v, home) == (ConfigView { host: v, ..c }),
        after_line(c, "PVE_USER="@ + v, home) == (ConfigView { user: v, ..c }),
        after_line(c, "PVE_BRIDGE="@ + v, home) == (ConfigView { bridge: v, ..c }),
        after_line(c, "PVE_TEMPLATE_NAME="@ + v, home) == (ConfigView { template_name: v, ..c }),
        after_line(c, "PVE_IMAGE_URL="@ + v, home) == (ConfigView { image_url: v, ..c }),
        after_line(c, "PVE_STORAGE="@ + v, home) == (ConfigView { storage: v, ..c }),
        after_line(c, "PVE_CPU_TYPE="@ + v, home) == (ConfigView { cpu_type: v, ..c }),
        after_line(c, "PVE_TEMPLATE_PACKAGES="@ + v, home) == (ConfigView { template_packages: v, ..c }),
        after_line(c, "PVE_CI_USER="@ + v, home) == (ConfigView { ci_user: v, ..c }),
        after_line(c, "PVE_IDENTITY_FILE="@ + v, home) == (ConfigView { identity_file: Some(v), ..c }),
        after_line(c, "PVE_TAILSCALE_AUTHKEY="@ + v, home) == (ConfigView { tailscale_authkey: Some(v), ..c }),
        after_line(c, "PVE_TAILNET_DOMAIN="@ + v, home) == (ConfigView { tailnet_domain: Some(v), ..c }),
        after_line(c, "PVE_VM_SUBNET="@ + v, home) == (ConfigView { vm_subnet: Some(v), ..c }),
{
    lemma_keys();
    lemma_entry_starts();
    lemma_plain_value(v, home);
    lemma_entry(c, "PVE_HOST"@, v, home);
    lemma_entry(c, "PVE_USER"@, v, home);
    lemma_entry(c, "PVE_BRIDGE"@, v, home);
    lemma_entry(c, "PVE_TEMPLATE_NAME"@, v, home);
    lemma_entry(c, "PVE_IMAGE_URL"@, v, home);
    lemma_entry(c, "PVE_STORAGE"@, v, home);
    lemma_entry(c, "PVE_CPU_TYPE"@, v, home);
    lemma_entry(c, "PVE_TEMPLATE_PACKAGES"@, v, home);
    lemma_entry(c, "PVE_CI_USER"@, v, home);
    lemma_entry(c, "PVE_IDENTITY_FILE"@, v, home);
    lemma_entry(c, "PVE_TAILSCALE_AUTHKEY"@, v, home);
    lemma_entry(c, "PVE_TAILNET_DOMAIN"@, v, home);
    lemma_entry(c, "PVE_VM_SUBNET"@, v, home);
}

/// A line `KEY=number` sets the number that its key names, and nothing else.
pub proof fn a_number_is_set_by_its_line(
    c: ConfigView,
    port: u16,
    n: u32,
    t: u64,
    home: Option<Seq<char>>,
)
    ensures
        after_line(c, "PVE_SSH_PORT="@ + decimal(port as nat), home) == (ConfigView { port: port, ..c }),
        after_line(c, "PVE_TEMPLATE_ID="@ + decimal(n as nat), home) == (ConfigView { template_id: n, ..c }),
        after_line(c, "PVE_DEFAULT_CORES="@ + decimal(n as nat), home) == (ConfigView { default_cores: n, ..c }),
        after_line(c, "PVE_DEFAULT_MEMORY="@ + decimal(n as nat), home) == (ConfigView { default_memory: n, ..c }),
        after_line(c, "PVE_DEFAULT_DISK="@ + decimal(n as nat), home) == (ConfigView { default_disk: n, ..c }),
        after_line(c, "PVE_IP_TIMEOUT="@ + decimal(t as nat), home) == (ConfigView { ip_timeout: t, ..c }),
{
    lemma_keys();
    lemma_entry_starts();
    lemma_number_value(port as nat, u16::MAX as int, c.port as int, home);
    lemma_number_value(n as nat, u32::MAX as int, c.template_id as int, home);
    lemma_number_value(n as nat, u32::MAX as int, c.default_cores as int, home);
    lemma_number_value(n as nat, u32::MAX as int, c.default_memory as int, home);
    lemma_number_value(n as nat, u32::MAX as int, c.default_disk as int, home);
    lemma_number_value(t as nat, u64::MAX as int, c.ip_timeout as int, home);
    lemma_entry(c, "PVE_SSH_PORT"@, decimal(port as nat), home);
    lemma_entry(c, "PVE_TEMPLATE_ID"@, decimal(n as nat), home);
    lemma_entry(c, "PVE_DEFAULT_CORES"@, decimal(n as nat), home);
    lemma_entry(c, "PVE_DEFAULT_MEMORY"@, decimal(n as nat), home);
    lemma_entry(c, "PVE_DEFAULT_DISK"@, decimal(n as nat), home);
    lemma_entry(c, "PVE_IP_TIMEOUT"@, decimal(t as nat), home);
}

/// What is no number leaves the number that its key names as it was, and so does one that is too
/// large.
pub proof fn what_is_no_number_sets_nothing(c: ConfigView, v: Seq<char>, home: Option<Seq<char>>)
    requires
        is_plain_value(v),
    ensures
        read_uint(v, u16::MAX as int) is None ==> after_line(c, "PVE_SSH_PORT="@ + v, home) == c,
        read_uint(v, u32::MAX as int) is None ==> after_line(c, "PVE_TEMPLATE_ID="@ + v, home) == c,
        read_uint(v, u32::MAX as int) is None ==> after_line(c, "PVE_DEFAULT_CORES="@ + v, home) == c,
        read_uint(v, u32::MAX as int) is None ==> after_line(c, "PVE_DEFAULT_MEMORY="@ + v, home) == c,
        read_uint(v, u32::MAX as int) is None ==> after_line(c, "PVE_DEFAULT_DISK="@ + v, home) == c,
        read_uint(v, u64::MAX as int) is None ==> after_line(c, "PVE_IP_TIMEOUT="@ + v, home) == c,
{
    lemma_keys();
    lemma_entry_starts();
    lemma_plain_value(v, home);
    lemma_entry(c, "PVE_SSH_PORT"@, v, home);
    lemma_entry(c, "PVE_TEMPLATE_ID"@, v, home);
    lemma_entry(c, "PVE_DEFAULT_CORES"@, v, home);
    lemma_entry(c, "PVE_DEFAULT_MEMORY"@, v, home);
    lemma_entry(c, "PVE_DEFAULT_DISK"@, v, home);
    lemma_entry(c, "PVE_IP_TIMEOUT"@, v, home);
}

/// A switch is on for `1` alone, and off for anything else.
pub proof fn a_switch_is_on_for_one_alone(c: ConfigView, v: Seq<char>, home: Option<Seq<char>>)
    requires
        is_plain_value(v),
    ensures
        after_line(c, "PVE_DEFAULT_FULL_CLONE="@ + v, home) == (ConfigView { default_full_clone: v == "1"@, ..c }),
        after_line(c, "PVE_TAILSCALE_DEFAULT="@ + v, home) == (ConfigView { tailscale_default: v == "1"@, ..c }),
{
    lemma_keys();
    lemma_entry_starts();
    lemma_plain_value(v, home);
    lemma_entry(c, "PVE_DEFAULT_FULL_CLONE"@, v, home);
    lemma_entry(c, "PVE_TAILSCALE_DEFAULT"@, v, home);
}

/// A key with nothing behind its equals sign leaves its setting as it was, but for the extra
/// packages, of which there are then none, and the switches, which are then off.
pub proof fn an_empty_value_sets_nothing(c: ConfigView, home: Option<Seq<char>>)
    ensures
        after_line(c, "PVE_HOST="@, home) == c,
        after_line(c, "PVE_USER="@, home) == c,
        after_line(c, "PVE_BRIDGE="@, home) == c,
        after_line(c, "PVE_TEMPLATE_NAME="@, home) == c,
        after_line(c, "PVE_IMAGE_URL="@, home) == c,
        after_line(c, "PVE_STORAGE="@, home) == c,
        after_line(c, "PVE_CPU_TYPE="@, home) == c,
        after_line(c, "PVE_TEMPLATE_PACKAGES="@, home) == (ConfigView { template_packages: Seq::empty(), ..c }),
        after_line(c, "PVE_CI_USER="@, home) == c,
        after_line(c, "PVE_IDENTITY_FILE="@, home) == c,
        after_line(c, "PVE_TAILSCALE_AUTHKEY="@, home) == c,
        after_line(c, "PVE_TAILNET_DOMAIN="@, home) == c,
        after_line(c, "PVE_VM_SUBNET="@, home) == c,
        after_line(c, "PVE_SSH_PORT="@, home) == c,
        after_line(c, "PVE_TEMPLATE_ID="@, home) == c,
        after_line(c, "PVE_DEFAULT_CORES="@, home) == c,
        after_line(c, "PVE_DEFAULT_MEMORY="@, home) == c,
        after_line(c, "PVE_DEFAULT_DISK="@, home) == c,
        after_line(c, "PVE_IP_TIMEOUT="@, home) == c,
        after_line(c, "PVE_DEFAULT_FULL_CLONE="@, home) == (ConfigView { default_full_clone: false, ..c }),
        after_line(c, "PVE_TAILSCALE_DEFAULT="@, home) == (ConfigView { tailscale_default: false, ..c }),
{
    let none = Seq::<char>::empty();
    lemma_keys();
    lemma_entry_starts();
    lemma_digits_value(none, home);
    reveal_strlit("1");
    assert("1"@.len() == 1);
    assert("PVE_HOST"@.push('=') + none =~= "PVE_HOST="@);
    lemma_entry(c, "PVE_HOST"@, none, home);
    assert("PVE_USER"@.push('=') + none =~= "PVE_USER="@);
    lemma_entry(c, "PVE_USER"@, none, home);
    assert("PVE_BRIDGE"@.push('=') + none =~= "PVE_BRIDGE="@);
    lemma_entry(c, "PVE_BRIDGE"@, none, home);
    assert("PVE_TEMPLATE_NAME"@.push('=') + none =~= "PVE_TEMPLATE_NAME="@);
    lemma_entry(c, "PVE_TEMPLATE_NAME"@, none, home);
    assert("PVE_IMAGE_URL"@.push('=') + none =~= "PVE_IMAGE_URL="@);
    lemma_entry(c, "PVE_IMAGE_URL"@, none, home);
    assert("PVE_STORAGE"@.push('=') + none =~= "PVE_STORAGE="@);
    lemma_entry(c, "PVE_STORAGE"@, none, home);
    assert("PVE_CPU_TYPE"@.push('=') + none =~= "PVE_CPU_TYPE="@);
    lemma_entry(c, "PVE_CPU_TYPE"@, none, home);
    assert("PVE_TEMPLATE_PACKAGES"@.push('=') + none =~= "PVE_TEMPLATE_PACKAGES="@);
    lemma_entry(c, "PVE_TEMPLATE_PACKAGES"@, none, home);
    assert("PVE_CI_USER"@.push('=') + none =~= "PVE_CI_USER="@);
    lemma_entry(c, "PVE_CI_USER"@, none, home);
    assert("PVE_IDENTITY_FILE"@.push('=') + none =~= "PVE_IDENTITY_FILE="@);
    lemma_entry(c, "PVE_IDENTITY_FILE"@, none, home);
    assert("PVE_TAILSCALE_AUTHKEY"@.push('=') + none =~= "PVE_TAILSCALE_AUTHKEY="@);
    lemma_entry(c, "PVE_TAILSCALE_AUTHKEY"@, none, home);
    assert("PVE_TAILNET_DOMAIN"@.push('=') + none =~= "PVE_TAILNET_DOMAIN="@);
    lemma_entry(c, "PVE_TAILNET_DOMAIN"@, none, home);
    assert("PVE_VM_SUBNET"@.push('=') + none =~= "PVE_VM_SUBNET="@);
    lemma_entry(c, "PVE_VM_SUBNET"@, none, home);
    assert("PVE_SSH_PORT"@.push('=') + none =~= "PVE_SSH_PORT="@);
    lemma_entry(c, "PVE_SSH_PORT"@, none, home);
    assert("PVE_TEMPLATE_ID"@.push('=') + none =~= "PVE_TEMPLATE_ID="@);
    lemma_entry(c, "PVE_TEMPLATE_ID"@, none, home);
    assert("PVE_DEFAULT_CORES"@.push('=') + none =~= "PVE_DEFAULT_CORES="@);
    lemma_entry(c, "PVE_DEFAULT_CORES"@, none, home);
    assert("PVE_DEFAULT_MEMORY"@.push('=') + none =~= "PVE_DEFAULT_MEMORY="@);
    lemma_entry(c, "PVE_DEFAULT_MEMORY"@, none, home);
    assert("PVE_DEFAULT_DISK"@.push('=') + none =~= "PVE_DEFAULT_DISK="@);
    lemma_entry(c, "PVE_DEFAULT_DISK"@, none, home);
    assert("PVE_IP_TIMEOUT"@.push('=') + none =~= "PVE_IP_TIMEOUT="@);
    lemma_entry(c, "PVE_IP_TIMEOUT"@, none, home);
    assert("PVE_DEFAULT_FULL_CLONE"@.push('=') + none =~= "PVE_DEFAULT_FULL_CLONE="@);
    lemma_entry(c, "PVE_DEFAULT_FULL_CLONE"@, none, home);
    assert("PVE_TAILSCALE_DEFAULT"@.push('=') + none =~= "PVE_TAILSCALE_DEFAULT="@);
    lemma_entry(c, "PVE_TAILSCALE_DEFAULT"@, none, home);
}

/// What a file says that sets the host alone.
proof fn lemma_host_file(h: Seq<char>, home: Option<Seq<char>>)
    requires
        is_plain_value(h),
    ensures
        after_text(seq!["PVE_HOST="@ + h], home) == (ConfigView { host: h, ..default_config() }),
{
    let p0 = Seq::<Seq<char>>::empty();
    assert(after_text(p0, home) == default_config()) by {
        reveal(after_text);
        assert(lines_of(unlines(p0)) =~= p0);
    }
    lemma_keys();
    lemma_entry_starts();
    lemma_plain_value(h, home);
    lemma_entry_step(p0, "PVE_HOST"@, "PVE_HOST="@, h, home);
    assert(p0.push("PVE_HOST="@ + h) =~= seq!["PVE_HOST="@ + h]);
}

/// Whoever sets the host alone gets the built-in settings for all else.
pub proof fn a_host_is_enough(h: Seq<char>, home: Option<Seq<char>>)
    requires
        is_plain_value(h),
    ensures
        read_env(unlines(seq!["PVE_HOST="@ + h]), home) matches Some(c) && {
            &&& c.host == h
            &&& c.user == "root"@
            &&& c.port == 22
            &&& c.identity_file is None
            &&& c.template_id == 9000
            &&& c.bridge == "vmbr0"@
            &&& c.template_name == "ubuntu-2404-cloudinit"@
            &&& c.image_url
                == "https://cloud-images.ubuntu.com/noble/current/noble-server-cloudimg-amd64.img"@
            &&& c.storage == "local-lvm"@
            &&& c.cpu_type == "host"@
            &&& c.template_packages.len() == 0
            &&& c.default_cores == 2
            &&& c.default_memory == 4096
            &&& c.default_disk == 20
            &&& !c.default_full_clone
            &&& c.ci_user == "ubuntu"@
            &&& !c.tailscale_default
            &&& c.tailscale_authkey is None
            &&& c.tailnet_domain is None
            &&& c.ip_timeout == 120
            &&& c.vm_subnet is None
        },
{
    lemma_host_file(h, home);
    reveal(after_text);
}

/// Without a line that sets the host, whatever else is set, there are no settings.
pub proof fn a_host_has_to_be_set(v: Seq<char>, home: Option<Seq<char>>)
    requires
        is_plain_value(v),
    ensures
        read_env(Seq::empty(), home) is None,
        read_env(unlines(seq!["PVE_USER="@ + v]), home) is None,
{
    let p0 = Seq::<Seq<char>>::empty();
    assert(after_text(p0, home) == default_config()) by {
        reveal(after_text);
        assert(lines_of(unlines(p0)) =~= p0);
    }
    lemma_keys();
    lemma_entry_starts();
    lemma_plain_value(v, home);
    lemma_entry_step(p0, "PVE_USER"@, "PVE_USER="@, v, home);
    assert(p0.push("PVE_USER="@ + v) =~= seq!["PVE_USER="@ + v]);
    reveal(after_text);
    assert(unlines(p0) =~= Seq::<char>::empty());
    assert(lines_of(Seq::<char>::empty()) =~= p0);
}

/// A file that sets the host and one other text is read into settings with that host and that
/// text, each in the field of its key, and all others as they are built in.
pub proof fn a_file_sets_what_its_keys_name(h: Seq<char>, v: Seq<char>, home: Option<Seq<char>>)
    requires
        is_plain_value(h),
        is_plain_value(v),
    ensures
        read_env(unlines(seq!["PVE_HOST="@ + h, "PVE_USER="@ + v]), home) == Some(
            ConfigView { host: h, user: v, ..default_config() },
        ),
        read_env(unlines(seq!["PVE_HOST="@ + h, "PVE_BRIDGE="@ + v]), home) == Some(
            ConfigView { host: h, bridge: v, ..default_config() },
        ),
        read_env(unlines(seq!["PVE_HOST="@ + h, "PVE_TEMPLATE_NAME="@ + v]), home) == Some(
            ConfigView { host: h, template_name: v, ..default_config() },
        ),
        read_env(unlines(seq!["PVE_HOST="@ + h, "PVE_IMAGE_URL="@ + v]), home) == Some(
            ConfigView { host: h, image_url: v, ..default_config() },
        ),
        read_env(unlines(seq!["PVE_HOST="@ + h, "PVE_STORAGE="@ + v]), home) == Some(
            ConfigView { host: h, storage: v, ..default_config() },
        ),
        read_env(unlines(seq!["PVE_HOST="@ + h, "PVE_CPU_TYPE="@ + v]), home) == Some(
            ConfigView { host: h, cpu_type: v, ..default_config() },
        ),
        read_env(unlines(seq!["PVE_HOST="@ + h, "PVE_TEMPLATE_PACKAGES="@ + v]), home) == Some(
            ConfigView { host: h, template_packages: v, ..default_config() },
        ),
        read_env(unlines(seq!["PVE_HOST="@ + h, "PVE_CI_USER="@ + v]), home) == Some(
            ConfigView { host: h, ci_user: v, ..default_config() },
        ),
        read_env(unlines(seq!["PVE_HOST="@ + h, "PVE_IDENTITY_FILE="@ + v]), home) == Some(
            ConfigView { host: h, identity_file: Some(v), ..default_config() },
        ),
        read_env(unlines(seq!["PVE_HOST="@ + h, "PVE_TAILSCALE_AUTHKEY="@ + v]), home) == Some(
            ConfigView { host: h, tailscale_authkey: Some(v), ..default_config() },
        ),
        read_env(unlines(seq!["PVE_HOST="@ + h, "PVE_TAILNET_DOMAIN="@ + v]), home) == Some(
            ConfigView { host: h, tailnet_domain: Some(v), ..default_config() },
        ),
        read_env(unlines(seq!["PVE_HOST="@ + h, "PVE_VM_SUBNET="@ + v]), home) == Some(
            ConfigView { host: h, vm_subnet: Some(v), ..default_config() },
        ),
{
    lemma_plain_value(v, home);
    let host = "PVE_HOST="@ + h;
    lemma_host_file(h, home);
    assert(read_env(unlines(seq![host, "PVE_USER="@ + v]), home) == Some(
        ConfigView { host: h, user: v, ..default_config() },
    )) by {
        lemma_keys();
        lemma_entry_starts();
        lemma_entry_step(seq![host], "PVE_USER"@, "PVE_USER="@, v, home);
        assert(seq![host].push("PVE_USER="@ + v) =~= seq![host, "PVE_USER="@ + v]);
        reveal(after_text);
    }
    assert(read_env(unlines(seq![host, "PVE_BRIDGE="@ + v]), home) == Some(
        ConfigView { host: h, bridge: v, ..default_config() },
    )) by {
        lemma_keys();
        lemma_entry_starts();
        lemma_entry_step(seq![host], "PVE_BRIDGE"@, "PVE_BRIDGE="@, v, home);
        assert(seq![host].push("PVE_BRIDGE="@ + v) =~= seq![host, "PVE_BRIDGE="@ + v]);
        reveal(after_text);
    }
    assert(read_env(unlines(seq![host, "PVE_TEMPLATE_NAME="@ + v]), home) == Some(
        ConfigView { host: h, template_name: v, ..default_config() },
    )) by {
        lemma_keys();
        lemma_entry_starts();
        lemma_entry_step(seq![host], "PVE_TEMPLATE_NAME"@, "PVE_TEMPLATE_NAME="@, v, home);
        assert(seq![host].push("PVE_TEMPLATE_NAME="@ + v) =~= seq![host, "PVE_TEMPLATE_NAME="@ + v]);
        reveal(after_text);
    }
    assert(read_env(unlines(seq![host, "PVE_IMAGE_URL="@ + v]), home) == Some(
        ConfigView { host: h, image_url: v, ..default_config() },
    )) by {
        lemma_keys();
        lemma_entry_starts();
        lemma_entry_step(seq![host], "PVE_IMAGE_URL"@, "PVE_IMAGE_URL="@, v, home);
        assert(seq![host].push("PVE_IMAGE_URL="@ + v) =~= seq![host, "PVE_IMAGE_URL="@ + v]);
        reveal(after_text);
    }
    assert(read_env(unlines(seq![host, "PVE_STORAGE="@ + v]), home) == Some(
        ConfigView { host: h, storage: v, ..default_config() },
    )) by {
        lemma_keys();
        lemma_entry_starts();
        lemma_entry_step(seq![host], "PVE_STORAGE"@, "PVE_STORAGE="@, v, home);
        assert(seq![host].push("PVE_STORAGE="@ + v) =~= seq![host, "PVE_STORAGE="@ + v]);
        reveal(after_text);
    }
    assert(read_env(unlines(seq![host, "PVE_CPU_TYPE="@ + v]), home) == Some(
        ConfigView { host: h, cpu_type: v, ..default_config() },
    )) by {
        lemma_keys();
        lemma_entry_starts();
        lemma_entry_step(seq![host], "PVE_CPU_TYPE"@, "PVE_CPU_TYPE="@, v, home);
        assert(seq![host].push("PVE_CPU_TYPE="@ + v) =~= seq![host, "PVE_CPU_TYPE="@ + v]);
        reveal(after_text);
    }
    assert(read_env(unlines(seq![host, "PVE_TEMPLATE_PACKAGES="@ + v]), home) == Some(
        ConfigView { host: h, template_packages: v, ..default_config() },
    )) by {
        lemma_keys();
        lemma_entry_starts();
        lemma_entry_step(seq![host], "PVE_TEMPLATE_PACKAGES"@, "PVE_TEMPLATE_PACKAGES="@, v, home);
        assert(seq![host].push("PVE_TEMPLATE_PACKAGES="@ + v) =~= seq![host, "PVE_TEMPLATE_PACKAGES="@ + v]);
        reveal(after_text);
    }
    assert(read_env(unlines(seq![host, "PVE_CI_USER="@ + v]), home) == Some(
        ConfigView { host: h, ci_user: v, ..default_config() },
    )) by {
        lemma_keys();
        lemma_entry_starts();
        lemma_entry_step(seq![host], "PVE_CI_USER"@, "PVE_CI_USER="@, v, home);
        assert(seq![host].push("PVE_CI_USER="@ + v) =~= seq![host, "PVE_CI_USER="@ + v]);
        reveal(after_text);
    }
    assert(read_env(unlines(seq![host, "PVE_IDENTITY_FILE="@ + v]), home) == Some(
        ConfigView { host: h, identity_file: Some(v), ..default_config() },
    )) by {
        lemma_keys();
        lemma_entry_starts();
        lemma_entry_step(seq![host], "PVE_IDENTITY_FILE"@, "PVE_IDENTITY_FILE="@, v, home);
        assert(seq![host].push("PVE_IDENTITY_FILE="@ + v) =~= seq![host, "PVE_IDENTITY_FILE="@ + v]);
        reveal(after_text);
    }
    assert(read_env(unlines(seq![host, "PVE_TAILSCALE_AUTHKEY="@ + v]), home) == Some(
        ConfigView { host: h, tailscale_authkey: Some(v), ..default_config() },
    )) by {
        lemma_keys();
        lemma_entry_starts();
        lemma_entry_step(seq![host], "PVE_TAILSCALE_AUTHKEY"@, "PVE_TAILSCALE_AUTHKEY="@, v, home);
        assert(seq![host].push("PVE_TAILSCALE_AUTHKEY="@ + v) =~= seq![host, "PVE_TAILSCALE_AUTHKEY="@ + v]);
        reveal(after_text);
    }
    assert(read_env(unlines(seq![host, "PVE_TAILNET_DOMAIN="@ + v]), home) == Some(
        ConfigView { host: h, tailnet_domain: Some(v), ..default_config() },
    )) by {
        lemma_keys();
        lemma_entry_starts();
        lemma_entry_step(seq![host], "PVE_TAILNET_DOMAIN"@, "PVE_TAILNET_DOMAIN="@, v, home);
        assert(seq![host].push("PVE_TAILNET_DOMAIN="@ + v) =~= seq![host, "PVE_TAILNET_DOMAIN="@ + v]);
        reveal(after_text);
    }
    assert(read_env(unlines(seq![host, "PVE_VM_SUBNET="@ + v]), home) == Some(
        ConfigView { host: h, vm_subnet: Some(v), ..default_config() },
    )) by {
        lemma_keys();
        lemma_entry_starts();
        lemma_entry_step(seq![host], "PVE_VM_SUBNET"@, "PVE_VM_SUBNET="@, v, home);
        assert(seq![host].push("PVE_VM_SUBNET="@ + v) =~= seq![host, "PVE_VM_SUBNET="@ + v]);
        reveal(after_text);
    }
}

/// A file that sets the host and one number or switch is read into settings with that host and
/// that number or switch, each in the field of its key, and all others as they are built in.
#[verifier::rlimit(40)]
pub proof fn a_file_sets_the_numbers_that_its_keys_name(
    h: Seq<char>,
    port: u16,
    n: u32,
    t: u64,
    on: bool,
    home: Option<Seq<char>>,
)
    requires
        is_plain_value(h),
    ensures
        read_env(unlines(seq!["PVE_HOST="@ + h, "PVE_SSH_PORT="@ + decimal(port as nat)]), home) == Some(
            ConfigView { host: h, port: port, ..default_config() },
        ),
        read_env(unlines(seq!["PVE_HOST="@ + h, "PVE_TEMPLATE_ID="@ + decimal(n as nat)]), home) == Some(
            ConfigView { host: h, template_id: n, ..default_config() },
        ),
        read_env(unlines(seq!["PVE_HOST="@ + h, "PVE_DEFAULT_CORES="@ + decimal(n as nat)]), home) == Some(
            ConfigView { host: h, default_cores: n, ..default_config() },
        ),
        read_env(unlines(seq!["PVE_HOST="@ + h, "PVE_DEFAULT_MEMORY="@ + decimal(n as nat)]), home) == Some(
            ConfigView { host: h, default_memory: n, ..default_config() },
        ),
        read_env(unlines(seq!["PVE_HOST="@ + h, "PVE_DEFAULT_DISK="@ + decimal(n as nat)]), home) == Some(
            ConfigView { host: h, default_disk: n, ..default_config() },
        ),
        read_env(unlines(seq!["PVE_HOST="@ + h, "PVE_IP_TIMEOUT="@ + decimal(t as nat)]), home) == Some(
            ConfigView { host: h, ip_timeout: t, ..default_config() },
        ),
        read_env(unlines(seq!["PVE_HOST="@ + h, "PVE_DEFAULT_FULL_CLONE="@ + (if on { "1"@ } else { "0"@ })]), home) == Some(
            ConfigView { host: h, default_full_clone: on, ..default_config() },
        ),
        read_env(unlines(seq!["PVE_HOST="@ + h, "PVE_TAILSCALE_DEFAULT="@ + (if on { "1"@ } else { "0"@ })]), home) == Some(
            ConfigView { host: h, tailscale_default: on, ..default_config() },
        ),
{
    let d = default_config();
    let host = "PVE_HOST="@ + h;
    lemma_host_file(h, home);
    assert(read_env(unlines(seq![host, "PVE_SSH_PORT="@ + decimal(port as nat)]), home) == Some(
        ConfigView { host: h, port: port, ..d },
    )) by {
        lemma_keys();
        lemma_entry_starts();
        lemma_number_value(port as nat, u16::MAX as int, d.port as int, home);
        lemma_entry_step(seq![host], "PVE_SSH_PORT"@, "PVE_SSH_PORT="@, decimal(port as nat), home);
        assert(seq![host].push("PVE_SSH_PORT="@ + decimal(port as nat)) =~= seq![host, "PVE_SSH_PORT="@ + decimal(port as nat)]);
        reveal(after_text);
    }
    assert(read_env(unlines(seq![host, "PVE_TEMPLATE_ID="@ + decimal(n as nat)]), home) == Some(
        ConfigView { host: h, template_id: n, ..d },
    )) by {
        lemma_keys();
        lemma_entry_starts();
        lemma_number_value(n as nat, u32::MAX as int, d.template_id as int, home);
        lemma_entry_step(seq![host], "PVE_TEMPLATE_ID"@, "PVE_TEMPLATE_ID="@, decimal(n as nat), home);
        assert(seq![host].push("PVE_TEMPLATE_ID="@ + decimal(n as nat)) =~= seq![host, "PVE_TEMPLATE_ID="@ + decimal(n as nat)]);
        reveal(after_text);
    }
    assert(read_env(unlines(seq![host, "PVE_DEFAULT_CORES="@ + decimal(n as nat)]), home) == Some(
        ConfigView { host: h, default_cores: n, ..d },
    )) by {
        lemma_keys();
        lemma_entry_starts();
        lemma_number_value(n as nat, u32::MAX as int, d.default_cores as int, home);
        lemma_entry_step(seq![host], "PVE_DEFAULT_CORES"@, "PVE_DEFAULT_CORES="@, decimal(n as nat), home);
        assert(seq![host].push("PVE_DEFAULT_CORES="@ + decimal(n as nat)) =~= seq![host, "PVE_DEFAULT_CORES="@ + decimal(n as nat)]);
        reveal(after_text);
    }
    assert(read_env(unlines(seq![host, "PVE_DEFAULT_MEMORY="@ + decimal(n as nat)]), home) == Some(
        ConfigView { host: h, default_memory: n, ..d },
    )) by {
        lemma_keys();
        lemma_entry_starts();
        lemma_number_value(n as nat, u32::MAX as int, d.default_memory as int, home);
        lemma_entry_step(seq![host], "PVE_DEFAULT_MEMORY"@, "PVE_DEFAULT_MEMORY="@, decimal(n as nat), home);
        assert(seq![host].push("PVE_DEFAULT_MEMORY="@ + decimal(n as nat)) =~= seq![host, "PVE_DEFAULT_MEMORY="@ + decimal(n as nat)]);
        reveal(after_text);
    }
    assert(read_env(unlines(seq![host, "PVE_DEFAULT_DISK="@ + decimal(n as nat)]), home) == Some(
        ConfigView { host: h, default_disk: n, ..d },
    )) by {
        lemma_keys();
        lemma_entry_starts();
        lemma_number_value(n as nat, u32::MAX as int, d.default_disk as int, home);
        lemma_entry_step(seq![host], "PVE_DEFAULT_DISK"@, "PVE_DEFAULT_DISK="@, decimal(n as nat), home);
        assert(seq![host].push("PVE_DEFAULT_DISK="@ + decimal(n as nat)) =~= seq![host, "PVE_DEFAULT_DISK="@ + decimal(n as nat)]);
        reveal(after_text);
    }
    assert(read_env(unlines(seq![host, "PVE_IP_TIMEOUT="@ + decimal(t as nat)]), home) == Some(
        ConfigView { host: h, ip_timeout: t, ..d },
    )) by {
        lemma_keys();
        lemma_entry_starts();
        lemma_number_value(t as nat, u64::MAX as int, d.ip_timeout as int, home);
        lemma_entry_step(seq![host], "PVE_IP_TIMEOUT"@, "PVE_IP_TIMEOUT="@, decimal(t as nat), home);
        assert(seq![host].push("PVE_IP_TIMEOUT="@ + decimal(t as nat)) =~= seq![host, "PVE_IP_TIMEOUT="@ + decimal(t as nat)]);
        reveal(after_text);
    }
    assert(read_env(unlines(seq![host, "PVE_DEFAULT_FULL_CLONE="@ + (if on { "1"@ } else { "0"@ })]), home) == Some(
        ConfigView { host: h, default_full_clone: on, ..d },
    )) by {
        lemma_keys();
        lemma_entry_starts();
        lemma_flag_value(on, home);
        lemma_entry_step(seq![host], "PVE_DEFAULT_FULL_CLONE"@, "PVE_DEFAULT_FULL_CLONE="@, (if on { "1"@ } else { "0"@ }), home);
        assert(seq![host].push("PVE_DEFAULT_FULL_CLONE="@ + (if on { "1"@ } else { "0"@ })) =~= seq![host, "PVE_DEFAULT_FULL_CLONE="@ + (if on { "1"@ } else { "0"@ })]);
        reveal(after_text);
    }
    assert(read_env(unlines(seq![host, "PVE_TAILSCALE_DEFAULT="@ + (if on { "1"@ } else { "0"@ })]), home) == Some(
        ConfigView { host: h, tailscale_default: on, ..d },
    )) by {
        lemma_keys();
        lemma_entry_starts();
        lemma_flag_value(on, home);
        lemma_entry_step(seq![host], "PVE_TAILSCALE_DEFAULT"@, "PVE_TAILSCALE_DEFAULT="@, (if on { "1"@ } else { "0"@ }), home);
        assert(seq![host].push("PVE_TAILSCALE_DEFAULT="@ + (if on { "1"@ } else { "0"@ })) =~= seq![host, "PVE_TAILSCALE_DEFAULT="@ + (if on { "1"@ } else { "0"@ })]);
        reveal(after_text);
    }
}

/// Each line of a file is read over what the lines before it set, so that the last of two lines
/// with the same key counts.
pub proof fn lines_are_read_one_after_the_other(
    ls: Seq<Seq<char>>,
    l: Seq<char>,
    home: Option<Seq<char>>,
)
    requires
        no_feed(l),
    ensures
        after_lines(default_config(), lines_of(unlines(ls.push(l))), home) == after_line(
            after_lines(default_config(), lines_of(unlines(ls)), home),
            l,
            home,
        ),
{
    lemma_step(ls, l, home);
    reveal(after_text);
}

/// A sign for the home directory at the start of a text stands for that directory, where it is
/// known; elsewhere, and where it is not known, it stands for itself.
pub proof fn a_leading_home_is_replaced(rest: Seq<char>, v: Seq<char>, home: Seq<char>)
    requires
        v.len() > 0 ==> v[0] != '~' && v[0] != '$',
    ensures
        home_expanded("~"@ + rest, Some(home)) == home + rest,
        home_expanded("$HOME"@ + rest, Some(home)) == home + rest,
        home_expanded(v, Some(home)) == v,
        home_expanded("~"@ + rest, None) == "~"@ + rest,
        home_expanded("$HOME"@ + rest, None) == "$HOME"@ + rest,
        home_expanded(v, None) == v,
{
    reveal_strlit("~");
    reveal_strlit("$HOME");
    let a = "~"@ + rest;
    let b = "$HOME"@ + rest;
    assert(a[0] == '~' && b[0] == '$');
    assert(a.take(1) =~= "~"@ && a.skip(1) =~= rest);
    assert(b.take(5) =~= "$HOME"@ && b.skip(5) =~= rest);
    if starts_with(a, "$HOME"@) {
        assert(a.take(5)[0] == a[0]);
    }
    if starts_with(v, "$HOME"@) {
        assert(v.take(5)[0] == v[0]);
    }
    if starts_with(v, "~"@) {
        assert(v.take(1)[0] == v[0]);
    }
}

/// A text between single quotes stands for itself where it holds none and does not start with the
/// home directory's signs.
pub proof fn single_quotes_are_quotes_too(v: Seq<char>, home: Option<Seq<char>>)
    requires
        forall|i: int| 0 <= i < v.len() ==> v[i] != '\'',
        names_no_home(v),
    ensures
        env_value(seq!['\''] + v + seq!['\''], home) == v,
{
    let s = seq!['\''] + v + seq!['\''];
    let n = v.len() as int;
    assert(s.len() == n + 2 && s[0] == '\'' && s[n + 1] == '\'');
    assert forall|j: int| 1 <= j < n + 1 implies s[j] != '\'' by {
        assert(s[j] == v[j - 1]);
    }
    trimming_stops(s);
    lemma_find_from_is(s, '\'', 1, n + 1);
    assert(quoted_length(s) == n + 2);
    assert(comment_from(s, n + 2) == s.len());
    assert(without_comment(s) == s);
    assert(s.subrange(1, n + 1) =~= v);
}

/// Only the keys of the settings set anything: a line with any other key, however like them, is
/// read over.
pub proof fn other_keys_set_nothing(
    c: ConfigView,
    key: Seq<char>,
    v: Seq<char>,
    home: Option<Seq<char>>,
)
    requires
        key.len() > 0,
        is_trimmed(key),
        key[0] != '#',
        forall|i: int| 0 <= i < key.len() ==> key[i] != '=',
        key != "PVE_HOST"@,
        key != "PVE_USER"@,
        key != "PVE_SSH_PORT"@,
        key != "PVE_IDENTITY_FILE"@,
        key != "PVE_TEMPLATE_ID"@,
        key != "PVE_BRIDGE"@,
        key != "PVE_TEMPLATE_NAME"@,
        key != "PVE_IMAGE_URL"@,
        key != "PVE_STORAGE"@,
        key != "PVE_CPU_TYPE"@,
        key != "PVE_TEMPLATE_PACKAGES"@,
        key != "PVE_DEFAULT_CORES"@,
        key != "PVE_DEFAULT_MEMORY"@,
        key != "PVE_DEFAULT_DISK"@,
        key != "PVE_DEFAULT_FULL_CLONE"@,
        key != "PVE_CI_USER"@,
        key != "PVE_TAILSCALE_DEFAULT"@,
        key != "PVE_TAILSCALE_AUTHKEY"@,
        key != "PVE_TAILNET_DOMAIN"@,
        key != "PVE_IP_TIMEOUT"@,
        key != "PVE_VM_SUBNET"@,
    ensures
        after_line(c, key.push('=') + v, home) == c,
{
    lemma_any_entry(c, key, v, home);
}

/// A hash sign without a space before it is part of a value.
pub proof fn a_hash_inside_a_word_is_no_comment(v: Seq<char>, home: Option<Seq<char>>)
    requires
        v.len() > 0,
        is_trimmed(v),
        forall|i: int| 0 <= i < v.len() ==> v[i] != ' ',
        v[0] != '"' && v[0] != '\'' && v[0] != '~' && v[0] != '$',
    ensures
        env_value(v, home) == v,
{
    reveal_strlit("$HOME");
    reveal_strlit("~");
    trimming_stops(v);
    lemma_spaceless(v, 0);
    if starts_with(v, "$HOME"@) {
        assert(v.take(5)[0] == v[0]);
        assert("$HOME"@[0] == '$');
    }
    if starts_with(v, "~"@) {
        assert(v.take(1)[0] == v[0]);
        assert("~"@[0] == '~');
    }
}

proof fn lemma_spaceless(s: Seq<char>, from: int)
    requires
        0 <= from <= s.len(),
        forall|i: int| from <= i < s.len() ==> s[i] != ' ',
    ensures
        comment_from(s, from) == s.len(),
    decreases s.len() - from,
{
    if from + 1 < s.len() {
        lemma_spaceless(s, from + 1);
    }
}

/// Whatever a value stands for, quotes and comments and the home directory included, that is what
/// the text of its key is set to, and nothing else is set.
pub proof fn a_text_is_set_to_what_its_value_stands_for(
    c: ConfigView,
    v: Seq<char>,
    t: Seq<char>,
    home: Option<Seq<char>>,
)
    requires
        env_value(v, home) == t,
        t.len() > 0,
    ensures
        after_line(c, "PVE_HOST="@ + v, home) == (ConfigView { host: t, ..c }),
        after_line(c, "PVE_USER="@ + v, home) == (ConfigView { user: t, ..c }),
        after_line(c, "PVE_BRIDGE="@ + v, home) == (ConfigView { bridge: t, ..c }),
        after_line(c, "PVE_TEMPLATE_NAME="@ + v, home) == (ConfigView { template_name: t, ..c }),
        after_line(c, "PVE_IMAGE_URL="@ + v, home) == (ConfigView { image_url: t, ..c }),
        after_line(c, "PVE_STORAGE="@ + v, home) == (ConfigView { storage: t, ..c }),
        after_line(c, "PVE_CPU_TYPE="@ + v, home) == (ConfigView { cpu_type: t, ..c }),
        after_line(c, "PVE_TEMPLATE_PACKAGES="@ + v, home) == (ConfigView { template_packages: t, ..c }),
        after_line(c, "PVE_CI_USER="@ + v, home) == (ConfigView { ci_user: t, ..c }),
        after_line(c, "PVE_IDENTITY_FILE="@ + v, home) == (ConfigView { identity_file: Some(t), ..c }),
        after_line(c, "PVE_TAILSCALE_AUTHKEY="@ + v, home) == (ConfigView { tailscale_authkey: Some(t), ..c }),
        after_line(c, "PVE_TAILNET_DOMAIN="@ + v, home) == (ConfigView { tailnet_domain: Some(t), ..c }),
        after_line(c, "PVE_VM_SUBNET="@ + v, home) == (ConfigView { vm_subnet: Some(t), ..c }),
        after_line(c, "PVE_DEFAULT_FULL_CLONE="@ + v, home) == (ConfigView { default_full_clone: t == "1"@, ..c }),
        after_line(c, "PVE_TAILSCALE_DEFAULT="@ + v, home) == (ConfigView { tailscale_default: t == "1"@, ..c }),
        read_uint(t, u16::MAX as int) matches Some(n) ==> after_line(c, "PVE_SSH_PORT="@ + v, home)
            == (ConfigView { port: n as u16, ..c }),
        read_uint(t, u32::MAX as int) matches Some(n) ==> after_line(c, "PVE_TEMPLATE_ID="@ + v, home)
            == (ConfigView { template_id: n as u32, ..c }),
        read_uint(t, u32::MAX as int) matches Some(n) ==> after_line(c, "PVE_DEFAULT_CORES="@ + v, home)
            == (ConfigView { default_cores: n as u32, ..c }),
        read_uint(t, u32::MAX as int) matches Some(n) ==> after_line(c, "PVE_DEFAULT_MEMORY="@ + v, home)
            == (ConfigView { default_memory: n as u32, ..c }),
        read_uint(t, u32::MAX as int) matches Some(n) ==> after_line(c, "PVE_DEFAULT_DISK="@ + v, home)
            == (ConfigView { default_disk: n as u32, ..c }),
        read_uint(t, u64::MAX as int) matches Some(n) ==> after_line(c, "PVE_IP_TIMEOUT="@ + v, home)
            == (ConfigView { ip_timeout: n as u64, ..c }),
{
    lemma_keys();
    lemma_entry_starts();
    lemma_entry(c, "PVE_HOST"@, v, home);
    lemma_entry(c, "PVE_USER"@, v, home);
    lemma_entry(c, "PVE_BRIDGE"@, v, home);
    lemma_entry(c, "PVE_TEMPLATE_NAME"@, v, home);
    lemma_entry(c, "PVE_IMAGE_URL"@, v, home);
    lemma_entry(c, "PVE_STORAGE"@, v, home);
    lemma_entry(c, "PVE_CPU_TYPE"@, v, home);
    lemma_entry(c, "PVE_TEMPLATE_PACKAGES"@, v, home);
    lemma_entry(c, "PVE_CI_USER"@, v, home);
    lemma_entry(c, "PVE_IDENTITY_FILE"@, v, home);
    lemma_entry(c, "PVE_TAILSCALE_AUTHKEY"@, v, home);
    lemma_entry(c, "PVE_TAILNET_DOMAIN"@, v, home);
    lemma_entry(c, "PVE_VM_SUBNET"@, v, home);
    lemma_entry(c, "PVE_DEFAULT_FULL_CLONE"@, v, home);
    lemma_entry(c, "PVE_TAILSCALE_DEFAULT"@, v, home);
    lemma_entry(c, "PVE_SSH_PORT"@, v, home);
    lemma_entry(c, "PVE_TEMPLATE_ID"@, v, home);
    lemma_entry(c, "PVE_DEFAULT_CORES"@, v, home);
    lemma_entry(c, "PVE_DEFAULT_MEMORY"@, v, home);
    lemma_entry(c, "PVE_DEFAULT_DISK"@, v, home);
    lemma_entry(c, "PVE_IP_TIMEOUT"@, v, home);
}

} // verus!
