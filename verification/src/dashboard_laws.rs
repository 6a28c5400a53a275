//! What holds of the dashboard as a whole: of every state, key and piece of news.
use vstd::prelude::*;

use crate::config::ConfigView;
use crate::dashboard::{
    brief, field_at, is_on, new_app, new_form, requested, taken_back, typed, value_of, vm_with_id,
    yes_no, ActionKind, App, AppView, Confirm, ConfirmView, CreateForm, CreateFormView,
    CreateOutcome, CreateOutcomeView, Detail, Field, FieldKind, FieldView, FormState,
    FormStateView, IpStateView, Key, KeyOutcome, ReqView, UpdateView,
};
use crate::model::{GuestIpsView, VmView};
use crate::node::{create_request, CreateSpecView};
use crate::number::{
    all_digits, decimal, is_digit, lemma_decimal, numbers_read_back, read_numbers_are_in_range,
    read_uint,
};
use crate::text::{
    feed_free, is_line, is_trimmed, lemma_feed_free, lemma_lines_of_first, lemma_trimmed_blank,
    lines_of, no_feed, starts_with, trimmed, trimming_stops,
};

verus! {

/// The selected row and the focus are in range when the dashboard is opened, and stay so
/// whatever the user and the node do.
pub proof fn selection_and_focus_stay_in_range(
    a: AppView,
    key: Key,
    news: UpdateView,
    now: u64,
    read: Result<Seq<char>, Seq<char>>,
)
    requires
        a.wf(),
    ensures
        new_app(a.cfg).wf(),
        a.after_key(key).0.wf(),
        a.with_update(news, now).wf(),
        a.with_submission(read).wf(),
{
    if let Some(f) = a.form {
        let n = f.fields.len() as int;
        vstd::arithmetic::div_mod::lemma_mod_bound(f.focus - 1, n);
        vstd::arithmetic::div_mod::lemma_mod_bound(f.focus + 1, n);
    }
    if a.vms.len() > 0 {
        if let Some(i) = a.selected {
            vstd::arithmetic::div_mod::lemma_mod_bound(i + 1, a.vms.len() as int);
        }
    }
}

/// A key asks nothing of the node but at the end of what is to be asked, and it asks for
/// something to be done to a VM only by confirming an open question about that very thing.
pub proof fn only_a_confirmed_question_acts(a: AppView, key: Key, at: int)
    requires
        a.outbox.len() <= at < a.after_key(key).0.outbox.len(),
        a.after_key(key).0.outbox[at] is Action,
    ensures
        a.form is None,
        a.confirm matches Some(c) && !c.running && a.after_key(key).0.outbox == a.outbox.push(
            ReqView::Action { vmid: c.vmid, kind: c.kind },
        ),
        key == Key::Char('y') || key == Key::Enter,
{
}

/// What was to be asked of the node stays to be asked, in its order, whatever key is pressed.
pub proof fn keys_only_add_requests(a: AppView, key: Key)
    ensures
        a.outbox.is_prefix_of(a.after_key(key).0.outbox),
{
    assert(a.after_key(key).0.outbox.take(a.outbox.len() as int) =~= a.outbox);
}

/// While something is being done to a VM, or a VM is being created, no key does anything.
pub proof fn keys_wait_for_what_is_under_way(a: AppView, key: Key)
    requires
        match a.form {
            Some(f) => f.state is Submitting,
            None => a.confirm is Some && (a.confirm->0).running,
        },
    ensures
        a.after_key(key) == (a, KeyOutcome::Stay),
{
}

/// Once a question is confirmed, confirming it again asks for nothing.
pub proof fn confirming_twice_acts_once(a: AppView)
    ensures
        a.with_confirmation().with_confirmation() == a.with_confirmation(),
{
}

/// A template is never asked about for anything but its destruction.
pub proof fn templates_are_only_destroyed(a: AppView, kind: ActionKind)
    requires
        a.selected_vm() matches Some(vm) && vm.is_template,
        kind != ActionKind::Destroy,
    ensures
        a.with_question(kind) == a,
{
}

/// A question is about the selected VM.
pub proof fn questions_are_about_the_selected_vm(a: AppView, kind: ActionKind, vm: VmView)
    requires
        a.selected_vm() == Some(vm),
        !vm.is_template || kind == ActionKind::Destroy,
    ensures
        a.with_question(kind).confirm matches Some(c) && c.kind == kind && c.vmid == vm.vmid
            && c.name == vm.name && !c.running,
{
}

/// The dashboard is left neither from the form nor from a question.
pub proof fn quitting_takes_the_list_or_the_details(a: AppView, key: Key)
    requires
        a.after_key(key).1 == KeyOutcome::Quit,
    ensures
        a.form is None,
        a.confirm is None,
        a.after_key(key).0 == a,
{
}

/// Moving the selection down and up again, or up and down again, leaves it where it was.
pub proof fn selection_goes_round(a: AppView)
    requires
        a.wf(),
        a.vms.len() <= usize::MAX,
        a.selected is Some,
    ensures
        a.with_next().with_prev() == a,
        a.with_prev().with_next() == a,
{
    let n = a.vms.len() as int;
    let i = (a.selected->0) as int;
    if i + 1 < n {
        vstd::arithmetic::div_mod::lemma_small_mod((i + 1) as nat, n as nat);
    } else {
        vstd::arithmetic::div_mod::lemma_mod_self_0(n);
    }
    if i == 0 {
        vstd::arithmetic::div_mod::lemma_mod_self_0(n);
    } else {
        vstd::arithmetic::div_mod::lemma_small_mod(i as nat, n as nat);
    }
    assert(a.with_next().with_prev() =~= a);
    assert(a.with_prev().with_next() =~= a);
}

/// Two moves of the focus make one, and a move by the number of fields none: the focus goes
/// round.
pub proof fn focus_goes_round(f: CreateFormView, d: int, e: int)
    requires
        0 <= f.focus < f.fields.len(),
    ensures
        f.moved(d).moved(e) == f.moved(d + e),
        f.moved(f.fields.len() as int) == f,
        f.moved(d).moved(-d) == f,
        0 <= f.moved(d).focus < f.fields.len(),
{
    let n = f.fields.len() as int;
    vstd::arithmetic::div_mod::lemma_add_mod_noop(f.focus + d, e, n);
    vstd::arithmetic::div_mod::lemma_add_mod_noop((f.focus + d) % n, e, n);
    vstd::arithmetic::div_mod::lemma_mod_twice(f.focus + d, n);
    vstd::arithmetic::div_mod::lemma_add_mod_noop(f.focus + d, -d, n);
    vstd::arithmetic::div_mod::lemma_add_mod_noop((f.focus + d) % n, -d, n);
    vstd::arithmetic::div_mod::lemma_small_mod(f.focus as nat, n as nat);
    vstd::arithmetic::div_mod::lemma_mod_add_multiples_vanish(f.focus, n);
    vstd::arithmetic::div_mod::lemma_mod_bound(f.focus + d, n);
}

/// A switch is on or off, and a number has nothing but digits.
pub open spec fn sound_field(f: FieldView) -> bool {
    match f.kind {
        FieldKind::Bool => f.value == yes_no(true) || f.value == yes_no(false),
        FieldKind::Uint => all_digits(f.value),
        FieldKind::Text => true,
    }
}

pub open spec fn sound_form(f: CreateFormView) -> bool {
    &&& 0 <= f.focus < f.fields.len()
    &&& forall|i: int| 0 <= i < f.fields.len() ==> sound_field(#[trigger] f.fields[i])
}

/// In a new form every switch is on or off and every number is one, and no key changes that.
pub proof fn fields_stay_sound(a: AppView, key: Key)
    requires
        a.form matches Some(f) ==> sound_form(f),
    ensures
        a.after_key(key).0.form matches Some(f) ==> sound_form(f),
{
    lemma_new_form_is_sound(a.cfg);
    if let Some(f) = a.form {
        let n = f.fields.len() as int;
        vstd::arithmetic::div_mod::lemma_mod_bound(f.focus - 1, n);
        vstd::arithmetic::div_mod::lemma_mod_bound(f.focus + 1, n);
        assert(sound_field(f.fields[f.focus]));
        lemma_edits_are_sound(f.focused(), ' ');
        if let Key::Char(c) = key {
            lemma_edits_are_sound(f.focused(), c);
        }
    }
}

proof fn lemma_edits_are_sound(f: FieldView, c: char)
    requires
        sound_field(f),
    ensures
        sound_field(FieldView { value: typed(f, c), ..f }),
        sound_field(FieldView { value: taken_back(f), ..f }),
{
}

proof fn lemma_new_form_is_sound(c: ConfigView)
    ensures
        sound_form(new_form(c)),
{
    lemma_decimal(c.default_cores as nat);
    lemma_decimal(c.default_memory as nat);
    lemma_decimal(c.default_disk as nat);
}

/// Flipping a switch twice leaves it as it was.
pub proof fn flipping_twice_changes_nothing(f: FieldView)
    requires
        f.kind == FieldKind::Bool,
        sound_field(f),
    ensures
        typed(FieldView { value: typed(f, ' '), ..f }, ' ') == f.value,
        typed(f, ' ') != f.value,
{
    reveal_strlit("yes");
    reveal_strlit("no");
    assert("yes"@.len() == 3);
    assert("no"@.len() == 2);
}

/// What is typed and taken back again leaves the field as it was, where it can be typed there at
/// all and the field is no switch.
pub proof fn typing_is_taken_back(f: FieldView, c: char)
    requires
        f.kind == FieldKind::Text || (f.kind == FieldKind::Uint && is_digit(c)),
    ensures
        taken_back(FieldView { value: typed(f, c), ..f }) == f.value,
{
    assert(f.value.push(c).drop_last() =~= f.value);
}

/// A form is sent to the node only as a VM that the node does not refuse for want of a key: it
/// has a name and an address, and an auth key where it is to join a tailnet. Otherwise nothing
/// is sent, and the form says why.
pub proof fn only_a_valid_form_is_sent(a: AppView, read: Result<Seq<char>, Seq<char>>)
    requires
        a.form is Some,
    ensures
        match requested(a.form->0, a.cfg, read) {
            Ok(s) => {
                &&& a.with_submission(read).outbox == a.outbox.push(ReqView::Create(s))
                &&& (a.with_submission(read).form->0).state is Submitting
                &&& s.name.len() > 0
                &&& s.ip.len() > 0
                &&& create_request(s, a.cfg) is Some
            },
            Err(m) => {
                &&& a.with_submission(read).outbox == a.outbox
                &&& (a.with_submission(read).form->0).state == FormStateView::Editing(Some(m))
            },
        },
{
}

/// Addresses of a VM whose details are not open change nothing.
pub proof fn late_addresses_are_ignored(a: AppView, news: UpdateView, now: u64)
    requires
        news matches UpdateView::Ips { vmid, .. } && (a.detail matches Some(d) ==> d.vmid != vmid),
    ensures
        a.with_update(news, now) == a,
{
}

/// News asks nothing of the node, and leaves the settings alone.
pub proof fn news_asks_for_nothing(a: AppView, news: UpdateView, now: u64)
    ensures
        a.with_update(news, now).outbox == a.outbox,
        a.with_update(news, now).cfg == a.cfg,
{
}

/// While the list keeps its length, new news of it leaves the selected row alone.
pub proof fn the_selection_outlives_a_refresh(a: AppView, vms: Seq<VmView>, now: u64)
    requires
        a.wf(),
        a.selected is Some,
        vms.len() >= a.vms.len(),
    ensures
        a.with_update(UpdateView::Vms(vms), now).selected == a.selected,
{
}

/// The labels of the form's fields, in order, are pairwise different.
proof fn lemma_labels()
    ensures
        "Name"@.len() == 4 && "VM ID"@.len() == 5 && "Cores"@.len() == 5,
        "Memory (MB)"@.len() == 11 && "Disk (GB)"@.len() == 9 && "IP"@.len() == 2,
        "Gateway"@.len() == 7 && "Nameserver"@.len() == 10 && "User"@.len() == 4,
        "Tags"@.len() == 4 && "Full clone"@.len() == 10 && "Start after create"@.len() == 18,
        "Join Tailscale"@.len() == 14,
        "Name"@[0] == 'N' && "User"@[0] == 'U' && "Tags"@[0] == 'T',
        "VM ID"@[0] == 'V' && "Cores"@[0] == 'C',
        "Nameserver"@[0] == 'N' && "Full clone"@[0] == 'F',
{
    reveal_strlit("Name");
    reveal_strlit("VM ID");
    reveal_strlit("Cores");
    reveal_strlit("Memory (MB)");
    reveal_strlit("Disk (GB)");
    reveal_strlit("IP");
    reveal_strlit("Gateway");
    reveal_strlit("Nameserver");
    reveal_strlit("User");
    reveal_strlit("Tags");
    reveal_strlit("Full clone");
    reveal_strlit("Start after create");
    reveal_strlit("Join Tailscale");
}

/// The field with the label of the field at `k`, where no field before it has that label.
proof fn lemma_field_at(fields: Seq<FieldView>, label: Seq<char>, from: int, k: int)
    requires
        0 <= from <= k < fields.len(),
        fields[k].label == label,
        forall|i: int| from <= i < k ==> (#[trigger] fields[i]).label != label,
    ensures
        field_at(fields, label, from) == k,
    decreases k - from,
{
    if from < k {
        assert(fields[from].label != label);
        lemma_field_at(fields, label, from + 1, k);
    }
}

proof fn lemma_digits_are_trimmed(n: nat)
    ensures
        trimmed(decimal(n)) == decimal(n),
{
    lemma_decimal(n);
    assert(is_digit(decimal(n)[0]));
    assert(is_digit(decimal(n)[decimal(n).len() - 1]));
    trimming_stops(decimal(n));
}

/// The VM that a new form asks for once it is given a name.
pub open spec fn default_request(c: ConfigView, name: Seq<char>, key: Seq<char>) -> CreateSpecView {
    CreateSpecView {
        name: trimmed(name),
        vmid: None,
        cores: c.default_cores,
        memory: c.default_memory,
        disk: c.default_disk,
        ip: "dhcp"@,
        gateway: None,
        nameserver: None,
        ci_user: if trimmed(c.ci_user).len() == 0 {
            c.ci_user
        } else {
            trimmed(c.ci_user)
        },
        ssh_pubkey: key,
        full_clone: c.default_full_clone,
        start: true,
        tags: None,
        tailscale: c.tailscale_default,
    }
}

/// A new form lacks a name alone: without one it is refused for that, and with one it asks for a
/// VM as the settings' defaults have it, provided that the public key can be read and that there
/// is an auth key where new VMs join a tailnet.
pub proof fn a_new_form_lacks_only_a_name(
    c: ConfigView,
    name: Seq<char>,
    read: Result<Seq<char>, Seq<char>>,
)
    ensures
        requested(new_form(c), c, read) == Err::<CreateSpecView, Seq<char>>("Name is required"@),
        trimmed(name).len() > 0 && c.identity_file is Some && read is Ok && (c.tailscale_default
            ==> c.tailscale_authkey is Some) ==> requested(
            new_form(c).with_value(name),
            c,
            read,
        ) == Ok::<CreateSpecView, Seq<char>>(default_request(c, name, read->Ok_0)),
{
    lemma_labels();
    let f = new_form(c).with_value(name);
    let fs = f.fields;
    assert(trimmed(""@) =~= Seq::<char>::empty()) by {
        reveal_strlit("");
        lemma_trimmed_blank(""@);
    }
    lemma_field_at(new_form(c).fields, "Name"@, 0, 0);
    lemma_field_at(fs, "Name"@, 0, 0);
    lemma_field_at(fs, "VM ID"@, 0, 1);
    lemma_field_at(fs, "Cores"@, 0, 2);
    lemma_field_at(fs, "Memory (MB)"@, 0, 3);
    lemma_field_at(fs, "Disk (GB)"@, 0, 4);
    lemma_field_at(fs, "IP"@, 0, 5);
    lemma_field_at(fs, "Gateway"@, 0, 6);
    lemma_field_at(fs, "Nameserver"@, 0, 7);
    lemma_field_at(fs, "User"@, 0, 8);
    lemma_field_at(fs, "Tags"@, 0, 9);
    lemma_field_at(fs, "Full clone"@, 0, 10);
    lemma_field_at(fs, "Start after create"@, 0, 11);
    lemma_field_at(fs, "Join Tailscale"@, 0, 12);
    lemma_digits_are_trimmed(c.default_cores as nat);
    lemma_digits_are_trimmed(c.default_memory as nat);
    lemma_digits_are_trimmed(c.default_disk as nat);
    numbers_read_back(c.default_cores as nat, u32::MAX as int);
    numbers_read_back(c.default_memory as nat, u32::MAX as int);
    numbers_read_back(c.default_disk as nat, u32::MAX as int);
    assert(trimmed("dhcp"@) == "dhcp"@ && "dhcp"@.len() == 4) by {
        reveal_strlit("dhcp");
        trimming_stops("dhcp"@);
    }
    assert("yes"@ != "no"@) by {
        reveal_strlit("yes");
        reveal_strlit("no");
        assert("yes"@.len() == 3);
        assert("no"@.len() == 2);
    }
    assert(value_of(f, "Name"@) == trimmed(name));
    assert(value_of(f, "VM ID"@).len() == 0);
    assert(is_on(f, "Full clone"@) == c.default_full_clone);
    assert(is_on(f, "Join Tailscale"@) == c.tailscale_default);
}

/// The news that ends what is under way: a creation that was told leaves the form to its user
/// again, an action that was told closes its question, and a list that came, or did not, ends
/// the refreshing.
pub proof fn news_ends_what_is_under_way(a: AppView, news: UpdateView, now: u64)
    ensures
        news is CreateDone ==> (a.with_update(news, now).form matches Some(f) ==> f.state
            !is Submitting),
        news is ActionDone ==> a.with_update(news, now).confirm is None,
        news is Vms || news is Error ==> !a.with_update(news, now).loading,
{
}

/// A key acts on what lies uppermost and on nothing below it: on the form, a question, the
/// details or the list, in this order.
pub proof fn a_key_acts_on_the_uppermost(a: AppView, key: Key)
    ensures
        ({
            let b = a.after_key(key).0;
            &&& a.form is Some ==> b.confirm == a.confirm && b.outbox == a.outbox
            &&& a.form is Some || a.confirm is Some ==> b.detail == a.detail && b.loading
                == a.loading
            &&& a.form is Some || a.confirm is Some || a.detail is Some ==> b.selected
                == a.selected
            &&& a.form is None && (a.confirm is Some || a.detail is Some) ==> b.form is None
            &&& b.vms == a.vms && b.cfg == a.cfg && b.error == a.error
        }),
{
}

/// A creation goes wrong without losing what was filled in: the fields stay as they were.
pub proof fn a_failed_creation_keeps_the_form(a: AppView, e: Seq<char>, now: u64)
    requires
        a.form is Some,
    ensures
        ({
            let b = a.with_update(UpdateView::CreateDone(Err(e)), now);
            &&& b.form is Some
            &&& (b.form->0).fields == (a.form->0).fields
            &&& (b.form->0).focus == (a.form->0).focus
            &&& (b.form->0).state == FormStateView::Editing(Some(brief(e)))
        }),
{
}

// ---------------------------------------------------------------------------------------------
// What each key leads to.
/// In the list, `s`, `x` and `d` lead to the question whether to start, stop and destroy the
/// selected VM, and to nothing else. A template is only asked about for its destruction.
pub proof fn keys_ask_about_the_selected_vm(a: AppView, i: usize)
    requires
        a.form is None && a.confirm is None && a.detail is None,
        a.selected == Some(i),
        i < a.vms.len(),
    ensures
        ({
            let vm = a.vms[i as int];
            let (s, so) = a.after_key(Key::Char('s'));
            let (x, xo) = a.after_key(Key::Char('x'));
            let (d, end) = a.after_key(Key::Char('d'));
            &&& so == KeyOutcome::Stay && xo == KeyOutcome::Stay && end == KeyOutcome::Stay
            &&& !vm.is_template ==> (s.confirm matches Some(c) && c.kind == ActionKind::Start
                && c.vmid == vm.vmid && c.name == vm.name && !c.running)
            &&& !vm.is_template ==> (x.confirm matches Some(c) && c.kind == ActionKind::Stop
                && c.vmid == vm.vmid && c.name == vm.name && !c.running)
            &&& vm.is_template ==> s.confirm is None && x.confirm is None
            &&& d.confirm matches Some(c) && c.kind == ActionKind::Destroy && c.vmid == vm.vmid
                && c.name == vm.name && !c.running
            &&& s == (AppView { confirm: s.confirm, ..a })
            &&& x == (AppView { confirm: x.confirm, ..a })
            &&& d == (AppView { confirm: d.confirm, ..a })
        }),
{
}

/// A question that is confirmed, with `y` or Enter, asks the node for what it is about, and for
/// nothing else; one that is declined, with `n` or Esc, asks for nothing and is closed; any other
/// key leaves it open.
pub proof fn a_question_is_confirmed_or_declined(a: AppView, c: ConfirmView, other: Key)
    requires
        a.form is None,
        a.confirm == Some(c),
        !c.running,
        other != Key::Char('y') && other != Key::Char('n') && other != Key::Enter && other
            != Key::Esc,
    ensures
        ({
            let y = a.after_key(Key::Char('y'));
            let n = a.after_key(Key::Char('n'));
            &&& y.1 == KeyOutcome::Stay && n.1 == KeyOutcome::Stay
            &&& y.0.outbox == a.outbox.push(ReqView::Action { vmid: c.vmid, kind: c.kind })
            &&& y.0.confirm matches Some(b) && b.running && b.kind == c.kind && b.vmid == c.vmid
                && b.name == c.name
            &&& y.0 == (AppView { confirm: y.0.confirm, outbox: y.0.outbox, ..a })
            &&& a.after_key(Key::Enter) == y
            &&& n.0.confirm is None && n.0 == (AppView { confirm: None, ..a })
            &&& a.after_key(Key::Esc) == n
            &&& a.after_key(other) == (a, KeyOutcome::Stay)
        }),
{
}

/// Whoever presses `s`, `x` or `d` in the list and then confirms starts, stops or destroys the
/// selected VM.
pub proof fn two_keys_act_on_the_selected_vm(a: AppView, i: usize)
    requires
        a.form is None && a.confirm is None && a.detail is None,
        a.selected == Some(i),
        i < a.vms.len(),
    ensures
        a.after_key(Key::Char('d')).0.after_key(Key::Char('y')).0.outbox == a.outbox.push(
            ReqView::Action { vmid: a.vms[i as int].vmid, kind: ActionKind::Destroy },
        ),
        !a.vms[i as int].is_template ==> a.after_key(Key::Char('s')).0.after_key(
            Key::Char('y'),
        ).0.outbox == a.outbox.push(
            ReqView::Action { vmid: a.vms[i as int].vmid, kind: ActionKind::Start },
        ),
        !a.vms[i as int].is_template ==> a.after_key(Key::Char('x')).0.after_key(
            Key::Char('y'),
        ).0.outbox == a.outbox.push(
            ReqView::Action { vmid: a.vms[i as int].vmid, kind: ActionKind::Stop },
        ),
        a.vms[i as int].is_template ==> a.after_key(Key::Char('s')).0.after_key(
            Key::Char('y'),
        ).0.outbox == a.outbox && a.after_key(Key::Char('x')).0.after_key(
            Key::Char('y'),
        ).0.outbox == a.outbox,
{
}

/// Enter in the list opens the details of the selected VM. The addresses of a VM that runs are
/// asked for; those of any other are not.
pub proof fn enter_opens_the_details_of_the_selected_vm(a: AppView, i: usize)
    requires
        a.form is None && a.confirm is None && a.detail is None,
        a.selected == Some(i),
        i < a.vms.len(),
    ensures
        ({
            let vm = a.vms[i as int];
            let (b, o) = a.after_key(Key::Enter);
            &&& o == KeyOutcome::Stay
            &&& b.detail matches Some(d) && d.vmid == vm.vmid
            &&& vm.status == "running"@ ==> (b.detail->0).ips is Loading && b.outbox
                == a.outbox.push(ReqView::Ips(vm.vmid))
            &&& vm.status != "running"@ ==> (b.detail->0).ips is NotRunning && b.outbox
                == a.outbox
            &&& b == (AppView { detail: b.detail, outbox: b.outbox, ..a })
        }),
{
}

/// In the list, `j` and Down select the row below, from the last the first; `k` and Up select the
/// row above, from the first the last; and nothing else changes. Where nothing is selected, the
/// first row is.
pub proof fn keys_move_the_selection(a: AppView, i: usize)
    requires
        a.form is None && a.confirm is None && a.detail is None,
        i < a.vms.len() <= usize::MAX,
    ensures
        ({
            let down = a.after_key(Key::Down);
            let up = a.after_key(Key::Up);
            &&& a.after_key(Key::Char('j')) == down
            &&& a.after_key(Key::Char('k')) == up
            &&& down.1 == KeyOutcome::Stay && up.1 == KeyOutcome::Stay
            &&& down.0 == (AppView { selected: down.0.selected, ..a })
            &&& up.0 == (AppView { selected: up.0.selected, ..a })
            &&& a.selected is None ==> down.0.selected == Some(0usize) && up.0.selected == Some(
                0usize,
            )
            &&& a.selected == Some(i) ==> {
                &&& i + 1 < a.vms.len() ==> down.0.selected == Some((i + 1) as usize)
                &&& i + 1 == a.vms.len() ==> down.0.selected == Some(0usize)
                &&& i > 0 ==> up.0.selected == Some((i - 1) as usize)
                &&& i == 0 ==> up.0.selected == Some((a.vms.len() - 1) as usize)
            }
        }),
{
    let n = a.vms.len() as int;
    if i + 1 < n {
        vstd::arithmetic::div_mod::lemma_small_mod((i + 1) as nat, n as nat);
    } else {
        vstd::arithmetic::div_mod::lemma_mod_self_0(n);
    }
}

/// In the list, `c` opens a new form and asks for the next free id, `r` asks for the list again,
/// `q` and Esc leave the dashboard, and any other key that selects, opens or asks nothing does
/// nothing. Without a selected VM there is nothing to open or to ask about.
pub proof fn other_keys_of_the_list(a: AppView, ch: char)
    requires
        a.form is None && a.confirm is None && a.detail is None,
    ensures
        ({
            let (c, co) = a.after_key(Key::Char('c'));
            let (r, ro) = a.after_key(Key::Char('r'));
            &&& co == KeyOutcome::Stay && ro == KeyOutcome::Stay
            &&& c.form == Some(new_form(a.cfg)) && c.outbox == a.outbox.push(ReqView::NextId)
            &&& c == (AppView { form: c.form, outbox: c.outbox, ..a })
            &&& r.loading && r.outbox == a.outbox.push(ReqView::Refresh)
            &&& r == (AppView { loading: true, outbox: r.outbox, ..a })
        }),
        a.after_key(Key::Char('q')) == (a, KeyOutcome::Quit),
        a.after_key(Key::Esc) == (a, KeyOutcome::Quit),
        ch != 'q' && ch != 'j' && ch != 'k' && ch != 's' && ch != 'x' && ch != 'd' && ch != 'c' && ch
            != 'r' ==> a.after_key(Key::Char(ch)) == (a, KeyOutcome::Stay),
        a.after_key(Key::Left) == (a, KeyOutcome::Stay),
        a.after_key(Key::Right) == (a, KeyOutcome::Stay),
        a.after_key(Key::Tab) == (a, KeyOutcome::Stay),
        a.after_key(Key::BackTab) == (a, KeyOutcome::Stay),
        a.after_key(Key::Backspace) == (a, KeyOutcome::Stay),
        a.after_key(Key::Other) == (a, KeyOutcome::Stay),
        a.vms.len() == 0 ==> a.after_key(Key::Down) == (a, KeyOutcome::Stay) && a.after_key(
            Key::Up,
        ) == (a, KeyOutcome::Stay),
        a.selected is None ==> a.after_key(Key::Enter) == (a, KeyOutcome::Stay) && a.after_key(
            Key::Char('s'),
        ) == (a, KeyOutcome::Stay) && a.after_key(Key::Char('x')) == (a, KeyOutcome::Stay)
            && a.after_key(Key::Char('d')) == (a, KeyOutcome::Stay),
{
}

/// Over the details, Esc and Enter close them, `q` leaves the dashboard, and `r` asks for the
/// list again and for the addresses of the same VM too, where they were answered before. No other
/// key does anything: nothing is started, stopped or destroyed from there.
pub proof fn keys_of_the_details(a: AppView, d: Detail, other: Key)
    requires
        a.form is None && a.confirm is None,
        a.detail == Some(d),
        other != Key::Esc && other != Key::Enter && other != Key::Char('q') && other
            != Key::Char('r'),
    ensures
        a.after_key(Key::Esc) == (AppView { detail: None, ..a }, KeyOutcome::Stay),
        a.after_key(Key::Enter) == (AppView { detail: None, ..a }, KeyOutcome::Stay),
        a.after_key(Key::Char('q')) == (a, KeyOutcome::Quit),
        ({
            let (r, o) = a.after_key(Key::Char('r'));
            &&& o == KeyOutcome::Stay && r.loading
            &&& r.detail matches Some(e) && e.vmid == d.vmid
            &&& d.ips is Loaded || d.ips is Unavailable ==> (r.detail->0).ips is Loading && r.outbox
                == a.outbox.push(ReqView::Refresh).push(ReqView::Ips(d.vmid))
            &&& d.ips is Loading || d.ips is NotRunning ==> r.detail == a.detail && r.outbox
                == a.outbox.push(ReqView::Refresh)
            &&& r == (AppView { loading: true, detail: r.detail, outbox: r.outbox, ..a })
        }),
        a.after_key(other) == (a, KeyOutcome::Stay),
{
}

/// While a form is filled in, Esc closes it, Enter submits it as it is, Up and Shift-Tab put the
/// focus on the field above, Down and Tab on the field below, round the ends. No key of these
/// changes a value.
pub proof fn keys_move_in_the_form(a: AppView, f: CreateFormView)
    requires
        a.form == Some(f),
        f.state is Editing,
        0 <= f.focus < f.fields.len(),
    ensures
        a.after_key(Key::Esc) == (AppView { form: None, ..a }, KeyOutcome::Stay),
        a.after_key(Key::Enter) == (a, KeyOutcome::Submit),
        a.after_key(Key::Other) == (a, KeyOutcome::Stay),
        a.after_key(Key::BackTab) == a.after_key(Key::Up),
        a.after_key(Key::Tab) == a.after_key(Key::Down),
        ({
            let n = f.fields.len() as int;
            let up = if f.focus == 0 { n - 1 } else { f.focus - 1 };
            let down = if f.focus == n - 1 { 0 } else { f.focus + 1 };
            &&& a.after_key(Key::Up) == (
                AppView { form: Some(CreateFormView { focus: up, ..f }), ..a },
                KeyOutcome::Stay,
            )
            &&& a.after_key(Key::Down) == (
                AppView { form: Some(CreateFormView { focus: down, ..f }), ..a },
                KeyOutcome::Stay,
            )
        }),
{
    let n = f.fields.len() as int;
    if f.focus == 0 {
        vstd::arithmetic::div_mod::lemma_fundamental_div_mod_converse(-1, n, -1, n - 1);
    } else {
        vstd::arithmetic::div_mod::lemma_small_mod((f.focus - 1) as nat, n as nat);
    }
    if f.focus == n - 1 {
        vstd::arithmetic::div_mod::lemma_mod_self_0(n);
    } else {
        vstd::arithmetic::div_mod::lemma_small_mod((f.focus + 1) as nat, n as nat);
    }
}

/// What is typed goes to the field that has the focus, and to no other: to the end of a text, to
/// the end of a number where it is a digit, and to a switch as yes, no or a flip. Backspace takes
/// the last character of a text or a number back. Left and Right flip a switch, and do nothing to
/// a text or a number.
pub proof fn keys_edit_the_focused_field(a: AppView, f: CreateFormView, c: char)
    requires
        a.form == Some(f),
        f.state is Editing,
        0 <= f.focus < f.fields.len(),
    ensures
        ({
            let old_ = f.fields[f.focus];
            let (b, o) = a.after_key(Key::Char(c));
            let g = b.form->0;
            let value = g.fields[f.focus].value;
            &&& o == KeyOutcome::Stay && b.form is Some
            &&& g.fields.len() == f.fields.len() && g.focus == f.focus && g.state == f.state
                && g.next_id == f.next_id
            &&& forall|j: int|
                0 <= j < f.fields.len() && j != f.focus ==> #[trigger] g.fields[j] == f.fields[j]
            &&& g.fields[f.focus] == (FieldView { value, ..old_ })
            &&& old_.kind == FieldKind::Text ==> value == old_.value.push(c)
            &&& old_.kind == FieldKind::Uint && '0' <= c && c <= '9' ==> value == old_.value.push(c)
            &&& old_.kind == FieldKind::Uint && !('0' <= c && c <= '9') ==> value == old_.value
            &&& old_.kind == FieldKind::Bool && c == 'y' ==> value == "yes"@
            &&& old_.kind == FieldKind::Bool && c == 'n' ==> value == "no"@
            &&& old_.kind == FieldKind::Bool && c == ' ' ==> value == (if old_.value == "yes"@ {
                "no"@
            } else {
                "yes"@
            })
            &&& old_.kind == FieldKind::Bool && c != 'y' && c != 'n' && c != ' ' ==> value
                == old_.value
            &&& b == (AppView { form: b.form, ..a })
        }),
        ({
            let old_ = f.fields[f.focus];
            let (b, o) = a.after_key(Key::Backspace);
            let g = b.form->0;
            &&& o == KeyOutcome::Stay && b.form is Some
            &&& forall|j: int|
                0 <= j < f.fields.len() && j != f.focus ==> #[trigger] g.fields[j] == f.fields[j]
            &&& g.fields[f.focus].value == (if old_.kind == FieldKind::Bool || old_.value.len() == 0 {
                old_.value
            } else {
                old_.value.take(old_.value.len() - 1)
            })
            &&& g == (CreateFormView { fields: g.fields, ..f })
            &&& b == (AppView { form: b.form, ..a })
        }),
        a.after_key(Key::Left) == a.after_key(Key::Right),
        f.fields[f.focus].kind == FieldKind::Bool ==> a.after_key(Key::Left) == a.after_key(
            Key::Char(' '),
        ),
        f.fields[f.focus].kind != FieldKind::Bool ==> a.after_key(Key::Left) == (
            a,
            KeyOutcome::Stay,
        ),
{
    let v = f.fields[f.focus].value;
    if v.len() > 0 {
        assert(v.drop_last() =~= v.take(v.len() - 1));
    }
}

/// Any key closes the form once the VM is there.
pub proof fn any_key_closes_a_finished_form(a: AppView, key: Key)
    requires
        a.form matches Some(f) && f.state is Done,
    ensures
        a.after_key(key) == (AppView { form: None, ..a }, KeyOutcome::Stay),
{
}

// ---------------------------------------------------------------------------------------------
// What each piece of news leads to.
/// A list that comes is shown as it came, ends the refreshing and clears the error. The selected
/// row stays, or is the last where there are fewer rows, or the first where none was selected.
pub proof fn a_list_is_shown_as_it_came(a: AppView, vms: Seq<VmView>, now: u64)
    requires
        vms.len() <= usize::MAX,
    ensures
        ({
            let b = a.with_update(UpdateView::Vms(vms), now);
            &&& b.vms == vms && b.error is None && !b.loading && b.last_update == Some(now)
            &&& vms.len() == 0 ==> b.selected is None
            &&& vms.len() > 0 && a.selected is None ==> b.selected == Some(0usize)
            &&& a.selected matches Some(i) ==> {
                &&& i < vms.len() ==> b.selected == Some(i)
                &&& i >= vms.len() > 0 ==> b.selected == Some((vms.len() - 1) as usize)
            }
            &&& b.cfg == a.cfg && b.detail == a.detail && b.confirm == a.confirm && b.form == a.form
        }),
{
}

/// A list that does not come leaves the old one, with the reason and the time of the old one.
pub proof fn a_list_that_fails_leaves_the_old_one(a: AppView, e: Seq<char>, now: u64)
    ensures
        a.with_update(UpdateView::Error(e), now) == (AppView {
            error: Some(e),
            loading: false,
            ..a
        }),
{
}

/// Addresses that come are shown in the open details of their VM, each in its place, and a lookup
/// that failed by its reason.
pub proof fn addresses_are_shown_as_they_came(
    a: AppView,
    d: Detail,
    ips: GuestIpsView,
    e: Seq<char>,
    now: u64,
)
    requires
        a.detail == Some(d),
    ensures
        ({
            let b = a.with_update(UpdateView::Ips { vmid: d.vmid, result: Ok(ips) }, now);
            &&& b.detail matches Some(g) && g.vmid == d.vmid && (
            g.ips matches IpStateView::Loaded(i) && i.lan == ips.lan && i.tailscale
                == ips.tailscale)
            &&& b == (AppView { detail: b.detail, ..a })
        }),
        ({
            let b = a.with_update(UpdateView::Ips { vmid: d.vmid, result: Err(e) }, now);
            &&& b.detail matches Some(g) && g.vmid == d.vmid && g.ips == IpStateView::Unavailable(
                brief(e),
            )
            &&& b == (AppView { detail: b.detail, ..a })
        }),
{
}

/// An action that ended closes its question. One that failed is told by its name and its reason,
/// and one that succeeded clears the error.
pub proof fn an_action_ends_with_its_name(a: AppView, e: Seq<char>, now: u64)
    ensures
        a.with_update(UpdateView::ActionDone { kind: ActionKind::Start, result: Err(e) }, now) == (
        AppView { confirm: None, error: Some("start"@ + " failed: "@ + brief(e)), ..a }),
        a.with_update(UpdateView::ActionDone { kind: ActionKind::Stop, result: Err(e) }, now) == (
        AppView { confirm: None, error: Some("stop"@ + " failed: "@ + brief(e)), ..a }),
        a.with_update(UpdateView::ActionDone { kind: ActionKind::Destroy, result: Err(e) }, now)
            == (AppView {
            confirm: None,
            error: Some("destroy"@ + " failed: "@ + brief(e)),
            ..a
        }),
        forall|kind: ActionKind|
            #![trigger a.with_update(UpdateView::ActionDone { kind, result: Ok(()) }, now)]
            a.with_update(UpdateView::ActionDone { kind, result: Ok(()) }, now) == (AppView {
                confirm: None,
                error: None,
                ..a
            }),
{
}

/// The next free id is shown in the open form, and a VM that was created too, as it became.
pub proof fn the_form_shows_what_came(
    a: AppView,
    f: CreateFormView,
    id: u32,
    o: CreateOutcomeView,
    now: u64,
)
    requires
        a.form == Some(f),
    ensures
        a.with_update(UpdateView::NextId(id), now) == (AppView {
            form: Some(CreateFormView { next_id: Some(id), ..f }),
            ..a
        }),
        a.with_update(UpdateView::CreateDone(Ok(o)), now) == (AppView {
            form: Some(CreateFormView { state: FormStateView::Done(o), ..f }),
            error: None,
            ..a
        }),
{
}

/// The reason of a failure is its first line, without the words that every failed command starts
/// with, and cut to thirty characters where it is longer.
pub proof fn reasons_are_the_first_line(line: Seq<char>, after: Seq<char>)
    requires
        is_line(line),
        is_trimmed(line),
        line.len() > 0,
        !starts_with(line, "remote command failed: "@),
    ensures
        line.len() <= 30 ==> brief(line.push('\n') + after) == line,
        line.len() <= 30 ==> brief(("remote command failed: "@ + line).push('\n') + after) == line,
        line.len() > 30 ==> brief(line.push('\n') + after) == line.take(29).push('…'),
{
    let p = "remote command failed: "@;
    lemma_lines_of_first(line, after);
    trimming_stops(line);
    assert(lines_of(line.push('\n') + after)[0] == line);
    let whole = p + line;
    assert(no_feed(p) && p.len() == 23 && p[0] == 'r') by {
        reveal_strlit("remote command failed: ");
        reveal_with_fuel(feed_free, 24);
        lemma_feed_free(p, p.len());
    }
    assert forall|i: int| 0 <= i < whole.len() implies whole[i] != '\n' by {
        if i < p.len() {
            assert(whole[i] == p[i]);
        } else {
            assert(whole[i] == line[i - p.len()]);
        }
    }
    assert(whole.last() == line.last());
    assert(whole[0] == 'r');
    lemma_lines_of_first(whole, after);
    trimming_stops(whole);
    assert(whole.take(p.len() as int) =~= p);
    assert(whole.skip(p.len() as int) =~= line);
    assert(lines_of(whole.push('\n') + after)[0] == whole);
}

/// The details are those of the VM with their id, as the list has it now, and of none where the
/// list has it no more.
pub proof fn the_details_are_of_the_vm_with_their_id(a: AppView, d: Detail, k: int)
    requires
        a.detail == Some(d),
    ensures
        0 <= k < a.vms.len() && a.vms[k].vmid == d.vmid && (forall|j: int|
            0 <= j < k ==> (#[trigger] a.vms[j]).vmid != d.vmid) ==> a.detail_vm() == Some(
            a.vms[k],
        ),
        (forall|j: int| 0 <= j < a.vms.len() ==> (#[trigger] a.vms[j]).vmid != d.vmid)
            ==> a.detail_vm() is None,
{
    if 0 <= k < a.vms.len() && a.vms[k].vmid == d.vmid && (forall|j: int|
        0 <= j < k ==> (#[trigger] a.vms[j]).vmid != d.vmid) {
        lemma_vm_with_id(a.vms, d.vmid, 0, k);
    }
    if forall|j: int| 0 <= j < a.vms.len() ==> (#[trigger] a.vms[j]).vmid != d.vmid {
        lemma_vm_with_id(a.vms, d.vmid, 0, a.vms.len() as int);
    }
}

proof fn lemma_vm_with_id(vms: Seq<VmView>, id: u32, from: int, k: int)
    requires
        0 <= from <= k <= vms.len(),
        k < vms.len() ==> vms[k].vmid == id,
        forall|j: int| from <= j < k ==> (#[trigger] vms[j]).vmid != id,
    ensures
        vm_with_id(vms, id, from) == if k < vms.len() {
            Some(vms[k])
        } else {
            None
        },
    decreases k - from,
{
    if from < k {
        assert(vms[from].vmid != id);
        lemma_vm_with_id(vms, id, from + 1, k);
    }
}

// ---------------------------------------------------------------------------------------------
// What a form asks for.
/// A form with the thirteen fields, in their order, whatever they hold.
pub open spec fn has_the_fields(f: CreateFormView) -> bool {
    &&& f.fields.len() == 13
    &&& f.fields[0].label == "Name"@
    &&& f.fields[1].label == "VM ID"@
    &&& f.fields[2].label == "Cores"@
    &&& f.fields[3].label == "Memory (MB)"@
    &&& f.fields[4].label == "Disk (GB)"@
    &&& f.fields[5].label == "IP"@
    &&& f.fields[6].label == "Gateway"@
    &&& f.fields[7].label == "Nameserver"@
    &&& f.fields[8].label == "User"@
    &&& f.fields[9].label == "Tags"@
    &&& f.fields[10].label == "Full clone"@
    &&& f.fields[11].label == "Start after create"@
    &&& f.fields[12].label == "Join Tailscale"@
}

/// A new form has the thirteen fields, filled with the settings' defaults for cores, memory,
/// disk, user and the switches; the address comes from DHCP, and the VM is started.
pub proof fn a_new_form_holds_the_defaults(c: ConfigView)
    ensures
        ({
            let f = new_form(c);
            &&& f.fields.len() == 13 && f.focus == 0 && f.next_id is None
            &&& f.state == FormStateView::Editing(None)
            &&& f.fields[0].label == "Name"@ && f.fields[0].kind == FieldKind::Text
            &&& f.fields[1].label == "VM ID"@ && f.fields[1].kind == FieldKind::Text
            &&& f.fields[2].label == "Cores"@ && f.fields[2].kind == FieldKind::Uint
            &&& f.fields[3].label == "Memory (MB)"@ && f.fields[3].kind == FieldKind::Uint
            &&& f.fields[4].label == "Disk (GB)"@ && f.fields[4].kind == FieldKind::Uint
            &&& f.fields[5].label == "IP"@ && f.fields[5].kind == FieldKind::Text
            &&& f.fields[6].label == "Gateway"@ && f.fields[6].kind == FieldKind::Text
            &&& f.fields[7].label == "Nameserver"@ && f.fields[7].kind == FieldKind::Text
            &&& f.fields[8].label == "User"@ && f.fields[8].kind == FieldKind::Text
            &&& f.fields[9].label == "Tags"@ && f.fields[9].kind == FieldKind::Text
            &&& f.fields[10].label == "Full clone"@ && f.fields[10].kind == FieldKind::Bool
            &&& f.fields[11].label == "Start after create"@ && f.fields[11].kind == FieldKind::Bool
            &&& f.fields[12].label == "Join Tailscale"@ && f.fields[12].kind == FieldKind::Bool
            &&& f.fields[0].value.len() == 0 && f.fields[1].value.len() == 0
            &&& read_uint(f.fields[2].value, u32::MAX as int) == Some(c.default_cores as int)
            &&& read_uint(f.fields[3].value, u32::MAX as int) == Some(c.default_memory as int)
            &&& read_uint(f.fields[4].value, u32::MAX as int) == Some(c.default_disk as int)
            &&& f.fields[5].value == "dhcp"@
            &&& f.fields[6].value.len() == 0 && f.fields[7].value.len() == 0
            &&& f.fields[8].value == c.ci_user
            &&& f.fields[9].value.len() == 0
            &&& f.fields[10].value == "yes"@ <==> c.default_full_clone
            &&& f.fields[11].value == "yes"@
            &&& f.fields[12].value == "yes"@ <==> c.tailscale_default
            &&& f.fields[0].placeholder == "required"@
            &&& f.fields[1].placeholder == "(next available)"@
            &&& f.fields[5].placeholder == "dhcp or CIDR"@
            &&& f.fields[6].placeholder == "(static IP only)"@
            &&& f.fields[7].placeholder == "(optional)"@
            &&& f.fields[8].placeholder == "cloud-init user"@
            &&& f.fields[9].placeholder == "(optional, ;-separated)"@
            &&& f.fields[10].value == "yes"@ || f.fields[10].value == "no"@
            &&& f.fields[12].value == "yes"@ || f.fields[12].value == "no"@
        }),
{
    numbers_read_back(c.default_cores as nat, u32::MAX as int);
    numbers_read_back(c.default_memory as nat, u32::MAX as int);
    numbers_read_back(c.default_disk as nat, u32::MAX as int);
    reveal_strlit("");
    reveal_strlit("yes");
    reveal_strlit("no");
    assert("yes"@.len() == 3 && "no"@.len() == 2 && ""@.len() == 0);
}

proof fn lemma_form_fields(f: CreateFormView)
    requires
        has_the_fields(f),
    ensures
        value_of(f, "Name"@) == trimmed(f.fields[0].value),
        value_of(f, "VM ID"@) == trimmed(f.fields[1].value),
        value_of(f, "Cores"@) == trimmed(f.fields[2].value),
        value_of(f, "Memory (MB)"@) == trimmed(f.fields[3].value),
        value_of(f, "Disk (GB)"@) == trimmed(f.fields[4].value),
        value_of(f, "IP"@) == trimmed(f.fields[5].value),
        value_of(f, "Gateway"@) == trimmed(f.fields[6].value),
        value_of(f, "Nameserver"@) == trimmed(f.fields[7].value),
        value_of(f, "User"@) == trimmed(f.fields[8].value),
        value_of(f, "Tags"@) == trimmed(f.fields[9].value),
        is_on(f, "Full clone"@) == (f.fields[10].value == "yes"@),
        is_on(f, "Start after create"@) == (f.fields[11].value == "yes"@),
        is_on(f, "Join Tailscale"@) == (f.fields[12].value == "yes"@),
{
    lemma_labels();
    let fs = f.fields;
    lemma_field_at(fs, "Name"@, 0, 0);
    lemma_field_at(fs, "VM ID"@, 0, 1);
    lemma_field_at(fs, "Cores"@, 0, 2);
    lemma_field_at(fs, "Memory (MB)"@, 0, 3);
    lemma_field_at(fs, "Disk (GB)"@, 0, 4);
    lemma_field_at(fs, "IP"@, 0, 5);
    lemma_field_at(fs, "Gateway"@, 0, 6);
    lemma_field_at(fs, "Nameserver"@, 0, 7);
    lemma_field_at(fs, "User"@, 0, 8);
    lemma_field_at(fs, "Tags"@, 0, 9);
    lemma_field_at(fs, "Full clone"@, 0, 10);
    lemma_field_at(fs, "Start after create"@, 0, 11);
    lemma_field_at(fs, "Join Tailscale"@, 0, 12);
}

/// A form that is accepted asks for a VM as its fields say, each part from its own field and
/// without white space around it; an empty id, gateway, nameserver or list of tags is none, and
/// an empty user is the settings' own. The public key is the one that was read.
pub proof fn a_form_asks_for_what_was_filled_in(
    f: CreateFormView,
    c: ConfigView,
    read: Result<Seq<char>, Seq<char>>,
    s: CreateSpecView,
)
    requires
        has_the_fields(f),
        requested(f, c, read) == Ok::<CreateSpecView, Seq<char>>(s),
    ensures
        s.name == trimmed(f.fields[0].value),
        trimmed(f.fields[1].value).len() == 0 ==> s.vmid is None,
        trimmed(f.fields[1].value).len() > 0 ==> (s.vmid matches Some(n) && read_uint(
            trimmed(f.fields[1].value),
            u32::MAX as int,
        ) == Some(n as int)),
        read_uint(trimmed(f.fields[2].value), u32::MAX as int) == Some(s.cores as int),
        read_uint(trimmed(f.fields[3].value), u32::MAX as int) == Some(s.memory as int),
        read_uint(trimmed(f.fields[4].value), u32::MAX as int) == Some(s.disk as int),
        s.ip == trimmed(f.fields[5].value),
        trimmed(f.fields[6].value).len() > 0 ==> s.gateway == Some(trimmed(f.fields[6].value)),
        trimmed(f.fields[6].value).len() == 0 ==> s.gateway is None,
        trimmed(f.fields[7].value).len() > 0 ==> s.nameserver == Some(trimmed(f.fields[7].value)),
        trimmed(f.fields[7].value).len() == 0 ==> s.nameserver is None,
        trimmed(f.fields[8].value).len() > 0 ==> s.ci_user == trimmed(f.fields[8].value),
        trimmed(f.fields[8].value).len() == 0 ==> s.ci_user == c.ci_user,
        trimmed(f.fields[9].value).len() > 0 ==> s.tags == Some(trimmed(f.fields[9].value)),
        trimmed(f.fields[9].value).len() == 0 ==> s.tags is None,
        s.full_clone <==> f.fields[10].value == "yes"@,
        s.start <==> f.fields[11].value == "yes"@,
        s.tailscale <==> f.fields[12].value == "yes"@,
        read == Ok::<Seq<char>, Seq<char>>(s.ssh_pubkey),
        c.identity_file is Some,
{
    lemma_form_fields(f);
    let max = u32::MAX as int;
    read_numbers_are_in_range(trimmed(f.fields[1].value), max);
    read_numbers_are_in_range(trimmed(f.fields[2].value), max);
    read_numbers_are_in_range(trimmed(f.fields[3].value), max);
    read_numbers_are_in_range(trimmed(f.fields[4].value), max);
}

/// A form is accepted exactly where it has a name, an id that is empty or a number, numbers for
/// cores, memory and disk, an address, an auth key in the settings where the VM is to join a
/// tailnet, and a public key that could be read. Otherwise the first of these that it lacks is
/// told.
pub proof fn a_form_is_refused_for_what_it_lacks(
    f: CreateFormView,
    c: ConfigView,
    read: Result<Seq<char>, Seq<char>>,
)
    requires
        has_the_fields(f),
    ensures
        ({
            let max = u32::MAX as int;
            let name = trimmed(f.fields[0].value).len() > 0;
            let id = trimmed(f.fields[1].value).len() == 0 || read_uint(
                trimmed(f.fields[1].value),
                max,
            ) is Some;
            let cores = read_uint(trimmed(f.fields[2].value), max) is Some;
            let memory = read_uint(trimmed(f.fields[3].value), max) is Some;
            let disk = read_uint(trimmed(f.fields[4].value), max) is Some;
            let ip = trimmed(f.fields[5].value).len() > 0;
            let key = f.fields[12].value != "yes"@ || c.tailscale_authkey is Some;
            let r = requested(f, c, read);
            &&& r is Ok <==> name && id && cores && memory && disk && ip && key && c.identity_file
                is Some && read is Ok
            &&& !name ==> r == Err::<CreateSpecView, Seq<char>>("Name is required"@)
            &&& name && !id ==> r == Err::<CreateSpecView, Seq<char>>("VM ID must be a number"@)
            &&& name && id && !cores ==> r == Err::<CreateSpecView, Seq<char>>(
                "Cores"@ + " must be a number"@,
            )
            &&& name && id && cores && !memory ==> r == Err::<CreateSpecView, Seq<char>>(
                "Memory (MB)"@ + " must be a number"@,
            )
            &&& name && id && cores && memory && !disk ==> r == Err::<CreateSpecView, Seq<char>>(
                "Disk (GB)"@ + " must be a number"@,
            )
            &&& name && id && cores && memory && disk && !ip ==> r == Err::<
                CreateSpecView,
                Seq<char>,
            >("IP is required (dhcp or a CIDR)"@)
            &&& name && id && cores && memory && disk && ip && !key ==> r == Err::<
                CreateSpecView,
                Seq<char>,
            >("Join Tailscale needs PVE_TAILSCALE_AUTHKEY in the config"@)
            &&& name && id && cores && memory && disk && ip && key && c.identity_file is None ==> r
                == Err::<CreateSpecView, Seq<char>>(
                "no SSH identity configured (set PVE_IDENTITY_FILE)"@,
            )
            &&& name && id && cores && memory && disk && ip && key ==> (
            c.identity_file matches Some(p) ==> (read matches Err(e) ==> r == Err::<
                CreateSpecView,
                Seq<char>,
            >("cannot read SSH public key "@ + (p + ".pub"@) + ": "@ + e)))
        }),
{
    lemma_form_fields(f);
}

/// The dashboard is opened with the settings that it is given, and with nothing shown, selected,
/// open or asked for but the list that is being fetched.
pub proof fn a_new_dashboard_is_empty(c: ConfigView)
    ensures
        new_app(c).cfg == c,
        new_app(c).vms.len() == 0 && new_app(c).selected is None && new_app(c).error is None,
        new_app(c).loading && new_app(c).last_update is None,
        new_app(c).detail is None && new_app(c).confirm is None && new_app(c).form is None,
        new_app(c).outbox.len() == 0,
{
}

/// The parts of the dashboard are seen as they are.
pub proof fn the_dashboard_is_seen_as_it_is(a: App, c: Confirm, o: CreateOutcome, f: Field)
    ensures
        a@.cfg == a.cfg@ && a@.selected == a.selected && a@.loading == a.loading,
        a@.last_update == a.last_update && a@.vms.len() == a.vms@.len(),
        forall|i: int| 0 <= i < a.vms@.len() ==> #[trigger] a@.vms[i] == a.vms@[i]@,
        a@.outbox.len() == a.outbox@.len(),
        forall|i: int| 0 <= i < a.outbox@.len() ==> #[trigger] a@.outbox[i] == a.outbox@[i]@,
        a.confirm matches Some(q) ==> a@.confirm == Some(q@),
        a.confirm is None ==> a@.confirm is None,
        a.detail matches Some(d) ==> (a@.detail matches Some(e) && e.vmid == d.vmid && e.ips
            == d.ips@),
        a.detail is None ==> a@.detail is None,
        a.form is None ==> a@.form is None,
        a.error matches Some(e) ==> a@.error == Some(e@),
        a.error is None ==> a@.error is None,
        c@.kind == c.kind && c@.vmid == c.vmid && c@.name == c.name@ && c@.running == c.running,
        o@.vmid == o.vmid && o@.name == o.name@ && o@.user == o.user@ && o@.started == o.started,
        o@.ips == o.ips@,
        o.ssh_alias matches Some(t) ==> o@.ssh_alias == Some(t@),
        o.ssh_alias is None ==> o@.ssh_alias is None,
        f@.label == f.label@ && f@.value == f.value@ && f@.kind == f.kind,
        f@.placeholder == f.placeholder@,
{
}

/// Handing a form over, or refusing it, leaves all it holds and all else as it was, but for what
/// is said of the form and what is asked of the node.
pub proof fn a_submission_keeps_the_form(
    a: AppView,
    f: CreateFormView,
    read: Result<Seq<char>, Seq<char>>,
)
    requires
        a.form == Some(f),
    ensures
        ({
            let b = a.with_submission(read);
            &&& b.form matches Some(g) && g == (CreateFormView { state: g.state, ..f })
            &&& b == (AppView { form: b.form, outbox: b.outbox, ..a })
            &&& requested(f, a.cfg, read) matches Ok(s) ==> b.outbox == a.outbox.push(
                ReqView::Create(s),
            ) && (b.form->0).state is Submitting
            &&& requested(f, a.cfg, read) matches Err(m) ==> b.outbox == a.outbox && (b.form->0).state
                == FormStateView::Editing(Some(m))
        }),
        (AppView { form: None, ..a }).with_submission(read) == (AppView { form: None, ..a }),
{
}

/// The form is seen as it is, field by field.
pub proof fn the_form_is_seen_as_it_is(f: CreateForm, m: String, o: CreateOutcome)
    ensures
        f@.fields.len() == f.fields@.len() && f@.focus == f.focus && f@.next_id == f.next_id,
        f@.state == f.state@,
        forall|i: int| 0 <= i < f.fields@.len() ==> #[trigger] f@.fields[i] == f.fields@[i]@,
        FormState::Editing(Some(m))@ == FormStateView::Editing(Some(m@)),
        FormState::Editing(None)@ == FormStateView::Editing(None),
        FormState::Submitting@ == FormStateView::Submitting,
        FormState::Done(o)@ == FormStateView::Done(o@),
{
}

/// A creation that failed is told in the form and nowhere else; and news for a form that is not
/// open changes nothing, but that a creation that succeeded clears the error.
pub proof fn news_of_a_creation_goes_to_the_form(
    a: AppView,
    f: CreateFormView,
    id: u32,
    o: CreateOutcomeView,
    e: Seq<char>,
    now: u64,
)
    ensures
        a.form == Some(f) ==> a.with_update(UpdateView::CreateDone(Err(e)), now) == (AppView {
            form: Some(CreateFormView { state: FormStateView::Editing(Some(brief(e))), ..f }),
            ..a
        }),
        a.form is None ==> a.with_update(UpdateView::CreateDone(Err(e)), now) == a,
        a.form is None ==> a.with_update(UpdateView::CreateDone(Ok(o)), now) == (AppView {
            error: None,
            ..a
        }),
        a.form is None ==> a.with_update(UpdateView::NextId(id), now) == a,
{
}

} // verus!
