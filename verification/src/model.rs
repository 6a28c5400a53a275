//! What the node reports: its VMs, and the addresses inside them.
use vstd::prelude::*;

use crate::number::{bytes_gib, decimal, gib_text, parse_ipv4, read_ipv4, uint_text};
use crate::text::{opt_text, same_text};

verus! {

// ---------------------------------------------------------------------------------------------
// VMs.
/// How a row says whether it is a template: as a number, a truth value or a text, depending on
/// the version of the node.
#[derive(Debug, Clone)]
pub enum TemplateFlag {
    Int(i64),
    Bool(bool),
    Text(String),
    /// Any other value.
    Other,
}

/// A row of the cluster's resource list. Fractions are held as the bits of their
/// double-precision value.
#[derive(Debug, Clone)]
pub struct Resource {
    pub vmid: Option<u32>,
    pub name: Option<String>,
    pub status: Option<String>,
    pub maxmem: Option<u64>,
    pub mem: Option<u64>,
    pub maxdisk: Option<u64>,
    pub maxcpu_bits: Option<u64>,
    pub cpu_bits: Option<u64>,
    pub uptime: Option<u64>,
    pub template: Option<TemplateFlag>,
    pub rtype: Option<String>,
}

/// A VM or a template.
#[derive(Debug, Clone)]
pub struct Vm {
    pub vmid: u32,
    pub name: String,
    pub status: String,
    pub is_template: bool,
    pub mem: u64,
    pub maxmem: u64,
    /// Provisioned disk size in bytes.
    pub maxdisk: u64,
    /// The fraction of its CPUs in use, as the bits of a double-precision number.
    pub cpu_bits: u64,
    /// The number of its CPUs, as the bits of a double-precision number.
    pub maxcpu_bits: u64,
    /// Seconds since it was started, zero where it is not running.
    pub uptime: u64,
}

/// A VM with its texts as sequences of characters.
#[verifier::ext_equal]
pub struct VmView {
    pub vmid: u32,
    pub name: Seq<char>,
    pub status: Seq<char>,
    pub is_template: bool,
    pub mem: u64,
    pub maxmem: u64,
    pub maxdisk: u64,
    pub cpu_bits: u64,
    pub maxcpu_bits: u64,
    pub uptime: u64,
}

impl View for Vm {
    type V = VmView;

    open spec fn view(&self) -> VmView {
        VmView {
            vmid: self.vmid,
            name: self.name@,
            status: self.status@,
            is_template: self.is_template,
            mem: self.mem,
            maxmem: self.maxmem,
            maxdisk: self.maxdisk,
            cpu_bits: self.cpu_bits,
            maxcpu_bits: self.maxcpu_bits,
            uptime: self.uptime,
        }
    }
}

/// The VMs of a list.
pub open spec fn vm_views(vms: Seq<Vm>) -> Seq<VmView> {
    vms.map_values(|v: Vm| v@)
}

/// Whether a row says that it is a template: the number 1, `true` or the text `1`.
pub open spec fn says_template(f: Option<TemplateFlag>) -> bool {
    match f {
        Some(TemplateFlag::Int(n)) => n == 1,
        Some(TemplateFlag::Bool(b)) => b,
        Some(TemplateFlag::Text(s)) => s@ == "1"@,
        _ => false,
    }
}

/// A value, or another where there is none.
pub open spec fn or_else<T>(o: Option<T>, d: T) -> T {
    match o {
        Some(v) => v,
        None => d,
    }
}

/// The VM that a row stands for: what is missing counts as zero or empty, and a template has the
/// status `template` whatever the row says.
pub open spec fn vm_of(r: Resource) -> VmView {
    VmView {
        vmid: or_else(r.vmid, 0),
        name: or_else(opt_text(r.name), Seq::empty()),
        status: if says_template(r.template) {
            "template"@
        } else {
            or_else(opt_text(r.status), "unknown"@)
        },
        is_template: says_template(r.template),
        mem: or_else(r.mem, 0),
        maxmem: or_else(r.maxmem, 0),
        maxdisk: or_else(r.maxdisk, 0),
        cpu_bits: or_else(r.cpu_bits, 0),
        maxcpu_bits: or_else(r.maxcpu_bits, 0),
        uptime: or_else(r.uptime, 0),
    }
}

fn is_template_flag(f: &Option<TemplateFlag>) -> (r: bool)
    ensures
        r == says_template(*f),
{
    match f {
        Some(TemplateFlag::Int(n)) => *n == 1,
        Some(TemplateFlag::Bool(b)) => *b,
        Some(TemplateFlag::Text(s)) => same_text(s.as_str(), "1"),
        _ => false,
    }
}

fn u64_or_zero(o: Option<u64>) -> (r: u64)
    ensures
        r == or_else(o, 0),
{
    match o {
        Some(n) => n,
        None => 0,
    }
}

/// How long a VM has been up: days and hours, hours and minutes, or minutes alone, whichever is
/// the first not to start with zero; a dash where it is not up.
pub open spec fn uptime_text(s: nat) -> Seq<char> {
    let d = s / 86400;
    let h = s % 86400 / 3600;
    let m = s % 3600 / 60;
    if s == 0 {
        "—"@
    } else if d > 0 {
        decimal(d) + "d"@ + decimal(h) + "h"@
    } else if h > 0 {
        decimal(h) + "h"@ + decimal(m) + "m"@
    } else {
        decimal(m) + "m"@
    }
}

impl Vm {
    /// The VM that a row of the resource list stands for.
    pub fn from(r: Resource) -> (vm: Vm)
        ensures
            vm@ == vm_of(r),
            r.vmid == Some(vm.vmid) || (r.vmid is None && vm.vmid == 0),
            r.mem == Some(vm.mem) || (r.mem is None && vm.mem == 0),
            r.maxmem == Some(vm.maxmem) || (r.maxmem is None && vm.maxmem == 0),
            r.maxdisk == Some(vm.maxdisk) || (r.maxdisk is None && vm.maxdisk == 0),
            r.cpu_bits == Some(vm.cpu_bits) || (r.cpu_bits is None && vm.cpu_bits == 0),
            r.maxcpu_bits == Some(vm.maxcpu_bits) || (r.maxcpu_bits is None && vm.maxcpu_bits
                == 0),
            r.uptime == Some(vm.uptime) || (r.uptime is None && vm.uptime == 0),
    {
        let is_template: bool = is_template_flag(&r.template);
        let status: String = if is_template {
            "template".to_owned()
        } else {
            match r.status {
                Some(s) => s,
                None => "unknown".to_owned(),
            }
        };
        Vm {
            vmid: match r.vmid {
                Some(n) => n,
                None => 0,
            },
            name: match r.name {
                Some(s) => s,
                None => String::new(),
            },
            status,
            is_template,
            mem: u64_or_zero(r.mem),
            maxmem: u64_or_zero(r.maxmem),
            maxdisk: u64_or_zero(r.maxdisk),
            cpu_bits: u64_or_zero(r.cpu_bits),
            maxcpu_bits: u64_or_zero(r.maxcpu_bits),
            uptime: u64_or_zero(r.uptime),
        }
    }

    /// Whether the VM runs.
    pub fn is_running(&self) -> (r: bool)
        ensures
            r == (self@.status == "running"@),
    {
        same_text(self.status.as_str(), "running")
    }

    /// Compact uptime, such as `3d4h`, `2h9m` or `12m`, or a dash where the VM is not up.
    pub fn uptime_human(&self) -> (r: String)
        ensures
            r@ == uptime_text(self@.uptime as nat),
    {
        let s: u64 = self.uptime;
        if s == 0 {
            return "—".to_owned();
        }
        let d: u64 = s / 86400;
        let h: u64 = s % 86400 / 3600;
        let m: u64 = s % 3600 / 60;
        if d > 0 {
            let mut out: String = uint_text(d);
            out.append("d");
            out.append(uint_text(h).as_str());
            out.append("h");
            out
        } else if h > 0 {
            let mut out: String = uint_text(h);
            out.append("h");
            out.append(uint_text(m).as_str());
            out.append("m");
            out
        } else {
            let mut out: String = uint_text(m);
            out.append("m");
            out
        }
    }

    /// Provisioned disk, such as `20.0 GiB`, or a dash where it is unknown.
    pub fn disk_human(&self) -> (r: String)
        ensures
            r@ == gib_text(self@.maxdisk as nat),
    {
        bytes_gib(self.maxdisk)
    }

    /// Assigned memory, such as `4.0 GiB`.
    pub fn mem_total_human(&self) -> (r: String)
        ensures
            r@ == gib_text(self@.maxmem as nat),
    {
        bytes_gib(self.maxmem)
    }

    /// Memory in use, such as `1.5 GiB`.
    pub fn mem_used_human(&self) -> (r: String)
        ensures
            r@ == gib_text(self@.mem as nat),
    {
        bytes_gib(self.mem)
    }
}

// ---------------------------------------------------------------------------------------------
// The list of VMs.
/// The VMs among the rows, in the order of the rows.
pub open spec fn qemu_vms(rows: Seq<Resource>) -> Seq<VmView>
    decreases rows.len(),
{
    if rows.len() == 0 {
        Seq::empty()
    } else if opt_text(rows.last().rtype) == Some("qemu"@) {
        qemu_vms(rows.drop_last()).push(vm_of(rows.last()))
    } else {
        qemu_vms(rows.drop_last())
    }
}

/// Ordered by id.
pub open spec fn by_id(vms: Seq<VmView>) -> bool {
    forall|i: int, j: int| 0 <= i < j < vms.len() ==> vms[i].vmid <= vms[j].vmid
}

/// The VMs with the given id, in their order.
pub open spec fn with_id(vms: Seq<VmView>, id: u32) -> Seq<VmView>
    decreases vms.len(),
{
    if vms.len() == 0 {
        Seq::empty()
    } else if vms.last().vmid == id {
        with_id(vms.drop_last(), id).push(vms.last())
    } else {
        with_id(vms.drop_last(), id)
    }
}

/// `sorted` is `vms` ordered by id, with those of the same id left in their order.
pub open spec fn is_sorted_from(sorted: Seq<VmView>, vms: Seq<VmView>) -> bool {
    &&& by_id(sorted)
    &&& forall|id: u32| #[trigger] with_id(sorted, id) == with_id(vms, id)
}

proof fn lemma_with_id_concat(a: Seq<VmView>, b: Seq<VmView>, id: u32)
    ensures
        with_id(a + b, id) == with_id(a, id) + with_id(b, id),
    decreases b.len(),
{
    if b.len() == 0 {
        assert(a + b =~= a);
        assert(with_id(a, id) + with_id(b, id) =~= with_id(a, id));
    } else {
        assert((a + b).drop_last() =~= a + b.drop_last());
        lemma_with_id_concat(a, b.drop_last(), id);
        if b.last().vmid == id {
            assert((with_id(a, id) + with_id(b.drop_last(), id)).push(b.last()) =~= with_id(a, id)
                + with_id(b.drop_last(), id).push(b.last()));
        }
    }
}

proof fn lemma_with_id_none(a: Seq<VmView>, id: u32)
    requires
        forall|i: int| 0 <= i < a.len() ==> (#[trigger] a[i]).vmid != id,
    ensures
        with_id(a, id) == Seq::<VmView>::empty(),
    decreases a.len(),
{
    if a.len() > 0 {
        assert(a[a.len() - 1].vmid != id);
        let t = a.drop_last();
        assert forall|i: int| 0 <= i < t.len() implies (#[trigger] t[i]).vmid != id by {
            assert(t[i] == a[i]);
        }
        lemma_with_id_none(t, id);
    }
}

/// Putting a VM behind those of its id or a lower one keeps the order.
proof fn lemma_insert(sorted: Seq<VmView>, vms: Seq<VmView>, x: VmView, p: int)
    requires
        is_sorted_from(sorted, vms),
        0 <= p <= sorted.len(),
        forall|i: int| 0 <= i < p ==> (#[trigger] sorted[i]).vmid <= x.vmid,
        forall|i: int| p <= i < sorted.len() ==> (#[trigger] sorted[i]).vmid > x.vmid,
    ensures
        is_sorted_from(sorted.insert(p, x), vms.push(x)),
{
    let s = sorted.insert(p, x);
    let a = sorted.take(p);
    let b = sorted.skip(p);
    assert(s =~= a.push(x) + b);
    assert(sorted =~= a + b);
    assert forall|i: int, j: int| 0 <= i < j < s.len() implies s[i].vmid <= s[j].vmid by {
        let i0 = if i < p {
            i
        } else {
            i - 1
        };
        let j0 = if j < p {
            j
        } else {
            j - 1
        };
        if i != p {
            assert(s[i] == sorted[i0]);
        }
        if j != p {
            assert(s[j] == sorted[j0]);
        }
    }
    assert forall|id: u32| #[trigger] with_id(s, id) == with_id(vms.push(x), id) by {
        lemma_with_id_concat(a.push(x), b, id);
        lemma_with_id_concat(a, b, id);
        assert(a.push(x).drop_last() =~= a);
        assert(vms.push(x).drop_last() =~= vms);
        assert(with_id(sorted, id) == with_id(vms, id));
        if x.vmid == id {
            assert forall|i: int| 0 <= i < b.len() implies (#[trigger] b[i]).vmid != id by {
                assert(b[i] == sorted[p + i]);
            }
            lemma_with_id_none(b, id);
            assert(with_id(a, id) + Seq::<VmView>::empty() =~= with_id(a, id));
            assert(with_id(a, id).push(x) + Seq::<VmView>::empty() =~= with_id(a, id).push(x));
        }
    }
}

proof fn lemma_with_id_first(a: Seq<VmView>)
    requires
        a.len() > 0,
    ensures
        with_id(a, a[0].vmid).len() > 0,
        with_id(a, a[0].vmid)[0] == a[0],
    decreases a.len(),
{
    if a.len() > 1 {
        let t = a.drop_last();
        assert(t[0] == a[0]);
        lemma_with_id_first(t);
    } else {
        assert(a.drop_last() =~= Seq::<VmView>::empty());
        assert(with_id(a.drop_last(), a[0].vmid) =~= Seq::<VmView>::empty());
    }
}

proof fn lemma_with_id_member(a: Seq<VmView>, id: u32)
    requires
        with_id(a, id).len() > 0,
    ensures
        exists|i: int| 0 <= i < a.len() && (#[trigger] a[i]).vmid == id,
{
    if forall|i: int| 0 <= i < a.len() ==> (#[trigger] a[i]).vmid != id {
        lemma_with_id_none(a, id);
    }
}

/// There is only one way to order VMs by id and leave those of the same id in their order.
pub proof fn order_is_unique(a: Seq<VmView>, b: Seq<VmView>, vms: Seq<VmView>)
    requires
        is_sorted_from(a, vms),
        is_sorted_from(b, vms),
    ensures
        a == b,
    decreases a.len(),
{
    if a.len() == 0 {
        if b.len() > 0 {
            lemma_with_id_first(b);
            let id = b[0].vmid;
            assert(with_id(b, id) == with_id(vms, id));
            assert(with_id(a, id) == with_id(vms, id));
        }
        assert(a =~= b);
    } else {
        lemma_with_id_first(a);
        let ia = a[0].vmid;
        assert(with_id(a, ia) == with_id(vms, ia));
        assert(with_id(b, ia) == with_id(vms, ia));
        lemma_with_id_member(b, ia);
        let k = choose|i: int| 0 <= i < b.len() && (#[trigger] b[i]).vmid == ia;
        lemma_with_id_first(b);
        let ib = b[0].vmid;
        assert(with_id(b, ib) == with_id(vms, ib));
        assert(with_id(a, ib) == with_id(vms, ib));
        lemma_with_id_member(a, ib);
        let l = choose|i: int| 0 <= i < a.len() && (#[trigger] a[i]).vmid == ib;
        assert(ib <= ia) by {
            if k > 0 {
                assert(b[0].vmid <= b[k].vmid);
            }
        }
        assert(ia <= ib) by {
            if l > 0 {
                assert(a[0].vmid <= a[l].vmid);
            }
        }
        assert(a[0] == b[0]);
        let x = a[0];
        let ta = a.skip(1);
        let tb = b.skip(1);
        assert(a =~= seq![x] + ta);
        assert(b =~= seq![x] + tb);
        assert(by_id(ta)) by {
            assert forall|i: int, j: int| 0 <= i < j < ta.len() implies ta[i].vmid
                <= ta[j].vmid by {
                assert(a[i + 1].vmid <= a[j + 1].vmid);
            }
        }
        assert(by_id(tb)) by {
            assert forall|i: int, j: int| 0 <= i < j < tb.len() implies tb[i].vmid
                <= tb[j].vmid by {
                assert(b[i + 1].vmid <= b[j + 1].vmid);
            }
        }
        assert forall|id: u32| #[trigger] with_id(tb, id) == with_id(ta, id) by {
            lemma_with_id_concat(seq![x], ta, id);
            lemma_with_id_concat(seq![x], tb, id);
            assert(with_id(a, id) == with_id(vms, id));
            assert(with_id(b, id) == with_id(vms, id));
            let h = with_id(seq![x], id);
            assert((h + with_id(ta, id)).skip(h.len() as int) =~= with_id(ta, id));
            assert((h + with_id(tb, id)).skip(h.len() as int) =~= with_id(tb, id));
        }
        order_is_unique(ta, tb, ta);
    }
}

/// The VMs among the rows of the resource list, ordered by id.
pub fn vms_from(rows: Vec<Resource>) -> (r: Vec<Vm>)
    ensures
        is_sorted_from(vm_views(r@), qemu_vms(rows@)),
        forall|i: int, j: int| 0 <= i < j < r@.len() ==> r@[i].vmid <= r@[j].vmid,
        forall|i: int|
            0 <= i < rows@.len() && ((#[trigger] rows@[i]).rtype matches Some(t) && t@ == "qemu"@)
                ==> exists|j: int| 0 <= j < r@.len() && (#[trigger] r@[j])@ == vm_of(rows@[i]),
{
    let ghost all = rows@;
    let mut rest: Vec<Resource> = rows;
    let mut out: Vec<Vm> = Vec::new();
    let n: usize = rest.len();
    let mut i: usize = 0;
    assert(all.take(0) =~= Seq::<Resource>::empty());
    assert(vm_views(out@) =~= Seq::<VmView>::empty());
    assert(all.skip(0) =~= all);
    while i < n
        invariant
            i <= n,
            n == all.len(),
            rest@ == all.skip(i as int),
            is_sorted_from(vm_views(out@), qemu_vms(all.take(i as int))),
        decreases n - i,
    {
        let row: Resource = rest.remove(0);
        assert(rest@ =~= all.skip(i + 1));
        assert(row == all[i as int]);
        assert(all.take(i + 1).drop_last() =~= all.take(i as int));
        assert(all.take(i + 1).last() == row);
        let keep: bool = match &row.rtype {
            Some(t) => same_text(t.as_str(), "qemu"),
            None => false,
        };
        if keep {
            let vm: Vm = Vm::from(row);
            let ghost before = vm_views(out@);
            let mut p: usize = out.len();
            while p > 0 && out[p - 1].vmid > vm.vmid
                invariant
                    p <= out@.len(),
                    before == vm_views(out@),
                    forall|k: int| p <= k < before.len() ==> (#[trigger] before[k]).vmid
                        > vm.vmid,
                decreases p,
            {
                p = p - 1;
                assert(before[p as int].vmid == out@[p as int].vmid);
            }
            assert forall|k: int| 0 <= k < p implies (#[trigger] before[k]).vmid <= vm@.vmid by {
                assert(before[p - 1].vmid == out@[p - 1].vmid);
                if k < p - 1 {
                    assert(before[k].vmid <= before[p - 1].vmid);
                }
            }
            proof {
                lemma_insert(before, qemu_vms(all.take(i as int)), vm@, p as int);
            }
            out.insert(p, vm);
            assert(vm_views(out@) =~= before.insert(p as int, vm@));
        }
        i = i + 1;
    }
    assert(all.take(n as int) =~= all);
    proof {
        let list = vm_views(out@);
        every_vm_is_listed(all, list);
        assert forall|i: int, j: int| 0 <= i < j < out@.len() implies out@[i].vmid
            <= out@[j].vmid by {
            assert(list[i].vmid <= list[j].vmid);
        }
        assert forall|i: int|
            0 <= i < all.len() && ((#[trigger] all[i]).rtype matches Some(t) && t@ == "qemu"@)
                implies exists|j: int| 0 <= j < out@.len() && (#[trigger] out@[j])@ == vm_of(
            all[i],
        ) by {
            let j = choose|j: int| 0 <= j < list.len() && list[j] == vm_of(all[i]);
            assert(out@[j]@ == list[j]);
        }
    }
    out
}

// ---------------------------------------------------------------------------------------------
// What the list holds.
/// A VM is taken over from its row field by field. A template is one by the number 1, `true` or
/// the text `1`, and has that status whatever the row says; any other VM has the row's status.
pub proof fn a_row_is_taken_over(r: Resource)
    ensures
        r.vmid matches Some(n) ==> vm_of(r).vmid == n,
        r.name matches Some(t) ==> vm_of(r).name == t@,
        r.mem matches Some(n) ==> vm_of(r).mem == n,
        r.maxmem matches Some(n) ==> vm_of(r).maxmem == n,
        r.maxdisk matches Some(n) ==> vm_of(r).maxdisk == n,
        r.cpu_bits matches Some(n) ==> vm_of(r).cpu_bits == n,
        r.maxcpu_bits matches Some(n) ==> vm_of(r).maxcpu_bits == n,
        r.uptime matches Some(n) ==> vm_of(r).uptime == n,
        vm_of(r).is_template <==> (r.template matches Some(TemplateFlag::Int(n)) && n == 1) || (
        r.template matches Some(TemplateFlag::Bool(b)) && b) || (
        r.template matches Some(TemplateFlag::Text(t)) && t@ == "1"@),
        vm_of(r).is_template ==> vm_of(r).status == "template"@,
        !vm_of(r).is_template ==> (r.status matches Some(t) ==> vm_of(r).status == t@),
        !vm_of(r).is_template && r.status is None ==> vm_of(r).status == "unknown"@,
        r.vmid is None ==> vm_of(r).vmid == 0,
        r.name is None ==> vm_of(r).name.len() == 0,
        r.mem is None ==> vm_of(r).mem == 0,
        r.maxmem is None ==> vm_of(r).maxmem == 0,
        r.maxdisk is None ==> vm_of(r).maxdisk == 0,
        r.cpu_bits is None ==> vm_of(r).cpu_bits == 0,
        r.maxcpu_bits is None ==> vm_of(r).maxcpu_bits == 0,
        r.uptime is None ==> vm_of(r).uptime == 0,
{
}

/// A VM's model has the VM's own fields.
pub proof fn a_vm_is_seen_as_it_is(vm: Vm, ips: GuestIps)
    ensures
        vm@.vmid == vm.vmid && vm@.name == vm.name@ && vm@.status == vm.status@,
        vm@.is_template == vm.is_template && vm@.uptime == vm.uptime,
        vm@.mem == vm.mem && vm@.maxmem == vm.maxmem && vm@.maxdisk == vm.maxdisk,
        vm@.cpu_bits == vm.cpu_bits && vm@.maxcpu_bits == vm.maxcpu_bits,
        ips.lan matches Some(t) ==> ips@.lan == Some(t@),
        ips.tailscale matches Some(t) ==> ips@.tailscale == Some(t@),
        ips.lan is None ==> ips@.lan is None,
        ips.tailscale is None ==> ips@.tailscale is None,
{
}

/// Every VM is known by the rows of its own id.
proof fn lemma_count_with_id(s: Seq<VmView>, x: VmView)
    ensures
        s.to_multiset().count(x) == with_id(s, x.vmid).to_multiset().count(x),
    decreases s.len(),
{
    broadcast use vstd::seq_lib::group_to_multiset_ensures;

    if s.len() == 0 {
        assert(with_id(s, x.vmid) =~= s);
    } else {
        let t = s.drop_last();
        lemma_count_with_id(t, x);
        assert(s =~= t.push(s.last()));
        assert(s.to_multiset() =~= t.to_multiset().insert(s.last()));
        if s.last().vmid == x.vmid {
            assert(with_id(s, x.vmid).to_multiset() =~= with_id(t, x.vmid).to_multiset().insert(
                s.last(),
            ));
        }
    }
}

/// Ordering adds and loses nothing.
proof fn lemma_sorted_is_a_permutation(a: Seq<VmView>, vms: Seq<VmView>)
    requires
        is_sorted_from(a, vms),
    ensures
        a.to_multiset() == vms.to_multiset(),
        a.len() == vms.len(),
{
    broadcast use vstd::seq_lib::group_to_multiset_ensures;

    assert forall|x: VmView| a.to_multiset().count(x) == vms.to_multiset().count(x) by {
        lemma_count_with_id(a, x);
        lemma_count_with_id(vms, x);
        assert(with_id(a, x.vmid) == with_id(vms, x.vmid));
    }
    assert(a.to_multiset() =~= vms.to_multiset());
    assert(a.len() == a.to_multiset().len());
    assert(vms.len() == vms.to_multiset().len());
}

proof fn lemma_qemu_vms(rows: Seq<Resource>)
    ensures
        qemu_vms(rows).len() == rows.filter(
            |r: Resource| r.rtype matches Some(t) && t@ == "qemu"@,
        ).len(),
        forall|i: int|
            0 <= i < rows.len() && ((#[trigger] rows[i]).rtype matches Some(t) && t@ == "qemu"@)
                ==> qemu_vms(rows).contains(vm_of(rows[i])),
        forall|x: VmView| #[trigger]
            qemu_vms(rows).contains(x) ==> exists|i: int|
                0 <= i < rows.len() && ((#[trigger] rows[i]).rtype matches Some(t) && t@
                    == "qemu"@) && x == vm_of(rows[i]),
    decreases rows.len(),
{
    reveal(Seq::filter);
    if rows.len() > 0 {
        let init = rows.drop_last();
        lemma_qemu_vms(init);
        let q = qemu_vms(rows);
        let before = qemu_vms(init);
        assert forall|i: int|
            0 <= i < rows.len() && ((#[trigger] rows[i]).rtype matches Some(t) && t@ == "qemu"@)
                implies q.contains(vm_of(rows[i])) by {
            if i < init.len() {
                assert(init[i] == rows[i]);
                let k = choose|k: int| 0 <= k < before.len() && before[k] == vm_of(rows[i]);
                assert(q[k] == vm_of(rows[i]));
            } else {
                assert(q[q.len() - 1] == vm_of(rows[i]));
            }
        }
        assert forall|x: VmView| #[trigger] q.contains(x) implies exists|i: int|
            0 <= i < rows.len() && ((#[trigger] rows[i]).rtype matches Some(t) && t@ == "qemu"@)
                && x == vm_of(rows[i]) by {
            let k = choose|k: int| 0 <= k < q.len() && q[k] == x;
            if k < before.len() {
                assert(before[k] == x);
                assert(before.contains(x));
                let i = choose|i: int|
                    0 <= i < init.len() && ((#[trigger] init[i]).rtype matches Some(t) && t@
                        == "qemu"@) && x == vm_of(init[i]);
                assert(rows[i] == init[i]);
            } else {
                assert(x == vm_of(rows[rows.len() - 1]));
            }
        }
    }
}

/// The list has an entry for every row of a VM, templates and stopped VMs among them, and for no
/// other row: as many entries as there are such rows, and ordered by id.
pub proof fn every_vm_is_listed(rows: Seq<Resource>, list: Seq<VmView>)
    requires
        is_sorted_from(list, qemu_vms(rows)),
    ensures
        list.len() == rows.filter(
            |r: Resource| r.rtype matches Some(t) && t@ == "qemu"@,
        ).len(),
        forall|i: int|
            0 <= i < rows.len() && ((#[trigger] rows[i]).rtype matches Some(t) && t@ == "qemu"@)
                ==> list.contains(vm_of(rows[i])),
        forall|x: VmView| #[trigger]
            list.contains(x) ==> exists|i: int|
                0 <= i < rows.len() && ((#[trigger] rows[i]).rtype matches Some(t) && t@
                    == "qemu"@) && x == vm_of(rows[i]),
        forall|i: int, j: int| 0 <= i < j < list.len() ==> list[i].vmid <= list[j].vmid,
{
    broadcast use vstd::seq_lib::group_to_multiset_ensures;

    let q = qemu_vms(rows);
    lemma_qemu_vms(rows);
    lemma_sorted_is_a_permutation(list, q);
    assert forall|x: VmView| list.contains(x) == q.contains(x) by {
        assert(list.to_multiset().count(x) == q.to_multiset().count(x));
    }
}

/// Two equal rows make two entries: the list holds each VM as often as the rows do.
pub proof fn no_vm_is_merged_or_doubled(rows: Seq<Resource>, list: Seq<VmView>)
    requires
        is_sorted_from(list, qemu_vms(rows)),
    ensures
        list.to_multiset() == rows.filter(
            |r: Resource| r.rtype matches Some(t) && t@ == "qemu"@,
        ).map_values(|r: Resource| vm_of(r)).to_multiset(),
{
    lemma_sorted_is_a_permutation(list, qemu_vms(rows));
    lemma_qemu_vms_map(rows);
}

proof fn lemma_qemu_vms_map(rows: Seq<Resource>)
    ensures
        qemu_vms(rows) == rows.filter(
            |r: Resource| r.rtype matches Some(t) && t@ == "qemu"@,
        ).map_values(|r: Resource| vm_of(r)),
    decreases rows.len(),
{
    reveal(Seq::filter);
    let p = |r: Resource| r.rtype matches Some(t) && t@ == "qemu"@;
    let f = |r: Resource| vm_of(r);
    if rows.len() > 0 {
        lemma_qemu_vms_map(rows.drop_last());
        assert(qemu_vms(rows) =~= rows.filter(p).map_values(f));
    } else {
        assert(qemu_vms(rows) =~= rows.filter(p).map_values(f));
    }
}

/// Rows that are ordered by id already, and all of VMs, are listed in their order, also where
/// ids are equal.
pub proof fn ordered_rows_keep_their_order(rows: Seq<Resource>, list: Seq<VmView>)
    requires
        is_sorted_from(list, qemu_vms(rows)),
        forall|i: int|
            0 <= i < rows.len() ==> ((#[trigger] rows[i]).rtype matches Some(t) && t@ == "qemu"@),
        forall|i: int, j: int|
            0 <= i < j < rows.len() ==> vm_of(#[trigger] rows[i]).vmid <= vm_of(
                #[trigger] rows[j],
            ).vmid,
    ensures
        list.len() == rows.len(),
        forall|i: int| 0 <= i < rows.len() ==> #[trigger] list[i] == vm_of(rows[i]),
{
    lemma_all_qemu(rows);
    let q = qemu_vms(rows);
    assert forall|i: int, j: int| 0 <= i < j < q.len() implies q[i].vmid <= q[j].vmid by {
        assert(q[i] == vm_of(rows[i]) && q[j] == vm_of(rows[j]));
    }
    assert(is_sorted_from(q, q));
    order_is_unique(list, q, q);
}

proof fn lemma_all_qemu(rows: Seq<Resource>)
    requires
        forall|i: int|
            0 <= i < rows.len() ==> ((#[trigger] rows[i]).rtype matches Some(t) && t@ == "qemu"@),
    ensures
        qemu_vms(rows).len() == rows.len(),
        forall|i: int| 0 <= i < rows.len() ==> #[trigger] qemu_vms(rows)[i] == vm_of(rows[i]),
    decreases rows.len(),
{
    if rows.len() > 0 {
        let init = rows.drop_last();
        assert forall|i: int| 0 <= i < init.len() implies ((#[trigger] init[i]).rtype matches Some(
            t,
        ) && t@ == "qemu"@) by {
            assert(init[i] == rows[i]);
        }
        lemma_all_qemu(init);
        let last = rows[rows.len() - 1];
        assert(last.rtype matches Some(t) && t@ == "qemu"@);
        assert forall|i: int| 0 <= i < rows.len() implies #[trigger] qemu_vms(rows)[i] == vm_of(
            rows[i],
        ) by {
            if i < init.len() {
                assert(qemu_vms(init)[i] == vm_of(init[i]));
            }
        }
    }
}

/// An uptime is told by its two largest units, from days, hours and minutes, without rounding
/// up: so many days and hours, whatever the minutes; so many hours and minutes, whatever the
/// seconds; or minutes alone.
pub proof fn an_uptime_is_told_by_its_largest_units(d: nat, h: nat, m: nat, s: nat)
    requires
        h < 24,
        m < 60,
        s < 60,
    ensures
        d > 0 ==> uptime_text(d * 86400 + h * 3600 + m * 60 + s) == decimal(d) + "d"@ + decimal(h)
            + "h"@,
        h > 0 ==> uptime_text(h * 3600 + m * 60 + s) == decimal(h) + "h"@ + decimal(m) + "m"@,
        m + s > 0 ==> uptime_text(m * 60 + s) == decimal(m) + "m"@,
        uptime_text(0) == "—"@,
{
    let t = d * 86400 + h * 3600 + m * 60 + s;
    assert(t / 86400 == d && t % 86400 == h * 3600 + m * 60 + s);
    assert((h * 3600 + m * 60 + s) / 3600 == h);
}

// ---------------------------------------------------------------------------------------------
// Addresses inside a VM.
/// The LAN and Tailscale IPv4 addresses of a VM, as far as its guest agent reports them.
#[derive(Debug, Clone)]
pub struct GuestIps {
    pub lan: Option<String>,
    pub tailscale: Option<String>,
}

#[verifier::ext_equal]
pub struct GuestIpsView {
    pub lan: Option<Seq<char>>,
    pub tailscale: Option<Seq<char>>,
}

impl View for GuestIps {
    type V = GuestIpsView;

    open spec fn view(&self) -> GuestIpsView {
        GuestIpsView { lan: opt_text(self.lan), tailscale: opt_text(self.tailscale) }
    }
}

/// An address that the guest agent reports.
#[derive(Debug, Clone)]
pub struct GuestAddr {
    pub ip_address_type: Option<String>,
    pub ip_address: Option<String>,
}

/// An interface that the guest agent reports.
#[derive(Debug, Clone)]
pub struct GuestIface {
    pub ip_addresses: Vec<GuestAddr>,
}

/// Whether an address lies in `100.64.0.0/10`, the range that Tailscale hands out.
pub open spec fn in_cgnat(ip: (u8, u8, u8, u8)) -> bool {
    ip.0 == 100 && 64 <= ip.1 <= 127
}

/// An address as one number.
pub open spec fn address_number(ip: (u8, u8, u8, u8)) -> int {
    ((ip.0 * 256 + ip.1) * 256 + ip.2) * 256 + ip.3
}

/// The range is exactly the block that shares its first ten bits with `100.64.0.0`.
pub proof fn cgnat_is_one_block(ip: (u8, u8, u8, u8))
    ensures
        in_cgnat(ip) <==> address_number(ip) / 0x40_0000 == address_number((100, 64, 0, 0))
            / 0x40_0000,
{
    let n = address_number(ip);
    assert(n / 0x40_0000 == ip.0 * 4 + ip.1 / 64);
}

/// Whether an address lies in `127.0.0.0/8`.
pub open spec fn is_loopback(ip: (u8, u8, u8, u8)) -> bool {
    ip.0 == 127
}

/// Whether an address lies in the range `100.64.0.0/10`, which Tailscale uses.
pub fn is_tailscale(ip: (u8, u8, u8, u8)) -> (r: bool)
    ensures
        r == in_cgnat(ip),
{
    ip.0 == 100 && 64 <= ip.1 && ip.1 <= 127
}

/// The text of an address that counts: an IPv4 address that is no loopback address.
pub open spec fn usable_address(a: GuestAddr) -> Option<Seq<char>> {
    if opt_text(a.ip_address_type) == Some("ipv4"@) && a.ip_address is Some && read_ipv4(
        (a.ip_address->0)@,
    ) is Some && !is_loopback(read_ipv4((a.ip_address->0)@)->0) {
        Some((a.ip_address->0)@)
    } else {
        None
    }
}

/// Whether an address counts as a Tailscale address (`tailscale`) or as a LAN address.
pub open spec fn counts_as(a: GuestAddr, tailscale: bool) -> bool {
    usable_address(a) is Some && in_cgnat(read_ipv4(usable_address(a)->0)->0) == tailscale
}

/// The first address of the given kind, where there is one.
pub open spec fn first_address(s: Seq<GuestAddr>, tailscale: bool) -> Option<Seq<char>>
    decreases s.len(),
{
    if s.len() == 0 {
        None
    } else {
        match first_address(s.drop_last(), tailscale) {
            Some(a) => Some(a),
            None => if counts_as(s.last(), tailscale) {
                usable_address(s.last())
            } else {
                None
            },
        }
    }
}

/// All addresses, interface by interface.
pub open spec fn all_addresses(ifaces: Seq<GuestIface>) -> Seq<GuestAddr>
    decreases ifaces.len(),
{
    if ifaces.len() == 0 {
        Seq::empty()
    } else {
        all_addresses(ifaces.drop_last()) + ifaces.last().ip_addresses@
    }
}

/// The first address of each kind.
pub open spec fn guest_ips_of(s: Seq<GuestAddr>) -> GuestIpsView {
    GuestIpsView { lan: first_address(s, false), tailscale: first_address(s, true) }
}

/// What is picked is an IPv4 address of its kind: a LAN address is neither a loopback address
/// nor in the Tailscale range, a Tailscale address is in that range.
pub proof fn picked_addresses_are_of_their_kind(s: Seq<GuestAddr>, tailscale: bool)
    ensures
        first_address(s, tailscale) matches Some(a) ==> read_ipv4(a) is Some && !is_loopback(
            read_ipv4(a)->0,
        ) && in_cgnat(read_ipv4(a)->0) == tailscale,
    decreases s.len(),
{
    if s.len() > 0 {
        picked_addresses_are_of_their_kind(s.drop_last(), tailscale);
    }
}

/// Nothing is picked only where there is nothing to pick.
pub proof fn an_address_is_picked_where_there_is_one(
    s: Seq<GuestAddr>,
    i: int,
    tailscale: bool,
)
    requires
        0 <= i < s.len(),
        counts_as(s[i], tailscale),
    ensures
        first_address(s, tailscale) is Some,
    decreases s.len(),
{
    if i < s.len() - 1 {
        an_address_is_picked_where_there_is_one(s.drop_last(), i, tailscale);
    }
}

/// The address that is told as a VM's own is the first that its agent reports: the first IPv4
/// address that is no loopback address and lies outside `100.64.0.0/10` is the LAN address.
pub proof fn the_first_lan_address_is_told(s: Seq<GuestAddr>, i: int, ip: (u8, u8, u8, u8))
    requires
        0 <= i < s.len(),
        s[i].ip_address_type matches Some(t) && t@ == "ipv4"@,
        s[i].ip_address matches Some(t) && read_ipv4(t@) == Some(ip),
        ip.0 != 127,
        !(ip.0 == 100 && 64 <= ip.1 <= 127),
        forall|k: int|
            0 <= k < i ==> !((#[trigger] s[k]).ip_address_type matches Some(t) && t@ == "ipv4"@)
                || !(s[k].ip_address matches Some(t) && (read_ipv4(t@) matches Some(o) && o.0 != 127
                && !(o.0 == 100 && 64 <= o.1 <= 127))),
    ensures
        guest_ips_of(s).lan == Some((s[i].ip_address->0)@),
{
    lemma_first_address(s, i, false);
}

/// The first IPv4 address in `100.64.0.0/10` is the Tailscale address.
pub proof fn the_first_tailscale_address_is_told(s: Seq<GuestAddr>, i: int, ip: (u8, u8, u8, u8))
    requires
        0 <= i < s.len(),
        s[i].ip_address_type matches Some(t) && t@ == "ipv4"@,
        s[i].ip_address matches Some(t) && read_ipv4(t@) == Some(ip),
        ip.0 == 100,
        64 <= ip.1 <= 127,
        forall|k: int|
            0 <= k < i ==> !((#[trigger] s[k]).ip_address_type matches Some(t) && t@ == "ipv4"@)
                || !(s[k].ip_address matches Some(t) && (read_ipv4(t@) matches Some(o) && o.0 == 100
                && 64 <= o.1 <= 127)),
    ensures
        guest_ips_of(s).tailscale == Some((s[i].ip_address->0)@),
{
    lemma_first_address(s, i, true);
}

/// Where no address is of a kind, none of it is told.
pub proof fn no_address_is_made_up(s: Seq<GuestAddr>)
    ensures
        (forall|k: int|
            0 <= k < s.len() ==> !((#[trigger] s[k]).ip_address_type matches Some(t) && t@
                == "ipv4"@) || !(s[k].ip_address matches Some(t) && (read_ipv4(t@) matches Some(o)
                && o.0 != 127 && !(o.0 == 100 && 64 <= o.1 <= 127)))) ==> guest_ips_of(s).lan
            is None,
        (forall|k: int|
            0 <= k < s.len() ==> !((#[trigger] s[k]).ip_address_type matches Some(t) && t@
                == "ipv4"@) || !(s[k].ip_address matches Some(t) && (read_ipv4(t@) matches Some(o)
                && o.0 == 100 && 64 <= o.1 <= 127))) ==> guest_ips_of(s).tailscale is None,
{
    if first_address(s, false) is Some {
        lemma_address_has_a_place(s, false);
        let k = choose|k: int| 0 <= k < s.len() && counts_as(#[trigger] s[k], false);
        assert(counts_as(s[k], false));
    }
    if first_address(s, true) is Some {
        lemma_address_has_a_place(s, true);
        let k = choose|k: int| 0 <= k < s.len() && counts_as(#[trigger] s[k], true);
        assert(counts_as(s[k], true));
    }
}

proof fn lemma_address_has_a_place(s: Seq<GuestAddr>, tailscale: bool)
    requires
        first_address(s, tailscale) is Some,
    ensures
        exists|k: int| 0 <= k < s.len() && counts_as(#[trigger] s[k], tailscale),
    decreases s.len(),
{
    if s.len() > 0 {
        let t = s.drop_last();
        if first_address(t, tailscale) is Some {
            lemma_address_has_a_place(t, tailscale);
            let k = choose|k: int| 0 <= k < t.len() && counts_as(#[trigger] t[k], tailscale);
            assert(counts_as(s[k], tailscale));
        } else {
            assert(counts_as(s[s.len() - 1], tailscale));
        }
    }
}

proof fn lemma_first_address(s: Seq<GuestAddr>, i: int, tailscale: bool)
    requires
        0 <= i < s.len(),
        counts_as(s[i], tailscale),
        forall|k: int| 0 <= k < i ==> !counts_as(#[trigger] s[k], tailscale),
    ensures
        first_address(s, tailscale) == usable_address(s[i]),
    decreases s.len(),
{
    let t = s.drop_last();
    if i < t.len() {
        lemma_first_address(t, i, tailscale);
    } else if first_address(t, tailscale) is Some {
        lemma_address_has_a_place(t, tailscale);
        let k = choose|k: int| 0 <= k < t.len() && counts_as(#[trigger] t[k], tailscale);
        assert(counts_as(s[k], tailscale));
    }
}

/// All interfaces are looked at, in their order, and all addresses of each in theirs.
pub proof fn interfaces_are_read_in_order(a: Seq<GuestIface>, i: GuestIface, b: Seq<GuestIface>)
    ensures
        all_addresses(Seq::empty()) == Seq::<GuestAddr>::empty(),
        all_addresses(a.push(i) + b) == all_addresses(a) + i.ip_addresses@ + all_addresses(b),
    decreases b.len(),
{
    if b.len() == 0 {
        assert(a.push(i) + b =~= a.push(i));
        assert(a.push(i).drop_last() =~= a);
        assert(all_addresses(a) + i.ip_addresses@ + all_addresses(b) =~= all_addresses(a)
            + i.ip_addresses@);
    } else {
        interfaces_are_read_in_order(a, i, b.drop_last());
        assert((a.push(i) + b).drop_last() =~= a.push(i) + b.drop_last());
        assert(all_addresses(a.push(i) + b) =~= all_addresses(a) + i.ip_addresses@ + all_addresses(
            b,
        ));
    }
}

impl Default for GuestIps {
    /// No addresses.
    fn default() -> (r: GuestIps)
        ensures
            r@ == (GuestIpsView { lan: None, tailscale: None }),
    {
        GuestIps { lan: None, tailscale: None }
    }
}

impl GuestIps {
    /// A copy of the addresses.
    pub fn copy(&self) -> (r: GuestIps)
        ensures
            r@ == self@,
    {
        GuestIps { lan: self.lan.clone(), tailscale: self.tailscale.clone() }
    }

    /// Takes one more address into account.
    fn add(&mut self, a: &GuestAddr, before: Ghost<Seq<GuestAddr>>)
        requires
            old(self)@ == guest_ips_of(before@),
        ensures
            final(self)@ == guest_ips_of(before@.push(*a)),
    {
        assert(before@.push(*a).drop_last() =~= before@);
        let is_v4: bool = match &a.ip_address_type {
            Some(t) => same_text(t.as_str(), "ipv4"),
            None => false,
        };
        if !is_v4 {
            return;
        }
        if let Some(raw) = &a.ip_address {
            if let Some(ip) = parse_ipv4(raw.as_str()) {
                if ip.0 == 127 {
                    return;
                }
                if is_tailscale(ip) {
                    if self.tailscale.is_none() {
                        self.tailscale = Some(raw.clone());
                    }
                } else if self.lan.is_none() {
                    self.lan = Some(raw.clone());
                }
            }
        }
    }

    /// Picks the first IPv4 address outside the Tailscale range as the LAN address, and the
    /// first inside it as the Tailscale address, from the decoded answer of the guest agent.
    /// Loopback addresses do not count.
    pub fn from_interfaces_json(ifaces: &Vec<GuestIface>) -> (r: GuestIps)
        ensures
            r@ == guest_ips_of(all_addresses(ifaces@)),
    {
        let mut out: GuestIps = GuestIps::default();
        let mut i: usize = 0;
        let ghost mut seen: Seq<GuestAddr> = Seq::empty();
        assert(ifaces@.take(0) =~= Seq::<GuestIface>::empty());
        while i < ifaces.len()
            invariant
                i <= ifaces@.len(),
                seen == all_addresses(ifaces@.take(i as int)),
                out@ == guest_ips_of(seen),
            decreases ifaces@.len() - i,
        {
            let addrs: &Vec<GuestAddr> = &ifaces[i].ip_addresses;
            let mut j: usize = 0;
            let ghost base = seen;
            assert(base + addrs@.take(0) =~= base);
            while j < addrs.len()
                invariant
                    j <= addrs@.len(),
                    seen == base + addrs@.take(j as int),
                    out@ == guest_ips_of(seen),
                decreases addrs@.len() - j,
            {
                out.add(&addrs[j], Ghost(seen));
                proof {
                    assert(base + addrs@.take(j + 1) =~= seen.push(addrs@[j as int]));
                    seen = seen.push(addrs@[j as int]);
                }
                j = j + 1;
            }
            assert(addrs@.take(j as int) =~= addrs@);
            assert(ifaces@.take(i + 1).drop_last() =~= ifaces@.take(i as int));
            i = i + 1;
        }
        assert(ifaces@.take(i as int) =~= ifaces@);
        out
    }
}

} // verus!
