//! What is asked of the node in the background, and what is told to the dashboard.
//!
//! The worker is at one stage at a time. A stage says what to do next; what came of it leads to
//! the next stage, with news for the dashboard.
use vstd::prelude::*;

use crate::dashboard::{
    ActionKind, CreateOutcome, CreateOutcomeView, Req, ReqView, Update, UpdateView,
};
use crate::model::{vm_views, GuestIps, GuestIpsView, Vm, VmView};
use crate::node::{CreateSpec, CreateSpecView};
use crate::text::opt_text;

verus! {

/// How long the worker waits for a request before it fetches the list again, in seconds.
pub const REFRESH: u64 = 3;

/// Where the worker is.
pub enum Stage {
    /// Fetching the list.
    Listing,
    /// Waiting for a request.
    Waiting,
    LookingUpIps(u32),
    LookingUpNextId,
    Acting { vmid: u32, kind: ActionKind },
    Creating(CreateSpec),
    /// Fetching the list with the new VM in it.
    ListingNew { spec_: CreateSpec, vmid: u32 },
    WaitingForIps { spec_: CreateSpec, vmid: u32 },
    WritingEntry { spec_: CreateSpec, vmid: u32, ips: GuestIps },
    /// Fetching the list once a VM was created, or was not.
    ListingLast,
    Stopped,
}

pub enum StageView {
    Listing,
    Waiting,
    LookingUpIps(u32),
    LookingUpNextId,
    Acting { vmid: u32, kind: ActionKind },
    Creating(CreateSpecView),
    ListingNew { spec_: CreateSpecView, vmid: u32 },
    WaitingForIps { spec_: CreateSpecView, vmid: u32 },
    WritingEntry { spec_: CreateSpecView, vmid: u32, ips: GuestIpsView },
    ListingLast,
    Stopped,
}

impl View for Stage {
    type V = StageView;

    open spec fn view(&self) -> StageView {
        match self {
            Stage::Listing => StageView::Listing,
            Stage::Waiting => StageView::Waiting,
            Stage::LookingUpIps(n) => StageView::LookingUpIps(*n),
            Stage::LookingUpNextId => StageView::LookingUpNextId,
            Stage::Acting { vmid, kind } => StageView::Acting { vmid: *vmid, kind: *kind },
            Stage::Creating(s) => StageView::Creating(s@),
            Stage::ListingNew { spec_, vmid } => StageView::ListingNew {
                spec_: spec_@,
                vmid: *vmid,
            },
            Stage::WaitingForIps { spec_, vmid } => StageView::WaitingForIps {
                spec_: spec_@,
                vmid: *vmid,
            },
            Stage::WritingEntry { spec_, vmid, ips } => StageView::WritingEntry {
                spec_: spec_@,
                vmid: *vmid,
                ips: ips@,
            },
            Stage::ListingLast => StageView::ListingLast,
            Stage::Stopped => StageView::Stopped,
        }
    }
}

/// What the worker is to do.
#[derive(Debug, Clone, Copy, PartialEq, Eq, Structural)]
pub enum Work {
    /// Wait for a request, for so many seconds.
    Receive(u64),
    ListVms,
    LookUpIps(u32),
    LookUpNextId,
    Act { vmid: u32, kind: ActionKind },
    /// Create the VM that is being created.
    Create,
    /// Wait for the addresses of a VM, for so many seconds.
    WaitForIps { vmid: u32, want_tailscale: bool, seconds: u64 },
    /// Write the SSH configuration for the VM that is being created.
    WriteEntry,
    Stop,
}

/// What came of it.
pub enum Event {
    Request(Req),
    /// No request came in time.
    Timeout,
    /// No request can come any more, or nobody hears the news.
    Gone,
    Vms(Result<Vec<Vm>, String>),
    Ips(Result<GuestIps, String>),
    NextId(Result<u32, String>),
    Acted(Result<(), String>),
    Created(Result<u32, String>),
    Waited(GuestIps),
    Written(Option<String>),
}

pub enum EventView {
    Request(ReqView),
    Timeout,
    Gone,
    Vms(Result<Seq<VmView>, Seq<char>>),
    Ips(Result<GuestIpsView, Seq<char>>),
    NextId(Result<u32, Seq<char>>),
    Acted(Result<(), Seq<char>>),
    Created(Result<u32, Seq<char>>),
    Waited(GuestIpsView),
    Written(Option<Seq<char>>),
}

impl View for Event {
    type V = EventView;

    open spec fn view(&self) -> EventView {
        match self {
            Event::Request(r) => EventView::Request(r@),
            Event::Timeout => EventView::Timeout,
            Event::Gone => EventView::Gone,
            Event::Vms(r) => EventView::Vms(
                match r {
                    Ok(v) => Ok(vm_views(v@)),
                    Err(e) => Err(e@),
                },
            ),
            Event::Ips(r) => EventView::Ips(
                match r {
                    Ok(i) => Ok(i@),
                    Err(e) => Err(e@),
                },
            ),
            Event::NextId(r) => EventView::NextId(
                match r {
                    Ok(n) => Ok(*n),
                    Err(e) => Err(e@),
                },
            ),
            Event::Acted(r) => EventView::Acted(
                match r {
                    Ok(_) => Ok(()),
                    Err(e) => Err(e@),
                },
            ),
            Event::Created(r) => EventView::Created(
                match r {
                    Ok(n) => Ok(*n),
                    Err(e) => Err(e@),
                },
            ),
            Event::Waited(i) => EventView::Waited(i@),
            Event::Written(a) => EventView::Written(opt_text(*a)),
        }
    }
}

/// News for the dashboard. Where news that is `required` cannot be told, the worker stops.
pub struct News {
    pub update: Update,
    pub required: bool,
}

#[verifier::ext_equal]
pub struct NewsView {
    pub update: UpdateView,
    pub required: bool,
}

impl View for News {
    type V = NewsView;

    open spec fn view(&self) -> NewsView {
        NewsView { update: self.update@, required: self.required }
    }
}

impl DeepView for News {
    type V = NewsView;

    open spec fn deep_view(&self) -> NewsView {
        self@
    }
}

pub open spec fn needed(update: UpdateView) -> Seq<NewsView> {
    seq![NewsView { update, required: true }]
}

/// The list, or why there is none.
pub open spec fn list_news(r: Result<Seq<VmView>, Seq<char>>) -> UpdateView {
    match r {
        Ok(vms) => UpdateView::Vms(vms),
        Err(e) => UpdateView::Error(e),
    }
}

/// The list, where there is one and somebody hears of it.
pub open spec fn passing_news(r: Result<Seq<VmView>, Seq<char>>) -> Seq<NewsView> {
    match r {
        Ok(vms) => seq![NewsView { update: UpdateView::Vms(vms), required: false }],
        Err(_) => Seq::empty(),
    }
}

/// The news of a VM that was created.
pub open spec fn created_news(
    s: CreateSpecView,
    vmid: u32,
    ips: GuestIpsView,
    ssh_alias: Option<Seq<char>>,
) -> Seq<NewsView> {
    needed(
        UpdateView::CreateDone(
            Ok(
                CreateOutcomeView {
                    vmid,
                    name: s.name,
                    user: s.ci_user,
                    started: s.start,
                    ips,
                    ssh_alias,
                },
            ),
        ),
    )
}

pub open spec fn no_ips() -> GuestIpsView {
    GuestIpsView { lan: None, tailscale: None }
}

impl StageView {
    /// What is done at a stage. The addresses of a new VM are waited for so many seconds as the
    /// settings say.
    pub open spec fn work(self, ip_timeout: u64) -> Work {
        match self {
            StageView::Waiting => Work::Receive(REFRESH),
            StageView::Listing | StageView::ListingNew { .. } | StageView::ListingLast =>
            Work::ListVms,
            StageView::LookingUpIps(vmid) => Work::LookUpIps(vmid),
            StageView::LookingUpNextId => Work::LookUpNextId,
            StageView::Acting { vmid, kind } => Work::Act { vmid, kind },
            StageView::Creating(_) => Work::Create,
            StageView::WaitingForIps { spec_, vmid } => Work::WaitForIps {
                vmid,
                want_tailscale: spec_.tailscale,
                seconds: ip_timeout,
            },
            StageView::WritingEntry { .. } => Work::WriteEntry,
            StageView::Stopped => Work::Stop,
        }
    }

    /// Whether an event is what came of what is done at a stage.
    pub open spec fn answered_by(self, e: EventView) -> bool {
        match self {
            StageView::Waiting => e is Request || e is Timeout,
            StageView::Listing | StageView::ListingNew { .. } | StageView::ListingLast => e is Vms,
            StageView::LookingUpIps(_) => e is Ips,
            StageView::LookingUpNextId => e is NextId,
            StageView::Acting { .. } => e is Acted,
            StageView::Creating(_) => e is Created,
            StageView::WaitingForIps { .. } => e is Waited,
            StageView::WritingEntry { .. } => e is Written,
            StageView::Stopped => false,
        }
    }

    /// The stage that a request leads to.
    pub open spec fn serving(r: ReqView) -> StageView {
        match r {
            ReqView::Refresh => StageView::Listing,
            ReqView::Ips(vmid) => StageView::LookingUpIps(vmid),
            ReqView::NextId => StageView::LookingUpNextId,
            ReqView::Action { vmid, kind } => StageView::Acting { vmid, kind },
            ReqView::Create(s) => StageView::Creating(s),
        }
    }

    /// The stage after an event, and the news that it brings. An event that is no answer to what
    /// is being done changes nothing.
    pub open spec fn after(self, e: EventView) -> (StageView, Seq<NewsView>) {
        match (self, e) {
            (_, EventView::Gone) => (StageView::Stopped, Seq::empty()),
            (StageView::Waiting, EventView::Request(r)) => (Self::serving(r), Seq::empty()),
            (StageView::Waiting, EventView::Timeout) => (StageView::Listing, Seq::empty()),
            (StageView::Listing, EventView::Vms(r)) => (
                StageView::Waiting,
                needed(list_news(r)),
            ),
            (StageView::LookingUpIps(vmid), EventView::Ips(result)) => (
                StageView::Waiting,
                needed(UpdateView::Ips { vmid, result }),
            ),
            (StageView::LookingUpNextId, EventView::NextId(Ok(id))) => (
                StageView::Waiting,
                needed(UpdateView::NextId(id)),
            ),
            (StageView::LookingUpNextId, EventView::NextId(Err(_))) => (
                StageView::Waiting,
                Seq::empty(),
            ),
            (StageView::Acting { vmid, kind }, EventView::Acted(result)) => (
                StageView::Listing,
                needed(UpdateView::ActionDone { kind, result }),
            ),
            (StageView::Creating(spec_), EventView::Created(Ok(vmid))) => (
                StageView::ListingNew { spec_, vmid },
                Seq::empty(),
            ),
            (StageView::Creating(_), EventView::Created(Err(m))) => (
                StageView::ListingLast,
                needed(UpdateView::CreateDone(Err(m))),
            ),
            (StageView::ListingNew { spec_, vmid }, EventView::Vms(r)) => if spec_.start {
                (StageView::WaitingForIps { spec_, vmid }, passing_news(r))
            } else {
                (
                    StageView::ListingLast,
                    passing_news(r) + created_news(spec_, vmid, no_ips(), None),
                )
            },
            (StageView::WaitingForIps { spec_, vmid }, EventView::Waited(ips)) =>
            if spec_.tailscale {
                (StageView::WritingEntry { spec_, vmid, ips }, Seq::empty())
            } else {
                (StageView::ListingLast, created_news(spec_, vmid, ips, None))
            },
            (StageView::WritingEntry { spec_, vmid, ips }, EventView::Written(alias)) => (
                StageView::ListingLast,
                created_news(spec_, vmid, ips, alias),
            ),
            (StageView::ListingLast, EventView::Vms(r)) => (StageView::Waiting, passing_news(r)),
            _ => (self, Seq::empty()),
        }
    }
}

fn no_news() -> (r: Vec<News>)
    ensures
        r.deep_view() == Seq::<NewsView>::empty(),
{
    let r: Vec<News> = Vec::new();
    assert(r.deep_view() =~= Seq::<NewsView>::empty());
    r
}

fn one_news(update: Update, required: bool) -> (r: Vec<News>)
    ensures
        r.deep_view() == seq![NewsView { update: update@, required }],
        r@ == seq![News { update, required }],
{
    let r: Vec<News> = vec![News { update, required }];
    assert(r.deep_view() =~= seq![NewsView { update: update@, required }]);
    r
}

fn list_in_passing(r: Result<Vec<Vm>, String>) -> (n: Vec<News>)
    ensures
        n.deep_view() == passing_news(
            match r {
                Ok(v) => Ok(vm_views(v@)),
                Err(e) => Err(e@),
            },
        ),
{
    match r {
        Ok(vms) => one_news(Update::Vms(vms), false),
        Err(_) => no_news(),
    }
}

fn outcome_of(spec_: CreateSpec, vmid: u32, ips: GuestIps, ssh_alias: Option<String>) -> (r:
    Update)
    ensures
        seq![NewsView { update: r@, required: true }] == created_news(
            spec_@,
            vmid,
            ips@,
            opt_text(ssh_alias),
        ),
{
    Update::CreateDone(
        Ok(
            CreateOutcome {
                vmid,
                name: spec_.name,
                user: spec_.ci_user,
                started: spec_.start,
                ips,
                ssh_alias,
            },
        ),
    )
}

impl Stage {
    /// The worker as it starts: with the list.
    pub fn new() -> (r: Stage)
        ensures
            r@ == StageView::Listing,
    {
        Stage::Listing
    }

    /// What is to be done. The addresses of a new VM are waited for so many seconds as the
    /// settings say.
    pub fn work(&self, ip_timeout: u64) -> (r: Work)
        ensures
            r == self@.work(ip_timeout),
    {
        match self {
            Stage::Waiting => Work::Receive(REFRESH),
            Stage::Listing | Stage::ListingNew { .. } | Stage::ListingLast => Work::ListVms,
            Stage::LookingUpIps(vmid) => Work::LookUpIps(*vmid),
            Stage::LookingUpNextId => Work::LookUpNextId,
            Stage::Acting { vmid, kind } => Work::Act { vmid: *vmid, kind: *kind },
            Stage::Creating(_) => Work::Create,
            Stage::WaitingForIps { spec_, vmid } => Work::WaitForIps {
                vmid: *vmid,
                want_tailscale: spec_.tailscale,
                seconds: ip_timeout,
            },
            Stage::WritingEntry { .. } => Work::WriteEntry,
            Stage::Stopped => Work::Stop,
        }
    }

    /// The VM that is being created.
    pub fn new_vm(&self) -> (r: Option<&CreateSpec>)
        ensures
            match (self@, r) {
                (StageView::Creating(s), Some(t)) => t@ == s,
                (StageView::ListingNew { spec_, .. }, Some(t)) => t@ == spec_,
                (StageView::WaitingForIps { spec_, .. }, Some(t)) => t@ == spec_,
                (StageView::WritingEntry { spec_, .. }, Some(t)) => t@ == spec_,
                (StageView::Creating(_), None) => false,
                (StageView::ListingNew { .. }, None) => false,
                (StageView::WaitingForIps { .. }, None) => false,
                (StageView::WritingEntry { .. }, None) => false,
                (_, t) => t is None,
            },
    {
        match self {
            Stage::Creating(s) => Some(s),
            Stage::ListingNew { spec_, .. } => Some(spec_),
            Stage::WaitingForIps { spec_, .. } => Some(spec_),
            Stage::WritingEntry { spec_, .. } => Some(spec_),
            _ => None,
        }
    }

    /// Goes on to the next stage with what came of the work, and says what is to be told to the
    /// dashboard.
    pub fn after(self, event: Event) -> (r: (Stage, Vec<News>))
        ensures
            (r.0@, r.1.deep_view()) == self@.after(event@),
            self matches Stage::LookingUpIps(vmid) ==> (event matches Event::Ips(result) ==> r.1@.len()
                == 1 && r.1@[0].required && r.1@[0].update == (Update::Ips { vmid, result })),
    {
        match (self, event) {
            (_, Event::Gone) => (Stage::Stopped, no_news()),
            (Stage::Waiting, Event::Request(q)) => {
                let next: Stage = match q {
                    Req::Refresh => Stage::Listing,
                    Req::Ips(vmid) => Stage::LookingUpIps(vmid),
                    Req::NextId => Stage::LookingUpNextId,
                    Req::Action { vmid, kind } => Stage::Acting { vmid, kind },
                    Req::Create(s) => Stage::Creating(s),
                };
                (next, no_news())
            },
            (Stage::Waiting, Event::Timeout) => (Stage::Listing, no_news()),
            (Stage::Listing, Event::Vms(Ok(vms))) => (
                Stage::Waiting,
                one_news(Update::Vms(vms), true),
            ),
            (Stage::Listing, Event::Vms(Err(e))) => (
                Stage::Waiting,
                one_news(Update::Error(e), true),
            ),
            (Stage::LookingUpIps(vmid), Event::Ips(result)) => (
                Stage::Waiting,
                one_news(Update::Ips { vmid, result }, true),
            ),
            (Stage::LookingUpNextId, Event::NextId(Ok(id))) => (
                Stage::Waiting,
                one_news(Update::NextId(id), true),
            ),
            (Stage::LookingUpNextId, Event::NextId(Err(_))) => (Stage::Waiting, no_news()),
            (Stage::Acting { vmid: _, kind }, Event::Acted(result)) => (
                Stage::Listing,
                one_news(Update::ActionDone { kind, result }, true),
            ),
            (Stage::Creating(spec_), Event::Created(Ok(vmid))) => (
                Stage::ListingNew { spec_, vmid },
                no_news(),
            ),
            (Stage::Creating(_), Event::Created(Err(m))) => (
                Stage::ListingLast,
                one_news(Update::CreateDone(Err(m)), true),
            ),
            (Stage::ListingNew { spec_, vmid }, Event::Vms(r)) => {
                let mut news: Vec<News> = list_in_passing(r);
                if spec_.start {
                    (Stage::WaitingForIps { spec_, vmid }, news)
                } else {
                    let ghost before = news.deep_view();
                    let update: Update = outcome_of(spec_, vmid, GuestIps::default(), None);
                    let ghost told = NewsView { update: update@, required: true };
                    news.push(News { update, required: true });
                    assert(news.deep_view() =~= before + seq![told]);
                    (Stage::ListingLast, news)
                }
            },
            (Stage::WaitingForIps { spec_, vmid }, Event::Waited(ips)) => {
                if spec_.tailscale {
                    (Stage::WritingEntry { spec_, vmid, ips }, no_news())
                } else {
                    (Stage::ListingLast, one_news(outcome_of(spec_, vmid, ips, None), true))
                }
            },
            (Stage::WritingEntry { spec_, vmid, ips }, Event::Written(alias)) => (
                Stage::ListingLast,
                one_news(outcome_of(spec_, vmid, ips, alias), true),
            ),
            (Stage::ListingLast, Event::Vms(r)) => (Stage::Waiting, list_in_passing(r)),
            (s, _) => (s, no_news()),
        }
    }
}

// ---------------------------------------------------------------------------------------------
// Laws.
/// How many answers the worker still needs before it waits for a request again, at most.
pub open spec fn answers_left(s: StageView) -> nat {
    match s {
        StageView::Waiting | StageView::Stopped => 0,
        StageView::Listing | StageView::LookingUpIps(_) | StageView::LookingUpNextId
        | StageView::ListingLast => 1,
        StageView::Acting { .. } | StageView::WritingEntry { .. } => 2,
        StageView::WaitingForIps { .. } => 3,
        StageView::ListingNew { .. } => 4,
        StageView::Creating(_) => 5,
    }
}

/// Every answer brings the worker nearer to its next request: no request keeps it busy for ever.
pub proof fn every_answer_leads_on(s: StageView, e: EventView)
    requires
        s !is Waiting,
        s.answered_by(e),
    ensures
        answers_left(s.after(e).0) < answers_left(s),
        s.after(e).0 !is Stopped,
{
}

/// What is no answer changes nothing and brings no news, but for the end of all requests.
pub proof fn other_events_are_not_heeded(s: StageView, e: EventView)
    requires
        !s.answered_by(e),
        e !is Gone,
    ensures
        s.after(e) == (s, Seq::<NewsView>::empty()),
{
}

/// A worker that stopped stays so and says nothing.
pub proof fn a_stopped_worker_is_silent(e: EventView)
    ensures
        StageView::Stopped.after(e) == (StageView::Stopped, Seq::<NewsView>::empty()),
{
}

/// Whether a VM is being created.
pub open spec fn is_creating(s: StageView) -> bool {
    s is Creating || s is ListingNew || s is WaitingForIps || s is WritingEntry
}

/// What came of creating a VM is told once, with the last of the answers that it takes, and
/// never at another time.
pub proof fn a_creation_is_told_once(s: StageView, e: EventView, i: int)
    requires
        0 <= i < s.after(e).1.len(),
    ensures
        s.after(e).1[i].update is CreateDone <==> is_creating(s) && !is_creating(s.after(e).0) && i
            == s.after(e).1.len() - 1,
        s.after(e).1[i].update is CreateDone ==> s.after(e).1[i].required && s.after(e).0
            is ListingLast,
{
}

/// A creation that is under way and answered stays under way or is told.
pub proof fn a_creation_ends_with_its_news(s: StageView, e: EventView)
    requires
        is_creating(s),
        s.answered_by(e),
    ensures
        is_creating(s.after(e).0) || (s.after(e).1.len() > 0 && s.after(e).1.last().update
            is CreateDone),
{
}

/// Addresses are waited for only where the new VM was started, and the SSH configuration is
/// written only where it was started and joins a tailnet.
pub proof fn only_started_vms_are_waited_for(s: StageView, e: EventView)
    requires
        s matches StageView::WaitingForIps { spec_, .. } ==> spec_.start,
    ensures
        s.after(e).0 matches StageView::WaitingForIps { spec_, .. } ==> spec_.start,
        s.after(e).0 matches StageView::WritingEntry { spec_, .. } ==> s is WritingEntry || (
        spec_.start && spec_.tailscale),
{
}

/// A worker without requests fetches the list again every three seconds, and tells it.
pub proof fn an_idle_worker_refreshes_the_list(
    ip_timeout: u64,
    r: Result<Seq<VmView>, Seq<char>>,
)
    ensures
        StageView::Waiting.work(ip_timeout) == Work::Receive(3),
        StageView::Waiting.after(EventView::Timeout).0 == StageView::Listing,
        StageView::Listing.after(EventView::Vms(r)) == (StageView::Waiting, needed(list_news(r))),
{
}

/// After something was done to a VM, the list is fetched again at once.
pub proof fn an_action_is_followed_by_the_list(
    vmid: u32,
    kind: ActionKind,
    r: Result<(), Seq<char>>,
)
    ensures
        (StageView::Acting { vmid, kind }).after(EventView::Acted(r)).0 == StageView::Listing,
{
}

/// An address lookup that was answered is told unchanged: the only news is the answer that the
/// node gave, with the id of the VM that was asked, and its two addresses each in its place.
pub proof fn addresses_are_told_as_they_came(
    vmid: u32,
    ips: GuestIpsView,
    why: Seq<char>,
)
    ensures
        ({
            let (next, news) = StageView::LookingUpIps(vmid).after(EventView::Ips(Ok(ips)));
            &&& next == StageView::Waiting
            &&& news.len() == 1 && news[0].required
            &&& news[0].update matches UpdateView::Ips { vmid: told, result } && told == vmid && (
            result matches Ok(r) && r.lan == ips.lan && r.tailscale == ips.tailscale)
        }),
        ({
            let (next, news) = StageView::LookingUpIps(vmid).after(EventView::Ips(Err(why)));
            &&& next == StageView::Waiting
            &&& news.len() == 1 && news[0].required
            &&& news[0].update matches UpdateView::Ips { vmid: told, result } && told == vmid
                && result == Err::<GuestIpsView, Seq<char>>(why)
        }),
{
}

/// A list that came is told as it came, VM by VM, and one that did not is told by its reason.
pub proof fn the_list_is_told_as_it_came(vms: Seq<VmView>, why: Seq<char>)
    ensures
        ({
            let (next, news) = StageView::Listing.after(EventView::Vms(Ok(vms)));
            &&& next == StageView::Waiting
            &&& news.len() == 1 && news[0].required
            &&& news[0].update == UpdateView::Vms(vms)
        }),
        ({
            let (next, news) = StageView::Listing.after(EventView::Vms(Err(why)));
            &&& next == StageView::Waiting
            &&& news.len() == 1 && news[0].required
            &&& news[0].update == UpdateView::Error(why)
        }),
        ({
            let (next, news) = StageView::ListingLast.after(EventView::Vms(Ok(vms)));
            &&& next == StageView::Waiting
            &&& news.len() == 1 && !news[0].required
            &&& news[0].update == UpdateView::Vms(vms)
        }),
        StageView::ListingLast.after(EventView::Vms(Err(why))) == (
            StageView::Waiting,
            Seq::<NewsView>::empty(),
        ),
{
}

/// The next free id is told as it came, and not at all where it did not come.
pub proof fn the_next_id_is_told_as_it_came(id: u32, why: Seq<char>)
    ensures
        ({
            let (next, news) = StageView::LookingUpNextId.after(EventView::NextId(Ok(id)));
            &&& next == StageView::Waiting
            &&& news.len() == 1 && news[0].required
            &&& news[0].update == UpdateView::NextId(id)
        }),
        StageView::LookingUpNextId.after(EventView::NextId(Err(why))) == (
            StageView::Waiting,
            Seq::<NewsView>::empty(),
        ),
{
}

/// What came of an action is told with the action that it was, whether it succeeded or not.
pub proof fn an_action_is_told_as_it_ended(vmid: u32, kind: ActionKind, why: Seq<char>)
    ensures
        ({
            let news = (StageView::Acting { vmid, kind }).after(EventView::Acted(Ok(()))).1;
            &&& news.len() == 1 && news[0].required
            &&& news[0].update == (UpdateView::ActionDone { kind, result: Ok(()) })
        }),
        ({
            let news = (StageView::Acting { vmid, kind }).after(EventView::Acted(Err(why))).1;
            &&& news.len() == 1 && news[0].required
            &&& news[0].update == (UpdateView::ActionDone { kind, result: Err(why) })
        }),
{
}

/// A request that comes is served as it was put: what is then done is about the VM, the action
/// and the new VM that the request is about.
pub proof fn requests_are_served_as_they_are_put(
    vmid: u32,
    kind: ActionKind,
    spec_: CreateSpecView,
    ip_timeout: u64,
)
    ensures
        ({
            let s = StageView::Waiting.after(EventView::Request(ReqView::Refresh)).0;
            s.work(ip_timeout) == Work::ListVms && s == StageView::Listing
        }),
        ({
            let s = StageView::Waiting.after(EventView::Request(ReqView::Ips(vmid))).0;
            s.work(ip_timeout) == Work::LookUpIps(vmid) && s == StageView::LookingUpIps(vmid)
        }),
        ({
            let s = StageView::Waiting.after(EventView::Request(ReqView::NextId)).0;
            s.work(ip_timeout) == Work::LookUpNextId && s == StageView::LookingUpNextId
        }),
        ({
            let s = StageView::Waiting.after(
                EventView::Request(ReqView::Action { vmid, kind }),
            ).0;
            s.work(ip_timeout) == (Work::Act { vmid, kind }) && s == (StageView::Acting {
                vmid,
                kind,
            })
        }),
        ({
            let s = StageView::Waiting.after(EventView::Request(ReqView::Create(spec_))).0;
            s.work(ip_timeout) == Work::Create && s == StageView::Creating(spec_)
        }),
        StageView::Waiting.after(EventView::Gone).0.work(ip_timeout) == Work::Stop,
{
}

/// A new VM goes its way with the id that the node gave it and as it was asked for: a started one
/// is waited for, for as long as the settings say, and for a Tailscale address where it joins a
/// tailnet; only such a one is written into the SSH configuration; and what is told at the end is
/// its id, its name, its user, whether it was started, the addresses that were found, each in its
/// place, and the name that was written.
pub proof fn a_new_vm_is_told_as_it_became(
    s: CreateSpecView,
    vmid: u32,
    list: Result<Seq<VmView>, Seq<char>>,
    ips: GuestIpsView,
    alias: Option<Seq<char>>,
    ip_timeout: u64,
)
    ensures
        ({
            let listed = StageView::Creating(s).after(EventView::Created(Ok(vmid)));
            let waited = listed.0.after(EventView::Vms(list));
            let found = waited.0.after(EventView::Waited(ips));
            let written = found.0.after(EventView::Written(alias));
            &&& listed.1.len() == 0 && listed.0.work(ip_timeout) == Work::ListVms
            &&& s.start ==> waited.0.work(ip_timeout) == (Work::WaitForIps {
                vmid,
                want_tailscale: s.tailscale,
                seconds: ip_timeout,
            })
            &&& s.start && s.tailscale ==> found.1.len() == 0 && found.0.work(ip_timeout)
                == Work::WriteEntry && written.1.len() == 1 && (
            written.1[0].update matches UpdateView::CreateDone(Ok(o)) && o.vmid == vmid && o.name
                == s.name && o.user == s.ci_user && o.started && o.ips.lan == ips.lan
                && o.ips.tailscale == ips.tailscale && o.ssh_alias == alias)
            &&& s.start && !s.tailscale ==> found.1.len() == 1 && (
            found.1[0].update matches UpdateView::CreateDone(Ok(o)) && o.vmid == vmid && o.name
                == s.name && o.user == s.ci_user && o.started && o.ips.lan == ips.lan
                && o.ips.tailscale == ips.tailscale && o.ssh_alias is None)
            &&& !s.start ==> waited.1.len() > 0 && (
            waited.1.last().update matches UpdateView::CreateDone(Ok(o)) && o.vmid == vmid
                && o.name == s.name && o.user == s.ci_user && !o.started && o.ips.lan is None
                && o.ips.tailscale is None && o.ssh_alias is None)
            &&& list matches Ok(vms) ==> waited.1.len() == (if s.start { 1 } else { 2 as int })
                && waited.1[0].update == UpdateView::Vms(vms) && !waited.1[0].required
            &&& list is Err ==> waited.1.len() == (if s.start { 0 } else { 1 as int })
        }),
{
}

/// A creation that failed is told by its reason, and the list is fetched after it as after one
/// that succeeded.
pub proof fn a_failed_creation_is_told_by_its_reason(
    s: CreateSpecView,
    why: Seq<char>,
    ip_timeout: u64,
)
    ensures
        ({
            let (next, news) = StageView::Creating(s).after(EventView::Created(Err(why)));
            &&& next.work(ip_timeout) == Work::ListVms
            &&& news.len() == 1 && news[0].required
            &&& news[0].update == UpdateView::CreateDone(Err(why))
        }),
{
}

/// What comes to the worker, where it is, and what it tells are seen as they are.
pub proof fn the_worker_is_seen_as_it_is(
    vmid: u32,
    kind: ActionKind,
    spec_: CreateSpec,
    ips: GuestIps,
    text: String,
)
    ensures
        Stage::LookingUpIps(vmid)@ == StageView::LookingUpIps(vmid),
        (Stage::Acting { vmid, kind })@ == (StageView::Acting { vmid, kind }),
        Stage::Creating(spec_)@ == StageView::Creating(spec_@),
        (Stage::WaitingForIps { spec_, vmid })@ == (StageView::WaitingForIps {
            spec_: spec_@,
            vmid,
        }),
        (Stage::WritingEntry { spec_, vmid, ips })@ == (StageView::WritingEntry {
            spec_: spec_@,
            vmid,
            ips: ips@,
        }),
        Event::Ips(Ok(ips))@ == EventView::Ips(Ok(ips@)),
        Event::Ips(Err(text))@ == EventView::Ips(Err(text@)),
        Event::Waited(ips)@ == EventView::Waited(ips@),
        Event::Created(Ok(vmid))@ == EventView::Created(Ok(vmid)),
        (Update::Ips { vmid, result: Ok(ips) })@ == (UpdateView::Ips { vmid, result: Ok(ips@) }),
        (Update::Ips { vmid, result: Err(text) })@ == (UpdateView::Ips {
            vmid,
            result: Err(text@),
        }),
        (Req::Action { vmid, kind })@ == (ReqView::Action { vmid, kind }),
        Req::Ips(vmid)@ == ReqView::Ips(vmid),
        Req::Create(spec_)@ == ReqView::Create(spec_@),
{
}

/// Once nobody sends requests or hears the news any more, the worker stops, wherever it is, and
/// says nothing.
pub proof fn a_deserted_worker_stops(s: StageView, ip_timeout: u64)
    ensures
        s.after(EventView::Gone) == (StageView::Stopped, Seq::<NewsView>::empty()),
        s.after(EventView::Gone).0.work(ip_timeout) == Work::Stop,
{
}

/// What the worker is told, and what it tells, is seen as it is.
pub proof fn news_is_seen_as_it_is(
    n: News,
    vms: Vec<Vm>,
    text: String,
    id: u32,
    kind: ActionKind,
    o: CreateOutcome,
)
    ensures
        n.deep_view().update == n.update@ && n.deep_view().required == n.required,
        Update::Vms(vms)@ == UpdateView::Vms(vm_views(vms@)),
        vm_views(vms@).len() == vms@.len(),
        forall|i: int| 0 <= i < vms@.len() ==> #[trigger] vm_views(vms@)[i] == vms@[i]@,
        Update::Error(text)@ == UpdateView::Error(text@),
        (Update::ActionDone { kind, result: Ok(()) })@ == (UpdateView::ActionDone {
            kind,
            result: Ok(()),
        }),
        (Update::ActionDone { kind, result: Err(text) })@ == (UpdateView::ActionDone {
            kind,
            result: Err(text@),
        }),
        Update::CreateDone(Ok(o))@ == UpdateView::CreateDone(Ok(o@)),
        Update::CreateDone(Err(text))@ == UpdateView::CreateDone(Err(text@)),
        Update::NextId(id)@ == UpdateView::NextId(id),
        Event::Vms(Ok(vms))@ == EventView::Vms(Ok(vm_views(vms@))),
        Event::Vms(Err(text))@ == EventView::Vms(Err(text@)),
        Event::NextId(Ok(id))@ == EventView::NextId(Ok(id)),
        Event::Acted(Ok(()))@ == EventView::Acted(Ok(())),
        Event::Acted(Err(text))@ == EventView::Acted(Err(text@)),
        Event::Created(Err(text))@ == EventView::Created(Err(text@)),
        Event::Written(Some(text))@ == EventView::Written(Some(text@)),
        Event::Written(None)@ == EventView::Written(None),
{
}

} // verus!
