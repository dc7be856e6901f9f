//! The UI Automation providers that let announcer windows raise notifications on
//! Windows: at most one per window, installed on demand and released when the
//! window goes away.
use vstd::prelude::*;
use std::collections::HashMap;
use crate::announce::Announcement;
use crate::priority::Priority;
use crate::uia::{processing, processing_for, NotificationProcessing};

verus! {

broadcast use vstd::std_specs::hash::group_hash_axioms;

/// `WM_GETOBJECT`: a client asks a window for its accessibility object.
pub const WM_GETOBJECT: u32 = 0x003D;

/// `WM_NCDESTROY`: the last message a window receives.
pub const WM_NCDESTROY: u32 = 0x0082;

/// `UiaRootObjectId`: the object id with which UI Automation asks for a window's provider.
pub const UIA_ROOT_OBJECT_ID: isize = -25;

/// What the announcer window's message hook does with a message.
#[derive(Clone, Copy, Debug, PartialEq, Eq, Structural)]
pub enum WindowMessageAction {
    /// Answer with the window's provider.
    ServeProvider,
    /// The window is going away: its provider has been let go; remove the hook, then pass the message on.
    ReleaseWindow,
    /// Pass the message on to the window's own handling.
    PassOn,
}

/// What the hook does with `msg` (carrying `lparam`) for a window that has a provider or not.
pub open spec fn message_action(msg: u32, lparam: isize, registered: bool) -> WindowMessageAction {
    if msg == WM_GETOBJECT && lparam == UIA_ROOT_OBJECT_ID && registered {
        WindowMessageAction::ServeProvider
    } else if msg == WM_NCDESTROY {
        WindowMessageAction::ReleaseWindow
    } else {
        WindowMessageAction::PassOn
    }
}

/// The providers after the hook of window `key` has handled `msg`.
pub open spec fn providers_after_message<P>(m: Map<isize, P>, key: isize, msg: u32) -> Map<isize, P> {
    if msg == WM_NCDESTROY {
        m.remove(key)
    } else {
        m
    }
}

/// Where a request stands.
#[derive(Clone, Copy, Debug, PartialEq, Eq, Structural)]
pub enum Phase {
    /// Not started yet.
    Start,
    /// Waiting for a provider to be made.
    AwaitProvider,
    /// The provider is registered; waiting for the window to be hooked.
    AwaitInstall,
    /// The window has a provider; waiting to hear whether UI Automation clients listen.
    AwaitListeners,
    /// Waiting for the notification to be raised.
    AwaitRaise,
    /// Finished.
    Done,
}

/// What the platform layer does next for a request.
#[derive(Clone, Copy, Debug, PartialEq, Eq, Structural)]
pub enum Step {
    /// Make a provider for the window with this handle and report it with [`Event::ProviderMade`].
    MakeProvider(isize),
    /// Hook the window with this handle, whose provider is already registered, and
    /// report with [`Event::Installed`] whether that worked.
    Install(isize),
    /// Ask whether any UI Automation client listens and report it with [`Event::Listening`].
    AskListeners,
    /// Raise the request's text as a notification from the provider of this window,
    /// with this processing mode, and report with [`Event::Raised`] whether that worked.
    Raise(isize, NotificationProcessing),
    /// The request is over, with this result.
    Finish(bool),
}

/// The outcome of the step a request asked for last.
pub enum Event<P> {
    /// Nothing has happened yet: the request starts.
    Begin,
    /// The provider that was asked for.
    ProviderMade(P),
    /// Whether hooking the window worked.
    Installed(bool),
    /// Whether any UI Automation client listens.
    Listening(bool),
    /// Whether the notification was raised.
    Raised(bool),
}

/// A request to prepare a window for announcing or to announce from it: the
/// window's handle, the announcement (none when only preparing), and how far it got.
pub struct Request {
    handle: isize,
    speech: Option<Announcement>,
    phase: Phase,
}

impl View for Request {
    type V = (isize, Option<(Seq<char>, Priority)>, Phase);

    closed spec fn view(&self) -> (isize, Option<(Seq<char>, Priority)>, Phase) {
        (
            self.handle,
            match self.speech {
                Some(a) => Some(a@),
                None => None,
            },
            self.phase,
        )
    }
}

impl Request {
    /// A request that has got past its start concerns a real (non-null) window.
    #[verifier::type_invariant]
    spec fn well_formed(self) -> bool {
        self.phase == Phase::Start || self.phase == Phase::Done || self.handle != 0
    }

    /// Prepares the window with handle `handle` to announce, installing its provider
    /// if it has none yet; finishes with whether announcements can work there.
    pub fn set_live_region(handle: isize) -> (r: Request)
        ensures
            r@ == (handle, None::<(Seq<char>, Priority)>, Phase::Start),
    {
        Request { handle, speech: None, phase: Phase::Start }
    }

    /// Raises `announcement` from the window with handle `handle`, installing the
    /// window's provider first if it has none; finishes with whether it was raised.
    pub fn announce(handle: isize, announcement: Announcement) -> (r: Request)
        ensures
            r@ == (handle, Some(announcement@), Phase::Start),
    {
        Request { handle, speech: Some(announcement), phase: Phase::Start }
    }

    /// The text the request raises, if it raises one.
    pub fn text(&self) -> (r: Option<&str>)
        ensures
            match r {
                Some(t) => self@.1 is Some && t@ == (self@.1->0).0,
                None => self@.1 is None,
            },
    {
        match &self.speech {
            Some(a) => Some(a.text.as_str()),
            None => None,
        }
    }

    /// How far the request got.
    pub fn phase(&self) -> (r: Phase)
        ensures
            r == self@.2,
    {
        self.phase
    }
}

/// Where a request goes once its window has a provider: a preparation is done,
/// an announcement goes on to ask whether anyone listens.
pub open spec fn ready_for(speech: Option<(Seq<char>, Priority)>) -> (Phase, Step) {
    if speech is None {
        (Phase::Done, Step::Finish(true))
    } else {
        (Phase::AwaitListeners, Step::AskListeners)
    }
}

fn ready(speech: &Option<Announcement>) -> (r: (Phase, Step))
    ensures
        r == ready_for(
            match *speech {
                Some(a) => Some(a@),
                None => None,
            },
        ),
{
    match speech {
        None => (Phase::Done, Step::Finish(true)),
        Some(_) => (Phase::AwaitListeners, Step::AskListeners),
    }
}

/// One step of a request on the providers `m`: the providers afterwards, the
/// request's new phase and the step to perform. A null handle finishes with
/// `false` at once. A window that has a provider is not given another. A new
/// provider is registered before the window is hooked, and let go if hooking
/// fails. An announcement is raised, with the processing mode of its priority,
/// only once some client listens. An event that does not answer the last step
/// ends the request with `false`.
pub open spec fn transition<P>(
    m: Map<isize, P>,
    req: (isize, Option<(Seq<char>, Priority)>, Phase),
    ev: Event<P>,
) -> (Map<isize, P>, Phase, Step) {
    let h = req.0;
    match req.2 {
        Phase::Start => match ev {
            Event::Begin => if h == 0 {
                (m, Phase::Done, Step::Finish(false))
            } else if m.contains_key(h) {
                (m, ready_for(req.1).0, ready_for(req.1).1)
            } else {
                (m, Phase::AwaitProvider, Step::MakeProvider(h))
            },
            _ => (m, Phase::Done, Step::Finish(false)),
        },
        Phase::AwaitProvider => match ev {
            Event::ProviderMade(p) => (m.insert(h, p), Phase::AwaitInstall, Step::Install(h)),
            _ => (m, Phase::Done, Step::Finish(false)),
        },
        Phase::AwaitInstall => match ev {
            Event::Installed(ok) => if ok {
                (m, ready_for(req.1).0, ready_for(req.1).1)
            } else {
                (m.remove(h), Phase::Done, Step::Finish(false))
            },
            _ => (m, Phase::Done, Step::Finish(false)),
        },
        Phase::AwaitListeners => match ev {
            Event::Listening(l) => if l && req.1 is Some {
                (m, Phase::AwaitRaise, Step::Raise(h, processing_for((req.1->0).1)))
            } else {
                (m, Phase::Done, Step::Finish(false))
            },
            _ => (m, Phase::Done, Step::Finish(false)),
        },
        Phase::AwaitRaise => match ev {
            Event::Raised(b) => (m, Phase::Done, Step::Finish(b)),
            _ => (m, Phase::Done, Step::Finish(false)),
        },
        Phase::Done => (m, Phase::Done, Step::Finish(false)),
    }
}

/// A request driven through `events` from providers `m`: the providers afterwards,
/// the request afterwards, and the steps it asked for, in order.
pub open spec fn run<P>(
    m: Map<isize, P>,
    req: (isize, Option<(Seq<char>, Priority)>, Phase),
    events: Seq<Event<P>>,
) -> (Map<isize, P>, (isize, Option<(Seq<char>, Priority)>, Phase), Seq<Step>)
    decreases events.len(),
{
    if events.len() == 0 {
        (m, req, Seq::empty())
    } else {
        let (m1, phase, step) = transition(m, req, events[0]);
        let rest = run(m1, (req.0, req.1, phase), events.drop_first());
        (rest.0, rest.1, seq![step] + rest.2)
    }
}

/// One provider per announcer window, keyed by the window handle.
pub struct ProviderRegistry<P> {
    providers: HashMap<isize, P>,
}

impl<P> View for ProviderRegistry<P> {
    type V = Map<isize, P>;

    closed spec fn view(&self) -> Map<isize, P> {
        self.providers@
    }
}

impl<P> ProviderRegistry<P> {
    /// No provider is ever registered for the null window handle.
    #[verifier::type_invariant]
    spec fn well_formed(self) -> bool {
        !self.providers@.contains_key(0)
    }

    /// A registry with no providers.
    pub fn new() -> (r: Self)
        ensures
            r@ == Map::<isize, P>::empty(),
    {
        ProviderRegistry { providers: HashMap::new() }
    }

    /// Whether window `key` has a provider.
    pub fn is_registered(&self, key: isize) -> (r: bool)
        ensures
            r == self@.contains_key(key),
            !self@.contains_key(0),
    {
        proof {
            use_type_invariant(self);
        }
        self.providers.contains_key(&key)
    }

    /// The provider of window `key`, if it has one.
    pub fn get(&self, key: isize) -> (r: Option<&P>)
        ensures
            match r {
                Some(p) => self@.contains_key(key) && *p == self@[key],
                None => !self@.contains_key(key),
            },
            !self@.contains_key(0),
    {
        proof {
            use_type_invariant(self);
        }
        self.providers.get(&key)
    }

    /// Advances `request` by one step on `event`, the outcome of the previous step
    /// ([`Event::Begin`] to start). The platform layer performs the [`Step`] that
    /// comes back and reports its outcome with the next call, until
    /// [`Step::Finish`] gives the request's result. See [`transition`].
    pub fn step(&mut self, request: Request, event: Event<P>) -> (r: (Request, Step))
        ensures
            ({
                let (m, phase, step) = transition(old(self)@, request@, event);
                &&& final(self)@ == m
                &&& r.0@ == (request@.0, request@.1, phase)
                &&& r.1 == step
            }),
            !final(self)@.contains_key(0),
            r.0@.2 == Phase::Start || r.0@.2 == Phase::Done || r.0@.0 != 0,
    {
        proof {
            use_type_invariant(&*self);
            use_type_invariant(&request);
        }
        let Request { handle, speech, phase } = request;
        // Work on the map outside the registry, so that the registry's invariant holds
        // at every point; it is put back once the step is taken.
        let mut providers: HashMap<isize, P> = HashMap::new();
        std::mem::swap(&mut providers, &mut self.providers);
        let (phase, step) = match (phase, event) {
            (Phase::Start, Event::Begin) => {
                if handle == 0 {
                    (Phase::Done, Step::Finish(false))
                } else if providers.contains_key(&handle) {
                    ready(&speech)
                } else {
                    (Phase::AwaitProvider, Step::MakeProvider(handle))
                }
            },
            (Phase::AwaitProvider, Event::ProviderMade(provider)) => {
                providers.insert(handle, provider);
                (Phase::AwaitInstall, Step::Install(handle))
            },
            (Phase::AwaitInstall, Event::Installed(installed)) => {
                if installed {
                    ready(&speech)
                } else {
                    providers.remove(&handle);
                    (Phase::Done, Step::Finish(false))
                }
            },
            (Phase::AwaitListeners, Event::Listening(listening)) => {
                if !listening {
                    (Phase::Done, Step::Finish(false))
                } else {
                    match &speech {
                        Some(a) => (Phase::AwaitRaise, Step::Raise(handle, processing(a.priority))),
                        None => (Phase::Done, Step::Finish(false)),
                    }
                }
            },
            (Phase::AwaitRaise, Event::Raised(raised)) => (Phase::Done, Step::Finish(raised)),
            _ => (Phase::Done, Step::Finish(false)),
        };
        self.providers = providers;
        (Request { handle, speech, phase }, step)
    }

    /// Lets the hook of window `key` handle `msg`: on `WM_GETOBJECT` for the UI
    /// Automation root object it serves the window's provider, if there is one; on
    /// `WM_NCDESTROY` it lets go of the window's provider; everything else passes on.
    pub fn on_window_message(&mut self, key: isize, msg: u32, lparam: isize) -> (r:
        WindowMessageAction)
        ensures
            r == message_action(msg, lparam, old(self)@.contains_key(key)),
            final(self)@ == providers_after_message(old(self)@, key, msg),
            !final(self)@.contains_key(0),
            msg == WM_NCDESTROY ==> r == WindowMessageAction::ReleaseWindow && final(self)@ == old(
                self,
            )@.remove(key),
            msg != WM_NCDESTROY ==> final(self)@ == old(self)@,
            msg != WM_NCDESTROY && !(msg == WM_GETOBJECT && lparam == UIA_ROOT_OBJECT_ID) ==> r
                == WindowMessageAction::PassOn,
            r == WindowMessageAction::ServeProvider ==> msg == WM_GETOBJECT && lparam
                == UIA_ROOT_OBJECT_ID && old(self)@.contains_key(key),
    {
        proof {
            use_type_invariant(&*self);
        }
        if msg == WM_GETOBJECT && lparam == UIA_ROOT_OBJECT_ID && self.providers.contains_key(&key) {
            WindowMessageAction::ServeProvider
        } else if msg == WM_NCDESTROY {
            let mut providers: HashMap<isize, P> = HashMap::new();
            std::mem::swap(&mut providers, &mut self.providers);
            providers.remove(&key);
            self.providers = providers;
            WindowMessageAction::ReleaseWindow
        } else {
            WindowMessageAction::PassOn
        }
    }
}

/// Law: once a window is torn down its provider is gone, and a later request
/// for its root object is passed on instead of served.
pub proof fn lemma_destroy_forgets<P>(m: Map<isize, P>, key: isize)
    ensures
        !providers_after_message(m, key, WM_NCDESTROY).contains_key(key),
        message_action(
            WM_GETOBJECT,
            UIA_ROOT_OBJECT_ID,
            providers_after_message(m, key, WM_NCDESTROY).contains_key(key),
        ) == WindowMessageAction::PassOn,
        forall|other: isize|
            other != key ==> (#[trigger] providers_after_message(m, key, WM_NCDESTROY).contains_key(
                other,
            )) == m.contains_key(other),
{
}

/// Law: a registered window serves its own provider for the root object, and serving
/// leaves the registry as it was.
pub proof fn lemma_registered_serves<P>(m: Map<isize, P>, key: isize, p: P)
    ensures
        message_action(
            WM_GETOBJECT,
            UIA_ROOT_OBJECT_ID,
            m.insert(key, p).contains_key(key),
        ) == WindowMessageAction::ServeProvider,
        providers_after_message(m.insert(key, p), key, WM_GETOBJECT) == m.insert(key, p),
        m.insert(key, p)[key] == p,
{
}

/// Law: a request for a null window handle finishes with `false` at once: nothing is
/// made, hooked, asked or raised, and the providers stay as they were.
pub proof fn lemma_null_handle_does_nothing<P>(
    m: Map<isize, P>,
    speech: Option<(Seq<char>, Priority)>,
)
    ensures
        run(m, (0, speech, Phase::Start), seq![Event::<P>::Begin]) == (
            m,
            (0isize, speech, Phase::Done),
            seq![Step::Finish(false)],
        ),
{
    reveal_with_fuel(run, 2);
    let evs = seq![Event::<P>::Begin];
    assert(evs.drop_first() =~= Seq::<Event<P>>::empty());
    assert(seq![Step::Finish(false)] + Seq::<Step>::empty() =~= seq![Step::Finish(false)]);
}

/// Law: a window that already has a provider is neither given another nor hooked again:
/// preparing it finishes with `true` at once, and announcing from it goes straight to
/// asking whether anyone listens, with the providers unchanged. (A registry never holds
/// the null handle; every registry operation ensures so.)
pub proof fn lemma_registered_window_not_reinstalled<P>(
    m: Map<isize, P>,
    h: isize,
    speech: Option<(Seq<char>, Priority)>,
)
    requires
        !m.contains_key(0),
        m.contains_key(h),
    ensures
        transition(m, (h, speech, Phase::Start), Event::<P>::Begin) == if speech is None {
            (m, Phase::Done, Step::Finish(true))
        } else {
            (m, Phase::AwaitListeners, Step::AskListeners)
        },
{
}

/// Law: a step only ever adds, replaces or removes the provider of the request's own
/// window; every other window's entry stays as it was.
pub proof fn lemma_step_touches_only_its_window<P>(
    m: Map<isize, P>,
    req: (isize, Option<(Seq<char>, Priority)>, Phase),
    ev: Event<P>,
    k: isize,
)
    requires
        k != req.0,
    ensures
        transition(m, req, ev).0.contains_key(k) == m.contains_key(k),
        m.contains_key(k) ==> transition(m, req, ev).0[k] == m[k],
{
}

/// Law: preparing a window (one provider and one hook per window) finishes with
/// whether the window has a provider afterwards, leaves every other window's entry as
/// it was, and for a window that already has one finishes with `true` at once, the
/// registry unchanged and no hook installed.
pub proof fn lemma_set_live_region_outcome<P>(m: Map<isize, P>, h: isize, p: P, installed: bool)
    requires
        !m.contains_key(0),
    ensures
        ({
            let events = if h == 0 || m.contains_key(h) {
                seq![Event::Begin]
            } else {
                seq![Event::Begin, Event::ProviderMade(p), Event::Installed(installed)]
            };
            let r = run(m, (h, None, Phase::Start), events);
            &&& r.1.2 == Phase::Done
            &&& r.2.last() == Step::Finish(r.0.contains_key(h))
            &&& forall|k: isize|
                k != h ==> (#[trigger] r.0.contains_key(k)) == m.contains_key(k) && (m.contains_key(
                    k,
                ) ==> r.0[k] == m[k])
            &&& m.contains_key(h) ==> r.0 == m && r.2 == seq![Step::Finish(true)]
        }),
{
    reveal_with_fuel(run, 4);
    if h == 0 || m.contains_key(h) {
        let evs = seq![Event::<P>::Begin];
        assert(evs.drop_first() =~= Seq::<Event<P>>::empty());
        let r = run(m, (h, None, Phase::Start), evs);
        assert(r.2 =~= seq![transition(m, (h, None, Phase::Start), evs[0]).2]);
    } else {
        let evs = seq![Event::Begin, Event::ProviderMade(p), Event::Installed(installed)];
        assert(evs.drop_first() =~= seq![Event::ProviderMade(p), Event::Installed(installed)]);
        assert(evs.drop_first().drop_first() =~= seq![Event::Installed(installed)]);
        assert(evs.drop_first().drop_first().drop_first() =~= Seq::<Event<P>>::empty());
        let r = run(m, (h, None, Phase::Start), evs);
        let last = if installed { Step::Finish(true) } else { Step::Finish(false) };
        assert(r.2 =~= seq![Step::MakeProvider(h), Step::Install(h), last]);
        if !installed {
            assert(m.insert(h, p).remove(h) =~= m);
        }
    }
}

/// How far along a phase is: every step of a request that is not yet done moves it further.
pub open spec fn phase_rank(phase: Phase) -> nat {
    match phase {
        Phase::Start => 0,
        Phase::AwaitProvider => 1,
        Phase::AwaitInstall => 2,
        Phase::AwaitListeners => 3,
        Phase::AwaitRaise => 4,
        Phase::Done => 5,
    }
}

/// Each step of an unfinished request moves it strictly further, and it asks to
/// finish exactly when it becomes done.
pub proof fn lemma_step_progresses<P>(
    m: Map<isize, P>,
    req: (isize, Option<(Seq<char>, Priority)>, Phase),
    ev: Event<P>,
)
    requires
        req.2 != Phase::Done,
    ensures
        phase_rank(transition(m, req, ev).1) > phase_rank(req.2),
        (transition(m, req, ev).1 == Phase::Done) == (transition(m, req, ev).2 is Finish),
{
}

/// Law: every request finishes: after any five events it is done, and a finished
/// request stays finished whatever else comes. So the loop that performs the steps
/// always ends.
pub proof fn lemma_requests_finish<P>(
    m: Map<isize, P>,
    req: (isize, Option<(Seq<char>, Priority)>, Phase),
    events: Seq<Event<P>>,
)
    ensures
        phase_rank(run(m, req, events).1.2) >= if phase_rank(req.2) + events.len() >= 5 {
            5
        } else {
            phase_rank(req.2) + events.len()
        },
        events.len() >= 5 ==> run(m, req, events).1.2 == Phase::Done,
        req.2 == Phase::Done ==> run(m, req, events).1.2 == Phase::Done,
    decreases events.len(),
{
    if events.len() > 0 {
        let (m1, phase, step) = transition(m, req, events[0]);
        if req.2 != Phase::Done {
            lemma_step_progresses(m, req, events[0]);
        }
        lemma_requests_finish(m1, (req.0, req.1, phase), events.drop_first());
    }
    let r = run(m, req, events).1.2;
    assert(phase_rank(r) == 5 ==> r == Phase::Done);
}

/// Law: the provider of a window is registered before the window is hooked, so a
/// request for it made while hooking finds it.
pub proof fn lemma_provider_registered_before_install<P>(
    m: Map<isize, P>,
    h: isize,
    speech: Option<(Seq<char>, Priority)>,
    p: P,
)
    ensures
        transition(m, (h, speech, Phase::AwaitProvider), Event::ProviderMade(p)) == (
            m.insert(h, p),
            Phase::AwaitInstall,
            Step::Install(h),
        ),
        m.insert(h, p).contains_key(h) && m.insert(h, p)[h] == p,
{
}

/// Law: on a window without a provider, a failed hook leaves the providers as they
/// were and ends the request with `false`; nothing is asked or raised.
pub proof fn lemma_failed_install_forgets<P>(
    m: Map<isize, P>,
    h: isize,
    speech: Option<(Seq<char>, Priority)>,
    p: P,
)
    requires
        h != 0,
        !m.contains_key(h),
    ensures
        run(
            m,
            (h, speech, Phase::Start),
            seq![Event::Begin, Event::ProviderMade(p), Event::Installed(false)],
        ) == (
            m,
            (h, speech, Phase::Done),
            seq![Step::MakeProvider(h), Step::Install(h), Step::Finish(false)],
        ),
{
    reveal_with_fuel(run, 4);
    let evs = seq![Event::Begin, Event::ProviderMade(p), Event::Installed(false)];
    assert(evs.drop_first() =~= seq![Event::ProviderMade(p), Event::Installed(false)]);
    assert(evs.drop_first().drop_first() =~= seq![Event::Installed(false)]);
    assert(evs.drop_first().drop_first().drop_first() =~= Seq::<Event<P>>::empty());
    assert(m.insert(h, p).remove(h) =~= m);
    assert(seq![Step::MakeProvider(h)] + (seq![Step::Install(h)] + (seq![Step::Finish(false)]
        + Seq::<Step>::empty())) =~= seq![Step::MakeProvider(h), Step::Install(h), Step::Finish(false)]);
}

/// Law: preparing a window without a provider makes one, registers it, hooks the
/// window and, when hooking works, finishes with `true` and keeps the provider.
pub proof fn lemma_set_live_region_installs<P>(m: Map<isize, P>, h: isize, p: P)
    requires
        h != 0,
        !m.contains_key(h),
    ensures
        run(
            m,
            (h, None, Phase::Start),
            seq![Event::Begin, Event::ProviderMade(p), Event::Installed(true)],
        ) == (
            m.insert(h, p),
            (h, None::<(Seq<char>, Priority)>, Phase::Done),
            seq![Step::MakeProvider(h), Step::Install(h), Step::Finish(true)],
        ),
{
    reveal_with_fuel(run, 4);
    let evs = seq![Event::Begin, Event::ProviderMade(p), Event::Installed(true)];
    assert(evs.drop_first() =~= seq![Event::ProviderMade(p), Event::Installed(true)]);
    assert(evs.drop_first().drop_first() =~= seq![Event::Installed(true)]);
    assert(evs.drop_first().drop_first().drop_first() =~= Seq::<Event<P>>::empty());
    assert(seq![Step::MakeProvider(h)] + (seq![Step::Install(h)] + (seq![Step::Finish(true)]
        + Seq::<Step>::empty())) =~= seq![Step::MakeProvider(h), Step::Install(h), Step::Finish(true)]);
}

/// Law: an announcement from a window without a provider makes and registers one,
/// hooks the window, asks whether anyone listens and only then raises its text with
/// the processing mode of its priority; it finishes with whether the raise worked,
/// and the window keeps its provider.
pub proof fn lemma_announce_raises_after_listening<P>(
    m: Map<isize, P>,
    h: isize,
    text: Seq<char>,
    priority: Priority,
    p: P,
    raised: bool,
)
    requires
        h != 0,
        !m.contains_key(h),
    ensures
        run(
            m,
            (h, Some((text, priority)), Phase::Start),
            seq![
                Event::Begin,
                Event::ProviderMade(p),
                Event::Installed(true),
                Event::Listening(true),
                Event::Raised(raised),
            ],
        ) == (
            m.insert(h, p),
            (h, Some((text, priority)), Phase::Done),
            seq![
                Step::MakeProvider(h),
                Step::Install(h),
                Step::AskListeners,
                Step::Raise(h, processing_for(priority)),
                Step::Finish(raised),
            ],
        ),
{
    reveal_with_fuel(run, 6);
    let e0 = seq![
        Event::Begin,
        Event::ProviderMade(p),
        Event::Installed(true),
        Event::Listening(true),
        Event::Raised(raised),
    ];
    let e1 = e0.drop_first();
    let e2 = e1.drop_first();
    let e3 = e2.drop_first();
    let e4 = e3.drop_first();
    assert(e1 =~= seq![Event::ProviderMade(p), Event::Installed(true), Event::Listening(true), Event::Raised(raised)]);
    assert(e2 =~= seq![Event::Installed(true), Event::Listening(true), Event::Raised(raised)]);
    assert(e3 =~= seq![Event::Listening(true), Event::Raised(raised)]);
    assert(e4 =~= seq![Event::Raised(raised)]);
    assert(e4.drop_first() =~= Seq::<Event<P>>::empty());
    assert(seq![Step::MakeProvider(h)] + (seq![Step::Install(h)] + (seq![Step::AskListeners] + (
    seq![Step::Raise(h, processing_for(priority))] + (seq![Step::Finish(raised)]
        + Seq::<Step>::empty())))) =~= seq![
        Step::MakeProvider(h),
        Step::Install(h),
        Step::AskListeners,
        Step::Raise(h, processing_for(priority)),
        Step::Finish(raised),
    ]);
}

/// Law: when no client listens, an announcement finishes with `false` without raising
/// anything, and a provider installed for it stays registered.
pub proof fn lemma_no_listeners_keeps_provider<P>(
    m: Map<isize, P>,
    h: isize,
    text: Seq<char>,
    priority: Priority,
    p: P,
)
    requires
        h != 0,
        !m.contains_key(h),
    ensures
        run(
            m,
            (h, Some((text, priority)), Phase::Start),
            seq![Event::Begin, Event::ProviderMade(p), Event::Installed(true), Event::Listening(false)],
        ) == (
            m.insert(h, p),
            (h, Some((text, priority)), Phase::Done),
            seq![Step::MakeProvider(h), Step::Install(h), Step::AskListeners, Step::Finish(false)],
        ),
{
    reveal_with_fuel(run, 5);
    let e0 = seq![Event::Begin, Event::ProviderMade(p), Event::Installed(true), Event::Listening(false)];
    let e1 = e0.drop_first();
    let e2 = e1.drop_first();
    let e3 = e2.drop_first();
    assert(e1 =~= seq![Event::ProviderMade(p), Event::Installed(true), Event::Listening(false)]);
    assert(e2 =~= seq![Event::Installed(true), Event::Listening(false)]);
    assert(e3 =~= seq![Event::Listening(false)]);
    assert(e3.drop_first() =~= Seq::<Event<P>>::empty());
    assert(seq![Step::MakeProvider(h)] + (seq![Step::Install(h)] + (seq![Step::AskListeners] + (
    seq![Step::Finish(false)] + Seq::<Step>::empty()))) =~= seq![
        Step::MakeProvider(h),
        Step::Install(h),
        Step::AskListeners,
        Step::Finish(false),
    ]);
}

/// Law: a finished request stays finished: any further event changes nothing and
/// asks for nothing.
pub proof fn lemma_done_is_final<P>(
    m: Map<isize, P>,
    h: isize,
    speech: Option<(Seq<char>, Priority)>,
    ev: Event<P>,
)
    ensures
        transition(m, (h, speech, Phase::Done), ev) == (m, Phase::Done, Step::Finish(false)),
{
}


/// Law: only `WM_NCDESTROY` lets a window's provider go; every other message leaves
/// the providers as they were, and every message other than `WM_NCDESTROY` and a
/// request for the root object is passed on untouched.
pub proof fn lemma_only_destroy_releases<P>(m: Map<isize, P>, key: isize, msg: u32, lparam: isize)
    ensures
        msg != WM_NCDESTROY ==> providers_after_message(m, key, msg) == m,
        msg != WM_NCDESTROY ==> message_action(msg, lparam, m.contains_key(key))
            != WindowMessageAction::ReleaseWindow,
        msg != WM_NCDESTROY && !(msg == WM_GETOBJECT && lparam == UIA_ROOT_OBJECT_ID)
            ==> message_action(msg, lparam, m.contains_key(key)) == WindowMessageAction::PassOn,
        msg == WM_NCDESTROY ==> message_action(msg, lparam, m.contains_key(key))
            == WindowMessageAction::ReleaseWindow && providers_after_message(m, key, msg) == m.remove(key),
        message_action(msg, lparam, m.contains_key(key)) == WindowMessageAction::ServeProvider
            <==> msg == WM_GETOBJECT && lparam == UIA_ROOT_OBJECT_ID && m.contains_key(key),
{
}

} // verus!
