//! Windows as taskbars see them.

use vstd::prelude::*;

use crate::desk::Desk;
use crate::seqs::{lemma_filter_ends, lemma_filter_step};
use crate::text::text_eq;

verus! {

/// A window as it is shown to the clients that list windows.
pub struct WlrForeignToplevelHandle {
    pub id: u64,
    pub title: String,
    pub app_id: String,
    /// The objects that stand for it, one for each client that was told of it.
    pub instances: Vec<u64>,
    pub closed: bool,
}

/// What a handle is.
#[verifier::ext_equal]
pub struct HandleView {
    pub id: u64,
    pub title: Seq<char>,
    pub app_id: Seq<char>,
    pub instances: Seq<u64>,
    pub closed: bool,
}

impl View for WlrForeignToplevelHandle {
    type V = HandleView;

    open spec fn view(&self) -> HandleView {
        HandleView {
            id: self.id,
            title: self.title@,
            app_id: self.app_id@,
            instances: self.instances@,
            closed: self.closed,
        }
    }
}

/// It is another number.
pub open spec fn number_not(n: u64) -> spec_fn(u64) -> bool {
    |m: u64| m != n
}

fn drop_number(list: &Vec<u64>, n: u64) -> (r: Vec<u64>)
    ensures
        r@ == list@.filter(number_not(n)),
{
    let mut out: Vec<u64> = Vec::new();
    let mut i: usize = 0;
    proof {
        lemma_filter_ends(list@, number_not(n));
    }
    while i < list.len()
        invariant
            i <= list@.len(),
            out@ == list@.take(i as int).filter(number_not(n)),
        decreases list@.len() - i,
    {
        proof {
            lemma_filter_step(list@, i as int, number_not(n));
        }
        if list[i] != n {
            out.push(list[i]);
        }
        i += 1;
    }
    proof {
        lemma_filter_ends(list@, number_not(n));
    }
    out
}

fn copied(list: &Vec<u64>) -> (r: Vec<u64>)
    ensures
        r@ == list@,
{
    let mut out: Vec<u64> = Vec::new();
    let mut i: usize = 0;
    while i < list.len()
        invariant
            i <= list@.len(),
            out@ == list@.take(i as int),
        decreases list@.len() - i,
    {
        out.push(list[i]);
        i += 1;
        assert(list@.take(i as int) =~= list@.take(i - 1).push(list@[i - 1]));
    }
    assert(list@.take(list@.len() as int) =~= list@);
    out
}

impl WlrForeignToplevelHandle {
    pub fn new(id: u64, title: String, app_id: String) -> (r: Self)
        ensures
            r@ == (HandleView {
                id,
                title: title@,
                app_id: app_id@,
                instances: Seq::empty(),
                closed: false,
            }),
    {
        WlrForeignToplevelHandle { id, title, app_id, instances: Vec::new(), closed: false }
    }

    pub fn title(&self) -> (r: String)
        ensures
            r@ == self@.title,
    {
        self.title.clone()
    }

    pub fn app_id(&self) -> (r: String)
        ensures
            r@ == self@.app_id,
    {
        self.app_id.clone()
    }

    pub fn is_closed(&self) -> (r: bool)
        ensures
            r == self@.closed,
    {
        self.closed
    }

    /// An object is told the title, the application and no state, and stands for the
    /// window from then on.
    pub fn init_instance(&mut self, instance: u64)
        ensures
            final(self)@ == (HandleView {
                instances: old(self)@.instances.push(instance),
                ..old(self)@
            }),
    {
        self.instances.push(instance);
    }

    /// An object is gone.
    pub fn remove_instance(&mut self, instance: u64)
        ensures
            final(self)@ == (HandleView {
                instances: old(self)@.instances.filter(number_not(instance)),
                ..old(self)@
            }),
    {
        self.instances = drop_number(&self.instances, instance);
    }

    /// Changes the title. Gives the objects that are told; none where it is the same.
    pub fn send_title(&mut self, title: &str) -> (r: Vec<u64>)
        ensures
            final(self)@ == (HandleView { title: title@, ..old(self)@ }),
            r@ == if old(self)@.title == title@ {
                Seq::empty()
            } else {
                old(self)@.instances
            },
    {
        if text_eq(self.title.as_str(), title) {
            return Vec::new();
        }
        self.title = title.to_owned();
        copied(&self.instances)
    }

    /// Changes the application. Gives the objects that are told; none where it is the
    /// same.
    pub fn send_app_id(&mut self, app_id: &str) -> (r: Vec<u64>)
        ensures
            final(self)@ == (HandleView { app_id: app_id@, ..old(self)@ }),
            r@ == if old(self)@.app_id == app_id@ {
                Seq::empty()
            } else {
                old(self)@.instances
            },
    {
        if text_eq(self.app_id.as_str(), app_id) {
            return Vec::new();
        }
        self.app_id = app_id.to_owned();
        copied(&self.instances)
    }

    /// The objects that are told the state of the window.
    pub fn send_state(&self) -> (r: Vec<u64>)
        ensures
            r@ == self@.instances,
    {
        copied(&self.instances)
    }

    /// The window is gone: its objects are told so, once, and forgotten.
    pub fn send_closed(&mut self) -> (r: Vec<u64>)
        ensures
            r@ == if old(self)@.closed {
                Seq::empty()
            } else {
                old(self)@.instances
            },
            final(self)@ == if old(self)@.closed {
                old(self)@
            } else {
                HandleView { instances: Seq::empty(), closed: true, ..old(self)@ }
            },
    {
        if self.closed {
            return Vec::new();
        }
        self.closed = true;
        let told: Vec<u64> = copied(&self.instances);
        self.instances = Vec::new();
        told
    }
}

/// The numbers under which clients know the states of a window.
pub const STATE_MAXIMIZED: u8 = 0;

pub const STATE_ACTIVATED: u8 = 2;

pub const STATE_FULLSCREEN: u8 = 3;

/// A small number in four bytes, the lowest first.
pub open spec fn packed(n: u8) -> Seq<u8> {
    seq![n, 0, 0, 0]
}

fn push_packed(bytes: &mut Vec<u8>, n: u8)
    ensures
        final(bytes)@ == old(bytes)@ + packed(n),
{
    let ghost before = bytes@;
    bytes.push(n);
    bytes.push(0);
    bytes.push(0);
    bytes.push(0);
    assert(bytes@ =~= before + packed(n));
}

/// The states of a window as they go to clients.
pub open spec fn state_seq(activated: bool, maximized: bool, fullscreen: bool) -> Seq<u8> {
    let none = Seq::<u8>::empty();
    (if maximized {
        packed(STATE_MAXIMIZED)
    } else {
        none
    }) + (if activated {
        packed(STATE_ACTIVATED)
    } else {
        none
    }) + (if fullscreen {
        packed(STATE_FULLSCREEN)
    } else {
        none
    })
}

/// The states of a window as they go to clients. No window is ever minimized.
pub fn state_bytes(activated: bool, maximized: bool, fullscreen: bool) -> (r: Vec<u8>)
    ensures
        r@ == state_seq(activated, maximized, fullscreen),
{
    let mut bytes: Vec<u8> = Vec::new();
    if maximized {
        push_packed(&mut bytes, STATE_MAXIMIZED);
    }
    if activated {
        push_packed(&mut bytes, STATE_ACTIVATED);
    }
    if fullscreen {
        push_packed(&mut bytes, STATE_FULLSCREEN);
    }
    assert(bytes@ =~= state_seq(activated, maximized, fullscreen));
    bytes
}

/// The clients that list windows, and the windows they are told of.
pub struct WlrForeignToplevelState {
    pub instances: Vec<u64>,
    pub toplevels: Vec<WlrForeignToplevelHandle>,
}

/// What the handles are.
pub open spec fn handle_views(handles: Seq<WlrForeignToplevelHandle>) -> Seq<HandleView> {
    handles.map_values(|h: WlrForeignToplevelHandle| h@)
}

/// The handle is another one.
pub open spec fn handle_not(id: u64) -> spec_fn(HandleView) -> bool {
    |h: HandleView| h.id != id
}

/// The handle is not closed.
pub open spec fn handle_open() -> spec_fn(HandleView) -> bool {
    |h: HandleView| !h.closed
}

/// The objects that could be made, of those that were to be.
pub open spec fn made(created: Seq<Option<u64>>) -> Seq<u64>
    decreases created.len(),
{
    if created.len() == 0 {
        Seq::empty()
    } else {
        match created.last() {
            Some(object) => made(created.drop_last()).push(object),
            None => made(created.drop_last()),
        }
    }
}

/// The handles with one more object each, where it could be made.
pub open spec fn with_objects(handles: Seq<HandleView>, created: Seq<Option<u64>>) -> Seq<HandleView> {
    Seq::new(
        handles.len(),
        |i: int|
            match created[i] {
                Some(object) => HandleView {
                    instances: handles[i].instances.push(object),
                    ..handles[i]
                },
                None => handles[i],
            },
    )
}

impl WlrForeignToplevelState {
    pub open spec fn handles(&self) -> Seq<HandleView> {
        handle_views(self.toplevels@)
    }

    /// Every handle that is listed is open, and no two are the same.
    pub open spec fn wf(&self) -> bool {
        &&& forall|i: int| 0 <= i < self.handles().len() ==> !(#[trigger] self.handles()[i]).closed
        &&& forall|i: int, j: int|
            0 <= i < self.handles().len() && 0 <= j < self.handles().len() && (
            #[trigger] self.handles()[i]).id == (#[trigger] self.handles()[j]).id ==> i == j
    }

    pub fn new() -> (r: Self)
        ensures
            r.wf(),
            r.instances@ == Seq::<u64>::empty(),
            r.handles() == Seq::<HandleView>::empty(),
    {
        let r = WlrForeignToplevelState { instances: Vec::new(), toplevels: Vec::new() };
        assert(r.handles() =~= Seq::<HandleView>::empty());
        r
    }

    /// Lists a window that is shown. For each client an object was to be made.
    pub fn track(&mut self, id: u64, title: String, app_id: String, created: &Vec<Option<u64>>)
        requires
            old(self).wf(),
            forall|i: int| 0 <= i < old(self).handles().len() ==> (#[trigger] old(self).handles()[i]).id
                != id,
            created@.len() == old(self).instances@.len(),
        ensures
            final(self).wf(),
            final(self).instances == old(self).instances,
            final(self).handles() == old(self).handles().push(
                HandleView {
                    id,
                    title: title@,
                    app_id: app_id@,
                    instances: made(created@),
                    closed: false,
                },
            ),
    {
        let ghost before = self.handles();
        let mut handle: WlrForeignToplevelHandle = WlrForeignToplevelHandle::new(id, title, app_id);
        let ghost fresh = handle@;
        let mut i: usize = 0;
        assert(handle@.instances =~= made(created@.take(0)));
        while i < created.len()
            invariant
                i <= created@.len(),
                handle@ == (HandleView { instances: made(created@.take(i as int)), ..fresh }),
            decreases created@.len() - i,
        {
            assert(created@.take(i + 1).drop_last() =~= created@.take(i as int));
            assert(created@.take(i + 1).last() == created@[i as int]);
            if let Some(object) = created[i] {
                handle.init_instance(object);
            }
            i += 1;
        }
        assert(created@.take(created@.len() as int) =~= created@);
        let ghost done = handle@;
        self.toplevels.push(handle);
        assert(self.handles() =~= before.push(done));
    }

    /// A window is no longer shown: its objects are told so, and it is listed no more.
    /// Gives those objects.
    pub fn untrack(&mut self, id: u64) -> (r: Vec<u64>)
        requires
            old(self).wf(),
        ensures
            final(self).wf(),
            final(self).instances == old(self).instances,
            final(self).handles() == old(self).handles().filter(handle_not(id)),
            forall|i: int| 0 <= i < old(self).handles().len() && (#[trigger] old(self).handles()[i]).id
                == id ==> r@ == old(self).handles()[i].instances,
            (forall|i: int| 0 <= i < old(self).handles().len() ==> (#[trigger] old(self).handles()[i]).id
                != id) ==> r@ == Seq::<u64>::empty(),
    {
        let ghost before = self.handles();
        let mut told: Vec<u64> = Vec::new();
        let mut i: usize = 0;
        let ghost mut k: int = 0;
        proof {
            lemma_filter_ends(before, handle_not(id));
            assert(self.handles() =~= before.take(0).filter(handle_not(id)) + before.skip(0));
        }
        while i < self.toplevels.len()
            invariant
                0 <= k <= before.len(),
                i == before.take(k).filter(handle_not(id)).len(),
                self.handles() == before.take(k).filter(handle_not(id)) + before.skip(k),
                self.instances == old(self).instances,
                old(self).wf(),
                before == old(self).handles(),
                forall|j: int| 0 <= j < k && (#[trigger] before[j]).id == id ==> told@
                    == before[j].instances,
                (forall|j: int| 0 <= j < k ==> (#[trigger] before[j]).id != id) ==> told@
                    == Seq::<u64>::empty(),
            decreases before.len() - k,
        {
            let ghost now = self.handles();
            proof {
                assert(now[i as int] == before.skip(k)[0]);
                assert(before.skip(k)[0] == before[k]);
                assert(before[k] == self.toplevels@[i as int]@);
                lemma_filter_step(before, k, handle_not(id));
            }
            if self.toplevels[i].id == id {
                let mut handle: WlrForeignToplevelHandle = self.toplevels.remove(i);
                assert(!before[k].closed);
                told = handle.send_closed();
                assert(self.handles() =~= now.remove(i as int));
                assert(self.handles() =~= before.take(k + 1).filter(handle_not(id)) + before.skip(
                    k + 1,
                ));
            } else {
                assert(now =~= before.take(k + 1).filter(handle_not(id)) + before.skip(k + 1));
                i += 1;
            }
            proof {
                k = k + 1;
            }
        }
        proof {
            assert(k == before.len());
            lemma_filter_ends(before, handle_not(id));
            assert(self.handles() =~= before.filter(handle_not(id)));
            lemma_filter_keeps_unique(before, handle_not(id));
        }
        told
    }

    /// The objects that are told of the window whose handle has this number.
    pub fn objects_of(&self, id: u64) -> (r: Option<Vec<u64>>)
        ensures
            match r {
                Some(objects) => exists|i: int|
                    0 <= i < self.handles().len() && (#[trigger] self.handles()[i]).id == id
                        && self.handles()[i].instances == objects@,
                None => forall|i: int|
                    0 <= i < self.handles().len() ==> (#[trigger] self.handles()[i]).id != id,
            },
    {
        let mut i: usize = 0;
        while i < self.toplevels.len()
            invariant
                i <= self.toplevels@.len(),
                forall|k: int| 0 <= k < i ==> (#[trigger] self.handles()[k]).id != id,
            decreases self.toplevels@.len() - i,
        {
            assert(self.handles()[i as int] == self.toplevels@[i as int]@);
            if self.toplevels[i].id == id {
                return Some(self.toplevels[i].send_state());
            }
            i += 1;
        }
        None
    }

    /// Lists no more the windows that are closed.
    pub fn cleanup_closed(&mut self)
        ensures
            final(self).instances == old(self).instances,
            final(self).handles() == old(self).handles().filter(handle_open()),
            old(self).wf() ==> final(self).wf() && final(self).handles() == old(self).handles(),
    {
        let ghost before = self.handles();
        let mut i: usize = 0;
        let ghost mut k: int = 0;
        proof {
            lemma_filter_ends(before, handle_open());
            assert(self.handles() =~= before.take(0).filter(handle_open()) + before.skip(0));
        }
        while i < self.toplevels.len()
            invariant
                0 <= k <= before.len(),
                i == before.take(k).filter(handle_open()).len(),
                self.handles() == before.take(k).filter(handle_open()) + before.skip(k),
                self.instances == old(self).instances,
            decreases before.len() - k,
        {
            let ghost now = self.handles();
            proof {
                assert(now[i as int] == before.skip(k)[0]);
                assert(before.skip(k)[0] == before[k]);
                assert(before[k] == self.toplevels@[i as int]@);
                lemma_filter_step(before, k, handle_open());
            }
            if self.toplevels[i].is_closed() {
                let _ = self.toplevels.remove(i);
                assert(self.handles() =~= now.remove(i as int));
                assert(self.handles() =~= before.take(k + 1).filter(handle_open()) + before.skip(
                    k + 1,
                ));
            } else {
                assert(now =~= before.take(k + 1).filter(handle_open()) + before.skip(k + 1));
                i += 1;
            }
            proof {
                k = k + 1;
            }
        }
        proof {
            assert(k == before.len());
            lemma_filter_ends(before, handle_open());
            assert(self.handles() =~= before.filter(handle_open()));
            if old(self).wf() {
                lemma_filter_all(before, handle_open());
            }
        }
    }

    /// A client begins to list windows. For each window that is listed an object was
    /// to be made.
    pub fn bind(&mut self, manager: u64, created: &Vec<Option<u64>>)
        requires
            old(self).wf(),
            created@.len() == old(self).handles().len(),
        ensures
            final(self).wf(),
            final(self).instances@ == old(self).instances@.push(manager),
            final(self).handles() == with_objects(old(self).handles(), created@),
    {
        let ghost before = self.handles();
        let ghost goal = with_objects(before, created@);
        let mut i: usize = 0;
        while i < created.len()
            invariant
                i <= created@.len(),
                created@.len() == before.len(),
                goal == with_objects(before, created@),
                self.instances == old(self).instances,
                self.handles().len() == before.len(),
                forall|j: int| 0 <= j < i ==> self.handles()[j] == #[trigger] goal[j],
                forall|j: int| i <= j < before.len() ==> self.handles()[j] == #[trigger] before[j],
            decreases created@.len() - i,
        {
            let ghost now = self.handles();
            assert(before[i as int] == self.toplevels@[i as int]@);
            if let Some(object) = created[i] {
                self.toplevels[i].init_instance(object);
            }
            assert(self.toplevels@[i as int]@ == goal[i as int]);
            assert(forall|j: int| 0 <= j < before.len() && j != i ==> self.handles()[j] == now[j]);
            i += 1;
        }
        assert(self.handles() =~= goal);
        self.instances.push(manager);
        proof {
            let now = self.handles();
            assert forall|a: int, b: int|
                0 <= a < now.len() && 0 <= b < now.len() && (#[trigger] now[a]).id == (
                #[trigger] now[b]).id implies a == b by {
                assert(before[a].id == before[b].id);
            }
            assert forall|a: int| 0 <= a < now.len() implies !(#[trigger] now[a]).closed by {
                assert(!before[a].closed);
            }
        }
    }

    /// A client no longer lists windows.
    pub fn manager_gone(&mut self, manager: u64)
        requires
            old(self).wf(),
        ensures
            final(self).wf(),
            final(self).handles() == old(self).handles(),
            final(self).instances@ == old(self).instances@.filter(number_not(manager)),
    {
        let ghost before = self.handles();
        self.instances = drop_number(&self.instances, manager);
        assert(self.handles() =~= before);
    }
}

proof fn lemma_filter_all<A>(s: Seq<A>, pred: spec_fn(A) -> bool)
    requires
        forall|i: int| 0 <= i < s.len() ==> pred(#[trigger] s[i]),
    ensures
        s.filter(pred) == s,
    decreases s.len(),
{
    reveal(Seq::filter);
    if s.len() > 0 {
        lemma_filter_all(s.drop_last(), pred);
        assert(s.drop_last().push(s.last()) =~= s);
    }
}

proof fn lemma_filter_keeps_unique(s: Seq<HandleView>, pred: spec_fn(HandleView) -> bool)
    requires
        forall|i: int| 0 <= i < s.len() ==> !(#[trigger] s[i]).closed,
        forall|i: int, j: int|
            0 <= i < s.len() && 0 <= j < s.len() && (#[trigger] s[i]).id == (#[trigger] s[j]).id
                ==> i == j,
    ensures
        forall|i: int| 0 <= i < s.filter(pred).len() ==> !(#[trigger] s.filter(pred)[i]).closed,
        forall|i: int, j: int|
            0 <= i < s.filter(pred).len() && 0 <= j < s.filter(pred).len() && (#[trigger] s.filter(
                pred,
            )[i]).id == (#[trigger] s.filter(pred)[j]).id ==> i == j,
        forall|i: int| 0 <= i < s.filter(pred).len() ==> s.contains(#[trigger] s.filter(pred)[i]),
    decreases s.len(),
{
    reveal(Seq::filter);
    if s.len() > 0 {
        let rest = s.drop_last();
        assert forall|i: int, j: int|
            0 <= i < rest.len() && 0 <= j < rest.len() && (#[trigger] rest[i]).id == (
            #[trigger] rest[j]).id implies i == j by {
            assert(s[i].id == s[j].id);
        }
        assert forall|i: int| 0 <= i < rest.len() implies !(#[trigger] rest[i]).closed by {
            assert(!s[i].closed);
        }
        lemma_filter_keeps_unique(rest, pred);
        let kept = rest.filter(pred);
        assert forall|i: int| 0 <= i < kept.len() implies s.contains(#[trigger] kept[i])
            && kept[i].id != s.last().id by {
            let j = choose|j: int| 0 <= j < rest.len() && rest[j] == kept[i];
            assert(s[j] == kept[i]);
            assert(s[s.len() - 1] == s.last());
        }
        if pred(s.last()) {
            assert(s.contains(s[s.len() - 1]));
            assert forall|i: int, j: int|
                0 <= i < s.filter(pred).len() && 0 <= j < s.filter(pred).len() && (
                #[trigger] s.filter(pred)[i]).id == (#[trigger] s.filter(pred)[j]).id implies i
                == j by {
                if i < kept.len() && j < kept.len() {
                    assert(kept[i].id == kept[j].id);
                } else if i < kept.len() {
                    assert(kept[i].id != s.last().id);
                } else if j < kept.len() {
                    assert(kept[j].id != s.last().id);
                }
            }
        }
    }
}

/// What a taskbar asks of a window.
#[derive(Clone, Copy, Debug, PartialEq, Eq, Structural)]
pub enum ToplevelRequest {
    Activate,
    Close,
    SetMaximized,
    UnsetMaximized,
    SetFullscreen,
    UnsetFullscreen,
    /// Windows are never minimized.
    SetMinimized,
    UnsetMinimized,
    SetRectangle,
    Destroy,
}

/// What is done for a taskbar.
#[derive(Clone, Copy, Debug, PartialEq, Eq, Structural)]
pub enum ToplevelAction {
    Nothing,
    Activate(u64),
    Close(u64),
    Maximize(u64),
    Unmaximize(u64),
    Fullscreen(u64),
    Unfullscreen(u64),
}

/// What is done for a taskbar that asks something of the window that shows
/// `surface`. A request that would change nothing does nothing, nor does one for a
/// tiled window to be maximized.
pub open spec fn toplevel_action(desk: Desk, surface: Option<u64>, request: ToplevelRequest) -> ToplevelAction {
    match surface {
        None => ToplevelAction::Nothing,
        Some(s) => {
            let mapped = desk.facts.mapped(desk.modes@, s);
            let maximized = desk.modes@.maximized.contains_key(s);
            let fullscreen = desk.modes@.fullscreen.contains_key(s);
            match request {
                ToplevelRequest::Activate => ToplevelAction::Activate(s),
                ToplevelRequest::Close if mapped => ToplevelAction::Close(s),
                ToplevelRequest::SetMaximized if !maximized && desk.facts.layouts.home(s) is None
                    && mapped => ToplevelAction::Maximize(s),
                ToplevelRequest::UnsetMaximized if maximized && mapped => ToplevelAction::Unmaximize(
                    s,
                ),
                ToplevelRequest::SetFullscreen if !fullscreen && mapped => ToplevelAction::Fullscreen(
                    s,
                ),
                ToplevelRequest::UnsetFullscreen if fullscreen && mapped => ToplevelAction::Unfullscreen(
                    s,
                ),
                _ => ToplevelAction::Nothing,
            }
        },
    }
}

/// What is done for a taskbar that asks something of a window.
pub fn toplevel_request(desk: &Desk, surface: Option<u64>, request: ToplevelRequest) -> (r:
    ToplevelAction)
    requires
        desk.wf(),
    ensures
        r == toplevel_action(*desk, surface, request),
{
    let s: u64 = match surface {
        Some(s) => s,
        None => {
            return ToplevelAction::Nothing;
        },
    };
    proof {
        desk.facts.layouts.lemma_home(s);
    }
    let mapped: bool = desk.is_mapped(s);
    let maximized: bool = desk.modes.maximized.contains(&s);
    let fullscreen: bool = desk.modes.fullscreen.contains(&s);
    match request {
        ToplevelRequest::Activate => ToplevelAction::Activate(s),
        ToplevelRequest::Close => if mapped {
            ToplevelAction::Close(s)
        } else {
            ToplevelAction::Nothing
        },
        ToplevelRequest::SetMaximized => if !maximized && !desk.facts.layouts.contains(s) && mapped {
            ToplevelAction::Maximize(s)
        } else {
            ToplevelAction::Nothing
        },
        ToplevelRequest::UnsetMaximized => if maximized && mapped {
            ToplevelAction::Unmaximize(s)
        } else {
            ToplevelAction::Nothing
        },
        ToplevelRequest::SetFullscreen => if !fullscreen && mapped {
            ToplevelAction::Fullscreen(s)
        } else {
            ToplevelAction::Nothing
        },
        ToplevelRequest::UnsetFullscreen => if fullscreen && mapped {
            ToplevelAction::Unfullscreen(s)
        } else {
            ToplevelAction::Nothing
        },
        _ => ToplevelAction::Nothing,
    }
}

/// No client is told of a window as both maximized and fullscreen.
pub proof fn law_state_never_both(desk: Desk, s: u64, activated: bool)
    ensures
        ({
            let fullscreen = desk.modes@.fullscreen.contains_key(s);
            let maximized = desk.modes@.maximized.contains_key(s) && !fullscreen;
            fullscreen ==> state_seq(activated, maximized, fullscreen) == state_seq(
                activated,
                false,
                true,
            )
        }),
{
}

} // verus!
