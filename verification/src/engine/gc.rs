//! Removal of images that no container was ever created from.

use super::probe::{Probe, ProbeView};
use super::stats;
use crate::config::args;
use crate::text;
use vstd::hash_set::StringHashSet;
use vstd::prelude::*;

verus! {

/// Hard cap on re-scan iterations per GC pass. Removing a child image can orphan its parent (no
/// longer referenced by any container), so we re-scan and remove again until a full scan deletes
/// nothing; this bounds that loop.
pub const MAX_GC_PASSES: usize = 16;

// ---------------------------------------------------------------------------------------------
// Ids
// ---------------------------------------------------------------------------------------------

/// An id without the prefix `sha256:`.
pub open spec fn norm_of(id: Seq<char>) -> Seq<char> {
    if "sha256:"@.is_prefix_of(id) {
        id.skip("sha256:"@.len() as int)
    } else {
        id
    }
}

/// The ids, each without its prefix.
pub open spec fn norm_set(ids: Seq<Seq<char>>) -> Set<Seq<char>> {
    ids.map_values(|id: Seq<char>| norm_of(id)).to_set()
}

/// The images that nothing refers to, in order.
pub open spec fn orphans(images: Seq<Seq<char>>, referenced: Set<Seq<char>>) -> Seq<Seq<char>> {
    images.filter(|id: Seq<char>| !referenced.contains(norm_of(id)))
}

/// Strip a leading `sha256:` so IDs compare regardless of how the engine reports them (both
/// `/images/json` and `/containers/json` use it).
pub fn norm(id: &str) -> (r: &str)
    ensures
        r@ == norm_of(id@),
{
    proof {
        reveal_strlit("sha256:");
    }
    let n: usize = id.unicode_len();
    if n < 7 {
        return id;
    }
    let start = id.substring_char(0, 7);
    assert(start@ =~= id@.subrange(0, 7));
    if text::same_text(start, "sha256:") {
        let rest = id.substring_char(7, n);
        assert(rest@ =~= id@.skip(7));
        rest
    } else {
        id
    }
}

/// Pure filter: which image IDs have no container (running, stopped, or otherwise) backed by
/// them. `referenced` holds normalized container ImageIDs; anything not present is an orphan
/// eligible for removal.
pub fn orphan_ids(image_ids: &[String], referenced: &StringHashSet) -> (r: Vec<String>)
    ensures
        args::texts(r@) == orphans(args::texts(image_ids@), referenced@),
{
    let mut out: Vec<String> = Vec::new();
    let n: usize = image_ids.len();
    let mut i: usize = 0;
    let ghost all = args::texts(image_ids@);
    let ghost keep = |id: Seq<char>| !referenced@.contains(norm_of(id));
    proof {
        reveal(Seq::filter);
        assert(all.take(0) =~= Seq::empty());
        assert(args::texts(out@) =~= Seq::empty());
    }
    while i < n
        invariant
            n == image_ids@.len(),
            all == args::texts(image_ids@),
            keep == (|id: Seq<char>| !referenced@.contains(norm_of(id))),
            i <= n,
            args::texts(out@) == all.take(i as int).filter(keep),
        decreases n - i,
    {
        let id = &image_ids[i];
        let ghost before = out@;
        proof {
            reveal(Seq::filter);
            assert(all.take(i + 1).drop_last() =~= all.take(i as int));
            assert(all.take(i + 1).last() == id@);
        }
        if !referenced.contains(norm(id.as_str())) {
            out.push(id.clone());
            assert(args::texts(out@) =~= args::texts(before).push(id@));
        }
        i = i + 1;
    }
    assert(all.take(n as int) =~= all);
    out
}

/// The ids that containers refer to, each without its prefix.
pub fn referenced_ids(image_ids: &Vec<String>) -> (r: StringHashSet)
    ensures
        r@ == norm_set(args::texts(image_ids@)),
{
    let mut set = StringHashSet::new();
    let n: usize = image_ids.len();
    let mut i: usize = 0;
    let ghost ids = args::texts(image_ids@);
    let ghost normed = ids.map_values(|id: Seq<char>| norm_of(id));
    while i < n
        invariant
            n == image_ids@.len(),
            ids == args::texts(image_ids@),
            normed == ids.map_values(|id: Seq<char>| norm_of(id)),
            i <= n,
            forall|x: Seq<char>| #[trigger]
                set@.contains(x) <==> exists|j: int| 0 <= j < i && normed[j] == x,
        decreases n - i,
    {
        let id = norm(image_ids[i].as_str());
        assert(normed[i as int] == id@);
        let ghost before = set@;
        set.insert(id.to_owned());
        proof {
            assert forall|x: Seq<char>| #[trigger]
                set@.contains(x) <==> exists|j: int| 0 <= j < i + 1 && normed[j] == x by {
                if before.contains(x) {
                    let j = choose|j: int| 0 <= j < i && normed[j] == x;
                    assert(0 <= j < i + 1 && normed[j] == x);
                }
                if exists|j: int| 0 <= j < i + 1 && normed[j] == x {
                    let j = choose|j: int| 0 <= j < i + 1 && normed[j] == x;
                    if j < i {
                        assert(before.contains(x));
                    }
                }
            }
        }
        i = i + 1;
    }
    assert(set@ =~= normed.to_set());
    set
}

// ---------------------------------------------------------------------------------------------
// One pass, step by step
// ---------------------------------------------------------------------------------------------

/// What a pass waits for.
#[derive(PartialEq, Eq, Structural, Clone, Copy, Debug)]
pub enum Phase {
    /// Where the engine is.
    Probe,
    /// Which images the containers were created from.
    Containers,
    /// Which images there are.
    Images,
    /// Whether an image was removed.
    Removal,
    /// Nothing more.
    Over,
}

/// Something that a pass waited for.
pub enum GcEvent {
    /// What the search for the engine found.
    Probed(Probe),
    /// The images that the containers, all of them, were created from; None if the engine gave no
    /// list.
    Containers(Option<Vec<String>>),
    /// The images that there are; None if the engine gave no list.
    Images(Option<Vec<String>>),
    /// Whether the image was removed.
    Deleted(bool),
}

/// What a pass does next.
#[derive(PartialEq, Eq, Debug)]
pub enum GcAction {
    /// Ask for all containers.
    ListContainers,
    /// Ask for all images.
    ListImages,
    /// Ask for the removal of this image.
    Delete(String),
    /// The pass is over: how many images were removed, and why it did not take place if it did
    /// not.
    Done { removed: usize, hint: Option<String> },
}

/// Something that a pass waited for, as mathematical values.
pub enum EventView {
    Probed(ProbeView),
    Containers(Option<Seq<Seq<char>>>),
    Images(Option<Seq<Seq<char>>>),
    Deleted(bool),
}

/// What a pass does next, as mathematical values.
pub enum ActionView {
    ListContainers,
    ListImages,
    Delete(Seq<char>),
    Done { removed: nat, hint: Option<Seq<char>> },
}

/// The texts of an optional list.
pub open spec fn opt_texts(l: Option<Vec<String>>) -> Option<Seq<Seq<char>>> {
    match l {
        Some(v) => Some(args::texts(v@)),
        None => None,
    }
}

impl View for GcEvent {
    type V = EventView;

    open spec fn view(&self) -> EventView {
        match self {
            GcEvent::Probed(p) => EventView::Probed(p@),
            GcEvent::Containers(l) => EventView::Containers(opt_texts(*l)),
            GcEvent::Images(l) => EventView::Images(opt_texts(*l)),
            GcEvent::Deleted(ok) => EventView::Deleted(*ok),
        }
    }
}

impl View for GcAction {
    type V = ActionView;

    open spec fn view(&self) -> ActionView {
        match self {
            GcAction::ListContainers => ActionView::ListContainers,
            GcAction::ListImages => ActionView::ListImages,
            GcAction::Delete(id) => ActionView::Delete(id@),
            GcAction::Done { removed, hint } => ActionView::Done {
                removed: *removed as nat,
                hint: args::opt(*hint),
            },
        }
    }
}

/// Where a pass stands.
pub struct GcState {
    phase: Phase,
    /// The images that containers were created from, without prefix.
    referenced: StringHashSet,
    /// The orphans of the scan at hand.
    queue: Vec<String>,
    /// The orphan whose removal was asked for.
    next: usize,
    /// Whether the scan at hand removed anything.
    progressed: bool,
    /// The scans that are over.
    scans: usize,
    /// What was removed.
    removed: Vec<String>,
}

/// Where a pass stands, as mathematical values.
#[verifier::ext_equal]
pub struct GcView {
    pub phase: Phase,
    pub referenced: Set<Seq<char>>,
    pub queue: Seq<Seq<char>>,
    pub next: int,
    pub progressed: bool,
    pub scans: int,
    pub removed: Seq<Seq<char>>,
}

impl View for GcState {
    type V = GcView;

    closed spec fn view(&self) -> GcView {
        GcView {
            phase: self.phase,
            referenced: self.referenced@,
            queue: args::texts(self.queue@),
            next: self.next as int,
            progressed: self.progressed,
            scans: self.scans as int,
            removed: args::texts(self.removed@),
        }
    }
}

/// Where a pass starts.
pub open spec fn gc_start() -> GcView {
    GcView {
        phase: Phase::Probe,
        referenced: Set::empty(),
        queue: Seq::empty(),
        next: 0,
        progressed: false,
        scans: 0,
        removed: Seq::empty(),
    }
}

/// A pass that is not over has read a list of images.
pub open spec fn gc_scanned(s: GcView) -> bool {
    s.phase == Phase::Removal || s.scans > 0
}

/// While a removal is awaited it is that of an image in the queue, nothing in the queue is
/// referred to, and there is a scan to finish. Scans start behind the list of containers, and
/// nothing is removed before the first.
pub open spec fn gc_inv(s: GcView) -> bool {
    &&& 0 <= s.scans < MAX_GC_PASSES
    &&& s.phase == Phase::Probe || s.phase == Phase::Containers ==> s.scans == 0
    &&& s.phase != Phase::Over && !gc_scanned(s) ==> s.removed.len() == 0
    &&& s.phase == Phase::Removal ==> {
        &&& 0 <= s.next < s.queue.len()
        &&& forall|i: int|
            0 <= i < s.queue.len() ==> !s.referenced.contains(norm_of(#[trigger] s.queue[i]))
    }
}

/// The event is the one that the pass waits for.
pub open spec fn gc_fits(phase: Phase, e: EventView) -> bool {
    match e {
        EventView::Probed(_) => phase == Phase::Probe,
        EventView::Containers(_) => phase == Phase::Containers,
        EventView::Images(_) => phase == Phase::Images,
        EventView::Deleted(_) => phase == Phase::Removal,
    }
}

/// The pass is over.
pub open spec fn gc_over(s: GcView, hint: Option<Seq<char>>) -> (GcView, ActionView) {
    (GcView { phase: Phase::Over, ..s }, ActionView::Done { removed: s.removed.len(), hint })
}

/// One step of a pass. It asks for all containers, then scans: it asks for the images and for the
/// removal of each orphan among them, and scans again unless there was no orphan, or none was
/// removed, or as often as is allowed. Where it gets no images to scan, not even once, it says why.
pub open spec fn gc_step(s: GcView, e: EventView) -> (GcView, ActionView) {
    match e {
        EventView::Probed(p) => match stats::probe_hint(p) {
            Some(hint) => gc_over(s, Some(hint)),
            None => (GcView { phase: Phase::Containers, ..s }, ActionView::ListContainers),
        },
        EventView::Containers(None) => gc_over(s, Some(stats::api_hint())),
        EventView::Containers(Some(ids)) => (
            GcView { phase: Phase::Images, referenced: norm_set(ids), ..s },
            ActionView::ListImages,
        ),
        EventView::Images(None) => gc_over(
            s,
            if s.scans == 0 {
                Some(stats::api_hint())
            } else {
                None
            },
        ),
        EventView::Images(Some(ids)) => {
            let queue = orphans(ids, s.referenced);
            if queue.len() == 0 {
                gc_over(s, None)
            } else {
                (
                    GcView { phase: Phase::Removal, queue, next: 0, progressed: false, ..s },
                    ActionView::Delete(queue[0]),
                )
            }
        },
        EventView::Deleted(ok) => {
            let removed = if ok {
                s.removed.push(s.queue[s.next])
            } else {
                s.removed
            };
            let t = GcView { removed, progressed: s.progressed || ok, next: s.next + 1, ..s };
            if t.next < t.queue.len() {
                (t, ActionView::Delete(t.queue[t.next]))
            } else if !t.progressed || t.scans + 1 >= MAX_GC_PASSES {
                gc_over(t, None)
            } else {
                (
                    GcView { phase: Phase::Images, scans: t.scans + 1, ..t },
                    ActionView::ListImages,
                )
            }
        },
    }
}

impl GcState {
    /// Where a pass starts.
    pub fn new() -> (r: GcState)
        ensures
            r@ == gc_start(),
            gc_inv(r@),
    {
        let r = GcState {
            phase: Phase::Probe,
            referenced: StringHashSet::new(),
            queue: Vec::new(),
            next: 0,
            progressed: false,
            scans: 0,
            removed: Vec::new(),
        };
        assert(r@ =~= gc_start());
        r
    }

    /// What the pass waits for.
    pub fn phase(&self) -> (r: Phase)
        ensures
            r == self@.phase,
    {
        self.phase
    }

    /// Whether the event is the one that the pass waits for.
    pub fn awaits(&self, event: &GcEvent) -> (r: bool)
        ensures
            r == gc_fits(self@.phase, event@),
    {
        match event {
            GcEvent::Probed(_) => self.phase == Phase::Probe,
            GcEvent::Containers(_) => self.phase == Phase::Containers,
            GcEvent::Images(_) => self.phase == Phase::Images,
            GcEvent::Deleted(_) => self.phase == Phase::Removal,
        }
    }

    fn over(&mut self, hint: Option<String>) -> (r: GcAction)
        ensures
            (final(self)@, r@) == gc_over(old(self)@, args::opt(hint)),
    {
        self.phase = Phase::Over;
        GcAction::Done { removed: self.removed.len(), hint }
    }
}

/// What an orphan list holds is not referred to.
proof fn lemma_orphans_are_unreferenced(images: Seq<Seq<char>>, referenced: Set<Seq<char>>)
    ensures
        forall|i: int|
            0 <= i < orphans(images, referenced).len() ==> !referenced.contains(
                norm_of(#[trigger] orphans(images, referenced)[i]),
            ),
{
    broadcast use vstd::seq_lib::group_filter_ensures;

    let keep = |id: Seq<char>| !referenced.contains(norm_of(id));
    assert forall|i: int| 0 <= i < orphans(images, referenced).len() implies !referenced.contains(
        norm_of(#[trigger] orphans(images, referenced)[i]),
    ) by {
        assert(keep(images.filter(keep)[i]));
    }
}

/// Run one GC pass over the engine, step by step: take in what the pass waited for, and say what
/// it does next. In the end that is how many images were removed and, on a structural failure (no
/// socket / API error), a hint explaining why collection was skipped.
pub fn gc_pass(state: &mut GcState, event: GcEvent) -> (r: GcAction)
    requires
        gc_inv(old(state)@),
        gc_fits(old(state)@.phase, event@),
    ensures
        gc_inv(final(state)@),
        (final(state)@, r@) == gc_step(old(state)@, event@),
{
    match event {
        GcEvent::Probed(p) => {
            let hint = stats::hint_for(&p);
            if hint.is_some() {
                state.over(hint)
            } else {
                state.phase = Phase::Containers;
                GcAction::ListContainers
            }
        },
        GcEvent::Containers(None) => state.over(Some(stats::api_error())),
        GcEvent::Containers(Some(ids)) => {
            state.referenced = referenced_ids(&ids);
            state.phase = Phase::Images;
            GcAction::ListImages
        },
        GcEvent::Images(None) => {
            // once images were scanned the pass did take place
            if state.scans == 0 {
                state.over(Some(stats::api_error()))
            } else {
                state.over(None)
            }
        },
        GcEvent::Images(Some(ids)) => {
            let queue = orphan_ids(ids.as_slice(), &state.referenced);
            proof {
                lemma_orphans_are_unreferenced(args::texts(ids@), state.referenced@);
            }
            if queue.len() == 0 {
                return state.over(None);
            }
            let first = queue[0].clone();
            state.queue = queue;
            state.next = 0;
            state.progressed = false;
            state.phase = Phase::Removal;
            GcAction::Delete(first)
        },
        GcEvent::Deleted(ok) => {
            if ok {
                let gone = state.queue[state.next].clone();
                let ghost before = state.removed@;
                state.removed.push(gone);
                assert(args::texts(state.removed@) =~= args::texts(before).push(gone@));
                state.progressed = true;
            }
            let n: usize = state.queue.len();
            state.next = state.next + 1;
            if state.next < n {
                return GcAction::Delete(state.queue[state.next].clone());
            }
            if !state.progressed || state.scans + 1 >= MAX_GC_PASSES {
                return state.over(None);
            }
            state.scans = state.scans + 1;
            state.phase = Phase::Images;
            GcAction::ListImages
        },
    }
}

// ---------------------------------------------------------------------------------------------
// The requests
// ---------------------------------------------------------------------------------------------

/// The method and the path of the request that an action makes. All containers are listed:
/// stopped/exited/created containers still count as "using" their image, so we never delete under
/// them. A removal is not forced: the engine refuses to remove an image that still backs a
/// container.
pub open spec fn request_of(a: ActionView) -> Option<(Seq<char>, Seq<char>)> {
    match a {
        ActionView::ListContainers => Some(("GET"@, "/containers/json?all=true"@)),
        ActionView::ListImages => Some(("GET"@, "/images/json"@)),
        ActionView::Delete(id) => Some(("DELETE"@, "/images/"@ + id)),
        ActionView::Done { .. } => None,
    }
}

impl GcAction {
    /// The method and the path of the request that the action makes.
    pub fn request(&self) -> (r: Option<(&'static str, String)>)
        ensures
            match r {
                Some((method, path)) => request_of(self@) == Some((method@, path@)),
                None => request_of(self@) is None,
            },
    {
        match self {
            GcAction::ListContainers => Some(("GET", "/containers/json?all=true".to_owned())),
            GcAction::ListImages => Some(("GET", "/images/json".to_owned())),
            GcAction::Delete(id) => {
                let mut path = "/images/".to_owned();
                path.append(id.as_str());
                Some(("DELETE", path))
            },
            GcAction::Done { .. } => None,
        }
    }
}

// ---------------------------------------------------------------------------------------------
// Laws
// ---------------------------------------------------------------------------------------------

/// Ids compare regardless of whether the engine reports them with the prefix.
pub proof fn law_prefix_does_not_matter(id: Seq<char>)
    requires
        !"sha256:"@.is_prefix_of(id),
    ensures
        norm_of("sha256:"@ + id) == norm_of(id),
{
    let full = "sha256:"@ + id;
    assert(full.subrange(0, "sha256:"@.len() as int) =~= "sha256:"@);
    assert(full.skip("sha256:"@.len() as int) =~= id);
}

/// The orphans are the images that no container refers to, all of them and no others.
pub proof fn law_orphans_are_exactly_the_unreferenced(
    images: Seq<Seq<char>>,
    referenced: Set<Seq<char>>,
    id: Seq<char>,
)
    ensures
        orphans(images, referenced).contains(id) <==> images.contains(id) && !referenced.contains(
            norm_of(id),
        ),
    decreases images.len(),
{
    reveal(Seq::filter);
    if images.len() > 0 {
        let rest = images.drop_last();
        law_orphans_are_exactly_the_unreferenced(rest, referenced, id);
        let last = images.last();
        let keep = |x: Seq<char>| !referenced.contains(norm_of(x));
        let out = images.filter(keep);
        let sub = rest.filter(keep);
        assert(images =~= rest.push(last));
        if images.contains(id) && id != last {
            let k = choose|k: int| 0 <= k < images.len() && images[k] == id;
            assert(rest[k] == id);
        }
        if rest.contains(id) {
            let k = choose|k: int| 0 <= k < rest.len() && rest[k] == id;
            assert(images[k] == id);
        }
        if keep(last) {
            assert(out == sub.push(last));
            if sub.contains(id) {
                let k = choose|k: int| 0 <= k < sub.len() && sub[k] == id;
                assert(out[k] == id);
            }
            if id == last {
                assert(out[sub.len() as int] == id);
            }
            if out.contains(id) && id != last {
                let k = choose|k: int| 0 <= k < out.len() && out[k] == id;
                assert(sub[k] == id);
            }
        }
        if id == last {
            assert(images[images.len() - 1] == id);
        }
    }
}

/// What a pass does, event by event.
pub open spec fn gc_actions(s: GcView, events: Seq<EventView>) -> Seq<ActionView>
    decreases events.len(),
{
    if events.len() == 0 {
        Seq::empty()
    } else {
        let (t, a) = gc_step(s, events[0]);
        seq![a] + gc_actions(t, events.skip(1))
    }
}

/// Each event is the one that the pass waits for.
pub open spec fn gc_fits_all(s: GcView, events: Seq<EventView>) -> bool
    decreases events.len(),
{
    events.len() == 0 || (gc_fits(s.phase, events[0]) && gc_fits_all(
        gc_step(s, events[0]).0,
        events.skip(1),
    ))
}

/// Every step keeps the invariant.
pub proof fn law_gc_keeps_its_invariant(s: GcView, e: EventView)
    requires
        gc_inv(s),
        gc_fits(s.phase, e),
    ensures
        gc_inv(gc_step(s, e).0),
{
    if let EventView::Images(Some(ids)) = e {
        lemma_orphans_are_unreferenced(ids, s.referenced);
    }
}

/// What comes after the list of containers removes nothing that they refer to.
proof fn lemma_referenced_images_stay(s: GcView, events: Seq<EventView>)
    requires
        gc_inv(s),
        gc_fits_all(s, events),
        s.phase != Phase::Probe && s.phase != Phase::Containers,
    ensures
        forall|k: int, id: Seq<char>|
            0 <= k < events.len() && #[trigger] gc_actions(s, events)[k] == ActionView::Delete(id)
                ==> !s.referenced.contains(#[trigger] norm_of(id)),
    decreases events.len(),
{
    if events.len() > 0 {
        let (t, a) = gc_step(s, events[0]);
        law_gc_keeps_its_invariant(s, events[0]);
        lemma_referenced_images_stay(t, events.skip(1));
        lemma_one_action_each(t, events.skip(1));
        let all = gc_actions(s, events);
        let later = gc_actions(t, events.skip(1));
        assert forall|k: int, id: Seq<char>|
            0 <= k < events.len() && #[trigger] all[k] == ActionView::Delete(
                id,
            ) implies !s.referenced.contains(#[trigger] norm_of(id)) by {
            if k == 0 {
                assert(all[0] == a);
                assert(t.phase == Phase::Removal && t.queue[t.next] == id);
            } else {
                assert(all[k] == later[k - 1]);
            }
        }
    }
}

/// A pass never asks for the removal of an image that a container, running or not, was created
/// from: whatever the engine lists and answers, and however it writes the ids.
pub proof fn law_images_of_containers_are_kept(
    socket: Seq<char>,
    used: Seq<Seq<char>>,
    events: Seq<EventView>,
    k: int,
    id: Seq<char>,
)
    requires
        gc_fits_all(
            gc_start(),
            seq![
                EventView::Probed(ProbeView::Found(socket)),
                EventView::Containers(Some(used)),
            ] + events,
        ),
        0 <= k < events.len() + 2,
        gc_actions(
            gc_start(),
            seq![
                EventView::Probed(ProbeView::Found(socket)),
                EventView::Containers(Some(used)),
            ] + events,
        )[k] == ActionView::Delete(id),
    ensures
        forall|i: int| 0 <= i < used.len() ==> norm_of(id) != norm_of(#[trigger] used[i]),
{
    let all = seq![
        EventView::Probed(ProbeView::Found(socket)),
        EventView::Containers(Some(used)),
    ] + events;
    let s0 = gc_start();
    let s1 = gc_step(s0, all[0]).0;
    let s2 = gc_step(s1, all[1]).0;
    assert(all.skip(1).skip(1) =~= events);
    assert(all.skip(1)[0] == all[1]);
    let a0 = gc_actions(s0, all);
    let a1 = gc_actions(s1, all.skip(1));
    let a2 = gc_actions(s2, events);
    assert(a0 == seq![ActionView::ListContainers] + a1);
    assert(a1 == seq![ActionView::ListImages] + a2);
    lemma_one_action_each(s1, all.skip(1));
    lemma_one_action_each(s2, events);
    assert(k >= 2);
    assert(a0[k] == a1[k - 1]);
    assert(a1[k - 1] == a2[k - 2]);
    assert(gc_fits_all(s1, all.skip(1)));
    assert(gc_fits_all(s2, all.skip(1).skip(1)));
    lemma_referenced_images_stay(s2, events);
    assert(!s2.referenced.contains(norm_of(id)));
    let normed = used.map_values(|x: Seq<char>| norm_of(x));
    assert forall|i: int| 0 <= i < used.len() implies norm_of(id) != norm_of(
        #[trigger] used[i],
    ) by {
        assert(normed[i] == norm_of(used[i]));
        assert(normed.to_set().contains(normed[i]));
    }
}

/// A scan asks for the removal of each of its orphans, in order, however it goes with those
/// before.
pub proof fn law_every_orphan_is_asked_for(s: GcView, answers: Seq<bool>, i: int)
    requires
        gc_inv(s),
        s.phase == Phase::Removal,
        0 <= i < answers.len() < s.queue.len() - s.next,
    ensures
        gc_fits_all(s, answers.map_values(|ok: bool| EventView::Deleted(ok))),
        gc_actions(s, answers.map_values(|ok: bool| EventView::Deleted(ok)))[i]
            == ActionView::Delete(s.queue[s.next + 1 + i]),
    decreases answers.len(),
{
    let events = answers.map_values(|ok: bool| EventView::Deleted(ok));
    let (t, a) = gc_step(s, events[0]);
    let rest = answers.skip(1);
    let later = rest.map_values(|ok: bool| EventView::Deleted(ok));
    assert(events.skip(1) =~= later);
    assert(a == ActionView::Delete(s.queue[s.next + 1]));
    law_gc_keeps_its_invariant(s, events[0]);
    lemma_one_action_each(t, later);
    if rest.len() > 0 {
        let k = if i > 0 {
            i - 1
        } else {
            0
        };
        law_every_orphan_is_asked_for(t, rest, k);
        assert(gc_actions(s, events) == seq![a] + gc_actions(t, later));
        if i > 0 {
            assert(gc_actions(s, events)[i] == gc_actions(t, later)[i - 1]);
        }
    }
}

/// A scan that removed something is followed by another, which may find what it orphaned, unless
/// as many scans were made as are allowed; a scan that removed nothing is the last.
pub proof fn law_scans_go_on_while_images_go(s: GcView, ok: bool)
    requires
        gc_inv(s),
        s.phase == Phase::Removal,
        s.next + 1 == s.queue.len(),
    ensures
        gc_step(s, EventView::Deleted(ok)).1 == ActionView::ListImages <==> (s.progressed || ok)
            && s.scans + 1 < MAX_GC_PASSES,
        gc_step(s, EventView::Deleted(ok)).1 != ActionView::ListImages ==> gc_step(
            s,
            EventView::Deleted(ok),
        ).1 is Done,
{
}

/// How many of the actions ask for the images.
pub open spec fn image_lists(actions: Seq<ActionView>) -> nat
    decreases actions.len(),
{
    if actions.len() == 0 {
        0
    } else if actions[0] == ActionView::ListImages {
        1 + image_lists(actions.skip(1))
    } else {
        image_lists(actions.skip(1))
    }
}

/// How many times a pass that stands at `s` can still ask for the images.
pub open spec fn lists_left(s: GcView) -> int {
    match s.phase {
        Phase::Probe | Phase::Containers => MAX_GC_PASSES - s.scans,
        Phase::Images | Phase::Removal => MAX_GC_PASSES - 1 - s.scans,
        Phase::Over => 0,
    }
}

/// A pass that goes on from `s` asks for the images no more often than is left.
pub proof fn law_scans_are_bounded(s: GcView, events: Seq<EventView>)
    requires
        gc_inv(s),
        gc_fits_all(s, events),
    ensures
        image_lists(gc_actions(s, events)) <= lists_left(s),
    decreases events.len(),
{
    if events.len() > 0 {
        let (t, a) = gc_step(s, events[0]);
        law_gc_keeps_its_invariant(s, events[0]);
        law_scans_are_bounded(t, events.skip(1));
        assert(gc_actions(s, events).skip(1) =~= gc_actions(t, events.skip(1)));
    }
}

/// How many of the events say that an image was removed.
pub open spec fn removals(events: Seq<EventView>) -> nat
    decreases events.len(),
{
    if events.len() == 0 {
        0
    } else if events[0] == EventView::Deleted(true) {
        1 + removals(events.skip(1))
    } else {
        removals(events.skip(1))
    }
}

/// What a pass says at its end is how many images were removed: those before `s` and those that
/// the events since then tell of.
pub proof fn law_removals_are_counted(s: GcView, events: Seq<EventView>)
    requires
        gc_fits_all(s, events),
        events.len() > 0,
    ensures
        gc_actions(s, events).last() matches ActionView::Done { removed, .. } ==> removed
            == s.removed.len() + removals(events),
    decreases events.len(),
{
    let (t, a) = gc_step(s, events[0]);
    let later = events.skip(1);
    assert(gc_actions(s, events) == seq![a] + gc_actions(t, later));
    if later.len() > 0 {
        law_removals_are_counted(t, later);
        lemma_one_action_each(t, later);
        assert(gc_actions(s, events).last() == gc_actions(t, later).last());
    } else {
        assert(gc_actions(s, events).last() == a);
        assert(removals(later) == 0);
    }
}

/// The event is a list of images.
pub open spec fn lists_images(e: EventView) -> bool {
    e matches EventView::Images(Some(_))
}

/// A pass that goes on from `s` ends with a hint exactly where no list of images was read, and
/// then nothing was removed.
proof fn lemma_hint_without_images(s: GcView, events: Seq<EventView>)
    requires
        gc_inv(s),
        gc_fits_all(s, events),
        events.len() > 0,
    ensures
        gc_actions(s, events).last() matches ActionView::Done { removed, hint } ==> {
            &&& hint is Some <==> !gc_scanned(s) && forall|i: int|
                0 <= i < events.len() ==> !lists_images(#[trigger] events[i])
            &&& hint is Some ==> removed == 0
        },
    decreases events.len(),
{
    let (t, a) = gc_step(s, events[0]);
    let later = events.skip(1);
    assert(gc_actions(s, events) == seq![a] + gc_actions(t, later));
    law_gc_keeps_its_invariant(s, events[0]);
    if later.len() > 0 {
        lemma_hint_without_images(t, later);
        lemma_one_action_each(t, later);
        assert(gc_actions(s, events).last() == gc_actions(t, later).last());
        assert(gc_fits_all(t, later));
        assert(gc_fits(t.phase, later[0]));
        assert(gc_scanned(t) <==> gc_scanned(s) || lists_images(events[0]));
        if forall|i: int| 0 <= i < later.len() ==> !lists_images(#[trigger] later[i]) {
            assert forall|i: int| 0 < i < events.len() implies !lists_images(
                #[trigger] events[i],
            ) by {
                assert(later[i - 1] == events[i]);
            }
        } else {
            let i = choose|i: int| 0 <= i < later.len() && lists_images(#[trigger] later[i]);
            assert(lists_images(events[i + 1]));
        }
    } else {
        assert(gc_actions(s, events).last() == a);
    }
}

/// A pass that was skipped says why, and only such a one: it ends with a hint exactly where it
/// read no list of images, be it for want of a socket or for an error of the engine. Nothing was
/// removed then.
pub proof fn law_skipped_pass_is_explained(events: Seq<EventView>)
    requires
        gc_fits_all(gc_start(), events),
        events.len() > 0,
    ensures
        gc_actions(gc_start(), events).last() matches ActionView::Done { removed, hint } ==> {
            &&& hint is Some <==> forall|i: int|
                0 <= i < events.len() ==> !lists_images(#[trigger] events[i])
            &&& hint is Some ==> removed == 0
        },
{
    lemma_hint_without_images(gc_start(), events);
}

/// There is one action for each event.
proof fn lemma_one_action_each(s: GcView, events: Seq<EventView>)
    ensures
        gc_actions(s, events).len() == events.len(),
    decreases events.len(),
{
    if events.len() > 0 {
        lemma_one_action_each(gc_step(s, events[0]).0, events.skip(1));
    }
}

} // verus!
