//! Laws of the removal of images.

use crate::config::args;
use crate::engine::gc;
use crate::engine::gc::{GcAction, GcEvent, GcState, Phase};
use crate::engine::probe::Probe;
use crate::laws;
use vstd::hash_set::StringHashSet;
use vstd::prelude::*;

verus! {

/// An id without the name of its hash.
pub open spec fn stripped(id: Seq<char>) -> Seq<char> {
    if id.len() >= 7 && id.take(7) == "sha256:"@ {
        id.skip(7)
    } else {
        id
    }
}

/// One of the strings is `x`.
pub open spec fn lists(ids: Seq<String>, x: Seq<char>) -> bool {
    exists|k: int| 0 <= k < ids.len() && (#[trigger] ids[k])@ == x
}

/// One of the strings is the id `x`, with or without the name of its hash.
pub open spec fn uses(ids: Seq<String>, x: Seq<char>) -> bool {
    exists|k: int| 0 <= k < ids.len() && stripped((#[trigger] ids[k])@) == x
}

proof fn lemma_stripped(id: Seq<char>)
    ensures
        gc::norm_of(id) == stripped(id),
{
    reveal_strlit("sha256:");
    if id.len() >= 7 {
        assert(id.take(7) =~= id.subrange(0, 7));
    }
}

proof fn lemma_lists(ids: Seq<String>, x: Seq<char>)
    ensures
        args::texts(ids).contains(x) <==> lists(ids, x),
{
    let t = args::texts(ids);
    if t.contains(x) {
        let k = choose|k: int| 0 <= k < t.len() && t[k] == x;
        assert(ids[k]@ == x);
    }
    if lists(ids, x) {
        let k = choose|k: int| 0 <= k < ids.len() && (#[trigger] ids[k])@ == x;
        assert(t[k] == x);
    }
}

proof fn lemma_uses(ids: Seq<String>, x: Seq<char>)
    ensures
        gc::norm_set(args::texts(ids)).contains(x) <==> uses(ids, x),
{
    let t = args::texts(ids);
    let n = t.map_values(|id: Seq<char>| gc::norm_of(id));
    if n.to_set().contains(x) {
        let k = choose|k: int| 0 <= k < n.len() && n[k] == x;
        lemma_stripped(t[k]);
        assert(stripped(ids[k]@) == x);
    }
    if uses(ids, x) {
        let k = choose|k: int| 0 <= k < ids.len() && stripped((#[trigger] ids[k])@) == x;
        lemma_stripped(t[k]);
        assert(n[k] == x);
        assert(n.contains(x));
    }
}

/// The first that is kept of a list is the first in it that is to be kept.
proof fn lemma_first_orphan(images: Seq<Seq<char>>, referenced: Set<Seq<char>>, k: int)
    requires
        0 <= k < images.len(),
        !referenced.contains(gc::norm_of(images[k])),
        forall|j: int| 0 <= j < k ==> referenced.contains(gc::norm_of(#[trigger] images[j])),
    ensures
        gc::orphans(images, referenced).len() > 0,
        gc::orphans(images, referenced)[0] == images[k],
    decreases images.len(),
{
    reveal(Seq::filter);
    let rest = images.drop_last();
    let keep = |x: Seq<char>| !referenced.contains(gc::norm_of(x));
    assert(images.last() == images[images.len() - 1]);
    if k == images.len() - 1 {
        lemma_no_orphan(rest, referenced);
        assert(rest.filter(keep).push(images.last())[0] == images[k]);
    } else {
        assert(rest[k] == images[k]);
        assert forall|j: int| 0 <= j < k implies referenced.contains(
            gc::norm_of(#[trigger] rest[j]),
        ) by {
            assert(rest[j] == images[j]);
        }
        lemma_first_orphan(rest, referenced, k);
        let sub = rest.filter(keep);
        assert(sub.push(images.last())[0] == sub[0]);
    }
}

proof fn lemma_no_orphan(images: Seq<Seq<char>>, referenced: Set<Seq<char>>)
    requires
        forall|j: int|
            0 <= j < images.len() ==> referenced.contains(gc::norm_of(#[trigger] images[j])),
    ensures
        gc::orphans(images, referenced).len() == 0,
    decreases images.len(),
{
    reveal(Seq::filter);
    if images.len() > 0 {
        let rest = images.drop_last();
        assert forall|j: int| 0 <= j < rest.len() implies referenced.contains(
            gc::norm_of(#[trigger] rest[j]),
        ) by {
            assert(rest[j] == images[j]);
        }
        assert(referenced.contains(gc::norm_of(images[images.len() - 1])));
        lemma_no_orphan(rest, referenced);
    }
}

// ---------------------------------------------------------------------------------------------
// Ids
// ---------------------------------------------------------------------------------------------

/// The name of the hash goes, once, and nothing else.
pub proof fn law_ids_lose_their_prefix(id: &str, r: &str, rest: Seq<char>)
    requires
        call_ensures(gc::norm, (id,), r),
    ensures
        id@ == "sha256:"@ + rest ==> r@ == rest,
        id@.len() < 7 || id@.take(7) != "sha256:"@ ==> r@ == id@,
{
    lemma_stripped(id@);
    reveal_strlit("sha256:");
    if id@ == "sha256:"@ + rest {
        assert(id@.take(7) =~= "sha256:"@);
        assert(id@.skip(7) =~= rest);
    }
}

/// The images that are in use are those that the containers name, with or without prefix.
pub proof fn law_images_in_use(used: &Vec<String>, r: StringHashSet, x: Seq<char>)
    requires
        call_ensures(gc::referenced_ids, (used,), r),
    ensures
        r@.contains(x) <==> uses(used@, x),
{
    lemma_uses(used@, x);
}

/// The orphans are those images of the list that are not in use: all of them and no others.
pub proof fn law_orphans_are_all_found(
    images: &[String],
    referenced: &StringHashSet,
    r: Vec<String>,
    x: Seq<char>,
)
    requires
        call_ensures(gc::orphan_ids, (images, referenced), r),
    ensures
        lists(r@, x) <==> lists(images@, x) && !referenced@.contains(stripped(x)),
{
    lemma_stripped(x);
    lemma_lists(r@, x);
    lemma_lists(images@, x);
    gc::law_orphans_are_exactly_the_unreferenced(args::texts(images@), referenced@, x);
}

/// The orphans keep their order and their number: one more image adds itself behind those before,
/// or nothing.
pub proof fn law_orphans_keep_their_order(
    images: &[String],
    referenced: &StringHashSet,
    r: Vec<String>,
    more: &[String],
    grown: Vec<String>,
    x: String,
)
    requires
        call_ensures(gc::orphan_ids, (images, referenced), r),
        call_ensures(gc::orphan_ids, (more, referenced), grown),
        more@ == images@.push(x),
    ensures
        images@.len() == 0 ==> r@.len() == 0,
        referenced@.contains(stripped(x@)) ==> laws::same_texts(grown@, r@),
        !referenced@.contains(stripped(x@)) ==> laws::grown_by(grown@, r@, x@),
{
    reveal(Seq::filter);
    lemma_stripped(x@);
    assert(args::texts(r@).len() == r@.len());
    assert(args::texts(more@).drop_last() =~= args::texts(images@));
    assert(args::texts(more@).last() == x@);
    laws::lemma_same_texts(grown@, r@);
    laws::lemma_grown_by(grown@, r@, x@);
}

// ---------------------------------------------------------------------------------------------
// Steps
// ---------------------------------------------------------------------------------------------

/// A pass starts with the search for the engine, with nothing scanned and nothing removed.
pub proof fn law_pass_starts_afresh(s: GcState)
    requires
        call_ensures(GcState::new, (), s),
    ensures
        s@.phase == Phase::Probe,
        s@.scans == 0,
        s@.removed.len() == 0,
        gc::gc_inv(s@),
{
}

/// An engine that was found is asked for its containers; one that was not is the end of the pass,
/// with a hint.
pub proof fn law_pass_needs_an_engine(s: &mut GcState, p: Probe, a: GcAction)
    requires
        call_ensures(gc::gc_pass, (s, GcEvent::Probed(p)), a),
    ensures
        p is Found ==> a == GcAction::ListContainers && final(s)@.phase == Phase::Containers,
        !(p is Found) ==> a is Done && a->removed == old(s)@.removed.len() && a->hint is Some
            && final(s)@.phase == Phase::Over,
        p matches Probe::PermissionDenied(path) ==> a->hint->0@ == path@
            + " found but permission denied \u{2014} add this user to the docker group"@,
        p is NotFound ==> a->hint->0@ == "no Docker/Podman socket found"@,
        final(s)@.removed == old(s)@.removed,
        final(s)@.scans == old(s)@.scans,
{
    let view = p@;
    let action = a@;
    assert(p is Found ==> action is ListContainers);
}

/// What all the containers were created from is in use for the rest of the pass, and the images
/// are asked for; without the containers the pass is over, with a hint.
pub proof fn law_pass_learns_what_is_in_use(
    s: &mut GcState,
    used: Option<Vec<String>>,
    a: GcAction,
    x: Seq<char>,
)
    requires
        call_ensures(gc::gc_pass, (s, GcEvent::Containers(used)), a),
    ensures
        used matches Some(ids) ==> {
            &&& a == GcAction::ListImages
            &&& final(s)@.phase == Phase::Images
            &&& final(s)@.referenced.contains(x) <==> uses(ids@, x)
        },
        used is None ==> a is Done && a->removed == old(s)@.removed.len() && a->hint is Some
            && a->hint->0@ == "engine API error \u{2014} see server log"@ && final(s)@.phase
            == Phase::Over,
        final(s)@.removed == old(s)@.removed,
        final(s)@.scans == old(s)@.scans,
{
    let action = a@;
    if used is Some {
        lemma_uses(used->0@, x);
        assert(action is ListImages);
    }
}

/// A scan queues every image of the list that is not in use, and nothing else. The pass ends there
/// exactly where there is none, and otherwise asks for the removal of the first.
pub proof fn law_scan_queues_every_orphan(
    s: &mut GcState,
    ids: Vec<String>,
    a: GcAction,
    x: Seq<char>,
)
    requires
        call_ensures(gc::gc_pass, (s, GcEvent::Images(Some(ids))), a),
    ensures
        a is Delete || a is Done,
        a is Delete ==> {
            &&& final(s)@.queue.contains(x) <==> lists(ids@, x) && !old(s)@.referenced.contains(
                stripped(x),
            )
            &&& final(s)@.next == 0
            &&& !final(s)@.progressed
            &&& final(s)@.phase == Phase::Removal
            &&& final(s)@.queue.len() > 0
            &&& (a->Delete_0)@ == final(s)@.queue[0]
            &&& lists(ids@, (a->Delete_0)@)
            &&& !old(s)@.referenced.contains(stripped((a->Delete_0)@))
        },
        a is Done ==> {
            &&& lists(ids@, x) ==> old(s)@.referenced.contains(stripped(x))
            &&& a->removed == old(s)@.removed.len()
            &&& a->hint is None
            &&& final(s)@.phase == Phase::Over
        },
        final(s)@.referenced == old(s)@.referenced,
        final(s)@.removed == old(s)@.removed,
        final(s)@.scans == old(s)@.scans,
{
    let action = a@;
    let t = args::texts(ids@);
    let queue = gc::orphans(t, old(s)@.referenced);
    lemma_stripped(x);
    lemma_lists(ids@, x);
    gc::law_orphans_are_exactly_the_unreferenced(t, old(s)@.referenced, x);
    if queue.len() > 0 {
        lemma_stripped(queue[0]);
        lemma_lists(ids@, queue[0]);
        gc::law_orphans_are_exactly_the_unreferenced(t, old(s)@.referenced, queue[0]);
        assert(queue.contains(queue[0]));
        assert(action is Delete);
    } else {
        assert(action is Done);
    }
}

/// The queue keeps the order of the list, and what is listed twice is in it twice: one more image
/// in the list adds itself at the end of the queue, or nothing.
pub proof fn law_queue_keeps_the_order(
    s: &mut GcState,
    ids: Vec<String>,
    a: GcAction,
    t: &mut GcState,
    more: Vec<String>,
    b: GcAction,
    x: String,
)
    requires
        call_ensures(gc::gc_pass, (s, GcEvent::Images(Some(ids))), a),
        call_ensures(gc::gc_pass, (t, GcEvent::Images(Some(more))), b),
        old(s)@ == old(t)@,
        more@ == ids@.push(x),
        a is Delete,
    ensures
        b is Delete,
        old(s)@.referenced.contains(stripped(x@)) ==> final(t)@.queue == final(s)@.queue,
        !old(s)@.referenced.contains(stripped(x@)) ==> final(t)@.queue == final(s)@.queue.push(x@),
{
    reveal(Seq::filter);
    lemma_stripped(x@);
    assert(args::texts(more@).drop_last() =~= args::texts(ids@));
    assert(args::texts(more@).last() == x@);
    let first = a@;
    let second = b@;
    assert(first is Delete);
    assert(second is Delete);
}

/// Without a list of images the pass is over: with a hint where there was none before, as nothing
/// was collected.
pub proof fn law_pass_needs_images(s: &mut GcState, a: GcAction)
    requires
        call_ensures(gc::gc_pass, (s, GcEvent::Images(None)), a),
    ensures
        a is Done,
        a->removed == old(s)@.removed.len(),
        a->hint is Some <==> old(s)@.scans == 0,
        a->hint is Some ==> a->hint->0@ == "engine API error \u{2014} see server log"@,
        final(s)@.phase == Phase::Over,
{
    let action = a@;
    assert(action is Done);
}

/// Behind each removal that was asked for, whether it was done or not, the next in the queue is
/// asked for. At the end of the queue the images are asked for again where any of it was removed
/// and fewer than sixteen scans were made; otherwise the pass is over, and says how many images
/// were removed.
pub proof fn law_queue_is_worked_off(s: &mut GcState, done: bool, a: GcAction)
    requires
        call_ensures(gc::gc_pass, (s, GcEvent::Deleted(done)), a),
    ensures
        done ==> final(s)@.removed == old(s)@.removed.push(old(s)@.queue[old(s)@.next]),
        !done ==> final(s)@.removed == old(s)@.removed,
        old(s)@.next + 1 < old(s)@.queue.len() ==> {
            &&& a is Delete
            &&& (a->Delete_0)@ == old(s)@.queue[old(s)@.next + 1]
            &&& final(s)@.phase == old(s)@.phase
            &&& final(s)@.next == old(s)@.next + 1
            &&& final(s)@.queue == old(s)@.queue
            &&& final(s)@.progressed <==> old(s)@.progressed || done
            &&& final(s)@.scans == old(s)@.scans
        },
        old(s)@.next + 1 >= old(s)@.queue.len() ==> {
            let again = (old(s)@.progressed || done) && old(s)@.scans + 1 < 16;
            &&& again ==> a == GcAction::ListImages && final(s)@.phase == Phase::Images
                && final(s)@.scans == old(s)@.scans + 1
            &&& !again ==> a is Done && a->removed == final(s)@.removed.len() && a->hint is None
                && final(s)@.phase == Phase::Over
        },
        final(s)@.referenced == old(s)@.referenced,
{
    let action = a@;
    if old(s)@.next + 1 < old(s)@.queue.len() {
        assert(action is Delete);
    }
}

/// The one event that a pass waits for in each phase.
pub proof fn law_awaited_events(s: &GcState, e: &GcEvent, r: bool)
    requires
        call_ensures(GcState::awaits, (s, e), r),
    ensures
        s@.phase == Phase::Probe ==> (r <==> e is Probed),
        s@.phase == Phase::Containers ==> (r <==> e is Containers),
        s@.phase == Phase::Images ==> (r <==> e is Images),
        s@.phase == Phase::Removal ==> (r <==> e is Deleted),
        s@.phase == Phase::Over ==> !r,
{
    let view = e@;
}

/// A pass can take in the event that it waits for, from its start and after every step.
pub proof fn law_pass_can_go_on(
    s: &mut GcState,
    e: GcEvent,
    a: GcAction,
    t: &mut GcState,
    next: GcEvent,
    fits: bool,
)
    requires
        call_ensures(GcState::new, (), *old(t)) || (call_ensures(gc::gc_pass, (s, e), a) && *old(t)
            == *final(s)),
        call_ensures(GcState::awaits, (&*old(t), &next), fits),
        fits,
    ensures
        call_requires(gc::gc_pass, (t, next)),
{
}

/// What each action asks of the engine. All containers are listed, and no removal is forced.
pub proof fn law_requests(a: &GcAction, r: Option<(&'static str, String)>)
    requires
        call_ensures(GcAction::request, (a,), r),
    ensures
        r is None <==> a is Done,
        a is ListContainers ==> (r->0).0@ == "GET"@ && (r->0).1@ == "/containers/json?all=true"@,
        a is ListImages ==> (r->0).0@ == "GET"@ && (r->0).1@ == "/images/json"@,
        *a matches GcAction::Delete(id) ==> (r->0).0@ == "DELETE"@ && (r->0).1@ == "/images/"@
            + id@,
{
    let view = a@;
}

// ---------------------------------------------------------------------------------------------
// The start of a pass
// ---------------------------------------------------------------------------------------------

/// With a list of the containers and a list of the images, a pass asks for the removal of the
/// first image that no container was created from, wherever it stands in the list; and where each
/// is in use it is over, with nothing removed.
pub proof fn law_first_unused_image_goes_first(
    start: GcState,
    socket: String,
    used: Vec<String>,
    ids: Vec<String>,
    s0: &mut GcState,
    a0: GcAction,
    s1: &mut GcState,
    a1: GcAction,
    s2: &mut GcState,
    a2: GcAction,
    k: int,
)
    requires
        call_ensures(GcState::new, (), start),
        *old(s0) == start,
        call_ensures(gc::gc_pass, (s0, GcEvent::Probed(Probe::Found(socket))), a0),
        *old(s1) == *final(s0),
        call_ensures(gc::gc_pass, (s1, GcEvent::Containers(Some(used))), a1),
        *old(s2) == *final(s1),
        call_ensures(gc::gc_pass, (s2, GcEvent::Images(Some(ids))), a2),
    ensures
        a0 == GcAction::ListContainers,
        a1 == GcAction::ListImages,
        0 <= k < ids@.len() && !uses(used@, stripped(ids@[k]@)) && (forall|j: int|
            0 <= j < k ==> uses(used@, stripped((#[trigger] ids@[j])@))) ==> a2 is Delete && (
        a2->Delete_0)@ == ids@[k]@,
        (forall|j: int| 0 <= j < ids@.len() ==> uses(used@, stripped((#[trigger] ids@[j])@)))
            ==> a2 is Done && a2->removed == 0 && a2->hint is None,
{
    let v0 = a0@;
    let v1 = a1@;
    let v2 = a2@;
    assert(v0 is ListContainers);
    assert(v1 is ListImages);
    let t = args::texts(ids@);
    let referenced = gc::norm_set(args::texts(used@));
    assert forall|j: int| 0 <= j < ids@.len() implies (referenced.contains(
        gc::norm_of(#[trigger] t[j]),
    ) <==> uses(used@, stripped(ids@[j]@))) by {
        lemma_stripped(t[j]);
        lemma_uses(used@, stripped(t[j]));
    }
    if 0 <= k < ids@.len() && !uses(used@, stripped(ids@[k]@)) && (forall|j: int|
        0 <= j < k ==> uses(used@, stripped((#[trigger] ids@[j])@))) {
        assert(!referenced.contains(gc::norm_of(t[k])));
        assert forall|j: int| 0 <= j < k implies referenced.contains(
            gc::norm_of(#[trigger] t[j]),
        ) by {
            assert(uses(used@, stripped(ids@[j]@)));
        }
        lemma_first_orphan(t, referenced, k);
        assert(v2 is Delete);
    }
    if forall|j: int| 0 <= j < ids@.len() ==> uses(used@, stripped((#[trigger] ids@[j])@)) {
        assert forall|j: int| 0 <= j < t.len() implies referenced.contains(
            gc::norm_of(#[trigger] t[j]),
        ) by {
            assert(uses(used@, stripped(ids@[j]@)));
        }
        lemma_no_orphan(t, referenced);
        assert(v2 is Done);
    }
}

} // verus!
