//! The association of client windows and frames.
//!
//! The pairs live in a `bimap::BiHashMap` from client window to frame. What
//! the map holds is modelled as a set of pairs; that no window has two frames
//! and no frame two windows is proved here from what each operation does to
//! that set.

use bimap::BiHashMap;
use vstd::prelude::*;

verus! {

/// `bimap::BiHashMap`, a map that is read in both directions. Nothing is
/// known of a value of it but what the functions below say.
#[verifier::external_type_specification]
#[verifier::external_body]
#[verifier::reject_recursive_types(L)]
#[verifier::reject_recursive_types(R)]
#[verifier::reject_recursive_types(LS)]
#[verifier::reject_recursive_types(RS)]
pub struct ExBiHashMap<L, R, LS, RS>(BiHashMap<L, R, LS, RS>);

/// The pairs of client window and frame that a map holds.
pub uninterp spec fn pairs_of(map: BiHashMap<u32, u32>) -> Set<(u32, u32)>;

/// No window with two frames, no frame with two windows.
pub open spec fn one_to_one(pairs: Set<(u32, u32)>) -> bool {
    forall|p: (u32, u32), q: (u32, u32)|
        #![trigger pairs.contains(p), pairs.contains(q)]
        pairs.contains(p) && pairs.contains(q) ==> (p.0 == q.0 <==> p.1 == q.1)
}

/// Whether `window` is the client of some pair.
pub open spec fn has_client(pairs: Set<(u32, u32)>, window: u32) -> bool {
    exists|frame: u32| pairs.contains((window, frame))
}

/// Whether `frame` is the frame of some pair.
pub open spec fn has_frame(pairs: Set<(u32, u32)>, frame: u32) -> bool {
    exists|window: u32| pairs.contains((window, frame))
}

/// The frame of a client window.
pub open spec fn frame_of(pairs: Set<(u32, u32)>, window: u32) -> Option<u32> {
    if has_client(pairs, window) {
        Some(choose|frame: u32| pairs.contains((window, frame)))
    } else {
        None
    }
}

/// The client window of a frame.
pub open spec fn client_of(pairs: Set<(u32, u32)>, frame: u32) -> Option<u32> {
    if has_frame(pairs, frame) {
        Some(choose|window: u32| pairs.contains((window, frame)))
    } else {
        None
    }
}

/// The pair that `target` belongs to, looked up as a client first and as a
/// frame second.
pub open spec fn pair_of(pairs: Set<(u32, u32)>, target: u32) -> Option<(u32, u32)> {
    match frame_of(pairs, target) {
        Some(frame) => Some((target, frame)),
        None => match client_of(pairs, target) {
            Some(window) => Some((window, target)),
            None => None,
        },
    }
}

/// The pairs without the one of client `window`.
pub open spec fn without_client(pairs: Set<(u32, u32)>, window: u32) -> Set<(u32, u32)> {
    Set::new(|p: (u32, u32)| pairs.contains(p) && p.0 != window)
}

/// The pairs without the one of frame `frame`.
pub open spec fn without_frame(pairs: Set<(u32, u32)>, frame: u32) -> Set<(u32, u32)> {
    Set::new(|p: (u32, u32)| pairs.contains(p) && p.1 != frame)
}

/// The pairs after `window` has been associated with `frame`: a pair that
/// holds either of the two gives way.
pub open spec fn with_pair(pairs: Set<(u32, u32)>, window: u32, frame: u32) -> Set<(u32, u32)> {
    Set::new(
        |p: (u32, u32)| p == (window, frame) || (pairs.contains(p) && p.0 != window && p.1 != frame),
    )
}

/// `BiHashMap::new`: a map without pairs.
#[verifier::external_body]
pub(crate) fn new_map() -> (map: BiHashMap<u32, u32>)
    ensures
        pairs_of(map) == Set::<(u32, u32)>::empty(),
{
    BiHashMap::new()
}

/// `BiHashMap::insert`: the pair is in the map afterwards; a pair that held
/// the same left or the same right value before is gone; the others stay.
#[verifier::external_body]
pub(crate) fn insert_pair(map: &mut BiHashMap<u32, u32>, window: u32, frame: u32)
    ensures
        pairs_of(*final(map)) == with_pair(pairs_of(*old(map)), window, frame),
{
    map.insert(window, frame);
}

/// `BiHashMap::get_by_left`: the right value paired with the left value, if
/// the left value is in the map.
#[verifier::external_body]
pub(crate) fn frame_by_client(map: &BiHashMap<u32, u32>, window: u32) -> (found: Option<u32>)
    ensures
        match found {
            Some(frame) => pairs_of(*map).contains((window, frame)),
            None => !has_client(pairs_of(*map), window),
        },
{
    map.get_by_left(&window).copied()
}

/// `BiHashMap::get_by_right`: the left value paired with the right value, if
/// the right value is in the map.
#[verifier::external_body]
pub(crate) fn client_by_frame(map: &BiHashMap<u32, u32>, frame: u32) -> (found: Option<u32>)
    ensures
        match found {
            Some(window) => pairs_of(*map).contains((window, frame)),
            None => !has_frame(pairs_of(*map), frame),
        },
{
    map.get_by_right(&frame).copied()
}

/// `BiHashMap::remove_by_left`: removes the pair of the left value and
/// returns it, if the left value is in the map; the other pairs stay.
#[verifier::external_body]
pub(crate) fn remove_by_client(map: &mut BiHashMap<u32, u32>, window: u32) -> (removed: Option<
    (u32, u32),
>)
    ensures
        pairs_of(*final(map)) == without_client(pairs_of(*old(map)), window),
        match removed {
            Some(pair) => pair.0 == window && pairs_of(*old(map)).contains(pair),
            None => !has_client(pairs_of(*old(map)), window),
        },
{
    map.remove_by_left(&window)
}

/// `BiHashMap::remove_by_right`: removes the pair of the right value and
/// returns it, if the right value is in the map; the other pairs stay.
#[verifier::external_body]
pub(crate) fn remove_by_frame(map: &mut BiHashMap<u32, u32>, frame: u32) -> (removed: Option<
    (u32, u32),
>)
    ensures
        pairs_of(*final(map)) == without_frame(pairs_of(*old(map)), frame),
        match removed {
            Some(pair) => pair.1 == frame && pairs_of(*old(map)).contains(pair),
            None => !has_frame(pairs_of(*old(map)), frame),
        },
{
    map.remove_by_right(&frame)
}

/// `BiHashMap::iter`: every pair of the map once, in an order that is not
/// specified.
#[verifier::external_body]
pub(crate) fn all_pairs(map: &BiHashMap<u32, u32>) -> (pairs: Vec<(u32, u32)>)
    ensures
        pairs@.no_duplicates(),
        pairs@.to_set() == pairs_of(*map),
{
    map.iter().map(|(window, frame)| (*window, *frame)).collect()
}

/// In a one-to-one association the frame of a client is the frame of the one
/// pair that holds the client.
pub proof fn lemma_frame_of(pairs: Set<(u32, u32)>, window: u32, frame: u32)
    requires
        one_to_one(pairs),
        pairs.contains((window, frame)),
    ensures
        frame_of(pairs, window) == Some(frame),
        client_of(pairs, frame) == Some(window),
{
    let f = choose|f: u32| pairs.contains((window, f));
    assert(pairs.contains((window, f)) && pairs.contains((window, frame)));
    let w = choose|w: u32| pairs.contains((w, frame));
    assert(pairs.contains((w, frame)) && pairs.contains((window, frame)));
}

/// No pairs are a one-to-one association.
pub proof fn lemma_empty_one_to_one()
    ensures
        one_to_one(Set::<(u32, u32)>::empty()),
{
}

/// Associating a window with a frame keeps the association one-to-one, and
/// the two are each other's partner afterwards.
pub proof fn lemma_with_pair(pairs: Set<(u32, u32)>, window: u32, frame: u32)
    requires
        one_to_one(pairs),
    ensures
        one_to_one(with_pair(pairs, window, frame)),
        frame_of(with_pair(pairs, window, frame), window) == Some(frame),
        client_of(with_pair(pairs, window, frame), frame) == Some(window),
{
    let after = with_pair(pairs, window, frame);
    assert(after.contains((window, frame)));
    assert forall|p: (u32, u32), q: (u32, u32)|
        #![trigger after.contains(p), after.contains(q)]
        after.contains(p) && after.contains(q) implies (p.0 == q.0 <==> p.1 == q.1) by {
        if p != (window, frame) && q != (window, frame) {
            assert(pairs.contains(p) && pairs.contains(q));
        }
    }
    lemma_frame_of(after, window, frame);
}

/// Removing the pair of a client keeps the association one-to-one and leaves
/// the client without a frame.
pub proof fn lemma_without_client(pairs: Set<(u32, u32)>, window: u32)
    requires
        one_to_one(pairs),
    ensures
        one_to_one(without_client(pairs, window)),
        !has_client(without_client(pairs, window), window),
        forall|frame: u32|
            pairs.contains((window, frame)) ==> !has_frame(
                without_client(pairs, window),
                frame,
            ),
{
    let after = without_client(pairs, window);
    assert forall|p: (u32, u32), q: (u32, u32)|
        #![trigger after.contains(p), after.contains(q)]
        after.contains(p) && after.contains(q) implies (p.0 == q.0 <==> p.1 == q.1) by {
        assert(pairs.contains(p) && pairs.contains(q));
    }
    assert forall|frame: u32| pairs.contains((window, frame)) implies !has_frame(
        after,
        frame,
    ) by {
        if has_frame(after, frame) {
            let w = choose|w: u32| after.contains((w, frame));
            assert(pairs.contains((w, frame)) && pairs.contains((window, frame)));
        }
    }
}

/// Removing the pair of a frame keeps the association one-to-one and leaves
/// the frame without a client.
pub proof fn lemma_without_frame(pairs: Set<(u32, u32)>, frame: u32)
    requires
        one_to_one(pairs),
    ensures
        one_to_one(without_frame(pairs, frame)),
        !has_frame(without_frame(pairs, frame), frame),
        forall|window: u32|
            pairs.contains((window, frame)) ==> !has_client(
                without_frame(pairs, frame),
                window,
            ),
{
    let after = without_frame(pairs, frame);
    assert forall|p: (u32, u32), q: (u32, u32)|
        #![trigger after.contains(p), after.contains(q)]
        after.contains(p) && after.contains(q) implies (p.0 == q.0 <==> p.1 == q.1) by {
        assert(pairs.contains(p) && pairs.contains(q));
    }
    assert forall|window: u32| pairs.contains((window, frame)) implies !has_client(
        after,
        window,
    ) by {
        if has_client(after, window) {
            let f = choose|f: u32| after.contains((window, f));
            assert(pairs.contains((window, f)) && pairs.contains((window, frame)));
        }
    }
}

/// In a one-to-one association, to remove a pair by its client is to remove
/// it by its frame: both leave the pairs without that one pair.
pub proof fn lemma_remove_either_way(pairs: Set<(u32, u32)>, window: u32, frame: u32)
    requires
        one_to_one(pairs),
        pairs.contains((window, frame)),
    ensures
        without_client(pairs, window) == pairs.remove((window, frame)),
        without_frame(pairs, frame) == pairs.remove((window, frame)),
{
    let gone = pairs.remove((window, frame));
    assert forall|p: (u32, u32)| without_client(pairs, window).contains(p) == gone.contains(
        p,
    ) by {
        if pairs.contains(p) {
            assert(pairs.contains(p) && pairs.contains((window, frame)));
        }
    }
    assert forall|p: (u32, u32)| without_frame(pairs, frame).contains(p) == gone.contains(p) by {
        if pairs.contains(p) {
            assert(pairs.contains(p) && pairs.contains((window, frame)));
        }
    }
    assert(without_client(pairs, window) =~= gone);
    assert(without_frame(pairs, frame) =~= gone);
}

/// Associating a window and a frame that were both free, and removing the
/// pair again, leaves the association as it was.
pub proof fn lemma_pair_and_back(pairs: Set<(u32, u32)>, window: u32, frame: u32)
    requires
        !has_client(pairs, window),
        !has_frame(pairs, frame),
    ensures
        with_pair(pairs, window, frame) == pairs.insert((window, frame)),
        without_client(with_pair(pairs, window, frame), window) == pairs,
        without_frame(with_pair(pairs, window, frame), frame) == pairs,
{
    let after = with_pair(pairs, window, frame);
    assert forall|p: (u32, u32)| pairs.contains(p) implies p.0 != window && p.1 != frame by {
        if p.0 == window {
            assert(pairs.contains((window, p.1)));
        }
        if p.1 == frame {
            assert(pairs.contains((p.0, frame)));
        }
    }
    assert(after =~= pairs.insert((window, frame)));
    assert(without_client(after, window) =~= pairs);
    assert(without_frame(after, frame) =~= pairs);
}

} // verus!
