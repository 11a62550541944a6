//! Properties of negotiation and of the swap chain that hold for all inputs.
use vstd::prelude::*;
use crate::negotiate::{
    connected_count, filtered, first_compatible, first_connected, is_connected, mask_has,
    ConnectorInfo,
};
use crate::swapchain::{acquire_result, after_acquire, acquired_from, SurfaceView};

verus! {

proof fn lemma_first_connected_facts(cs: Seq<ConnectorInfo>)
    ensures
        match first_connected(cs) {
            Some(i) => 0 <= i < cs.len() && is_connected(cs[i]) && forall|j: int|
                0 <= j < i ==> !is_connected(#[trigger] cs[j]),
            None => forall|j: int| 0 <= j < cs.len() ==> !is_connected(#[trigger] cs[j]),
        },
        first_connected(cs) is None <==> connected_count(cs) == 0,
        connected_count(cs) <= cs.len(),
    decreases cs.len(),
{
    if cs.len() > 0 {
        lemma_first_connected_facts(cs.drop_last());
        assert forall|j: int| 0 <= j < cs.len() - 1 implies cs.drop_last()[j] == cs[j] by {}
    }
}

/// Two connected connectors make the count at least two.
proof fn lemma_count_two(cs: Seq<ConnectorInfo>, i: int, j: int)
    requires
        0 <= i < j < cs.len(),
        is_connected(cs[i]),
        is_connected(cs[j]),
    ensures
        connected_count(cs) >= 2,
    decreases cs.len(),
{
    lemma_first_connected_facts(cs.drop_last());
    if j < cs.len() - 1 {
        assert(cs.drop_last()[i] == cs[i]);
        assert(cs.drop_last()[j] == cs[j]);
        lemma_count_two(cs.drop_last(), i, j);
    } else {
        assert(cs.drop_last()[i] == cs[i]);
        lemma_first_connected_facts(cs.drop_last());
    }
}

/// Connector selection: with no connected connector negotiation fails; with
/// exactly one it selects that one; with two or more it selects the first
/// connected one in enumeration order and does not fail.
pub proof fn lemma_connector_selection(cs: Seq<ConnectorInfo>)
    ensures
        connected_count(cs) == 0 <==> first_connected(cs) is None,
        connected_count(cs) == 1 ==> forall|k: int|
            0 <= k < cs.len() && is_connected(#[trigger] cs[k]) ==> first_connected(cs) == Some(k),
        connected_count(cs) >= 1 ==> (first_connected(cs) matches Some(i) && 0 <= i < cs.len()
            && is_connected(cs[i]) && forall|j: int| 0 <= j < i ==> !is_connected(#[trigger] cs[j])),
{
    lemma_first_connected_facts(cs);
    assert forall|k: int|
        connected_count(cs) == 1 && 0 <= k < cs.len() && is_connected(
            #[trigger] cs[k],
        ) implies first_connected(cs) == Some(k) by {
        let i = first_connected(cs).unwrap();
        if i < k {
            lemma_count_two(cs, i, k);
        }
    }
}

/// `h` stands in the device's CRTC list at a position set in `mask`.
pub open spec fn in_intersection(crtcs: Seq<u32>, mask: u32, h: u32) -> bool {
    exists|n: int| 0 <= n < crtcs.len() && #[trigger] crtcs[n] == h && mask_has(mask, n)
}

proof fn lemma_filtered_members(crtcs: Seq<u32>, mask: u32)
    ensures
        forall|m: int|
            0 <= m < filtered(crtcs, mask).len() ==> in_intersection(
                crtcs,
                mask,
                #[trigger] filtered(crtcs, mask)[m],
            ),
    decreases crtcs.len(),
{
    if crtcs.len() > 0 {
        let rest = crtcs.drop_last();
        lemma_filtered_members(rest, mask);
        assert forall|m: int| 0 <= m < filtered(crtcs, mask).len() implies in_intersection(
            crtcs,
            mask,
            #[trigger] filtered(crtcs, mask)[m],
        ) by {
            if m < filtered(rest, mask).len() {
                assert(in_intersection(rest, mask, filtered(rest, mask)[m]));
                let n = choose|n: int|
                    0 <= n < rest.len() && #[trigger] rest[n] == filtered(rest, mask)[m]
                        && mask_has(mask, n);
                assert(crtcs[n] == rest[n]);
            } else {
                assert(crtcs[crtcs.len() - 1] == filtered(crtcs, mask)[m]);
            }
        }
    }
}

/// CRTC selection: the chosen CRTC lies in the intersection of the device's
/// CRTC list with the possible-CRTC mask of the first encoder whose
/// intersection is not empty; when every intersection is empty, no CRTC is
/// chosen.
pub proof fn lemma_crtc_in_intersection(encoders: Seq<u32>, crtcs: Seq<u32>)
    ensures
        match first_compatible(encoders, crtcs) {
            Some(h) => exists|e: int|
                0 <= e < encoders.len() && in_intersection(crtcs, #[trigger] encoders[e], h)
                    && forall|k: int|
                    0 <= k < e ==> filtered(crtcs, #[trigger] encoders[k]).len() == 0,
            None => forall|e: int|
                0 <= e < encoders.len() ==> filtered(crtcs, #[trigger] encoders[e]).len() == 0,
        },
    decreases encoders.len(),
{
    if encoders.len() > 0 {
        let rest = encoders.drop_first();
        lemma_crtc_in_intersection(rest, crtcs);
        assert forall|k: int| 0 <= k < rest.len() implies rest[k] == encoders[k + 1] by {}
        if filtered(crtcs, encoders[0]).len() > 0 {
            lemma_filtered_members(crtcs, encoders[0]);
            assert(in_intersection(crtcs, encoders[0], filtered(crtcs, encoders[0])[0]));
        } else {
            match first_compatible(rest, crtcs) {
                Some(h) => {
                    let e = choose|e: int|
                        0 <= e < rest.len() && in_intersection(crtcs, #[trigger] rest[e], h)
                            && forall|k: int|
                            0 <= k < e ==> filtered(crtcs, #[trigger] rest[k]).len() == 0;
                    assert(in_intersection(crtcs, encoders[e + 1], h));
                    assert forall|k: int| 0 <= k < e + 1 implies filtered(
                        crtcs,
                        #[trigger] encoders[k],
                    ).len() == 0 by {
                        if k > 0 {
                            assert(encoders[k] == rest[k - 1]);
                        }
                    }
                },
                None => {
                    assert forall|e: int| 0 <= e < encoders.len() implies filtered(
                        crtcs,
                        #[trigger] encoders[e],
                    ).len() == 0 by {
                        if e > 0 {
                            assert(encoders[e] == rest[e - 1]);
                        }
                    }
                },
            }
        }
    }
}

/// Acquiring a buffer before the first resize always fails and changes
/// nothing.
pub proof fn lemma_acquire_needs_resize(v: SurfaceView)
    requires
        v.framebuffers is None,
    ensures
        acquire_result(v) is Err,
        after_acquire(v) == v,
{
}

/// After a resize, the first and the second acquire each hand out a buffer
/// of the negotiated mode's size.
pub proof fn lemma_acquired_size(v: SurfaceView)
    requires
        v.framebuffers is Some,
    ensures
        acquire_result(v) == Ok::<_, crate::swapchain::SwapError>(acquired_from(v)),
        acquired_from(v).width == v.config.mode.width,
        acquired_from(v).height == v.config.mode.height,
        acquire_result(after_acquire(v)) == Ok::<_, crate::swapchain::SwapError>(
            acquired_from(after_acquire(v)),
        ),
        acquired_from(after_acquire(v)).width == v.config.mode.width,
        acquired_from(after_acquire(v)).height == v.config.mode.height,
{
}

/// Two consecutive acquires hand out the two different buffers of the pair.
pub proof fn lemma_consecutive_acquires_differ(v: SurfaceView)
    requires
        v.framebuffers is Some,
    ensures
        acquired_from(v).index != acquired_from(after_acquire(v)).index,
        v.framebuffers.unwrap().0 != v.framebuffers.unwrap().1 ==> acquired_from(v).fb
            != acquired_from(after_acquire(v)).fb,
{
}

/// Acquires alternate with period two: the third acquire hands out the same
/// buffer as the first, and leaves the surface as the first found it.
pub proof fn lemma_acquire_period_two(v: SurfaceView)
    requires
        v.framebuffers is Some,
    ensures
        after_acquire(after_acquire(v)) == v,
        acquired_from(after_acquire(after_acquire(v))) == acquired_from(v),
{
}

} // verus!
