//! Selection of the output connector, display mode, CRTC and plane that a
//! surface drives, from the device resources read when the surface is made.
use vstd::prelude::*;

verus! {

/// Connection state that the kernel reports for a connector.
#[derive(Clone, Copy, Debug, PartialEq, Eq, Structural)]
pub enum ConnectorState {
    Connected,
    Disconnected,
    Unknown,
}

/// Resolution of a display mode, in pixels.
#[derive(Clone, Copy, Debug, PartialEq, Eq, Structural)]
pub struct ModeInfo {
    pub width: u16,
    pub height: u16,
}

/// What negotiation reads of one connector.
#[derive(Debug)]
pub struct ConnectorInfo {
    /// Kernel object id of the connector.
    pub handle: u32,
    pub state: ConnectorState,
    /// Supported modes, in the order the kernel reports them (preferred first).
    pub modes: Vec<ModeInfo>,
    /// Possible-CRTC bitmask of each encoder of the connector, in order.
    pub encoders: Vec<u32>,
}

/// What plane selection reads of one plane.
#[derive(Clone, Copy, Debug, PartialEq, Eq, Structural)]
pub struct PlaneInfo {
    /// Kernel object id of the plane.
    pub handle: u32,
    /// Bitmask over the device's CRTC list of the CRTCs the plane can feed.
    pub possible_crtcs: u32,
    /// Value of the plane's "type" property, where it has one.
    pub plane_type: Option<u64>,
}

/// Value of the "type" property that marks a primary plane.
pub const PLANE_TYPE_PRIMARY: u64 = 1;

/// Why no display configuration could be negotiated.
#[derive(Clone, Copy, Debug, PartialEq, Eq, Structural)]
pub enum NegotiationError {
    NoConnectedConnector,
    NoCompatibleCrtc,
    NoModes,
    NoCompatiblePlane,
}

impl NegotiationError {
    /// Human-readable reason.
    pub fn message(&self) -> (r: &'static str) {
        match self {
            NegotiationError::NoConnectedConnector => "No connected DRM connector found",
            NegotiationError::NoCompatibleCrtc => "No compatible CRTC found",
            NegotiationError::NoModes => "No modes found on connector",
            NegotiationError::NoCompatiblePlane => "No compatible plane found",
        }
    }
}

/// The configuration a surface is bound to for its whole lifetime.
#[derive(Clone, Copy, Debug, PartialEq, Eq, Structural)]
pub struct Negotiated {
    /// Position of the chosen connector in the enumeration.
    pub connector_index: usize,
    pub connector: u32,
    pub crtc: u32,
    pub mode: ModeInfo,
}

pub open spec fn is_connected(c: ConnectorInfo) -> bool {
    c.state == ConnectorState::Connected
}

/// Position of the first connected connector.
pub open spec fn first_connected(cs: Seq<ConnectorInfo>) -> Option<int>
    decreases cs.len(),
{
    if cs.len() == 0 {
        None
    } else {
        match first_connected(cs.drop_last()) {
            Some(i) => Some(i),
            None => if is_connected(cs.last()) {
                Some(cs.len() - 1)
            } else {
                None
            },
        }
    }
}

/// Number of connected connectors.
pub open spec fn connected_count(cs: Seq<ConnectorInfo>) -> nat
    decreases cs.len(),
{
    if cs.len() == 0 {
        0
    } else {
        connected_count(cs.drop_last()) + if is_connected(cs.last()) {
            1nat
        } else {
            0nat
        }
    }
}

/// Whether bit `n` of a CRTC bitmask is set.
pub open spec fn mask_has(mask: u32, n: int) -> bool {
    0 <= n < 32 && (mask >> (n as u32)) & 1u32 == 1u32
}

/// The CRTCs of the device list whose position is set in `mask`, in order.
pub open spec fn filtered(crtcs: Seq<u32>, mask: u32) -> Seq<u32>
    decreases crtcs.len(),
{
    if crtcs.len() == 0 {
        Seq::empty()
    } else {
        let rest = filtered(crtcs.drop_last(), mask);
        if mask_has(mask, crtcs.len() - 1) {
            rest.push(crtcs.last())
        } else {
            rest
        }
    }
}

/// First member of the first non-empty intersection of an encoder's mask
/// with the device's CRTC list.
pub open spec fn first_compatible(encoders: Seq<u32>, crtcs: Seq<u32>) -> Option<u32>
    decreases encoders.len(),
{
    if encoders.len() == 0 {
        None
    } else if filtered(crtcs, encoders[0]).len() > 0 {
        Some(filtered(crtcs, encoders[0])[0])
    } else {
        first_compatible(encoders.drop_first(), crtcs)
    }
}

/// Full outcome of negotiation: connector, then CRTC, then mode.
pub open spec fn negotiation(cs: Seq<ConnectorInfo>, crtcs: Seq<u32>) -> Result<
    Negotiated,
    NegotiationError,
> {
    match first_connected(cs) {
        None => Err(NegotiationError::NoConnectedConnector),
        Some(i) => match first_compatible(cs[i].encoders@, crtcs) {
            None => Err(NegotiationError::NoCompatibleCrtc),
            Some(crtc) => if cs[i].modes@.len() == 0 {
                Err(NegotiationError::NoModes)
            } else {
                Ok(
                    Negotiated {
                        connector_index: i as usize,
                        connector: cs[i].handle,
                        crtc,
                        mode: cs[i].modes@[0],
                    },
                )
            },
        },
    }
}

pub open spec fn plane_compatible(p: PlaneInfo, crtcs: Seq<u32>, crtc: u32) -> bool {
    filtered(crtcs, p.possible_crtcs).contains(crtc)
}

pub open spec fn plane_is_primary(p: PlaneInfo) -> bool {
    p.plane_type == Some(PLANE_TYPE_PRIMARY)
}

proof fn lemma_first_connected_in_range(cs: Seq<ConnectorInfo>)
    ensures
        match first_connected(cs) {
            Some(i) => 0 <= i < cs.len() && is_connected(cs[i]) && forall|j: int|
                0 <= j < i ==> !is_connected(#[trigger] cs[j]),
            None => forall|j: int| 0 <= j < cs.len() ==> !is_connected(#[trigger] cs[j]),
        },
    decreases cs.len(),
{
    if cs.len() > 0 {
        lemma_first_connected_in_range(cs.drop_last());
        assert forall|j: int| 0 <= j < cs.len() - 1 implies cs.drop_last()[j] == cs[j] by {}
    }
}

/// Picks the first connected connector in enumeration order.
pub fn find_connector(connectors: &Vec<ConnectorInfo>) -> (r: Result<usize, NegotiationError>)
    ensures
        match r {
            Ok(i) => first_connected(connectors@) == Some(i as int),
            Err(e) => e == NegotiationError::NoConnectedConnector && first_connected(
                connectors@,
            ) is None,
        },
{
    let mut i: usize = 0;
    while i < connectors.len()
        invariant
            i <= connectors.len(),
            first_connected(connectors@.subrange(0, i as int)) == None::<int>,
        decreases connectors.len() - i,
    {
        assert(connectors@.subrange(0, i + 1).drop_last() == connectors@.subrange(0, i as int));
        if connectors[i].state == ConnectorState::Connected {
            proof {
                lemma_first_connected_prefix(connectors@, i as int + 1);
            }
            return Ok(i);
        }
        i = i + 1;
    }
    assert(connectors@.subrange(0, i as int) == connectors@);
    Err(NegotiationError::NoConnectedConnector)
}

/// Once a prefix holds a connected connector, longer sequences choose the same.
proof fn lemma_first_connected_prefix(cs: Seq<ConnectorInfo>, k: int)
    requires
        0 <= k <= cs.len(),
        first_connected(cs.subrange(0, k)) is Some,
    ensures
        first_connected(cs) == first_connected(cs.subrange(0, k)),
    decreases cs.len() - k,
{
    if k < cs.len() {
        assert(cs.subrange(0, k + 1).drop_last() == cs.subrange(0, k));
        lemma_first_connected_prefix(cs, k + 1);
    } else {
        assert(cs.subrange(0, k) == cs);
    }
}

/// Counts the connected connectors.
pub fn count_connected(connectors: &Vec<ConnectorInfo>) -> (r: usize)
    ensures
        r == connected_count(connectors@),
{
    let mut i: usize = 0;
    let mut n: usize = 0;
    while i < connectors.len()
        invariant
            i <= connectors.len(),
            n == connected_count(connectors@.subrange(0, i as int)),
            n <= i,
        decreases connectors.len() - i,
    {
        assert(connectors@.subrange(0, i + 1).drop_last() == connectors@.subrange(0, i as int));
        if connectors[i].state == ConnectorState::Connected {
            n = n + 1;
        }
        i = i + 1;
    }
    assert(connectors@.subrange(0, i as int) == connectors@);
    n
}

/// Keeps the CRTCs of the device list whose position is set in `mask`.
pub fn filter_crtcs(crtcs: &Vec<u32>, mask: u32) -> (r: Vec<u32>)
    ensures
        r@ == filtered(crtcs@, mask),
{
    let mut r: Vec<u32> = Vec::new();
    let mut i: usize = 0;
    while i < crtcs.len()
        invariant
            i <= crtcs.len(),
            r@ == filtered(crtcs@.subrange(0, i as int), mask),
        decreases crtcs.len() - i,
    {
        assert(crtcs@.subrange(0, i + 1).drop_last() == crtcs@.subrange(0, i as int));
        if i < 32 && (mask >> (i as u32)) & 1u32 == 1u32 {
            r.push(crtcs[i]);
        }
        i = i + 1;
    }
    assert(crtcs@.subrange(0, i as int) == crtcs@);
    r
}

/// Picks the CRTC for a connector: the first member of the first non-empty
/// intersection of an encoder's possible-CRTC mask with the device's CRTCs.
pub fn find_crtc(encoders: &Vec<u32>, crtcs: &Vec<u32>) -> (r: Result<u32, NegotiationError>)
    ensures
        r == (match first_compatible(encoders@, crtcs@) {
            Some(c) => Ok(c),
            None => Err(NegotiationError::NoCompatibleCrtc),
        }),
{
    let mut i: usize = 0;
    assert(encoders@.subrange(0, encoders.len() as int) == encoders@);
    while i < encoders.len()
        invariant
            i <= encoders.len(),
            first_compatible(encoders@, crtcs@) == first_compatible(
                encoders@.subrange(i as int, encoders.len() as int),
                crtcs@,
            ),
        decreases encoders.len() - i,
    {
        let rest = Ghost(encoders@.subrange(i as int, encoders.len() as int));
        assert(rest@[0] == encoders@[i as int]);
        assert(rest@.drop_first() == encoders@.subrange(i + 1, encoders.len() as int));
        let compatible = filter_crtcs(crtcs, encoders[i]);
        if compatible.len() > 0 {
            return Ok(compatible[0]);
        }
        i = i + 1;
    }
    Err(NegotiationError::NoCompatibleCrtc)
}

/// Negotiates the configuration of a new surface: the first connected
/// connector, a CRTC that one of its encoders can drive, and its first
/// (preferred) mode.
pub fn negotiate(connectors: &Vec<ConnectorInfo>, crtcs: &Vec<u32>) -> (r: Result<
    Negotiated,
    NegotiationError,
>)
    ensures
        r == negotiation(connectors@, crtcs@),
{
    proof {
        lemma_first_connected_in_range(connectors@);
    }
    let found = find_connector(connectors);
    let index = match found {
        Ok(i) => i,
        Err(e) => return Err(e),
    };
    assert(first_connected(connectors@) == Some(index as int));
    let conn = &connectors[index];
    let crtc = match find_crtc(&conn.encoders, crtcs) {
        Ok(c) => c,
        Err(e) => return Err(e),
    };
    if conn.modes.len() == 0 {
        return Err(NegotiationError::NoModes);
    }
    Ok(Negotiated { connector_index: index, connector: conn.handle, crtc, mode: conn.modes[0] })
}

/// Whether plane `p` can feed `crtc`, and, when `primary` is set, is a
/// primary plane.
pub open spec fn plane_ok(p: PlaneInfo, crtcs: Seq<u32>, crtc: u32, primary: bool) -> bool {
    plane_compatible(p, crtcs, crtc) && (primary ==> plane_is_primary(p))
}

/// Position of the first plane that `plane_ok` accepts.
pub open spec fn first_plane_where(ps: Seq<PlaneInfo>, crtcs: Seq<u32>, crtc: u32, primary: bool) -> Option<int>
    decreases ps.len(),
{
    if ps.len() == 0 {
        None
    } else {
        match first_plane_where(ps.drop_last(), crtcs, crtc, primary) {
            Some(i) => Some(i),
            None => if plane_ok(ps.last(), crtcs, crtc, primary) {
                Some(ps.len() - 1)
            } else {
                None
            },
        }
    }
}

/// The plane to scan out from: the first compatible primary plane, else the
/// first compatible plane.
pub open spec fn plane_choice(ps: Seq<PlaneInfo>, crtcs: Seq<u32>, crtc: u32) -> Option<int> {
    match first_plane_where(ps, crtcs, crtc, true) {
        Some(i) => Some(i),
        None => first_plane_where(ps, crtcs, crtc, false),
    }
}

fn contains_handle(v: &Vec<u32>, x: u32) -> (r: bool)
    ensures
        r == v@.contains(x),
{
    let mut i: usize = 0;
    while i < v.len()
        invariant
            i <= v.len(),
            forall|j: int| 0 <= j < i ==> v@[j] != x,
        decreases v.len() - i,
    {
        if v[i] == x {
            return true;
        }
        i = i + 1;
    }
    false
}

/// Index of the first plane that feeds `crtc` and, when `primary` is set, is
/// a primary plane.
fn first_plane(planes: &Vec<PlaneInfo>, crtcs: &Vec<u32>, crtc: u32, primary: bool) -> (r: Option<
    usize,
>)
    ensures
        match r {
            Some(i) => first_plane_where(planes@, crtcs@, crtc, primary) == Some(i as int),
            None => first_plane_where(planes@, crtcs@, crtc, primary) is None,
        },
{
    let mut i: usize = 0;
    while i < planes.len()
        invariant
            i <= planes.len(),
            first_plane_where(planes@.subrange(0, i as int), crtcs@, crtc, primary) == None::<int>,
        decreases planes.len() - i,
    {
        assert(planes@.subrange(0, i + 1).drop_last() == planes@.subrange(0, i as int));
        let p = planes[i];
        let typed = match p.plane_type {
            Some(t) => t == PLANE_TYPE_PRIMARY,
            None => false,
        };
        if (!primary || typed) && contains_handle(&filter_crtcs(crtcs, p.possible_crtcs), crtc) {
            proof {
                lemma_first_plane_prefix(planes@, crtcs@, crtc, primary, i as int + 1);
            }
            return Some(i);
        }
        i = i + 1;
    }
    assert(planes@.subrange(0, i as int) == planes@);
    None
}

proof fn lemma_first_plane_prefix(
    ps: Seq<PlaneInfo>,
    crtcs: Seq<u32>,
    crtc: u32,
    primary: bool,
    k: int,
)
    requires
        0 <= k <= ps.len(),
        first_plane_where(ps.subrange(0, k), crtcs, crtc, primary) is Some,
    ensures
        first_plane_where(ps, crtcs, crtc, primary) == first_plane_where(
            ps.subrange(0, k),
            crtcs,
            crtc,
            primary,
        ),
    decreases ps.len() - k,
{
    if k < ps.len() {
        assert(ps.subrange(0, k + 1).drop_last() == ps.subrange(0, k));
        lemma_first_plane_prefix(ps, crtcs, crtc, primary, k + 1);
    } else {
        assert(ps.subrange(0, k) == ps);
    }
}

/// Picks the plane that scans out `crtc`: among the planes whose possible-CRTC
/// mask covers it, the first primary one, else the first one.
pub fn find_plane(planes: &Vec<PlaneInfo>, crtcs: &Vec<u32>, crtc: u32) -> (r: Result<
    u32,
    NegotiationError,
>)
    ensures
        r == (match plane_choice(planes@, crtcs@, crtc) {
            Some(i) => Ok(planes@[i].handle),
            None => Err(NegotiationError::NoCompatiblePlane),
        }),
{
    proof {
        lemma_first_plane_in_range(planes@, crtcs@, crtc, true);
        lemma_first_plane_in_range(planes@, crtcs@, crtc, false);
    }
    match first_plane(planes, crtcs, crtc, true) {
        Some(i) => Ok(planes[i].handle),
        None => match first_plane(planes, crtcs, crtc, false) {
            Some(i) => Ok(planes[i].handle),
            None => Err(NegotiationError::NoCompatiblePlane),
        },
    }
}

proof fn lemma_first_plane_in_range(ps: Seq<PlaneInfo>, crtcs: Seq<u32>, crtc: u32, primary: bool)
    ensures
        match first_plane_where(ps, crtcs, crtc, primary) {
            Some(i) => 0 <= i < ps.len() && plane_ok(ps[i], crtcs, crtc, primary) && forall|j: int|
                0 <= j < i ==> !plane_ok(#[trigger] ps[j], crtcs, crtc, primary),
            None => forall|j: int|
                0 <= j < ps.len() ==> !plane_ok(#[trigger] ps[j], crtcs, crtc, primary),
        },
    decreases ps.len(),
{
    if ps.len() > 0 {
        lemma_first_plane_in_range(ps.drop_last(), crtcs, crtc, primary);
        assert forall|j: int| 0 <= j < ps.len() - 1 implies ps.drop_last()[j] == ps[j] by {}
    }
}

} // verus!
