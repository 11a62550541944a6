//! The double-buffered swap chain of a surface and the requests it hands to
//! the device: the initial mode-set after a resize and a page flip per
//! presentation.
use vstd::prelude::*;
use crate::negotiate::{negotiation, ConnectorInfo, ModeInfo, Negotiated, NegotiationError, negotiate};

verus! {

/// A framebuffer registered with the device, paired with the CPU-mappable
/// memory behind it.
pub struct SharedBuffer<B> {
    /// Kernel object id of the framebuffer.
    pub fb: u32,
    /// The memory block the framebuffer scans out from.
    pub memory: B,
}

struct Buffers<B> {
    first: SharedBuffer<B>,
    second: SharedBuffer<B>,
    /// Whether the first buffer is the front one (bound or last presented).
    first_is_front: bool,
}

/// Why a surface operation failed.
#[derive(Clone, Copy, Debug, PartialEq, Eq, Structural)]
pub enum SwapError {
    /// No buffer pair exists yet: the surface was never resized.
    NotResized,
}

impl SwapError {
    /// Human-readable reason.
    pub fn message(&self) -> (r: &'static str) {
        match self {
            SwapError::NotResized => "Need to call resize first",
        }
    }
}

/// Mathematical model of a surface.
pub struct SurfaceView {
    pub config: Negotiated,
    /// Framebuffer ids of the first and second buffer, once resized.
    pub framebuffers: Option<(u32, u32)>,
    pub first_is_front: bool,
}

/// A surface bound to a negotiated connector, CRTC and mode, with the memory
/// of its buffers of type `B`.
pub struct Surface<B> {
    config: Negotiated,
    buffers: Option<Buffers<B>>,
}

/// Binds a framebuffer to the CRTC and connector in the given mode.
#[derive(Clone, Copy, Debug, PartialEq, Eq, Structural)]
pub struct ModeSet {
    pub crtc: u32,
    pub fb: u32,
    pub connector: u32,
    pub mode: ModeInfo,
}

/// Switches the framebuffer a CRTC scans out, with a completion event
/// requested.
#[derive(Clone, Copy, Debug, PartialEq, Eq, Structural)]
pub struct PageFlip {
    pub crtc: u32,
    pub fb: u32,
}

/// A damage rectangle, in pixels.
#[derive(Clone, Copy, Debug, PartialEq, Eq, Structural)]
pub struct Rect {
    pub x: u32,
    pub y: u32,
    pub width: u32,
    pub height: u32,
}

/// The back buffer handed out by [`Surface::buffer_mut`].
#[derive(Clone, Copy, Debug, PartialEq, Eq, Structural)]
pub struct AcquiredBuffer {
    /// Which buffer of the pair: 0 for the first, 1 for the second.
    pub index: usize,
    pub fb: u32,
    pub crtc: u32,
    pub width: u16,
    pub height: u16,
}

/// Age of the content of every buffer handed out: two presentations.
pub const BUFFER_AGE: u8 = 2;

/// Index of the buffer that the next acquire hands out.
pub open spec fn back_index(v: SurfaceView) -> usize {
    if v.first_is_front {
        1
    } else {
        0
    }
}

/// Framebuffer id of buffer `i` of a resized surface.
pub open spec fn fb_at(v: SurfaceView, i: usize) -> u32 {
    if i == 0 {
        v.framebuffers.unwrap().0
    } else {
        v.framebuffers.unwrap().1
    }
}

/// The buffer an acquire returns on a resized surface.
pub open spec fn acquired_from(v: SurfaceView) -> AcquiredBuffer {
    AcquiredBuffer {
        index: back_index(v),
        fb: fb_at(v, back_index(v)),
        crtc: v.config.crtc,
        width: v.config.mode.width,
        height: v.config.mode.height,
    }
}

/// The model after an acquire: the buffer handed out becomes the front one.
pub open spec fn flipped(v: SurfaceView) -> SurfaceView {
    SurfaceView { first_is_front: !v.first_is_front, ..v }
}

/// Outcome of an acquire on a surface whose model is `v`.
pub open spec fn acquire_result(v: SurfaceView) -> Result<AcquiredBuffer, SwapError> {
    if v.framebuffers is Some {
        Ok(acquired_from(v))
    } else {
        Err(SwapError::NotResized)
    }
}

/// Model after an acquire on a surface whose model is `v`.
pub open spec fn after_acquire(v: SurfaceView) -> SurfaceView {
    if v.framebuffers is Some {
        flipped(v)
    } else {
        v
    }
}

impl<B> View for Surface<B> {
    type V = SurfaceView;

    closed spec fn view(&self) -> SurfaceView {
        SurfaceView {
            config: self.config,
            framebuffers: match self.buffers {
                Some(b) => Some((b.first.fb, b.second.fb)),
                None => None,
            },
            first_is_front: match self.buffers {
                Some(b) => b.first_is_front,
                None => true,
            },
        }
    }
}

impl<B> Surface<B> {
    /// Memory of buffer `i` of a resized surface.
    pub closed spec fn memory(&self, i: usize) -> B {
        if i == 0 {
            self.buffers.unwrap().first.memory
        } else {
            self.buffers.unwrap().second.memory
        }
    }

    /// A surface on a negotiated configuration, without buffers yet.
    pub fn from_config(config: Negotiated) -> (s: Self)
        ensures
            s@ == (SurfaceView { config, framebuffers: None, first_is_front: true }),
    {
        Surface { config, buffers: None }
    }

    /// Negotiates a configuration from the device's connectors and CRTC list
    /// and makes a surface on it.
    pub fn new(connectors: &Vec<ConnectorInfo>, crtcs: &Vec<u32>) -> (r: Result<
        Self,
        NegotiationError,
    >)
        ensures
            match r {
                Ok(s) => negotiation(connectors@, crtcs@) == Ok::<Negotiated, NegotiationError>(
                    s@.config,
                ) && s@.framebuffers is None && s@.first_is_front,
                Err(e) => negotiation(connectors@, crtcs@) == Err::<Negotiated, NegotiationError>(e),
            },
    {
        match negotiate(connectors, crtcs) {
            Ok(config) => Ok(Surface::from_config(config)),
            Err(e) => Err(e),
        }
    }

    pub fn config(&self) -> (r: Negotiated)
        ensures
            r == self@.config,
    {
        self.config
    }

    /// Whether the surface holds a buffer pair.
    pub fn is_resized(&self) -> (r: bool)
        ensures
            r == self@.framebuffers is Some,
    {
        self.buffers.is_some()
    }

    /// Whether `width` x `height` is the negotiated mode's size, the only
    /// size this surface can take.
    pub fn size_matches(&self, width: u32, height: u32) -> (r: bool)
        ensures
            r == (width == self@.config.mode.width as u32 && height
                == self@.config.mode.height as u32),
    {
        width == self.config.mode.width as u32 && height == self.config.mode.height as u32
    }

    /// Installs a new buffer pair, dropping any previous one. The first
    /// buffer becomes the front one; the returned mode-set binds it to the
    /// CRTC so that the display shows it before anything is drawn.
    pub fn resize(
        &mut self,
        width: u32,
        height: u32,
        first: SharedBuffer<B>,
        second: SharedBuffer<B>,
    ) -> (r: ModeSet)
        requires
            width == old(self)@.config.mode.width as u32,
            height == old(self)@.config.mode.height as u32,
        ensures
            final(self)@ == (SurfaceView {
                config: old(self)@.config,
                framebuffers: Some((first.fb, second.fb)),
                first_is_front: true,
            }),
            final(self).memory(0) == first.memory,
            final(self).memory(1) == second.memory,
            r == (ModeSet {
                crtc: old(self)@.config.crtc,
                fb: first.fb,
                connector: old(self)@.config.connector,
                mode: old(self)@.config.mode,
            }),
    {
        let fb = first.fb;
        self.buffers = Some(Buffers { first, second, first_is_front: true });
        ModeSet {
            crtc: self.config.crtc,
            fb,
            connector: self.config.connector,
            mode: self.config.mode,
        }
    }

    /// Hands out the buffer that is not the front one and makes it the
    /// front one. Fails when the surface was never resized.
    pub fn buffer_mut(&mut self) -> (r: Result<AcquiredBuffer, SwapError>)
        ensures
            r == acquire_result(old(self)@),
            final(self)@ == after_acquire(old(self)@),
            forall|i: usize| i < 2 ==> final(self).memory(i) == old(self).memory(i),
    {
        match &mut self.buffers {
            None => Err(SwapError::NotResized),
            Some(buffers) => {
                let index: usize = if buffers.first_is_front {
                    1
                } else {
                    0
                };
                let fb = if buffers.first_is_front {
                    buffers.second.fb
                } else {
                    buffers.first.fb
                };
                buffers.first_is_front = !buffers.first_is_front;
                Ok(
                    AcquiredBuffer {
                        index,
                        fb,
                        crtc: self.config.crtc,
                        width: self.config.mode.width,
                        height: self.config.mode.height,
                    },
                )
            },
        }
    }
    /// The memory of buffer `index` of a resized surface, for mapping.
    pub fn memory_mut(&mut self, index: usize) -> (r: &mut B)
        requires
            old(self)@.framebuffers is Some,
            index < 2,
        ensures
            *r == old(self).memory(index),
            final(self)@ == old(self)@,
            final(self).memory(index) == *final(r),
            final(self).memory((1 - index) as usize) == old(self).memory((1 - index) as usize),
    {
        match &mut self.buffers {
            Some(buffers) => if index == 0 {
                &mut buffers.first.memory
            } else {
                &mut buffers.second.memory
            },
            None => vstd::pervasive::unreached(),
        }
    }
}

impl AcquiredBuffer {
    /// How many presentations old the content of this buffer is.
    pub fn age(&self) -> (r: u8)
        ensures
            r == BUFFER_AGE,
    {
        BUFFER_AGE
    }

    /// The flip request that shows this buffer. The whole buffer is always
    /// shown again, so the damage is not read.
    pub fn present_with_damage(self, damage: &[Rect]) -> (r: PageFlip)
        ensures
            r == (PageFlip { crtc: self.crtc, fb: self.fb }),
    {
        PageFlip { crtc: self.crtc, fb: self.fb }
    }

    /// The flip request that shows this buffer.
    pub fn present(self) -> (r: PageFlip)
        ensures
            r == (PageFlip { crtc: self.crtc, fb: self.fb }),
    {
        self.present_with_damage(&[])
    }
}

} // verus!
