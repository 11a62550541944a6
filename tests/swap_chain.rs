use kms_surface::negotiate::{ConnectorInfo, ConnectorState, ModeInfo, NegotiationError};
use kms_surface::pixels::{frame_pixels, frame_pixels_ref, pixels, pixels_mut};
use kms_surface::swapchain::{AcquiredBuffer, ModeSet, PageFlip, Rect, SharedBuffer, Surface, SwapError, BUFFER_AGE};

fn surface() -> Surface<Vec<u8>> {
    let cs = vec![ConnectorInfo {
        handle: 31,
        state: ConnectorState::Connected,
        modes: vec![ModeInfo { width: 1920, height: 1080 }, ModeInfo { width: 1280, height: 720 }],
        encoders: vec![0b10],
    }];
    Surface::new(&cs, &vec![40, 41]).unwrap()
}

fn resized() -> Surface<Vec<u8>> {
    let mut s = surface();
    s.resize(1920, 1080, SharedBuffer { fb: 70, memory: vec![0] }, SharedBuffer { fb: 71, memory: vec![1] });
    s
}

#[test]
fn surface_creation_fails_without_connector() {
    let cs = vec![ConnectorInfo { handle: 31, state: ConnectorState::Disconnected, modes: vec![], encoders: vec![] }];
    assert!(matches!(Surface::<Vec<u8>>::new(&cs, &vec![40]), Err(NegotiationError::NoConnectedConnector)));
}

#[test]
fn acquire_before_resize_fails() {
    let mut s = surface();
    assert!(!s.is_resized());
    assert_eq!(s.buffer_mut(), Err(SwapError::NotResized));
    assert_eq!(s.buffer_mut(), Err(SwapError::NotResized));
    assert_eq!(SwapError::NotResized.message(), "Need to call resize first");
}

#[test]
fn resize_binds_first_buffer() {
    let mut s = surface();
    assert!(s.size_matches(1920, 1080));
    let set = s.resize(1920, 1080, SharedBuffer { fb: 70, memory: vec![0] }, SharedBuffer { fb: 71, memory: vec![1] });
    assert_eq!(set, ModeSet { crtc: 41, fb: 70, connector: 31, mode: ModeInfo { width: 1920, height: 1080 } });
    assert!(s.is_resized());
}

#[test]
fn resize_to_other_size_is_refused() {
    let s = surface();
    assert!(!s.size_matches(800, 600));
    assert!(!s.size_matches(1920, 600));
    assert!(!s.size_matches(1920 + 65536, 1080));
}

#[test]
fn first_acquire_hands_out_second_buffer() {
    let mut s = resized();
    let a = s.buffer_mut().unwrap();
    assert_eq!(a, AcquiredBuffer { index: 1, fb: 71, crtc: 41, width: 1920, height: 1080 });
    assert_eq!(*s.memory_mut(a.index), vec![1]);
}

#[test]
fn consecutive_acquires_differ() {
    let mut s = resized();
    let a = s.buffer_mut().unwrap();
    s.memory_mut(a.index)[0] = 0xAB;
    assert_eq!(a.present(), PageFlip { crtc: 41, fb: 71 });
    let b = s.buffer_mut().unwrap();
    assert_ne!(a.index, b.index);
    assert_ne!(a.fb, b.fb);
    assert_ne!(s.memory_mut(b.index)[0], 0xAB);
}

#[test]
fn acquires_alternate_with_period_two() {
    let mut s = resized();
    let mut fbs = Vec::new();
    for _ in 0..2 {
        let a = s.buffer_mut().unwrap();
        fbs.push(a.fb);
        let flip = a.present();
        assert_eq!(flip.fb, a.fb);
        let b = s.buffer_mut().unwrap();
        fbs.push(b.fb);
        b.present();
    }
    assert_eq!(fbs, vec![71, 70, 71, 70]);
    assert_eq!(fbs[0], fbs[2]);
}

#[test]
fn resize_again_restarts_with_new_pair() {
    let mut s = resized();
    s.buffer_mut().unwrap();
    s.resize(1920, 1080, SharedBuffer { fb: 80, memory: vec![] }, SharedBuffer { fb: 81, memory: vec![] });
    assert_eq!(s.buffer_mut().unwrap().fb, 81);
    assert_eq!(s.buffer_mut().unwrap().fb, 80);
}

#[test]
fn age_is_two_and_damage_is_ignored() {
    let mut s = resized();
    let a = s.buffer_mut().unwrap();
    assert_eq!(a.age(), 2);
    assert_eq!(BUFFER_AGE, 2);
    let damage = [Rect { x: 0, y: 0, width: 10, height: 10 }];
    assert_eq!(a.present_with_damage(&damage), a.present());
    assert_eq!(a.present_with_damage(&[]), PageFlip { crtc: 41, fb: 71 });
}

#[test]
fn acquired_buffers_give_mode_sized_pixels() {
    let mut s = resized();
    for _ in 0..2 {
        let a = s.buffer_mut().unwrap();
        // One row of padding past the frame, as a pitch may leave.
        let mut bytes = vec![0u32; 1920 * 1081];
        let raw: &mut [u8] = word_bytes(&mut bytes);
        let px = pixels_mut(raw, a.width, a.height).unwrap();
        assert_eq!(px.len(), 1920 * 1080);
    }
}

fn word_bytes(words: &mut Vec<u32>) -> &mut [u8] {
    bytemuck::cast_slice_mut(words.as_mut_slice())
}

#[test]
fn pixels_read_four_bytes_each() {
    let mut words = vec![0u32; 4];
    let bytes = word_bytes(&mut words);
    bytes[4..8].copy_from_slice(&0x00FF_8000u32.to_ne_bytes());
    let px = pixels_mut(bytes, 2, 2).unwrap();
    assert_eq!(px.len(), 4);
    assert_eq!(px[1], 0x00FF_8000);
    px[3] = 7;
    assert_eq!(words[3], 7);
}

#[test]
fn pixels_refuse_short_or_ragged_mapping() {
    let mut words = vec![0u32; 3];
    assert!(pixels_mut(word_bytes(&mut words), 2, 2).is_none());
    let mut words = vec![0u32; 4];
    let bytes = word_bytes(&mut words);
    assert!(pixels_mut(&mut bytes[..15], 1, 1).is_none());
}

#[test]
fn frame_keeps_leading_pixels() {
    let mut v = vec![1u32, 2, 3, 4, 5];
    assert_eq!(frame_pixels(&mut v, 2, 2).unwrap(), &mut [1u32, 2, 3, 4][..]);
    assert!(frame_pixels(&mut v, 3, 2).is_none());
    assert_eq!(frame_pixels(&mut v, 0, 9).unwrap().len(), 0);
}

#[test]
fn read_only_pixels_match_mapping() {
    let mut words = vec![5u32, 6, 7, 8, 9, 10];
    let bytes: &[u8] = word_bytes(&mut words);
    let px = pixels(bytes, 2, 2).unwrap();
    assert_eq!(px, &[5u32, 6, 7, 8][..]);
    assert!(pixels(bytes, 3, 3).is_none());
    assert!(pixels(&bytes[..7], 1, 1).is_none());
    assert_eq!(frame_pixels_ref(&[1u32, 2, 3], 1, 2).unwrap(), &[1u32, 2][..]);
    assert!(frame_pixels_ref(&[1u32], 1, 2).is_none());
}
