use kms_surface::negotiate::{
    count_connected, filter_crtcs, find_connector, find_crtc, find_plane, negotiate,
    ConnectorInfo, ConnectorState, ModeInfo, Negotiated, NegotiationError, PlaneInfo,
    PLANE_TYPE_PRIMARY,
};

fn mode(width: u16, height: u16) -> ModeInfo {
    ModeInfo { width, height }
}

fn connector(handle: u32, state: ConnectorState, modes: Vec<ModeInfo>, encoders: Vec<u32>) -> ConnectorInfo {
    ConnectorInfo { handle, state, modes, encoders }
}

#[test]
fn single_disconnected_connector_fails() {
    let cs = vec![connector(31, ConnectorState::Disconnected, vec![mode(1920, 1080)], vec![1])];
    assert_eq!(find_connector(&cs), Err(NegotiationError::NoConnectedConnector));
    assert_eq!(negotiate(&cs, &vec![40]), Err(NegotiationError::NoConnectedConnector));
    assert_eq!(NegotiationError::NoConnectedConnector.message(), "No connected DRM connector found");
}

#[test]
fn empty_connector_list_fails() {
    assert_eq!(find_connector(&vec![]), Err(NegotiationError::NoConnectedConnector));
    assert_eq!(count_connected(&vec![]), 0);
}

#[test]
fn single_connected_connector_is_selected() {
    let cs = vec![
        connector(31, ConnectorState::Disconnected, vec![], vec![]),
        connector(32, ConnectorState::Unknown, vec![], vec![]),
        connector(33, ConnectorState::Connected, vec![mode(1280, 720)], vec![1]),
    ];
    assert_eq!(find_connector(&cs), Ok(2));
    assert_eq!(count_connected(&cs), 1);
}

#[test]
fn several_connected_connectors_pick_first() {
    let cs = vec![
        connector(31, ConnectorState::Disconnected, vec![], vec![]),
        connector(32, ConnectorState::Connected, vec![mode(800, 600)], vec![1]),
        connector(33, ConnectorState::Connected, vec![mode(1280, 720)], vec![1]),
    ];
    assert_eq!(find_connector(&cs), Ok(1));
    assert_eq!(count_connected(&cs), 2);
    let n = negotiate(&cs, &vec![40]).unwrap();
    assert_eq!(n.connector, 32);
    assert_eq!(n.connector_index, 1);
}

#[test]
fn first_mode_is_selected() {
    let cs = vec![connector(
        31,
        ConnectorState::Connected,
        vec![mode(1920, 1080), mode(1280, 720)],
        vec![0b1],
    )];
    let n = negotiate(&cs, &vec![40, 41]).unwrap();
    assert_eq!(n, Negotiated { connector_index: 0, connector: 31, crtc: 40, mode: mode(1920, 1080) });
}

#[test]
fn connector_without_modes_fails() {
    let cs = vec![connector(31, ConnectorState::Connected, vec![], vec![0b1])];
    assert_eq!(negotiate(&cs, &vec![40]), Err(NegotiationError::NoModes));
}

#[test]
fn filter_keeps_positions_set_in_mask() {
    let crtcs = vec![40, 41, 42, 43];
    assert_eq!(filter_crtcs(&crtcs, 0b1010), vec![41, 43]);
    assert_eq!(filter_crtcs(&crtcs, 0), Vec::<u32>::new());
    assert_eq!(filter_crtcs(&crtcs, u32::MAX), crtcs);
    assert_eq!(filter_crtcs(&vec![], u32::MAX), Vec::<u32>::new());
}

#[test]
fn filter_ignores_positions_beyond_mask_width() {
    let crtcs: Vec<u32> = (0..40).map(|i| 100 + i).collect();
    let kept = filter_crtcs(&crtcs, 0x8000_0001);
    assert_eq!(kept, vec![100, 131]);
}

#[test]
fn crtc_from_first_encoder_with_intersection() {
    let crtcs = vec![40, 41, 42];
    assert_eq!(find_crtc(&vec![0b1000, 0b110, 0b1], &crtcs), Ok(41));
    assert_eq!(find_crtc(&vec![0b100], &crtcs), Ok(42));
}

#[test]
fn no_compatible_crtc_fails() {
    let crtcs = vec![40, 41];
    assert_eq!(find_crtc(&vec![0b100, 0], &crtcs), Err(NegotiationError::NoCompatibleCrtc));
    assert_eq!(find_crtc(&vec![], &crtcs), Err(NegotiationError::NoCompatibleCrtc));
    let cs = vec![connector(31, ConnectorState::Connected, vec![mode(640, 480)], vec![0b100])];
    assert_eq!(negotiate(&cs, &crtcs), Err(NegotiationError::NoCompatibleCrtc));
    assert_eq!(NegotiationError::NoCompatibleCrtc.message(), "No compatible CRTC found");
}

#[test]
fn primary_plane_is_preferred() {
    let crtcs = vec![40, 41];
    let planes = vec![
        PlaneInfo { handle: 50, possible_crtcs: 0b01, plane_type: Some(PLANE_TYPE_PRIMARY) },
        PlaneInfo { handle: 51, possible_crtcs: 0b10, plane_type: Some(0) },
        PlaneInfo { handle: 52, possible_crtcs: 0b10, plane_type: Some(PLANE_TYPE_PRIMARY) },
    ];
    assert_eq!(find_plane(&planes, &crtcs, 41), Ok(52));
    assert_eq!(find_plane(&planes, &crtcs, 40), Ok(50));
}

#[test]
fn first_compatible_plane_without_primary() {
    let crtcs = vec![40, 41];
    let planes = vec![
        PlaneInfo { handle: 50, possible_crtcs: 0b01, plane_type: Some(PLANE_TYPE_PRIMARY) },
        PlaneInfo { handle: 51, possible_crtcs: 0b10, plane_type: None },
        PlaneInfo { handle: 52, possible_crtcs: 0b11, plane_type: Some(2) },
    ];
    assert_eq!(find_plane(&planes, &crtcs, 41), Ok(51));
    assert_eq!(find_plane(&planes, &crtcs, 99), Err(NegotiationError::NoCompatiblePlane));
    assert_eq!(find_plane(&vec![], &crtcs, 40), Err(NegotiationError::NoCompatiblePlane));
}

#[test]
fn error_messages() {
    assert_eq!(NegotiationError::NoModes.message(), "No modes found on connector");
    assert_eq!(NegotiationError::NoCompatiblePlane.message(), "No compatible plane found");
}
