//! The two kinds of servers.

use fin::media::ServerKind;

#[test]
fn server_kind_labels_are_stable() {
    assert_eq!(ServerKind::Jellyfin.label(), "jellyfin");
    assert_eq!(ServerKind::Subsonic.label(), "subsonic");
    // Default is Jellyfin so old configs — which lack the field —
    // load with the correct backend.
    assert_eq!(ServerKind::default(), ServerKind::Jellyfin);
}
