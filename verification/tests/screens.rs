//! The rows of the screens.

use fin::models::BaseItem;
use fin::tui::screens::sort_album_tracks;

fn track(name: &str, disc: Option<i32>, tn: Option<i32>) -> BaseItem {
    BaseItem {
        id: name.into(),
        name: name.into(),
        type_: "Audio".into(),
        album: None,
        album_id: None,
        album_artist: None,
        artists: None,
        series_name: None,
        production_year: None,
        run_time_ticks: None,
        media_type: None,
        container: None,
        index_number: tn,
        parent_index_number: disc,
        image_tags: None,
        is_folder: None,
        overview: None,
    }
}

fn names(items: &[BaseItem]) -> Vec<String> {
    items.iter().map(|i| i.name.clone()).collect()
}

#[test]
fn sort_by_disc_then_track_number() {
    let mut v = vec![
        track("d2-t1", Some(2), Some(1)),
        track("d1-t2", Some(1), Some(2)),
        track("d1-t1", Some(1), Some(1)),
        track("d2-t2", Some(2), Some(2)),
    ];
    sort_album_tracks(&mut v);
    assert_eq!(
        names(&v),
        vec!["d1-t1", "d1-t2", "d2-t1", "d2-t2"]
    );
}

#[test]
fn tracks_missing_metadata_sink_to_the_end() {
    let mut v = vec![
        track("orphan", None, None),
        track("t2", Some(1), Some(2)),
        track("t1", Some(1), Some(1)),
    ];
    sort_album_tracks(&mut v);
    assert_eq!(names(&v), vec!["t1", "t2", "orphan"]);
}

#[test]
fn ties_break_on_name() {
    let mut v = vec![
        track("Z", Some(1), Some(3)),
        track("A", Some(1), Some(3)),
        track("M", Some(1), Some(3)),
    ];
    sort_album_tracks(&mut v);
    assert_eq!(names(&v), vec!["A", "M", "Z"]);
}

#[test]
fn stable_when_already_sorted() {
    let mut v = vec![
        track("t1", Some(1), Some(1)),
        track("t2", Some(1), Some(2)),
        track("t3", Some(1), Some(3)),
    ];
    let before = names(&v);
    sort_album_tracks(&mut v);
    assert_eq!(names(&v), before);
}
