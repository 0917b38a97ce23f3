//! What holds of the queue as a whole.

use fin::queue::{PlaybackQueue, QueueItem, RepeatMode};

fn item(id: &str) -> QueueItem {
    QueueItem {
        id: id.into(),
        title: id.into(),
        subtitle: String::new(),
        stream_url: format!("http://example/{id}"),
        image_url: None,
        duration_secs: None,
        is_video: false,
        content_type: "audio/mpeg".into(),
    }
}

fn items(ids: &[&str]) -> Vec<QueueItem> {
    ids.iter().map(|i| item(i)).collect()
}

fn ids(q: &PlaybackQueue) -> Vec<String> {
    q.items().into_iter().map(|i| i.id).collect()
}

fn queue(names: &[&str], at: usize) -> PlaybackQueue {
    let mut q = PlaybackQueue::new();
    q.replace(items(names), at);
    q
}

#[test]
fn repeat_modes_come_round() {
    assert_eq!(RepeatMode::Off.next().next().next(), RepeatMode::Off);
    assert_eq!(RepeatMode::One.next().next().next(), RepeatMode::One);
    assert_eq!(RepeatMode::All.next().next().next(), RepeatMode::All);
}

#[test]
fn what_is_inserted_plays_next_in_its_order() {
    let mut q = queue(&["a", "b"], 0);
    q.insert_next(items(&["x", "y"]));
    assert_eq!(ids(&q), vec!["a", "x", "y", "b"]);
    assert_eq!(q.current().unwrap().id, "a");
}

#[test]
fn going_back_undoes_going_on() {
    let mut q = queue(&["a", "b", "c"], 1);
    assert_eq!(q.advance(), Some(2));
    assert_eq!(q.back(), Some(1));
    assert_eq!(ids(&q), vec!["a", "b", "c"]);
}

#[test]
fn repeat_all_starts_again_at_both_ends() {
    let mut q = queue(&["a", "b", "c"], 2);
    assert_eq!(q.advance_in(RepeatMode::All), Some(0));
    assert_eq!(q.back_in(RepeatMode::All), Some(2));
}

#[test]
fn repeat_one_stays() {
    let mut q = queue(&["a", "b"], 0);
    assert_eq!(q.advance_in(RepeatMode::One), Some(0));
    assert_eq!(q.current().unwrap().id, "a");
}

#[test]
fn without_repeat_the_end_is_the_end() {
    let mut q = queue(&["a", "b"], 1);
    assert_eq!(q.advance_in(RepeatMode::Off), None);
}

#[test]
fn shuffling_with_picks_reorders_what_follows() {
    let mut q = queue(&["a", "b", "c", "d", "e"], 1);
    q.shuffle_with(&vec![0, 0]);
    assert_eq!(q.current().unwrap().id, "b");
    assert_eq!(ids(&q), vec!["a", "b", "d", "e", "c"]);
    q.shuffle_with(&vec![1, 2]);
    assert_eq!(ids(&q), vec!["a", "b", "d", "e", "c"]);
}

#[test]
fn a_random_shuffle_keeps_the_current_item_and_all_others() {
    let names: Vec<String> = (0..40).map(|n| format!("t{n:02}")).collect();
    let refs: Vec<&str> = names.iter().map(String::as_str).collect();
    let mut orders = Vec::new();
    for _ in 0..5 {
        let mut q = queue(&refs, 7);
        q.shuffle_rest();
        assert_eq!(q.current().unwrap().id, "t07");
        let mut all = ids(&q);
        orders.push(all.clone());
        all.sort();
        assert_eq!(all, names);
    }
    // Five times the same order, or the one it had, would be a wonder.
    assert!(orders.iter().any(|o| *o != orders[0]) || orders[0] != names);
}

#[test]
fn only_items_of_control_points_are_casts() {
    assert!(item("upnp-cast:3").is_upnp_cast());
    assert!(!item("3").is_upnp_cast());
}
