use pokebot::playlist::Playlist;
use pokebot::track::AudioMetadata;

fn track(title: &str) -> AudioMetadata {
    AudioMetadata {
        uri: format!("http://example.org/{}", title),
        webpage_url: None,
        title: title.to_string(),
        thumbnail: None,
        duration: None,
        added_by: String::from("tester"),
    }
}

#[test]
fn new_playlist_is_empty() {
    let mut playlist = Playlist::new();
    assert!(playlist.is_empty());
    assert_eq!(playlist.len(), 0);
    assert_eq!(playlist.to_vec(), Vec::<AudioMetadata>::new());
    assert_eq!(playlist.pop(), None);
}

#[test]
fn pops_come_in_the_order_of_pushes() {
    let mut playlist = Playlist::new();
    playlist.push(track("a"));
    playlist.push(track("b"));
    playlist.push(track("c"));
    assert_eq!(playlist.pop(), Some(track("a")));
    assert_eq!(playlist.pop(), Some(track("b")));
    assert_eq!(playlist.pop(), Some(track("c")));
    assert_eq!(playlist.pop(), None);
}

#[test]
fn pushes_between_pops_keep_the_order() {
    let mut playlist = Playlist::new();
    playlist.push(track("a"));
    playlist.push(track("b"));
    assert_eq!(playlist.pop(), Some(track("a")));
    playlist.push(track("c"));
    assert_eq!(playlist.pop(), Some(track("b")));
    assert_eq!(playlist.pop(), Some(track("c")));
    assert!(playlist.is_empty());
}

#[test]
fn to_vec_lists_the_next_track_first() {
    let mut playlist = Playlist::new();
    playlist.push(track("a"));
    playlist.push(track("b"));
    playlist.push(track("c"));
    assert_eq!(playlist.to_vec(), vec![track("a"), track("b"), track("c")]);
    assert_eq!(playlist.len(), 3);
    assert!(!playlist.is_empty());
}

#[test]
fn clear_drops_everything() {
    let mut playlist = Playlist::new();
    playlist.push(track("a"));
    playlist.push(track("b"));
    playlist.clear();
    assert!(playlist.is_empty());
    assert_eq!(playlist.pop(), None);
}

#[test]
fn clone_of_a_track_is_equal() {
    let mut t = track("a");
    t.webpage_url = Some(String::from("http://page"));
    t.thumbnail = Some(String::from("http://thumb"));
    assert_eq!(t.clone(), t);
}
