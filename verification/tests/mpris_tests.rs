use wisteria::mpris::{
    media_caption, track_from_metadata, wait_step, watch_step, ChangedProperty, MetaEntry,
    MetaValue, PlayerSignal, PropertyValue, TrackInfo, WaitStep, WatchStep, SPOTIFY,
};

fn entry(key: &str, value: MetaValue) -> MetaEntry {
    MetaEntry { key: key.to_string(), value }
}

fn sample_metadata() -> Vec<MetaEntry> {
    vec![
        entry("mpris:length", MetaValue::Other),
        entry("xesam:title", MetaValue::Text("That's Life".into())),
        entry("xesam:artist", MetaValue::TextList(vec!["Luna Li".into(), "Jay Som".into()])),
        entry("mpris:artUrl", MetaValue::Text("https://i.scdn.co/image/x".into())),
    ]
}

#[test]
fn track_is_read_from_metadata() {
    let t = track_from_metadata(&sample_metadata());
    assert_eq!(t.title, "That's Life");
    assert_eq!(t.artist, "Luna Li, Jay Som");
    assert_eq!(t.art_url, "https://i.scdn.co/image/x");
}

#[test]
fn missing_or_mistyped_members_read_empty() {
    let t = track_from_metadata(&vec![
        entry("xesam:title", MetaValue::TextList(vec!["a".into()])),
        entry("xesam:artist", MetaValue::Text("b".into())),
    ]);
    assert_eq!((t.title.as_str(), t.artist.as_str(), t.art_url.as_str()), ("", "", ""));
    let d = TrackInfo::default();
    assert_eq!((d.title.as_str(), d.artist.as_str(), d.art_url.as_str()), ("", "", ""));
}

#[test]
fn caption_of_the_media_pill() {
    assert_eq!(media_caption(&TrackInfo::default()), "No media playing");
    let t = TrackInfo { title: "That's Life".into(), artist: "Luna Li".into(), art_url: String::new() };
    assert_eq!(media_caption(&t), "Luna Li - That's Life");
    let t = TrackInfo { title: "Intro".into(), artist: String::new(), art_url: String::new() };
    assert_eq!(media_caption(&t), " - Intro");
}

#[test]
fn metadata_change_publishes_the_track() {
    let signal = PlayerSignal::PropertiesChanged {
        changed: vec![
            ChangedProperty { name: "PlaybackStatus".into(), value: PropertyValue::Other },
            ChangedProperty { name: "Metadata".into(), value: PropertyValue::Dictionary(sample_metadata()) },
        ],
    };
    match watch_step(&signal) {
        WatchStep::Publish(t) => assert_eq!(t.artist, "Luna Li, Jay Som"),
        other => panic!("{:?}", other),
    }
}

#[test]
fn other_signals() {
    let volume = PlayerSignal::PropertiesChanged {
        changed: vec![ChangedProperty { name: "Volume".into(), value: PropertyValue::Other }],
    };
    assert!(matches!(watch_step(&volume), WatchStep::Ignore));
    let bad = PlayerSignal::PropertiesChanged {
        changed: vec![ChangedProperty { name: "Metadata".into(), value: PropertyValue::Other }],
    };
    assert!(matches!(watch_step(&bad), WatchStep::Failed));
    assert!(matches!(watch_step(&PlayerSignal::PropertiesEnded), WatchStep::PlayerGone));
    assert!(matches!(watch_step(&PlayerSignal::OwnersEnded), WatchStep::Ignore));
    let gone = PlayerSignal::OwnerChanged { name: SPOTIFY.into(), new_owner: String::new() };
    assert!(matches!(watch_step(&gone), WatchStep::PlayerGone));
    let moved = PlayerSignal::OwnerChanged { name: SPOTIFY.into(), new_owner: ":1.42".into() };
    assert!(matches!(watch_step(&moved), WatchStep::Ignore));
    let other = PlayerSignal::OwnerChanged { name: "org.mpris.MediaPlayer2.vlc".into(), new_owner: String::new() };
    assert!(matches!(watch_step(&other), WatchStep::Ignore));
}

#[test]
fn waiting_for_the_player() {
    assert_eq!(wait_step(SPOTIFY, ":1.42"), WaitStep::Ready);
    assert_eq!(wait_step(SPOTIFY, ""), WaitStep::Reset);
    assert_eq!(wait_step("org.freedesktop.Notifications", ":1.7"), WaitStep::Ignore);
}
