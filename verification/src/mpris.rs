//! The track that the Spotify MPRIS player reports, and the decisions taken on
//! the D-Bus signals that follow it.
use vstd::prelude::*;

use crate::compositor::text_eq;
use crate::text::{join_text, join_with};

verus! {

/// The bus name of the followed player.
pub const SPOTIFY: &'static str = "org.mpris.MediaPlayer2.spotify";

/// The track that the player reports.
#[derive(Clone, Debug)]
pub struct TrackInfo {
    pub title: String,
    pub artist: String,
    pub art_url: String,
}

/// A `TrackInfo` with its texts as character sequences.
pub struct TrackInfoView {
    pub title: Seq<char>,
    pub artist: Seq<char>,
    pub art_url: Seq<char>,
}

impl View for TrackInfo {
    type V = TrackInfoView;

    open spec fn view(&self) -> TrackInfoView {
        TrackInfoView { title: self.title@, artist: self.artist@, art_url: self.art_url@ }
    }
}

/// No track: every text empty.
pub open spec fn no_track() -> TrackInfoView {
    TrackInfoView { title: Seq::empty(), artist: Seq::empty(), art_url: Seq::empty() }
}

impl Default for TrackInfo {
    fn default() -> (r: TrackInfo)
        ensures
            r@ == no_track(),
    {
        TrackInfo { title: String::new(), artist: String::new(), art_url: String::new() }
    }
}

/// A metadata value, as far as the track reads it.
#[derive(Clone, Debug)]
pub enum MetaValue {
    /// A string.
    Text(String),
    /// An array of strings.
    TextList(Vec<String>),
    /// Any other value.
    Other,
}

/// A `MetaValue` with its texts as character sequences.
pub enum MetaValueView {
    Text(Seq<char>),
    TextList(Seq<Seq<char>>),
    Other,
}

impl View for MetaValue {
    type V = MetaValueView;

    open spec fn view(&self) -> MetaValueView {
        match self {
            MetaValue::Text(s) => MetaValueView::Text(s@),
            MetaValue::TextList(l) => MetaValueView::TextList(l.deep_view()),
            MetaValue::Other => MetaValueView::Other,
        }
    }
}

/// One entry of a metadata dictionary.
#[derive(Clone, Debug)]
pub struct MetaEntry {
    pub key: String,
    pub value: MetaValue,
}

/// A `MetaEntry` with its texts as character sequences.
pub struct MetaEntryView {
    pub key: Seq<char>,
    pub value: MetaValueView,
}

impl View for MetaEntry {
    type V = MetaEntryView;

    open spec fn view(&self) -> MetaEntryView {
        MetaEntryView { key: self.key@, value: self.value@ }
    }
}

impl DeepView for MetaEntry {
    type V = MetaEntryView;

    open spec fn deep_view(&self) -> MetaEntryView {
        self@
    }
}

/// The value of the first entry with key `key`.
pub open spec fn lookup(entries: Seq<MetaEntryView>, key: Seq<char>) -> Option<MetaValueView>
    decreases entries.len(),
{
    if entries.len() == 0 {
        None
    } else if entries[0].key == key {
        Some(entries[0].value)
    } else {
        lookup(entries.drop_first(), key)
    }
}

/// The string under `key`, or the empty text.
pub open spec fn text_member(entries: Seq<MetaEntryView>, key: Seq<char>) -> Seq<char> {
    match lookup(entries, key) {
        Some(MetaValueView::Text(s)) => s,
        _ => Seq::empty(),
    }
}

/// The strings under `key` joined with `", "`, or the empty text.
pub open spec fn list_member(entries: Seq<MetaEntryView>, key: Seq<char>) -> Seq<char> {
    match lookup(entries, key) {
        Some(MetaValueView::TextList(l)) => join_with(l, ", "@),
        _ => Seq::empty(),
    }
}

/// The track that a metadata dictionary describes: title `xesam:title`,
/// artists `xesam:artist` joined with `", "`, cover `mpris:artUrl`.
pub open spec fn track_of(entries: Seq<MetaEntryView>) -> TrackInfoView {
    TrackInfoView {
        title: text_member(entries, "xesam:title"@),
        artist: list_member(entries, "xesam:artist"@),
        art_url: text_member(entries, "mpris:artUrl"@),
    }
}

/// The value of the first entry with key `key`.
fn find_entry<'a>(entries: &'a Vec<MetaEntry>, key: &str) -> (r: Option<&'a MetaValue>)
    ensures
        match r {
            Some(v) => lookup(entries.deep_view(), key@) == Some(v@),
            None => lookup(entries.deep_view(), key@) is None,
        },
{
    let ghost ev = entries.deep_view();
    let mut i: usize = 0;
    proof {
        assert(ev.skip(0) =~= ev);
    }
    while i < entries.len()
        invariant
            i <= entries.len(),
            ev == entries.deep_view(),
            lookup(ev, key@) == lookup(ev.skip(i as int), key@),
        decreases entries.len() - i,
    {
        proof {
            assert(ev.skip(i as int).drop_first() =~= ev.skip(i + 1));
            assert(ev.skip(i as int)[0] == entries@[i as int]@);
        }
        if text_eq(entries[i].key.as_str(), key) {
            return Some(&entries[i].value);
        }
        i = i + 1;
    }
    None
}

/// The string under `key`, or the empty text.
fn text_of(entries: &Vec<MetaEntry>, key: &str) -> (r: String)
    ensures
        r@ == text_member(entries.deep_view(), key@),
{
    match find_entry(entries, key) {
        Some(MetaValue::Text(s)) => s.clone(),
        _ => String::new(),
    }
}

/// The track that the metadata dictionary `entries` describes.
pub fn track_from_metadata(entries: &Vec<MetaEntry>) -> (r: TrackInfo)
    ensures
        r@ == track_of(entries.deep_view()),
{
    let title = text_of(entries, "xesam:title");
    let artist = match find_entry(entries, "xesam:artist") {
        Some(MetaValue::TextList(l)) => join_text(l, ", "),
        _ => String::new(),
    };
    let art_url = text_of(entries, "mpris:artUrl");
    TrackInfo { title, artist, art_url }
}

/// The caption of the media pill: `"No media playing"` when the track has
/// neither artist nor title, else `"ARTIST - TITLE"`.
pub open spec fn caption(t: TrackInfoView) -> Seq<char> {
    if t.artist.len() == 0 && t.title.len() == 0 {
        "No media playing"@
    } else {
        t.artist + " - "@ + t.title
    }
}

/// The caption of the media pill for `track`.
pub fn media_caption(track: &TrackInfo) -> (r: String)
    ensures
        r@ == caption(track@),
{
    if track.artist.as_str().is_empty() && track.title.as_str().is_empty() {
        "No media playing".to_owned()
    } else {
        let mut r = track.artist.clone();
        r.append(" - ");
        r.append(track.title.as_str());
        r
    }
}


/// The new value of a changed player property.
#[derive(Clone, Debug)]
pub enum PropertyValue {
    /// A dictionary from strings to values.
    Dictionary(Vec<MetaEntry>),
    /// Any other value.
    Other,
}

/// One property named in a `PropertiesChanged` signal.
#[derive(Clone, Debug)]
pub struct ChangedProperty {
    pub name: String,
    pub value: PropertyValue,
}

/// A signal that the watch on the player receives.
#[derive(Clone, Debug)]
pub enum PlayerSignal {
    /// The player's properties changed.
    PropertiesChanged { changed: Vec<ChangedProperty> },
    /// The stream of property changes ended.
    PropertiesEnded,
    /// The bus name `name` changed its owner to `new_owner` (empty: none).
    OwnerChanged { name: String, new_owner: String },
    /// The stream of owner changes ended.
    OwnersEnded,
}

/// What the watch does on a signal.
#[derive(Clone, Debug)]
pub enum WatchStep {
    /// Nothing.
    Ignore,
    /// Shows this track.
    Publish(TrackInfo),
    /// The player is gone: clear the track and stop watching.
    PlayerGone,
    /// The changed metadata is no dictionary: stop watching with an error.
    Failed,
}

/// The first changed property named `name`.
pub open spec fn changed_property(changed: Seq<ChangedProperty>, name: Seq<char>) -> Option<
    ChangedProperty,
>
    decreases changed.len(),
{
    if changed.len() == 0 {
        None
    } else if changed[0].name@ == name {
        Some(changed[0])
    } else {
        changed_property(changed.drop_first(), name)
    }
}

/// The kinds of step, for stating what a step is.
pub enum WatchStepView {
    Ignore,
    Publish(TrackInfoView),
    PlayerGone,
    Failed,
}

impl View for WatchStep {
    type V = WatchStepView;

    open spec fn view(&self) -> WatchStepView {
        match self {
            WatchStep::Ignore => WatchStepView::Ignore,
            WatchStep::Publish(t) => WatchStepView::Publish(t@),
            WatchStep::PlayerGone => WatchStepView::PlayerGone,
            WatchStep::Failed => WatchStepView::Failed,
        }
    }
}

/// The step the watch takes on `signal`: a `Metadata` change publishes the
/// track it describes (and fails when it is no dictionary), other changes are
/// ignored; the end of the change stream, or the player's bus name losing its
/// owner, means the player is gone.
pub open spec fn watch_step_of(signal: PlayerSignal) -> WatchStepView {
    match signal {
        PlayerSignal::PropertiesChanged { changed } => match changed_property(changed@, "Metadata"@) {
            None => WatchStepView::Ignore,
            Some(p) => match p.value {
                PropertyValue::Dictionary(d) => WatchStepView::Publish(track_of(d.deep_view())),
                PropertyValue::Other => WatchStepView::Failed,
            },
        },
        PlayerSignal::PropertiesEnded => WatchStepView::PlayerGone,
        PlayerSignal::OwnerChanged { name, new_owner } => if name@ == SPOTIFY@ && new_owner@.len()
            == 0 {
            WatchStepView::PlayerGone
        } else {
            WatchStepView::Ignore
        },
        PlayerSignal::OwnersEnded => WatchStepView::Ignore,
    }
}

/// The first changed property named `name`.
fn find_changed<'a>(changed: &'a Vec<ChangedProperty>, name: &str) -> (r: Option<&'a ChangedProperty>)
    ensures
        match r {
            Some(p) => changed_property(changed@, name@) == Some(*p),
            None => changed_property(changed@, name@) is None,
        },
{
    let mut i: usize = 0;
    proof {
        assert(changed@.skip(0) =~= changed@);
    }
    while i < changed.len()
        invariant
            i <= changed.len(),
            changed_property(changed@, name@) == changed_property(changed@.skip(i as int), name@),
        decreases changed.len() - i,
    {
        proof {
            assert(changed@.skip(i as int).drop_first() =~= changed@.skip(i + 1));
        }
        if text_eq(changed[i].name.as_str(), name) {
            return Some(&changed[i]);
        }
        i = i + 1;
    }
    None
}

/// The step the watch on the player takes on `signal`.
pub fn watch_step(signal: &PlayerSignal) -> (r: WatchStep)
    ensures
        r@ == watch_step_of(*signal),
{
    match signal {
        PlayerSignal::PropertiesChanged { changed } => match find_changed(changed, "Metadata") {
            None => WatchStep::Ignore,
            Some(p) => match &p.value {
                PropertyValue::Dictionary(d) => WatchStep::Publish(track_from_metadata(d)),
                PropertyValue::Other => WatchStep::Failed,
            },
        },
        PlayerSignal::PropertiesEnded => WatchStep::PlayerGone,
        PlayerSignal::OwnerChanged { name, new_owner } => {
            if text_eq(name.as_str(), SPOTIFY) && new_owner.as_str().is_empty() {
                WatchStep::PlayerGone
            } else {
                WatchStep::Ignore
            }
        },
        PlayerSignal::OwnersEnded => WatchStep::Ignore,
    }
}

/// What waiting for the player does on a change of owner.
#[derive(Clone, Copy, Debug, PartialEq, Eq, Structural)]
pub enum WaitStep {
    /// Another bus name: keep waiting.
    Ignore,
    /// The player's bus name lost its owner: clear the track, keep waiting.
    Reset,
    /// The player's bus name has an owner: start watching it.
    Ready,
}

/// The step that waiting for the player takes when `name` changes its owner to
/// `new_owner`.
pub open spec fn wait_step_of(name: Seq<char>, new_owner: Seq<char>) -> WaitStep {
    if name != SPOTIFY@ {
        WaitStep::Ignore
    } else if new_owner.len() == 0 {
        WaitStep::Reset
    } else {
        WaitStep::Ready
    }
}

/// The step that waiting for the player takes when `name` changes its owner to
/// `new_owner`.
pub fn wait_step(name: &str, new_owner: &str) -> (r: WaitStep)
    ensures
        r == wait_step_of(name@, new_owner@),
{
    if !text_eq(name, SPOTIFY) {
        WaitStep::Ignore
    } else if new_owner.is_empty() {
        WaitStep::Reset
    } else {
        WaitStep::Ready
    }
}

} // verus!
