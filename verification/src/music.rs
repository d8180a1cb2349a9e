//! music.vaked.dev integration: each peer shares a listening choreography,
//! a sequence of tracks with a current position. The choreography is the
//! peer's status.

use crate::text::{decimal, push_decimal};
use vstd::prelude::*;
use vstd::string::*;

verus! {

/// A track.
#[derive(Clone, Debug)]
pub struct Track {
    pub title: String,
    pub artist: String,
    pub album: String,
    pub duration_secs: u32,
}

/// A choreography: named sequence of tracks, the position in it and the
/// peer it belongs to.
#[derive(Clone, Debug)]
pub struct Choreography {
    pub name: String,
    pub description: String,
    pub tracks: Vec<Track>,
    pub current_position: usize,
    pub peer_id: String,
}

/// The text of a track.
pub struct TrackModel {
    pub title: Seq<char>,
    pub artist: Seq<char>,
    pub album: Seq<char>,
    pub duration_secs: u32,
}

/// The text of a choreography.
pub struct ChoreographyModel {
    pub name: Seq<char>,
    pub description: Seq<char>,
    pub tracks: Seq<TrackModel>,
    pub current_position: usize,
    pub peer_id: Seq<char>,
}

impl View for Track {
    type V = TrackModel;

    open spec fn view(&self) -> TrackModel {
        TrackModel {
            title: self.title@,
            artist: self.artist@,
            album: self.album@,
            duration_secs: self.duration_secs,
        }
    }
}

impl View for Choreography {
    type V = ChoreographyModel;

    open spec fn view(&self) -> ChoreographyModel {
        ChoreographyModel {
            name: self.name@,
            description: self.description@,
            tracks: self.tracks@.map_values(|t: Track| t@),
            current_position: self.current_position,
            peer_id: self.peer_id@,
        }
    }
}

/// The status line of a choreography: "<peer> ♫ <title> — <name> (<n>/<total>)"
/// with the 1-based position of the current track, or
/// "[<peer>] no track playing" when the position is past the end.
pub open spec fn status_text(c: ChoreographyModel) -> Seq<char> {
    if c.current_position < c.tracks.len() {
        c.peer_id + " ♫ "@ + c.tracks[c.current_position as int].title + " — "@ + c.name + " ("@
            + decimal((c.current_position + 1) as nat) + "/"@ + decimal(c.tracks.len()) + ")"@
    } else {
        "["@ + c.peer_id + "] no track playing"@
    }
}

impl Choreography {
    /// The track at the current position, if there is one.
    pub fn current_track(&self) -> (track: Option<&Track>)
        ensures
            self.current_position < self.tracks@.len() ==> track == Some(
                &self.tracks@[self.current_position as int],
            ),
            self.current_position >= self.tracks@.len() ==> track is None,
    {
        if self.current_position < self.tracks.len() {
            Some(&self.tracks[self.current_position])
        } else {
            None
        }
    }

    /// The 1-based current position and the number of tracks.
    pub fn progress(&self) -> (p: (usize, usize))
        requires
            self.current_position < usize::MAX,
        ensures
            p.0 == self.current_position + 1,
            p.1 == self.tracks@.len(),
    {
        (self.current_position + 1, self.tracks.len())
    }

    /// The status line for the current track.
    pub fn status(&self) -> (line: String)
        ensures
            line@ == status_text(self@),
            self.current_position < self.tracks@.len() ==> line@ == self.peer_id@ + " ♫ "@
                + self.tracks@[self.current_position as int].title@ + " — "@ + self.name@ + " ("@
                + decimal((self.current_position + 1) as nat) + "/"@ + decimal(
                self.tracks@.len(),
            ) + ")"@,
            self.current_position >= self.tracks@.len() ==> line@ == "["@ + self.peer_id@
                + "] no track playing"@,
    {
        let count = self.tracks.len();
        match self.current_track() {
            Some(track) => {
                let mut s = self.peer_id.clone();
                s.append(" ♫ ");
                s.append(track.title.as_str());
                s.append(" — ");
                s.append(self.name.as_str());
                s.append(" (");
                push_decimal(&mut s, self.current_position + 1);
                s.append("/");
                push_decimal(&mut s, count);
                s.append(")");
                s
            },
            None => {
                let mut s = String::from_str("[");
                s.append(self.peer_id.as_str());
                s.append("] no track playing");
                s
            },
        }
    }
}

/// A track from its parts.
fn track(title: &str, artist: &str, album: &str, duration_secs: u32) -> (t: Track)
    ensures
        t@ == (TrackModel { title: title@, artist: artist@, album: album@, duration_secs }),
{
    Track {
        title: String::from_str(title),
        artist: String::from_str(artist),
        album: String::from_str(album),
        duration_secs,
    }
}

/// The model of a track from its parts.
pub open spec fn track_model(title: &str, artist: &str, album: &str, duration_secs: u32) -> TrackModel {
    TrackModel { title: title@, artist: artist@, album: album@, duration_secs }
}

/// The tracks of "edesapa": the Unforgiven trilogy and more Metallica.
pub open spec fn edesapa_tracks() -> Seq<TrackModel> {
    seq![
        track_model("The Unforgiven", "Metallica", "Metallica", 387),
        track_model("The Unforgiven II", "Metallica", "Reload", 396),
        track_model("The Unforgiven III", "Metallica", "Death Magnetic", 467),
        track_model("Nothing Else Matters", "Metallica", "Metallica", 388),
        track_model("Fade to Black", "Metallica", "Ride the Lightning", 417),
        track_model("One", "Metallica", "...And Justice for All", 446),
        track_model("Enter Sandman", "Metallica", "Metallica", 331),
    ]
}

/// The tracks of "vivaldi-spring".
pub open spec fn vivaldi_tracks() -> Seq<TrackModel> {
    seq![
        track_model("Spring Mvt 1 — Allegro (downtempo)", "Vivaldi", "The Four Seasons", 210),
        track_model("Spring Mvt 2 — Largo", "Vivaldi", "The Four Seasons", 156),
        track_model("Spring Mvt 3 — Allegro", "Vivaldi", "The Four Seasons", 245),
    ]
}

/// The two sample choreographies, both at position 0.
pub open spec fn sample_models() -> Seq<ChoreographyModel> {
    seq![
        ChoreographyModel {
            name: "edesapa"@,
            description: "For my father. Metallica, Unforgiven trilogy."@,
            tracks: edesapa_tracks(),
            current_position: 0,
            peer_id: "[The Architect of Structural Honesty]"@,
        },
        ChoreographyModel {
            name: "vivaldi-spring"@,
            description: "Vivaldi Spring downtempo with quant-love salt."@,
            tracks: vivaldi_tracks(),
            current_position: 0,
            peer_id: "boglarka"@,
        },
    ]
}

/// The models of a list of choreographies.
pub open spec fn choreography_models(v: Seq<Choreography>) -> Seq<ChoreographyModel> {
    v.map_values(|c: Choreography| c@)
}

/// Sample choreographies for demo purposes.
pub fn sample_choreographies() -> (samples: Vec<Choreography>)
    ensures
        choreography_models(samples@) == sample_models(),
{
    let edesapa = vec![
        track("The Unforgiven", "Metallica", "Metallica", 387),
        track("The Unforgiven II", "Metallica", "Reload", 396),
        track("The Unforgiven III", "Metallica", "Death Magnetic", 467),
        track("Nothing Else Matters", "Metallica", "Metallica", 388),
        track("Fade to Black", "Metallica", "Ride the Lightning", 417),
        track("One", "Metallica", "...And Justice for All", 446),
        track("Enter Sandman", "Metallica", "Metallica", 331),
    ];
    let vivaldi = vec![
        track("Spring Mvt 1 — Allegro (downtempo)", "Vivaldi", "The Four Seasons", 210),
        track("Spring Mvt 2 — Largo", "Vivaldi", "The Four Seasons", 156),
        track("Spring Mvt 3 — Allegro", "Vivaldi", "The Four Seasons", 245),
    ];
    assert(edesapa@.map_values(|t: Track| t@) =~= edesapa_tracks());
    assert(vivaldi@.map_values(|t: Track| t@) =~= vivaldi_tracks());
    let samples = vec![
        Choreography {
            name: String::from_str("edesapa"),
            description: String::from_str("For my father. Metallica, Unforgiven trilogy."),
            tracks: edesapa,
            current_position: 0,
            peer_id: String::from_str("[The Architect of Structural Honesty]"),
        },
        Choreography {
            name: String::from_str("vivaldi-spring"),
            description: String::from_str("Vivaldi Spring downtempo with quant-love salt."),
            tracks: vivaldi,
            current_position: 0,
            peer_id: String::from_str("boglarka"),
        },
    ];
    assert(choreography_models(samples@) =~= sample_models());
    samples
}

/// The first model in `models` belonging to `peer`, if any.
pub open spec fn first_for_peer(models: Seq<ChoreographyModel>, peer: Seq<char>) -> Option<
    ChoreographyModel,
>
    decreases models.len(),
{
    if models.len() == 0 {
        None
    } else if models[0].peer_id == peer {
        Some(models[0])
    } else {
        first_for_peer(models.drop_first(), peer)
    }
}

/// `first_for_peer` finds the first model of the peer: it is `Some(models[i])`
/// exactly for the least `i` whose peer matches, and `None` when no model
/// belongs to the peer.
pub proof fn lemma_first_for_peer(models: Seq<ChoreographyModel>, peer: Seq<char>)
    ensures
        forall|i: int|
            0 <= i < models.len() && models[i].peer_id == peer && (forall|j: int|
                0 <= j < i ==> models[j].peer_id != peer) ==> first_for_peer(models, peer) == Some(
                models[i],
            ),
        (forall|i: int| 0 <= i < models.len() ==> models[i].peer_id != peer) ==> first_for_peer(
            models,
            peer,
        ) is None,
    decreases models.len(),
{
    if models.len() > 0 {
        let rest = models.drop_first();
        lemma_first_for_peer(rest, peer);
        assert forall|i: int|
            0 <= i < models.len() && models[i].peer_id == peer && (forall|j: int|
                0 <= j < i ==> models[j].peer_id != peer) implies first_for_peer(models, peer)
            == Some(models[i]) by {
            if i > 0 {
                assert(models[0].peer_id != peer);
                assert(rest[i - 1] == models[i]);
                assert forall|j: int| 0 <= j < i - 1 implies rest[j].peer_id != peer by {
                    assert(rest[j] == models[j + 1]);
                }
            }
        }
        if forall|i: int| 0 <= i < models.len() ==> models[i].peer_id != peer {
            assert(models[0].peer_id != peer);
            assert forall|i: int| 0 <= i < rest.len() implies rest[i].peer_id != peer by {
                assert(rest[i] == models[i + 1]);
            }
        }
    }
}

/// The status line shows the current track's title, the choreography's
/// name and the 1-based position out of the track count; past the end it
/// says no track is playing.
pub proof fn lemma_status_shows_current_track(c: ChoreographyModel)
    ensures
        c.current_position < c.tracks.len() ==> {
            let prefix = c.peer_id + " ♫ "@;
            let title = c.tracks[c.current_position as int].title;
            &&& status_text(c).subrange(0, prefix.len() as int) == prefix
            &&& status_text(c).subrange(prefix.len() as int, (prefix.len() + title.len()) as int) == title
        },
        c.current_position >= c.tracks.len() ==> status_text(c) == "["@ + c.peer_id
            + "] no track playing"@,
{
    if c.current_position < c.tracks.len() {
        let prefix = c.peer_id + " ♫ "@;
        let title = c.tracks[c.current_position as int].title;
        let rest = " — "@ + c.name + " ("@ + decimal((c.current_position + 1) as nat) + "/"@
            + decimal(c.tracks.len()) + ")"@;
        assert(status_text(c) =~= prefix + title + rest);
        assert(status_text(c).subrange(0, prefix.len() as int) =~= prefix);
        assert(status_text(c).subrange(prefix.len() as int, (prefix.len() + title.len()) as int) =~= title);
    }
}

/// What `now_playing` reports for a peer: its sample choreography, or an
/// empty "unknown" choreography for a peer without one.
pub open spec fn now_playing_model(peer: Seq<char>) -> ChoreographyModel {
    match first_for_peer(sample_models(), peer) {
        Some(c) => c,
        None => ChoreographyModel {
            name: "unknown"@,
            description: ""@,
            tracks: Seq::empty(),
            current_position: 0,
            peer_id: peer,
        },
    }
}

/// Client for music.vaked.dev.
pub struct MusicClient;

impl MusicClient {
    /// The choreography a peer is playing: its sample choreography, or an
    /// empty "unknown" one. There is always an answer.
    pub fn now_playing(peer_id: &str) -> (playing: Option<Choreography>)
        ensures
            playing matches Some(c) && c@ == now_playing_model(peer_id@),
            forall|i: int|
                0 <= i < sample_models().len() && sample_models()[i].peer_id == peer_id@ && (
                forall|j: int| 0 <= j < i ==> sample_models()[j].peer_id != peer_id@) ==> (
                playing matches Some(c) && c@ == sample_models()[i]),
            (forall|i: int| 0 <= i < sample_models().len() ==> sample_models()[i].peer_id != peer_id@)
                ==> (playing matches Some(c) && c@.name == "unknown"@ && c@.description == ""@
                && c@.tracks.len() == 0 && c@.current_position == 0 && c@.peer_id == peer_id@),
    {
        proof {
            lemma_first_for_peer(sample_models(), peer_id@);
        }
        let mut samples = sample_choreographies();
        let wanted = String::from_str(peer_id);
        let ghost all = choreography_models(samples@);
        let mut i: usize = 0;
        assert(all.skip(0) =~= all);
        while i < samples.len()
            invariant
                i <= samples@.len(),
                all == sample_models(),
                choreography_models(samples@) == all,
                wanted@ == peer_id@,
                first_for_peer(all, peer_id@) == first_for_peer(all.skip(i as int), peer_id@),
            decreases samples@.len() - i,
        {
            assert(all.skip(i as int).drop_first() =~= all.skip(i + 1));
            if samples[i].peer_id == wanted {
                let found = samples.remove(i);
                assert(all.skip(i as int)[0] == found@);
                return Some(found);
            }
            i = i + 1;
        }
        assert(all.skip(i as int) =~= Seq::<ChoreographyModel>::empty());
        assert(first_for_peer(all, peer_id@) is None);
        let unknown = Choreography {
            name: String::from_str("unknown"),
            description: String::from_str(""),
            tracks: Vec::new(),
            current_position: 0,
            peer_id: wanted,
        };
        assert(unknown@.tracks =~= Seq::<TrackModel>::empty());
        Some(unknown)
    }
}

} // verus!
