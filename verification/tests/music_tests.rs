use honest_irc::music::{sample_choreographies, Choreography, MusicClient};

#[test]
fn test_choreography_status() {
    let choreo = sample_choreographies().into_iter().next().unwrap();
    let status = choreo.status();
    assert!(status.contains("The Unforgiven"));
    assert!(status.contains("edesapa"));
}

#[test]
fn test_choreography_progress() {
    let choreo = sample_choreographies().into_iter().next().unwrap();
    let (pos, total) = choreo.progress();
    assert_eq!(pos, 1);
    assert_eq!(total, 7);
}

#[test]
fn test_now_playing() {
    let result = MusicClient::now_playing("[The Architect of Structural Honesty]");
    assert!(result.is_some());
    let choreo = result.unwrap();
    assert_eq!(choreo.name, "edesapa");
}

#[test]
fn test_status_exact_text() {
    let mut choreo = sample_choreographies().into_iter().nth(1).unwrap();
    assert_eq!(choreo.status(), "boglarka ♫ Spring Mvt 1 — Allegro (downtempo) — vivaldi-spring (1/3)");
    choreo.current_position = 2;
    assert_eq!(choreo.current_track().unwrap().title, "Spring Mvt 3 — Allegro");
    choreo.current_position = 3;
    assert!(choreo.current_track().is_none());
    assert_eq!(choreo.status(), "[boglarka] no track playing");
    assert_eq!(choreo.progress(), (4, 3));
}

#[test]
fn test_now_playing_unknown_peer() {
    let choreo: Choreography = MusicClient::now_playing("nobody").unwrap();
    assert_eq!(choreo.name, "unknown");
    assert_eq!(choreo.peer_id, "nobody");
    assert!(choreo.tracks.is_empty());
    assert_eq!(choreo.status(), "[nobody] no track playing");
    let vivaldi = MusicClient::now_playing("boglarka").unwrap();
    assert_eq!(vivaldi.name, "vivaldi-spring");
}

#[test]
fn test_sample_catalog() {
    let samples = sample_choreographies();
    assert_eq!(samples.len(), 2);
    assert_eq!(samples[0].tracks[5].album, "...And Justice for All");
    assert_eq!(samples[0].tracks[6].duration_secs, 331);
    assert_eq!(samples[1].tracks[1].duration_secs, 156);
}
