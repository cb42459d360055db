use syf::catalog::{search_page_url, ShowError, TrackRecord};
use syf::download::{position_text, slice_shows, track_file_name, track_file_path, Action, Batch, Event};

fn s(x: &str) -> String {
    String::from(x)
}

fn names(v: &[&str]) -> Vec<String> {
    v.iter().map(|x| s(x)).collect()
}

fn track(position: usize, name: &str) -> TrackRecord {
    TrackRecord { position, name: s(name), url: s("http://x/t.ogg") }
}

#[test]
fn position_padding() {
    assert_eq!(position_text(3), "03");
    assert_eq!(position_text(11), "11");
    assert_eq!(position_text(100), "100");
}

#[test]
fn file_names_begin_with_padded_position() {
    assert!(track_file_name(&track(3, "Dark Star")).starts_with("03 - "));
    assert!(track_file_name(&track(11, "Dark Star")).starts_with("11 - "));
    assert_eq!(track_file_name(&track(3, "(Dark/\\ //Star-/-->")), "03 - Dark Star.ogg");
}

#[test]
fn file_path_is_inside_unsanitized_show_directory() {
    assert_eq!(
        track_file_path("1977-05-08 Cornell", &track(1, "Morning Dew.")),
        "1977-05-08 Cornell/01 - Morning Dew.ogg"
    );
}

#[test]
fn range_covers_start_through_end() {
    let all = names(&["A", "B", "C", "D", "E"]);
    assert_eq!(slice_shows(&all, "B", "D"), names(&["B", "C", "D"]));
    assert_eq!(slice_shows(&all, "B", "B"), names(&["B"]));
    assert_eq!(slice_shows(&all, "X", "D"), Vec::<String>::new());
}

#[test]
fn range_without_end_runs_to_last_show() {
    let all = names(&["A", "B", "C"]);
    assert_eq!(slice_shows(&all, "B", "Z"), names(&["B", "C"]));
    assert_eq!(slice_shows(&all, "C", "A"), names(&["C"]));
}

const SEARCH_HIT: &str = r#"<a data-event-click-tracking="GenericNonCollection|ItemTile" href="/details/show">x</a>"#;
const DETAIL: &str = r#"<div itemprop="track"><meta itemprop="name" content="Song.">
    <link itemprop="associatedMedia" href="http://x/song.ogg"></div>
    <div itemprop="track"><meta itemprop="name" content="--">
    <link itemprop="associatedMedia" href="http://x/dash.ogg"></div>"#;

fn fetch_url(a: &Action) -> String {
    match a {
        Action::Fetch(u) => u.clone(),
        other => panic!("expected a fetch, got {:?}", other),
    }
}

#[test]
fn directory_failure_does_not_stop_batch() {
    let (mut b, act) = Batch::new(names(&["B", "C", "D"]));
    assert_eq!(fetch_url(&act), search_page_url("B"));
    // B downloads its one usable track; the nameless one is counted as failed.
    let act = b.step(Event::Fetched(s(SEARCH_HIT)));
    assert_eq!(fetch_url(&act), "https://archive.org/details/show");
    let act = b.step(Event::Fetched(s(DETAIL)));
    assert!(matches!(act, Action::CreateDir(ref d) if d == "B"));
    let act = b.step(Event::DirCreated);
    match &act {
        Action::SaveTrack(u, p) => {
            assert_eq!(u, "http://x/song.ogg");
            assert_eq!(p, "B/01 - Song.ogg");
        }
        other => panic!("unexpected {:?}", other),
    }
    let act = b.step(Event::TrackSaved);
    assert_eq!(fetch_url(&act), search_page_url("C"));
    // C cannot get its directory.
    b.step(Event::Fetched(s(SEARCH_HIT)));
    b.step(Event::Fetched(s(DETAIL)));
    let act = b.step(Event::DirFailed);
    assert_eq!(fetch_url(&act), search_page_url("D"));
    // D still runs.
    b.step(Event::Fetched(s(SEARCH_HIT)));
    b.step(Event::Fetched(s(DETAIL)));
    let act = b.step(Event::DirCreated);
    assert!(matches!(act, Action::SaveTrack(_, ref p) if p == "D/01 - Song.ogg"));
    let act = b.step(Event::TrackFailed);
    assert!(matches!(act, Action::Done));
    assert_eq!(b.reports.len(), 3);
    assert_eq!((b.reports[0].name.as_str(), b.reports[0].result, b.reports[0].saved, b.reports[0].failed), ("B", Ok(()), 1, 1));
    assert_eq!((b.reports[1].name.as_str(), b.reports[1].result), ("C", Err(ShowError::Directory)));
    assert_eq!((b.reports[2].name.as_str(), b.reports[2].result, b.reports[2].saved, b.reports[2].failed), ("D", Ok(()), 0, 2));
    assert!(matches!(b.step(Event::TrackSaved), Action::Done));
}

#[test]
fn no_search_hits_is_not_found_without_directory() {
    let (mut b, _) = Batch::new(names(&["Nowhere"]));
    let act = b.step(Event::Fetched(s("<html><body>nothing</body></html>")));
    assert!(matches!(act, Action::Done));
    assert_eq!(b.reports.len(), 1);
    assert_eq!(b.reports[0].result, Err(ShowError::NotFound));
}

#[test]
fn failed_fetch_is_network_error() {
    let (mut b, _) = Batch::new(names(&["A", "B"]));
    let act = b.step(Event::FetchFailed);
    assert_eq!(fetch_url(&act), search_page_url("B"));
    assert_eq!(b.reports[0].result, Err(ShowError::Network));
    b.step(Event::Fetched(s(SEARCH_HIT)));
    let act = b.step(Event::FetchFailed);
    assert!(matches!(act, Action::Done));
    assert_eq!(b.reports[1].result, Err(ShowError::Network));
}

#[test]
fn empty_batch_is_done() {
    let (_, act) = Batch::new(vec![]);
    assert!(matches!(act, Action::Done));
}
