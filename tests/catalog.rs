use syf::catalog::{
    detail_page_url, extract_tracks, listing_page_url, page_show_names, resolve_detail_url,
    resolve_hits, search_page_url, select_tracks, show_names_of, ShowError, ARCHIVE_BASE,
    LISTING_URL, SEARCH_URL,
};

fn s(x: &str) -> String {
    String::from(x)
}

#[test]
fn listing_url_ends_in_page_index() {
    assert_eq!(listing_page_url(12), format!("{}12", LISTING_URL));
    assert_eq!(listing_page_url(0), format!("{}0", LISTING_URL));
}

#[test]
fn search_and_detail_urls() {
    assert_eq!(search_page_url("1977-05-08 Cornell"), format!("{}1977-05-08 Cornell", SEARCH_URL));
    assert_eq!(detail_page_url("/details/gd77"), format!("{}/details/gd77", ARCHIVE_BASE));
    assert_eq!(detail_page_url("/details/gd77"), "https://archive.org/details/gd77");
}

#[test]
fn show_names_trim_and_drop_consecutive_repeats() {
    let titles = vec![s(" A "), s("A"), s("B"), s("\nB"), s("A")];
    assert_eq!(show_names_of(&titles), vec![s("A"), s("B"), s("A")]);
    assert_eq!(show_names_of(&vec![]), Vec::<String>::new());
}

#[test]
fn listing_page_is_read() {
    let page = r#"<html><body>
        <div class="ttl"> 1977-05-08 <b>Cornell</b> </div>
        <div class="ttl">1977-05-08 <b>Cornell</b></div>
        <div class="other">skip</div>
        <div class="ttl">1977-05-09 Buffalo</div>
        </body></html>"#;
    assert_eq!(
        page_show_names(page),
        vec![s("1977-05-08 Cornell"), s("1977-05-09 Buffalo")]
    );
}

#[test]
fn first_linked_hit_wins() {
    let hits = vec![None, Some(s("/details/a")), Some(s("/details/b"))];
    assert_eq!(resolve_hits(&hits), Ok(s("https://archive.org/details/a")));
    assert_eq!(resolve_hits(&vec![None, None]), Err(ShowError::NotFound));
}

#[test]
fn search_page_resolves_to_top_hit() {
    let page = r#"<html><body>
        <a data-event-click-tracking="GenericNonCollection|ItemTile">no link</a>
        <a data-event-click-tracking="GenericNonCollection|ItemTile" href="/details/gd1977">x</a>
        <a data-event-click-tracking="GenericNonCollection|ItemTile" href="/details/other">y</a>
        </body></html>"#;
    assert_eq!(resolve_detail_url(page), Ok(s("https://archive.org/details/gd1977")));
}

#[test]
fn search_page_without_hits_is_not_found() {
    let page = "<html><body><p>No results</p></body></html>";
    assert_eq!(resolve_detail_url(page), Err(ShowError::NotFound));
}

#[test]
fn non_audio_tracks_are_dropped_and_positions_follow_filtering() {
    let blocks = vec![
        (vec![Some(s("Intro"))], vec![Some(s("http://x/intro.mp3"))]),
        (vec![Some(s("Bertha"))], vec![Some(s("http://x/bertha.ogg"))]),
        (vec![], vec![Some(s("http://x/noname.ogg"))]),
        (vec![Some(s("Old")), None, Some(s("New"))], vec![Some(s("http://x/a.ogg")), None]),
        (vec![Some(s("Jam"))], vec![]),
    ];
    let tracks = select_tracks(&blocks);
    assert_eq!(tracks.len(), 2);
    assert_eq!(tracks[0].position, 1);
    assert_eq!(tracks[0].name, "Bertha");
    assert_eq!(tracks[0].url, "http://x/bertha.ogg");
    assert_eq!(tracks[1].position, 2);
    assert_eq!(tracks[1].name, "New");
    assert_eq!(tracks[1].url, "http://x/a.ogg");
}

#[test]
fn detail_page_tracks() {
    let page = r#"<html><body>
        <div itemprop="track"><meta itemprop="name" content="Scarlet Begonias">
          <link itemprop="associatedMedia" href="http://x/1.mp3">
          <link itemprop="associatedMedia" href="http://x/1.ogg"></div>
        <div itemprop="track"><meta itemprop="name" content="Fire on the Mountain">
          <link itemprop="associatedMedia" href="http://x/2.flac"></div>
        <div itemprop="track"><meta itemprop="name" content="Estimated Prophet">
          <link itemprop="associatedMedia" href="http://x/3.ogg"></div>
        </body></html>"#;
    let tracks = extract_tracks(page);
    assert_eq!(tracks.len(), 2);
    assert_eq!((tracks[0].position, tracks[0].name.as_str(), tracks[0].url.as_str()), (1, "Scarlet Begonias", "http://x/1.ogg"));
    assert_eq!((tracks[1].position, tracks[1].name.as_str(), tracks[1].url.as_str()), (2, "Estimated Prophet", "http://x/3.ogg"));
}
