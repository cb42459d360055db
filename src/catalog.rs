//! The catalog: where its pages are, the show names a listing page holds, which
//! item a search resolves to, and the tracks of an item's detail page.
use vstd::prelude::*;
use vstd::string::{StrSliceExecFns, StringExecFns};
use crate::scrape::{
    listing_title_texts, listing_titles, search_hit_links, search_hits, track_blocks, track_scan,
};
use crate::text::{chars_of, decimal, decimal_string, trim, trim_text};

verus! {

/// The catalog's site; item links found on search pages are relative to it.
pub const ARCHIVE_BASE: &'static str = "https://archive.org";

/// The soundboard listing, sorted by date; a page index follows.
pub const LISTING_URL: &'static str = "https://archive.org/details/GratefulDead?and%5B%5D=subject%3A%22Soundboard%22&sort=date&page=";

/// The soundboard search, most downloaded first; a show name follows.
pub const SEARCH_URL: &'static str = "https://archive.org/details/GratefulDead?and%5B%5D=subject%3A%22Soundboard%22&sort=-downloads&query=";

/// How many listing pages the catalog has.
pub const PAGE_COUNT: u64 = 174;

/// The extension of the audio files that tracks link to.
pub const AUDIO_EXT: &'static str = ".ogg";

/// Why one show could not be downloaded.
#[derive(Clone, Copy, Debug, PartialEq, Eq, Structural)]
pub enum ShowError {
    /// A page could not be fetched.
    Network,
    /// The search for the show found no item.
    NotFound,
    /// The show's directory could not be created.
    Directory,
}

/// One track of a show: its 1-based place, its name and the link to its audio.
#[derive(Debug)]
pub struct TrackRecord {
    pub position: usize,
    pub name: String,
    pub url: String,
}

pub open spec fn listing_url(page: nat) -> Seq<char> {
    LISTING_URL@ + decimal(page)
}

pub open spec fn search_url(name: Seq<char>) -> Seq<char> {
    SEARCH_URL@ + name
}

pub open spec fn detail_url(href: Seq<char>) -> Seq<char> {
    ARCHIVE_BASE@ + href
}

/// The address of listing page `page`.
pub fn listing_page_url(page: u64) -> (r: String)
    ensures
        r@ == listing_url(page as nat),
{
    let d = decimal_string(page);
    let mut r = String::from_str(LISTING_URL);
    r.append(d.as_str());
    r
}

/// The address of the search for show `name`.
pub fn search_page_url(name: &str) -> (r: String)
    ensures
        r@ == search_url(name@),
{
    let mut r = String::from_str(SEARCH_URL);
    r.append(name);
    r
}

/// The address of the item that `href` links to.
pub fn detail_page_url(href: &str) -> (r: String)
    ensures
        r@ == detail_url(href@),
{
    let mut r = String::from_str(ARCHIVE_BASE);
    r.append(href);
    r
}

/// `s` with each run of equal neighbours cut to its first element.
pub open spec fn dedup(s: Seq<Seq<char>>) -> Seq<Seq<char>>
    decreases s.len(),
{
    if s.len() <= 1 {
        s
    } else if s.last() == s[s.len() - 2] {
        dedup(s.drop_last())
    } else {
        dedup(s.drop_last()).push(s.last())
    }
}

/// The show names of one listing page, given its titles' texts.
pub open spec fn show_names(titles: Seq<Seq<char>>) -> Seq<Seq<char>> {
    dedup(titles.map_values(|t: Seq<char>| trim(t)))
}

/// Trims each title and drops those equal to the one before.
pub fn show_names_of(titles: &Vec<String>) -> (r: Vec<String>)
    ensures
        r.deep_view() == show_names(titles.deep_view()),
{
    let ghost ts = titles.deep_view().map_values(|t: Seq<char>| trim(t));
    let mut out: Vec<String> = Vec::new();
    let mut prev: String = String::new();
    let mut i: usize = 0;
    while i < titles.len()
        invariant
            i <= titles@.len(),
            ts == titles.deep_view().map_values(|t: Seq<char>| trim(t)),
            out.deep_view() == dedup(ts.subrange(0, i as int)),
            i > 0 ==> prev@ == ts[i - 1],
        decreases titles@.len() - i,
    {
        let name = trim_text(titles[i].as_str());
        assert(name@ == ts[i as int]);
        let ghost pre = ts.subrange(0, i + 1);
        assert(pre.drop_last() =~= ts.subrange(0, i as int));
        if i == 0 || name != prev {
            let ghost old_out = out.deep_view();
            out.push(name.clone());
            assert(out.deep_view() =~= old_out.push(name@));
        }
        prev = name;
        i = i + 1;
    }
    assert(ts.subrange(0, i as int) =~= ts);
    out
}

/// The show names on a listing page, in order, consecutive repeats removed.
pub fn page_show_names(page: &str) -> (r: Vec<String>)
    ensures
        r.deep_view() == show_names(listing_titles(page@)),
{
    let titles = listing_title_texts(page);
    show_names_of(&titles)
}

/// The first link present in `hits`.
pub open spec fn first_link(hits: Seq<Option<Seq<char>>>) -> Option<Seq<char>>
    decreases hits.len(),
{
    if hits.len() == 0 {
        None
    } else if hits[0] is Some {
        hits[0]
    } else {
        first_link(hits.drop_first())
    }
}

proof fn lemma_first_link_skip(hits: Seq<Option<Seq<char>>>, i: int)
    requires
        0 <= i <= hits.len(),
        forall|k: int| 0 <= k < i ==> #[trigger] hits[k] is None,
    ensures
        first_link(hits) == first_link(hits.subrange(i, hits.len() as int)),
    decreases i,
{
    if i == 0 {
        assert(hits.subrange(0, hits.len() as int) =~= hits);
    } else {
        assert(hits[0] is None);
        let t = hits.drop_first();
        assert forall|k: int| 0 <= k < i - 1 implies #[trigger] t[k] is None by {
            assert(t[k] == hits[k + 1]);
        }
        lemma_first_link_skip(t, i - 1);
        assert(t.subrange(i - 1, t.len() as int) =~= hits.subrange(i, hits.len() as int));
    }
}

/// Picks the detail page of the top search hit: `NotFound` when no hit has a link.
pub fn resolve_hits(hits: &Vec<Option<String>>) -> (r: Result<String, ShowError>)
    ensures
        r is Err <==> first_link(hits.deep_view()) is None,
        r is Err ==> r->Err_0 == ShowError::NotFound,
        r is Ok ==> r->Ok_0@ == detail_url(first_link(hits.deep_view())->0),
{
    let ghost hv = hits.deep_view();
    let mut i: usize = 0;
    while i < hits.len()
        invariant
            i <= hits@.len(),
            hv == hits.deep_view(),
            forall|k: int| 0 <= k < i ==> #[trigger] hv[k] is None,
        decreases hits@.len() - i,
    {
        match &hits[i] {
            Some(href) => {
                proof {
                    lemma_first_link_skip(hv, i as int);
                    assert(hv.subrange(i as int, hv.len() as int)[0] == hv[i as int]);
                }
                return Ok(detail_page_url(href.as_str()));
            },
            None => {},
        }
        assert(hv[i as int] is None);
        i = i + 1;
    }
    proof {
        lemma_first_link_skip(hv, i as int);
    }
    Err(ShowError::NotFound)
}

/// Resolves a search page to the address of its top hit's detail page.
pub fn resolve_detail_url(search_page: &str) -> (r: Result<String, ShowError>)
    ensures
        r is Err <==> first_link(search_hits(search_page@)) is None,
        r is Err ==> r->Err_0 == ShowError::NotFound,
        r is Ok ==> r->Ok_0@ == detail_url(first_link(search_hits(search_page@))->0),
{
    let hits = search_hit_links(search_page);
    resolve_hits(&hits)
}

/// The last value present in `s`: where a track has several, the later one counts.
pub open spec fn last_value(s: Seq<Option<Seq<char>>>) -> Option<Seq<char>>
    decreases s.len(),
{
    if s.len() == 0 {
        None
    } else if s.last() is Some {
        s.last()
    } else {
        last_value(s.drop_last())
    }
}

pub open spec fn ends_with(s: Seq<char>, e: Seq<char>) -> bool {
    e.len() <= s.len() && s.subrange(s.len() - e.len(), s.len() as int) == e
}

/// A scanned track element: the name values, then the media-link values.
pub type TrackBlock = (Seq<Option<Seq<char>>>, Seq<Option<Seq<char>>>);

/// A track element that yields a track: it has a name, and a link to an audio file.
pub open spec fn is_audio_track(b: TrackBlock) -> bool {
    &&& last_value(b.0) is Some
    &&& last_value(b.1) is Some
    &&& ends_with(last_value(b.1)->0, AUDIO_EXT@)
}

/// The (name, link) pairs of the track elements that yield a track, in order.
pub open spec fn audio_tracks(bs: Seq<TrackBlock>) -> Seq<(Seq<char>, Seq<char>)>
    decreases bs.len(),
{
    if bs.len() == 0 {
        seq![]
    } else if is_audio_track(bs.last()) {
        audio_tracks(bs.drop_last()).push((last_value(bs.last().0)->0, last_value(bs.last().1)->0))
    } else {
        audio_tracks(bs.drop_last())
    }
}

/// The tracks drawn from `bs`, numbered from 1 in order.
pub open spec fn numbered(r: Seq<TrackRecord>, bs: Seq<TrackBlock>) -> bool {
    &&& r.len() == audio_tracks(bs).len()
    &&& forall|i: int|
        0 <= i < r.len() ==> {
            &&& (#[trigger] r[i]).position == i + 1
            &&& r[i].name@ == audio_tracks(bs)[i].0
            &&& r[i].url@ == audio_tracks(bs)[i].1
        }
}

fn last_present(s: &Vec<Option<String>>) -> (r: Option<String>)
    ensures
        r.deep_view() == last_value(s.deep_view()),
{
    let ghost sv = s.deep_view();
    let mut r: Option<String> = None;
    let mut i: usize = 0;
    while i < s.len()
        invariant
            i <= s@.len(),
            sv == s.deep_view(),
            r.deep_view() == last_value(sv.subrange(0, i as int)),
        decreases s@.len() - i,
    {
        assert(sv.subrange(0, i + 1).drop_last() =~= sv.subrange(0, i as int));
        match &s[i] {
            Some(v) => {
                r = Some(v.clone());
            },
            None => {},
        }
        i = i + 1;
    }
    assert(sv.subrange(0, i as int) =~= sv);
    r
}

fn ends_with_text(s: &str, e: &str) -> (r: bool)
    ensures
        r == ends_with(s@, e@),
{
    let cs = chars_of(s);
    let es = chars_of(e);
    if es.len() > cs.len() {
        return false;
    }
    let n = cs.len();
    let off = n - es.len();
    let mut i: usize = 0;
    while i < es.len()
        invariant
            i <= es@.len(),
            n == cs@.len(),
            cs@ == s@,
            es@ == e@,
            off + es@.len() == n,
            forall|k: int| 0 <= k < i ==> cs@[off + k] == #[trigger] es@[k],
        decreases es@.len() - i,
    {
        if cs[off + i] != es[i] {
            let ghost tail = cs@.subrange(off as int, n as int);
            assert(tail[i as int] == cs@[off + i]);
            assert(tail[i as int] != es@[i as int]);
            assert(tail != es@);
            return false;
        }
        i = i + 1;
    }
    assert(cs@.subrange(off as int, cs@.len() as int) =~= es@);
    true
}

/// Keeps the track elements that have a name and an audio link, and numbers them from 1.
pub fn select_tracks(blocks: &Vec<(Vec<Option<String>>, Vec<Option<String>>)>) -> (r: Vec<
    TrackRecord,
>)
    ensures
        numbered(r@, blocks.deep_view()),
{
    let ghost bv = blocks.deep_view();
    let mut out: Vec<TrackRecord> = Vec::new();
    let mut i: usize = 0;
    while i < blocks.len()
        invariant
            i <= blocks@.len(),
            bv == blocks.deep_view(),
            numbered(out@, bv.subrange(0, i as int)),
            out@.len() <= i,
        decreases blocks@.len() - i,
    {
        let ghost pre = bv.subrange(0, i + 1);
        assert(pre.drop_last() =~= bv.subrange(0, i as int));
        assert(pre.last() == bv[i as int]);
        assert(bv[i as int].0 == blocks@[i as int].0.deep_view());
        assert(bv[i as int].1 == blocks@[i as int].1.deep_view());
        let name = last_present(&blocks[i].0);
        let url = last_present(&blocks[i].1);
        match (name, url) {
            (Some(n), Some(u)) => {
                if ends_with_text(u.as_str(), AUDIO_EXT) {
                    let pos = out.len() + 1;
                    let ghost prev = out@;
                    out.push(TrackRecord { position: pos, name: n, url: u });
                    assert forall|k: int| 0 <= k < out@.len() implies (#[trigger] out@[k]).position
                        == k + 1 by {
                        if k < prev.len() {
                            assert(out@[k] == prev[k]);
                        }
                    }
                }
            },
            _ => {},
        }
        i = i + 1;
    }
    assert(bv.subrange(0, i as int) =~= bv);
    out
}

proof fn lemma_audio_tracks_concat(a: Seq<TrackBlock>, b: Seq<TrackBlock>)
    ensures
        audio_tracks(a + b) == audio_tracks(a) + audio_tracks(b),
    decreases b.len(),
{
    if b.len() == 0 {
        assert(a + b =~= a);
        assert(audio_tracks(a) + audio_tracks(b) =~= audio_tracks(a));
    } else {
        lemma_audio_tracks_concat(a, b.drop_last());
        assert((a + b).drop_last() =~= a + b.drop_last());
        assert((a + b).last() == b.last());
        if is_audio_track(b.last()) {
            let t = (last_value(b.last().0)->0, last_value(b.last().1)->0);
            assert(audio_tracks(a) + audio_tracks(b.drop_last()).push(t) =~= (audio_tracks(a)
                + audio_tracks(b.drop_last())).push(t));
        }
    }
}

/// A track element whose media link is missing or does not end in the audio
/// extension yields no track, whatever its name: removing it changes nothing.
pub proof fn lemma_non_audio_excluded(before: Seq<TrackBlock>, b: TrackBlock, after: Seq<TrackBlock>)
    requires
        last_value(b.1) is None || !ends_with(last_value(b.1)->0, AUDIO_EXT@),
    ensures
        audio_tracks(before.push(b) + after) == audio_tracks(before + after),
{
    lemma_audio_tracks_concat(before.push(b), after);
    lemma_audio_tracks_concat(before, after);
    assert(before.push(b).drop_last() =~= before);
}

/// Every extracted track links to a file with the audio extension.
pub proof fn lemma_tracks_are_audio(bs: Seq<TrackBlock>)
    ensures
        forall|i: int|
            0 <= i < audio_tracks(bs).len() ==> ends_with(#[trigger] audio_tracks(bs)[i].1, AUDIO_EXT@),
    decreases bs.len(),
{
    if bs.len() > 0 {
        lemma_tracks_are_audio(bs.drop_last());
        let p = audio_tracks(bs.drop_last());
        if is_audio_track(bs.last()) {
            let t = (last_value(bs.last().0)->0, last_value(bs.last().1)->0);
            assert forall|i: int| 0 <= i < p.len() + 1 implies ends_with(
                #[trigger] p.push(t)[i].1,
                AUDIO_EXT@,
            ) by {
                if i < p.len() {
                    assert(p.push(t)[i] == p[i]);
                }
            }
        }
    }
}

/// The tracks of an item's detail page.
pub fn extract_tracks(page: &str) -> (r: Vec<TrackRecord>)
    ensures
        numbered(r@, track_scan(page@)),
{
    let blocks = track_blocks(page);
    select_tracks(&blocks)
}

} // verus!
