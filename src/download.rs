//! Downloading shows: the names of track files, which shows a range covers, and
//! the decisions of a batch download as a state machine. The caller performs each
//! returned `Action` (a fetch, a directory, a track file) and hands back the
//! `Event` that came of it.
use vstd::prelude::*;
use vstd::string::{StrSliceExecFns, StringExecFns};
use crate::catalog::{
    detail_url, extract_tracks, first_link, numbered, resolve_detail_url, search_page_url,
    search_url, ShowError, TrackRecord, AUDIO_EXT,
};
use crate::scrape::{search_hits, track_scan};
use crate::text::{decimal, decimal_string, sanitize_song_name, sanitized};

verus! {

/// A track's position, padded with a zero to at least two digits.
pub open spec fn position_label(n: nat) -> Seq<char> {
    if n < 10 {
        seq!['0'] + decimal(n)
    } else {
        decimal(n)
    }
}

/// `03 - Name.ogg`: the file name of the track at `pos` named `name`.
pub open spec fn file_name(pos: nat, name: Seq<char>) -> Seq<char> {
    position_label(pos) + seq![' ', '-', ' '] + sanitized(name) + AUDIO_EXT@
}

/// Where a track of show `show` is written: inside the show's own directory.
pub open spec fn file_path(show: Seq<char>, pos: nat, name: Seq<char>) -> Seq<char> {
    show + seq!['/'] + file_name(pos, name)
}

/// The position of a track, padded to at least two digits.
pub fn position_text(n: usize) -> (r: String)
    ensures
        r@ == position_label(n as nat),
{
    let d = decimal_string(n as u64);
    if n < 10 {
        let mut r = String::from_str("0");
        proof {
            reveal_strlit("0");
        }
        r.append(d.as_str());
        r
    } else {
        d
    }
}

/// The file name a track is written under.
pub fn track_file_name(track: &TrackRecord) -> (r: String)
    ensures
        r@ == file_name(track.position as nat, track.name@),
{
    let mut r = position_text(track.position);
    r.append(" - ");
    let name = sanitize_song_name(track.name.as_str());
    r.append(name.as_str());
    r.append(AUDIO_EXT);
    proof {
        reveal_strlit(" - ");
    }
    r
}

/// The path a track of show `show` is written to.
pub fn track_file_path(show: &str, track: &TrackRecord) -> (r: String)
    ensures
        r@ == file_path(show@, track.position as nat, track.name@),
{
    let mut r = String::from_str(show);
    r.append("/");
    let f = track_file_name(track);
    r.append(f.as_str());
    proof {
        reveal_strlit("/");
    }
    r
}

/// The first index from `i` on where `s` holds `x`, or `s.len()` where none does.
pub open spec fn find_from(s: Seq<Seq<char>>, x: Seq<char>, i: int) -> int
    decreases s.len() - i,
{
    if i < 0 || i >= s.len() {
        s.len() as int
    } else if s[i] == x {
        i
    } else {
        find_from(s, x, i + 1)
    }
}

/// The shows from the first `start` through the first `end` after it (to the last
/// show where no `end` follows); none where `start` is not listed.
pub open spec fn slice_of(s: Seq<Seq<char>>, start: Seq<char>, end: Seq<char>) -> Seq<Seq<char>> {
    let i = find_from(s, start, 0);
    if i >= s.len() {
        seq![]
    } else {
        let j = find_from(s, end, i);
        if j >= s.len() {
            s.subrange(i, s.len() as int)
        } else {
            s.subrange(i, j + 1)
        }
    }
}

fn find_show(shows: &Vec<String>, x: &String, from: usize) -> (r: usize)
    requires
        from <= shows@.len(),
    ensures
        r as int == find_from(shows.deep_view(), x@, from as int),
        from <= r <= shows@.len(),
{
    let ghost sv = shows.deep_view();
    let mut i: usize = from;
    while i < shows.len()
        invariant
            from <= i <= shows@.len(),
            sv == shows.deep_view(),
            find_from(sv, x@, from as int) == find_from(sv, x@, i as int),
        decreases shows@.len() - i,
    {
        if shows[i] == *x {
            return i;
        }
        i = i + 1;
    }
    i
}

/// The shows that a download of the range from `start` to `end` covers, in order.
pub fn slice_shows(shows: &Vec<String>, start: &str, end: &str) -> (r: Vec<String>)
    ensures
        r.deep_view() == slice_of(shows.deep_view(), start@, end@),
{
    let ghost sv = shows.deep_view();
    let st = String::from_str(start);
    let en = String::from_str(end);
    let mut out: Vec<String> = Vec::new();
    let i = find_show(shows, &st, 0);
    if i >= shows.len() {
        assert(out.deep_view() =~= seq![]);
        return out;
    }
    let j = find_show(shows, &en, i);
    let stop = if j >= shows.len() {
        shows.len()
    } else {
        j + 1
    };
    let mut k: usize = i;
    while k < stop
        invariant
            i <= k <= stop <= shows@.len(),
            sv == shows.deep_view(),
            out.deep_view() == sv.subrange(i as int, k as int),
        decreases stop - k,
    {
        let ghost before = out.deep_view();
        out.push(shows[k].clone());
        assert(out.deep_view() =~= before.push(sv[k as int]));
        assert(sv.subrange(i as int, k + 1) =~= sv.subrange(i as int, k as int).push(sv[k as int]));
        k = k + 1;
    }
    out
}

/// Where the current show of a batch stands.
#[derive(Clone, Copy, Debug, PartialEq, Eq, Structural)]
pub enum Stage {
    /// Its search page is being fetched.
    Searching,
    /// The detail page of its top hit is being fetched.
    Opening,
    /// Its directory is being created.
    MakingDir,
    /// Its tracks are being fetched and written, one at a time.
    Saving,
}

/// What came of the last action.
#[derive(Debug)]
pub enum Event {
    /// The page asked for, as text.
    Fetched(String),
    FetchFailed,
    DirCreated,
    DirFailed,
    TrackSaved,
    TrackFailed,
}

/// What the caller is to do next.
#[derive(Debug)]
pub enum Action {
    /// Fetch the page at this address, answering `Fetched` or `FetchFailed`.
    Fetch(String),
    /// Create this directory, answering `DirCreated` or `DirFailed`.
    CreateDir(String),
    /// Fetch the audio at the first address and write it to the path that is
    /// second, answering `TrackSaved` or `TrackFailed`.
    SaveTrack(String, String),
    /// The batch is over.
    Done,
}

/// How one show of a batch ended, and how many of its tracks were written or failed.
#[derive(Debug)]
pub struct ShowReport {
    pub name: String,
    pub result: Result<(), ShowError>,
    pub saved: usize,
    pub failed: usize,
}

/// A batch download of shows, one after another. One show failing does not stop
/// the next; one track failing does not stop the show.
#[derive(Debug)]
pub struct Batch {
    pub shows: Vec<String>,
    pub current: usize,
    pub stage: Stage,
    pub tracks: Vec<TrackRecord>,
    pub next: usize,
    pub saved: usize,
    pub failed: usize,
    pub reports: Vec<ShowReport>,
}

/// The first track from `k` on whose sanitized name is not empty, or the count of
/// tracks where none is; those skipped are failures.
pub open spec fn next_savable(tracks: Seq<TrackRecord>, k: int) -> int
    decreases tracks.len() - k,
{
    if k < 0 || k >= tracks.len() {
        tracks.len() as int
    } else if sanitized(tracks[k].name@).len() > 0 {
        k
    } else {
        next_savable(tracks, k + 1)
    }
}

/// A show whose directory cannot be created ends with a directory error of its
/// own; the reports before it stay as they were, and the next show is opened.
pub proof fn lemma_directory_failure_moves_on(pre: Batch, post: Batch, act: Action)
    requires
        pre.wf(),
        !pre.is_done(),
        pre.stage == Stage::MakingDir,
        Batch::step_spec(pre, Event::DirFailed, post, act),
    ensures
        post.current == pre.current + 1,
        post.reports@.drop_last() == pre.reports@,
        post.reports@.last().name@ == pre.show(),
        post.reports@.last().result == Err::<(), ShowError>(ShowError::Directory),
        post.reports@.last().saved == 0,
        !post.is_done() ==> {
            &&& post.stage == Stage::Searching
            &&& act is Fetch
            &&& act->Fetch_0@ == search_url(post.show())
        },
        post.is_done() ==> act is Done,
{
}

/// A show whose search finds no hit ends with a not-found error, and no
/// directory is asked for.
pub proof fn lemma_no_hits_no_directory(pre: Batch, page: String, post: Batch, act: Action)
    requires
        pre.wf(),
        !pre.is_done(),
        pre.stage == Stage::Searching,
        first_link(search_hits(page@)) is None,
        Batch::step_spec(pre, Event::Fetched(page), post, act),
    ensures
        post.current == pre.current + 1,
        post.reports@.last().name@ == pre.show(),
        post.reports@.last().result == Err::<(), ShowError>(ShowError::NotFound),
        !(act is CreateDir),
{
}

/// Whatever happens to a show, the reports of earlier shows are kept, and the
/// batch either stays on that show or opens the one after it.
pub proof fn lemma_step_keeps_reports(pre: Batch, ev: Event, post: Batch, act: Action)
    requires
        pre.wf(),
        Batch::step_spec(pre, ev, post, act),
    ensures
        post.shows@ == pre.shows@,
        post.reports@.len() >= pre.reports@.len(),
        post.reports@.subrange(0, pre.reports@.len() as int) == pre.reports@,
        post.current == pre.current || post.current == pre.current + 1,
        post.current == pre.current + 1 ==> Batch::opened(post, act),
{
    if post.current == pre.current + 1 {
        assert(post.reports@.subrange(0, pre.reports@.len() as int) =~= post.reports@.drop_last());
    } else {
        assert(post.reports@.subrange(0, pre.reports@.len() as int) =~= post.reports@);
    }
}

impl Batch {
    pub open spec fn wf(&self) -> bool {
        &&& self.current <= self.shows@.len()
        &&& self.reports@.len() == self.current
        &&& self.next <= self.tracks@.len()
        &&& self.saved + self.failed == self.next
        &&& self.stage == Stage::Saving ==> self.next < self.tracks@.len()
        &&& self.stage != Stage::Saving ==> self.next == 0
        &&& (self.stage == Stage::Searching || self.stage == Stage::Opening) ==> self.tracks@.len()
            == 0
    }

    pub open spec fn is_done(&self) -> bool {
        self.current >= self.shows@.len()
    }

    /// The name of the show now in progress.
    pub open spec fn show(&self) -> Seq<char> {
        self.shows@[self.current as int]@
    }

    /// `post` is `pre` with the same show still in progress.
    pub open spec fn same_show(pre: Batch, post: Batch) -> bool {
        &&& post.shows@ == pre.shows@
        &&& post.current == pre.current
        &&& post.reports@ == pre.reports@
    }

    /// `b` at the start of its current show, `act` the fetch that begins it; or
    /// `act` is `Done` where no show is left.
    pub open spec fn opened(b: Batch, act: Action) -> bool {
        if b.current < b.shows@.len() {
            &&& b.stage == Stage::Searching
            &&& b.tracks@.len() == 0
            &&& b.next == 0
            &&& b.saved == 0
            &&& b.failed == 0
            &&& act is Fetch
            &&& act->Fetch_0@ == search_url(b.show())
        } else {
            act is Done
        }
    }

    /// The current show of `pre` ended with `result`, its report was added, and the
    /// next show was opened.
    pub open spec fn finished(
        pre: Batch,
        post: Batch,
        act: Action,
        result: Result<(), ShowError>,
        saved: nat,
        failed: nat,
    ) -> bool {
        &&& post.shows@ == pre.shows@
        &&& post.current == pre.current + 1
        &&& post.reports@.len() == pre.reports@.len() + 1
        &&& post.reports@.drop_last() == pre.reports@
        &&& post.reports@.last().name@ == pre.show()
        &&& post.reports@.last().result == result
        &&& post.reports@.last().saved == saved
        &&& post.reports@.last().failed == failed
        &&& Batch::opened(post, act)
    }

    /// From track `k` on, with `saved` and `failed` so far: the next track with a
    /// usable name is saved, or the show ends once none is left.
    pub open spec fn proceeded(pre: Batch, post: Batch, act: Action, k: int, saved: nat, failed: nat) -> bool {
        let j = next_savable(pre.tracks@, k);
        if j < pre.tracks@.len() {
            &&& Batch::same_show(pre, post)
            &&& post.stage == Stage::Saving
            &&& post.tracks@ == pre.tracks@
            &&& post.next == j
            &&& post.saved == saved
            &&& post.failed == failed + (j - k)
            &&& act is SaveTrack
            &&& act->SaveTrack_0@ == pre.tracks@[j].url@
            &&& act->SaveTrack_1@ == file_path(
                pre.show(),
                pre.tracks@[j].position as nat,
                pre.tracks@[j].name@,
            )
        } else {
            Batch::finished(pre, post, act, Ok(()), saved, (failed + (j - k)) as nat)
        }
    }

    /// The decision a batch makes on one event.
    pub open spec fn step_spec(pre: Batch, ev: Event, post: Batch, act: Action) -> bool {
        if pre.current >= pre.shows@.len() {
            post == pre && act is Done
        } else {
            match pre.stage {
                Stage::Searching => match ev {
                    Event::Fetched(page) => {
                        let hit = first_link(search_hits(page@));
                        if hit is None {
                            Batch::finished(pre, post, act, Err(ShowError::NotFound), 0, 0)
                        } else {
                            &&& Batch::same_show(pre, post)
                            &&& post.stage == Stage::Opening
                            &&& post.tracks@.len() == 0
                            &&& post.next == 0 && post.saved == 0 && post.failed == 0
                            &&& act is Fetch
                            &&& act->Fetch_0@ == detail_url(hit->0)
                        }
                    },
                    _ => Batch::finished(pre, post, act, Err(ShowError::Network), 0, 0),
                },
                Stage::Opening => match ev {
                    Event::Fetched(page) => {
                        &&& Batch::same_show(pre, post)
                        &&& post.stage == Stage::MakingDir
                        &&& numbered(post.tracks@, track_scan(page@))
                        &&& post.next == 0 && post.saved == 0 && post.failed == 0
                        &&& act is CreateDir
                        &&& act->CreateDir_0@ == pre.show()
                    },
                    _ => Batch::finished(pre, post, act, Err(ShowError::Network), 0, 0),
                },
                Stage::MakingDir => match ev {
                    Event::DirCreated => Batch::proceeded(pre, post, act, 0, 0, 0),
                    _ => Batch::finished(pre, post, act, Err(ShowError::Directory), 0, 0),
                },
                Stage::Saving => match ev {
                    Event::TrackSaved => Batch::proceeded(
                        pre,
                        post,
                        act,
                        pre.next + 1,
                        (pre.saved + 1) as nat,
                        pre.failed as nat,
                    ),
                    _ => Batch::proceeded(
                        pre,
                        post,
                        act,
                        pre.next + 1,
                        pre.saved as nat,
                        (pre.failed + 1) as nat,
                    ),
                },
            }
        }
    }

    /// Opens the current show, or ends the batch where none is left.
    fn open(&mut self) -> (act: Action)
        requires
            old(self).current <= old(self).shows@.len(),
            old(self).reports@.len() == old(self).current,
        ensures
            final(self).wf(),
            Batch::opened(*final(self), act),
            final(self).shows@ == old(self).shows@,
            final(self).current == old(self).current,
            final(self).reports@ == old(self).reports@,
    {
        self.stage = Stage::Searching;
        self.tracks = Vec::new();
        self.next = 0;
        self.saved = 0;
        self.failed = 0;
        if self.current < self.shows.len() {
            Action::Fetch(search_page_url(self.shows[self.current].as_str()))
        } else {
            Action::Done
        }
    }

    /// Ends the current show with `result` and opens the next one.
    fn finish(&mut self, result: Result<(), ShowError>, saved: usize, failed: usize) -> (act: Action)
        requires
            old(self).current < old(self).shows@.len(),
            old(self).reports@.len() == old(self).current,
        ensures
            final(self).wf(),
            Batch::finished(*old(self), *final(self), act, result, saved as nat, failed as nat),
    {
        let name = self.shows[self.current].clone();
        self.reports.push(ShowReport { name, result, saved, failed });
        let count = self.shows.len();
        assert(self.current < count);
        self.current = self.current + 1;
        let act = self.open();
        assert(self.reports@.drop_last() =~= old(self).reports@);
        act
    }

    /// Moves on to the first track from `k` on with a usable name.
    fn proceed(&mut self, k: usize, saved: usize, failed: usize) -> (act: Action)
        requires
            old(self).current < old(self).shows@.len(),
            old(self).reports@.len() == old(self).current,
            k <= old(self).tracks@.len(),
            saved + failed == k,
        ensures
            final(self).wf(),
            Batch::proceeded(*old(self), *final(self), act, k as int, saved as nat, failed as nat),
    {
        let ghost pre = *self;
        let mut j: usize = k;
        while j < self.tracks.len() && sanitize_song_name(self.tracks[j].name.as_str()).unicode_len()
            == 0
            invariant
                k <= j <= self.tracks@.len(),
                *self == pre,
                next_savable(pre.tracks@, k as int) == next_savable(pre.tracks@, j as int),
            decreases self.tracks@.len() - j,
        {
            j = j + 1;
        }
        let skipped = j - k;
        if j < self.tracks.len() {
            let url = self.tracks[j].url.clone();
            let path = track_file_path(self.shows[self.current].as_str(), &self.tracks[j]);
            self.stage = Stage::Saving;
            self.next = j;
            self.saved = saved;
            self.failed = failed + skipped;
            Action::SaveTrack(url, path)
        } else {
            self.finish(Ok(()), saved, failed + skipped)
        }
    }

    /// A batch over `shows`, in order, and the first action it asks for.
    pub fn new(shows: Vec<String>) -> (r: (Batch, Action))
        ensures
            r.0.wf(),
            r.0.shows@ == shows@,
            r.0.current == 0,
            r.0.reports@.len() == 0,
            Batch::opened(r.0, r.1),
    {
        let mut b = Batch {
            shows,
            current: 0,
            stage: Stage::Searching,
            tracks: Vec::new(),
            next: 0,
            saved: 0,
            failed: 0,
            reports: Vec::new(),
        };
        let act = b.open();
        (b, act)
    }

    /// Takes what came of the last action and decides the next one.
    pub fn step(&mut self, ev: Event) -> (act: Action)
        requires
            old(self).wf(),
        ensures
            final(self).wf(),
            Batch::step_spec(*old(self), ev, *final(self), act),
    {
        if self.current >= self.shows.len() {
            return Action::Done;
        }
        match self.stage {
            Stage::Searching => match ev {
                Event::Fetched(page) => match resolve_detail_url(page.as_str()) {
                    Ok(url) => {
                        self.stage = Stage::Opening;
                        Action::Fetch(url)
                    },
                    Err(e) => self.finish(Err(e), 0, 0),
                },
                _ => self.finish(Err(ShowError::Network), 0, 0),
            },
            Stage::Opening => match ev {
                Event::Fetched(page) => {
                    self.tracks = extract_tracks(page.as_str());
                    self.stage = Stage::MakingDir;
                    Action::CreateDir(self.shows[self.current].clone())
                },
                _ => self.finish(Err(ShowError::Network), 0, 0),
            },
            Stage::MakingDir => match ev {
                Event::DirCreated => self.proceed(0, 0, 0),
                _ => self.finish(Err(ShowError::Directory), 0, 0),
            },
            Stage::Saving => {
                let count = self.tracks.len();
                assert(self.next < count);
                let k = self.next + 1;
                match ev {
                    Event::TrackSaved => self.proceed(k, self.saved + 1, self.failed),
                    _ => self.proceed(k, self.saved, self.failed + 1),
                }
            },
        }
    }
}

} // verus!
