//! One track of a video: the name its manifest suggests and its bytes.

use vstd::prelude::*;
use crate::downloader_error::DownloaderError;
use crate::pattern::{captures, group_names2, pattern_error, pattern_failure, regex_captures, Captured};
use crate::playlist::BASE_URL;
use crate::playlist::segments::SegmentSlots;
use crate::text::{
    copy_of, filled, free_of, join, lemma_stem_of_file, lines, lines_of, stem, stem_of,
};

verus! {

/// A line of a media manifest that names a segment: either the tag of the
/// initialization segment, anywhere in the line, with the segment's path as
/// `base_segment_url`, or a line that is a path from its `/` on, as
/// `segment_url`.
pub const SEGMENT_PATTERN: &'static str =
    r#"#EXT-X-MAP:URI="(?P<base_segment_url>[^"]*)"|^(?P<segment_url>\/.*)$"#;

/// What `SEGMENT_PATTERN` found in one line.
pub struct SegmentMatch {
    pub base_segment_url: Option<String>,
    pub segment_url: Option<String>,
}

/// What a `SegmentMatch` holds.
pub struct SegmentMatchView {
    pub base_segment_url: Option<Seq<char>>,
    pub segment_url: Option<Seq<char>>,
}

impl View for SegmentMatch {
    type V = SegmentMatchView;

    open spec fn view(&self) -> SegmentMatchView {
        SegmentMatchView {
            base_segment_url: self.base_segment_url.deep_view(),
            segment_url: self.segment_url.deep_view(),
        }
    }
}

impl DeepView for SegmentMatch {
    type V = SegmentMatchView;

    open spec fn deep_view(&self) -> SegmentMatchView {
        self@
    }
}

/// The segments of one track, in playback order, and the name that the
/// manifest suggests for the track.
pub struct SegmentList {
    pub name: String,
    pub urls: Vec<String>,
}

/// What a `SegmentList` holds.
pub struct SegmentListView {
    pub name: Seq<char>,
    pub urls: Seq<Seq<char>>,
}

impl View for SegmentList {
    type V = SegmentListView;

    open spec fn view(&self) -> SegmentListView {
        SegmentListView { name: self.name@, urls: self.urls.deep_view() }
    }
}

/// The path of the initialization segment that a line names: what its tag
/// gives as `base_segment_url`, unless that is empty.
pub open spec fn init_path_of(found: SegmentMatchView) -> Option<Seq<char>> {
    match found.base_segment_url {
        Some(path) => if path.len() > 0 {
            Some(path)
        } else {
            None
        },
        None => None,
    }
}

/// Where the segment that a line names is fetched from: the path of the
/// initialization segment, or else the path that the line is, under
/// `BASE_URL`.
pub open spec fn segment_url_of(found: SegmentMatchView) -> Option<Seq<char>> {
    match init_path_of(found) {
        Some(path) => Some(BASE_URL@ + path),
        None => match found.segment_url {
            Some(path) => if path.len() > 0 {
                Some(BASE_URL@ + path)
            } else {
                None
            },
            None => None,
        },
    }
}

/// The name that the lines suggest for the track: the stem of the path of the
/// last initialization segment, or nothing where there is none.
pub open spec fn suggested_name_of(found: Seq<SegmentMatchView>) -> Seq<char>
    decreases found.len(),
{
    if found.len() == 0 {
        Seq::empty()
    } else {
        match init_path_of(found.last()) {
            Some(path) => stem_of(path),
            None => suggested_name_of(found.drop_last()),
        }
    }
}

/// The segment list that the matching lines of a manifest stand for.
pub open spec fn segment_list_of(found: Seq<SegmentMatchView>) -> SegmentListView {
    SegmentListView {
        name: suggested_name_of(found),
        urls: found.filter_map(|line: SegmentMatchView| segment_url_of(line)),
    }
}

/// The names of the groups of `SEGMENT_PATTERN`.
pub open spec fn segment_groups() -> Seq<Seq<char>> {
    seq!["base_segment_url"@, "segment_url"@]
}

/// The lines of a manifest that hold anything.
pub open spec fn content_lines(text: Seq<char>) -> Seq<Seq<char>> {
    lines_of(text).filter(|line: Seq<char>| line.len() > 0)
}

/// What a match of `SEGMENT_PATTERN` stands for.
pub open spec fn segment_match_of(row: Captured) -> SegmentMatchView {
    SegmentMatchView { base_segment_url: row[0], segment_url: row[1] }
}

/// What `SEGMENT_PATTERN` finds in the lines, each searched by itself, in
/// their order: one entry for each line with a match. `None` where the
/// pattern is refused.
pub open spec fn matches_of(lines: Seq<Seq<char>>) -> Option<Seq<SegmentMatchView>>
    decreases lines.len(),
{
    if lines.len() == 0 {
        Some(Seq::empty())
    } else {
        match (
            matches_of(lines.drop_last()),
            regex_captures(SEGMENT_PATTERN@, lines.last(), segment_groups()),
        ) {
            (Some(found), Some(Some(row))) => Some(found.push(segment_match_of(row))),
            (Some(found), Some(None)) => Some(found),
            _ => None,
        }
    }
}

/// Whether `outcome` is what the text of a media manifest lists.
pub open spec fn manifest_lists(outcome: Result<SegmentList, DownloaderError>, text: Seq<char>) -> bool {
    match matches_of(content_lines(text)) {
        Some(found) => outcome matches Ok(list) && list@ == segment_list_of(found),
        None => outcome matches Err(error) && error@ == pattern_failure(),
    }
}

/// Naming: a track whose last line with a match is the initialization
/// segment at `directory`, `/`, `name`, `.` and `extension` is named `name`,
/// without directory and extension.
pub proof fn lemma_init_segment_names_the_track(
    found: Seq<SegmentMatchView>,
    directory: Seq<char>,
    name: Seq<char>,
    extension: Seq<char>,
)
    requires
        found.len() > 0,
        found.last().base_segment_url == Some(directory + seq!['/'] + name + seq!['.'] + extension),
        free_of(name, '/'),
        free_of(name, '.'),
        free_of(extension, '/'),
    ensures
        segment_list_of(found).name == name,
{
    lemma_stem_of_file(directory, name, extension);
}

impl SegmentList {
    /// The segment list that the matching lines of a manifest stand for.
    ///
    /// Each line that names a segment adds it to the list, in the order of the
    /// lines; its location is the path under `BASE_URL`. The path of an
    /// initialization segment also gives the track its name.
    pub fn from_matches(found: &Vec<SegmentMatch>) -> (list: SegmentList)
        ensures
            list@ == segment_list_of(found.deep_view()),
    {
        let ghost located = |line: SegmentMatchView| segment_url_of(line);
        let mut name = String::new();
        let mut urls: Vec<String> = Vec::new();
        let mut at: usize = 0;
        assert(found.deep_view().take(0).filter_map(located).len() == 0);
        assert(urls.deep_view() =~= found.deep_view().take(0).filter_map(located));
        while at < found.len()
            invariant
                at <= found.len(),
                located == |line: SegmentMatchView| segment_url_of(line),
                name@ == suggested_name_of(found.deep_view().take(at as int)),
                urls.deep_view() == found.deep_view().take(at as int).filter_map(located),
            decreases found.len() - at,
        {
            let ghost before = urls.deep_view();
            proof {
                found.deep_view().lemma_filter_map_take_succ(located, at as int);
                let upto = found.deep_view().take(at + 1);
                assert(upto.last() == found[at as int]@);
                assert(upto.drop_last() == found.deep_view().take(at as int));
            }
            let line = &found[at];
            match (filled(&line.base_segment_url), filled(&line.segment_url)) {
                (Some(path), _) => {
                    name = stem(path.as_str());
                    urls.push(join(BASE_URL, path.as_str()));
                    assert(urls.deep_view() =~= before + seq![BASE_URL@ + path@]);
                },
                (None, Some(path)) => {
                    urls.push(join(BASE_URL, path.as_str()));
                    assert(urls.deep_view() =~= before + seq![BASE_URL@ + path@]);
                },
                (None, None) => {},
            }
            at += 1;
        }
        assert(found.deep_view().take(at as int) == found.deep_view());
        SegmentList { name, urls }
    }

    /// Reads the segment list off the text of a media manifest.
    ///
    /// The text is taken line by line, empty lines left out, and each line is
    /// searched with `SEGMENT_PATTERN`. The lines with a match make the list,
    /// as `from_matches` says; the others are passed over.
    pub fn from_manifest(text: &str) -> (outcome: Result<SegmentList, DownloaderError>)
        ensures
            manifest_lists(outcome, text@),
    {
        let ghost holds = |line: Seq<char>| line.len() > 0;
        let all = lines(text);
        let names = group_names2("base_segment_url", "segment_url");
        let mut found: Vec<SegmentMatch> = Vec::new();
        let mut at: usize = 0;
        assert(all.deep_view().take(0).filter(holds).len() == 0);
        while at < all.len()
            invariant
                at <= all.len(),
                holds == |line: Seq<char>| line.len() > 0,
                all.deep_view() == lines_of(text@),
                names.deep_view() == segment_groups(),
                names.len() == 2,
                matches_of(all.deep_view().take(at as int).filter(holds)) == Some(found.deep_view()),
            decreases all.len() - at,
        {
            let ghost before = found.deep_view();
            let ghost seen = all.deep_view().take(at as int);
            let line = &all[at];
            proof {
                assert(all.deep_view().take(at + 1) == seen.push(line@));
                seen.lemma_filter_push(line@, holds);
            }
            if line.as_str().unicode_len() > 0 {
                let ghost searched = seen.filter(holds).push(line@);
                assert(searched.last() == line@);
                assert(searched.drop_last() == seen.filter(holds));
                match captures(SEGMENT_PATTERN, line.as_str(), &names) {
                    Some(Some(row)) => {
                        assert(row.deep_view()[0] == row[0].deep_view());
                        assert(row.deep_view()[1] == row[1].deep_view());
                        found.push(
                            SegmentMatch {
                                base_segment_url: copy_of(&row[0]),
                                segment_url: copy_of(&row[1]),
                            },
                        );
                        assert(found.deep_view() =~= before.push(segment_match_of(row.deep_view())));
                    },
                    Some(None) => {},
                    None => {
                        proof {
                            lemma_filter_take(all.deep_view(), holds, at as int);
                            assert(matches_of(searched) is None);
                            lemma_refused_once_refused_for_all(
                                all.deep_view().filter(holds),
                                seen.filter(holds).len() as int,
                            );
                        }
                        return Err(pattern_error());
                    },
                }
            }
            at += 1;
        }
        assert(all.deep_view().take(at as int) == all.deep_view());
        Ok(SegmentList::from_matches(&found))
    }
}

/// What is kept of the beginning of a sequence is the beginning of what is
/// kept of all of it.
proof fn lemma_filter_take(lines: Seq<Seq<char>>, holds: spec_fn(Seq<char>) -> bool, at: int)
    requires
        0 <= at < lines.len(),
        holds(lines[at]),
    ensures
        lines.take(at).filter(holds).len() < lines.filter(holds).len(),
        lines.filter(holds).take(lines.take(at).filter(holds).len() as int + 1) == lines.take(
            at,
        ).filter(holds).push(lines[at]),
{
    let head = lines.take(at).push(lines[at]);
    let tail = lines.skip(at + 1);
    assert(lines == head + tail);
    Seq::filter_distributes_over_add(head, tail, holds);
    lines.take(at).lemma_filter_push(lines[at], holds);
}

/// Where the pattern is refused for one line, no list is made of the lines.
proof fn lemma_refused_once_refused_for_all(lines: Seq<Seq<char>>, at: int)
    requires
        0 <= at < lines.len(),
        matches_of(lines.take(at + 1)) is None,
    ensures
        matches_of(lines) is None,
    decreases lines.len(),
{
    if at + 1 < lines.len() {
        assert(lines.drop_last().take(at + 1) == lines.take(at + 1));
        lemma_refused_once_refused_for_all(lines.drop_last(), at);
    } else {
        assert(lines.take(at + 1) == lines);
    }
}

/// A resolved media manifest.
pub struct MediaPlaylist {
    /// The name suggested by the manifest; empty where it suggests none.
    pub name: String,
    byte_data: Vec<u8>,
}

/// What a `MediaPlaylist` holds.
pub struct MediaPlaylistView {
    pub name: Seq<char>,
    pub byte_data: Seq<u8>,
}

impl View for MediaPlaylist {
    type V = MediaPlaylistView;

    closed spec fn view(&self) -> MediaPlaylistView {
        MediaPlaylistView { name: self.name@, byte_data: self.byte_data@ }
    }
}

impl DeepView for MediaPlaylist {
    type V = MediaPlaylistView;

    open spec fn deep_view(&self) -> MediaPlaylistView {
        self@
    }
}

impl MediaPlaylist {
    /// A track with the given name and content.
    pub fn new(name: String, byte_data: Vec<u8>) -> (playlist: MediaPlaylist)
        ensures
            playlist@ == (MediaPlaylistView { name: name@, byte_data: byte_data@ }),
    {
        MediaPlaylist { name, byte_data }
    }

    /// The track that is made of the given segments: its bytes are the
    /// contents of the slots, in the order of the slots.
    pub fn from_slots(name: String, slots: &SegmentSlots) -> (playlist: MediaPlaylist)
        ensures
            playlist@ == (MediaPlaylistView { name: name@, byte_data: slots@.flatten() }),
    {
        MediaPlaylist { name, byte_data: slots.assemble() }
    }

    /// The bytes of the track, in playback order.
    pub fn get_byte_data(&self) -> (bytes: &Vec<u8>)
        ensures
            bytes@ == self@.byte_data,
    {
        &self.byte_data
    }

    /// The name that the manifest suggests for the track.
    pub fn name(&self) -> (name: &String)
        ensures
            name@ == self@.name,
    {
        &self.name
    }
}

} // verus!
