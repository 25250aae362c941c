//! The top-level manifest: the qualities a video is offered in, best first.

use vstd::prelude::*;
use vstd::hash_map::StringHashMap;
use crate::downloader_error::{DownloaderError, DownloaderErrorView};
use crate::pattern::{
    captures, group_names2, group_names3, pattern_error, pattern_failure, regex_captures,
    Captured,
};
use crate::playlist::BASE_URL;
use crate::playlist::master_playlist::{MasterPlaylist, MasterPlaylistView};
use crate::text::{
    chars_of, copy_of, find_char, first_index_of, join, lines, lines_of, parse_decimal,
    parse_unsigned,
};

verus! {

/// An audio line: it declares the group `audio_tag`, whose media manifest is
/// found at `audio_url`.
pub const AUDIO_PATTERN: &'static str =
    r#"^#EXT-X-MEDIA:NAME="Audio".*GROUP-ID="(?P<audio_tag>audio-\d*)".*URI="(?P<audio_url>[^"]*)""#;

/// A variant line: one that carries a resolution, as `video_resolution`. The
/// audio group that it may name is found before the resolution, as
/// `audio_before`, or behind it, as `audio_after`.
pub const STREAM_PATTERN: &'static str =
    r#"^#EXT-X-STREAM-INF(?:.*AUDIO="(?P<audio_before>audio-\d*)")?.*RESOLUTION=(?P<video_resolution>\d*x\d*)(?:.*AUDIO="(?P<audio_after>audio-\d*)")?"#;

/// An audio line of a top-level manifest: the group it declares and where the
/// group's media manifest is found.
pub struct AudioDeclaration {
    pub group_id: String,
    pub url: String,
}

/// What an `AudioDeclaration` holds.
pub struct AudioDeclarationView {
    pub group_id: Seq<char>,
    pub url: Seq<char>,
}

impl View for AudioDeclaration {
    type V = AudioDeclarationView;

    open spec fn view(&self) -> AudioDeclarationView {
        AudioDeclarationView { group_id: self.group_id@, url: self.url@ }
    }
}

impl DeepView for AudioDeclaration {
    type V = AudioDeclarationView;

    open spec fn deep_view(&self) -> AudioDeclarationView {
        self@
    }
}

/// A variant line of a top-level manifest together with the line after it:
/// the resolution, the path of the video manifest and the audio group that
/// the variant refers to, each as far as the manifest gives it.
pub struct StreamDeclaration {
    pub resolution: Option<String>,
    pub url: Option<String>,
    pub audio_group: Option<String>,
}

/// What a `StreamDeclaration` holds.
pub struct StreamDeclarationView {
    pub resolution: Option<Seq<char>>,
    pub url: Option<Seq<char>>,
    pub audio_group: Option<Seq<char>>,
}

impl View for StreamDeclaration {
    type V = StreamDeclarationView;

    open spec fn view(&self) -> StreamDeclarationView {
        StreamDeclarationView {
            resolution: self.resolution.deep_view(),
            url: self.url.deep_view(),
            audio_group: self.audio_group.deep_view(),
        }
    }
}

impl DeepView for StreamDeclaration {
    type V = StreamDeclarationView;

    open spec fn deep_view(&self) -> StreamDeclarationView {
        self@
    }
}

/// Width and height that `resolution` writes: two decimal numbers that fit in
/// 32 bits, with one `x` between them.
pub open spec fn resolution_of(resolution: Seq<char>) -> Option<(nat, nat)> {
    let split = first_index_of(resolution, 'x');
    if split < resolution.len() {
        match (
            parse_decimal(resolution.take(split as int), u32::MAX as nat),
            parse_decimal(resolution.skip(split as int + 1), u32::MAX as nat),
        ) {
            (Some(width), Some(height)) => Some((width, height)),
            _ => None,
        }
    } else {
        None
    }
}

/// The number of pixels of `resolution`, by which variants are ordered.
pub open spec fn area_of(resolution: Seq<char>) -> nat {
    match resolution_of(resolution) {
        Some((width, height)) => width * height,
        None => 0,
    }
}

/// The audio groups that the audio lines declare, each with the path of its
/// media manifest. A line without a path declares nothing, and of several
/// lines that declare one group the last counts.
pub open spec fn audio_map_of(audio: Seq<AudioDeclarationView>) -> Map<Seq<char>, Seq<char>>
    decreases audio.len(),
{
    if audio.len() == 0 {
        Map::empty()
    } else if audio.last().url.len() > 0 {
        audio_map_of(audio.drop_last()).insert(audio.last().group_id, audio.last().url)
    } else {
        audio_map_of(audio.drop_last())
    }
}

/// The audio manifest of a variant that refers to `group`: that of the group
/// where the variant names one and the group is declared, none otherwise.
pub open spec fn audio_url_of(audio: Seq<AudioDeclarationView>, group: Option<Seq<char>>) -> Option<
    Seq<char>,
> {
    match group {
        Some(group) => if audio_map_of(audio).contains_key(group) {
            Some(BASE_URL@ + audio_map_of(audio)[group])
        } else {
            None
        },
        None => None,
    }
}

/// The variant that `stream` declares, or `None` where it lacks a readable
/// resolution or the path of its video manifest. The variant has audio
/// where it names a declared group, and is video only where it does not.
pub open spec fn variant_of(
    audio: Seq<AudioDeclarationView>,
    stream: StreamDeclarationView,
) -> Option<MasterPlaylistView> {
    match (stream.resolution, stream.url) {
        (Some(resolution), Some(url)) => if resolution_of(resolution) is Some && url.len() > 0 {
            Some(
                MasterPlaylistView {
                    resolution,
                    video_media_playlist: None,
                    audio_media_playlist: None,
                    video_media_url: BASE_URL@ + url,
                    audio_media_url: audio_url_of(audio, stream.audio_group),
                },
            )
        } else {
            None
        },
        _ => None,
    }
}

/// The variants that `streams` declare, in the order of the manifest.
pub open spec fn survivors(
    audio: Seq<AudioDeclarationView>,
    streams: Seq<StreamDeclarationView>,
) -> Seq<MasterPlaylistView> {
    streams.filter_map(|stream: StreamDeclarationView| variant_of(audio, stream))
}

/// Whether the variants stand in the order of their areas, largest first.
pub open spec fn sorted_by_area(variants: Seq<MasterPlaylistView>) -> bool {
    forall|i: int, j: int|
        0 <= i <= j < variants.len() ==> area_of(#[trigger] variants[i].resolution) >= area_of(
            #[trigger] variants[j].resolution,
        )
}

/// The variants of the given area, in the order in which they stand.
pub open spec fn with_area(variants: Seq<MasterPlaylistView>, area: nat) -> Seq<
    MasterPlaylistView,
> {
    variants.filter(|v: MasterPlaylistView| area_of(v.resolution) == area)
}

/// Whether `got` is `want` sorted by area, largest first, with variants of
/// equal area left in the order they had.
pub open spec fn is_sorted_form_of(
    got: Seq<MasterPlaylistView>,
    want: Seq<MasterPlaylistView>,
) -> bool {
    &&& sorted_by_area(got)
    &&& got.to_multiset() == want.to_multiset()
    &&& forall|area: nat| #[trigger] with_area(got, area) == with_area(want, area)
}

/// Reads width and height off a resolution.
pub fn parse_resolution(resolution: &str) -> (size: Option<(u32, u32)>)
    ensures
        size.is_some() == resolution_of(resolution@).is_some(),
        size matches Some((width, height)) ==> resolution_of(resolution@) == Some(
            (width as nat, height as nat),
        ),
{
    let chars = chars_of(resolution);
    let split = find_char(&chars, 'x', 0);
    assert(chars@.skip(0) == chars@);
    if split >= chars.len() {
        return None;
    }
    assert(chars@.subrange(0, split as int) == chars@.take(split as int));
    assert(chars@.subrange(split + 1, chars.len() as int) == chars@.skip(split + 1));
    let width = parse_unsigned(&chars, 0, split, 0xffff_ffff);
    let height = parse_unsigned(&chars, split + 1, chars.len(), 0xffff_ffff);
    match (width, height) {
        (Some(width), Some(height)) => Some((width as u32, height as u32)),
        _ => None,
    }
}

/// Putting a variant behind those that are at least as large, before the
/// smaller ones, keeps a sorted form sorted.
pub proof fn lemma_insert_keeps_sorted_form(
    got: Seq<MasterPlaylistView>,
    want: Seq<MasterPlaylistView>,
    variant: MasterPlaylistView,
    at: int,
)
    requires
        is_sorted_form_of(got, want),
        0 <= at <= got.len(),
        forall|j: int| 0 <= j < at ==> area_of(#[trigger] got[j].resolution) >= area_of(variant.resolution),
        forall|j: int|
            at <= j < got.len() ==> area_of(#[trigger] got[j].resolution) < area_of(
                variant.resolution,
            ),
    ensures
        is_sorted_form_of(got.insert(at, variant), want.push(variant)),
{
    let next = got.insert(at, variant);
    assert(sorted_by_area(next)) by {
        assert forall|i: int, j: int| 0 <= i <= j < next.len() implies area_of(
            #[trigger] next[i].resolution,
        ) >= area_of(#[trigger] next[j].resolution) by {
            let a = if i < at { got[i] } else if i == at { variant } else { got[i - 1] };
            let b = if j < at { got[j] } else if j == at { variant } else { got[j - 1] };
            assert(next[i] == a);
            assert(next[j] == b);
        }
    }
    assert(next.to_multiset() == want.push(variant).to_multiset()) by {
        vstd::seq_lib::to_multiset_remove(next, at);
        vstd::seq_lib::to_multiset_build(want, variant);
        assert(next.remove(at) == got);
        assert(next.to_multiset().count(variant) > 0) by {
            assert(next[at] == variant);
            next.to_multiset_ensures();
            assert(next.contains(variant));
        }
        assert(next.to_multiset() =~= got.to_multiset().insert(variant));
    }
    assert forall|area: nat| #[trigger] with_area(next, area) == with_area(
        want.push(variant),
        area,
    ) by {
        let keep = |v: MasterPlaylistView| area_of(v.resolution) == area;
        let before = got.take(at);
        let after = got.skip(at);
        assert(got == before + after);
        assert(next == before.push(variant) + after);
        Seq::filter_distributes_over_add(before, after, keep);
        Seq::filter_distributes_over_add(before.push(variant), after, keep);
        before.lemma_filter_push(variant, keep);
        want.lemma_filter_push(variant, keep);
        assert(with_area(got, area) == with_area(want, area));
        if area == area_of(variant.resolution) {
            assert(after.filter(keep).len() == 0) by {
                if after.filter(keep).len() > 0 {
                    let v = after.filter(keep)[0];
                    after.lemma_filter_pred(keep, 0);
                    after.lemma_filter_contains_rev(keep, v);
                    let k = choose|k: int| 0 <= k < after.len() && after[k] == v;
                    assert(after[k] == got[at + k]);
                }
            }
            assert(after.filter(keep) == Seq::<MasterPlaylistView>::empty());
            assert(before.filter(keep) + after.filter(keep) == before.filter(keep));
            assert(before.filter(keep).push(variant) + after.filter(keep) == before.filter(
                keep,
            ).push(variant));
        }
    }
}

/// The sorted form is one: two sequences that are both the sorted form of a
/// third are the same sequence.
pub proof fn lemma_sorted_form_is_unique(
    first: Seq<MasterPlaylistView>,
    second: Seq<MasterPlaylistView>,
    want: Seq<MasterPlaylistView>,
)
    requires
        is_sorted_form_of(first, want),
        is_sorted_form_of(second, want),
    ensures
        first == second,
    decreases first.len(),
{
    first.to_multiset_ensures();
    second.to_multiset_ensures();
    assert(first.len() == second.len());
    if first.len() > 0 {
        let a = first[0];
        let b = second[0];
        let area = area_of(a.resolution);
        let keep = |v: MasterPlaylistView| area_of(v.resolution) == area;
        assert(area_of(b.resolution) == area) by {
            assert(first.contains(a));
            assert(first.to_multiset().count(a) > 0);
            assert(second.contains(a));
            let j = choose|j: int| 0 <= j < second.len() && second[j] == a;
            assert(area_of(second[0].resolution) >= area_of(second[j].resolution));
            assert(second.contains(b));
            assert(second.to_multiset().count(b) > 0);
            assert(first.contains(b));
            let i = choose|i: int| 0 <= i < first.len() && first[i] == b;
            assert(area_of(first[0].resolution) >= area_of(first[i].resolution));
        }
        let first_rest = first.drop_first();
        let second_rest = second.drop_first();
        assert(first == seq![a] + first_rest);
        assert(second == seq![b] + second_rest);
        first_rest.lemma_filter_prepend(a, keep);
        second_rest.lemma_filter_prepend(b, keep);
        assert(with_area(first, area) == with_area(second, area));
        assert(a == b) by {
            assert(with_area(first, area)[0] == a);
            assert(with_area(second, area)[0] == b);
        }
        assert(is_sorted_form_of(first_rest, second_rest)) by {
            assert forall|i: int, j: int| 0 <= i <= j < first_rest.len() implies area_of(
                #[trigger] first_rest[i].resolution,
            ) >= area_of(#[trigger] first_rest[j].resolution) by {
                assert(first_rest[i] == first[i + 1]);
                assert(first_rest[j] == first[j + 1]);
            }
            assert(first_rest.to_multiset() == second_rest.to_multiset()) by {
                vstd::seq_lib::to_multiset_remove(first, 0);
                vstd::seq_lib::to_multiset_remove(second, 0);
                assert(first.remove(0) == first_rest);
                assert(second.remove(0) == second_rest);
            }
            assert forall|other: nat| #[trigger]
                with_area(first_rest, other) == with_area(second_rest, other) by {
                let kept = |v: MasterPlaylistView| area_of(v.resolution) == other;
                first_rest.lemma_filter_prepend(a, kept);
                second_rest.lemma_filter_prepend(b, kept);
                assert(with_area(first, other) == with_area(second, other));
                if other == area {
                    assert(with_area(first_rest, other) == with_area(first, other).drop_first());
                    assert(with_area(second_rest, other) == with_area(second, other).drop_first());
                } else {
                    assert(Seq::<MasterPlaylistView>::empty() + first_rest.filter(kept)
                        == first_rest.filter(kept));
                    assert(Seq::<MasterPlaylistView>::empty() + second_rest.filter(kept)
                        == second_rest.filter(kept));
                }
            }
        }
        assert(is_sorted_form_of(second_rest, second_rest)) by {
            assert forall|i: int, j: int| 0 <= i <= j < second_rest.len() implies area_of(
                #[trigger] second_rest[i].resolution,
            ) >= area_of(#[trigger] second_rest[j].resolution) by {
                assert(second_rest[i] == second[i + 1]);
                assert(second_rest[j] == second[j + 1]);
            }
        }
        lemma_sorted_form_is_unique(first_rest, second_rest, second_rest);
    } else {
        assert(first =~= second);
    }
}

/// Audio grouping: a variant that names a declared group has the audio
/// manifest that the last declaration of the group gives, under `BASE_URL`.
pub proof fn lemma_declared_group_has_its_audio(audio: Seq<AudioDeclarationView>, at: int)
    requires
        0 <= at < audio.len(),
        audio[at].url.len() > 0,
        forall|later: int|
            at < later < audio.len() && (#[trigger] audio[later]).url.len() > 0
                ==> audio[later].group_id != audio[at].group_id,
    ensures
        audio_url_of(audio, Some(audio[at].group_id)) == Some(BASE_URL@ + audio[at].url),
    decreases audio.len(),
{
    assert(audio.last() == audio[audio.len() - 1]);
    if at < audio.len() - 1 {
        let earlier = audio.drop_last();
        assert(earlier[at] == audio[at]);
        assert forall|later: int|
            at < later < earlier.len() && (#[trigger] earlier[later]).url.len()
                > 0 implies earlier[later].group_id != earlier[at].group_id by {
            assert(earlier[later] == audio[later]);
        }
        lemma_declared_group_has_its_audio(earlier, at);
    }
}

/// Audio grouping: a variant that names a group which no line declares has
/// no audio, and neither has a variant that names no group.
pub proof fn lemma_unknown_group_has_no_audio(audio: Seq<AudioDeclarationView>, group: Seq<char>)
    requires
        forall|at: int| 0 <= at < audio.len() ==> (#[trigger] audio[at]).group_id != group,
    ensures
        !audio_map_of(audio).contains_key(group),
        audio_url_of(audio, Some(group)) is None,
        audio_url_of(audio, None) is None,
    decreases audio.len(),
{
    if audio.len() > 0 {
        let earlier = audio.drop_last();
        assert(audio.last() == audio[audio.len() - 1]);
        assert forall|at: int| 0 <= at < earlier.len() implies (#[trigger] earlier[at]).group_id
            != group by {
            assert(earlier[at] == audio[at]);
        }
        lemma_unknown_group_has_no_audio(earlier, group);
    }
}

/// A variant line that names no audio group declares a variant all the
/// same, whatever audio is declared: one without audio.
pub proof fn lemma_variant_without_group_is_video_only(
    audio: Seq<AudioDeclarationView>,
    resolution: Seq<char>,
    url: Seq<char>,
)
    requires
        resolution_of(resolution) is Some,
        url.len() > 0,
    ensures
        variant_of(
            audio,
            StreamDeclarationView { resolution: Some(resolution), url: Some(url), audio_group: None },
        ) == Some(
            MasterPlaylistView {
                resolution,
                video_media_playlist: None,
                audio_media_playlist: None,
                video_media_url: BASE_URL@ + url,
                audio_media_url: None,
            },
        ),
{
}

/// A declaration whose path holds nothing declares no variant.
pub proof fn lemma_empty_path_declares_nothing(
    audio: Seq<AudioDeclarationView>,
    stream: StreamDeclarationView,
)
    requires
        stream.url matches Some(url) ==> url.len() == 0,
    ensures
        variant_of(audio, stream) is None,
{
}

/// The place of a new area among `areas`, which stand largest first: behind
/// all that are at least as large.
fn insertion_point(areas: &Vec<u64>, area: u64) -> (at: usize)
    requires
        forall|i: int, j: int| 0 <= i <= j < areas.len() ==> areas[i] >= areas[j],
    ensures
        at <= areas.len(),
        forall|j: int| 0 <= j < at ==> areas[j] >= area,
        forall|j: int| at <= j < areas.len() ==> areas[j] < area,
{
    let mut at: usize = 0;
    while at < areas.len() && areas[at] >= area
        invariant
            at <= areas.len(),
            forall|j: int| 0 <= j < at ==> areas[j] >= area,
        decreases areas.len() - at,
    {
        at += 1;
    }
    at
}

/// Whether a map holds the groups of `declared`, each with its path.
pub open spec fn holds_groups(
    map: Map<Seq<char>, String>,
    declared: Map<Seq<char>, Seq<char>>,
) -> bool {
    &&& map.dom() == declared.dom()
    &&& forall|group: Seq<char>| #[trigger]
        map.contains_key(group) ==> map[group]@ == declared[group]
}

/// Collects the declared audio groups into a map.
fn audio_map(audio: &Vec<AudioDeclaration>) -> (map: StringHashMap<String>)
    ensures
        holds_groups(map@, audio_map_of(audio.deep_view())),
{
    let mut map: StringHashMap<String> = StringHashMap::new();
    let mut at: usize = 0;
    assert(audio.deep_view().take(0).len() == 0);
    assert(map@.dom() =~= audio_map_of(audio.deep_view().take(0)).dom());
    while at < audio.len()
        invariant
            at <= audio.len(),
            holds_groups(map@, audio_map_of(audio.deep_view().take(at as int))),
        decreases audio.len() - at,
    {
        let ghost upto = audio.deep_view().take(at + 1);
        assert(upto.last() == audio[at as int]@);
        assert(upto.drop_last() == audio.deep_view().take(at as int));
        let declaration = &audio[at];
        if declaration.url.as_str().unicode_len() > 0 {
            map.insert(declaration.group_id.clone(), declaration.url.clone());
            assert(map@.dom() =~= audio_map_of(upto).dom());
        }
        at += 1;
    }
    assert(audio.deep_view().take(at as int) == audio.deep_view());
    map
}

/// The names of the groups of `AUDIO_PATTERN`.
pub open spec fn audio_groups() -> Seq<Seq<char>> {
    seq!["audio_tag"@, "audio_url"@]
}

/// The names of the groups of `STREAM_PATTERN`.
pub open spec fn stream_groups() -> Seq<Seq<char>> {
    seq!["video_resolution"@, "audio_before"@, "audio_after"@]
}

/// The declaration that a match of `AUDIO_PATTERN` in a line stands for,
/// where both of its groups matched.
pub open spec fn audio_declaration_of(row: Captured) -> Option<AudioDeclarationView> {
    match (row[0], row[1]) {
        (Some(group_id), Some(url)) => Some(AudioDeclarationView { group_id, url }),
        _ => None,
    }
}

/// The declaration that a match of `STREAM_PATTERN` in the line at `at`
/// stands for. The path of the video manifest is the line that follows
/// immediately, if there is one.
pub open spec fn stream_declaration_at(
    lines: Seq<Seq<char>>,
    at: int,
    row: Captured,
) -> StreamDeclarationView {
    StreamDeclarationView {
        resolution: row[0],
        url: if at + 1 < lines.len() {
            Some(lines[at + 1])
        } else {
            None
        },
        audio_group: match row[1] {
            Some(group) => Some(group),
            None => row[2],
        },
    }
}

/// What the first `upto` lines declare as audio, in their order: each line is
/// searched by itself with `AUDIO_PATTERN`. `None` where the pattern is
/// refused.
pub open spec fn audio_lines_of(lines: Seq<Seq<char>>, upto: nat) -> Option<
    Seq<AudioDeclarationView>,
>
    decreases upto,
{
    if upto == 0 {
        Some(Seq::empty())
    } else {
        match (
            audio_lines_of(lines, (upto - 1) as nat),
            regex_captures(AUDIO_PATTERN@, lines[upto - 1], audio_groups()),
        ) {
            (Some(found), Some(Some(row))) => match audio_declaration_of(row) {
                Some(declaration) => Some(found.push(declaration)),
                None => Some(found),
            },
            (Some(found), Some(None)) => Some(found),
            _ => None,
        }
    }
}

/// What the first `upto` lines declare as variants, in their order: each line
/// is searched by itself with `STREAM_PATTERN`, and a line with a match
/// declares a variant together with the line after it. `None` where the
/// pattern is refused.
pub open spec fn stream_lines_of(lines: Seq<Seq<char>>, upto: nat) -> Option<
    Seq<StreamDeclarationView>,
>
    decreases upto,
{
    if upto == 0 {
        Some(Seq::empty())
    } else {
        match (
            stream_lines_of(lines, (upto - 1) as nat),
            regex_captures(STREAM_PATTERN@, lines[upto - 1], stream_groups()),
        ) {
            (Some(found), Some(Some(row))) => Some(
                found.push(stream_declaration_at(lines, upto - 1, row)),
            ),
            (Some(found), Some(None)) => Some(found),
            _ => None,
        }
    }
}

/// Whether `outcome` is what the text of a top-level manifest resolves to:
/// what its lines declare as audio and as variants, resolved as `resolves_to`
/// says. Every variant line counts, whether or not audio is declared and
/// whether or not the line names a group.
pub open spec fn manifest_resolves_to(
    outcome: Result<VariantPlaylist, DownloaderError>,
    text: Seq<char>,
) -> bool {
    let lines = lines_of(text);
    match (audio_lines_of(lines, lines.len()), stream_lines_of(lines, lines.len())) {
        (Some(audio), Some(streams)) => resolves_to(outcome, audio, streams),
        _ => outcome matches Err(error) && error@ == pattern_failure(),
    }
}

/// A manifest without a variant line is refused with `NoMasterPlaylistError`.
pub proof fn lemma_manifest_without_variants_is_refused(
    outcome: Result<VariantPlaylist, DownloaderError>,
    text: Seq<char>,
)
    requires
        manifest_resolves_to(outcome, text),
        audio_lines_of(lines_of(text), lines_of(text).len()) is Some,
        stream_lines_of(lines_of(text), lines_of(text).len()) == Some(
            Seq::<StreamDeclarationView>::empty(),
        ),
    ensures
        outcome matches Err(error) && error@ == DownloaderErrorView::NoMasterPlaylistError,
{
    let audio = audio_lines_of(lines_of(text), lines_of(text).len())->0;
    assert(survivors(audio, Seq::<StreamDeclarationView>::empty()).len() == 0);
}

/// A variant line before an empty line, or at the end of the manifest,
/// declares no variant: its video manifest has no path.
pub proof fn lemma_variant_needs_a_path(
    audio: Seq<AudioDeclarationView>,
    lines: Seq<Seq<char>>,
    at: int,
    row: Captured,
)
    requires
        0 <= at < lines.len(),
        at + 1 == lines.len() || lines[at + 1].len() == 0,
    ensures
        variant_of(audio, stream_declaration_at(lines, at, row)) is None,
{
}

/// Reads the audio declarations off the lines of a manifest.
fn audio_lines(lines: &Vec<String>) -> (audio: Option<Vec<AudioDeclaration>>)
    ensures
        audio.deep_view() == audio_lines_of(lines.deep_view(), lines.len() as nat),
{
    let names = group_names2("audio_tag", "audio_url");
    let mut found: Vec<AudioDeclaration> = Vec::new();
    let mut refused = false;
    let mut at: usize = 0;
    assert(found.deep_view() =~= Seq::<AudioDeclarationView>::empty());
    while at < lines.len()
        invariant
            at <= lines.len(),
            names.deep_view() == audio_groups(),
            names.len() == 2,
            refused ==> audio_lines_of(lines.deep_view(), at as nat) is None,
            !refused ==> audio_lines_of(lines.deep_view(), at as nat) == Some(found.deep_view()),
        decreases lines.len() - at,
    {
        let ghost before = found.deep_view();
        assert(lines.deep_view()[at as int] == lines[at as int]@);
        if !refused {
            match captures(AUDIO_PATTERN, lines[at].as_str(), &names) {
                Some(Some(row)) => {
                    assert(row.deep_view()[0] == row[0].deep_view());
                    assert(row.deep_view()[1] == row[1].deep_view());
                    match (&row[0], &row[1]) {
                        (Some(group_id), Some(url)) => {
                            found.push(
                                AudioDeclaration { group_id: group_id.clone(), url: url.clone() },
                            );
                            assert(found.deep_view() =~= before.push(
                                AudioDeclarationView { group_id: group_id@, url: url@ },
                            ));
                        },
                        _ => {},
                    }
                },
                Some(None) => {},
                None => {
                    refused = true;
                },
            }
        }
        at += 1;
    }
    if refused {
        None
    } else {
        Some(found)
    }
}

/// Reads the variant declarations off the lines of a manifest.
fn stream_lines(lines: &Vec<String>) -> (streams: Option<Vec<StreamDeclaration>>)
    ensures
        streams.deep_view() == stream_lines_of(lines.deep_view(), lines.len() as nat),
{
    let names = group_names3("video_resolution", "audio_before", "audio_after");
    let mut found: Vec<StreamDeclaration> = Vec::new();
    let mut refused = false;
    let mut at: usize = 0;
    assert(found.deep_view() =~= Seq::<StreamDeclarationView>::empty());
    while at < lines.len()
        invariant
            at <= lines.len(),
            names.deep_view() == stream_groups(),
            names.len() == 3,
            refused ==> stream_lines_of(lines.deep_view(), at as nat) is None,
            !refused ==> stream_lines_of(lines.deep_view(), at as nat) == Some(found.deep_view()),
        decreases lines.len() - at,
    {
        let ghost before = found.deep_view();
        assert(lines.deep_view()[at as int] == lines[at as int]@);
        if !refused {
            match captures(STREAM_PATTERN, lines[at].as_str(), &names) {
                Some(Some(row)) => {
                    assert(row.deep_view()[0] == row[0].deep_view());
                    assert(row.deep_view()[1] == row[1].deep_view());
                    assert(row.deep_view()[2] == row[2].deep_view());
                    let url = if at + 1 < lines.len() {
                        assert(lines.deep_view()[at + 1] == lines[at + 1]@);
                        Some(lines[at + 1].clone())
                    } else {
                        None
                    };
                    let audio_group = match &row[1] {
                        Some(group) => Some(group.clone()),
                        None => copy_of(&row[2]),
                    };
                    let declaration = StreamDeclaration {
                        resolution: copy_of(&row[0]),
                        url,
                        audio_group,
                    };
                    assert(declaration@ == stream_declaration_at(
                        lines.deep_view(),
                        at as int,
                        row.deep_view(),
                    ));
                    found.push(declaration);
                    assert(found.deep_view() =~= before.push(
                        stream_declaration_at(lines.deep_view(), at as int, row.deep_view()),
                    ));
                },
                Some(None) => {},
                None => {
                    refused = true;
                },
            }
        }
        at += 1;
    }
    if refused {
        None
    } else {
        Some(found)
    }
}

/// The qualities in which one video is offered, largest area first.
pub struct VariantPlaylist {
    pub master_playlists: Vec<MasterPlaylist>,
}

impl View for VariantPlaylist {
    type V = Seq<MasterPlaylistView>;

    open spec fn view(&self) -> Seq<MasterPlaylistView> {
        self.master_playlists.deep_view()
    }
}

/// Whether `outcome` is what the declarations of a manifest resolve to: their
/// variants in sorted form, or `NoMasterPlaylistError` where they declare none.
pub open spec fn resolves_to(
    outcome: Result<VariantPlaylist, DownloaderError>,
    audio: Seq<AudioDeclarationView>,
    streams: Seq<StreamDeclarationView>,
) -> bool {
    match outcome {
        Ok(playlist) => survivors(audio, streams).len() > 0 && is_sorted_form_of(
            playlist@,
            survivors(audio, streams),
        ),
        Err(error) => survivors(audio, streams).len() == 0 && error@
            == DownloaderErrorView::NoMasterPlaylistError,
    }
}

impl VariantPlaylist {
    /// Whether the variants stand largest area first.
    pub open spec fn well_formed(&self) -> bool {
        sorted_by_area(self@)
    }

    /// Makes the variant that `stream` declares, with its area.
    fn variant(
        groups: &StringHashMap<String>,
        stream: &StreamDeclaration,
        Ghost(audio): Ghost<Seq<AudioDeclarationView>>,
    ) -> (made: Option<(MasterPlaylist, u64)>)
        requires
            holds_groups(groups@, audio_map_of(audio)),
        ensures
            made.is_some() == variant_of(audio, stream@).is_some(),
            made matches Some((variant, area)) ==> variant_of(audio, stream@) == Some(variant@)
                && area == area_of(variant@.resolution),
    {
        let (resolution, url) = match (&stream.resolution, &stream.url) {
            (Some(resolution), Some(url)) => (resolution, url),
            _ => { return None; },
        };
        let (width, height) = match parse_resolution(resolution.as_str()) {
            Some(size) => size,
            None => { return None; },
        };
        if url.as_str().unicode_len() == 0 {
            return None;
        }
        let audio_url = match &stream.audio_group {
            Some(group) => match groups.get(group.as_str()) {
                Some(found) => Some(join(BASE_URL, found.as_str())),
                None => None,
            },
            None => None,
        };
        let video_url = join(BASE_URL, url.as_str());
        match MasterPlaylist::from_urls(video_url, audio_url) {
            Ok(mut variant) => {
                variant.set_resolution(resolution.clone());
                assert(width as u64 * height as u64 <= u64::MAX) by (nonlinear_arith)
                    requires
                        width <= 0xffff_ffff,
                        height <= 0xffff_ffff,
                ;
                Some((variant, width as u64 * height as u64))
            },
            Err(_) => None,
        }
    }

    /// Resolves the text of a top-level manifest into its variants.
    ///
    /// The text is taken line by line. The audio lines declare the audio
    /// groups. Every variant line declares a variant, whose video manifest is
    /// found at the path that the line immediately after it holds; the
    /// variant has the audio of the group that its line names, and none where
    /// it names no group or one that is not declared. What the lines declare
    /// is resolved as `from_declarations` says.
    pub fn from_manifest(text: &str) -> (outcome: Result<VariantPlaylist, DownloaderError>)
        ensures
            manifest_resolves_to(outcome, text@),
            outcome matches Ok(playlist) ==> playlist.well_formed(),
    {
        let all = lines(text);
        match (audio_lines(&all), stream_lines(&all)) {
            (Some(audio), Some(streams)) => Self::from_declarations(&audio, &streams),
            _ => Err(pattern_error()),
        }
    }

    /// Resolves the declarations of a top-level manifest into its variants.
    ///
    /// A declaration without a readable resolution, or without a path of its
    /// video manifest that holds anything, declares nothing. Every other one
    /// declares a variant: with the audio of the group that it names, and
    /// video only where it names no group or one that is not declared. The
    /// variants come largest area first, those of equal area in the order of
    /// the manifest. A manifest that declares no variant is refused with
    /// `NoMasterPlaylistError`.
    pub fn from_declarations(
        audio: &Vec<AudioDeclaration>,
        streams: &Vec<StreamDeclaration>,
    ) -> (outcome: Result<VariantPlaylist, DownloaderError>)
        ensures
            resolves_to(outcome, audio.deep_view(), streams.deep_view()),
            outcome matches Ok(playlist) ==> playlist.well_formed(),
            streams.len() == 0 ==> (outcome matches Err(error) && error@
                == DownloaderErrorView::NoMasterPlaylistError),
    {
        let ghost declared = |stream: StreamDeclarationView| variant_of(audio.deep_view(), stream);
        let groups = audio_map(audio);
        let mut sorted: Vec<MasterPlaylist> = Vec::new();
        let mut areas: Vec<u64> = Vec::new();
        let mut at: usize = 0;
        assert(streams.deep_view().take(0).filter_map(declared).len() == 0);
        assert(sorted.deep_view() =~= Seq::<MasterPlaylistView>::empty());
        assert forall|area: nat| #[trigger]
            with_area(sorted.deep_view(), area) == with_area(
                Seq::<MasterPlaylistView>::empty(),
                area,
            ) by {}
        while at < streams.len()
            invariant
                at <= streams.len(),
                declared == |stream: StreamDeclarationView| variant_of(audio.deep_view(), stream),
                holds_groups(groups@, audio_map_of(audio.deep_view())),
                areas.len() == sorted.len(),
                forall|j: int|
                    0 <= j < areas.len() ==> areas[j] == area_of(
                        #[trigger] sorted.deep_view()[j].resolution,
                    ),
                is_sorted_form_of(
                    sorted.deep_view(),
                    streams.deep_view().take(at as int).filter_map(declared),
                ),
            decreases streams.len() - at,
        {
            let ghost before = sorted.deep_view();
            let ghost want = streams.deep_view().take(at as int).filter_map(declared);
            proof {
                streams.deep_view().lemma_filter_map_take_succ(declared, at as int);
            }
            match Self::variant(&groups, &streams[at], Ghost(audio.deep_view())) {
                Some((variant, area)) => {
                    assert forall|i: int, j: int| 0 <= i <= j < areas.len() implies areas[i]
                        >= areas[j] by {
                        assert(areas[i] == area_of(before[i].resolution));
                        assert(areas[j] == area_of(before[j].resolution));
                    }
                    let place = insertion_point(&areas, area);
                    proof {
                        assert forall|j: int| 0 <= j < place implies area_of(
                            #[trigger] before[j].resolution,
                        ) >= area_of(variant@.resolution) by {
                            assert(areas[j] >= area);
                        }
                        assert forall|j: int| place <= j < before.len() implies area_of(
                            #[trigger] before[j].resolution,
                        ) < area_of(variant@.resolution) by {
                            assert(areas[j] < area);
                        }
                        lemma_insert_keeps_sorted_form(before, want, variant@, place as int);
                    }
                    sorted.insert(place, variant);
                    areas.insert(place, area);
                    assert(sorted.deep_view() =~= before.insert(place as int, variant@));
                    assert(want.push(variant@) =~= want + seq![variant@]);
                },
                None => {},
            }
            at += 1;
        }
        proof {
            assert(streams.deep_view().take(at as int) == streams.deep_view());
            sorted.deep_view().to_multiset_ensures();
            survivors(audio.deep_view(), streams.deep_view()).to_multiset_ensures();
        }
        if sorted.len() == 0 {
            Err(DownloaderError::NoMasterPlaylistError)
        } else {
            Ok(VariantPlaylist { master_playlists: sorted })
        }
    }
}

} // verus!
