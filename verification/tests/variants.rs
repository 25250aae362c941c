use video_downloader::downloader_error::DownloaderError;
use video_downloader::playlist::variant_playlist::{
    parse_resolution, AudioDeclaration, StreamDeclaration, VariantPlaylist,
};
use video_downloader::playlist::BASE_URL;

fn stream(resolution: &str, url: &str, audio_group: Option<&str>) -> StreamDeclaration {
    StreamDeclaration {
        resolution: Some(resolution.to_string()),
        url: Some(url.to_string()),
        audio_group: audio_group.map(|g| g.to_string()),
    }
}

fn audio(group_id: &str, url: &str) -> AudioDeclaration {
    AudioDeclaration { group_id: group_id.to_string(), url: url.to_string() }
}

fn resolutions(playlist: &VariantPlaylist) -> Vec<String> {
    playlist.master_playlists.iter().map(|m| m.resolution().clone()).collect()
}

#[test]
fn empty_manifest_is_refused() {
    let outcome = VariantPlaylist::from_manifest("#EXTM3U\n#EXT-X-VERSION:6\n");
    assert!(matches!(outcome, Err(DownloaderError::NoMasterPlaylistError)));
}

#[test]
fn empty_text_is_refused() {
    let outcome = VariantPlaylist::from_manifest("");
    assert!(matches!(outcome, Err(DownloaderError::NoMasterPlaylistError)));
}

#[test]
fn no_declarations_are_refused() {
    let outcome = VariantPlaylist::from_declarations(&vec![], &vec![]);
    assert!(matches!(outcome, Err(DownloaderError::NoMasterPlaylistError)));
}

#[test]
fn audio_without_streams_is_refused() {
    let text = "#EXT-X-MEDIA:NAME=\"Audio\",TYPE=AUDIO,GROUP-ID=\"audio-0\",URI=\"/a.m3u8\"\n";
    let outcome = VariantPlaylist::from_manifest(text);
    assert!(matches!(outcome, Err(DownloaderError::NoMasterPlaylistError)));
}

#[test]
fn audio_group_is_matched_in_manifest() {
    let text = "#EXTM3U\n\
#EXT-X-MEDIA:NAME=\"Audio\",TYPE=AUDIO,GROUP-ID=\"audio-0\",AUTOSELECT=YES,URI=\"/pl/mp4a/a.m3u8\"\n\
#EXT-X-STREAM-INF:BANDWIDTH=2000,RESOLUTION=1280x720,CODECS=\"avc1\",AUDIO=\"audio-0\"\n\
/pl/avc1/1280x720/v.m3u8\n\
#EXT-X-STREAM-INF:BANDWIDTH=1000,RESOLUTION=640x360,CODECS=\"avc1\",AUDIO=\"audio-1\"\n\
/pl/avc1/640x360/v.m3u8\n";
    let playlist = VariantPlaylist::from_manifest(text).unwrap();
    assert_eq!(playlist.master_playlists.len(), 2);
    let first = &playlist.master_playlists[0];
    assert_eq!(first.resolution().as_str(), "1280x720");
    assert_eq!(first.video_media_url().as_str(), "https://video.twimg.com/pl/avc1/1280x720/v.m3u8");
    assert_eq!(
        first.audio_media_url().as_deref(),
        Some("https://video.twimg.com/pl/mp4a/a.m3u8")
    );
    let second = &playlist.master_playlists[1];
    assert_eq!(second.resolution().as_str(), "640x360");
    assert_eq!(second.audio_media_url().as_deref(), None);
    assert!(first.video_media_playlist().is_none());
    assert!(first.audio_media_playlist().is_none());
}

#[test]
fn audio_group_is_matched_in_declarations() {
    let audio = vec![audio("audio-0", "/a0.m3u8")];
    let streams = vec![
        stream("1280x720", "/v720.m3u8", Some("audio-0")),
        stream("640x360", "/v360.m3u8", Some("audio-9")),
        stream("320x180", "/v180.m3u8", None),
    ];
    let playlist = VariantPlaylist::from_declarations(&audio, &streams).unwrap();
    assert_eq!(playlist.master_playlists.len(), 3);
    assert_eq!(
        playlist.master_playlists[0].audio_media_url().clone(),
        Some(format!("{}{}", BASE_URL, "/a0.m3u8"))
    );
    assert_eq!(playlist.master_playlists[1].audio_media_url().clone(), None);
    assert_eq!(playlist.master_playlists[2].audio_media_url().clone(), None);
}

#[test]
fn last_audio_declaration_wins() {
    let audio = vec![audio("audio-0", "/old.m3u8"), audio("audio-1", "/b.m3u8"), audio("audio-0", "/new.m3u8")];
    let streams = vec![stream("10x10", "/v.m3u8", Some("audio-0"))];
    let playlist = VariantPlaylist::from_declarations(&audio, &streams).unwrap();
    assert_eq!(
        playlist.master_playlists[0].audio_media_url().as_deref(),
        Some("https://video.twimg.com/new.m3u8")
    );
}

#[test]
fn no_audio_declared_means_no_lookup() {
    let streams = vec![stream("10x10", "/v.m3u8", Some("audio-0"))];
    let playlist = VariantPlaylist::from_declarations(&vec![], &streams).unwrap();
    assert_eq!(playlist.master_playlists[0].audio_media_url().clone(), None);
}

#[test]
fn variants_are_sorted_by_area_in_manifest() {
    let text = "#EXTM3U\n\
#EXT-X-STREAM-INF:BANDWIDTH=3,RESOLUTION=1920x1080,CODECS=\"avc1\"\n\
/v/1080.m3u8\n\
#EXT-X-STREAM-INF:BANDWIDTH=1,RESOLUTION=640x360,CODECS=\"avc1\"\n\
/v/360.m3u8\n\
#EXT-X-STREAM-INF:BANDWIDTH=2,RESOLUTION=1280x720,CODECS=\"avc1\"\n\
/v/720.m3u8\n";
    let playlist = VariantPlaylist::from_manifest(text).unwrap();
    assert_eq!(resolutions(&playlist), vec!["1920x1080", "1280x720", "640x360"]);
    assert_eq!(
        playlist.master_playlists[1].video_media_url().as_str(),
        "https://video.twimg.com/v/720.m3u8"
    );
    assert_eq!(playlist.master_playlists[0].audio_media_url().clone(), None);
}

#[test]
fn variants_are_sorted_by_area_in_declarations() {
    let streams = vec![
        stream("1920x1080", "/a", None),
        stream("640x360", "/b", None),
        stream("1280x720", "/c", None),
    ];
    let playlist = VariantPlaylist::from_declarations(&vec![], &streams).unwrap();
    assert_eq!(resolutions(&playlist), vec!["1920x1080", "1280x720", "640x360"]);
}

#[test]
fn ascending_input_is_reversed() {
    let streams = vec![stream("1x1", "/a", None), stream("2x2", "/b", None), stream("3x3", "/c", None)];
    let playlist = VariantPlaylist::from_declarations(&vec![], &streams).unwrap();
    assert_eq!(resolutions(&playlist), vec!["3x3", "2x2", "1x1"]);
}

#[test]
fn equal_areas_keep_their_order() {
    let streams = vec![
        stream("2x6", "/first", None),
        stream("100x100", "/big", None),
        stream("3x4", "/second", None),
        stream("4x3", "/third", None),
        stream("1x1", "/small", None),
    ];
    let playlist = VariantPlaylist::from_declarations(&vec![], &streams).unwrap();
    assert_eq!(resolutions(&playlist), vec!["100x100", "2x6", "3x4", "4x3", "1x1"]);
    let urls: Vec<&str> =
        playlist.master_playlists.iter().map(|m| m.video_media_url().as_str()).collect();
    assert_eq!(
        urls,
        vec![
            "https://video.twimg.com/big",
            "https://video.twimg.com/first",
            "https://video.twimg.com/second",
            "https://video.twimg.com/third",
            "https://video.twimg.com/small"
        ]
    );
}

#[test]
fn incomplete_declarations_are_dropped() {
    let streams = vec![
        StreamDeclaration { resolution: None, url: Some("/a".to_string()), audio_group: None },
        StreamDeclaration { resolution: Some("10x10".to_string()), url: None, audio_group: None },
        stream("x", "/b", None),
        stream("12x", "/c", None),
        stream("x12", "/d", None),
        stream("1x2x3", "/e", None),
        stream("99999999999x1", "/f", None),
        stream("7x7", "/kept", None),
    ];
    let playlist = VariantPlaylist::from_declarations(&vec![], &streams).unwrap();
    assert_eq!(resolutions(&playlist), vec!["7x7"]);
}

#[test]
fn only_incomplete_declarations_are_refused() {
    let streams = vec![stream("x", "/b", None)];
    let outcome = VariantPlaylist::from_declarations(&vec![], &streams);
    assert!(matches!(outcome, Err(DownloaderError::NoMasterPlaylistError)));
}

#[test]
fn large_areas_do_not_overflow() {
    let streams = vec![
        stream("65536x65536", "/a", None),
        stream("4294967295x4294967295", "/b", None),
        stream("4294967295x1", "/c", None),
    ];
    let playlist = VariantPlaylist::from_declarations(&vec![], &streams).unwrap();
    assert_eq!(resolutions(&playlist), vec!["4294967295x4294967295", "65536x65536", "4294967295x1"]);
}

#[test]
fn resolutions_are_read() {
    assert_eq!(parse_resolution("1920x1080"), Some((1920, 1080)));
    assert_eq!(parse_resolution("0x0"), Some((0, 0)));
    assert_eq!(parse_resolution("007x08"), Some((7, 8)));
    assert_eq!(parse_resolution("4294967295x4294967295"), Some((4294967295, 4294967295)));
    assert_eq!(parse_resolution("4294967296x1"), None);
    assert_eq!(parse_resolution("1920"), None);
    assert_eq!(parse_resolution(""), None);
    assert_eq!(parse_resolution("x"), None);
    assert_eq!(parse_resolution("1920X1080"), None);
    assert_eq!(parse_resolution("-1x5"), None);
    assert_eq!(parse_resolution("+1x5"), None);
    assert_eq!(parse_resolution("1x5 "), None);
}

#[test]
fn variant_line_without_a_group_is_kept_without_audio() {
    let text = "#EXT-X-MEDIA:NAME=\"Audio\",GROUP-ID=\"audio-0\",URI=\"/a/0.m3u8\"\n\
#EXT-X-STREAM-INF:RESOLUTION=640x360\n\
/v/360.m3u8\n\
#EXT-X-STREAM-INF:RESOLUTION=1280x720,AUDIO=\"audio-0\"\n\
/v/720.m3u8\n";
    let playlist = VariantPlaylist::from_manifest(text).unwrap();
    assert_eq!(resolutions(&playlist), vec!["1280x720", "640x360"]);
    assert_eq!(
        playlist.master_playlists[0].video_media_url().as_str(),
        "https://video.twimg.com/v/720.m3u8"
    );
    assert_eq!(
        playlist.master_playlists[0].audio_media_url().as_deref(),
        Some("https://video.twimg.com/a/0.m3u8")
    );
    assert_eq!(
        playlist.master_playlists[1].video_media_url().as_str(),
        "https://video.twimg.com/v/360.m3u8"
    );
    assert_eq!(playlist.master_playlists[1].audio_media_url().clone(), None);
}

#[test]
fn audio_group_is_found_before_and_behind_the_resolution() {
    let text = "#EXT-X-MEDIA:NAME=\"Audio\",GROUP-ID=\"audio-1\",URI=\"/a/1.m3u8\"\n\
#EXT-X-MEDIA:NAME=\"Audio\",GROUP-ID=\"audio-2\",URI=\"/a/2.m3u8\"\n\
#EXT-X-STREAM-INF:BANDWIDTH=1,AUDIO=\"audio-1\",RESOLUTION=30x30,CODECS=\"avc1\"\n\
/v/30.m3u8\n\
#EXT-X-STREAM-INF:BANDWIDTH=1,RESOLUTION=20x20,CODECS=\"avc1\",AUDIO=\"audio-2\",FRAME-RATE=30\n\
/v/20.m3u8\n\
#EXT-X-STREAM-INF:BANDWIDTH=1,RESOLUTION=10x10,CODECS=\"avc1\"\n\
/v/10.m3u8\n";
    let playlist = VariantPlaylist::from_manifest(text).unwrap();
    assert_eq!(resolutions(&playlist), vec!["30x30", "20x20", "10x10"]);
    let audio: Vec<Option<String>> =
        playlist.master_playlists.iter().map(|m| m.audio_media_url().clone()).collect();
    assert_eq!(
        audio,
        vec![
            Some("https://video.twimg.com/a/1.m3u8".to_string()),
            Some("https://video.twimg.com/a/2.m3u8".to_string()),
            None
        ]
    );
}

#[test]
fn variant_line_before_an_empty_line_declares_nothing() {
    let text = "#EXTM3U\n\
#EXT-X-STREAM-INF:BANDWIDTH=2,RESOLUTION=1280x720\n\
\n\
/v/720.m3u8\n\
#EXT-X-STREAM-INF:BANDWIDTH=1,RESOLUTION=640x360\n\
/v/360.m3u8\n";
    let playlist = VariantPlaylist::from_manifest(text).unwrap();
    assert_eq!(resolutions(&playlist), vec!["640x360"]);
    assert_eq!(
        playlist.master_playlists[0].video_media_url().as_str(),
        "https://video.twimg.com/v/360.m3u8"
    );
    let only = "#EXT-X-STREAM-INF:RESOLUTION=1280x720\n\n";
    assert!(matches!(
        VariantPlaylist::from_manifest(only),
        Err(DownloaderError::NoMasterPlaylistError)
    ));
    let at_the_end = "#EXT-X-STREAM-INF:RESOLUTION=1280x720\n";
    assert!(matches!(
        VariantPlaylist::from_manifest(at_the_end),
        Err(DownloaderError::NoMasterPlaylistError)
    ));
    let unfinished = "#EXT-X-STREAM-INF:RESOLUTION=1280x720";
    assert!(matches!(
        VariantPlaylist::from_manifest(unfinished),
        Err(DownloaderError::NoMasterPlaylistError)
    ));
}

#[test]
fn declaration_with_an_empty_path_declares_nothing() {
    let streams = vec![stream("1280x720", "", None), stream("640x360", "/v/360.m3u8", None)];
    let playlist = VariantPlaylist::from_declarations(&vec![], &streams).unwrap();
    assert_eq!(resolutions(&playlist), vec!["640x360"]);
    let outcome = VariantPlaylist::from_declarations(&vec![], &vec![stream("1x1", "", None)]);
    assert!(matches!(outcome, Err(DownloaderError::NoMasterPlaylistError)));
}

#[test]
fn audio_declaration_with_an_empty_path_declares_nothing() {
    let declared = vec![audio("audio-0", "/a/0.m3u8"), audio("audio-0", ""), audio("audio-1", "")];
    let streams = vec![
        stream("2x2", "/v/2.m3u8", Some("audio-0")),
        stream("1x1", "/v/1.m3u8", Some("audio-1")),
    ];
    let playlist = VariantPlaylist::from_declarations(&declared, &streams).unwrap();
    assert_eq!(
        playlist.master_playlists[0].audio_media_url().as_deref(),
        Some("https://video.twimg.com/a/0.m3u8")
    );
    assert_eq!(playlist.master_playlists[1].audio_media_url().clone(), None);
    let text = "#EXT-X-MEDIA:NAME=\"Audio\",GROUP-ID=\"audio-0\",URI=\"\"\n\
#EXT-X-STREAM-INF:RESOLUTION=2x2,AUDIO=\"audio-0\"\n\
/v/2.m3u8\n";
    let playlist = VariantPlaylist::from_manifest(text).unwrap();
    assert_eq!(resolutions(&playlist), vec!["2x2"]);
    assert_eq!(playlist.master_playlists[0].audio_media_url().clone(), None);
}

#[test]
fn line_endings_with_carriage_return_are_not_part_of_a_path() {
    let text = "#EXTM3U\r\n\
#EXT-X-MEDIA:NAME=\"Audio\",GROUP-ID=\"audio-0\",URI=\"/a/0.m3u8\"\r\n\
#EXT-X-STREAM-INF:RESOLUTION=1280x720,AUDIO=\"audio-0\"\r\n\
/v/720.m3u8\r\n\
#EXT-X-STREAM-INF:RESOLUTION=640x360\r\n\
\r\n\
#EXT-X-STREAM-INF:RESOLUTION=320x180\r\n\
/v/180.m3u8";
    let playlist = VariantPlaylist::from_manifest(text).unwrap();
    assert_eq!(resolutions(&playlist), vec!["1280x720", "320x180"]);
    assert_eq!(
        playlist.master_playlists[0].video_media_url().as_str(),
        "https://video.twimg.com/v/720.m3u8"
    );
    assert_eq!(
        playlist.master_playlists[0].audio_media_url().as_deref(),
        Some("https://video.twimg.com/a/0.m3u8")
    );
    assert_eq!(
        playlist.master_playlists[1].video_media_url().as_str(),
        "https://video.twimg.com/v/180.m3u8"
    );
}

#[test]
fn variant_line_without_a_resolution_declares_nothing() {
    let text = "#EXT-X-STREAM-INF:BANDWIDTH=2,AUDIO=\"audio-0\"\n\
/v/a.m3u8\n\
#EXT-X-STREAM-INF:BANDWIDTH=1,RESOLUTION=640x360\n\
/v/360.m3u8\n";
    let playlist = VariantPlaylist::from_manifest(text).unwrap();
    assert_eq!(resolutions(&playlist), vec!["640x360"]);
}

#[test]
fn audio_path_ends_at_its_closing_quote() {
    let text = "#EXT-X-MEDIA:NAME=\"Audio\",TYPE=AUDIO,GROUP-ID=\"audio-0\",URI=\"/a/0.m3u8\",CHANNELS=\"2\"\n\
#EXT-X-STREAM-INF:RESOLUTION=2x2,AUDIO=\"audio-0\"\n\
/v/2.m3u8\n";
    let playlist = VariantPlaylist::from_manifest(text).unwrap();
    assert_eq!(
        playlist.master_playlists[0].audio_media_url().as_deref(),
        Some("https://video.twimg.com/a/0.m3u8")
    );
}

#[test]
fn each_variant_line_is_read_with_the_line_after_it() {
    let text = "#EXTM3U\n\
#EXT-X-STREAM-INF:RESOLUTION=3x3\n\
/v/3.m3u8\n\
junk\n\
#EXT-X-STREAM-INF:RESOLUTION=1x1\n\
v/1.m3u8\n\
\n\
#EXT-X-STREAM-INF:RESOLUTION=2x2\n\
/v/2.m3u8";
    let playlist = VariantPlaylist::from_manifest(text).unwrap();
    assert_eq!(resolutions(&playlist), vec!["3x3", "2x2", "1x1"]);
    let urls: Vec<&str> =
        playlist.master_playlists.iter().map(|m| m.video_media_url().as_str()).collect();
    assert_eq!(
        urls,
        vec![
            "https://video.twimg.com/v/3.m3u8",
            "https://video.twimg.com/v/2.m3u8",
            "https://video.twimg.comv/1.m3u8"
        ]
    );
}
