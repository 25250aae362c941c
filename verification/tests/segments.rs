use video_downloader::playlist::media_playlist::{MediaPlaylist, SegmentList, SegmentMatch};
use video_downloader::playlist::segments::SegmentSlots;

fn payload(index: usize) -> Vec<u8> {
    vec![index as u8; index + 1]
}

#[test]
fn slots_keep_playback_order_whatever_ends_first() {
    let count = 6;
    let mut slots = SegmentSlots::new(count);
    for index in (0..count).rev() {
        slots.store(index, payload(index));
    }
    let mut forward = SegmentSlots::new(count);
    for index in 0..count {
        forward.store(index, payload(index));
    }
    let mut expected = Vec::new();
    for index in 0..count {
        expected.extend(payload(index));
    }
    assert_eq!(slots.assemble(), expected);
    assert_eq!(forward.assemble(), expected);
}

#[test]
fn slots_filled_in_scattered_order() {
    let mut slots = SegmentSlots::new(4);
    slots.store(2, vec![30, 31]);
    slots.store(0, vec![10]);
    slots.store(3, vec![40, 41, 42]);
    slots.store(1, vec![20]);
    assert_eq!(slots.len(), 4);
    assert_eq!(slots.assemble(), vec![10, 20, 30, 31, 40, 41, 42]);
}

#[test]
fn failed_segment_contributes_nothing() {
    let mut slots = SegmentSlots::new(5);
    for index in [4usize, 0, 3, 1] {
        slots.store(index, vec![index as u8, index as u8]);
    }
    assert_eq!(slots.len(), 5);
    assert_eq!(slots.assemble(), vec![0, 0, 1, 1, 3, 3, 4, 4]);
    let track = MediaPlaylist::from_slots("clip".to_string(), &slots);
    assert_eq!(track.get_byte_data(), &vec![0, 0, 1, 1, 3, 3, 4, 4]);
    assert_eq!(track.name().as_str(), "clip");
}

#[test]
fn no_segments_give_an_empty_track() {
    let slots = SegmentSlots::new(0);
    assert_eq!(slots.len(), 0);
    assert_eq!(slots.assemble(), Vec::<u8>::new());
    let track = MediaPlaylist::from_slots(String::new(), &slots);
    assert!(track.get_byte_data().is_empty());
}

#[test]
fn storing_twice_keeps_the_later_bytes() {
    let mut slots = SegmentSlots::new(2);
    slots.store(1, vec![1]);
    slots.store(1, vec![2, 2]);
    assert_eq!(slots.assemble(), vec![2, 2]);
}

#[test]
fn get_byte_data_returns_the_bytes() {
    let track = MediaPlaylist::new("n".to_string(), vec![1, 2, 3]);
    assert_eq!(track.get_byte_data(), &vec![1, 2, 3]);
    assert_eq!(track.name, "n");
}

#[test]
fn init_segment_names_the_track() {
    let text = "#EXTM3U\n#EXT-X-MAP:URI=\"/a/b/clip_123.mp4\"\n#EXTINF:3.000,\n/a/b/seg0.m4s\n";
    let list = SegmentList::from_manifest(text).unwrap();
    assert_eq!(list.name, "clip_123");
    assert_eq!(
        list.urls,
        vec!["https://video.twimg.com/a/b/clip_123.mp4", "https://video.twimg.com/a/b/seg0.m4s"]
    );
}

#[test]
fn segments_are_listed_in_file_order() {
    let text = "#EXTM3U\r\n#EXT-X-VERSION:6\r\n\r\n#EXT-X-MAP:URI=\"/x/init.mp4\"\r\n#EXTINF:3.0,\r\n/x/2.m4s\r\n#EXTINF:3.0,\r\n/x/1.m4s\r\n\r\n#EXTINF:1.0,\r\n/x/3.m4s\r\n#EXT-X-ENDLIST";
    let list = SegmentList::from_manifest(text).unwrap();
    assert_eq!(list.name, "init");
    assert_eq!(
        list.urls,
        vec![
            "https://video.twimg.com/x/init.mp4",
            "https://video.twimg.com/x/2.m4s",
            "https://video.twimg.com/x/1.m4s",
            "https://video.twimg.com/x/3.m4s"
        ]
    );
}

#[test]
fn manifest_without_segments_lists_nothing() {
    let list = SegmentList::from_manifest("#EXTM3U\n#EXT-X-ENDLIST\n").unwrap();
    assert_eq!(list.name, "");
    assert!(list.urls.is_empty());
    let list = SegmentList::from_manifest("").unwrap();
    assert_eq!(list.name, "");
    assert!(list.urls.is_empty());
}

#[test]
fn manifest_without_init_segment_has_no_name() {
    let list = SegmentList::from_manifest("/s/0.ts\n/s/1.ts\nrelative/2.ts\n").unwrap();
    assert_eq!(list.name, "");
    assert_eq!(list.urls, vec!["https://video.twimg.com/s/0.ts", "https://video.twimg.com/s/1.ts"]);
}

#[test]
fn matches_make_the_segment_list() {
    let found = vec![
        SegmentMatch { base_segment_url: None, segment_url: Some("/s/0.m4s".to_string()) },
        SegmentMatch { base_segment_url: Some("/d/first.v1.mp4".to_string()), segment_url: None },
        SegmentMatch { base_segment_url: None, segment_url: None },
        SegmentMatch {
            base_segment_url: Some("/d/second.mp4".to_string()),
            segment_url: Some("/ignored".to_string()),
        },
        SegmentMatch { base_segment_url: None, segment_url: Some("/s/1.m4s".to_string()) },
    ];
    let list = SegmentList::from_matches(&found);
    assert_eq!(list.name, "second");
    assert_eq!(
        list.urls,
        vec![
            "https://video.twimg.com/s/0.m4s",
            "https://video.twimg.com/d/first.v1.mp4",
            "https://video.twimg.com/d/second.mp4",
            "https://video.twimg.com/s/1.m4s"
        ]
    );
    let empty = SegmentList::from_matches(&vec![]);
    assert_eq!(empty.name, "");
    assert!(empty.urls.is_empty());
}

#[test]
fn init_segment_path_ends_at_its_closing_quote() {
    let text = "#EXTM3U\n#EXT-X-MAP:URI=\"/a/b/clip_123.mp4\",BYTERANGE=\"720@0\"\n/a/b/seg0.m4s\n";
    let list = SegmentList::from_manifest(text).unwrap();
    assert_eq!(list.name, "clip_123");
    assert_eq!(
        list.urls,
        vec!["https://video.twimg.com/a/b/clip_123.mp4", "https://video.twimg.com/a/b/seg0.m4s"]
    );
}

#[test]
fn init_segment_without_a_path_names_nothing() {
    let text = "#EXT-X-MAP:URI=\"/a/first.mp4\"\n#EXT-X-MAP:URI=\"\"\n/a/seg0.m4s\n";
    let list = SegmentList::from_manifest(text).unwrap();
    assert_eq!(list.name, "first");
    assert_eq!(
        list.urls,
        vec!["https://video.twimg.com/a/first.mp4", "https://video.twimg.com/a/seg0.m4s"]
    );
    let found = vec![
        SegmentMatch { base_segment_url: Some(String::new()), segment_url: None },
        SegmentMatch { base_segment_url: None, segment_url: Some(String::new()) },
        SegmentMatch { base_segment_url: Some(String::new()), segment_url: Some("/s".to_string()) },
    ];
    let list = SegmentList::from_matches(&found);
    assert_eq!(list.name, "");
    assert_eq!(list.urls, vec!["https://video.twimg.com/s"]);
}
