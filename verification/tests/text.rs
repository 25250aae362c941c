use video_downloader::downloader_error::DownloaderError;
use video_downloader::text::{
    chars_of, copy_of, filled, join, contains, find_char, format_integer, format_unsigned, lines, parse_signed,
    parse_unsigned, same_text, stem, substring,
};

#[test]
fn stem_strips_directory_and_extension() {
    assert_eq!(stem("/a/b/clip_123.mp4"), "clip_123");
    assert_eq!(stem("clip_123.mp4"), "clip_123");
    assert_eq!(stem("/a/b/clip_123"), "clip_123");
    assert_eq!(stem("/a.b/c.d.e"), "c");
    assert_eq!(stem("/a/b/"), "");
    assert_eq!(stem(""), "");
    assert_eq!(stem("/a/.hidden"), "");
    assert_eq!(stem("clip_123"), "clip_123");
    assert_eq!(stem("/\u{e9}t\u{e9}/na\u{ef}ve.mp4"), "na\u{ef}ve");
}

#[test]
fn lines_are_split_as_the_standard_library_does() {
    for text in [
        "",
        "\n",
        "a",
        "a\n",
        "a\nb",
        "a\r\nb\r\n",
        "a\rb\n",
        "\r\n\r\n",
        "a\n\nb\n",
        "last\r",
        "x\r\r\ny",
        "\u{e9}\n\u{fc}",
    ] {
        let expected: Vec<String> = text.lines().map(|l| l.to_string()).collect();
        assert_eq!(lines(text), expected, "for {:?}", text);
    }
    assert_eq!(lines("a\r\nb\n\nc"), vec!["a", "b", "", "c"]);
}

#[test]
fn contains_finds_a_part() {
    assert!(contains("https://x/y?tag=12", "tag="));
    assert!(contains("tag=", "tag="));
    assert!(!contains("ta=g", "tag="));
    assert!(contains("anything", ""));
    assert!(contains("", ""));
    assert!(!contains("", "a"));
    assert!(!contains("ab", "abc"));
    assert!(contains("aab", "ab"));
}

#[test]
fn characters_and_parts() {
    assert_eq!(chars_of("a\u{e9}b"), vec!['a', '\u{e9}', 'b']);
    assert_eq!(substring("a\u{e9}bcd", 1, 3), "\u{e9}b");
    assert_eq!(substring("abc", 0, 0), "");
    assert_eq!(join("ab", "cd"), "abcd");
    let chars = chars_of("a/b/c");
    assert_eq!(find_char(&chars, '/', 0), 1);
    assert_eq!(find_char(&chars, '/', 2), 3);
    assert_eq!(find_char(&chars, '/', 4), 5);
    assert_eq!(find_char(&chars, 'x', 0), 5);
    assert_eq!(copy_of(&Some("a".to_string())), Some("a".to_string()));
    assert_eq!(copy_of(&None), None);
    assert_eq!(filled(&Some("a".to_string())), Some(&"a".to_string()));
    assert_eq!(filled(&Some(String::new())), None);
    assert_eq!(filled(&None), None);
    assert!(same_text("abc", "abc"));
    assert!(!same_text("abc", "abd"));
    assert!(!same_text("abc", "ab"));
}

#[test]
fn numbers_are_written_in_base_ten() {
    assert_eq!(format_unsigned(0), "0");
    assert_eq!(format_unsigned(7), "7");
    assert_eq!(format_unsigned(10), "10");
    assert_eq!(format_unsigned(1234567890), "1234567890");
    assert_eq!(format_unsigned(u64::MAX), u64::MAX.to_string());
    assert_eq!(format_integer(0), "0");
    assert_eq!(format_integer(-1), "-1");
    assert_eq!(format_integer(i32::MIN as i64), "-2147483648");
    assert_eq!(format_integer(i64::MIN), i64::MIN.to_string());
    assert_eq!(format_integer(i64::MAX), i64::MAX.to_string());
}

#[test]
fn numbers_are_read_in_base_ten() {
    let chars = chars_of("a123b");
    assert_eq!(parse_unsigned(&chars, 1, 4, 1000), Some(123));
    assert_eq!(parse_unsigned(&chars, 1, 4, 123), Some(123));
    assert_eq!(parse_unsigned(&chars, 1, 4, 122), None);
    assert_eq!(parse_unsigned(&chars, 1, 1, 1000), None);
    assert_eq!(parse_unsigned(&chars, 0, 4, 1000), None);
    assert_eq!(parse_unsigned(&chars, 1, 5, 1000), None);
    let big = chars_of("18446744073709551615");
    assert_eq!(parse_unsigned(&big, 0, big.len(), u64::MAX), Some(u64::MAX));
    let bigger = chars_of("18446744073709551616");
    assert_eq!(parse_unsigned(&bigger, 0, bigger.len(), u64::MAX), None);
    let zeros = chars_of("000");
    assert_eq!(parse_unsigned(&zeros, 0, 3, 0), Some(0));
    let minus = chars_of("-12");
    assert_eq!(parse_signed(&minus, 0, 3, 12, 5), Some((true, 12)));
    assert_eq!(parse_signed(&minus, 0, 3, 11, 50), None);
    assert_eq!(parse_signed(&minus, 0, 3, 0, 50), None);
    assert_eq!(parse_signed(&minus, 0, 1, 20, 50), None);
    let plus = chars_of("+12");
    assert_eq!(parse_signed(&plus, 0, 3, 0, 12), Some((false, 12)));
    assert_eq!(parse_signed(&plus, 0, 3, 100, 11), None);
    assert_eq!(parse_signed(&plus, 0, 1, 100, 11), None);
    assert_eq!(parse_signed(&plus, 1, 3, 0, 12), Some((false, 12)));
}

#[test]
fn every_failure_has_its_message() {
    assert_eq!(DownloaderError::InvalidInputError.message(), "Invalid input");
    assert_eq!(DownloaderError::UnsupportedPlatformError.message(), "Platform not supported");
    assert_eq!(
        DownloaderError::FetchError.message(),
        "Failed to fetch data from external source"
    );
    assert_eq!(DownloaderError::NoMasterPlaylistError.message(), "No master playlist found");
    assert_eq!(DownloaderError::IOError.message(), "Failed to perform IO operation");
    assert_eq!(DownloaderError::FfmpegError.message(), "Failed to execute ffmpeg command");
    assert_eq!(DownloaderError::OtherError("boom".to_string()).message(), "Error: boom");
    assert_eq!(
        DownloaderError::OtherError("boom".to_string()).duplicate(),
        DownloaderError::OtherError("boom".to_string())
    );
    assert_eq!(DownloaderError::IOError.duplicate(), DownloaderError::IOError);
}
