//! The surface towards the chat: what a message asks for, and the keys by
//! which a user picks one variant of a video.

use vstd::prelude::*;
use crate::downloader_error::{DownloaderError, DownloaderErrorView};
use crate::playlist::variant_playlist::VariantPlaylist;
use crate::text::{
    chars_of, join, decimal_digits, find_char, first_index_of, format_integer, format_unsigned,
    integer_text, lemma_decimal_digits_read_back, lemma_first_index_of_unique,
    lemma_integer_text_read_back, parse_integer, parse_signed, same_text,
};

verus! {

/// The command that asks for the list of platforms.
pub const PLATFORMS_COMMAND: &'static str = "/platforms";

/// What a text message asks for.
#[derive(Debug, Clone, Copy, PartialEq, Eq, Structural)]
pub enum Request {
    /// The message holds a link to a video.
    Download,
    /// The message asks which platforms are served.
    Platforms,
    /// Anything else is answered with the instructions.
    Help,
}

/// What a message asks for: a message with a link asks for the video; else
/// the command `PLATFORMS_COMMAND` asks for the platforms; else the message
/// asks for help.
pub open spec fn request_for(text: Seq<char>, is_command: bool, is_link: bool) -> Request {
    if is_link {
        Request::Download
    } else if is_command && text == PLATFORMS_COMMAND@ {
        Request::Platforms
    } else {
        Request::Help
    }
}

/// Tells what a message asks for, given its text and whether it holds a
/// command and a link.
pub fn request_of(text: &str, is_command: bool, is_link: bool) -> (request: Request)
    ensures
        request == request_for(text@, is_command, is_link),
{
    if is_link {
        Request::Download
    } else if is_command && same_text(text, PLATFORMS_COMMAND) {
        Request::Platforms
    } else {
        Request::Help
    }
}

/// The key of the variant at `index` among those found for the request
/// `request`: the two numbers in base ten with one space between them.
pub open spec fn selection_key_of(request: int, index: nat) -> Seq<char> {
    integer_text(request) + seq![' '] + decimal_digits(index)
}

/// Makes the key of the variant at `index` among those found for a request.
pub fn selection_key(request_id: i32, index: usize) -> (key: String)
    ensures
        key@ == selection_key_of(request_id as int, index as nat),
{
    proof {
        reveal_strlit(" ");
    }
    let request = format_integer(request_id as i64);
    let index = format_unsigned(index as u64);
    let key = join(join(request.as_str(), " ").as_str(), index.as_str());
    assert(" "@ =~= seq![' ']);
    key
}

/// What a key selects: the request and the index that it writes, the request
/// before its first space and the index behind it. `None` where the key has
/// no space or a part is no number of its kind.
pub open spec fn selection_of(key: Seq<char>) -> Option<(int, nat)> {
    let split = first_index_of(key, ' ');
    if split < key.len() {
        match (
            parse_integer(key.take(split as int), i32::MIN as int, i32::MAX as int),
            parse_integer(key.skip(split as int + 1), 0, usize::MAX as int),
        ) {
            (Some(request), Some(index)) => Some((request, index as nat)),
            _ => None,
        }
    } else {
        None
    }
}

/// Reads a key: the request and the index of the variant that it selects.
/// A key that selects nothing is refused with `InvalidInputError`.
pub fn parse_selection_key(key: &str) -> (selected: Result<(i32, usize), DownloaderError>)
    ensures
        selected is Ok == selection_of(key@) is Some,
        selected matches Ok((request, index)) ==> selection_of(key@) == Some(
            (request as int, index as nat),
        ),
        selected matches Err(error) ==> error@ == DownloaderErrorView::InvalidInputError,
{
    let chars = chars_of(key);
    let split = find_char(&chars, ' ', 0);
    assert(chars@.skip(0) == chars@);
    if split >= chars.len() {
        return Err(DownloaderError::InvalidInputError);
    }
    assert(chars@.subrange(0, split as int) == chars@.take(split as int));
    assert(chars@.subrange(split + 1, chars.len() as int) == chars@.skip(split + 1));
    let request = parse_signed(&chars, 0, split, 0x8000_0000, 0x7fff_ffff);
    let index = parse_signed(&chars, split + 1, chars.len(), 0, usize::MAX as u64);
    match (request, index) {
        (Some((negative, size)), Some((_, index))) => {
            let request = if negative {
                (-(size as i64)) as i32
            } else {
                size as i32
            };
            Ok((request, index as usize))
        },
        _ => Err(DownloaderError::InvalidInputError),
    }
}

/// Round trip: a key selects the request and the index that it was made of.
pub proof fn lemma_selection_key_round_trip(request: int, index: nat)
    requires
        i32::MIN <= request <= i32::MAX,
        index <= usize::MAX,
    ensures
        selection_of(selection_key_of(request, index)) == Some((request, index)),
{
    let head = integer_text(request);
    let tail = decimal_digits(index);
    let key = selection_key_of(request, index);
    lemma_integer_text_read_back(request, i32::MIN as int, i32::MAX as int);
    lemma_integer_text_read_back(index as int, 0, usize::MAX as int);
    lemma_decimal_digits_read_back(index);
    assert(key[head.len() as int] == ' ');
    assert forall|j: int| 0 <= j < head.len() implies key[j] != ' ' by {
        assert(key[j] == head[j]);
    }
    lemma_first_index_of_unique(key, ' ', head.len() as int);
    assert(key.take(head.len() as int) == head);
    assert(key.skip(head.len() as int + 1) == tail);
    assert(integer_text(index as int) == tail);
}

/// One choice offered to the user: the resolution shown and the key sent
/// back where it is picked.
pub struct Choice {
    pub label: String,
    pub key: String,
}

/// What a `Choice` holds.
pub struct ChoiceView {
    pub label: Seq<char>,
    pub key: Seq<char>,
}

impl View for Choice {
    type V = ChoiceView;

    open spec fn view(&self) -> ChoiceView {
        ChoiceView { label: self.label@, key: self.key@ }
    }
}

impl DeepView for Choice {
    type V = ChoiceView;

    open spec fn deep_view(&self) -> ChoiceView {
        self@
    }
}

/// The choices among the variants found for a request: one for each variant,
/// in their order, labelled with its resolution.
pub fn choices(request_id: i32, playlist: &VariantPlaylist) -> (offered: Vec<Choice>)
    ensures
        offered.len() == playlist@.len(),
        forall|i: int|
            0 <= i < offered.len() ==> (#[trigger] offered[i])@ == (ChoiceView {
                label: playlist@[i].resolution,
                key: selection_key_of(request_id as int, i as nat),
            }),
{
    let mut offered: Vec<Choice> = Vec::new();
    let mut at: usize = 0;
    while at < playlist.master_playlists.len()
        invariant
            at <= playlist.master_playlists.len(),
            offered.len() == at,
            forall|i: int|
                0 <= i < offered.len() ==> (#[trigger] offered[i])@ == (ChoiceView {
                    label: playlist@[i].resolution,
                    key: selection_key_of(request_id as int, i as nat),
                }),
        decreases playlist.master_playlists.len() - at,
    {
        let label = playlist.master_playlists[at].resolution().clone();
        offered.push(Choice { label, key: selection_key(request_id, at) });
        at += 1;
    }
    offered
}

} // verus!
