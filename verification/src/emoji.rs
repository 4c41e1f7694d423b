//! The emoji commands: turning a downloaded image into the data URI that
//! Discord takes for a new emoji, finding the emoji that a mention names,
//! and the replies of `new_emoji`, `remove_emoji` and `rename_emoji`.

use vstd::prelude::*;
use vstd::utf8::encode_utf8;
use vstd::utf8::{
    encode_utf8_valid_utf8, is_ascii_chars, is_ascii_chars_encode_utf8, is_char_boundary,
    is_char_boundary_iff_not_is_continuation_byte, is_char_boundary_start_end_of_seq,
};
use crate::encoding::{
    base64_decoded, base64_encode, base64_fits, base64_of, lemma_base64_len,
    lemma_base64_round_trip,
};
use crate::reply::{join2, join4, owned, Outgoing, OutgoingView};
use crate::text::{
    chars_of, contains, has_prefix, has_run, is_decimal_text_of, is_digit, last_segment,
    last_segment_of, parsed_u64, starts_with,
};

verus! {

/// The image formats that an emoji upload accepts.
#[derive(PartialEq, Eq, Structural, Debug, Clone, Copy)]
pub enum ImageKind {
    Png,
    Jpeg,
    Gif,
}

/// Why an emoji upload was refused before it reached Discord.
#[derive(PartialEq, Eq, Structural, Debug, Clone, Copy)]
pub enum ImageError {
    /// The file name of the image names none of png, jpg, jpeg or gif.
    NotValid,
}

impl ImageError {
    /// The text of the error.
    pub fn message(&self) -> (s: String)
        ensures
            s@ == "Image is not valid"@,
    {
        owned("Image is not valid")
    }
}

/// The format that the last segment of an image URL names: png first, then
/// jpg or jpeg, then gif.
pub open spec fn image_kind_of(segment: Seq<char>) -> Option<ImageKind> {
    if has_run(segment, "png"@) {
        Some(ImageKind::Png)
    } else if has_run(segment, "jpg"@) || has_run(segment, "jpeg"@) {
        Some(ImageKind::Jpeg)
    } else if has_run(segment, "gif"@) {
        Some(ImageKind::Gif)
    } else {
        None
    }
}

/// The data-URI header of an image format.
pub open spec fn data_uri_header(kind: ImageKind) -> Seq<char> {
    match kind {
        ImageKind::Png => "data:image/png;base64,"@,
        ImageKind::Jpeg => "data:image/jpeg;base64,"@,
        ImageKind::Gif => "data:image/gif;base64,"@,
    }
}

/// The data URI of an image whose URL ends in `segment` and whose base64
/// text is `encoded`, or the refusal.
pub open spec fn data_uri_of(segment: Seq<char>, encoded: Seq<char>) -> Result<
    Seq<char>,
    ImageError,
> {
    match image_kind_of(segment) {
        Some(kind) => Ok(data_uri_header(kind) + encoded),
        None => Err(ImageError::NotValid),
    }
}

/// The value of a `Result<String, ImageError>`.
pub open spec fn uri_result_view(r: Result<String, ImageError>) -> Result<Seq<char>, ImageError> {
    match r {
        Ok(s) => Ok(s@),
        Err(e) => Err(e),
    }
}

/// The format that the last segment of an image URL names.
pub fn image_kind(segment: &str) -> (k: Option<ImageKind>)
    ensures
        k == image_kind_of(segment@),
{
    proof {
        reveal_strlit("png");
        reveal_strlit("jpg");
        reveal_strlit("jpeg");
        reveal_strlit("gif");
    }
    if contains(segment, "png") {
        Some(ImageKind::Png)
    } else if contains(segment, "jpg") || contains(segment, "jpeg") {
        Some(ImageKind::Jpeg)
    } else if contains(segment, "gif") {
        Some(ImageKind::Gif)
    } else {
        None
    }
}

/// The data URI of an image already encoded in base64, given the last
/// segment of its URL.
pub fn data_uri(segment: &str, encoded: &str) -> (r: Result<String, ImageError>)
    ensures
        uri_result_view(r) == data_uri_of(segment@, encoded@),
{
    match image_kind(segment) {
        Some(ImageKind::Png) => Ok(join2("data:image/png;base64,", encoded)),
        Some(ImageKind::Jpeg) => Ok(join2("data:image/jpeg;base64,", encoded)),
        Some(ImageKind::Gif) => Ok(join2("data:image/gif;base64,", encoded)),
        None => Err(ImageError::NotValid),
    }
}

/// Encodes the image in base64 and wraps it in the data URI of the format
/// that `segment` names.
pub fn read_image(segment: &str, bytes: &[u8]) -> (r: Result<String, ImageError>)
    requires
        base64_fits(bytes@.len()),
    ensures
        uri_result_view(r) == data_uri_of(segment@, base64_of(bytes@)),
{
    let encoded = base64_encode(bytes);
    data_uri(segment, encoded.as_str())
}

/// The image payload of a new emoji: the image at `image_url`, whose bytes
/// were downloaded, as a data URI whose format the last segment of the URL
/// names.
pub fn new_emoji(image_url: &str, bytes: &[u8]) -> (r: Result<String, ImageError>)
    requires
        base64_fits(bytes@.len()),
    ensures
        uri_result_view(r) == data_uri_of(last_segment_of(image_url@), base64_of(bytes@)),
{
    let segment = last_segment(image_url);
    read_image(segment.as_str(), bytes)
}

/// An upload is refused exactly when the file name names none of png,
/// jpg, jpeg and gif; an accepted one is a `data:image/` header followed by
/// the base64 text unchanged.
pub proof fn lemma_data_uri_shape(segment: Seq<char>, encoded: Seq<char>)
    ensures
        data_uri_of(segment, encoded) is Err <==> (!has_run(segment, "png"@) && !has_run(
            segment,
            "jpg"@,
        ) && !has_run(segment, "jpeg"@) && !has_run(segment, "gif"@)),
        data_uri_of(segment, encoded) matches Ok(u) ==> has_prefix(u, "data:image/"@) && u.skip(
            u.len() - encoded.len(),
        ) == encoded,
{
    reveal_strlit("data:image/");
    reveal_strlit("data:image/png;base64,");
    reveal_strlit("data:image/jpeg;base64,");
    reveal_strlit("data:image/gif;base64,");
    if let Ok(u) = data_uri_of(segment, encoded) {
        let header = data_uri_header(image_kind_of(segment).unwrap());
        assert(u == header + encoded);
        assert(u.take(11) =~= "data:image/"@);
        assert(u.skip(u.len() - encoded.len()) =~= encoded);
    }
}

/// The image type of an upload follows from which of png, jpg, jpeg and gif
/// its file name contains, and from nothing else in the name: png wins,
/// then jpg or jpeg give jpeg, then gif; with none of them it is refused.
pub proof fn lemma_upload_type(segment: Seq<char>, encoded: Seq<char>)
    ensures
        has_run(segment, "png"@) ==> data_uri_of(segment, encoded) == Ok::<Seq<char>, ImageError>(
            "data:image/png;base64,"@ + encoded,
        ),
        !has_run(segment, "png"@) && (has_run(segment, "jpg"@) || has_run(segment, "jpeg"@))
            ==> data_uri_of(segment, encoded) == Ok::<Seq<char>, ImageError>(
            "data:image/jpeg;base64,"@ + encoded,
        ),
        !has_run(segment, "png"@) && !has_run(segment, "jpg"@) && !has_run(segment, "jpeg"@)
            && has_run(segment, "gif"@) ==> data_uri_of(segment, encoded) == Ok::<
            Seq<char>,
            ImageError,
        >("data:image/gif;base64,"@ + encoded),
        !has_run(segment, "png"@) && !has_run(segment, "jpg"@) && !has_run(segment, "jpeg"@)
            && !has_run(segment, "gif"@) ==> data_uri_of(segment, encoded) == Err::<
            Seq<char>,
            ImageError,
        >(ImageError::NotValid),
{
}

/// The payload of an accepted image ends in its base64 text, which has
/// `4 * ceil(n / 3)` characters for `n` bytes and reads back as the bytes.
pub proof fn lemma_image_payload(segment: Seq<char>, bytes: Seq<u8>)
    ensures
        data_uri_of(segment, base64_of(bytes)) matches Ok(u) ==> {
            let e = u.skip(u.len() - 4 * ((bytes.len() + 2) / 3));
            &&& e == base64_of(bytes)
            &&& base64_decoded(e) == bytes
        },
{
    lemma_base64_len(bytes);
    lemma_base64_round_trip(bytes);
    lemma_data_uri_shape(segment, base64_of(bytes));
}

/// The reply after an emoji was created: its mention and its name.
pub fn created_emoji_reply(mention: &str, name: &str) -> (o: Outgoing)
    ensures
        o@ == OutgoingView::Say("Created emoji "@ + mention@ + " with name "@ + name@),
{
    Outgoing::Say(join4("Created emoji ", mention, " with name ", name))
}

/// An emoji named in a message: whether it is animated, its name and id.
#[derive(Debug, Clone, PartialEq, Eq)]
pub struct EmojiRef {
    pub animated: bool,
    pub name: String,
    pub id: u64,
}

/// The value of an `Option<EmojiRef>`.
pub open spec fn emoji_ref_view(e: Option<EmojiRef>) -> Option<(bool, Seq<char>, u64)> {
    match e {
        Some(e) => Some((e.animated, e.name@, e.id)),
        None => None,
    }
}

/// Index of the first `c` in `s`.
pub open spec fn first_index_of(s: Seq<char>, c: char) -> Option<int>
    decreases s.len(),
{
    if s.len() == 0 {
        None
    } else if s[0] == c {
        Some(0)
    } else {
        match first_index_of(s.drop_first(), c) {
            Some(i) => Some(i + 1),
            None => None,
        }
    }
}

/// The index of the character of `m` that starts at byte offset `b` of its
/// UTF-8 text.
pub open spec fn char_index_of_byte(m: Seq<char>, b: int) -> int
    decreases m.len(),
{
    if b <= 0 || m.len() == 0 {
        0
    } else {
        1 + char_index_of_byte(m.drop_first(), b - encode_utf8(seq![m[0]]).len())
    }
}

/// `s` up to, not including, its first `'>'`.
pub open spec fn before_gt(s: Seq<char>) -> Seq<char> {
    match first_index_of(s, '>') {
        Some(i) => s.take(i),
        None => s,
    }
}

/// What serenity's `utils::parse_emoji` makes of `m`: for a mention of 6 to
/// 56 bytes that starts with `<:` or `<a:` and ends with `'>'`, the name is
/// what stands between that start and the first `':'`, and the id is read
/// from the text up to the next `'>'` that begins at the byte offset equal
/// to the number of characters before that `':'` plus one (the offset right
/// after the `':'` when the name is ASCII).
pub open spec fn parsed_emoji(m: Seq<char>) -> Option<(bool, Seq<char>, u64)> {
    let animated = has_prefix(m, "<a:"@);
    let start: int = if animated {
        3
    } else {
        2
    };
    let n = encode_utf8(m).len();
    if !(6 <= n <= 56) || !(has_prefix(m, "<:"@) || animated) || m.last() != '>' {
        None
    } else {
        match first_index_of(m.skip(start), ':') {
            None => None,
            Some(i) => {
                let from = char_index_of_byte(m, i + start + 1);
                match parsed_u64(before_gt(m.skip(from))) {
                    Some(id) => Some((animated, m.skip(start).take(i), id)),
                    None => None,
                }
            },
        }
    }
}

/// The mentions on which serenity's `parse_emoji` panics: it slices the
/// mention at byte 3, and after the first `':'` of the name at the
/// character count of the name, taken as a byte offset; either panics when
/// it is not a character boundary of the UTF-8 text.
pub open spec fn emoji_parse_panics(m: Seq<char>) -> bool {
    let bytes = encode_utf8(m);
    let animated = has_prefix(m, "<a:"@);
    let start: int = if animated {
        3
    } else {
        2
    };
    &&& 6 <= bytes.len() <= 56
    &&& has_prefix(m, "<:"@) || animated
    &&& m.last() == '>'
    &&& (!is_char_boundary(bytes, 3) || match first_index_of(m.skip(start), ':') {
        Some(i) => !is_char_boundary(bytes, i + start + 1),
        None => false,
    })
}

/// Calls serenity's `utils::parse_emoji`. Trusted: the result is
/// `parsed_emoji(mention)`, fields moved over one for one; its id is read
/// as `str::parse::<u64>` reads it. `requires` leaves out the mentions on
/// which it panics.
#[verifier::external_body]
fn serenity_parse_emoji(mention: &str) -> (r: Option<EmojiRef>)
    requires
        !emoji_parse_panics(mention@),
    ensures
        emoji_ref_view(r) == parsed_emoji(mention@),
{
    match serenity::utils::parse_emoji(mention) {
        Some(e) => Some(EmojiRef { animated: e.animated, name: e.name, id: e.id.0 }),
        None => None,
    }
}

proof fn lemma_first_index_at(s: Seq<char>, k: int, c: char)
    requires
        0 <= k <= s.len(),
        forall|j: int| 0 <= j < k ==> s[j] != c,
    ensures
        k < s.len() && s[k] == c ==> first_index_of(s, c) == Some(k),
        k == s.len() ==> first_index_of(s, c) == None::<int>,
    decreases k,
{
    if k > 0 {
        lemma_first_index_at(s.drop_first(), k - 1, c);
    }
}

/// Whether serenity's `parse_emoji` would panic on `mention`.
pub fn parse_emoji_panics(mention: &str) -> (r: bool)
    ensures
        r == emoji_parse_panics(mention@),
{
    let bytes = mention.as_bytes();
    let n = bytes.len();
    if n < 6 || n > 56 {
        return false;
    }
    proof {
        reveal_strlit("<a:");
        reveal_strlit("<:");
    }
    let animated = starts_with(mention, "<a:");
    if !(starts_with(mention, "<:") || animated) {
        return false;
    }
    let v = chars_of(mention);
    if v[v.len() - 1] != '>' {
        return false;
    }
    if !mention.is_char_boundary(3) {
        return true;
    }
    let start: usize = if animated {
        3
    } else {
        2
    };
    let ghost rest = mention@.skip(start as int);
    let mut i: usize = start;
    while i < v.len() && v[i] != ':'
        invariant
            v@ == mention@,
            start <= i <= v.len(),
            start <= v.len(),
            rest == mention@.skip(start as int),
            forall|j: int| start <= j < i ==> v@[j] != ':',
        decreases v.len() - i,
    {
        i = i + 1;
    }
    proof {
        assert forall|j: int| 0 <= j < i - start implies rest[j] != ':' by {
            assert(rest[j] == v@[j + start]);
        }
        lemma_first_index_at(rest, i - start, ':');
    }
    if i == v.len() {
        false
    } else {
        !mention.is_char_boundary(i + 1)
    }
}

/// The mention `<:name:id>`, or `<a:name:id>` for an animated emoji.
pub open spec fn emoji_mention_text(animated: bool, name: Seq<char>, digits: Seq<char>) -> Seq<
    char,
> {
    (if animated {
        "<a:"@
    } else {
        "<:"@
    }) + name + ":"@ + digits + ">"@
}

proof fn lemma_ascii_char_index(m: Seq<char>, b: int)
    requires
        is_ascii_chars(m),
        0 <= b <= m.len(),
    ensures
        char_index_of_byte(m, b) == b,
    decreases m.len(),
{
    if b > 0 {
        let c = seq![m[0]];
        assert(is_ascii_chars(c));
        is_ascii_chars_encode_utf8(c);
        assert(is_ascii_chars(m.drop_first()));
        lemma_ascii_char_index(m.drop_first(), b - 1);
    }
}

proof fn lemma_ascii_boundary(m: Seq<char>, k: int)
    requires
        is_ascii_chars(m),
        0 <= k <= m.len(),
    ensures
        is_char_boundary(encode_utf8(m), k),
{
    let bytes = encode_utf8(m);
    is_ascii_chars_encode_utf8(m);
    encode_utf8_valid_utf8(m);
    if k == m.len() {
        is_char_boundary_start_end_of_seq(bytes);
    } else {
        assert(bytes[k] == m[k] as u8);
        is_char_boundary_iff_not_is_continuation_byte(bytes, k);
    }
}

/// serenity's `parse_emoji` never panics on an ASCII mention.
pub proof fn lemma_ascii_emoji_mentions_parse(m: Seq<char>)
    requires
        is_ascii_chars(m),
    ensures
        !emoji_parse_panics(m),
{
    is_ascii_chars_encode_utf8(m);
    if m.len() >= 3 {
        lemma_ascii_boundary(m, 3);
    }
    let start: int = if has_prefix(m, "<a:"@) {
        3
    } else {
        2
    };
    if m.len() >= 6 {
        if let Some(i) = first_index_of(m.skip(start), ':') {
            lemma_first_index_bound(m.skip(start), ':');
            lemma_ascii_boundary(m, i + start + 1);
        }
    }
}

proof fn lemma_first_index_bound(s: Seq<char>, c: char)
    ensures
        first_index_of(s, c) matches Some(i) ==> 0 <= i < s.len() && s[i] == c,
    decreases s.len(),
{
    if s.len() > 0 && s[0] != c {
        lemma_first_index_bound(s.drop_first(), c);
    }
}

/// A mention written as `<:name:id>` or `<a:name:id>`, with an ASCII name
/// free of `':'` and `'>'`, the id in decimal, and 6 to 56 characters in
/// all, is read as that animated flag, that name and that id, and the
/// emoji commands act on that id.
pub proof fn lemma_mention_gives_its_id(animated: bool, name: Seq<char>, digits: Seq<char>, id: u64)
    requires
        forall|i: int|
            0 <= i < name.len() ==> '\0' <= #[trigger] name[i] <= '\u{7f}' && name[i] != ':'
                && name[i] != '>',
        is_decimal_text_of(digits, id as nat),
        6 <= emoji_mention_text(animated, name, digits).len() <= 56,
    ensures
        !emoji_parse_panics(emoji_mention_text(animated, name, digits)),
        parsed_emoji(emoji_mention_text(animated, name, digits)) == Some((animated, name, id)),
        emoji_step_of(parsed_emoji(emoji_mention_text(animated, name, digits)))
            == EmojiStepView::Act(id),
{
    reveal_strlit("<a:");
    reveal_strlit("<:");
    reveal_strlit(":");
    reveal_strlit(">");
    let m = emoji_mention_text(animated, name, digits);
    let head: Seq<char> = if animated {
        "<a:"@
    } else {
        "<:"@
    };
    let start: int = head.len() as int;
    let colon = start + name.len();
    assert(m =~= head + name + seq![':'] + digits + seq!['>']);
    assert forall|i: int| 0 <= i < m.len() implies '\0' <= #[trigger] m[i] <= '\u{7f}' by {
        if i >= colon + 1 && i < m.len() - 1 {
            assert(m[i] == digits[i - colon - 1]);
            assert(is_digit(digits[i - colon - 1]));
        } else if start <= i < colon {
            assert(m[i] == name[i - start]);
        }
    }
    assert(is_ascii_chars(m));
    is_ascii_chars_encode_utf8(m);
    lemma_ascii_boundary(m, 3);
    lemma_ascii_boundary(m, colon + 1);
    assert(has_prefix(m, "<a:"@) == animated) by {
        if animated {
            assert(m.take(3) =~= "<a:"@);
        } else {
            assert(m[1] == ':');
            assert(!(m.take(3) =~= "<a:"@) || m.take(3)[1] == 'a');
        }
    }
    if !animated {
        assert(m.take(2) =~= "<:"@);
    }
    let rest = m.skip(start);
    assert forall|j: int| 0 <= j < name.len() implies rest[j] != ':' by {
        assert(rest[j] == name[j]);
    }
    assert(rest[name.len() as int] == ':');
    lemma_first_index_at(rest, name.len() as int, ':');
    lemma_ascii_char_index(m, colon + 1);
    let tail = m.skip(colon + 1);
    assert(tail =~= digits + seq!['>']);
    assert forall|j: int| 0 <= j < digits.len() implies tail[j] != '>' by {
        assert(tail[j] == digits[j]);
        assert(is_digit(digits[j]));
    }
    lemma_first_index_at(tail, digits.len() as int, '>');
    assert(tail.take(digits.len() as int) =~= digits);
    assert(is_digit(digits[0]));
    assert(rest.take(name.len() as int) =~= name);
}

/// The emoji that `mention` names, as serenity's `parse_emoji` reads it.
pub fn parse_emoji(mention: &str) -> (r: Option<EmojiRef>)
    requires
        !emoji_parse_panics(mention@),
    ensures
        emoji_ref_view(r) == parsed_emoji(mention@),
{
    serenity_parse_emoji(mention)
}

/// What `remove_emoji` and `rename_emoji` do once they have read the emoji
/// argument.
#[derive(Debug, Clone, PartialEq, Eq)]
pub enum EmojiStep {
    /// No emoji is named: send this and stop.
    Send(Outgoing),
    /// Delete or rename the emoji with this id.
    Act(u64),
}

/// The value of an [`EmojiStep`].
pub enum EmojiStepView {
    Send(OutgoingView),
    Act(u64),
}

impl View for EmojiStep {
    type V = EmojiStepView;

    open spec fn view(&self) -> EmojiStepView {
        match self {
            EmojiStep::Send(o) => EmojiStepView::Send(o@),
            EmojiStep::Act(id) => EmojiStepView::Act(*id),
        }
    }
}

/// The step that follows from what the emoji argument names.
pub open spec fn emoji_step_of(parsed: Option<(bool, Seq<char>, u64)>) -> EmojiStepView {
    match parsed {
        Some((_, _, id)) => EmojiStepView::Act(id),
        None => EmojiStepView::Send(OutgoingView::Say("That emoji was not found"@)),
    }
}

/// An emoji command acts on exactly the id that its argument was read as,
/// and answers that the emoji was not found when nothing was read.
pub proof fn lemma_step_acts_on_read_id(animated: bool, name: Seq<char>, id: u64)
    ensures
        emoji_step_of(Some((animated, name, id))) == EmojiStepView::Act(id),
        emoji_step_of(None) == EmojiStepView::Send(OutgoingView::Say("That emoji was not found"@)),
{
}

/// The step that follows from an already parsed emoji argument.
pub fn emoji_step(parsed: &Option<EmojiRef>) -> (s: EmojiStep)
    ensures
        s@ == emoji_step_of(emoji_ref_view(*parsed)),
{
    match parsed {
        Some(e) => EmojiStep::Act(e.id),
        None => EmojiStep::Send(Outgoing::Say(owned("That emoji was not found"))),
    }
}

/// `remove_emoji`: reads the emoji that `name` names; its id is the one to
/// delete, and when there is none the command answers that it was not
/// found.
pub fn remove_emoji(name: &str) -> (s: EmojiStep)
    requires
        !emoji_parse_panics(name@),
    ensures
        s@ == emoji_step_of(parsed_emoji(name@)),
{
    let parsed = parse_emoji(name);
    emoji_step(&parsed)
}

/// `rename_emoji`: reads the emoji that `name` names; its id is the one to
/// rename, and when there is none the command answers that it was not
/// found.
pub fn rename_emoji(name: &str) -> (s: EmojiStep)
    requires
        !emoji_parse_panics(name@),
    ensures
        s@ == emoji_step_of(parsed_emoji(name@)),
{
    let parsed = parse_emoji(name);
    emoji_step(&parsed)
}

/// The reply after an emoji was deleted.
pub fn emoji_deleted_reply() -> (o: Outgoing)
    ensures
        o@ == OutgoingView::Say("Deleted emoji"@),
{
    Outgoing::Say(owned("Deleted emoji"))
}

/// The reply after an emoji was renamed; `name` is the name that Discord
/// gave back.
pub fn emoji_renamed_reply(name: &str) -> (o: Outgoing)
    ensures
        o@ == OutgoingView::Say("Renamed emoji to "@ + name@),
{
    Outgoing::Say(join2("Renamed emoji to ", name))
}

} // verus!
