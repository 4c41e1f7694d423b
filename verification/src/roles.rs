//! The role commands: reading the member and role that their arguments
//! mention, and their replies.

use vstd::prelude::*;
use vstd::utf8::encode_utf8;
use vstd::utf8::{
    encode_utf8_valid_utf8, is_ascii_chars, is_ascii_chars_encode_utf8, is_char_boundary,
    is_char_boundary_iff_not_is_continuation_byte,
};
use crate::reply::{join5, Outgoing, OutgoingView};
use crate::text::{has_prefix, parsed_u64, starts_with};

verus! {

/// The id that serenity's `utils::parse_mention` reads from `m`: `<@&id>`
/// for a role, `<@id` or `<@!id` followed by any one last character for a
/// user, `<#id>` for a channel; `None` for anything else and for mentions
/// shorter than four bytes.
pub open spec fn parsed_mention(m: Seq<char>) -> Option<u64> {
    let short = encode_utf8(m).len() < 4;
    if has_prefix(m, "<@&"@) {
        if short || m.last() != '>' {
            None
        } else {
            parsed_u64(m.subrange(3, m.len() - 1))
        }
    } else if has_prefix(m, "<@"@) {
        if short {
            None
        } else if has_prefix(m, "<@!"@) {
            parsed_u64(m.subrange(3, m.len() - 1))
        } else {
            parsed_u64(m.subrange(2, m.len() - 1))
        }
    } else if has_prefix(m, "<#"@) {
        if short || m.last() != '>' {
            None
        } else {
            parsed_u64(m.subrange(2, m.len() - 1))
        }
    } else {
        None
    }
}

/// The mentions on which serenity's `parse_mention` panics: a user mention
/// of at least four bytes whose last character takes more than one byte,
/// since it slices off the last byte without checking for `'>'`.
pub open spec fn mention_parse_panics(m: Seq<char>) -> bool {
    let bytes = encode_utf8(m);
    &&& has_prefix(m, "<@"@)
    &&& !has_prefix(m, "<@&"@)
    &&& bytes.len() >= 4
    &&& !is_char_boundary(bytes, bytes.len() - 1)
}

/// serenity's `parse_mention` never panics on an ASCII mention.
pub proof fn lemma_ascii_mentions_parse(m: Seq<char>)
    requires
        is_ascii_chars(m),
    ensures
        !mention_parse_panics(m),
{
    let bytes = encode_utf8(m);
    is_ascii_chars_encode_utf8(m);
    encode_utf8_valid_utf8(m);
    if bytes.len() >= 4 {
        assert(bytes[bytes.len() - 1] == m[m.len() - 1] as u8);
        is_char_boundary_iff_not_is_continuation_byte(bytes, bytes.len() - 1);
    }
}

/// Calls serenity's `utils::parse_mention`. Trusted: the result is
/// `parsed_mention(mention)`, where each byte slice that it parses is the
/// character range stated there (its bounds stand next to one-byte
/// characters). `requires` leaves out the mentions on which it panics.
#[verifier::external_body]
fn serenity_parse_mention(mention: &str) -> (r: Option<u64>)
    requires
        !mention_parse_panics(mention@),
    ensures
        r == parsed_mention(mention@),
{
    serenity::utils::parse_mention(mention)
}

/// Whether serenity's `parse_mention` would panic on `mention`.
pub fn parse_mention_panics(mention: &str) -> (r: bool)
    ensures
        r == mention_parse_panics(mention@),
{
    proof {
        reveal_strlit("<@");
        reveal_strlit("<@&");
    }
    let n = mention.as_bytes().len();
    if !starts_with(mention, "<@") || starts_with(mention, "<@&") || n < 4 {
        return false;
    }
    !mention.is_char_boundary(n - 1)
}

/// The id that a user, role or channel mention names, as serenity's
/// `parse_mention` reads it.
pub fn parse_mention_id(mention: &str) -> (r: Option<u64>)
    requires
        !mention_parse_panics(mention@),
    ensures
        r == parsed_mention(mention@),
{
    serenity_parse_mention(mention)
}

/// `add_role`: its reply once the role was given.
pub fn add_role(role_name: &str, member_name: &str) -> (o: Outgoing)
    ensures
        o@ == OutgoingView::Say("Gave role `"@ + role_name@ + "` to `"@ + member_name@ + "`"@),
{
    Outgoing::Say(join5("Gave role `", role_name, "` to `", member_name, "`"))
}

/// `remove_role`: its reply once the role was taken away.
pub fn remove_role(role_name: &str, member_name: &str) -> (o: Outgoing)
    ensures
        o@ == OutgoingView::Say(
            "Removed role `"@ + role_name@ + "` from `"@ + member_name@ + "`"@,
        ),
{
    Outgoing::Say(join5("Removed role `", role_name, "` from `", member_name, "`"))
}

} // verus!
