//! Messages that the bot sends back to the channel of a command.

use vstd::prelude::*;

verus! {

/// A message to send: `Say` posts it in the channel, `Reply` answers the
/// author of the command (Discord prefixes it with a mention of them).
#[derive(Debug, Clone, PartialEq, Eq)]
pub enum Outgoing {
    Say(String),
    Reply(String),
}

/// The mathematical value of an [`Outgoing`] message.
pub enum OutgoingView {
    Say(Seq<char>),
    Reply(Seq<char>),
}

impl View for Outgoing {
    type V = OutgoingView;

    open spec fn view(&self) -> OutgoingView {
        match self {
            Outgoing::Say(s) => OutgoingView::Say(s@),
            Outgoing::Reply(s) => OutgoingView::Reply(s@),
        }
    }
}

/// A `String` holding the characters of `s`.
pub fn owned(s: &str) -> (r: String)
    ensures
        r@ == s@,
{
    String::from_str(s)
}

/// `a` followed by `b`.
pub fn join2(a: &str, b: &str) -> (r: String)
    ensures
        r@ == a@ + b@,
{
    let mut r = String::from_str(a);
    r.append(b);
    r
}

/// `a`, `b` and `c` one after the other.
pub fn join3(a: &str, b: &str, c: &str) -> (r: String)
    ensures
        r@ == a@ + b@ + c@,
{
    let mut r = String::from_str(a);
    r.append(b);
    r.append(c);
    r
}

/// `a` to `d` one after the other.
pub fn join4(a: &str, b: &str, c: &str, d: &str) -> (r: String)
    ensures
        r@ == a@ + b@ + c@ + d@,
{
    let mut r = String::from_str(a);
    r.append(b);
    r.append(c);
    r.append(d);
    r
}

/// `a` to `e` one after the other.
pub fn join5(a: &str, b: &str, c: &str, d: &str, e: &str) -> (r: String)
    ensures
        r@ == a@ + b@ + c@ + d@ + e@,
{
    let mut r = String::from_str(a);
    r.append(b);
    r.append(c);
    r.append(d);
    r.append(e);
    r
}

} // verus!
