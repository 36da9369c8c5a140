//! Session descriptions: the offers and answers by which the two ends agree
//! on a connection, and the JSON texts in which they travel.

use vstd::prelude::*;
use webrtc::peer_connection::sdp::sdp_type::RTCSdpType;
use webrtc::peer_connection::sdp::session_description::RTCSessionDescription;

verus! {

/// What a session description is meant as.
#[derive(Debug, Clone, Copy, PartialEq, Eq, Structural)]
pub enum DescriptionKind {
    Unspecified,
    Offer,
    Pranswer,
    Answer,
    Rollback,
}

/// A session description.
#[derive(Debug)]
pub struct Description {
    pub kind: DescriptionKind,
    pub sdp: String,
}

impl View for Description {
    type V = (DescriptionKind, Seq<char>);

    open spec fn view(&self) -> (DescriptionKind, Seq<char>) {
        (self.kind, self.sdp@)
    }
}

/// The session description that a JSON text holds; `None` for a text that
/// holds none.
pub uninterp spec fn description_in(text: Seq<char>) -> Option<(DescriptionKind, Seq<char>)>;

/// `from_str` of the crate `serde_json`, to the `RTCSessionDescription` of
/// the crate `webrtc`: the description, or `None` where it returns an error,
/// is a function of the text.
#[verifier::external_body]
fn parse_description(text: &str) -> (r: Option<Description>)
    ensures
        match r {
            Some(d) => description_in(text@) == Some(d@),
            None => description_in(text@) is None,
        },
{
    let parsed = serde_json::from_str::<RTCSessionDescription>(text).ok()?;
    let kind = match parsed.sdp_type {
        RTCSdpType::Unspecified => DescriptionKind::Unspecified,
        RTCSdpType::Offer => DescriptionKind::Offer,
        RTCSdpType::Pranswer => DescriptionKind::Pranswer,
        RTCSdpType::Answer => DescriptionKind::Answer,
        RTCSdpType::Rollback => DescriptionKind::Rollback,
    };
    Some(Description { kind, sdp: parsed.sdp })
}

/// The word that stands for a kind.
pub open spec fn kind_word(kind: DescriptionKind) -> Seq<char> {
    match kind {
        DescriptionKind::Unspecified => "Unspecified"@,
        DescriptionKind::Offer => "offer"@,
        DescriptionKind::Pranswer => "pranswer"@,
        DescriptionKind::Answer => "answer"@,
        DescriptionKind::Rollback => "rollback"@,
    }
}

/// A lower-case hexadecimal digit.
pub open spec fn hex_digit(n: int) -> char {
    if n < 10 {
        (48 + n) as char
    } else {
        (87 + n) as char
    }
}

/// A character inside a JSON string.
pub open spec fn json_char(c: char) -> Seq<char> {
    if c == '"' || c == '\\' {
        seq!['\\', c]
    } else if c == '\u{8}' {
        seq!['\\', 'b']
    } else if c == '\u{9}' {
        seq!['\\', 't']
    } else if c == '\u{a}' {
        seq!['\\', 'n']
    } else if c == '\u{c}' {
        seq!['\\', 'f']
    } else if c == '\u{d}' {
        seq!['\\', 'r']
    } else if c as int <= 31 {
        seq!['\\', 'u', '0', '0', hex_digit(c as int / 16), hex_digit(c as int % 16)]
    } else {
        seq![c]
    }
}

/// A text inside a JSON string.
pub open spec fn json_chars(s: Seq<char>) -> Seq<char>
    decreases s.len(),
{
    if s.len() == 0 {
        Seq::empty()
    } else {
        json_chars(s.drop_last()) + json_char(s.last())
    }
}

/// A session description as JSON.
pub open spec fn description_json(kind: DescriptionKind, sdp: Seq<char>) -> Seq<char> {
    "{\"type\":\""@ + kind_word(kind) + "\",\"sdp\":\""@ + json_chars(sdp) + "\"}"@
}

/// `to_string` of the crate `serde_json`, of an `RTCSessionDescription` of
/// the crate `webrtc`: it succeeds, writes an object of the kind and the
/// description without white space, and reading it gives both back.
#[verifier::external_body]
fn write_description(kind: DescriptionKind, sdp: &str) -> (r: Option<String>)
    ensures
        r is Some,
        r->0@ == description_json(kind, sdp@),
        description_in(r->0@) == Some((kind, sdp@)),
{
    let mut value = RTCSessionDescription::default();
    value.sdp_type = match kind {
        DescriptionKind::Unspecified => RTCSdpType::Unspecified,
        DescriptionKind::Offer => RTCSdpType::Offer,
        DescriptionKind::Pranswer => RTCSdpType::Pranswer,
        DescriptionKind::Answer => RTCSdpType::Answer,
        DescriptionKind::Rollback => RTCSdpType::Rollback,
    };
    value.sdp = sdp.to_string();
    serde_json::to_string(&value).ok()
}

/// Reads a session description: the answer to a posted offer, or an offer
/// that came over the control channel. `None` when it is malformed.
pub fn description_of(text: &str) -> (r: Option<Description>)
    ensures
        match r {
            Some(d) => description_in(text@) == Some(d@),
            None => description_in(text@) is None,
        },
{
    parse_description(text)
}

/// Writes a session description; the other end reads the same.
pub fn description_text(d: &Description) -> (text: String)
    ensures
        text@ == description_json(d.kind, d.sdp@),
        description_in(text@) == Some(d@),
{
    write_description(d.kind, d.sdp.as_str()).unwrap()
}

/// What the signalling server does with a request.
pub enum OfferStep {
    /// It is no offer: the client is told so, and the server waits on.
    NotFound,
    /// The body is no session description, which ends the exchange.
    Malformed,
    Offer { offer: Description },
}

/// Whether a request to the signalling server carries an offer.
pub fn is_offer_request(is_post: bool, url: &str) -> (b: bool)
    ensures
        b <==> is_post && url@ == "/offer"@,
{
    let wanted: String = "/offer".to_owned();
    let got: String = url.to_owned();
    is_post && got == wanted
}

/// The offer in a request to the signalling server.
pub fn offer_of_request(is_post: bool, url: &str, body: &str) -> (r: OfferStep)
    ensures
        match r {
            OfferStep::NotFound => !(is_post && url@ == "/offer"@),
            OfferStep::Malformed => is_post && url@ == "/offer"@ && description_in(body@) is None,
            OfferStep::Offer { offer } => is_post && url@ == "/offer"@ && description_in(body@)
                == Some(offer@),
        },
{
    if !is_offer_request(is_post, url) {
        return OfferStep::NotFound;
    }
    match description_of(body) {
        Some(offer) => OfferStep::Offer { offer },
        None => OfferStep::Malformed,
    }
}

} // verus!
