//! The relay decision that both directions share: what becomes of one
//! inbound chat message.

use vstd::prelude::*;
use crate::identity::Data;
use crate::str_map::StrMap;

verus! {

/// A chat message as the pipeline sees it, whichever platform it came from.
#[derive(Debug, PartialEq, Eq)]
pub struct Inbound {
    /// The channel it was posted in.
    pub channel: String,
    /// Who posted it.
    pub author: String,
    /// Whether it was posted through an impersonation identity.
    pub echoed: bool,
    /// What is to be delivered: the text, attachments included.
    pub content: String,
}

/// The mathematical value of an [`Inbound`].
pub struct InboundView {
    pub channel: Seq<char>,
    pub author: Seq<char>,
    pub echoed: bool,
    pub content: Seq<char>,
}

impl View for Inbound {
    type V = InboundView;

    open spec fn view(&self) -> InboundView {
        InboundView {
            channel: self.channel@,
            author: self.author@,
            echoed: self.echoed,
            content: self.content@,
        }
    }
}

/// What the pipeline does with one message.
#[derive(Debug, PartialEq, Eq)]
pub enum Relay {
    /// Nothing: the message is dropped.
    Ignore,
    /// Deliver `content` through a cached endpoint.
    Deliver { endpoint: String, content: String },
    /// No identity is cached for `author` in the destination `channel`: one
    /// has to be created, and `content` is then delivered through it.
    Provision { channel: String, author: String, content: String },
}

/// The mathematical value of a [`Relay`].
pub enum RelayView {
    Ignore,
    Deliver { endpoint: Seq<char>, content: Seq<char> },
    Provision { channel: Seq<char>, author: Seq<char>, content: Seq<char> },
}

impl View for Relay {
    type V = RelayView;

    open spec fn view(&self) -> RelayView {
        match self {
            Relay::Ignore => RelayView::Ignore,
            Relay::Deliver { endpoint, content } => RelayView::Deliver {
                endpoint: endpoint@,
                content: content@,
            },
            Relay::Provision { channel, author, content } => RelayView::Provision {
                channel: channel@,
                author: author@,
                content: content@,
            },
        }
    }
}

/// The decision. A message that an impersonation identity posted, or whose
/// channel is not linked, is dropped. Any other goes to the linked channel:
/// through the endpoint cached for its author there, or, where none is
/// cached, through one that is yet to be created.
pub open spec fn relay_of(
    links: Map<Seq<char>, Seq<char>>,
    cache: Map<(Seq<char>, Seq<char>), Seq<char>>,
    message: InboundView,
) -> RelayView {
    if message.echoed || !links.contains_key(message.channel) {
        RelayView::Ignore
    } else if cache.contains_key((links[message.channel], message.author)) {
        RelayView::Deliver {
            endpoint: cache[(links[message.channel], message.author)],
            content: message.content,
        }
    } else {
        RelayView::Provision {
            channel: links[message.channel],
            author: message.author,
            content: message.content,
        }
    }
}

/// Decides what becomes of `message`, given the links of its direction and
/// the identity cache.
pub fn plan(links: &StrMap<String>, data: &Data, message: Inbound) -> (r: Relay)
    requires
        links.wf(),
        data.wf(),
    ensures
        r@ == relay_of(links.texts(), data@, message@),
        message.echoed ==> r is Ignore,
{
    if message.echoed {
        return Relay::Ignore;
    }
    let destination = match links.get(message.channel.as_str()) {
        Some(destination) => destination,
        None => {
            return Relay::Ignore;
        },
    };
    match data.lookup(destination.as_str(), message.author.as_str()) {
        Some(endpoint) => Relay::Deliver { endpoint: endpoint.clone(), content: message.content },
        None => Relay::Provision {
            channel: destination.clone(),
            author: message.author,
            content: message.content,
        },
    }
}

/// Loop prevention: whatever the links and the cache, a message that an
/// impersonation identity posted is never delivered and never has an
/// identity created for it.
pub proof fn lemma_echo_is_dropped(
    links: Map<Seq<char>, Seq<char>>,
    cache: Map<(Seq<char>, Seq<char>), Seq<char>>,
    message: InboundView,
)
    requires
        message.echoed,
    ensures
        relay_of(links, cache, message) == RelayView::Ignore,
{
}

/// Identity idempotence: once an endpoint has been cached for an author in
/// a destination channel, every later message of that author to that
/// channel is delivered through that endpoint, and none asks for a new
/// identity.
pub proof fn lemma_identity_is_reused(
    links: Map<Seq<char>, Seq<char>>,
    cache: Map<(Seq<char>, Seq<char>), Seq<char>>,
    first: InboundView,
    endpoint: Seq<char>,
    second: InboundView,
)
    requires
        relay_of(links, cache, first) is Provision,
        !second.echoed,
        second.channel == first.channel,
        second.author == first.author,
    ensures
        relay_of(
            links,
            cache.insert((links[first.channel], first.author), endpoint),
            first,
        ) == (RelayView::Deliver { endpoint, content: first.content }),
        relay_of(
            links,
            cache.insert((links[first.channel], first.author), endpoint),
            second,
        ) == (RelayView::Deliver { endpoint, content: second.content }),
{
}

} // verus!
