//! The channel bindings: which channel of one platform is linked to which
//! channel of the other.

use vstd::prelude::*;
use crate::json::{json_document, parse_json, Json, Member};
use crate::str_map::StrMap;
use crate::text::str_eq;

verus! {

/// One linked pair of channels.
#[derive(Debug, PartialEq, Eq)]
pub struct ChannelBinding {
    pub guilded: String,
    pub discord: String,
}

/// The bindings as they were configured, and the two lookup maps made of
/// them, one for each direction.
pub struct Config {
    pub text_channel_bindings: Vec<ChannelBinding>,
    pub text_channel_gd: StrMap<String>,
    pub text_channel_dg: StrMap<String>,
}

/// The links from Guilded channel to Discord channel. Where a channel is
/// bound more than once, the last binding counts.
pub open spec fn links_gd(bindings: Seq<ChannelBinding>) -> Map<Seq<char>, Seq<char>>
    decreases bindings.len(),
{
    if bindings.len() == 0 {
        Map::empty()
    } else {
        links_gd(bindings.drop_last()).insert(bindings.last().guilded@, bindings.last().discord@)
    }
}

/// The links from Discord channel to Guilded channel. Where a channel is
/// bound more than once, the last binding counts.
pub open spec fn links_dg(bindings: Seq<ChannelBinding>) -> Map<Seq<char>, Seq<char>>
    decreases bindings.len(),
{
    if bindings.len() == 0 {
        Map::empty()
    } else {
        links_dg(bindings.drop_last()).insert(bindings.last().discord@, bindings.last().guilded@)
    }
}

/// No channel of either platform occurs in two bindings.
pub open spec fn unique_channels(bindings: Seq<ChannelBinding>) -> bool {
    forall|i: int, j: int|
        0 <= i < j < bindings.len() ==> bindings[i].guilded@ != bindings[j].guilded@
            && bindings[i].discord@ != bindings[j].discord@
}

/// A channel that no binding names has no link, in either direction.
pub proof fn lemma_unbound_channel(bindings: Seq<ChannelBinding>, channel: Seq<char>)
    requires
        forall|i: int| 0 <= i < bindings.len() ==> bindings[i].guilded@ != channel,
        forall|i: int| 0 <= i < bindings.len() ==> bindings[i].discord@ != channel,
    ensures
        !links_gd(bindings).contains_key(channel),
        !links_dg(bindings).contains_key(channel),
    decreases bindings.len(),
{
    if bindings.len() > 0 {
        lemma_unbound_channel(bindings.drop_last(), channel);
    }
}

/// Channel-binding symmetry: with every channel bound at most once, each
/// configured pair is found from either side. Looking up the Guilded channel
/// gives the Discord channel of the pair, and the other way round.
pub proof fn lemma_binding_symmetry(bindings: Seq<ChannelBinding>, i: int)
    requires
        unique_channels(bindings),
        0 <= i < bindings.len(),
    ensures
        links_gd(bindings).contains_key(bindings[i].guilded@),
        links_gd(bindings)[bindings[i].guilded@] == bindings[i].discord@,
        links_dg(bindings).contains_key(bindings[i].discord@),
        links_dg(bindings)[bindings[i].discord@] == bindings[i].guilded@,
    decreases bindings.len(),
{
    if i < bindings.len() - 1 {
        lemma_binding_symmetry(bindings.drop_last(), i);
    }
}

/// The pair of channels that a JSON object binds: its `guilded` and its
/// `discord` member, both strings. Other members are passed over.
pub open spec fn binding_of(item: Json) -> Option<(Seq<char>, Seq<char>)> {
    match (item.text_field("guilded"@), item.text_field("discord"@)) {
        (Some(guilded), Some(discord)) => Some((guilded, discord)),
        _ => None,
    }
}

/// The pairs that a list of JSON values binds, where each of them binds one.
pub open spec fn bindings_of(items: Seq<Json>) -> Option<Seq<(Seq<char>, Seq<char>)>> {
    if forall|i: int| 0 <= i < items.len() ==> (#[trigger] binding_of(items[i])).is_some() {
        Some(Seq::new(items.len(), |i: int| binding_of(items[i]).unwrap()))
    } else {
        None
    }
}

/// The pairs that a configuration document binds. The document is an object
/// whose one kind of member is `text_channel_bindings`, a list of bindings.
pub open spec fn configured(doc: Json) -> Option<Seq<(Seq<char>, Seq<char>)>> {
    match doc {
        Json::Object(members) => {
            if forall|i: int|
                0 <= i < members@.len() ==> (#[trigger] members@[i]).key@
                    == "text_channel_bindings"@ {
                match doc.field("text_channel_bindings"@) {
                    Some(Json::Array(items)) => bindings_of(items@),
                    _ => None,
                }
            } else {
                None
            }
        },
        _ => None,
    }
}

/// The pairs of channels of a list of bindings.
pub open spec fn pairs(bindings: Seq<ChannelBinding>) -> Seq<(Seq<char>, Seq<char>)> {
    Seq::new(bindings.len(), |i: int| (bindings[i].guilded@, bindings[i].discord@))
}

impl ChannelBinding {
    /// Reads one binding from a JSON value.
    pub fn from_json(item: &Json) -> (r: Option<ChannelBinding>)
        ensures
            match r {
                Some(b) => binding_of(*item) == Some((b.guilded@, b.discord@)),
                None => binding_of(*item).is_none(),
            },
    {
        match (item.get_str("guilded"), item.get_str("discord")) {
            (Some(guilded), Some(discord)) => Some(
                ChannelBinding { guilded: guilded.to_owned(), discord: discord.to_owned() },
            ),
            _ => None,
        }
    }
}

impl Config {
    /// Reads the configuration from a parsed document: `None` where the
    /// document is not a configuration.
    pub fn from_json(doc: &Json) -> (r: Option<Config>)
        ensures
            match r {
                Some(config) => config.wf() && configured(*doc) == Some(
                    pairs(config.text_channel_bindings@),
                ),
                None => configured(*doc).is_none(),
            },
    {
        let members: &Vec<Member> = match doc {
            Json::Object(members) => members,
            _ => { return None; },
        };
        let mut k: usize = 0;
        while k < members.len()
            invariant
                k <= members@.len(),
                *doc == Json::Object(*members),
                forall|i: int|
                    0 <= i < k ==> (#[trigger] members@[i]).key@ == "text_channel_bindings"@,
            decreases members@.len() - k,
        {
            if !str_eq(members[k].key.as_str(), "text_channel_bindings") {
                return None;
            }
            k += 1;
        }
        let items: &Vec<Json> = match doc.get("text_channel_bindings") {
            Some(Json::Array(items)) => items,
            _ => { return None; },
        };
        let mut bindings: Vec<ChannelBinding> = Vec::new();
        let mut i: usize = 0;
        while i < items.len()
            invariant
                i <= items@.len(),
                bindings@.len() == i,
                configured(*doc) == bindings_of(items@),
                forall|j: int|
                    0 <= j < i ==> #[trigger] binding_of(items@[j]) == Some(
                        (bindings@[j].guilded@, bindings@[j].discord@),
                    ),
            decreases items@.len() - i,
        {
            match ChannelBinding::from_json(&items[i]) {
                Some(binding) => {
                    bindings.push(binding);
                },
                None => {
                    return None;
                },
            }
            i += 1;
        }
        Some(Config::new(bindings))
    }

    /// Reads the configuration from the text of a configuration file.
    pub fn parse(text: &str) -> (r: Option<Config>)
        ensures
            match r {
                Some(config) => config.wf() && json_document(text@).is_some() && configured(
                    json_document(text@).unwrap(),
                ) == Some(pairs(config.text_channel_bindings@)),
                None => json_document(text@).is_none() || configured(
                    json_document(text@).unwrap(),
                ).is_none(),
            },
    {
        match parse_json(text) {
            Some(doc) => Config::from_json(&doc),
            None => None,
        }
    }

    /// The two maps are well-formed and hold what the bindings say.
    pub open spec fn wf(&self) -> bool {
        &&& self.text_channel_gd.wf()
        &&& self.text_channel_dg.wf()
        &&& self.text_channel_gd.texts() == links_gd(self.text_channel_bindings@)
        &&& self.text_channel_dg.texts() == links_dg(self.text_channel_bindings@)
    }

    /// Builds the lookup maps of both directions from the bindings.
    pub fn new(bindings: Vec<ChannelBinding>) -> (config: Config)
        ensures
            config.wf(),
            config.text_channel_bindings == bindings,
    {
        let mut gd: StrMap<String> = StrMap::new();
        let mut dg: StrMap<String> = StrMap::new();
        let mut i: usize = 0;
        while i < bindings.len()
            invariant
                i <= bindings@.len(),
                gd.wf(),
                dg.wf(),
                gd.texts() == links_gd(bindings@.take(i as int)),
                dg.texts() == links_dg(bindings@.take(i as int)),
            decreases bindings@.len() - i,
        {
            let binding = &bindings[i];
            gd.insert(binding.guilded.clone(), binding.discord.clone());
            dg.insert(binding.discord.clone(), binding.guilded.clone());
            proof {
                let next = bindings@.take(i + 1);
                assert(next.drop_last() =~= bindings@.take(i as int));
            }
            i += 1;
        }
        assert(bindings@.take(i as int) =~= bindings@);
        Config { text_channel_bindings: bindings, text_channel_gd: gd, text_channel_dg: dg }
    }

    /// The Discord channel linked to a Guilded channel.
    pub fn discord_channel(&self, guilded_channel: &str) -> (r: Option<&str>)
        requires
            self.wf(),
        ensures
            r.is_some() == links_gd(self.text_channel_bindings@).contains_key(guilded_channel@),
            r.is_some() ==> r.unwrap()@ == links_gd(self.text_channel_bindings@)[guilded_channel@],
    {
        match self.text_channel_gd.get(guilded_channel) {
            Some(channel) => Some(channel.as_str()),
            None => None,
        }
    }

    /// The Guilded channel linked to a Discord channel.
    pub fn guilded_channel(&self, discord_channel: &str) -> (r: Option<&str>)
        requires
            self.wf(),
        ensures
            r.is_some() == links_dg(self.text_channel_bindings@).contains_key(discord_channel@),
            r.is_some() ==> r.unwrap()@ == links_dg(self.text_channel_bindings@)[discord_channel@],
    {
        match self.text_channel_dg.get(discord_channel) {
            Some(channel) => Some(channel.as_str()),
            None => None,
        }
    }
}

} // verus!
