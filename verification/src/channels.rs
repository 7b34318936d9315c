//! The channel tree of a server, as far as the bots read it.

use vstd::prelude::*;
use vstd::string::*;

verus! {

/// A channel of the server. The channel with id 0 is the root above all
/// channels; it is not listed itself.
#[derive(Debug, PartialEq, Eq)]
pub struct Channel {
    pub id: u64,
    /// The id of the channel above this one, 0 for a channel at the top.
    pub parent: u64,
    pub name: String,
}

/// The position of the first channel at or after `from` that has this id.
pub open spec fn position_of(channels: Seq<Channel>, id: u64, from: int) -> Option<int>
    decreases channels.len() - from,
{
    if from < 0 || from >= channels.len() {
        None
    } else if channels[from].id == id {
        Some(from)
    } else {
        position_of(channels, id, from + 1)
    }
}

/// The path of the channel `id` that at most `depth` channels lie above:
/// the names from the top down to the channel, joined by `/`. There is none
/// where the channel or one above it is not listed, or where more than
/// `depth` channels lie above it.
pub open spec fn path_within(channels: Seq<Channel>, id: u64, depth: nat) -> Option<Seq<char>>
    decreases depth,
{
    match position_of(channels, id, 0) {
        None => None,
        Some(k) => if channels[k].parent == 0 {
            Some(channels[k].name@)
        } else if depth == 0 {
            None
        } else {
            match path_within(channels, channels[k].parent, (depth - 1) as nat) {
                Some(above) => Some(above + "/"@ + channels[k].name@),
                None => None,
            }
        },
    }
}

/// The path of a channel. A chain of parents that is longer than the list
/// of channels runs in a circle and has no path.
pub open spec fn path_of(channels: Seq<Channel>, id: u64) -> Option<Seq<char>> {
    path_within(channels, id, channels.len())
}

fn find_channel(channels: &Vec<Channel>, id: u64) -> (found: Option<usize>)
    ensures
        match position_of(channels@, id, 0) {
            Some(k) => found is Some && found.unwrap() as int == k && 0 <= k < channels.len(),
            None => found is None,
        },
{
    let mut k: usize = 0;
    while k < channels.len()
        invariant
            0 <= k <= channels.len(),
            position_of(channels@, id, 0) == position_of(channels@, id, k as int),
        decreases channels.len() - k,
    {
        if channels[k].id == id {
            return Some(k);
        }
        k += 1;
    }
    None
}

/// With `tail` behind it.
pub open spec fn followed_by(path: Option<Seq<char>>, tail: Seq<char>) -> Option<Seq<char>> {
    match path {
        Some(p) => Some(p + tail),
        None => None,
    }
}

/// Builds the path of the channel `id` by walking up to the top.
pub fn channel_path(channels: &Vec<Channel>, id: u64) -> (path: Option<String>)
    ensures
        crate::track::text_view(path) == path_of(channels@, id),
{
    let mut current = id;
    let mut depth = channels.len();
    let mut tail = String::new();
    proof {
        match path_of(channels@, id) {
            Some(p) => {
                assert(p + Seq::<char>::empty() =~= p);
            },
            None => {},
        }
    }
    loop
        invariant
            depth <= channels.len(),
            path_of(channels@, id) == followed_by(
                path_within(channels@, current, depth as nat),
                tail@,
            ),
        decreases depth,
    {
        let k = match find_channel(channels, current) {
            Some(k) => k,
            None => {
                return None;
            },
        };
        let channel = &channels[k];
        if channel.parent == 0 {
            let mut path = channel.name.clone();
            path.append(tail.as_str());
            return Some(path);
        }
        if depth == 0 {
            return None;
        }
        let mut longer = String::from_str("/");
        longer.append(channel.name.as_str());
        longer.append(tail.as_str());
        proof {
            match path_within(channels@, channel.parent, (depth - 1) as nat) {
                Some(above) => {
                    assert((above + "/"@ + channel.name@) + tail@ =~= above + longer@);
                },
                None => {},
            }
        }
        tail = longer;
        current = channel.parent;
        depth -= 1;
    }
}

/// How many of the clients are in `channel`, given the channel of each.
pub open spec fn occupants(client_channels: Seq<u64>, channel: u64) -> nat
    decreases client_channels.len(),
{
    if client_channels.len() == 0 {
        0
    } else {
        occupants(client_channels.drop_last(), channel) + if client_channels.last() == channel {
            1nat
        } else {
            0nat
        }
    }
}

/// Counts the clients in `channel`. A count beyond `u32::MAX` is given as
/// `u32::MAX`.
pub fn user_count(client_channels: &Vec<u64>, channel: u64) -> (count: u32)
    ensures
        count == if occupants(client_channels@, channel) <= u32::MAX {
            occupants(client_channels@, channel)
        } else {
            u32::MAX as nat
        },
{
    let mut count: u32 = 0;
    let mut i: usize = 0;
    while i < client_channels.len()
        invariant
            0 <= i <= client_channels.len(),
            count == if occupants(client_channels@.take(i as int), channel) <= u32::MAX {
                occupants(client_channels@.take(i as int), channel)
            } else {
                u32::MAX as nat
            },
        decreases client_channels.len() - i,
    {
        if client_channels[i] == channel && count < u32::MAX {
            count += 1;
        }
        i += 1;
        assert(client_channels@.take(i as int).drop_last() =~= client_channels@.take(i as int - 1));
    }
    assert(client_channels@.take(i as int) =~= client_channels@);
    count
}

} // verus!
