//! The broadcast hub: the outbound channels of the connected clients, and the
//! handling of the control messages that clients send.
//!
//! Channels are only ever added. A broadcast offers the same text to every
//! channel in turn; a channel that refuses it (its client is gone) neither stops
//! the broadcast nor is removed.
use vstd::prelude::*;
use crate::events::{send_raw_request, send_raw_text};
use crate::store::opt_text;

verus! {

pub struct BroadcastHub<C> {
    channels: Vec<C>,
}

impl<C> BroadcastHub<C> {
    /// The registered channels, in order of registration.
    pub closed spec fn channels(&self) -> Seq<C> {
        self.channels@
    }

    /// A hub with no channel.
    pub fn new() -> (r: BroadcastHub<C>)
        ensures
            r.channels() == Seq::<C>::empty(),
    {
        BroadcastHub { channels: Vec::new() }
    }

    /// The number of registered channels.
    pub fn len(&self) -> (r: usize)
        ensures
            r == self.channels().len(),
    {
        self.channels.len()
    }

    /// Registers a client's outbound channel; answers its position.
    pub fn register(&mut self, channel: C) -> (index: usize)
        ensures
            final(self).channels() == old(self).channels().push(channel),
            index == old(self).channels().len(),
    {
        let index = self.channels.len();
        self.channels.push(channel);
        index
    }

    /// Offers `text` to every channel, in order of registration, through `send`,
    /// which answers whether the channel accepted it. Refusals are not acted on;
    /// the answers are returned, one per channel.
    pub fn broadcast<F: Fn(&C, &String) -> bool>(&self, text: &String, send: F) -> (accepted: Vec<
        bool,
    >)
        requires
            forall|i: int|
                0 <= i < self.channels().len() ==> send.requires((&self.channels()[i], text)),
        ensures
            accepted@.len() == self.channels().len(),
            forall|i: int|
                0 <= i < self.channels().len() ==> send.ensures(
                    (&self.channels()[i], text),
                    #[trigger] accepted@[i],
                ),
    {
        let mut accepted: Vec<bool> = Vec::new();
        let mut i: usize = 0;
        while i < self.channels.len()
            invariant
                i <= self.channels@.len(),
                accepted@.len() == i,
                forall|j: int|
                    0 <= j < self.channels@.len() ==> send.requires((&self.channels@[j], text)),
                forall|j: int|
                    0 <= j < i ==> send.ensures((&self.channels@[j], text), #[trigger] accepted@[j]),
            decreases self.channels@.len() - i,
        {
            let ok = send(&self.channels[i], text);
            accepted.push(ok);
            i += 1;
        }
        accepted
    }
}

/// What a client sent over its connection, as far as the hub reads it.
#[derive(Debug)]
pub enum ControlMessage {
    /// The text was not JSON.
    Malformed,
    /// A JSON value: its `name` member when that is a string, and its
    /// `payload.hashes` member when that is an array, whose entries are kept
    /// when they are strings.
    Json { name: Option<String>, hashes: Option<Vec<Option<String>>> },
}

pub open spec fn hash_views(hashes: Seq<Option<String>>) -> Seq<Option<Seq<char>>> {
    hashes.map_values(|h: Option<String>| opt_text(h))
}

/// The request sent for one entry of a hash list: none for an entry that is not
/// a string.
pub open spec fn request_for(h: Option<Seq<char>>) -> Option<Seq<char>> {
    match h {
        Some(x) => Some(send_raw_text(x)),
        None => None,
    }
}

/// The texts to broadcast in answer to a control message: for a `copy_files`
/// message, one `send_raw` request per hash, in order; for anything else,
/// nothing.
pub open spec fn control_request_texts(m: ControlMessage) -> Seq<Seq<char>> {
    match m {
        ControlMessage::Json { name: Some(n), hashes: Some(hs) } => if n@ == "copy_files"@ {
            hash_views(hs@).filter_map(|h: Option<Seq<char>>| request_for(h))
        } else {
            Seq::empty()
        },
        _ => Seq::empty(),
    }
}

/// Decides what to broadcast in answer to a control message.
pub fn control_requests(message: &ControlMessage) -> (r: Vec<String>)
    ensures
        r@.map_values(|s: String| s@) == control_request_texts(*message),
{
    let mut out: Vec<String> = Vec::new();
    match message {
        ControlMessage::Json { name: Some(n), hashes: Some(hs) } => {
            let copy_files = String::from_str("copy_files");
            if *n == copy_files {
                let ghost hv = hash_views(hs@);
                let ghost f = |h: Option<Seq<char>>| request_for(h);
                let mut i: usize = 0;
                while i < hs.len()
                    invariant
                        i <= hs@.len(),
                        hv == hash_views(hs@),
                        f == (|h: Option<Seq<char>>| request_for(h)),
                        out@.map_values(|s: String| s@) == hv.take(i as int).filter_map(f),
                    decreases hs@.len() - i,
                {
                    proof {
                        assert(hv.take(i + 1).drop_last() =~= hv.take(i as int));
                        assert(hv.take(i + 1).last() == hv[i as int]);
                    }
                    let ghost before = out@;
                    match &hs[i] {
                        Some(h) => {
                            let req = send_raw_request(h.as_str());
                            out.push(req);
                            assert(out@.map_values(|s: String| s@) =~= before.map_values(
                                |s: String| s@,
                            ).push(send_raw_text(h@)));
                        },
                        None => {},
                    }
                    i += 1;
                }
                assert(hv.take(hs@.len() as int) =~= hv);
            } else {
                assert(out@.map_values(|s: String| s@) =~= Seq::<Seq<char>>::empty());
            }
        },
        _ => {
            assert(out@.map_values(|s: String| s@) =~= Seq::<Seq<char>>::empty());
        },
    }
    out
}

/// Text that is not JSON, and a message whose name is missing or is not
/// `copy_files`, ask for no broadcast at all.
pub proof fn lemma_ignored_messages_broadcast_nothing(
    name: Option<String>,
    hashes: Option<Vec<Option<String>>>,
)
    ensures
        control_request_texts(ControlMessage::Malformed) == Seq::<Seq<char>>::empty(),
        (match name {
            Some(n) => n@ != "copy_files"@,
            None => true,
        }) ==> control_request_texts(ControlMessage::Json { name, hashes }) == Seq::<
            Seq<char>,
        >::empty(),
{
}

} // verus!
