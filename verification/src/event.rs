//! Events raised towards the embedder through the event stream.

use vstd::prelude::*;
use crate::location::DstLocation;
use crate::location::SrcLocation;
use crate::text::append_hex;
use crate::text::spec_hex;
use crate::xor_space::Prefix;
use crate::xor_space::XorName;

verus! {

/// An event raised by a node via its event sender.
///
/// Events from section authorities are only raised once the quorum has been
/// reached: enough members of the section have sent the same message.
pub enum Event {
    /// Received a message; `content` is its payload, `src` the authority
    /// that sent it and `dst` the authority that receives it.
    MessageReceived { content: Vec<u8>, src: SrcLocation, dst: DstLocation },
    /// A node has connected to us.
    NodeAdded(XorName),
    /// A node has disconnected from us.
    NodeLost(XorName),
    /// Our own section has been split, resulting in the included prefix for
    /// our new section.
    SectionSplit(Prefix),
    /// Our own section requires merging with others, resulting in the
    /// included prefix for our new section.
    SectionMerged(Prefix),
    /// The node has successfully connected to the network.
    Connected,
    /// Disconnected or failed to connect - restart required.
    RestartRequired,
    /// Startup failed - terminate.
    Terminated,
    /// Sent periodically, every time the heartbeat messages go out.
    TimerTicked,
    /// Consensus on a custom event.
    Consensus(Vec<u8>),
}

impl Event {
    /// A line describing the event: its kind, and the bytes it carries in
    /// hexadecimal.
    pub fn describe(&self) -> (r: String)
        ensures
            r@ == spec_describe(*self),
    {
        let mut out = String::new();
        proof {
            reveal_strlit("MessageReceived ");
            reveal_strlit("NodeAdded ");
            reveal_strlit("NodeLost ");
            reveal_strlit("SectionSplit");
            reveal_strlit("SectionMerged");
            reveal_strlit("Connected");
            reveal_strlit("RestartRequired");
            reveal_strlit("Terminated");
            reveal_strlit("TimerTicked");
            reveal_strlit("Consensus ");
        }
        match self {
            Event::MessageReceived { content, src: _, dst: _ } => {
                out.append("MessageReceived ");
                append_hex(&mut out, content);
            },
            Event::NodeAdded(name) => {
                out.append("NodeAdded ");
                let bytes = crate::stage::name_bytes_vec(name);
                append_hex(&mut out, &bytes);
            },
            Event::NodeLost(name) => {
                out.append("NodeLost ");
                let bytes = crate::stage::name_bytes_vec(name);
                append_hex(&mut out, &bytes);
            },
            Event::SectionSplit(_) => {
                out.append("SectionSplit");
            },
            Event::SectionMerged(_) => {
                out.append("SectionMerged");
            },
            Event::Connected => {
                out.append("Connected");
            },
            Event::RestartRequired => {
                out.append("RestartRequired");
            },
            Event::Terminated => {
                out.append("Terminated");
            },
            Event::TimerTicked => {
                out.append("TimerTicked");
            },
            Event::Consensus(payload) => {
                out.append("Consensus ");
                append_hex(&mut out, payload);
            },
        }
        proof {
            assert(out@ =~= spec_describe(*self));
        }
        out
    }
}

/// The description of each event: its kind, and the bytes it carries in
/// hexadecimal; names are shortened to their first three bytes.
pub open spec fn spec_describe(e: Event) -> Seq<char> {
    match e {
        Event::MessageReceived { content, src, dst } => "MessageReceived "@ + spec_hex(content@),
        Event::NodeAdded(name) => "NodeAdded "@ + spec_hex(seq![name@[0], name@[1], name@[2]]),
        Event::NodeLost(name) => "NodeLost "@ + spec_hex(seq![name@[0], name@[1], name@[2]]),
        Event::SectionSplit(_) => "SectionSplit"@,
        Event::SectionMerged(_) => "SectionMerged"@,
        Event::Connected => "Connected"@,
        Event::RestartRequired => "RestartRequired"@,
        Event::Terminated => "Terminated"@,
        Event::TimerTicked => "TimerTicked"@,
        Event::Consensus(payload) => "Consensus "@ + spec_hex(payload@),
    }
}

} // verus!
