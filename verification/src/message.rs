use vstd::prelude::*;

verus! {

/// A message at the specification level: the sender's identity tag and the
/// text payload, each as a sequence of characters.
#[verifier::ext_equal]
pub struct ChannelMessageView {
    pub sender_id: Seq<char>,
    pub content: Seq<char>,
}

/// A message relayed through a channel: the raw text payload together with
/// the identity tag of the connection that produced it. The tag is used only
/// to filter the message out on its way back to the same connection; it is
/// never exposed to other participants.
pub struct ChannelMessage {
    pub sender_id: String,
    pub content: String,
}

impl View for ChannelMessage {
    type V = ChannelMessageView;

    open spec fn view(&self) -> ChannelMessageView {
        ChannelMessageView { sender_id: self.sender_id@, content: self.content@ }
    }
}

impl ChannelMessage {
    /// Tag a text payload with the identity of the connection that produced it.
    pub fn new(sender_id: String, content: String) -> (r: ChannelMessage)
        ensures
            r@.sender_id == sender_id@,
            r@.content == content@,
    {
        ChannelMessage { sender_id, content }
    }

    /// An independent copy carrying the same tag and payload.
    pub fn duplicate(&self) -> (r: ChannelMessage)
        ensures
            r@ == self@,
    {
        ChannelMessage { sender_id: self.sender_id.clone(), content: self.content.clone() }
    }
}

} // verus!
