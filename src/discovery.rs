//! Media discovery: which images of a channel's recent messages are
//! candidates. Messages are read newest first by the caller; only embedded
//! images and attachments of an accepted image type qualify.
use vstd::prelude::*;

use crate::orchestrator::{CandidateView, MediaWithMessage};
use crate::text::{is_image_type, lower_of, media_type_is_image};

verus! {

/// What an [`Attachment`] holds.
pub struct AttachmentView {
    pub url: Seq<char>,
    pub content_type: Option<Seq<char>>,
}

/// A file attached to a message.
pub struct Attachment {
    pub url: String,
    pub content_type: Option<String>,
}

impl View for Attachment {
    type V = AttachmentView;

    open spec fn view(&self) -> AttachmentView {
        AttachmentView {
            url: self.url@,
            content_type: match &self.content_type {
                Some(t) => Some(t@),
                None => None,
            },
        }
    }
}

/// What a [`MessageMedia`] holds.
pub struct MessageMediaView {
    pub message_id: u64,
    pub embed_images: Seq<Seq<char>>,
    pub attachments: Seq<AttachmentView>,
}

/// What discovery reads of one message: its id, the images of its embeds
/// (thumbnails are not used) and its attachments.
pub struct MessageMedia {
    pub message_id: u64,
    pub embed_images: Vec<String>,
    pub attachments: Vec<Attachment>,
}

impl View for MessageMedia {
    type V = MessageMediaView;

    open spec fn view(&self) -> MessageMediaView {
        MessageMediaView {
            message_id: self.message_id,
            embed_images: self.embed_images@.map_values(|s: String| s@),
            attachments: self.attachments@.map_values(|a: Attachment| a@),
        }
    }
}

/// Whether an attachment qualifies: its media type is an accepted image
/// type, in any case.
pub open spec fn attachment_qualifies(a: AttachmentView) -> bool {
    match a.content_type {
        Some(t) => is_image_type(lower_of(t)),
        None => false,
    }
}

/// The candidates of a message's embedded images, in order.
pub open spec fn embed_media(urls: Seq<Seq<char>>, message_id: u64) -> Seq<CandidateView> {
    urls.map_values(|u: Seq<char>| CandidateView { media: u, message_id })
}

/// The candidates of a message's qualifying attachments, in order.
pub open spec fn attachment_media(atts: Seq<AttachmentView>, message_id: u64) -> Seq<CandidateView>
    decreases atts.len(),
{
    if atts.len() == 0 {
        Seq::empty()
    } else {
        let rest = attachment_media(atts.drop_last(), message_id);
        if attachment_qualifies(atts.last()) {
            rest.push(CandidateView { media: atts.last().url, message_id })
        } else {
            rest
        }
    }
}

/// The candidates of one message: its embedded images, then its qualifying
/// attachments.
pub open spec fn message_media(m: MessageMediaView) -> Seq<CandidateView> {
    embed_media(m.embed_images, m.message_id) + attachment_media(m.attachments, m.message_id)
}

/// The candidates of a run of messages, message by message.
pub open spec fn messages_media(ms: Seq<MessageMediaView>) -> Seq<CandidateView>
    decreases ms.len(),
{
    if ms.len() == 0 {
        Seq::empty()
    } else {
        messages_media(ms.drop_last()) + message_media(ms.last())
    }
}

/// The candidates of one message.
pub fn media_in_message(message: &MessageMedia) -> (r: Vec<MediaWithMessage>)
    ensures
        r@.map_values(|c: MediaWithMessage| c@) == message_media(message@),
{
    let ghost m = message@;
    let mut out: Vec<MediaWithMessage> = Vec::new();
    let mut i: usize = 0;
    while i < message.embed_images.len()
        invariant
            i <= message.embed_images.len(),
            m == message@,
            out@.map_values(|c: MediaWithMessage| c@) == embed_media(m.embed_images.subrange(0, i as int), m.message_id),
        decreases message.embed_images.len() - i,
    {
        let ghost before = out@;
        let url = message.embed_images[i].clone();
        assert(url@ == m.embed_images[i as int]);
        out.push(MediaWithMessage::new(url, message.message_id));
        assert(out@.map_values(|c: MediaWithMessage| c@) =~= before.map_values(|c: MediaWithMessage| c@).push(
            CandidateView { media: m.embed_images[i as int], message_id: m.message_id },
        ));
        assert(out@.map_values(|c: MediaWithMessage| c@) =~= embed_media(
            m.embed_images.subrange(0, i + 1),
            m.message_id,
        ));
        i = i + 1;
    }
    assert(m.embed_images.subrange(0, i as int) =~= m.embed_images);
    let ghost embeds = out@.map_values(|c: MediaWithMessage| c@);
    let ghost start = out@.len();
    let mut j: usize = 0;
    while j < message.attachments.len()
        invariant
            j <= message.attachments.len(),
            m == message@,
            embeds == embed_media(m.embed_images, m.message_id),
            out@.map_values(|c: MediaWithMessage| c@) == embeds + attachment_media(
                m.attachments.subrange(0, j as int),
                m.message_id,
            ),
        decreases message.attachments.len() - j,
    {
        let ghost next = m.attachments.subrange(0, j + 1);
        assert(next.drop_last() =~= m.attachments.subrange(0, j as int));
        assert(next.last() == message.attachments@[j as int]@);
        let qualifies = match &message.attachments[j].content_type {
            Some(t) => media_type_is_image(t.as_str()),
            None => false,
        };
        if qualifies {
            let ghost before = out@;
            out.push(MediaWithMessage::new(message.attachments[j].url.clone(), message.message_id));
            assert(out@.map_values(|c: MediaWithMessage| c@) =~= before.map_values(|c: MediaWithMessage| c@).push(
                CandidateView { media: message.attachments@[j as int].url@, message_id: m.message_id },
            ));
            assert(embeds + attachment_media(next, m.message_id) =~= (embeds + attachment_media(
                m.attachments.subrange(0, j as int),
                m.message_id,
            )).push(CandidateView { media: next.last().url, message_id: m.message_id }));
        }
        j = j + 1;
    }
    assert(m.attachments.subrange(0, j as int) =~= m.attachments);
    out
}

/// The candidates of the first `limit` messages (newest first), message by
/// message.
pub fn find_media_in_channel(messages: &Vec<MessageMedia>, limit: usize) -> (r: Vec<MediaWithMessage>)
    ensures
        r@.map_values(|c: MediaWithMessage| c@) == messages_media(
            messages@.map_values(|m: MessageMedia| m@).subrange(
                0,
                if limit < messages@.len() { limit as int } else { messages@.len() as int },
            ),
        ),
{
    let ghost ms = messages@.map_values(|m: MessageMedia| m@);
    let end = if limit < messages.len() { limit } else { messages.len() };
    let mut out: Vec<MediaWithMessage> = Vec::new();
    let mut i: usize = 0;
    while i < end
        invariant
            i <= end <= messages.len(),
            ms == messages@.map_values(|m: MessageMedia| m@),
            out@.map_values(|c: MediaWithMessage| c@) == messages_media(ms.subrange(0, i as int)),
        decreases end - i,
    {
        let ghost next = ms.subrange(0, i + 1);
        assert(next.drop_last() =~= ms.subrange(0, i as int));
        assert(next.last() == messages@[i as int]@);
        let found = media_in_message(&messages[i]);
        let ghost before = out@;
        let mut k: usize = 0;
        while k < found.len()
            invariant
                k <= found.len(),
                out@.map_values(|c: MediaWithMessage| c@) == before.map_values(|c: MediaWithMessage| c@)
                    + found@.map_values(|c: MediaWithMessage| c@).subrange(0, k as int),
            decreases found.len() - k,
        {
            let ghost prev = out@;
            out.push(found[k].duplicate());
            assert(out@.map_values(|c: MediaWithMessage| c@) =~= prev.map_values(|c: MediaWithMessage| c@).push(
                found@[k as int]@,
            ));
            assert(found@.map_values(|c: MediaWithMessage| c@).subrange(0, k + 1) =~= found@.map_values(
                |c: MediaWithMessage| c@,
            ).subrange(0, k as int).push(found@[k as int]@));
            assert(out@.map_values(|c: MediaWithMessage| c@) =~= before.map_values(|c: MediaWithMessage| c@)
                + found@.map_values(|c: MediaWithMessage| c@).subrange(0, k + 1));
            k = k + 1;
        }
        assert(found@.map_values(|c: MediaWithMessage| c@).subrange(0, k as int) =~= found@.map_values(
            |c: MediaWithMessage| c@,
        ));
        i = i + 1;
    }
    out
}

} // verus!
