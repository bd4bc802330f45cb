//! The summary view builder: the pure function from (original message,
//! reaction symbol, current count, required threshold) to the renderable
//! summary that is posted in the board's channel.
//!
//! No I/O: the caller fetches the message and renders the result. The
//! content-selection rules are deterministic and recomputed on every
//! reconciliation: severity color from the count, one image chosen by a
//! fixed precedence, and a truncated excerpt of the replied-to message.

use crate::text::{
    first_image_url, format_u64, spec_dec_str, spec_first_image_url, truncate_with_ellipsis,
};
use vstd::prelude::*;

verus! {

/// Severity color while the count stays below twice the threshold.
pub const TIER_ONE_COLOR: u32 = 0xF1C40F;

/// Severity color while the count stays below three times the threshold.
pub const TIER_TWO_COLOR: u32 = 0xE67E22;

/// Severity color from three times the threshold on.
pub const TIER_THREE_COLOR: u32 = 0xE74C3C;

/// How many characters of a replied-to message the summary shows.
pub const REPLY_EXCERPT_LIMIT: usize = 524;

/// One attachment of the original message.
#[derive(Clone, Debug)]
pub struct Attachment {
    pub url: String,
    /// The declared media type, when the platform knows one.
    pub content_type: Option<String>,
}

/// One rich-content block already attached to the original message.
#[derive(Clone, Debug)]
pub struct Embed {
    /// The image the block carries, if any.
    pub image_url: Option<String>,
}

/// The message the original message replied to, when it is a reply.
#[derive(Clone, Debug)]
pub struct ReplyContext {
    pub author_name: String,
    /// The replied-to message's text; empty when it had none.
    pub content: String,
}

/// The original message, re-fetched for this reconciliation.
#[derive(Clone, Debug)]
pub struct SourceMessage {
    pub id: u64,
    pub channel_id: u64,
    pub guild_id: u64,
    pub author_id: u64,
    pub author_name: String,
    pub content: String,
    pub attachments: Vec<Attachment>,
    pub embeds: Vec<Embed>,
    pub reply: Option<ReplyContext>,
    /// The original message's creation time, as a Unix timestamp.
    pub timestamp: i64,
}

/// Where the summary's image came from, in precedence order, or that
/// none was found.
#[derive(Clone, Debug)]
pub enum ImageChoice {
    /// The first attachment whose media type indicates an image.
    FromAttachment { url: String },
    /// The first image link found in the message text.
    FromText { url: String },
    /// The first image carried by a pre-existing rich-content block.
    FromEmbed { url: String },
    NoImage,
}

/// The reply field of the summary, when the original is a reply.
#[derive(Clone, Debug)]
pub struct ReplyField {
    pub title: String,
    pub body: String,
}

/// The severity color band for a count against a threshold: below twice
/// the threshold the first tier, below three times the second, else the
/// third. Recomputed on every reconciliation, never sticky.
pub open spec fn spec_tier_color(count: int, threshold: int) -> u32 {
    if count < 2 * threshold {
        TIER_ONE_COLOR
    } else if count < 3 * threshold {
        TIER_TWO_COLOR
    } else {
        TIER_THREE_COLOR
    }
}

/// Computes the severity color band.
pub fn tier_color(count: u64, threshold: u64) -> (c: u32)
    ensures
        c == spec_tier_color(count as int, threshold as int),
{
    let c = count as u128;
    let t = threshold as u128;
    if c < 2 * t {
        TIER_ONE_COLOR
    } else if c < 3 * t {
        TIER_TWO_COLOR
    } else {
        TIER_THREE_COLOR
    }
}

/// Whether a declared media type indicates an image.
pub open spec fn spec_is_image_content_type(s: Seq<char>) -> bool {
    s.len() >= 5 && s[0] == 'i' && s[1] == 'm' && s[2] == 'a' && s[3] == 'g' && s[4] == 'e'
}

/// Checks whether a declared media type indicates an image.
pub fn is_image_content_type(s: &str) -> (b: bool)
    ensures
        b == spec_is_image_content_type(s@),
{
    s.unicode_len() >= 5 && s.get_char(0) == 'i' && s.get_char(1) == 'm' && s.get_char(2) == 'a'
        && s.get_char(3) == 'g' && s.get_char(4) == 'e'
}

/// Whether an attachment is shown as an image.
pub open spec fn spec_att_is_image(a: Attachment) -> bool {
    a.content_type matches Some(ct) && spec_is_image_content_type(ct@)
}

/// The first attachment shown as an image, if any.
pub open spec fn spec_first_image_attachment(atts: Seq<Attachment>) -> Option<Seq<char>>
    decreases atts.len(),
{
    if atts.len() == 0 {
        None
    } else if spec_att_is_image(atts[0]) {
        Some(atts[0].url@)
    } else {
        spec_first_image_attachment(atts.drop_first())
    }
}

/// The first pre-existing rich-content image, if any.
pub open spec fn spec_first_embed_image(es: Seq<Embed>) -> Option<Seq<char>>
    decreases es.len(),
{
    if es.len() == 0 {
        None
    } else if es[0].image_url is Some {
        Some(es[0].image_url->0@)
    } else {
        spec_first_embed_image(es.drop_first())
    }
}

/// The attachment listing shown when no attachment is an image: every
/// attachment's link, one per line.
pub open spec fn spec_attachment_list(atts: Seq<Attachment>) -> Seq<char>
    decreases atts.len(),
{
    if atts.len() == 0 {
        Seq::empty()
    } else if atts.len() == 1 {
        atts[0].url@
    } else {
        atts[0].url@ + "\n"@ + spec_attachment_list(atts.drop_first())
    }
}

/// The summary's text body: a stable link to the original message.
pub open spec fn spec_message_link(guild_id: nat, channel_id: nat, message_id: nat) -> Seq<char> {
    "https://discord.com/channels/"@ + spec_dec_str(guild_id) + "/"@ + spec_dec_str(channel_id)
        + "/"@ + spec_dec_str(message_id)
}

/// The summary's footer: the symbol, the count, and the original
/// message's id.
pub open spec fn spec_footer(emoji: Seq<char>, count: nat, message_id: nat) -> Seq<char> {
    emoji + " "@ + spec_dec_str(count) + " • "@ + spec_dec_str(message_id)
}

/// The reply field's title.
pub open spec fn spec_reply_title(author_name: Seq<char>) -> Seq<char> {
    "In reply to "@ + author_name + "'s message"@
}

/// The reply field's body: the replied-to text, truncated with an
/// ellipsis past the excerpt limit, or a placeholder when the reply had
/// no text at all (attachment, embed or sticker only).
pub open spec fn spec_reply_body(content: Seq<char>) -> Seq<char> {
    if content.len() == 0 {
        "*[no text content]*"@
    } else if content.len() <= REPLY_EXCERPT_LIMIT {
        content
    } else {
        content.take(REPLY_EXCERPT_LIMIT as int) + "..."@
    }
}

/// The renderable summary of one qualifying message.
#[derive(Clone, Debug)]
pub struct SummaryView {
    /// The text body: a link back to the original message.
    pub content: String,
    /// The severity color band.
    pub color: u32,
    /// The original text content; empty when the original had none, in
    /// which case no description is rendered.
    pub description: String,
    pub footer: String,
    pub author_name: String,
    /// The original message's creation time, as a Unix timestamp.
    pub timestamp: i64,
    pub image: ImageChoice,
    /// The linked listing of attachments, present exactly when the
    /// message has attachments but none is shown as an image.
    pub attachment_list: Option<String>,
    /// Present exactly when the original message is a reply.
    pub reply_field: Option<ReplyField>,
}

/// Picks the summary's image: the first image attachment wins over the
/// first image link in the text, which wins over the first pre-existing
/// rich-content image.
pub fn select_image(m: &SourceMessage) -> (c: ImageChoice)
    ensures
        spec_first_image_attachment(m.attachments@) matches Some(u) ==> c matches
            ImageChoice::FromAttachment { url } && url@ == u,
        spec_first_image_attachment(m.attachments@) is None ==> (spec_first_image_url(m.content@)
            matches Some(u) ==> c matches ImageChoice::FromText { url } && url@ == u),
        spec_first_image_attachment(m.attachments@) is None && spec_first_image_url(m.content@)
            is None ==> (spec_first_embed_image(m.embeds@) matches Some(u) ==> c matches
            ImageChoice::FromEmbed { url } && url@ == u),
        spec_first_image_attachment(m.attachments@) is None && spec_first_image_url(m.content@)
            is None && spec_first_embed_image(m.embeds@) is None ==> c is NoImage,
{
    let ghost atts = m.attachments@;
    let mut i: usize = 0;
    proof {
        assert(atts.skip(0int) =~= atts);
    }
    while i < m.attachments.len()
        invariant
            i <= m.attachments.len(),
            atts == m.attachments@,
            spec_first_image_attachment(atts) == spec_first_image_attachment(
                atts.skip(i as int),
            ),
        decreases m.attachments.len() - i,
    {
        proof {
            assert(atts.skip(i as int)[0] == atts[i as int]);
            assert(atts.skip(i as int).drop_first() =~= atts.skip(i + 1));
        }
        let a = &m.attachments[i];
        let is_image = match &a.content_type {
            Some(ct) => is_image_content_type(ct.as_str()),
            None => false,
        };
        if is_image {
            return ImageChoice::FromAttachment { url: a.url.clone() };
        }
        i += 1;
    }
    proof {
        assert(atts.skip(m.attachments.len() as int) =~= Seq::<Attachment>::empty());
    }
    match first_image_url(m.content.as_str()) {
        Some(url) => {
            return ImageChoice::FromText { url };
        },
        None => {},
    }
    let ghost es = m.embeds@;
    let mut j: usize = 0;
    proof {
        assert(es.skip(0int) =~= es);
    }
    while j < m.embeds.len()
        invariant
            j <= m.embeds.len(),
            es == m.embeds@,
            spec_first_image_attachment(m.attachments@) is None,
            spec_first_image_url(m.content@) is None,
            spec_first_embed_image(es) == spec_first_embed_image(es.skip(j as int)),
        decreases m.embeds.len() - j,
    {
        proof {
            assert(es.skip(j as int)[0] == es[j as int]);
            assert(es.skip(j as int).drop_first() =~= es.skip(j + 1));
        }
        match &m.embeds[j].image_url {
            Some(u) => {
                return ImageChoice::FromEmbed { url: u.clone() };
            },
            None => {},
        }
        j += 1;
    }
    proof {
        assert(es.skip(m.embeds.len() as int) =~= Seq::<Embed>::empty());
    }
    ImageChoice::NoImage
}

/// Joins every attachment's link, one per line.
fn attachment_list(atts: &Vec<Attachment>) -> (r: String)
    ensures
        r@ == spec_attachment_list(atts@),
{
    let ghost all = atts@;
    let mut r = String::new();
    if atts.len() == 0 {
        return r;
    }
    let mut i: usize = atts.len() - 1;
    let mut tail = String::from_str(atts[i].url.as_str());
    proof {
        assert(all.skip(i as int).len() == 1);
        assert(all.skip(i as int)[0] == all[i as int]);
        assert(tail@ == spec_attachment_list(all.skip(i as int)));
    }
    while i > 0
        invariant
            i < atts.len(),
            all == atts@,
            tail@ == spec_attachment_list(all.skip(i as int)),
        decreases i,
    {
        i -= 1;
        proof {
            assert(all.skip(i as int)[0] == all[i as int]);
            assert(all.skip(i as int).drop_first() =~= all.skip(i + 1));
            assert(all.skip(i as int).len() >= 2);
        }
        let mut line = String::from_str(atts[i].url.as_str());
        line.append("\n");
        line.append(tail.as_str());
        tail = line;
    }
    proof {
        assert(all.skip(0int) =~= all);
    }
    tail
}

/// Builds the summary for one qualifying message: the link body, the
/// severity color, the footer with symbol, count and id, the selected
/// image or attachment listing, and the reply excerpt.
pub fn build_summary(m: &SourceMessage, emoji: &String, count: u64, threshold: u64) -> (v:
    SummaryView)
    ensures
        v.content@ == spec_message_link(m.guild_id as nat, m.channel_id as nat, m.id as nat),
        v.color == spec_tier_color(count as int, threshold as int),
        v.description@ == m.content@,
        v.footer@ == spec_footer(emoji@, count as nat, m.id as nat),
        v.author_name@ == m.author_name@,
        v.timestamp == m.timestamp,
        spec_first_image_attachment(m.attachments@) matches Some(u) ==> v.image matches
            ImageChoice::FromAttachment { url } && url@ == u,
        spec_first_image_attachment(m.attachments@) is None ==> (spec_first_image_url(m.content@)
            matches Some(u) ==> v.image matches ImageChoice::FromText { url } && url@ == u),
        spec_first_image_attachment(m.attachments@) is None && spec_first_image_url(m.content@)
            is None ==> (spec_first_embed_image(m.embeds@) matches Some(u) ==> v.image matches
            ImageChoice::FromEmbed { url } && url@ == u),
        spec_first_image_attachment(m.attachments@) is None && spec_first_image_url(m.content@)
            is None && spec_first_embed_image(m.embeds@) is None ==> v.image is NoImage,
        v.attachment_list is Some <==> (spec_first_image_attachment(m.attachments@) is None
            && m.attachments@.len() > 0),
        v.attachment_list matches Some(l) ==> l@ == spec_attachment_list(m.attachments@),
        m.reply matches Some(r) ==> v.reply_field matches Some(f) && f.title@ == spec_reply_title(
            r.author_name@,
        ) && f.body@ == spec_reply_body(r.content@),
        m.reply is None ==> v.reply_field is None,
{
    let mut content = String::from_str("https://discord.com/channels/");
    content.append(format_u64(m.guild_id).as_str());
    content.append("/");
    content.append(format_u64(m.channel_id).as_str());
    content.append("/");
    content.append(format_u64(m.id).as_str());

    let mut footer = String::from_str(emoji.as_str());
    footer.append(" ");
    footer.append(format_u64(count).as_str());
    footer.append(" • ");
    footer.append(format_u64(m.id).as_str());

    let image = select_image(m);
    let has_image_attachment = match &image {
        ImageChoice::FromAttachment { .. } => true,
        _ => false,
    };
    let attachment_listing: Option<String> = if !has_image_attachment && m.attachments.len() > 0 {
        Some(attachment_list(&m.attachments))
    } else {
        None
    };
    let reply_field: Option<ReplyField> = match &m.reply {
        Some(r) => {
            let mut title = String::from_str("In reply to ");
            title.append(r.author_name.as_str());
            title.append("'s message");
            let body = if r.content.unicode_len() == 0 {
                String::from_str("*[no text content]*")
            } else {
                truncate_with_ellipsis(r.content.as_str(), REPLY_EXCERPT_LIMIT)
            };
            Some(ReplyField { title, body })
        },
        None => None,
    };
    SummaryView {
        content,
        color: tier_color(count, threshold),
        description: m.content.clone(),
        footer,
        author_name: m.author_name.clone(),
        timestamp: m.timestamp,
        image,
        attachment_list: attachment_listing,
        reply_field,
    }
}

} // verus!
