//! Rich-message descriptors for the Slack side, built with a fluent builder.
//! Serialization to the wire format happens outside the library.

use vstd::prelude::*;

verus! {

#[derive(Debug, Clone, PartialEq, Eq)]
pub struct EmbedAuthor {
    pub name: String,
    pub icon_url: Option<String>,
    pub url: Option<String>,
}

#[derive(Debug, Clone, PartialEq, Eq)]
pub struct EmbedField {
    pub name: String,
    pub value: String,
    pub inline: bool,
}

#[derive(Debug, Clone, PartialEq, Eq)]
pub struct EmbedFooter {
    pub text: String,
    pub icon_url: Option<String>,
}

#[derive(Debug, Clone, PartialEq, Eq)]
pub struct SlackEmbed {
    pub title: Option<String>,
    pub description: Option<String>,
    pub url: Option<String>,
    pub timestamp: Option<String>,
    pub color: Option<u32>,
    pub footer: Option<EmbedFooter>,
    pub author: Option<EmbedAuthor>,
    pub fields: Vec<EmbedField>,
    pub image_url: Option<String>,
    pub thumbnail_url: Option<String>,
}

impl SlackEmbed {
    /// An embed with nothing set.
    pub fn new() -> (r: SlackEmbed)
        ensures
            r.title is None,
            r.description is None,
            r.url is None,
            r.timestamp is None,
            r.color is None,
            r.footer is None,
            r.author is None,
            r.fields@.len() == 0,
            r.image_url is None,
            r.thumbnail_url is None,
    {
        SlackEmbed {
            title: None,
            description: None,
            url: None,
            timestamp: None,
            color: None,
            footer: None,
            author: None,
            fields: Vec::new(),
            image_url: None,
            thumbnail_url: None,
        }
    }

    pub fn description(self, description: &str) -> (r: SlackEmbed)
        ensures
            r.description matches Some(d) && d@ == description@,
            r.title == self.title,
            r.url == self.url,
            r.timestamp == self.timestamp,
            r.color == self.color,
            r.footer == self.footer,
            r.author == self.author,
            r.fields == self.fields,
            r.image_url == self.image_url,
            r.thumbnail_url == self.thumbnail_url,
    {
        let mut out = self;
        out.description = Some(description.to_owned());
        out
    }

    pub fn title(self, title: &str) -> (r: SlackEmbed)
        ensures
            r.title matches Some(t) && t@ == title@,
            r.description == self.description,
            r.url == self.url,
            r.timestamp == self.timestamp,
            r.color == self.color,
            r.footer == self.footer,
            r.author == self.author,
            r.fields == self.fields,
            r.image_url == self.image_url,
            r.thumbnail_url == self.thumbnail_url,
    {
        let mut out = self;
        out.title = Some(title.to_owned());
        out
    }

    pub fn author(self, author: EmbedAuthor) -> (r: SlackEmbed)
        ensures
            r == (SlackEmbed { author: Some(author), ..self }),
    {
        let mut out = self;
        out.author = Some(author);
        out
    }

    pub fn footer(self, footer: EmbedFooter) -> (r: SlackEmbed)
        ensures
            r == (SlackEmbed { footer: Some(footer), ..self }),
    {
        let mut out = self;
        out.footer = Some(footer);
        out
    }

    pub fn field(self, name: &str, value: &str, inline: bool) -> (r: SlackEmbed)
        ensures
            r.fields@.len() == self.fields@.len() + 1,
            r.fields@.last().name@ == name@,
            r.fields@.last().value@ == value@,
            r.fields@.last().inline == inline,
            r.fields@.subrange(0, self.fields@.len() as int) == self.fields@,
            r.title == self.title,
            r.description == self.description,
            r.url == self.url,
            r.timestamp == self.timestamp,
            r.color == self.color,
            r.footer == self.footer,
            r.author == self.author,
            r.image_url == self.image_url,
            r.thumbnail_url == self.thumbnail_url,
    {
        let mut out = self;
        out.fields.push(EmbedField { name: name.to_owned(), value: value.to_owned(), inline });
        proof {
            assert(out.fields@.subrange(0, out.fields@.len() - 1) =~= self.fields@);
        }
        out
    }

    pub fn color(self, color: u32) -> (r: SlackEmbed)
        ensures
            r == (SlackEmbed { color: Some(color), ..self }),
    {
        let mut out = self;
        out.color = Some(color);
        out
    }

    pub fn timestamp(self, timestamp: &str) -> (r: SlackEmbed)
        ensures
            r.timestamp matches Some(t) && t@ == timestamp@,
            r.title == self.title,
            r.description == self.description,
            r.url == self.url,
            r.color == self.color,
            r.footer == self.footer,
            r.author == self.author,
            r.fields == self.fields,
            r.image_url == self.image_url,
            r.thumbnail_url == self.thumbnail_url,
    {
        let mut out = self;
        out.timestamp = Some(timestamp.to_owned());
        out
    }

    pub fn image(self, url: &str) -> (r: SlackEmbed)
        ensures
            r.image_url matches Some(u) && u@ == url@,
            r.title == self.title,
            r.description == self.description,
            r.url == self.url,
            r.timestamp == self.timestamp,
            r.color == self.color,
            r.footer == self.footer,
            r.author == self.author,
            r.fields == self.fields,
            r.thumbnail_url == self.thumbnail_url,
    {
        let mut out = self;
        out.image_url = Some(url.to_owned());
        out
    }

    pub fn thumbnail(self, url: &str) -> (r: SlackEmbed)
        ensures
            r.thumbnail_url matches Some(u) && u@ == url@,
            r.title == self.title,
            r.description == self.description,
            r.url == self.url,
            r.timestamp == self.timestamp,
            r.color == self.color,
            r.footer == self.footer,
            r.author == self.author,
            r.fields == self.fields,
            r.image_url == self.image_url,
    {
        let mut out = self;
        out.thumbnail_url = Some(url.to_owned());
        out
    }
}

/// The reply preview shown inside an embed: the first 100 characters, with a
/// three-dot marker when the body was longer.
pub open spec fn spec_reply_preview(body: Seq<char>) -> Seq<char> {
    if body.len() > 100 {
        body.subrange(0, 100) + "..."@
    } else {
        body
    }
}

fn reply_preview(body: &str) -> (r: String)
    ensures
        r@ == spec_reply_preview(body@),
{
    let n = body.unicode_len();
    if n > 100 {
        let head = body.substring_char(0, 100);
        let mut out = head.to_owned();
        out.append("...");
        out
    } else {
        body.to_owned()
    }
}

/// The embed for a Matrix message cross-posted to Slack: the body as the
/// description, the sender as the author, and a reply preview field when the
/// message answers an earlier one.
pub fn build_matrix_message_embed(
    sender_displayname: &str,
    sender_avatar_url: Option<&str>,
    body: &str,
    reply_to: Option<(&str, &str)>,
) -> (r: SlackEmbed)
    ensures
        r.description matches Some(d) && d@ == body@,
        r.author matches Some(a) && a.name@ == sender_displayname@ && a.url is None,
        match sender_avatar_url {
            Some(u) => r.author matches Some(a) && a.icon_url matches Some(i) && i@ == u@,
            None => r.author matches Some(a) && a.icon_url is None,
        },
        match reply_to {
            Some(rt) => r.fields@.len() == 1 && r.fields@[0].name@ == "Replying to "@ + rt.0@
                && r.fields@[0].value@ == spec_reply_preview(rt.1@) && !r.fields@[0].inline,
            None => r.fields@.len() == 0,
        },
{
    let embed = SlackEmbed::new().description(body);

    let author = EmbedAuthor {
        name: sender_displayname.to_owned(),
        icon_url: match sender_avatar_url {
            Some(u) => Some(u.to_owned()),
            None => None,
        },
        url: None,
    };
    let embed = embed.author(author);

    match reply_to {
        Some((reply_sender, reply_body)) => {
            let preview = reply_preview(reply_body);
            let mut field_name = "Replying to ".to_owned();
            field_name.append(reply_sender);
            embed.field(field_name.as_str(), preview.as_str(), false)
        },
        None => embed,
    }
}

/// The embed standing for the quoted original of a reply.
pub fn build_reply_embed(
    original_sender: &str,
    original_body: &str,
    original_event_id: Option<&str>,
) -> (r: SlackEmbed)
    ensures
        r.description matches Some(d) && d@ == spec_reply_preview(original_body@),
        match original_event_id {
            Some(_) => r.footer matches Some(f) && f.text@ == "Reply to "@ + original_sender@
                && f.icon_url is None,
            None => r.footer is None,
        },
        r.color == Some(0x2D2D2Du32),
{
    let preview = reply_preview(original_body);
    let embed = SlackEmbed::new().description(preview.as_str());

    let embed = match original_event_id {
        Some(_) => {
            let mut text = "Reply to ".to_owned();
            text.append(original_sender);
            embed.footer(EmbedFooter { text, icon_url: None })
        },
        None => embed,
    };

    embed.color(0x2D2D2D)
}

} // verus!
