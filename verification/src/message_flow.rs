//! The message flow translator: parses a raw inbound event into a normalized
//! record and renders the outbound descriptor for the other side. Markup
//! conversion between the two platforms' text formats is a separate
//! text-in/text-out collaborator applied by the caller; the translator works
//! on the plain body.

use vstd::prelude::*;

use crate::embed::SlackEmbed;
use crate::embed::build_matrix_message_embed;
use crate::events::MatrixEvent;
use crate::events::MatrixEventContent;
use crate::events::MessageText;
use crate::text::spec_join;
use crate::text::join_strings;

verus! {

/// How a message relates to an earlier one: a reply or an edit, carrying an
/// id in the origin platform's id space until it is resolved.
#[derive(Debug, Clone, PartialEq, Eq)]
pub enum MessageRelation {
    Reply { event_id: String },
    Replace { event_id: String },
}

#[derive(Debug, Clone, PartialEq, Eq)]
pub struct MessageAttachment {
    pub name: String,
    pub url: String,
    pub kind: String,
}

/// A normalized inbound message from the Matrix side.
#[derive(Debug, Clone, PartialEq, Eq)]
pub struct MatrixInboundMessage {
    pub event_id: Option<String>,
    pub room_id: String,
    pub sender: String,
    pub body: String,
    pub relation: Option<MessageRelation>,
    pub attachments: Vec<MessageAttachment>,
}

/// A normalized inbound message from the Slack side.
#[derive(Debug, Clone, PartialEq, Eq)]
pub struct SlackInboundMessage {
    pub channel_id: String,
    pub sender_id: String,
    pub content: String,
    pub attachments: Vec<String>,
    pub reply_to: Option<String>,
    pub edit_of: Option<String>,
}

/// The outbound descriptor for a send to the Slack side.
#[derive(Debug, Clone, PartialEq, Eq)]
pub struct OutboundSlackMessage {
    pub content: String,
    pub reply_to: Option<String>,
    pub edit_of: Option<String>,
    pub attachments: Vec<String>,
    pub embed: Option<SlackEmbed>,
    pub use_embed: bool,
}

pub open spec fn spec_reply_line(id: Seq<char>) -> Seq<char> {
    "(reply:"@ + id + ")"@
}

pub open spec fn spec_edit_line(id: Seq<char>) -> Seq<char> {
    "(edit:"@ + id + ")"@
}

/// The lines of the rendered Slack text, each present only if non-empty:
/// reply line, edit line, content, attachments joined by one space.
pub open spec fn spec_render_parts(m: OutboundSlackMessage) -> Seq<Seq<char>> {
    (match m.reply_to {
        Some(id) => seq![spec_reply_line(id@)],
        None => Seq::empty(),
    }) + (match m.edit_of {
        Some(id) => seq![spec_edit_line(id@)],
        None => Seq::empty(),
    }) + (if m.content@.len() > 0 {
        seq![m.content@]
    } else {
        Seq::empty()
    }) + (if m.attachments@.len() > 0 {
        seq![spec_join(m.attachments@.map_values(|a: String| a@), " "@)]
    } else {
        Seq::empty()
    })
}

/// The rendered Slack text: the parts joined with newlines.
pub open spec fn spec_render_content(m: OutboundSlackMessage) -> Seq<char> {
    spec_join(spec_render_parts(m), "\n"@)
}

impl OutboundSlackMessage {
    /// A descriptor carrying only text.
    pub fn new(content: String) -> (r: OutboundSlackMessage)
        ensures
            r.content == content,
            r.reply_to is None,
            r.edit_of is None,
            r.attachments@.len() == 0,
            r.embed is None,
            !r.use_embed,
    {
        OutboundSlackMessage {
            content,
            reply_to: None,
            edit_of: None,
            attachments: Vec::new(),
            embed: None,
            use_embed: false,
        }
    }

    /// The same descriptor, switched to rich-embed delivery.
    pub fn with_embed(self, embed: SlackEmbed) -> (r: OutboundSlackMessage)
        ensures
            r.embed == Some(embed),
            r.use_embed,
            r.content == self.content,
            r.reply_to == self.reply_to,
            r.edit_of == self.edit_of,
            r.attachments == self.attachments,
    {
        let mut out = self;
        out.embed = Some(embed);
        out.use_embed = true;
        out
    }

    /// Renders the outbound text: `(reply:<id>)` line, then `(edit:<id>)`
    /// line, then content, then the attachments line, newline-joined, each
    /// present only if non-empty.
    pub fn render_content(&self) -> (r: String)
        ensures
            r@ == spec_render_content(*self),
    {
        let mut parts: Vec<String> = Vec::new();
        if let Some(reply_to) = &self.reply_to {
            let mut line = "(reply:".to_owned();
            line.append(reply_to.as_str());
            line.append(")");
            parts.push(line);
        }
        if let Some(edit_of) = &self.edit_of {
            let mut line = "(edit:".to_owned();
            line.append(edit_of.as_str());
            line.append(")");
            parts.push(line);
        }
        if !self.content.as_str().is_empty() {
            parts.push(self.content.clone());
        }
        if self.attachments.len() > 0 {
            parts.push(join_strings(&self.attachments, " "));
        }
        let r = join_strings(&parts, "\n");
        proof {
            assert(parts@.map_values(|t: String| t@) =~= spec_render_parts(*self));
        }
        r
    }
}

/// The outbound descriptor for a send to the Matrix side.
#[derive(Debug, Clone, PartialEq, Eq)]
pub struct OutboundMatrixMessage {
    pub body: String,
    pub reply_to: Option<String>,
    pub edit_of: Option<String>,
    pub attachments: Vec<String>,
}

/// The rendered Matrix body: `> reply to <id>` above the body when replying,
/// `* <body>` with an `(edit:<id>)` line when editing, attachments appended
/// as their own newline-joined block.
pub open spec fn spec_render_body(m: OutboundMatrixMessage) -> Seq<char> {
    let with_reply = match m.reply_to {
        Some(id) => "> reply to "@ + id@ + "\n"@ + m.body@,
        None => m.body@,
    };
    let with_edit = match m.edit_of {
        Some(id) => "* "@ + with_reply + "\n(edit:"@ + id@ + ")"@,
        None => with_reply,
    };
    if m.attachments@.len() > 0 {
        (if with_edit.len() > 0 {
            with_edit + "\n"@
        } else {
            with_edit
        }) + spec_join(m.attachments@.map_values(|a: String| a@), "\n"@)
    } else {
        with_edit
    }
}

impl OutboundMatrixMessage {
    pub fn render_body(&self) -> (r: String)
        ensures
            r@ == spec_render_body(*self),
    {
        let mut body = self.body.clone();
        if let Some(reply_to) = &self.reply_to {
            let mut line = "> reply to ".to_owned();
            line.append(reply_to.as_str());
            line.append("\n");
            line.append(body.as_str());
            body = line;
        }
        if let Some(edit_of) = &self.edit_of {
            let mut line = "* ".to_owned();
            line.append(body.as_str());
            line.append("\n(edit:");
            line.append(edit_of.as_str());
            line.append(")");
            body = line;
        }
        if self.attachments.len() > 0 {
            if !body.as_str().is_empty() {
                body.append("\n");
            }
            let joined = join_strings(&self.attachments, "\n");
            body.append(joined.as_str());
        }
        body
    }
}

/// The attachment-bearing message types.
pub open spec fn spec_is_attachment_type(t: Seq<char>) -> bool {
    t == "m.image"@ || t == "m.audio"@ || t == "m.video"@ || t == "m.file"@ || t == "m.sticker"@
}

fn is_attachment_type(t: &str) -> (r: bool)
    ensures
        r == spec_is_attachment_type(t@),
{
    crate::text::str_eq(t, "m.image") || crate::text::str_eq(t, "m.audio") || crate::text::str_eq(
        t,
        "m.video",
    ) || crate::text::str_eq(t, "m.file") || crate::text::str_eq(t, "m.sticker")
}

/// The relation carried by a content block: a reply wins over an edit, and a
/// `rel_type` other than `m.replace` carries nothing.
pub open spec fn spec_parse_relation(content: MatrixEventContent) -> Option<MessageRelation> {
    match content.relates_to {
        None => None,
        Some(rt) => match rt.in_reply_to_event_id {
            Some(id) => Some(MessageRelation::Reply { event_id: id }),
            None => if rt.rel_type matches Some(k) && k@ == "m.replace"@ {
                match rt.event_id {
                    Some(id) => Some(MessageRelation::Replace { event_id: id }),
                    None => None,
                }
            } else {
                None
            },
        },
    }
}

fn parse_relation(content: &MatrixEventContent) -> (r: Option<MessageRelation>)
    ensures
        r == spec_parse_relation(*content),
{
    match &content.relates_to {
        None => None,
        Some(rt) => {
            if let Some(id) = &rt.in_reply_to_event_id {
                return Some(MessageRelation::Reply { event_id: id.clone() });
            }
            if let Some(k) = &rt.rel_type {
                if crate::text::string_eq_str(k, "m.replace") {
                    if let Some(id) = &rt.event_id {
                        return Some(MessageRelation::Replace { event_id: id.clone() });
                    }
                }
            }
            None
        },
    }
}

/// The text block a parse reads: the `m.new_content` replacement when an
/// edit carries one, else the content itself.
pub open spec fn spec_text_for_body(content: MatrixEventContent) -> MessageText {
    match content.new_content {
        Some(nc) => nc,
        None => content.text,
    }
}

/// The resolved message type: the declared one, else `m.sticker` for a
/// sticker event, else `m.text`.
pub open spec fn spec_resolved_msgtype(text: MessageText, event_type: Seq<char>) -> Seq<char> {
    match text.msgtype {
        Some(t) => t@,
        None => if event_type == "m.sticker"@ {
            "m.sticker"@
        } else {
            "m.text"@
        },
    }
}

/// Whether a content block yields an attachment: the message type carries
/// media and a source url is present.
pub open spec fn spec_has_attachment(text: MessageText, msgtype: Seq<char>) -> bool {
    spec_is_attachment_type(msgtype) && text.url is Some
}

/// What the single attachment of a media message holds.
pub open spec fn spec_attachment_matches(
    a: MessageAttachment,
    text: MessageText,
    msgtype: Seq<char>,
) -> bool {
    &&& a.name@ == (match text.body {
        Some(b) => b@,
        None => "matrix-media"@,
    })
    &&& text.url matches Some(u) && a.url == u
    &&& a.kind@ == msgtype
}

/// Whether an event is a message the translator accepts: a message or
/// sticker event carrying content whose effective body is non-empty or which
/// yields an attachment.
pub open spec fn spec_parses_as_message(event: MatrixEvent) -> bool {
    &&& event.event_type@ == "m.room.message"@ || event.event_type@ == "m.sticker"@
    &&& event.content matches Some(content) && {
        let text = spec_text_for_body(content);
        ||| (match text.body {
            Some(b) => b@,
            None => Seq::<char>::empty(),
        }).len() > 0
        ||| spec_has_attachment(text, spec_resolved_msgtype(text, event.event_type@))
    }
}

/// The translator. The converters between the two platforms' markup formats
/// are outside collaborators; callers hand the translator already-converted
/// plain text.
#[derive(Debug, Clone, PartialEq, Eq)]
pub struct MessageFlow {
}

impl MessageFlow {
    pub fn new() -> (r: MessageFlow) {
        MessageFlow {  }
    }

    /// Parses a raw Matrix event into a normalized inbound record. An event
    /// that is not a message, or a message with empty body and no
    /// attachments, is not a message: the parse returns nothing.
    pub fn parse_matrix_event(event: &MatrixEvent) -> (r: Option<MatrixInboundMessage>)
        ensures
            (r is Some) == spec_parses_as_message(*event),
            match r {
                Some(m) => {
                    &&& event.event_type@ == "m.room.message"@ || event.event_type@
                        == "m.sticker"@
                    &&& event.content matches Some(content)
                    &&& m.event_id == event.event_id
                    &&& m.room_id == event.room_id
                    &&& m.sender == event.sender
                    &&& m.body@ == (match spec_text_for_body(content).body {
                        Some(b) => b@,
                        None => Seq::<char>::empty(),
                    })
                    &&& m.relation == spec_parse_relation(content)
                    &&& if spec_has_attachment(
                        spec_text_for_body(content),
                        spec_resolved_msgtype(spec_text_for_body(content), event.event_type@),
                    ) {
                        m.attachments@.len() == 1 && spec_attachment_matches(
                            m.attachments@[0],
                            spec_text_for_body(content),
                            spec_resolved_msgtype(spec_text_for_body(content), event.event_type@),
                        )
                    } else {
                        m.attachments@.len() == 0
                    }
                    &&& m.body@.len() > 0 || m.attachments@.len() > 0
                },
                None => {
                    ||| !(event.event_type@ == "m.room.message"@ || event.event_type@
                        == "m.sticker"@)
                    ||| event.content is None
                    ||| (event.content matches Some(content)
                        && (match spec_text_for_body(content).body {
                        Some(b) => b@,
                        None => Seq::<char>::empty(),
                    }).len() == 0 && !spec_has_attachment(
                        spec_text_for_body(content),
                        spec_resolved_msgtype(spec_text_for_body(content), event.event_type@),
                    ))
                },
            },
    {
        let is_message = crate::text::str_eq(event.event_type.as_str(), "m.room.message");
        let is_sticker = crate::text::str_eq(event.event_type.as_str(), "m.sticker");
        if !is_message && !is_sticker {
            return None;
        }
        let content = match &event.content {
            Some(c) => c,
            None => {
                return None;
            },
        };

        let text_for_body: &MessageText = match &content.new_content {
            Some(nc) => nc,
            None => &content.text,
        };
        let body: String = match &text_for_body.body {
            Some(b) => b.clone(),
            None => String::new(),
        };

        let msgtype: String = match &text_for_body.msgtype {
            Some(t) => t.clone(),
            None => if is_sticker {
                "m.sticker".to_owned()
            } else {
                "m.text".to_owned()
            },
        };

        let relation = parse_relation(content);

        let mut attachments: Vec<MessageAttachment> = Vec::new();
        if is_attachment_type(msgtype.as_str()) {
            if let Some(u) = &text_for_body.url {
                let name: String = match &text_for_body.body {
                    Some(b) => b.clone(),
                    None => "matrix-media".to_owned(),
                };
                attachments.push(
                    MessageAttachment { name, url: u.clone(), kind: msgtype.clone() },
                );
            }
        }
        if body.as_str().is_empty() && attachments.len() == 0 {
            return None;
        }

        Some(
            MatrixInboundMessage {
                event_id: event.event_id.clone(),
                room_id: event.room_id.clone(),
                sender: event.sender.clone(),
                body,
                relation,
                attachments,
            },
        )
    }

    /// Renders a Matrix inbound message as an outbound Slack descriptor: the
    /// relation split into reply/edit ids, attachments reduced to urls.
    pub fn matrix_to_slack(&self, message: &MatrixInboundMessage) -> (r: OutboundSlackMessage)
        ensures
            r.content == message.body,
            r.reply_to == (match message.relation {
                Some(MessageRelation::Reply { event_id }) => Some(event_id),
                _ => None::<String>,
            }),
            r.edit_of == (match message.relation {
                Some(MessageRelation::Replace { event_id }) => Some(event_id),
                _ => None::<String>,
            }),
            r.attachments@.map_values(|a: String| a@) == message.attachments@.map_values(
                |a: MessageAttachment| a.url@,
            ),
            r.embed is None,
            !r.use_embed,
    {
        let reply_to: Option<String> = match &message.relation {
            Some(MessageRelation::Reply { event_id }) => Some(event_id.clone()),
            _ => None,
        };
        let edit_of: Option<String> = match &message.relation {
            Some(MessageRelation::Replace { event_id }) => Some(event_id.clone()),
            _ => None,
        };
        let attachments = attachment_urls(&message.attachments);

        OutboundSlackMessage {
            content: message.body.clone(),
            reply_to,
            edit_of,
            attachments,
            embed: None,
            use_embed: false,
        }
    }

    /// As `matrix_to_slack`, but rendered for rich-embed delivery with the
    /// sender's profile and an optional reply preview.
    pub fn matrix_to_slack_with_embed(
        &self,
        message: &MatrixInboundMessage,
        sender_displayname: &str,
        sender_avatar_url: Option<&str>,
        reply_info: Option<(&str, &str)>,
    ) -> (r: OutboundSlackMessage)
        ensures
            r.content@.len() == 0,
            r.reply_to == (match message.relation {
                Some(MessageRelation::Reply { event_id }) => Some(event_id),
                _ => None::<String>,
            }),
            r.edit_of == (match message.relation {
                Some(MessageRelation::Replace { event_id }) => Some(event_id),
                _ => None::<String>,
            }),
            r.attachments@.map_values(|a: String| a@) == message.attachments@.map_values(
                |a: MessageAttachment| a.url@,
            ),
            r.embed matches Some(e) && (e.description matches Some(d) && d@ == message.body@)
                && (e.author matches Some(a) && a.name@ == sender_displayname@),
            r.use_embed,
    {
        let reply_to: Option<String> = match &message.relation {
            Some(MessageRelation::Reply { event_id }) => Some(event_id.clone()),
            _ => None,
        };
        let edit_of: Option<String> = match &message.relation {
            Some(MessageRelation::Replace { event_id }) => Some(event_id.clone()),
            _ => None,
        };
        let attachments = attachment_urls(&message.attachments);

        let embed = build_matrix_message_embed(
            sender_displayname,
            sender_avatar_url,
            message.body.as_str(),
            reply_info,
        );

        OutboundSlackMessage {
            content: String::new(),
            reply_to,
            edit_of,
            attachments,
            embed: Some(embed),
            use_embed: true,
        }
    }

    /// Renders a Slack inbound message as an outbound Matrix descriptor.
    /// Reply and edit ids still carry the origin id space here; the router
    /// resolves them against the message mappings.
    pub fn slack_to_matrix(&self, message: &SlackInboundMessage) -> (r: OutboundMatrixMessage)
        ensures
            r.body == message.content,
            r.reply_to == message.reply_to,
            r.edit_of == message.edit_of,
            r.attachments@ == message.attachments@,
    {
        OutboundMatrixMessage {
            body: message.content.clone(),
            reply_to: message.reply_to.clone(),
            edit_of: message.edit_of.clone(),
            attachments: crate::text::clone_string_vec(&message.attachments),
        }
    }
}

fn attachment_urls(attachments: &Vec<MessageAttachment>) -> (r: Vec<String>)
    ensures
        r@.map_values(|a: String| a@) == attachments@.map_values(|a: MessageAttachment| a.url@),
{
    let mut out: Vec<String> = Vec::new();
    let mut i: usize = 0;
    while i < attachments.len()
        invariant
            i <= attachments@.len(),
            out@.map_values(|a: String| a@) =~= attachments@.subrange(0, i as int).map_values(
                |a: MessageAttachment| a.url@,
            ),
        decreases attachments@.len() - i,
    {
        let ghost old_out = out@;
        out.push(attachments[i].url.clone());
        proof {
            assert(out@.map_values(|a: String| a@) =~= old_out.map_values(|a: String| a@).push(
                attachments@[i as int].url@,
            ));
            assert(attachments@.subrange(0, i as int + 1).map_values(
                |a: MessageAttachment| a.url@,
            ) =~= attachments@.subrange(0, i as int).map_values(|a: MessageAttachment| a.url@).push(
                attachments@[i as int].url@,
            ));
        }
        i = i + 1;
    }
    proof {
        assert(attachments@.subrange(0, attachments@.len() as int) =~= attachments@);
    }
    out
}

} // verus!
