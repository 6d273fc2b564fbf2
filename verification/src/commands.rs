//! What the bot shows: the embeds of the ping statistics and of the broadcast notice.

use vstd::prelude::*;
use vstd::string::StringExecFns;
use crate::data::guild_ping::Model;
use crate::ping::{NotifierAction, NotifierActionView};
use crate::utils::{time_since, time_since_text};

verus! {

/// The colour of every embed that the bot sends.
pub const EMBED_COLOR: u32 = 0xEF5858;

/// The value of a field: a text, or a number that is shown in decimal.
#[derive(Debug, PartialEq, Eq)]
pub enum FieldValue {
    /// A text, shown as it is.
    Text(String),
    /// A count.
    Number(u64),
}

/// One named field of an embed.
#[derive(Debug, PartialEq, Eq)]
pub struct EmbedField {
    /// The heading of the field.
    pub name: String,
    /// What the field shows.
    pub value: FieldValue,
    /// The field may share a row with its neighbours.
    pub inline: bool,
}

/// The footer of an embed.
#[derive(Debug, PartialEq, Eq)]
pub struct EmbedFooter {
    /// The line of the footer.
    pub text: String,
    /// The address of the picture beside it.
    pub icon_url: String,
}

/// A rich message, as plain values. What is `None` is left out.
#[derive(Debug, PartialEq, Eq)]
pub struct Embed {
    /// The title.
    pub title: Option<String>,
    /// The address that the title links to.
    pub url: Option<String>,
    /// The colour of the bar at the side, as red, green and blue.
    pub color: Option<u32>,
    /// The footer.
    pub footer: Option<EmbedFooter>,
    /// The instant shown beside the footer: milliseconds from the Unix epoch, UTC.
    pub timestamp: Option<i64>,
    /// The fields, in the order in which they are shown.
    pub fields: Vec<EmbedField>,
}

/// Where the picture of a user is found.
#[derive(Debug, PartialEq, Eq)]
pub struct UserFace {
    /// The picture that the user has set, if any.
    pub avatar_url: Option<String>,
    /// The picture that the platform shows otherwise.
    pub default_avatar_url: String,
}

/// A `FieldValue` with its text as a sequence of characters.
pub enum FieldValueView {
    Text(Seq<char>),
    Number(u64),
}

/// An `EmbedField` with its texts as sequences of characters.
pub struct EmbedFieldView {
    pub name: Seq<char>,
    pub value: FieldValueView,
    pub inline: bool,
}

/// An `EmbedFooter` with its texts as sequences of characters.
pub struct EmbedFooterView {
    pub text: Seq<char>,
    pub icon_url: Seq<char>,
}

/// An `Embed` with its texts as sequences of characters.
pub struct EmbedView {
    pub title: Option<Seq<char>>,
    pub url: Option<Seq<char>>,
    pub color: Option<u32>,
    pub footer: Option<EmbedFooterView>,
    pub timestamp: Option<i64>,
    pub fields: Seq<EmbedFieldView>,
}

impl View for FieldValue {
    type V = FieldValueView;

    open spec fn view(&self) -> FieldValueView {
        match *self {
            FieldValue::Text(text) => FieldValueView::Text(text@),
            FieldValue::Number(number) => FieldValueView::Number(number),
        }
    }
}

impl View for EmbedField {
    type V = EmbedFieldView;

    open spec fn view(&self) -> EmbedFieldView {
        EmbedFieldView { name: self.name@, value: self.value@, inline: self.inline }
    }
}

impl View for EmbedFooter {
    type V = EmbedFooterView;

    open spec fn view(&self) -> EmbedFooterView {
        EmbedFooterView { text: self.text@, icon_url: self.icon_url@ }
    }
}

/// The view of an optional text.
pub open spec fn optional_text(text: Option<String>) -> Option<Seq<char>> {
    match text {
        Some(line) => Some(line@),
        None => None,
    }
}

impl View for Embed {
    type V = EmbedView;

    open spec fn view(&self) -> EmbedView {
        EmbedView {
            title: optional_text(self.title),
            url: optional_text(self.url),
            color: self.color,
            footer: match self.footer {
                Some(footer) => Some(footer@),
                None => None,
            },
            timestamp: self.timestamp,
            fields: Seq::new(self.fields@.len(), |i: int| self.fields@[i]@),
        }
    }
}

impl UserFace {
    /// The picture to show: the user's own where there is one.
    pub open spec fn icon_spec(self) -> Seq<char> {
        match self.avatar_url {
            Some(url) => url@,
            None => self.default_avatar_url@,
        }
    }

    /// The address of the picture to show for the user.
    pub fn icon(&self) -> (url: String)
        ensures
            url@ == self.icon_spec(),
    {
        match &self.avatar_url {
            Some(url) => url.clone(),
            None => self.default_avatar_url.clone(),
        }
    }
}

impl Embed {
    /// An embed with nothing in it.
    pub fn new() -> (embed: Embed)
        ensures
            embed@ == (EmbedView {
                title: None,
                url: None,
                color: None,
                footer: None,
                timestamp: None,
                fields: Seq::empty(),
            }),
    {
        let embed = Embed {
            title: None,
            url: None,
            color: None,
            footer: None,
            timestamp: None,
            fields: Vec::new(),
        };
        assert(embed@.fields =~= Seq::empty());
        embed
    }
}

/// The footer of every embed that answers a user.
pub open spec fn ui_footer(icon_url: Seq<char>) -> EmbedFooterView {
    EmbedFooterView { text: "Ping'chu!"@, icon_url }
}

/// Applies the bot's look to an embed: its colour, the time, and, where the embed
/// answers a user, a footer with the user's picture. Title, link and fields stay.
pub fn apply_ui(embed: &mut Embed, in_reply_to: Option<&UserFace>, timestamp: i64)
    ensures
        final(embed)@ == (EmbedView {
            color: Some(EMBED_COLOR),
            footer: match in_reply_to {
                Some(author) => Some(ui_footer(author.icon_spec())),
                None => old(embed)@.footer,
            },
            timestamp: Some(timestamp),
            ..old(embed)@
        }),
{
    embed.color = Some(EMBED_COLOR);
    if let Some(author) = in_reply_to {
        embed.footer = Some(EmbedFooter { text: "Ping'chu!".to_owned(), icon_url: author.icon() });
    }
    embed.timestamp = Some(timestamp);
}

/// The field that tells how long ago a category last fired, or none where it never
/// did.
pub open spec fn since_fields(
    name: Seq<char>,
    stamp: Option<i64>,
    now: i64,
    inline: bool,
) -> Seq<EmbedFieldView> {
    match stamp {
        Some(then) => seq![
            EmbedFieldView { name, value: FieldValueView::Text(time_since_text(now, then)), inline },
        ],
        None => seq![],
    }
}

/// The embed that shows the ping statistics of a user.
pub open spec fn pinginfo_view(
    display_name: Seq<char>,
    icon_url: Seq<char>,
    info: Option<Model>,
    timestamp: i64,
) -> EmbedView {
    EmbedView {
        title: Some(display_name + "'s Ping Stats"@),
        url: None,
        color: Some(EMBED_COLOR),
        footer: Some(ui_footer(icon_url)),
        timestamp: Some(timestamp),
        fields: seq![
            EmbedFieldView {
                name: "Total Pings"@,
                value: FieldValueView::Number(
                    if info is Some {
                        info->0.pings as u64
                    } else {
                        0
                    },
                ),
                inline: false,
            },
        ] + since_fields(
            "Time since last @everyone"@,
            if info is Some { info->0.last_everyone_ping } else { None },
            timestamp,
            true,
        ) + since_fields(
            "Time since last @here"@,
            if info is Some { info->0.last_here_ping } else { None },
            timestamp,
            true,
        ) + since_fields(
            "Time since last @role"@,
            if info is Some { info->0.last_role_ping } else { None },
            timestamp,
            true,
        ) + since_fields(
            "Time since last @User"@,
            if info is Some { info->0.last_user_ping } else { None },
            timestamp,
            true,
        ),
    }
}

/// Appends the field that tells how long ago `stamp` was, if there is a stamp.
fn push_since(fields: &mut Vec<EmbedField>, name: String, stamp: Option<i64>, now: i64, inline: bool)
    ensures
        Seq::new(final(fields)@.len(), |i: int| final(fields)@[i]@) == Seq::new(
            old(fields)@.len(),
            |i: int| old(fields)@[i]@,
        ) + since_fields(name@, stamp, now, inline),
{
    let ghost before = Seq::new(fields@.len(), |i: int| fields@[i]@);
    if let Some(then) = stamp {
        fields.push(EmbedField { name, value: FieldValue::Text(time_since(now, then)), inline });
    }
    assert(Seq::new(fields@.len(), |i: int| fields@[i]@) =~= before + since_fields(
        name@,
        stamp,
        now,
        inline,
    ));
}

/// Builds the answer to a request for the ping statistics of a user: the total, and
/// for each category that ever fired how long ago it last did, as of `timestamp`. A
/// user without a record has no pings.
pub fn pinginfo(display_name: &str, user: &UserFace, info: Option<Model>, timestamp: i64) -> (embed:
    Embed)
    ensures
        embed@ == pinginfo_view(display_name@, user.icon_spec(), info, timestamp),
{
    let (last_everyone_ping, last_here_ping, last_role_ping, last_user_ping, pings) = match info {
        Some(m) => (
            m.last_everyone_ping,
            m.last_here_ping,
            m.last_role_ping,
            m.last_user_ping,
            m.pings,
        ),
        None => (None, None, None, None, 0),
    };
    let mut embed = Embed::new();
    apply_ui(&mut embed, Some(user), timestamp);
    let mut title = display_name.to_owned();
    title.append("'s Ping Stats");
    embed.title = Some(title);
    let mut fields: Vec<EmbedField> = Vec::new();
    fields.push(
        EmbedField {
            name: "Total Pings".to_owned(),
            value: FieldValue::Number(pings as u64),
            inline: false,
        },
    );
    push_since(&mut fields, "Time since last @everyone".to_owned(), last_everyone_ping, timestamp, true);
    push_since(&mut fields, "Time since last @here".to_owned(), last_here_ping, timestamp, true);
    push_since(&mut fields, "Time since last @role".to_owned(), last_role_ping, timestamp, true);
    push_since(&mut fields, "Time since last @User".to_owned(), last_user_ping, timestamp, true);
    embed.fields = fields;
    assert(embed@.fields =~= pinginfo_view(
        display_name@,
        user.icon_spec(),
        info,
        timestamp,
    ).fields);
    embed
}

/// The embed of the notice that a member broadcast to everyone.
pub open spec fn broadcast_notice_view(
    display_name: Seq<char>,
    icon_url: Seq<char>,
    link: Seq<char>,
    mention: Seq<char>,
    excerpt: Seq<char>,
    timestamp: i64,
    last_global: Option<i64>,
    last_member: Option<i64>,
    total_pings: u64,
) -> EmbedView {
    EmbedView {
        title: Some("_"@ + display_name + " pinged @everyone!_"@),
        url: Some(link),
        color: Some(EMBED_COLOR),
        footer: Some(ui_footer(icon_url)),
        timestamp: Some(timestamp),
        fields: seq![
            EmbedFieldView { name: "Message"@, value: FieldValueView::Text(excerpt), inline: false },
            EmbedFieldView { name: "Author"@, value: FieldValueView::Text(mention), inline: true },
            EmbedFieldView {
                name: "Total Pings"@,
                value: FieldValueView::Number(total_pings),
                inline: true,
            },
        ] + since_fields("Time since last @everyone"@, last_global, timestamp, false)
            + since_fields(
            "Time since "@ + display_name + " last pinged @everyone"@,
            last_member,
            timestamp,
            false,
        ),
    }
}

/// Builds the notice for a broadcast to everyone: who pinged, the excerpt, the author,
/// the member's pings, and how long it has been since the community and since the
/// member last did so, each where there was a last time. Any other action has no
/// notice.
pub fn broadcast_notice(
    action: &NotifierAction,
    display_name: &str,
    author: &UserFace,
    link: &str,
    mention: &str,
) -> (notice: Option<Embed>)
    ensures
        match action@ {
            NotifierActionView::NotifyBroadcast {
                excerpt,
                timestamp,
                last_global,
                last_member,
                total_pings,
                ..
            } => notice is Some && notice->0@ == broadcast_notice_view(
                display_name@,
                author.icon_spec(),
                link@,
                mention@,
                excerpt,
                timestamp,
                last_global,
                last_member,
                total_pings,
            ),
            _ => notice is None,
        },
{
    match action {
        NotifierAction::NotifyBroadcast {
            excerpt,
            timestamp,
            last_global,
            last_member,
            total_pings,
            ..
        } => {
            let mut embed = Embed::new();
            apply_ui(&mut embed, Some(author), *timestamp);
            let mut title = "_".to_owned();
            title.append(display_name);
            title.append(" pinged @everyone!_");
            embed.title = Some(title);
            embed.url = Some(link.to_owned());
            let mut fields: Vec<EmbedField> = Vec::new();
            fields.push(
                EmbedField {
                    name: "Message".to_owned(),
                    value: FieldValue::Text(excerpt.clone()),
                    inline: false,
                },
            );
            fields.push(
                EmbedField {
                    name: "Author".to_owned(),
                    value: FieldValue::Text(mention.to_owned()),
                    inline: true,
                },
            );
            fields.push(
                EmbedField {
                    name: "Total Pings".to_owned(),
                    value: FieldValue::Number(*total_pings),
                    inline: true,
                },
            );
            push_since(
                &mut fields,
                "Time since last @everyone".to_owned(),
                *last_global,
                *timestamp,
                false,
            );
            let mut own = "Time since ".to_owned();
            own.append(display_name);
            own.append(" last pinged @everyone");
            push_since(&mut fields, own, *last_member, *timestamp, false);
            embed.fields = fields;
            assert(embed@.fields =~= broadcast_notice_view(
                display_name@,
                author.icon_spec(),
                link@,
                mention@,
                excerpt@,
                *timestamp,
                *last_global,
                *last_member,
                *total_pings,
            ).fields);
            Some(embed)
        },
        _ => None,
    }
}

} // verus!
