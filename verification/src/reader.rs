//! The inbound path: one transport frame becomes the chat events that
//! are shown to the operator.

use crate::badges::{
    catalog_view, resolve, resolve_badges, resolved_view, BadgeView, ResolvedBadge, TwitchBadge,
};
use crate::clock::{ClockTime, ClockView};
use crate::parser::{
    badges_of, decode_flat, is_chat_post, parse_twitch_message, FlatView, TwitchMessage,
};
use crate::text::{before_first, split, Line};
use vstd::prelude::*;
use vstd::string::*;

verus! {

/// A chat event as mathematical values.
pub struct ChatEventView {
    pub name: Seq<char>,
    pub color: Seq<char>,
    pub message: Seq<char>,
    pub badges: Seq<BadgeView>,
    pub received: ClockView,
}

/// The name that is shown when a chat post names no sender.
pub open spec fn fallback_name() -> Seq<char> {
    "Guest"@
}

/// The colour that is used when a chat post carries none.
pub open spec fn default_color() -> Seq<char> {
    "#555555"@
}

/// The name to show for the sender of a chat post: the `display-name`
/// tag; else the sender's name from the prefix, if there is a prefix;
/// else the fallback name.
pub open spec fn sender_name(post: FlatView) -> Seq<char> {
    if post.tags.dom().contains("display-name"@) {
        post.tags["display-name"@]
    } else if post.prefix.len() > 0 {
        before_first(post.prefix, '!')
    } else {
        fallback_name()
    }
}

/// The colour of the sender's name: the `color` tag, else the default.
pub open spec fn sender_color(tags: Map<Seq<char>, Seq<char>>) -> Seq<char> {
    if tags.dom().contains("color"@) {
        tags["color"@]
    } else {
        default_color()
    }
}

/// The event that presents a chat post, with its badges resolved
/// against the catalog and with the time at which it was received.
pub open spec fn event_of(
    post: FlatView,
    catalog: Seq<BadgeView>,
    received: ClockView,
) -> ChatEventView {
    ChatEventView {
        name: sender_name(post),
        color: sender_color(post.tags),
        message: post.message,
        badges: resolve(badges_of(post.tags), catalog),
        received,
    }
}

/// The event that one line of a frame gives: none when the line is not
/// decodable or is no chat post.
pub open spec fn event_of_line(
    line: Seq<char>,
    catalog: Seq<BadgeView>,
    received: ClockView,
) -> Option<ChatEventView> {
    match decode_flat(line) {
        Some(post) => if is_chat_post(post) {
            Some(event_of(post, catalog, received))
        } else {
            None
        },
        None => None,
    }
}

/// `event_of_line` for a fixed catalog and time, as a function value.
pub open spec fn event_fn(catalog: Seq<BadgeView>, received: ClockView) -> spec_fn(
    Seq<char>,
) -> Option<ChatEventView> {
    |line: Seq<char>| event_of_line(line, catalog, received)
}

/// The events of a frame that was received at a given time: its lines
/// are the pieces between newlines, each is decoded by itself, and the
/// chat posts among them give an event each, in the order of the lines.
/// A carriage return before a newline is whitespace around a line, which
/// decoding ignores.
pub open spec fn frame_events(
    text: Seq<char>,
    catalog: Seq<BadgeView>,
    received: ClockView,
) -> Seq<ChatEventView> {
    split(text, '\n').filter_map(event_fn(catalog, received))
}

/// What is shown for one chat post.
#[derive(Debug)]
pub struct ChatEvent {
    pub name: String,
    pub color: String,
    pub message: String,
    pub badges: Vec<ResolvedBadge>,
    pub received: ClockTime,
}

impl View for ChatEvent {
    type V = ChatEventView;

    open spec fn view(&self) -> ChatEventView {
        ChatEventView {
            name: self.name@,
            color: self.color@,
            message: self.message@,
            badges: resolved_view(self.badges@),
            received: self.received@,
        }
    }
}

/// The views of a list of events.
pub open spec fn events_view(events: Seq<ChatEvent>) -> Seq<ChatEventView> {
    Seq::new(events.len(), |i: int| events[i]@)
}

/// The event that presents a chat post that was received at `received`.
pub fn present(post: &TwitchMessage, catalog: &Vec<TwitchBadge>, received: ClockTime) -> (event:
    ChatEvent)
    ensures
        event@ == event_of(post@, catalog_view(catalog@), received@),
{
    let name = match post.tags.get("display-name") {
        Some(name) => name.clone(),
        None => {
            let sender = Line::new(post._prefix.as_str());
            if sender.len() > 0 {
                let bang = sender.scan(0, sender.len(), '!');
                proof {
                    assert(sender@.subrange(0, sender@.len() as int) =~= sender@);
                }
                sender.cut(0, bang)
            } else {
                "Guest".to_owned()
            }
        },
    };
    let color = match post.tags.get("color") {
        Some(color) => color.clone(),
        None => "#555555".to_owned(),
    };
    let badges = resolve_badges(&post.tags, catalog);
    ChatEvent { name, color, message: post.message.clone(), badges, received }
}

/// The events of one text frame that was received at `received`, in the
/// order of its lines.
pub fn read_frame(text: &str, catalog: &Vec<TwitchBadge>, received: ClockTime) -> (events: Vec<
    ChatEvent,
>)
    ensures
        events_view(events@) == frame_events(text@, catalog_view(catalog@), received@),
{
    let frame = Line::new(text);
    let bounds = frame.split_bounds(0, frame.len(), '\n');
    let ghost lines = split(text@, '\n');
    let ghost known = catalog_view(catalog@);
    proof {
        assert(frame@.subrange(0, frame@.len() as int) =~= text@);
    }
    let mut events: Vec<ChatEvent> = Vec::new();
    let mut i: usize = 0;
    proof {
        assert(lines.take(0) =~= Seq::empty());
        assert(events_view(events@) =~= lines.take(0).filter_map(event_fn(known, received@)));
    }
    while i < bounds.len()
        invariant
            i <= bounds@.len(),
            frame@ == text@,
            lines == split(text@, '\n'),
            known == catalog_view(catalog@),
            bounds@.len() == lines.len(),
            forall|j: int|
                0 <= j < bounds@.len() ==> {
                    &&& 0 <= (#[trigger] bounds@[j]).0 <= bounds@[j].1 <= frame@.len()
                    &&& frame@.subrange(bounds@[j].0 as int, bounds@[j].1 as int) == lines[j]
                },
            events_view(events@) == lines.take(i as int).filter_map(event_fn(known, received@)),
        decreases bounds@.len() - i,
    {
        let (start, end) = bounds[i];
        let ghost before = events_view(events@);
        proof {
            lines.lemma_filter_map_take_succ(event_fn(known, received@), i as int);
        }
        let chat_post = match parse_twitch_message(frame.slice(start, end)) {
            Some(line) => if line.is_chat_post() {
                Some(line)
            } else {
                None
            },
            None => None,
        };
        match chat_post {
            Some(post) => {
                let event = present(&post, catalog, received);
                proof {
                    assert(event_of_line(lines[i as int], known, received@) == Some(event@));
                }
                events.push(event);
                proof {
                    assert(events_view(events@) =~= before + seq![event@]);
                }
            },
            None => {
                proof {
                    assert(event_of_line(lines[i as int], known, received@) is None);
                    assert(events_view(events@) =~= before + Seq::empty());
                }
            },
        }
        i += 1;
    }
    proof {
        assert(lines.take(i as int) =~= lines);
    }
    events
}

} // verus!
