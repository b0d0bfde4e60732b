//! Decoded lines in flat form, as the inbound path reads them, and the
//! badge names that a line carries in its tags.

use crate::message_interface::{chat_post, decode, lemma_decoded_message, MessageView};
use crate::tags::TagMap;
use crate::text::{before_first, span_before, split, texts, Line};
use vstd::prelude::*;
use vstd::string::*;

verus! {

/// A decoded line in flat form, as mathematical values.
pub struct FlatView {
    pub tags: Map<Seq<char>, Seq<char>>,
    pub prefix: Seq<char>,
    pub command: Seq<char>,
    pub channel: Seq<char>,
    pub message: Seq<char>,
}

/// The flat form of a decoded message: its tags and its command, its
/// prefix, its first parameter as the channel, and its text. What the
/// message lacks is empty: the prefix of a line without one, the channel
/// of a line without parameters, the text of a line that carries none.
pub open spec fn flat_of(m: MessageView) -> FlatView {
    FlatView {
        tags: m.tags,
        prefix: match m.prefix {
            Some(p) => p,
            None => Seq::empty(),
        },
        command: m.command,
        channel: if m.params.len() > 0 {
            m.params[0]
        } else {
            Seq::empty()
        },
        message: match m.message {
            Some(text) => text,
            None => Seq::empty(),
        },
    }
}

/// The flat form of what a raw line decodes to, or `None` when the line
/// is not decodable.
pub open spec fn decode_flat(raw: Seq<char>) -> Option<FlatView> {
    match decode(raw) {
        Some(m) => Some(flat_of(m)),
        None => None,
    }
}

/// A line is a chat post when its command is the chat-post command.
pub open spec fn is_chat_post(line: FlatView) -> bool {
    line.command == chat_post()
}

/// Every decodable line has a flat form, whatever its command and
/// however many parameters it has; and the command of the flat form is
/// never empty.
pub proof fn lemma_flat_form_of_every_line(raw: Seq<char>)
    ensures
        decode_flat(raw) is Some <==> decode(raw) is Some,
        decode_flat(raw) matches Some(line) ==> line.command.len() > 0 && line.command == decode(
            raw,
        ).unwrap().command && line.tags == decode(raw).unwrap().tags,
{
    if decode(raw) is Some {
        lemma_decoded_message(raw);
    }
}

/// The text of a flat form is the second parameter of a chat post that
/// has one, and empty for every other line.
pub proof fn lemma_flat_text(raw: Seq<char>)
    requires
        decode(raw) is Some,
    ensures
        ({
            let m = decode(raw).unwrap();
            let line = decode_flat(raw).unwrap();
            if m.command == chat_post() && m.params.len() >= 2 {
                line.message == m.params[1]
            } else {
                line.message == Seq::<char>::empty()
            }
        }),
{
    lemma_decoded_message(raw);
}

/// The badge name of one entry `name/version`; an entry without `/`
/// names no badge.
pub open spec fn badge_name(entry: Seq<char>) -> Option<Seq<char>> {
    if span_before(entry, '/') < entry.len() {
        Some(before_first(entry, '/'))
    } else {
        None
    }
}

/// `badge_name` as a function value.
pub open spec fn badge_name_fn() -> spec_fn(Seq<char>) -> Option<Seq<char>> {
    |entry: Seq<char>| badge_name(entry)
}

/// The badge names in the value of the badge tag, a list of entries
/// between commas, in the order of the entries.
pub open spec fn badge_names(value: Seq<char>) -> Seq<Seq<char>> {
    split(value, ',').filter_map(badge_name_fn())
}

/// The badge names that a tag map carries under `badges`; none when the
/// tag is absent.
pub open spec fn badges_of(tags: Map<Seq<char>, Seq<char>>) -> Seq<Seq<char>> {
    if tags.dom().contains("badges"@) {
        badge_names(tags["badges"@])
    } else {
        Seq::empty()
    }
}

/// A decoded line in flat form.
#[derive(Debug)]
pub struct TwitchMessage {
    pub tags: TagMap,
    pub _prefix: String,
    pub _command: String,
    pub _channel: String,
    pub message: String,
}

impl View for TwitchMessage {
    type V = FlatView;

    open spec fn view(&self) -> FlatView {
        FlatView {
            tags: self.tags@,
            prefix: self._prefix@,
            command: self._command@,
            channel: self._channel@,
            message: self.message@,
        }
    }
}

impl TwitchMessage {
    /// Tells whether the line is a chat post.
    pub fn is_chat_post(&self) -> (b: bool)
        ensures
            b == is_chat_post(self@),
    {
        self._command == "PRIVMSG".to_owned()
    }
}

/// The flat form of a decoded message.
pub fn flat_from(m: crate::message_interface::TwitchMessage) -> (line: TwitchMessage)
    ensures
        line@ == flat_of(m@),
{
    let channel = if m.params.len() > 0 {
        m.params[0].clone()
    } else {
        String::new()
    };
    let prefix = match m.prefix {
        Some(p) => p,
        None => String::new(),
    };
    let message = match m.message {
        Some(text) => text,
        None => String::new(),
    };
    TwitchMessage {
        tags: m.tags,
        _prefix: prefix,
        _command: m.command,
        _channel: channel,
        message,
    }
}

/// Decodes one raw line into its flat form. Every decodable line gives
/// one, of whatever command.
pub fn parse_twitch_message(raw: &str) -> (r: Option<TwitchMessage>)
    ensures
        r is Some <==> decode(raw@) is Some,
        r matches Some(line) ==> decode_flat(raw@) == Some(line@),
{
    match crate::message_interface::TwitchMessage::parse(raw) {
        Some(m) => Some(flat_from(m)),
        None => None,
    }
}

/// The badge names in the value of the badge tag.
pub fn badge_names_in(value: &str) -> (names: Vec<String>)
    ensures
        texts(names@) == badge_names(value@),
{
    let line = Line::new(value);
    let entries = line.split_bounds(0, line.len(), ',');
    let ghost pieces = split(value@, ',');
    proof {
        assert(line@.subrange(0, line@.len() as int) =~= value@);
    }
    let mut names: Vec<String> = Vec::new();
    let mut i: usize = 0;
    proof {
        assert(pieces.take(0) =~= Seq::empty());
        assert(texts(names@) =~= pieces.take(0).filter_map(badge_name_fn()));
    }
    while i < entries.len()
        invariant
            i <= entries@.len(),
            line@ == value@,
            pieces == split(value@, ','),
            entries@.len() == pieces.len(),
            forall|j: int|
                0 <= j < entries@.len() ==> {
                    &&& 0 <= (#[trigger] entries@[j]).0 <= entries@[j].1 <= line@.len()
                    &&& line@.subrange(entries@[j].0 as int, entries@[j].1 as int) == pieces[j]
                },
            texts(names@) == pieces.take(i as int).filter_map(badge_name_fn()),
        decreases entries@.len() - i,
    {
        let (start, end) = entries[i];
        let slash = line.scan(start, end, '/');
        let ghost before = texts(names@);
        proof {
            pieces.lemma_filter_map_take_succ(badge_name_fn(), i as int);
            assert(pieces[i as int] == line@.subrange(start as int, end as int));
        }
        if slash < end {
            let name = line.cut(start, slash);
            proof {
                assert(name@ =~= before_first(pieces[i as int], '/'));
            }
            names.push(name);
            proof {
                assert(texts(names@) =~= before + seq![before_first(pieces[i as int], '/')]);
            }
        } else {
            proof {
                assert(texts(names@) =~= before + Seq::empty());
            }
        }
        i += 1;
    }
    proof {
        assert(pieces.take(i as int) =~= pieces);
    }
    names
}

/// The badge names that a tag map carries, in the order in which the
/// badge tag lists them.
pub fn user_badges(tags: &TagMap) -> (names: Vec<String>)
    ensures
        texts(names@) == badges_of(tags@),
{
    match tags.get("badges") {
        Some(value) => badge_names_in(value.as_str()),
        None => {
            let names: Vec<String> = Vec::new();
            proof {
                assert(texts(names@) =~= Seq::empty());
            }
            names
        },
    }
}

} // verus!
