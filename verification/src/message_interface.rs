//! The line decoder: one raw protocol line becomes a structured message.
//!
//! A line has the shape `[@tags ][:prefix ]command[ params]`. The tag
//! segment and the prefix are optional, each announced by its first
//! character and closed by a space. Parameters are separated by single
//! spaces; a parameter that begins with `:` takes the rest of the line.

use crate::tags::{distinct_keys, lemma_map_of_len, map_of, TagMap};
use crate::text::{
    after_first, before_first, clone_opt, clone_strings, free_of, is_whitespace,
    lemma_span_absent, lemma_span_before, lemma_span_joined, lemma_split_joined,
    lemma_split_single, lemma_trim_identity, opt_text, span_before, split, texts, trim, Line,
};
use vstd::prelude::*;
use vstd::string::*;

verus! {

/// A decoded line as mathematical values.
pub struct MessageView {
    pub tags: Map<Seq<char>, Seq<char>>,
    pub prefix: Option<Seq<char>>,
    pub command: Seq<char>,
    pub params: Seq<Seq<char>>,
    pub username: Option<Seq<char>>,
    pub message: Option<Seq<char>>,
}

/// The command of a chat post.
pub open spec fn chat_post() -> Seq<char> {
    "PRIVMSG"@
}

/// The key of one tag entry: the text before its first `=`.
pub open spec fn tag_key(entry: Seq<char>) -> Seq<char> {
    before_first(entry, '=')
}

/// The value of one tag entry: the text after its first `=`, empty when
/// the entry has no `=`.
pub open spec fn tag_value(entry: Seq<char>) -> Seq<char> {
    match after_first(entry, '=') {
        Some(value) => value,
        None => Seq::empty(),
    }
}

/// The key/value pairs of a tag segment, one for each entry between `;`.
pub open spec fn tag_pairs(segment: Seq<char>) -> Seq<(Seq<char>, Seq<char>)> {
    let entries = split(segment, ';');
    Seq::new(entries.len(), |i: int| (tag_key(entries[i]), tag_value(entries[i])))
}

/// The tag map of a tag segment (the text between `@` and the space that
/// closes it). Of two entries with one key the later one counts.
pub open spec fn parse_tags(segment: Seq<char>) -> Map<Seq<char>, Seq<char>> {
    map_of(tag_pairs(segment))
}

/// The parameters of a line, from the text that follows the command.
pub open spec fn split_params(s: Seq<char>) -> Seq<Seq<char>>
    decreases s.len(),
{
    if s.len() == 0 {
        Seq::empty()
    } else if s[0] == ':' {
        seq![s.skip(1)]
    } else {
        let n = span_before(s, ' ');
        if n >= s.len() {
            seq![s]
        } else {
            seq![s.take(n as int)] + split_params(s.skip(n as int + 1))
        }
    }
}

/// The sender's name: the prefix up to its first `!`.
pub open spec fn username_of(prefix: Option<Seq<char>>) -> Option<Seq<char>> {
    match prefix {
        Some(p) => Some(before_first(p, '!')),
        None => None,
    }
}

/// The text of a chat post: its second parameter. Other commands, and
/// chat posts with fewer than two parameters, carry none.
pub open spec fn message_of(command: Seq<char>, params: Seq<Seq<char>>) -> Option<Seq<char>> {
    if command == chat_post() && params.len() >= 2 {
        Some(params[1])
    } else {
        None
    }
}

/// The message with these parts, and with what is derived from them.
pub open spec fn assemble(
    tags: Map<Seq<char>, Seq<char>>,
    prefix: Option<Seq<char>>,
    command: Seq<char>,
    params: Seq<Seq<char>>,
) -> MessageView {
    MessageView {
        tags,
        prefix,
        command,
        params,
        username: username_of(prefix),
        message: message_of(command, params),
    }
}

/// Decodes what follows the tags and the prefix: the command up to the
/// first space, and the parameters after it. A line without a command is
/// not decodable.
pub open spec fn decode_command(
    tags: Map<Seq<char>, Seq<char>>,
    prefix: Option<Seq<char>>,
    rest: Seq<char>,
) -> Option<MessageView> {
    let command = before_first(rest, ' ');
    let params = match after_first(rest, ' ') {
        Some(text) => split_params(text),
        None => Seq::empty(),
    };
    if command.len() == 0 {
        None
    } else {
        Some(assemble(tags, prefix, command, params))
    }
}

/// Decodes what follows the tags: an optional prefix, then the command.
/// A prefix that no space closes is malformed.
pub open spec fn decode_prefix(tags: Map<Seq<char>, Seq<char>>, rest: Seq<char>) -> Option<
    MessageView,
> {
    if rest.len() > 0 && rest[0] == ':' {
        match after_first(rest, ' ') {
            Some(tail) => decode_command(tags, Some(before_first(rest, ' ').skip(1)), tail),
            None => None,
        }
    } else {
        decode_command(tags, None, rest)
    }
}

/// Decodes a line that has no whitespace around it: an optional tag
/// segment, then the rest. A tag segment that no space closes is
/// malformed.
pub open spec fn decode_line(line: Seq<char>) -> Option<MessageView> {
    if line.len() > 0 && line[0] == '@' {
        match after_first(line, ' ') {
            Some(tail) => decode_prefix(parse_tags(before_first(line, ' ').skip(1)), tail),
            None => None,
        }
    } else {
        decode_prefix(Map::empty(), line)
    }
}

/// The message that a raw line decodes to, or `None` when the line is not
/// decodable.
pub open spec fn decode(raw: Seq<char>) -> Option<MessageView> {
    decode_line(trim(raw))
}

/// The name to show for the sender: the `display-name` tag, else the
/// sender's name from the prefix.
pub open spec fn display_name_of(m: MessageView) -> Option<Seq<char>> {
    if m.tags.dom().contains("display-name"@) {
        Some(m.tags["display-name"@])
    } else {
        m.username
    }
}

/// The tag `key` is present with the value `1`.
pub open spec fn flag_set(tags: Map<Seq<char>, Seq<char>>, key: Seq<char>) -> bool {
    tags.dom().contains(key) && tags[key] == "1"@
}

/// The marks that stand before the sender's name in a displayed line.
pub open spec fn status_marks(tags: Map<Seq<char>, Seq<char>>) -> Seq<char> {
    (if flag_set(tags, "mod"@) {
        "[MOD] "@
    } else {
        Seq::empty()
    }) + (if tags.dom().contains("vip"@) {
        "[VIP] "@
    } else {
        Seq::empty()
    }) + (if flag_set(tags, "subscriber"@) {
        "[SUB] "@
    } else {
        Seq::empty()
    })
}

/// The line to display for a chat post: the marks, the name, `": "` and
/// the text. Nothing is displayed for other commands, nor for a chat post
/// without a name or without text.
pub open spec fn display_line(m: MessageView) -> Option<Seq<char>> {
    if m.command == chat_post() && display_name_of(m) is Some && m.message is Some {
        Some(status_marks(m.tags) + display_name_of(m).unwrap() + ": "@ + m.message.unwrap())
    } else {
        None
    }
}

/// The tag segment `k1=v1;k2=v2` gives the two entries `k1 => v1` and
/// `k2 => v2` and no other. The keys hold neither `;` nor `=`, the values
/// no `;`.
pub proof fn lemma_two_tags(k1: Seq<char>, v1: Seq<char>, k2: Seq<char>, v2: Seq<char>)
    requires
        free_of(k1, ';'),
        free_of(k1, '='),
        free_of(v1, ';'),
        free_of(k2, ';'),
        free_of(k2, '='),
        free_of(v2, ';'),
    ensures
        parse_tags(k1 + seq!['='] + v1 + seq![';'] + k2 + seq!['='] + v2) == Map::<
            Seq<char>,
            Seq<char>,
        >::empty().insert(k1, v1).insert(k2, v2),
        k1 != k2 ==> parse_tags(
            k1 + seq!['='] + v1 + seq![';'] + k2 + seq!['='] + v2,
        ).dom().len() == 2,
{
    let first = k1 + seq!['='] + v1;
    let second = k2 + seq!['='] + v2;
    let segment = k1 + seq!['='] + v1 + seq![';'] + k2 + seq!['='] + v2;
    assert(segment =~= first + seq![';'] + second);
    assert(free_of(first, ';'));
    assert(free_of(second, ';'));
    lemma_split_joined(first, ';', second);
    lemma_split_single(second, ';');
    assert(split(segment, ';') =~= seq![first, second]);
    lemma_span_joined(k1, '=', v1);
    lemma_span_joined(k2, '=', v2);
    let pairs = tag_pairs(segment);
    assert(pairs =~= seq![(k1, v1), (k2, v2)]);
    assert(pairs.drop_last() =~= seq![(k1, v1)]);
    assert(seq![(k1, v1)].drop_last() =~= Seq::<(Seq<char>, Seq<char>)>::empty());
    reveal_with_fuel(map_of, 3);
    assert(map_of(pairs) == Map::<Seq<char>, Seq<char>>::empty().insert(k1, v1).insert(k2, v2));
    if k1 != k2 {
        assert(distinct_keys(pairs));
        lemma_map_of_len(pairs);
    }
}

/// A tag entry without `=` gives its key with an empty value.
pub proof fn lemma_tag_without_value(key: Seq<char>)
    requires
        free_of(key, ';'),
        free_of(key, '='),
    ensures
        parse_tags(key) == Map::<Seq<char>, Seq<char>>::empty().insert(key, Seq::empty()),
{
    lemma_split_single(key, ';');
    lemma_span_absent(key, '=');
    let pairs = tag_pairs(key);
    assert(pairs =~= seq![(key, Seq::<char>::empty())]);
    assert(pairs.drop_last() =~= Seq::<(Seq<char>, Seq<char>)>::empty());
    reveal_with_fuel(map_of, 2);
}

/// A tag entry `key=` with nothing after the `=` gives the key with an
/// empty value: the tag is present.
pub proof fn lemma_tag_with_empty_value(key: Seq<char>)
    requires
        free_of(key, ';'),
        free_of(key, '='),
    ensures
        parse_tags(key + seq!['=']) == Map::<Seq<char>, Seq<char>>::empty().insert(
            key,
            Seq::empty(),
        ),
{
    let entry = key + seq!['='];
    assert(free_of(entry, ';'));
    lemma_split_single(entry, ';');
    assert(entry =~= key + seq!['='] + Seq::<char>::empty());
    lemma_span_joined(key, '=', Seq::empty());
    let pairs = tag_pairs(entry);
    assert(pairs =~= seq![(key, Seq::<char>::empty())]);
    assert(pairs.drop_last() =~= Seq::<(Seq<char>, Seq<char>)>::empty());
    reveal_with_fuel(map_of, 2);
}

/// A line `@segment rest` decodes with the tags of its segment, and for
/// the rest as a line without tags does. The segment holds no space, and
/// the rest does not end with whitespace.
pub proof fn lemma_tagged_line(segment: Seq<char>, rest: Seq<char>)
    requires
        free_of(segment, ' '),
        rest.len() > 0,
        !is_whitespace(rest.last()),
    ensures
        decode(seq!['@'] + segment + seq![' '] + rest) == decode_prefix(parse_tags(segment), rest),
        decode(seq!['@'] + segment + seq![' '] + rest) matches Some(m) ==> m.tags == parse_tags(
            segment,
        ),
{
    let head = seq!['@'] + segment;
    let line = head + seq![' '] + rest;
    assert(line[0] == '@');
    assert(line.last() == rest.last());
    lemma_trim_identity(line);
    assert(free_of(head, ' ')) by {
        assert forall|i: int| 0 <= i < head.len() implies #[trigger] head[i] != ' ' by {
            if i > 0 {
                assert(head[i] == segment[i - 1]);
            }
        }
    }
    lemma_span_joined(head, ' ', rest);
    assert(head.skip(1) =~= segment);
}

/// A line that does not begin with the tag marker decodes as its prefix
/// and command alone decide, and to a message without tags: the want of
/// tags is no reason for a failure.
pub proof fn lemma_untagged_line(raw: Seq<char>)
    requires
        trim(raw).len() == 0 || trim(raw)[0] != '@',
    ensures
        decode(raw) == decode_prefix(Map::empty(), trim(raw)),
        decode(raw) matches Some(m) ==> m.tags == Map::<Seq<char>, Seq<char>>::empty(),
        decode(raw) is Some <==> {
            let line = trim(raw);
            if line.len() > 0 && line[0] == ':' {
                after_first(line, ' ') matches Some(tail) && before_first(tail, ' ').len() > 0
            } else {
                before_first(line, ' ').len() > 0
            }
        },
{
}

/// Every decoded message has a command, which is not empty and holds no
/// space; its sender's name and its text are what its prefix, its
/// command and its parameters give.
pub proof fn lemma_decoded_message(raw: Seq<char>)
    requires
        decode(raw) is Some,
    ensures
        decode(raw).unwrap().command.len() > 0,
        free_of(decode(raw).unwrap().command, ' '),
        decode(raw).unwrap().username == username_of(decode(raw).unwrap().prefix),
        decode(raw).unwrap().message == message_of(
            decode(raw).unwrap().command,
            decode(raw).unwrap().params,
        ),
{
    let line = trim(raw);
    let after_tags = if line.len() > 0 && line[0] == '@' {
        after_first(line, ' ').unwrap()
    } else {
        line
    };
    let rest = if after_tags.len() > 0 && after_tags[0] == ':' {
        after_first(after_tags, ' ').unwrap()
    } else {
        after_tags
    };
    lemma_span_before(rest, ' ');
    let command = before_first(rest, ' ');
    assert(decode(raw).unwrap().command == command);
    assert forall|i: int| 0 <= i < command.len() implies #[trigger] command[i] != ' ' by {
        assert(command[i] == rest[i]);
    }
}

/// A decoded protocol line.
#[derive(Debug)]
pub struct TwitchMessage {
    pub tags: TagMap,
    pub prefix: Option<String>,
    pub command: String,
    pub params: Vec<String>,
    pub username: Option<String>,
    pub message: Option<String>,
}

impl View for TwitchMessage {
    type V = MessageView;

    open spec fn view(&self) -> MessageView {
        MessageView {
            tags: self.tags@,
            prefix: opt_text(self.prefix),
            command: self.command@,
            params: texts(self.params@),
            username: opt_text(self.username),
            message: opt_text(self.message),
        }
    }
}

impl Clone for TwitchMessage {
    fn clone(&self) -> (copy: Self)
        ensures
            copy@ == self@,
    {
        TwitchMessage {
            tags: self.tags.clone(),
            prefix: clone_opt(&self.prefix),
            command: self.command.clone(),
            params: clone_strings(&self.params),
            username: clone_opt(&self.username),
            message: clone_opt(&self.message),
        }
    }
}

/// Reads the tag segment between `from` and `to`.
fn read_tags(line: &Line, from: usize, to: usize) -> (tags: TagMap)
    requires
        from <= to <= line@.len(),
    ensures
        tags@ == parse_tags(line@.subrange(from as int, to as int)),
{
    let ghost segment = line@.subrange(from as int, to as int);
    let ghost pairs = tag_pairs(segment);
    let entries = line.split_bounds(from, to, ';');
    let mut tags = TagMap::new();
    let mut i: usize = 0;
    while i < entries.len()
        invariant
            i <= entries@.len(),
            from <= to <= line@.len(),
            segment == line@.subrange(from as int, to as int),
            pairs == tag_pairs(segment),
            entries@.len() == split(segment, ';').len(),
            forall|j: int|
                0 <= j < entries@.len() ==> {
                    &&& from <= (#[trigger] entries@[j]).0 <= entries@[j].1 <= to
                    &&& line@.subrange(entries@[j].0 as int, entries@[j].1 as int) == split(
                        segment,
                        ';',
                    )[j]
                },
            tags@ == map_of(pairs.take(i as int)),
        decreases entries@.len() - i,
    {
        let (start, end) = entries[i];
        let eq = line.scan(start, end, '=');
        let ghost entry = line@.subrange(start as int, end as int);
        let key = line.cut(start, eq);
        let value = if eq < end {
            line.cut(eq + 1, end)
        } else {
            String::new()
        };
        proof {
            assert(entry == split(segment, ';')[i as int]);
            assert(key@ =~= tag_key(entry));
            assert(value@ =~= tag_value(entry)) by {
                if eq < end {
                    assert(entry.skip(eq - start + 1) =~= line@.subrange(eq + 1, end as int));
                }
            }
            let next = pairs.take(i + 1);
            assert(next.drop_last() =~= pairs.take(i as int));
            assert(next.last() == (key@, value@));
        }
        tags.insert(key, value);
        i += 1;
    }
    proof {
        assert(pairs.take(i as int) =~= pairs);
    }
    tags
}

/// Reads the parameters between `from` and `to`.
fn read_params(line: &Line, from: usize, to: usize) -> (params: Vec<String>)
    requires
        from <= to <= line@.len(),
    ensures
        texts(params@) == split_params(line@.subrange(from as int, to as int)),
{
    let ghost whole = split_params(line@.subrange(from as int, to as int));
    let mut params: Vec<String> = Vec::new();
    let mut pos: usize = from;
    proof {
        assert(texts(params@) + whole =~= whole);
    }
    while pos < to
        invariant
            from <= pos <= to <= line@.len(),
            whole == texts(params@) + split_params(line@.subrange(pos as int, to as int)),
        decreases to - pos,
    {
        let ghost rest = line@.subrange(pos as int, to as int);
        let ghost before = texts(params@);
        if line.at(pos) == ':' {
            let last = line.cut(pos + 1, to);
            proof {
                assert(rest[0] == ':');
                assert(rest.skip(1) =~= last@);
                assert(split_params(rest) == seq![last@]);
                assert(split_params(line@.subrange(to as int, to as int)) =~= Seq::empty());
            }
            params.push(last);
            pos = to;
            proof {
                assert(texts(params@) =~= before + seq![rest.skip(1)]);
                assert(whole =~= texts(params@) + Seq::empty());
            }
        } else {
            let at = line.scan(pos, to, ' ');
            let param = line.cut(pos, at);
            proof {
                assert(rest[0] != ':');
                assert(rest.take(at - pos) =~= param@);
            }
            params.push(param);
            proof {
                assert(texts(params@) =~= before + seq![rest.take(at - pos)]);
            }
            if at < to {
                proof {
                    assert(rest.skip(at - pos + 1) =~= line@.subrange(at + 1, to as int));
                    assert(whole =~= texts(params@) + split_params(
                        line@.subrange(at + 1, to as int),
                    ));
                }
                pos = at + 1;
            } else {
                proof {
                    assert(rest.take(at - pos) =~= rest);
                    assert(split_params(line@.subrange(to as int, to as int)) =~= Seq::empty());
                    assert(whole =~= texts(params@) + Seq::empty());
                }
                pos = to;
            }
        }
    }
    proof {
        assert(split_params(line@.subrange(pos as int, to as int)) =~= Seq::empty());
        assert(whole =~= texts(params@));
    }
    params
}

/// Reads the command and the parameters between `from` and `to`, and puts
/// the message together.
fn read_command(line: &Line, tags: TagMap, prefix: Option<String>, from: usize, to: usize) -> (r:
    Option<TwitchMessage>)
    requires
        from <= to <= line@.len(),
    ensures
        r matches Some(m) ==> decode_command(
            tags@,
            opt_text(prefix),
            line@.subrange(from as int, to as int),
        ) == Some(m@),
        r is None ==> decode_command(
            tags@,
            opt_text(prefix),
            line@.subrange(from as int, to as int),
        ) is None,
{
    let ghost rest = line@.subrange(from as int, to as int);
    let at = line.scan(from, to, ' ');
    if at == from {
        return None;
    }
    let command = line.cut(from, at);
    let params = if at < to {
        read_params(line, at + 1, to)
    } else {
        Vec::new()
    };
    proof {
        assert(command@ =~= before_first(rest, ' '));
        if at < to {
            assert(rest.skip(at - from + 1) =~= line@.subrange(at + 1, to as int));
        } else {
            assert(texts(params@) =~= Seq::empty());
        }
    }
    let username = match &prefix {
        Some(p) => {
            let sender = Line::new(p.as_str());
            let bang = sender.scan(0, sender.len(), '!');
            proof {
                assert(sender@.subrange(0, sender@.len() as int) =~= sender@);
            }
            Some(sender.cut(0, bang))
        },
        None => None,
    };
    let is_chat_post = command == "PRIVMSG".to_owned();
    let message = if is_chat_post && params.len() >= 2 {
        Some(params[1].clone())
    } else {
        None
    };
    let m = TwitchMessage { tags, prefix, command, params, username, message };
    proof {
        let d = assemble(m.tags@, opt_text(m.prefix), m.command@, texts(m.params@));
        assert(m@.username == d.username);
        assert(m@.message == d.message);
        assert(m@ == d);
    }
    Some(m)
}

/// Reads an optional prefix between `from` and `to`, then the command and
/// the parameters.
fn read_prefix(line: &Line, tags: TagMap, from: usize, to: usize) -> (r: Option<TwitchMessage>)
    requires
        from <= to <= line@.len(),
    ensures
        r matches Some(m) ==> decode_prefix(tags@, line@.subrange(from as int, to as int)) == Some(
            m@,
        ),
        r is None ==> decode_prefix(tags@, line@.subrange(from as int, to as int)) is None,
{
    let ghost rest = line@.subrange(from as int, to as int);
    if from < to && line.at(from) == ':' {
        let at = line.scan(from, to, ' ');
        if at == to {
            return None;
        }
        let sender = line.cut(from + 1, at);
        proof {
            assert(rest[0] == ':');
            assert(before_first(rest, ' ').skip(1) =~= sender@);
            assert(rest.skip(at - from + 1) =~= line@.subrange(at + 1, to as int));
        }
        read_command(line, tags, Some(sender), at + 1, to)
    } else {
        proof {
            if from < to {
                assert(rest[0] == line@[from as int]);
            }
        }
        read_command(line, tags, None, from, to)
    }
}

/// Reads an optional tag segment between `from` and `to`, then the rest of
/// the line.
fn read_line(line: &Line, from: usize, to: usize) -> (r: Option<TwitchMessage>)
    requires
        from <= to <= line@.len(),
    ensures
        r matches Some(m) ==> decode_line(line@.subrange(from as int, to as int)) == Some(m@),
        r is None ==> decode_line(line@.subrange(from as int, to as int)) is None,
{
    let ghost text = line@.subrange(from as int, to as int);
    if from < to && line.at(from) == '@' {
        let at = line.scan(from, to, ' ');
        if at == to {
            return None;
        }
        let tags = read_tags(line, from + 1, at);
        proof {
            assert(text[0] == '@');
            assert(before_first(text, ' ').skip(1) =~= line@.subrange(from + 1, at as int));
            assert(text.skip(at - from + 1) =~= line@.subrange(at + 1, to as int));
        }
        read_prefix(line, tags, at + 1, to)
    } else {
        proof {
            if from < to {
                assert(text[0] == line@[from as int]);
            }
        }
        read_prefix(line, TagMap::new(), from, to)
    }
}

impl TwitchMessage {
    /// Decodes one raw line. The whitespace around the line is ignored.
    pub fn parse(raw: &str) -> (r: Option<Self>)
        ensures
            r matches Some(m) ==> decode(raw@) == Some(m@),
            r is None ==> decode(raw@) is None,
    {
        let line = Line::new(raw);
        let (start, end) = line.trim_bounds(0, line.len());
        proof {
            assert(line@.subrange(0, line@.len() as int) =~= line@);
        }
        read_line(&line, start, end)
    }

    /// The name to show for the sender.
    pub fn display_name(&self) -> (name: Option<String>)
        ensures
            opt_text(name) == display_name_of(self@),
    {
        match self.tags.get("display-name") {
            Some(name) => Some(name.clone()),
            None => self.username.clone(),
        }
    }

    /// Tells whether the sender is a moderator.
    pub fn is_mod(&self) -> (b: bool)
        ensures
            b == flag_set(self@.tags, "mod"@),
    {
        match self.tags.get("mod") {
            Some(v) => *v == "1".to_owned(),
            None => false,
        }
    }

    /// Tells whether the sender is a subscriber.
    pub fn is_subscriber(&self) -> (b: bool)
        ensures
            b == flag_set(self@.tags, "subscriber"@),
    {
        match self.tags.get("subscriber") {
            Some(v) => *v == "1".to_owned(),
            None => false,
        }
    }

    /// Tells whether the sender is a VIP.
    pub fn is_vip(&self) -> (b: bool)
        ensures
            b == self@.tags.dom().contains("vip"@),
    {
        self.tags.contains_key("vip")
    }

    /// The line to display for this message, if it is a chat post with a
    /// name and a text.
    pub fn format_display(&self) -> (line: Option<String>)
        ensures
            opt_text(line) == display_line(self@),
    {
        if self.command != "PRIVMSG".to_owned() {
            return None;
        }
        let name = match self.display_name() {
            Some(name) => name,
            None => {
                return None;
            },
        };
        let message = match &self.message {
            Some(message) => message,
            None => {
                return None;
            },
        };
        let mut line = String::new();
        if self.is_mod() {
            line.append("[MOD] ");
        }
        if self.is_vip() {
            line.append("[VIP] ");
        }
        if self.is_subscriber() {
            line.append("[SUB] ");
        }
        proof {
            assert(line@ =~= status_marks(self@.tags));
        }
        line.append(name.as_str());
        line.append(": ");
        line.append(message.as_str());
        Some(line)
    }
}

} // verus!
