//! The outbound path: a line of operator input becomes a chat line on
//! the wire, unless it is blank.

use crate::message_interface::{
    assemble, chat_post, decode, decode_command, decode_line, decode_prefix, split_params,
};
use crate::text::{
    free_of, is_blank, is_whitespace, lemma_span_joined, lemma_trim_blank, lemma_trim_end,
    lemma_trim_identity, lemma_trim_start, opt_text, trim, Line,
};
use crate::wire::{chat_line, chat_line_of};
use vstd::prelude::*;
use vstd::string::*;

verus! {

/// The wire line for a line of operator input: the chat line that posts
/// the input, without the whitespace around it, to the channel. Input
/// that is empty once trimmed gives no line.
pub open spec fn outbound_of(channel: Seq<char>, input: Seq<char>) -> Option<Seq<char>> {
    if trim(input).len() == 0 {
        None
    } else {
        Some(chat_line_of(channel, trim(input)))
    }
}

/// Blank input never gives a wire line, and input that is not blank
/// always gives one.
pub proof fn lemma_blank_input_sends_nothing(channel: Seq<char>, input: Seq<char>)
    ensures
        is_blank(input) <==> outbound_of(channel, input) is None,
{
    lemma_trim_blank(input);
}

/// A chat line decodes back to what it was made from: the chat-post
/// command, the channel after `#`, and as the message the very text,
/// spaces included. The channel holds no space; the text is not empty
/// and has no whitespace around it.
pub proof fn lemma_chat_line_decodes(channel: Seq<char>, text: Seq<char>)
    requires
        free_of(channel, ' '),
        text.len() > 0,
        !is_whitespace(text[0]),
        !is_whitespace(text.last()),
    ensures
        decode(chat_line_of(channel, text)) == Some(
            assemble(Map::empty(), None, chat_post(), seq![seq!['#'] + channel, text]),
        ),
        decode(chat_line_of(channel, text)) matches Some(m) && m.message == Some(text),
{
    reveal_strlit("PRIVMSG #");
    reveal_strlit("PRIVMSG");
    reveal_strlit(" :");
    let line = chat_line_of(channel, text);
    let target = seq!['#'] + channel;
    let params_text = target + seq![' '] + (seq![':'] + text);
    assert(line =~= chat_post() + seq![' '] + params_text);
    assert(line[0] == 'P');
    assert(line.last() == text.last());
    lemma_trim_identity(line);
    assert(free_of(chat_post(), ' '));
    lemma_span_joined(chat_post(), ' ', params_text);
    assert(free_of(target, ' ')) by {
        assert forall|i: int| 0 <= i < target.len() implies #[trigger] target[i] != ' ' by {
            if i > 0 {
                assert(target[i] == channel[i - 1]);
            }
        }
    }
    lemma_span_joined(target, ' ', seq![':'] + text);
    let trailing = seq![':'] + text;
    assert(trailing.skip(1) =~= text);
    assert(params_text[0] == '#');
    assert(split_params(trailing) == seq![text]);
    assert(split_params(params_text) =~= seq![target, text]) by {
        reveal_with_fuel(split_params, 2);
    }
    assert(decode_command(Map::empty(), None, line) == Some(
        assemble(Map::empty(), None, chat_post(), seq![target, text]),
    ));
    assert(decode_prefix(Map::empty(), line) == decode_command(Map::empty(), None, line));
    assert(decode_line(line) == decode_prefix(Map::empty(), line));
}

/// Round trip: the wire line for a line of operator input decodes, by
/// the decoder for inbound lines, to a chat post whose message is the
/// input without the whitespace around it. The channel holds no space.
pub proof fn lemma_outbound_round_trip(channel: Seq<char>, input: Seq<char>)
    requires
        free_of(channel, ' '),
        !is_blank(input),
    ensures
        outbound_of(channel, input) matches Some(line) && decode(line) matches Some(m)
            && m.command == chat_post() && m.message == Some(trim(input)),
{
    lemma_trim_blank(input);
    let n = lemma_trim_start(input);
    let rest = input.skip(n);
    let k = lemma_trim_end(rest);
    let text = trim(input);
    assert(text == rest.take(k));
    assert(text[0] == input[n]);
    assert(text.last() == rest[k - 1]);
    lemma_chat_line_decodes(channel, text);
}

/// The wire line for a line of operator input, if the input is not
/// blank.
pub fn outbound_line(channel: &str, input: &str) -> (line: Option<String>)
    ensures
        opt_text(line) == outbound_of(channel@, input@),
        is_blank(input@) <==> line is None,
{
    let typed = Line::new(input);
    let (start, end) = typed.trim_bounds(0, typed.len());
    proof {
        assert(typed@.subrange(0, typed@.len() as int) =~= input@);
        lemma_trim_blank(input@);
    }
    if start == end {
        None
    } else {
        Some(chat_line(channel, typed.slice(start, end)))
    }
}

} // verus!
