//! The wire lines that the client produces.

use vstd::prelude::*;
use vstd::string::*;

verus! {

/// The line that asks the server for tags and extended commands.
pub open spec fn capability_request_line() -> Seq<char> {
    "CAP REQ :twitch.tv/tags twitch.tv/commands"@
}

/// The line that presents the credential.
pub open spec fn pass_line_of(token: Seq<char>) -> Seq<char> {
    "PASS "@ + token
}

/// The line that gives the nickname.
pub open spec fn nick_line_of(nickname: Seq<char>) -> Seq<char> {
    "NICK "@ + nickname
}

/// The line that joins a channel.
pub open spec fn join_line_of(channel: Seq<char>) -> Seq<char> {
    "JOIN #"@ + channel
}

/// The line that posts `text` to a channel.
pub open spec fn chat_line_of(channel: Seq<char>, text: Seq<char>) -> Seq<char> {
    "PRIVMSG #"@ + channel + " :"@ + text
}

/// The line that asks the server for tags and extended commands.
pub fn capability_request() -> (line: String)
    ensures
        line@ == capability_request_line(),
{
    "CAP REQ :twitch.tv/tags twitch.tv/commands".to_owned()
}

/// The line that presents the credential.
pub fn pass_line(token: &str) -> (line: String)
    ensures
        line@ == pass_line_of(token@),
{
    "PASS ".to_owned().concat(token)
}

/// The line that gives the nickname.
pub fn nick_line(nickname: &str) -> (line: String)
    ensures
        line@ == nick_line_of(nickname@),
{
    "NICK ".to_owned().concat(nickname)
}

/// The line that joins a channel.
pub fn join_line(channel: &str) -> (line: String)
    ensures
        line@ == join_line_of(channel@),
{
    "JOIN #".to_owned().concat(channel)
}

/// The line that posts `text` to a channel.
pub fn chat_line(channel: &str, text: &str) -> (line: String)
    ensures
        line@ == chat_line_of(channel@, text@),
{
    let mut line = "PRIVMSG #".to_owned();
    line.append(channel);
    line.append(" :");
    line.append(text);
    line
}

} // verus!
