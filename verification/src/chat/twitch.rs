//! Twitch chat over anonymous IRC: parsing `PRIVMSG` lines with their IRCv3
//! tags, and the decisions of the connection loop.

use crate::chat::IncomingChatMessage;
use crate::text::{
    chars_of, decimal_string, find_in, push_char, push_str, range_eq, string_from, trim_bounds,
};
use vstd::prelude::*;

verus! {

/// A chat line taken from a `PRIVMSG`.
#[derive(Debug, PartialEq, Eq)]
pub struct ParsedMessage {
    pub id: Option<String>,
    pub author: String,
    pub text: String,
}

pub open spec fn is_line_end(c: char) -> bool {
    c == '\r' || c == '\n'
}

/// `s` without trailing carriage returns and line feeds.
pub open spec fn trim_line_end(s: Seq<char>) -> Seq<char>
    decreases s.len(),
{
    if s.len() > 0 && is_line_end(s.last()) {
        trim_line_end(s.drop_last())
    } else {
        s
    }
}

/// The character that an IRCv3 tag escape `\c` stands for.
pub open spec fn unescaped(c: char) -> char {
    if c == 's' {
        ' '
    } else if c == ':' {
        ';'
    } else if c == 'r' {
        '\r'
    } else if c == 'n' {
        '\n'
    } else {
        c
    }
}

/// An IRCv3 tag value with its escapes decoded; a lone trailing `\` stays.
pub open spec fn decode_tag_spec(s: Seq<char>) -> Seq<char>
    decreases s.len(),
{
    if s.len() == 0 {
        Seq::empty()
    } else if s[0] != '\\' {
        seq![s[0]] + decode_tag_spec(s.drop_first())
    } else if s.len() == 1 {
        seq!['\\']
    } else {
        seq![unescaped(s[1])] + decode_tag_spec(s.skip(2))
    }
}

/// The decoded value of one `key=value` tag when its key is `name` and its value is not empty.
pub open spec fn tag_value(tag: Seq<char>, name: Seq<char>) -> Option<Seq<char>> {
    match crate::text::split_once(tag, seq!['=']) {
        Some((key, value)) => if key == name && value.len() > 0 {
            Some(decode_tag_spec(value))
        } else {
            None
        },
        None => None,
    }
}

/// The first tag named `name` with a non-empty value in a `;`-separated tag list.
pub open spec fn lookup_tag(tags: Seq<char>, name: Seq<char>) -> Option<Seq<char>>
    decreases tags.len(),
{
    match crate::text::find_from(tags, seq![';'], 0) {
        Some(i) => {
            let found = tag_value(tags.take(i), name);
            if found is Some {
                found
            } else if 0 <= i < tags.len() {
                lookup_tag(tags.skip(i + 1), name)
            } else {
                None
            }
        },
        None => tag_value(tags, name),
    }
}

/// `s` holds no `c`.
pub open spec fn free_of(s: Seq<char>, c: char) -> bool {
    forall|k: int| 0 <= k < s.len() ==> s[k] != c
}

proof fn lemma_split_tag(key: Seq<char>, value: Seq<char>)
    requires
        free_of(key, '='),
    ensures
        crate::text::split_once(key + seq!['='] + value, seq!['=']) == Some((key, value)),
{
    let t = key + seq!['='] + value;
    crate::text::lemma_find_char(t, '=', key.len() as int);
    assert(t.take(key.len() as int) =~= key);
    assert(t.skip(key.len() as int + 1) =~= value);
}

proof fn lemma_first_tag(t: Seq<char>, rest: Seq<char>, name: Seq<char>)
    requires
        free_of(t, ';'),
    ensures
        lookup_tag(t + seq![';'] + rest, name) == (if tag_value(t, name) is Some {
            tag_value(t, name)
        } else {
            lookup_tag(rest, name)
        }),
{
    let s = t + seq![';'] + rest;
    crate::text::lemma_find_char(s, ';', t.len() as int);
    assert(s.take(t.len() as int) =~= t);
    assert(s.skip(t.len() as int + 1) =~= rest);
}

/// A tag with another key, or with an empty value, does not change what a
/// lookup finds: the search goes on past it, so tags such as an empty
/// `badge-info=` before `display-name=...` never hide the display name.
pub proof fn other_tags_do_not_affect_lookup(
    key: Seq<char>,
    value: Seq<char>,
    rest: Seq<char>,
    name: Seq<char>,
)
    requires
        free_of(key, ';'),
        free_of(key, '='),
        free_of(value, ';'),
        key != name || value.len() == 0,
    ensures
        lookup_tag(key + seq!['='] + value + seq![';'] + rest, name) == lookup_tag(rest, name),
{
    let t = key + seq!['='] + value;
    assert(free_of(t, ';')) by {
        assert forall|k: int| 0 <= k < t.len() implies t[k] != ';' by {
            if k < key.len() {
                assert(t[k] == key[k]);
            } else if k > key.len() {
                assert(t[k] == value[k - key.len() - 1]);
            }
        }
    }
    lemma_split_tag(key, value);
    lemma_first_tag(t, rest, name);
}

/// A tag `name=value` with a non-empty value is found, decoded, wherever it
/// stands after tags that do not match: here as the first tag, either alone
/// or followed by more tags.
pub proof fn named_tag_is_found(name: Seq<char>, value: Seq<char>, rest: Seq<char>)
    requires
        free_of(name, ';'),
        free_of(name, '='),
        free_of(value, ';'),
        value.len() > 0,
    ensures
        lookup_tag(name + seq!['='] + value + seq![';'] + rest, name) == Some(decode_tag_spec(value)),
        lookup_tag(name + seq!['='] + value, name) == Some(decode_tag_spec(value)),
{
    let t = name + seq!['='] + value;
    assert(free_of(t, ';')) by {
        assert forall|k: int| 0 <= k < t.len() implies t[k] != ';' by {
            if k < name.len() {
                assert(t[k] == name[k]);
            } else if k > name.len() {
                assert(t[k] == value[k - name.len() - 1]);
            }
        }
    }
    lemma_split_tag(name, value);
    lemma_first_tag(t, rest, name);
    crate::text::lemma_no_char(t, ';');
}

pub open spec fn privmsg_marker() -> Seq<char> {
    seq![' ', 'P', 'R', 'I', 'V', 'M', 'S', 'G', ' ']
}

pub open spec fn display_name_tag() -> Seq<char> {
    seq!['d', 'i', 's', 'p', 'l', 'a', 'y', '-', 'n', 'a', 'm', 'e']
}

pub open spec fn id_tag() -> Seq<char> {
    seq!['i', 'd']
}

/// The tags (when the line starts with `@`) and the rest of the line.
pub open spec fn split_tags(line: Seq<char>) -> Option<(Option<Seq<char>>, Seq<char>)> {
    if line.len() > 0 && line[0] == '@' {
        match crate::text::split_once(line.drop_first(), seq![' ']) {
            Some((tags, message)) => Some((Some(tags), message)),
            None => None,
        }
    } else {
        Some((None, line))
    }
}

/// The sender prefix and the text of `:prefix PRIVMSG #channel :text`.
pub open spec fn privmsg_parts(message: Seq<char>) -> Option<(Seq<char>, Seq<char>)> {
    if message.len() > 0 && message[0] == ':' {
        match crate::text::split_once(message.drop_first(), privmsg_marker()) {
            Some((prefix, rest)) => match crate::text::split_once(rest, seq![' ', ':']) {
                Some((_channel, text)) => Some((prefix, text)),
                None => None,
            },
            None => None,
        }
    } else {
        None
    }
}

pub open spec fn optional_tag(tags: Option<Seq<char>>, name: Seq<char>) -> Option<Seq<char>> {
    match tags {
        Some(t) => lookup_tag(t, name),
        None => None,
    }
}

/// The nick of an IRC prefix `nick!user@host`.
pub open spec fn prefix_nick(prefix: Seq<char>) -> Seq<char> {
    match crate::text::find_from(prefix, seq!['!'], 0) {
        Some(i) => prefix.take(i),
        None => prefix,
    }
}

/// The parsed `(id, author, text)` of a chat line, if it is a chat message.
pub open spec fn parse_privmsg_spec(line: Seq<char>) -> Option<(Option<Seq<char>>, Seq<char>, Seq<char>)> {
    match split_tags(trim_line_end(line)) {
        Some((tags, message)) => match privmsg_parts(message) {
            Some((prefix, text)) => {
                let author = match optional_tag(tags, display_name_tag()) {
                    Some(name) => name,
                    None => prefix_nick(prefix),
                };
                if crate::text::trim(text).len() == 0 || crate::text::trim(author).len() == 0 {
                    None
                } else {
                    Some((optional_tag(tags, id_tag()), author, text))
                }
            },
            None => None,
        },
        None => None,
    }
}

pub open spec fn parsed_view(p: Option<ParsedMessage>) -> Option<(Option<Seq<char>>, Seq<char>, Seq<char>)> {
    match p {
        Some(m) => Some((crate::chat::opt_view(m.id), m.author@, m.text@)),
        None => None,
    }
}

/// Decodes the IRCv3 escapes of `s[from..to]`.
fn decode_tag_range(s: &Vec<char>, from: usize, to: usize) -> (r: String)
    requires
        from <= to <= s.len(),
    ensures
        r@ == decode_tag_spec(s@.subrange(from as int, to as int)),
{
    let mut r = String::new();
    let mut k: usize = from;
    assert(r@ + decode_tag_spec(s@.subrange(k as int, to as int)) =~= decode_tag_spec(
        s@.subrange(from as int, to as int),
    ));
    while k < to
        invariant
            from <= k <= to <= s.len(),
            r@ + decode_tag_spec(s@.subrange(k as int, to as int)) == decode_tag_spec(
                s@.subrange(from as int, to as int),
            ),
        decreases to - k,
    {
        let ghost rest = s@.subrange(k as int, to as int);
        let c = s[k];
        if c != '\\' {
            push_char(&mut r, c);
            assert(rest.drop_first() =~= s@.subrange(k + 1, to as int));
            assert(decode_tag_spec(rest) == seq![c] + decode_tag_spec(rest.drop_first()));
            k += 1;
            assert(r@ + decode_tag_spec(s@.subrange(k as int, to as int)) =~= decode_tag_spec(
                s@.subrange(from as int, to as int),
            ));
        } else if k + 1 == to {
            push_char(&mut r, '\\');
            assert(s@.subrange(to as int, to as int) =~= Seq::<char>::empty());
            k += 1;
            assert(r@ + decode_tag_spec(s@.subrange(k as int, to as int)) =~= decode_tag_spec(
                s@.subrange(from as int, to as int),
            ));
        } else {
            let e = s[k + 1];
            let d = if e == 's' {
                ' '
            } else if e == ':' {
                ';'
            } else if e == 'r' {
                '\r'
            } else if e == 'n' {
                '\n'
            } else {
                e
            };
            push_char(&mut r, d);
            assert(rest.skip(2) =~= s@.subrange(k + 2, to as int));
            k += 2;
            assert(r@ + decode_tag_spec(s@.subrange(k as int, to as int)) =~= decode_tag_spec(
                s@.subrange(from as int, to as int),
            ));
        }
    }
    assert(s@.subrange(to as int, to as int) =~= Seq::<char>::empty());
    assert(r@ =~= decode_tag_spec(s@.subrange(from as int, to as int)));
    r
}

/// Decodes the escapes of an IRCv3 tag value (`\s` is a space, `\:` a semicolon,
/// `\\` a backslash, `\r` and `\n` line breaks; any other escaped character stands
/// for itself and a lone trailing backslash is kept).
pub fn decode_tag(value: &str) -> (r: String)
    ensures
        r@ == decode_tag_spec(value@),
{
    let v = chars_of(value);
    assert(v@.subrange(0, v@.len() as int) =~= v@);
    decode_tag_range(&v, 0, v.len())
}

/// The value of the tag `s[from..to]` when its key is `name` and its value is not empty.
fn tag_value_range(s: &Vec<char>, from: usize, to: usize, name: &[char]) -> (r: Option<String>)
    requires
        from <= to <= s.len(),
    ensures
        crate::chat::opt_view(r) == tag_value(s@.subrange(from as int, to as int), name@),
{
    let ghost tag = s@.subrange(from as int, to as int);
    let eq = ['='];
    assert(eq@ =~= seq!['=']);
    match find_in(s, from, to, &eq) {
        Some(k) => {
            assert(tag.take(k - from) =~= s@.subrange(from as int, k as int));
            assert(tag.skip(k - from + 1) =~= s@.subrange(k + 1, to as int));
            if range_eq(s, from, k, name) && k + 1 < to {
                Some(decode_tag_range(s, k + 1, to))
            } else {
                None
            }
        },
        None => None,
    }
}

/// The first tag named `name` with a non-empty value among the tags `s[from..to]`.
fn lookup_tag_range(s: &Vec<char>, from: usize, to: usize, name: &[char]) -> (r: Option<String>)
    requires
        from <= to <= s.len(),
    ensures
        crate::chat::opt_view(r) == lookup_tag(s@.subrange(from as int, to as int), name@),
{
    let semicolon = [';'];
    assert(semicolon@ =~= seq![';']);
    let mut pos: usize = from;
    loop
        invariant
            from <= pos <= to <= s.len(),
            semicolon@ == seq![';'],
            lookup_tag(s@.subrange(from as int, to as int), name@) == lookup_tag(
                s@.subrange(pos as int, to as int),
                name@,
            ),
        decreases to - pos,
    {
        let ghost tags = s@.subrange(pos as int, to as int);
        match find_in(s, pos, to, &semicolon) {
            Some(k) => {
                assert(tags.take(k - pos) =~= s@.subrange(pos as int, k as int));
                assert(tags.skip(k - pos + 1) =~= s@.subrange(k + 1, to as int));
                let found = tag_value_range(s, pos, k, name);
                if found.is_some() {
                    return found;
                }
                pos = k + 1;
            },
            None => {
                return tag_value_range(s, pos, to, name);
            },
        }
    }
}

/// Parses a Twitch IRC `PRIVMSG` line; any other line gives `None`.
///
/// The author is the `display-name` tag when present, else the nick of the
/// sender prefix; the id is the `id` tag. Lines whose text or author is blank
/// give `None`.
#[verifier::rlimit(40)]
pub fn parse_privmsg(line: &str) -> (r: Option<ParsedMessage>)
    ensures
        parsed_view(r) == parse_privmsg_spec(line@),
{
    let v = chars_of(line);
    let mut end: usize = v.len();
    assert(v@.take(end as int) =~= v@);
    while end > 0 && (v[end - 1] == '\r' || v[end - 1] == '\n')
        invariant
            end <= v.len(),
            v@ == line@,
            trim_line_end(line@) == trim_line_end(v@.take(end as int)),
        decreases end,
    {
        assert(v@.take(end as int).drop_last() =~= v@.take(end - 1));
        end -= 1;
    }
    let ghost trimmed_line = v@.take(end as int);
    assert(trim_line_end(trimmed_line) == trimmed_line);
    assert(trimmed_line =~= v@.subrange(0, end as int));

    let space = [' '];
    assert(space@ =~= seq![' ']);
    let mut tags: Option<(usize, usize)> = None;
    let mut msg_start: usize = 0;
    if end > 0 && v[0] == '@' {
        match find_in(&v, 1, end, &space) {
            Some(k) => {
                assert(trimmed_line.drop_first() =~= v@.subrange(1, end as int));
                assert(v@.subrange(1, end as int).take(k - 1) =~= v@.subrange(1, k as int));
                assert(v@.subrange(1, end as int).skip(k - 1 + 1) =~= v@.subrange(k + 1, end as int));
                tags = Some((1, k));
                msg_start = k + 1;
            },
            None => {
                assert(trimmed_line.drop_first() =~= v@.subrange(1, end as int));
                return None;
            },
        }
    }
    let ghost message = v@.subrange(msg_start as int, end as int);
    assert(split_tags(trimmed_line) == Some((
        match tags {
            Some((a, b)) => Some(v@.subrange(a as int, b as int)),
            None => None::<Seq<char>>,
        },
        message,
    )));

    if !(msg_start < end && v[msg_start] == ':') {
        return None;
    }
    let rest: usize = msg_start + 1;
    assert(message.drop_first() =~= v@.subrange(rest as int, end as int));
    let marker = [' ', 'P', 'R', 'I', 'V', 'M', 'S', 'G', ' '];
    assert(marker@ =~= privmsg_marker());
    let k1 = match find_in(&v, rest, end, &marker) {
        Some(k) => k,
        None => return None,
    };
    assert(v@.subrange(rest as int, end as int).take(k1 - rest) =~= v@.subrange(
        rest as int,
        k1 as int,
    ));
    assert(v@.subrange(rest as int, end as int).skip(k1 - rest + 9) =~= v@.subrange(
        k1 + 9,
        end as int,
    ));
    let colon = [' ', ':'];
    assert(colon@ =~= seq![' ', ':']);
    let k2 = match find_in(&v, k1 + 9, end, &colon) {
        Some(k) => k,
        None => return None,
    };
    assert(v@.subrange(k1 + 9, end as int).skip(k2 - (k1 + 9) + 2) =~= v@.subrange(
        k2 + 2,
        end as int,
    ));
    let text_start: usize = k2 + 2;
    let ghost prefix = v@.subrange(rest as int, k1 as int);
    let ghost text = v@.subrange(text_start as int, end as int);
    assert(privmsg_parts(message) == Some((prefix, text)));

    let (ts, te) = trim_bounds(&v, text_start, end);
    if ts == te {
        return None;
    }

    let display = ['d', 'i', 's', 'p', 'l', 'a', 'y', '-', 'n', 'a', 'm', 'e'];
    assert(display@ =~= display_name_tag());
    let display_name = match tags {
        Some((a, b)) => lookup_tag_range(&v, a, b, &display),
        None => None,
    };
    let author = match display_name {
        Some(name) => name,
        None => {
            let bang = ['!'];
            assert(bang@ =~= seq!['!']);
            match find_in(&v, rest, k1, &bang) {
                Some(k) => {
                    assert(prefix.take(k - rest) =~= v@.subrange(rest as int, k as int));
                    string_from(&v, rest, k)
                },
                None => string_from(&v, rest, k1),
            }
        },
    };
    let author_chars = chars_of(author.as_str());
    let (aa, ab) = trim_bounds(&author_chars, 0, author_chars.len());
    assert(author_chars@.subrange(0, author_chars@.len() as int) =~= author@);
    if aa == ab {
        return None;
    }
    let id_name = ['i', 'd'];
    assert(id_name@ =~= id_tag());
    let id = match tags {
        Some((a, b)) => lookup_tag_range(&v, a, b, &id_name),
        None => None,
    };
    let text_string = string_from(&v, text_start, end);
    Some(ParsedMessage { id, author, text: text_string })
}


/// What the IRC reader does with one received line.
#[derive(Debug)]
pub enum IrcAction {
    /// Answer a keep-alive with this line.
    Pong(String),
    /// Twitch asked the client to reconnect.
    Reconnect,
    /// Queue this chat message.
    Chat(IncomingChatMessage),
    /// Nothing to do.
    Ignore,
}

/// The external id given to a chat line without an `id` tag:
/// `irc-<now in ms>-<counter>`.
pub open spec fn fallback_id(now_ms: u64, counter: u64) -> Seq<char> {
    "irc-"@ + crate::text::decimal(now_ms as nat) + "-"@ + crate::text::decimal(counter as nat)
}

/// What to do with `line`, given the fallback-id counter and the time; returns
/// the action and the counter, which advances (wrapping) for each chat line.
pub open spec fn irc_step(line: Seq<char>, counter: u64, now_ms: u64, action: IrcAction, next: u64) -> bool {
    if line.len() >= 5 && line.take(5) == "PING "@ {
        action matches IrcAction::Pong(pong) && pong@ == "PONG"@ + line.skip(4) && next == counter
    } else if crate::text::trim_end(line) == ":tmi.twitch.tv RECONNECT"@ {
        action matches IrcAction::Reconnect && next == counter
    } else {
        match parse_privmsg_spec(line) {
            None => action matches IrcAction::Ignore && next == counter,
            Some((id, author, text)) => {
                let n = if counter == u64::MAX { 0 } else { (counter + 1) as u64 };
                &&& next == n
                &&& action matches IrcAction::Chat(m)
                &&& m.source@ == "twitch"@
                &&& m.external_id@ == (match id {
                    Some(i) => i,
                    None => fallback_id(now_ms, n),
                })
                &&& m.author@ == author
                &&& m.text@ == text
                &&& m.avatar_url is None
                &&& m.sent_at is None
            },
        }
    }
}

/// The length of `s` without trailing whitespace.
fn trim_end_length(v: &Vec<char>) -> (r: usize)
    ensures
        r <= v.len(),
        v@.take(r as int) == crate::text::trim_end(v@),
{
    let mut j: usize = v.len();
    assert(v@.take(j as int) =~= v@);
    while j > 0 && crate::text::is_whitespace_char(v[j - 1])
        invariant
            j <= v.len(),
            crate::text::trim_end(v@) == crate::text::trim_end(v@.take(j as int)),
        decreases j,
    {
        assert(v@.take(j as int).drop_last() =~= v@.take(j - 1));
        j -= 1;
    }
    j
}

/// Decides what the IRC reader does with a received line.
pub fn irc_line_action(line: &str, fallback_message_id: u64, now_ms: u64) -> (r: (IrcAction, u64))
    ensures
        irc_step(line@, fallback_message_id, now_ms, r.0, r.1),
{
    let v = chars_of(line);
    let ping = chars_of("PING ");
    proof {
        reveal_strlit("PING ");
    }
    if v.len() >= 5 && range_eq(&v, 0, 5, ping.as_slice()) {
        assert(v@.subrange(0, 5) =~= v@.take(5));
        let mut pong = "PONG".to_owned();
        let rest = string_from(&v, 4, v.len());
        assert(v@.subrange(4, v@.len() as int) =~= line@.skip(4));
        push_str(&mut pong, rest.as_str());
        return (IrcAction::Pong(pong), fallback_message_id);
    }
    assert(!(line@.len() >= 5 && line@.take(5) == "PING "@)) by {
        if v@.len() >= 5 {
            assert(v@.subrange(0, 5) =~= v@.take(5));
        }
    }
    let end = trim_end_length(&v);
    let reconnect = ":tmi.twitch.tv RECONNECT".to_owned();
    let head = string_from(&v, 0, end);
    assert(v@.subrange(0, end as int) =~= v@.take(end as int));
    if head == reconnect {
        return (IrcAction::Reconnect, fallback_message_id);
    }
    match parse_privmsg(line) {
        None => (IrcAction::Ignore, fallback_message_id),
        Some(parsed) => {
            let next = fallback_message_id.wrapping_add(1);
            let external_id = match parsed.id {
                Some(id) => id,
                None => {
                    let mut id = "irc-".to_owned();
                    push_str(&mut id, decimal_string(now_ms).as_str());
                    push_str(&mut id, "-");
                    push_str(&mut id, decimal_string(next).as_str());
                    id
                },
            };
            let message = IncomingChatMessage {
                source: "twitch".to_owned(),
                external_id,
                author: parsed.author,
                text: parsed.text,
                avatar_url: None,
                sent_at: None,
            };
            (IrcAction::Chat(message), next)
        },
    }
}

/// The anonymous nick `justinfan<n>` with `n` between 10000 and 99999 taken from the clock.
pub fn anonymous_nick(now_ms: u64) -> (r: String)
    ensures
        r@ == "justinfan"@ + crate::text::decimal((10_000 + now_ms % 90_000) as nat),
{
    let mut r = "justinfan".to_owned();
    push_str(&mut r, decimal_string(10_000 + now_ms % 90_000).as_str());
    r
}

/// The lines that log in anonymously with `nick` and join `channel`.
pub fn irc_handshake(nick: &str, channel: &str) -> (r: String)
    ensures
        r@ == "CAP REQ :twitch.tv/tags twitch.tv/commands\r\nPASS SCHMOOPIIE\r\nNICK "@ + nick@
            + "\r\nJOIN #"@ + channel@ + "\r\n"@,
{
    let mut r = "CAP REQ :twitch.tv/tags twitch.tv/commands\r\nPASS SCHMOOPIIE\r\nNICK ".to_owned();
    push_str(&mut r, nick);
    push_str(&mut r, "\r\nJOIN #");
    push_str(&mut r, channel);
    push_str(&mut r, "\r\n");
    r
}

} // verus!
