//! The node's TCP command protocol: a client sends `on` or `off`
//! (surrounding whitespace allowed) and the node switches its LED.

use vstd::prelude::*;
use vstd::slice::slice_subrange;
use vstd::string::StringSliceAdditionalSpecFns;
use vstd::utf8::{decode_utf8, encode_utf8, valid_utf8};

verus! {

/// What a command asks the LED to do.
#[derive(Clone, Copy, PartialEq, Eq, Structural, Debug)]
pub enum CommandEvent {
    Solid,
    Off,
}

/// TCP port the node listens on for commands.
pub const COMMAND_PORT: u16 = 8000;
/// Seconds of inactivity after which a connection is dropped.
pub const SOCKET_TIMEOUT_SECS: u64 = 60;
/// Size of the buffer one request is read into.
pub const REQUEST_BUF_LEN: usize = 64;

/// Unicode `White_Space`: the characters that `char::is_whitespace` accepts.
pub open spec fn is_whitespace(c: char) -> bool {
    let v = c as u32;
    ||| 0x09 <= v <= 0x0D
    ||| v == 0x20
    ||| v == 0x85
    ||| v == 0xA0
    ||| v == 0x1680
    ||| 0x2000 <= v <= 0x200A
    ||| v == 0x2028
    ||| v == 0x2029
    ||| v == 0x202F
    ||| v == 0x205F
    ||| v == 0x3000
}

/// `s` without its leading whitespace.
pub open spec fn trim_start(s: Seq<char>) -> Seq<char>
    decreases s.len(),
{
    if s.len() > 0 && is_whitespace(s[0]) {
        trim_start(s.drop_first())
    } else {
        s
    }
}

/// `s` without its trailing whitespace.
pub open spec fn trim_end(s: Seq<char>) -> Seq<char>
    decreases s.len(),
{
    if s.len() > 0 && is_whitespace(s.last()) {
        trim_end(s.drop_last())
    } else {
        s
    }
}

/// `s` without leading and trailing whitespace.
pub open spec fn trimmed(s: Seq<char>) -> Seq<char> {
    trim_end(trim_start(s))
}

/// The command text `on`.
pub open spec fn word_on() -> Seq<char> {
    seq!['o', 'n']
}

/// The command text `off`.
pub open spec fn word_off() -> Seq<char> {
    seq!['o', 'f', 'f']
}

proof fn lemma_ascii_scalars()
    by (bit_vector)
    ensures
        (0x6fu32 & 0x7F) as u8 == 0x6fu8,
        (0x6eu32 & 0x7F) as u8 == 0x6eu8,
        (0x66u32 & 0x7F) as u8 == 0x66u8,
{
}

proof fn lemma_words_encoding()
    ensures
        encode_utf8(word_on()) == seq![0x6fu8, 0x6e],
        encode_utf8(word_off()) == seq![0x6fu8, 0x66, 0x66],
        decode_utf8(seq![0x6fu8, 0x6e]) == word_on(),
        decode_utf8(seq![0x6fu8, 0x66, 0x66]) == word_off(),
{
    lemma_ascii_scalars();
    reveal_with_fuel(encode_utf8, 4);
    assert('o' as u32 == 0x6f);
    assert('n' as u32 == 0x6e);
    assert('f' as u32 == 0x66);
    let on = word_on();
    assert(on.drop_first() =~= seq!['n']);
    assert(seq!['n'].drop_first() =~= Seq::<char>::empty());
    assert(encode_utf8(on) =~= seq![0x6fu8, 0x6e]);
    let off = word_off();
    assert(off.drop_first() =~= seq!['f', 'f']);
    assert(seq!['f', 'f'].drop_first() =~= seq!['f']);
    assert(seq!['f'].drop_first() =~= Seq::<char>::empty());
    assert(encode_utf8(off) =~= seq![0x6fu8, 0x66, 0x66]);
    vstd::utf8::encode_utf8_decode_utf8(on);
    vstd::utf8::encode_utf8_decode_utf8(off);
}

/// The command a text names, if any.
pub open spec fn command_named(text: Seq<char>) -> Option<CommandEvent> {
    if text == word_on() {
        Some(CommandEvent::Solid)
    } else if text == word_off() {
        Some(CommandEvent::Off)
    } else {
        None
    }
}

/// The command a request carries: the request must be UTF-8, and its
/// text without surrounding whitespace must be a command word. Anything
/// else carries no command.
pub open spec fn command_of_request(request: Seq<u8>) -> Option<CommandEvent> {
    if valid_utf8(request) {
        command_named(trimmed(decode_utf8(request)))
    } else {
        None
    }
}

/// `core::str::from_utf8`: the bytes as a string slice when they are valid
/// UTF-8, and `None` otherwise (the error's details are dropped).
#[verifier::external_body]
fn utf8_text<'a>(bytes: &'a [u8]) -> (text: Option<&'a str>)
    ensures
        text is Some <==> valid_utf8(bytes@),
        text matches Some(t) ==> t.spec_bytes() == bytes@,
{
    match core::str::from_utf8(bytes) {
        Ok(t) => Some(t),
        Err(_) => None,
    }
}

/// `str::trim`: the slice without leading and trailing `White_Space`.
#[verifier::external_body]
fn trim<'a>(text: &'a str) -> (t: &'a str)
    ensures
        t@ == trimmed(text@),
{
    text.trim()
}

impl CommandEvent {
    /// Whether the LED is driven high for this command.
    pub fn led_high(self) -> (high: bool)
        ensures
            high <==> self == CommandEvent::Solid,
    {
        match self {
            CommandEvent::Solid => true,
            CommandEvent::Off => false,
        }
    }

    /// The command that a trimmed text names, if any.
    pub fn from_word(text: &str) -> (cmd: Option<CommandEvent>)
        ensures
            cmd == command_named(text@),
    {
        let b = text.as_bytes();
        proof {
            lemma_words_encoding();
            vstd::utf8::encode_utf8_decode_utf8(text@);
            if text@ == word_on() {
                assert(b@ == seq![0x6fu8, 0x6e]);
            }
            if text@ == word_off() {
                assert(b@ == seq![0x6fu8, 0x66, 0x66]);
            }
        }
        if b.len() == 2 && b[0] == 0x6f && b[1] == 0x6e {
            assert(b@ =~= seq![0x6fu8, 0x6e]);
            Some(CommandEvent::Solid)
        } else if b.len() == 3 && b[0] == 0x6f && b[1] == 0x66 && b[2] == 0x66 {
            assert(b@ =~= seq![0x6fu8, 0x66, 0x66]);
            Some(CommandEvent::Off)
        } else {
            None
        }
    }

    /// The command a received request carries, if any.
    pub fn parse(request: &[u8]) -> (cmd: Option<CommandEvent>)
        ensures
            cmd == command_of_request(request@),
    {
        match utf8_text(request) {
            Some(text) => {
                proof {
                    vstd::utf8::encode_utf8_decode_utf8(text@);
                }
                let t = trim(text);
                Self::from_word(t)
            },
            None => None,
        }
    }
}

/// What the server does with the result of one read on a connection.
#[derive(Clone, Copy, PartialEq, Eq, Structural, Debug)]
pub enum SessionAction {
    /// The peer closed the connection, or reading failed: close it.
    Close,
    /// Publish the command to the LED task and acknowledge it.
    Publish(CommandEvent),
    /// Tell the client the request was not understood.
    Reject,
}

/// The server's decision for a read: `None` for a failed read, `Some(n)`
/// for `n` bytes received at the start of `buf`.
pub open spec fn session_step(read: Option<usize>, buf: Seq<u8>) -> SessionAction {
    match read {
        None => SessionAction::Close,
        Some(n) => if n == 0 {
            SessionAction::Close
        } else {
            match command_of_request(buf.subrange(0, n as int)) {
                Some(cmd) => SessionAction::Publish(cmd),
                None => SessionAction::Reject,
            }
        },
    }
}

/// The acknowledgement `OK\r\n`.
pub open spec fn reply_ok() -> Seq<u8> {
    seq![0x4fu8, 0x4b, 0x0d, 0x0a]
}

/// The rejection `Unkown command\r\n`, spelled as the node has always sent it.
pub open spec fn reply_unknown() -> Seq<u8> {
    seq![
        0x55u8, 0x6e, 0x6b, 0x6f, 0x77, 0x6e, 0x20, 0x63, 0x6f, 0x6d, 0x6d, 0x61, 0x6e, 0x64, 0x0d,
        0x0a,
    ]
}

impl SessionAction {
    /// Decides what to do with the result of one read.
    pub fn after_read(read: Option<usize>, buf: &[u8]) -> (action: SessionAction)
        requires
            read matches Some(n) ==> n <= buf@.len(),
        ensures
            action == session_step(read, buf@),
    {
        match read {
            None => SessionAction::Close,
            Some(n) => {
                if n == 0 {
                    SessionAction::Close
                } else {
                    let request = slice_subrange(buf, 0, n);
                    match CommandEvent::parse(request) {
                        Some(cmd) => SessionAction::Publish(cmd),
                        None => SessionAction::Reject,
                    }
                }
            },
        }
    }

    /// The bytes written back to the client, if any.
    pub fn reply(self) -> (bytes: Option<Vec<u8>>)
        ensures
            match self {
                SessionAction::Close => bytes is None,
                SessionAction::Publish(_) => bytes matches Some(b) && b@ == reply_ok(),
                SessionAction::Reject => bytes matches Some(b) && b@ == reply_unknown(),
            },
    {
        match self {
            SessionAction::Close => None,
            SessionAction::Publish(_) => Some(vec![0x4fu8, 0x4b, 0x0d, 0x0a]),
            SessionAction::Reject => Some(
                vec![
                    0x55u8, 0x6e, 0x6b, 0x6f, 0x77, 0x6e, 0x20, 0x63, 0x6f, 0x6d, 0x6d, 0x61, 0x6e,
                    0x64, 0x0d, 0x0a,
                ],
            ),
        }
    }
}

/// Every character of `s` is whitespace.
pub open spec fn all_whitespace(s: Seq<char>) -> bool {
    forall|i: int| 0 <= i < s.len() ==> is_whitespace(#[trigger] s[i])
}

proof fn lemma_trim_start_prefix(p: Seq<char>, r: Seq<char>)
    requires
        all_whitespace(p),
        r.len() > 0,
        !is_whitespace(r[0]),
    ensures
        trim_start(p + r) == r,
    decreases p.len(),
{
    if p.len() == 0 {
        assert(p + r =~= r);
    } else {
        assert((p + r)[0] == p[0]);
        assert((p + r).drop_first() =~= p.drop_first() + r);
        assert forall|i: int| 0 <= i < p.drop_first().len() implies is_whitespace(
            #[trigger] p.drop_first()[i],
        ) by {
            assert(p.drop_first()[i] == p[i + 1]);
        }
        lemma_trim_start_prefix(p.drop_first(), r);
    }
}

proof fn lemma_trim_end_suffix(w: Seq<char>, q: Seq<char>)
    requires
        all_whitespace(q),
        w.len() > 0,
        !is_whitespace(w.last()),
    ensures
        trim_end(w + q) == w,
    decreases q.len(),
{
    if q.len() == 0 {
        assert(w + q =~= w);
    } else {
        assert((w + q).last() == q.last());
        assert((w + q).drop_last() =~= w + q.drop_last());
        assert forall|i: int| 0 <= i < q.drop_last().len() implies is_whitespace(
            #[trigger] q.drop_last()[i],
        ) by {
            assert(q.drop_last()[i] == q[i]);
        }
        lemma_trim_end_suffix(w, q.drop_last());
    }
}

/// Trimming removes exactly the surrounding whitespace: a text that
/// starts and ends with a non-whitespace character comes back unchanged
/// from any amount of whitespace around it.
pub proof fn lemma_trimmed_surrounded(p: Seq<char>, w: Seq<char>, q: Seq<char>)
    requires
        all_whitespace(p),
        all_whitespace(q),
        w.len() > 0,
        !is_whitespace(w[0]),
        !is_whitespace(w.last()),
    ensures
        trimmed(p + w + q) == w,
{
    assert((w + q)[0] == w[0]);
    assert(p + w + q =~= p + (w + q));
    lemma_trim_start_prefix(p, w + q);
    lemma_trim_end_suffix(w, q);
}

/// A request is understood whatever whitespace surrounds the command word
/// (a trailing `\r\n` from a terminal, say): `on` lights the LED and
/// `off` turns it off.
pub proof fn lemma_command_whitespace_insensitive(p: Seq<char>, q: Seq<char>)
    requires
        all_whitespace(p),
        all_whitespace(q),
    ensures
        command_of_request(encode_utf8(p + word_on() + q)) == Some(CommandEvent::Solid),
        command_of_request(encode_utf8(p + word_off() + q)) == Some(CommandEvent::Off),
{
    vstd::utf8::encode_utf8_valid_utf8(p + word_on() + q);
    vstd::utf8::encode_utf8_decode_utf8(p + word_on() + q);
    vstd::utf8::encode_utf8_valid_utf8(p + word_off() + q);
    vstd::utf8::encode_utf8_decode_utf8(p + word_off() + q);
    assert('o' as u32 == 0x6f);
    assert('n' as u32 == 0x6e);
    assert('f' as u32 == 0x66);
    lemma_trimmed_surrounded(p, word_on(), q);
    lemma_trimmed_surrounded(p, word_off(), q);
}

/// Every request that arrives is answered: a command with `OK`, anything
/// else with the rejection; only a closed or failed read gets no reply.
pub proof fn lemma_every_request_answered(read: Option<usize>, buf: Seq<u8>)
    ensures
        (session_step(read, buf) == SessionAction::Close) <==> (read is None || read == Some(
            0usize,
        )),
{
}

/// For a read of `n > 0` bytes the server acts on exactly those `n`
/// bytes: it publishes command `c` (and acknowledges) exactly when they
/// carry `c`, and rejects exactly when they carry no command.
pub proof fn lemma_session_acts_on_received_bytes(n: usize, buf: Seq<u8>, c: CommandEvent)
    requires
        0 < n <= buf.len(),
    ensures
        (session_step(Some(n), buf) == SessionAction::Publish(c)) <==> (command_of_request(
            buf.subrange(0, n as int),
        ) == Some(c)),
        (session_step(Some(n), buf) == SessionAction::Reject) <==> (command_of_request(
            buf.subrange(0, n as int),
        ) is None),
{
}

/// A client that sends `off` (or `on`), with any whitespace around it,
/// gets the LED switched off (or on) and an `OK`: the received bytes are
/// the UTF-8 encoding of the text, and the action is `Publish(Off)`
/// (or `Publish(Solid)`).
pub proof fn lemma_session_commands(
    n: usize,
    buf: Seq<u8>,
    p: Seq<char>,
    q: Seq<char>,
)
    requires
        0 < n <= buf.len(),
        all_whitespace(p),
        all_whitespace(q),
    ensures
        buf.subrange(0, n as int) == encode_utf8(p + seq!['o', 'f', 'f'] + q) ==> session_step(
            Some(n),
            buf,
        ) == SessionAction::Publish(CommandEvent::Off),
        buf.subrange(0, n as int) == encode_utf8(p + seq!['o', 'n'] + q) ==> session_step(
            Some(n),
            buf,
        ) == SessionAction::Publish(CommandEvent::Solid),
{
    lemma_command_whitespace_insensitive(p, q);
    assert(word_off() == seq!['o', 'f', 'f']);
    assert(word_on() == seq!['o', 'n']);
}

/// Exactly the texts `on` and `off` name commands, `on` the solid LED and
/// `off` the dark one.
pub proof fn lemma_command_words(text: Seq<char>)
    ensures
        command_named(text) == Some(CommandEvent::Solid) <==> text == seq!['o', 'n'],
        command_named(text) == Some(CommandEvent::Off) <==> text == seq!['o', 'f', 'f'],
        command_named(text) is None <==> (text != seq!['o', 'n'] && text != seq!['o', 'f', 'f']),
{
    assert(seq!['o', 'n'] != seq!['o', 'f', 'f']) by {
        assert(seq!['o', 'n'].len() != seq!['o', 'f', 'f'].len());
    }
}

/// The replies are the ASCII texts `OK\r\n` and `Unkown command\r\n`,
/// one byte per character.
pub proof fn lemma_reply_texts()
    ensures
        reply_ok() == seq!['O' as u8, 'K' as u8, '\r' as u8, '\n' as u8],
        reply_unknown() == seq![
            'U' as u8, 'n' as u8, 'k' as u8, 'o' as u8, 'w' as u8, 'n' as u8, ' ' as u8,
            'c' as u8, 'o' as u8, 'm' as u8, 'm' as u8, 'a' as u8, 'n' as u8, 'd' as u8,
            '\r' as u8, '\n' as u8,
        ],
{
    assert(reply_ok() =~= seq!['O' as u8, 'K' as u8, '\r' as u8, '\n' as u8]);
    assert(reply_unknown() =~= seq![
        'U' as u8, 'n' as u8, 'k' as u8, 'o' as u8, 'w' as u8, 'n' as u8, ' ' as u8,
        'c' as u8, 'o' as u8, 'm' as u8, 'm' as u8, 'a' as u8, 'n' as u8, 'd' as u8,
        '\r' as u8, '\n' as u8,
    ]);
}

} // verus!
