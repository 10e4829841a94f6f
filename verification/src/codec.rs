//! Wire codec for the newline-delimited text protocol.
//!
//! Every protocol message is one line: a command keyword followed by a fixed
//! number of space-separated arguments, terminated by a newline.  Arguments
//! must not contain the separator or the terminator; the codec assumes this
//! of outbound values and is proved to invert itself on exactly those.

use vstd::prelude::*;

verus! {

/// Local and wire-level failure signal for protocol violations.
#[derive(Clone, Copy, Debug, PartialEq, Eq, Structural)]
pub enum ProtocolErrorKind {
    /// A message that the current protocol phase does not allow.
    ProtocolMismatch,
    /// A line that does not parse as any protocol message.
    MalformedMessage,
    /// An application-level error reported by the server.
    ApplicationError,
}

/// The protocol vocabulary, one variant per command line.
#[derive(Debug, Clone, PartialEq)]
pub enum ServerMessage {
    /// Login request carrying the credentials.
    Connect { user: String, password: String },
    /// Login accepted.
    Hey,
    /// Login rejected.
    No,
    /// Liveness probe.
    Ping,
    /// Liveness probe answer.
    Pong,
    /// Attention notification for one partner.
    Boop { partner_key: String },
    /// Close acknowledgement sent by the server.
    Bye,
    /// Client-initiated graceful close.
    Disconnect,
    /// Error report, in either direction.
    Error { kind: ProtocolErrorKind },
    /// Presence report: the partner is online.
    Online { partner_key: String },
    /// Presence report: the partner is away.
    Afk { partner_key: String },
    /// Presence probe for one partner.
    AreYouThere { partner_key: String },
}

/// Mathematical shape of a protocol message: the same vocabulary with every
/// text argument abstracted to its character sequence.
pub enum MessageView {
    Connect { user: Seq<char>, password: Seq<char> },
    Hey,
    No,
    Ping,
    Pong,
    Boop { partner_key: Seq<char> },
    Bye,
    Disconnect,
    Error { kind: ProtocolErrorKind },
    Online { partner_key: Seq<char> },
    Afk { partner_key: Seq<char> },
    AreYouThere { partner_key: Seq<char> },
}

impl View for ServerMessage {
    type V = MessageView;

    open spec fn view(&self) -> MessageView {
        match self {
            ServerMessage::Connect { user, password } => MessageView::Connect {
                user: user@,
                password: password@,
            },
            ServerMessage::Hey => MessageView::Hey,
            ServerMessage::No => MessageView::No,
            ServerMessage::Ping => MessageView::Ping,
            ServerMessage::Pong => MessageView::Pong,
            ServerMessage::Boop { partner_key } => MessageView::Boop { partner_key: partner_key@ },
            ServerMessage::Bye => MessageView::Bye,
            ServerMessage::Disconnect => MessageView::Disconnect,
            ServerMessage::Error { kind } => MessageView::Error { kind: *kind },
            ServerMessage::Online { partner_key } => MessageView::Online {
                partner_key: partner_key@,
            },
            ServerMessage::Afk { partner_key } => MessageView::Afk { partner_key: partner_key@ },
            ServerMessage::AreYouThere { partner_key } => MessageView::AreYouThere {
                partner_key: partner_key@,
            },
        }
    }
}

pub open spec fn kw_connect() -> Seq<char> {
    seq!['C', 'O', 'N', 'N', 'E', 'C', 'T']
}

pub open spec fn kw_hey() -> Seq<char> {
    seq!['H', 'E', 'Y']
}

pub open spec fn kw_no() -> Seq<char> {
    seq!['N', 'O']
}

pub open spec fn kw_ping() -> Seq<char> {
    seq!['P', 'I', 'N', 'G']
}

pub open spec fn kw_pong() -> Seq<char> {
    seq!['P', 'O', 'N', 'G']
}

pub open spec fn kw_boop() -> Seq<char> {
    seq!['B', 'O', 'O', 'P']
}

pub open spec fn kw_bye() -> Seq<char> {
    seq!['B', 'Y', 'E']
}

pub open spec fn kw_disconnect() -> Seq<char> {
    seq!['D', 'I', 'S', 'C', 'O', 'N', 'N', 'E', 'C', 'T']
}

pub open spec fn kw_error() -> Seq<char> {
    seq!['E', 'R', 'R', 'O', 'R']
}

pub open spec fn kw_online() -> Seq<char> {
    seq!['O', 'N', 'L', 'I', 'N', 'E']
}

pub open spec fn kw_afk() -> Seq<char> {
    seq!['A', 'F', 'K']
}

pub open spec fn kw_areyouthere() -> Seq<char> {
    seq!['A', 'R', 'E', 'Y', 'O', 'U', 'T', 'H', 'E', 'R', 'E']
}

/// Wire token that names an error kind inside an `ERROR` line.
pub open spec fn kind_token(kind: ProtocolErrorKind) -> Seq<char> {
    match kind {
        ProtocolErrorKind::ProtocolMismatch => seq!['M', 'I', 'S', 'M', 'A', 'T', 'C', 'H'],
        ProtocolErrorKind::MalformedMessage => seq!['M', 'A', 'L', 'F', 'O', 'R', 'M', 'E', 'D'],
        ProtocolErrorKind::ApplicationError => seq![
            'A',
            'P',
            'P',
            'L',
            'I',
            'C',
            'A',
            'T',
            'I',
            'O',
            'N',
        ],
    }
}

/// A text argument may travel on the wire only if it embeds neither the
/// argument separator nor the line terminator.
pub open spec fn arg_ok(s: Seq<char>) -> bool {
    forall|i: int| 0 <= i < s.len() ==> s[i] != ' ' && s[i] != '\n'
}

/// The arguments of the message are all transportable.
pub open spec fn msg_wf(m: MessageView) -> bool {
    match m {
        MessageView::Connect { user, password } => arg_ok(user) && arg_ok(password),
        MessageView::Boop { partner_key } => arg_ok(partner_key),
        MessageView::Online { partner_key } => arg_ok(partner_key),
        MessageView::Afk { partner_key } => arg_ok(partner_key),
        MessageView::AreYouThere { partner_key } => arg_ok(partner_key),
        _ => true,
    }
}

/// The command line of a message, without the terminating newline.
pub open spec fn msg_line(m: MessageView) -> Seq<char> {
    match m {
        MessageView::Connect { user, password } => kw_connect() + seq![' '] + user + seq![' ']
            + password,
        MessageView::Hey => kw_hey(),
        MessageView::No => kw_no(),
        MessageView::Ping => kw_ping(),
        MessageView::Pong => kw_pong(),
        MessageView::Boop { partner_key } => kw_boop() + seq![' '] + partner_key,
        MessageView::Bye => kw_bye(),
        MessageView::Disconnect => kw_disconnect(),
        MessageView::Error { kind } => kw_error() + seq![' '] + kind_token(kind),
        MessageView::Online { partner_key } => kw_online() + seq![' '] + partner_key,
        MessageView::Afk { partner_key } => kw_afk() + seq![' '] + partner_key,
        MessageView::AreYouThere { partner_key } => kw_areyouthere() + seq![' '] + partner_key,
    }
}

/// The full encoding of a message: its command line plus the terminator.
pub open spec fn msg_encode(m: MessageView) -> Seq<char> {
    msg_line(m) + seq!['\n']
}

/// Drop one trailing newline if the line still carries it.
pub open spec fn strip_newline(line: Seq<char>) -> Seq<char> {
    if line.len() > 0 && line.last() == '\n' {
        line.drop_last()
    } else {
        line
    }
}

/// Split a line at every separator.  The result always holds at least one
/// (possibly empty) token; n separators yield exactly n + 1 tokens.
pub open spec fn split_tokens(s: Seq<char>) -> Seq<Seq<char>>
    decreases s.len(),
{
    if s.len() == 0 {
        seq![Seq::<char>::empty()]
    } else if s[0] == ' ' {
        seq![Seq::<char>::empty()] + split_tokens(s.skip(1))
    } else {
        let rest = split_tokens(s.skip(1));
        seq![seq![s[0]] + rest[0]] + rest.skip(1)
    }
}

/// Grammar of a decoded line: first token picks the command, the token count
/// must match the command's arity, and an `ERROR` argument must name a known
/// kind.  Anything else is a malformed message.
pub open spec fn parse_tokens(toks: Seq<Seq<char>>) -> Result<MessageView, ProtocolErrorKind> {
    if toks.len() == 0 {
        Err(ProtocolErrorKind::MalformedMessage)
    } else {
        let kw = toks[0];
        if kw == kw_connect() {
            if toks.len() == 3 {
                Ok(MessageView::Connect { user: toks[1], password: toks[2] })
            } else {
                Err(ProtocolErrorKind::MalformedMessage)
            }
        } else if kw == kw_hey() {
            if toks.len() == 1 {
                Ok(MessageView::Hey)
            } else {
                Err(ProtocolErrorKind::MalformedMessage)
            }
        } else if kw == kw_no() {
            if toks.len() == 1 {
                Ok(MessageView::No)
            } else {
                Err(ProtocolErrorKind::MalformedMessage)
            }
        } else if kw == kw_ping() {
            if toks.len() == 1 {
                Ok(MessageView::Ping)
            } else {
                Err(ProtocolErrorKind::MalformedMessage)
            }
        } else if kw == kw_pong() {
            if toks.len() == 1 {
                Ok(MessageView::Pong)
            } else {
                Err(ProtocolErrorKind::MalformedMessage)
            }
        } else if kw == kw_boop() {
            if toks.len() == 2 {
                Ok(MessageView::Boop { partner_key: toks[1] })
            } else {
                Err(ProtocolErrorKind::MalformedMessage)
            }
        } else if kw == kw_bye() {
            if toks.len() == 1 {
                Ok(MessageView::Bye)
            } else {
                Err(ProtocolErrorKind::MalformedMessage)
            }
        } else if kw == kw_disconnect() {
            if toks.len() == 1 {
                Ok(MessageView::Disconnect)
            } else {
                Err(ProtocolErrorKind::MalformedMessage)
            }
        } else if kw == kw_error() {
            if toks.len() == 2 {
                if toks[1] == kind_token(ProtocolErrorKind::ProtocolMismatch) {
                    Ok(MessageView::Error { kind: ProtocolErrorKind::ProtocolMismatch })
                } else if toks[1] == kind_token(ProtocolErrorKind::MalformedMessage) {
                    Ok(MessageView::Error { kind: ProtocolErrorKind::MalformedMessage })
                } else if toks[1] == kind_token(ProtocolErrorKind::ApplicationError) {
                    Ok(MessageView::Error { kind: ProtocolErrorKind::ApplicationError })
                } else {
                    Err(ProtocolErrorKind::MalformedMessage)
                }
            } else {
                Err(ProtocolErrorKind::MalformedMessage)
            }
        } else if kw == kw_online() {
            if toks.len() == 2 {
                Ok(MessageView::Online { partner_key: toks[1] })
            } else {
                Err(ProtocolErrorKind::MalformedMessage)
            }
        } else if kw == kw_afk() {
            if toks.len() == 2 {
                Ok(MessageView::Afk { partner_key: toks[1] })
            } else {
                Err(ProtocolErrorKind::MalformedMessage)
            }
        } else if kw == kw_areyouthere() {
            if toks.len() == 2 {
                Ok(MessageView::AreYouThere { partner_key: toks[1] })
            } else {
                Err(ProtocolErrorKind::MalformedMessage)
            }
        } else {
            Err(ProtocolErrorKind::MalformedMessage)
        }
    }
}

/// What decoding a received line yields: the line, with its terminator
/// stripped when present, is tokenized and parsed against the grammar.
pub open spec fn decode_spec(line: Seq<char>) -> Result<MessageView, ProtocolErrorKind> {
    parse_tokens(split_tokens(strip_newline(line)))
}

/// Splitting yields at least the one token that every line starts with.
pub proof fn lemma_split_len(s: Seq<char>)
    ensures
        split_tokens(s).len() >= 1,
    decreases s.len(),
{
    if s.len() > 0 {
        lemma_split_len(s.skip(1));
    }
}

/// A separator-free sequence is one whole token.
pub proof fn lemma_split_no_sep(s: Seq<char>)
    requires
        forall|i: int| 0 <= i < s.len() ==> s[i] != ' ',
    ensures
        split_tokens(s) == seq![s],
    decreases s.len(),
{
    if s.len() == 0 {
        assert(split_tokens(s) =~~= seq![s]);
    } else {
        lemma_split_no_sep(s.skip(1));
        assert(seq![s[0]] + s.skip(1) =~= s);
        assert(split_tokens(s) =~~= seq![s]);
    }
}

/// A separator-free prefix extends the first token of whatever follows it.
pub proof fn lemma_split_prepend(a: Seq<char>, b: Seq<char>)
    requires
        forall|i: int| 0 <= i < a.len() ==> a[i] != ' ',
    ensures
        split_tokens(a + b) == seq![a + split_tokens(b)[0]] + split_tokens(b).skip(1),
    decreases a.len(),
{
    lemma_split_len(b);
    if a.len() == 0 {
        assert(a + b =~= b);
        assert(a + split_tokens(b)[0] =~= split_tokens(b)[0]);
        assert(split_tokens(a + b) =~~= seq![a + split_tokens(b)[0]] + split_tokens(b).skip(1));
    } else {
        lemma_split_prepend(a.skip(1), b);
        assert((a + b).skip(1) =~= a.skip(1) + b);
        assert((a + b)[0] == a[0]);
        let rest = split_tokens(a.skip(1) + b);
        assert(rest[0] == a.skip(1) + split_tokens(b)[0]);
        assert(seq![(a + b)[0]] + (a.skip(1) + split_tokens(b)[0]) =~= a + split_tokens(b)[0]);
        assert(rest.skip(1) =~~= split_tokens(b).skip(1));
        assert(split_tokens(a + b) =~~= seq![a + split_tokens(b)[0]] + split_tokens(b).skip(1));
    }
}

/// A separator placed after a separator-free prefix closes that token.
proof fn lemma_split_at_sep(a: Seq<char>, b: Seq<char>)
    requires
        forall|i: int| 0 <= i < a.len() ==> a[i] != ' ',
    ensures
        split_tokens(a + seq![' '] + b) == seq![a] + split_tokens(b),
{
    let tail = seq![' '] + b;
    assert(a + seq![' '] + b =~= a + tail);
    lemma_split_prepend(a, tail);
    assert(tail[0] == ' ');
    assert(tail.skip(1) =~= b);
    assert(split_tokens(tail) =~~= seq![Seq::<char>::empty()] + split_tokens(b));
    assert(a + split_tokens(tail)[0] =~= a);
    assert(split_tokens(tail).skip(1) =~~= split_tokens(b));
    assert(split_tokens(a + seq![' '] + b) =~~= seq![a] + split_tokens(b));
}

/// The command line rebuilt from its tokens, separators restored.
pub open spec fn join_tokens(toks: Seq<Seq<char>>) -> Seq<char>
    decreases toks.len(),
{
    if toks.len() == 0 {
        Seq::empty()
    } else if toks.len() == 1 {
        toks[0]
    } else {
        toks[0] + seq![' '] + join_tokens(toks.skip(1))
    }
}

/// Joining undoes splitting: tokenization loses nothing of the line.
pub proof fn lemma_split_join(s: Seq<char>)
    ensures
        join_tokens(split_tokens(s)) == s,
    decreases s.len(),
{
    if s.len() == 0 {
    } else if s[0] == ' ' {
        lemma_split_join(s.skip(1));
        lemma_split_len(s.skip(1));
        let toks = split_tokens(s);
        assert(toks.skip(1) =~~= split_tokens(s.skip(1)));
        assert(toks[0] =~= Seq::<char>::empty());
        assert(toks.len() >= 2);
        assert(join_tokens(toks) == toks[0] + seq![' '] + join_tokens(toks.skip(1)));
        assert(join_tokens(toks.skip(1)) == s.skip(1));
        assert(Seq::<char>::empty() + seq![' '] + s.skip(1) =~= s);
        assert(join_tokens(toks) == s);
    } else {
        lemma_split_join(s.skip(1));
        lemma_split_len(s.skip(1));
        let r = split_tokens(s.skip(1));
        let toks = split_tokens(s);
        if r.len() == 1 {
            assert(toks =~~= seq![seq![s[0]] + r[0]]);
            assert(join_tokens(r) == r[0]);
            assert(join_tokens(toks) =~= s);
        } else {
            assert(toks.skip(1) =~~= r.skip(1));
            assert(toks[0] == seq![s[0]] + r[0]);
            assert(join_tokens(r) == r[0] + seq![' '] + join_tokens(r.skip(1)));
            assert(join_tokens(toks) == toks[0] + seq![' '] + join_tokens(r.skip(1)));
            let j = join_tokens(r.skip(1));
            assert(toks[0] + seq![' '] + j =~= seq![s[0]] + (r[0] + seq![' '] + j));
            assert(r[0] + seq![' '] + j == s.skip(1));
            assert(seq![s[0]] + s.skip(1) =~= s);
            assert(join_tokens(toks) == s);
        }
    }
}

/// Round-trip law: a well-formed message decodes from its own encoding.
pub proof fn lemma_round_trip(m: MessageView)
    requires
        msg_wf(m),
    ensures
        decode_spec(msg_encode(m)) == Ok::<MessageView, ProtocolErrorKind>(m),
{
    let line = msg_line(m);
    assert(strip_newline(msg_encode(m)) =~= line);
    match m {
        MessageView::Connect { user, password } => {
            let tail = user + seq![' '] + password;
            assert(line =~= kw_connect() + seq![' '] + tail);
            lemma_split_at_sep(kw_connect(), tail);
            lemma_split_at_sep(user, password);
            lemma_split_no_sep(password);
            assert(split_tokens(line) =~~= seq![kw_connect(), user, password]);
        },
        MessageView::Hey => {
            lemma_split_no_sep(line);
        },
        MessageView::No => {
            lemma_split_no_sep(line);
        },
        MessageView::Ping => {
            lemma_split_no_sep(line);
        },
        MessageView::Pong => {
            lemma_split_no_sep(line);
        },
        MessageView::Boop { partner_key } => {
            lemma_split_at_sep(kw_boop(), partner_key);
            lemma_split_no_sep(partner_key);
            assert(split_tokens(line) =~~= seq![kw_boop(), partner_key]);
        },
        MessageView::Bye => {
            lemma_split_no_sep(line);
        },
        MessageView::Disconnect => {
            lemma_split_no_sep(line);
        },
        MessageView::Error { kind } => {
            lemma_split_at_sep(kw_error(), kind_token(kind));
            lemma_split_no_sep(kind_token(kind));
            assert(split_tokens(line) =~~= seq![kw_error(), kind_token(kind)]);
        },
        MessageView::Online { partner_key } => {
            lemma_split_at_sep(kw_online(), partner_key);
            lemma_split_no_sep(partner_key);
            assert(split_tokens(line) =~~= seq![kw_online(), partner_key]);
        },
        MessageView::Afk { partner_key } => {
            lemma_split_at_sep(kw_afk(), partner_key);
            lemma_split_no_sep(partner_key);
            assert(split_tokens(line) =~~= seq![kw_afk(), partner_key]);
        },
        MessageView::AreYouThere { partner_key } => {
            lemma_split_at_sep(kw_areyouthere(), partner_key);
            lemma_split_no_sep(partner_key);
            assert(split_tokens(line) =~~= seq![kw_areyouthere(), partner_key]);
        },
    }
}

/// Grammar law: every decoding failure is a malformed-message error; wrong
/// argument counts and unknown keywords never yield anything else.
pub proof fn lemma_decode_error_is_malformed(line: Seq<char>)
    ensures
        decode_spec(line) is Err ==> decode_spec(line) == Err::<
            MessageView,
            ProtocolErrorKind,
        >(ProtocolErrorKind::MalformedMessage),
{
}

/// No partial results: whatever decodes as a message prints back, argument
/// for argument, to the very line that was decoded.
pub proof fn lemma_decode_exact(line: Seq<char>)
    ensures
        decode_spec(line) matches Ok(m) ==> msg_line(m) == strip_newline(line),
{
    let body = strip_newline(line);
    let toks = split_tokens(body);
    lemma_split_len(body);
    lemma_split_join(body);
    if decode_spec(line) is Ok {
        let m = decode_spec(line)->Ok_0;
        if toks.len() == 1 {
            assert(join_tokens(toks) == toks[0]);
            assert(msg_line(m) =~= body);
        } else if toks.len() == 2 {
            assert(join_tokens(toks) == toks[0] + seq![' '] + join_tokens(toks.skip(1)));
            assert(toks.skip(1).len() == 1);
            assert(join_tokens(toks.skip(1)) == toks.skip(1)[0]);
            assert(msg_line(m) =~= body);
        } else {
            assert(toks.len() == 3);
            assert(join_tokens(toks) == toks[0] + seq![' '] + join_tokens(toks.skip(1)));
            assert(toks.skip(1).len() == 2);
            assert(join_tokens(toks.skip(1)) == toks.skip(1)[0] + seq![' '] + join_tokens(
                toks.skip(1).skip(1),
            ));
            assert(toks.skip(1).skip(1) =~~= toks.skip(2));
            assert(toks.skip(2).len() == 1);
            assert(join_tokens(toks.skip(2)) == toks.skip(2)[0]);
            assert(msg_line(m) =~= body);
        }
    }
}

/// The abstraction of an executable decode result.
pub open spec fn decoded_view(r: Result<ServerMessage, ProtocolErrorKind>) -> Result<
    MessageView,
    ProtocolErrorKind,
> {
    match r {
        Ok(m) => Ok(m@),
        Err(k) => Err(k),
    }
}

/// Encode a message as one newline-terminated command line.
pub fn encode(m: &ServerMessage) -> (r: String)
    ensures
        r@ == msg_encode(m@),
{
    let mut s = String::new();
    match m {
        ServerMessage::Connect { user, password } => {
            s.append("CONNECT ");
            s.append(user.as_str());
            s.append(" ");
            s.append(password.as_str());
            proof {
                reveal_strlit("CONNECT ");
                reveal_strlit(" ");
                assert(s@ =~= msg_line(m@));
            }
        },
        ServerMessage::Hey => {
            s.append("HEY");
            proof {
                reveal_strlit("HEY");
                assert(s@ =~= msg_line(m@));
            }
        },
        ServerMessage::No => {
            s.append("NO");
            proof {
                reveal_strlit("NO");
                assert(s@ =~= msg_line(m@));
            }
        },
        ServerMessage::Ping => {
            s.append("PING");
            proof {
                reveal_strlit("PING");
                assert(s@ =~= msg_line(m@));
            }
        },
        ServerMessage::Pong => {
            s.append("PONG");
            proof {
                reveal_strlit("PONG");
                assert(s@ =~= msg_line(m@));
            }
        },
        ServerMessage::Boop { partner_key } => {
            s.append("BOOP ");
            s.append(partner_key.as_str());
            proof {
                reveal_strlit("BOOP ");
                assert(s@ =~= msg_line(m@));
            }
        },
        ServerMessage::Bye => {
            s.append("BYE");
            proof {
                reveal_strlit("BYE");
                assert(s@ =~= msg_line(m@));
            }
        },
        ServerMessage::Disconnect => {
            s.append("DISCONNECT");
            proof {
                reveal_strlit("DISCONNECT");
                assert(s@ =~= msg_line(m@));
            }
        },
        ServerMessage::Error { kind } => {
            s.append("ERROR ");
            match kind {
                ProtocolErrorKind::ProtocolMismatch => s.append("MISMATCH"),
                ProtocolErrorKind::MalformedMessage => s.append("MALFORMED"),
                ProtocolErrorKind::ApplicationError => s.append("APPLICATION"),
            }
            proof {
                reveal_strlit("ERROR ");
                reveal_strlit("MISMATCH");
                reveal_strlit("MALFORMED");
                reveal_strlit("APPLICATION");
                assert(s@ =~= msg_line(m@));
            }
        },
        ServerMessage::Online { partner_key } => {
            s.append("ONLINE ");
            s.append(partner_key.as_str());
            proof {
                reveal_strlit("ONLINE ");
                assert(s@ =~= msg_line(m@));
            }
        },
        ServerMessage::Afk { partner_key } => {
            s.append("AFK ");
            s.append(partner_key.as_str());
            proof {
                reveal_strlit("AFK ");
                assert(s@ =~= msg_line(m@));
            }
        },
        ServerMessage::AreYouThere { partner_key } => {
            s.append("AREYOUTHERE ");
            s.append(partner_key.as_str());
            proof {
                reveal_strlit("AREYOUTHERE ");
                assert(s@ =~= msg_line(m@));
            }
        },
    }
    s.append("\n");
    proof {
        reveal_strlit("\n");
        assert(s@ =~= msg_encode(m@));
    }
    s
}

/// Character-wise string comparison, exact in both directions.
pub(crate) fn str_eq(a: &str, b: &str) -> (r: bool)
    ensures
        r == (a@ == b@),
{
    let na = a.unicode_len();
    let nb = b.unicode_len();
    if na != nb {
        return false;
    }
    let mut i: usize = 0;
    while i < na
        invariant
            na == a@.len(),
            na == b@.len(),
            i <= na,
            forall|j: int| 0 <= j < i ==> a@[j] == b@[j],
        decreases na - i,
    {
        if a.get_char(i) != b.get_char(i) {
            return false;
        }
        i = i + 1;
    }
    proof {
        assert(a@ =~= b@);
    }
    true
}

/// Cut a line into its space-separated tokens.
fn tokenize(s: &str) -> (toks: Vec<String>)
    ensures
        toks.deep_view() == split_tokens(s@),
{
    let n = s.unicode_len();
    let mut toks: Vec<String> = Vec::new();
    let mut start: usize = 0;
    let mut i: usize = 0;
    proof {
        assert(toks.deep_view() =~~= Seq::<Seq<char>>::empty());
        assert(s@.skip(0) =~= s@);
        assert(Seq::<Seq<char>>::empty() + split_tokens(s@) =~~= split_tokens(s@));
    }
    while i < n
        invariant
            n == s@.len(),
            start <= i <= n,
            forall|j: int| start <= j < i ==> s@[j] != ' ',
            split_tokens(s@) == toks.deep_view() + split_tokens(s@.skip(start as int)),
        decreases n - i,
    {
        let c = s.get_char(i);
        if c == ' ' {
            let tok = s.substring_char(start, i);
            let ghost old_dv = toks.deep_view();
            toks.push(String::from_str(tok));
            proof {
                assert(toks.deep_view() =~~= old_dv.push(tok@));
                let p = s@.subrange(start as int, i as int);
                assert(s@.skip(start as int) =~= p + seq![' '] + s@.skip(i + 1));
                lemma_split_at_sep(p, s@.skip(i + 1));
                assert(toks.deep_view() + split_tokens(s@.skip(i + 1)) =~~= old_dv + (seq![p]
                    + split_tokens(s@.skip(i + 1))));
            }
            start = i + 1;
        }
        i = i + 1;
    }
    let tok = s.substring_char(start, n);
    let ghost old_dv = toks.deep_view();
    toks.push(String::from_str(tok));
    proof {
        assert(toks.deep_view() =~~= old_dv.push(tok@));
        let p = s@.subrange(start as int, n as int);
        assert(s@.skip(start as int) =~= p);
        lemma_split_no_sep(p);
        assert(toks.deep_view() =~~= old_dv + seq![p]);
        assert(toks.deep_view() =~~= split_tokens(s@));
    }
    toks
}

/// Decode one received line, with the terminating newline tolerated but not
/// required.  The result is exactly what the grammar assigns to the line.
pub fn decode(line: &str) -> (r: Result<ServerMessage, ProtocolErrorKind>)
    ensures
        decoded_view(r) == decode_spec(line@),
{
    let n = line.unicode_len();
    let body = if n > 0 && line.get_char(n - 1) == '\n' {
        line.substring_char(0, n - 1)
    } else {
        line
    };
    proof {
        assert(body@ =~= strip_newline(line@));
    }
    let toks = tokenize(body);
    proof {
        lemma_split_len(body@);
        reveal_strlit("CONNECT");
        reveal_strlit("HEY");
        reveal_strlit("NO");
        reveal_strlit("PING");
        reveal_strlit("PONG");
        reveal_strlit("BOOP");
        reveal_strlit("BYE");
        reveal_strlit("DISCONNECT");
        reveal_strlit("ERROR");
        reveal_strlit("ONLINE");
        reveal_strlit("AFK");
        reveal_strlit("AREYOUTHERE");
        reveal_strlit("MISMATCH");
        reveal_strlit("MALFORMED");
        reveal_strlit("APPLICATION");
        assert("CONNECT"@ =~= kw_connect());
        assert("HEY"@ =~= kw_hey());
        assert("NO"@ =~= kw_no());
        assert("PING"@ =~= kw_ping());
        assert("PONG"@ =~= kw_pong());
        assert("BOOP"@ =~= kw_boop());
        assert("BYE"@ =~= kw_bye());
        assert("DISCONNECT"@ =~= kw_disconnect());
        assert("ERROR"@ =~= kw_error());
        assert("ONLINE"@ =~= kw_online());
        assert("AFK"@ =~= kw_afk());
        assert("AREYOUTHERE"@ =~= kw_areyouthere());
        assert("MISMATCH"@ =~= kind_token(ProtocolErrorKind::ProtocolMismatch));
        assert("MALFORMED"@ =~= kind_token(ProtocolErrorKind::MalformedMessage));
        assert("APPLICATION"@ =~= kind_token(ProtocolErrorKind::ApplicationError));
    }
    let kw = &toks[0];
    if str_eq(kw.as_str(), "CONNECT") {
        if toks.len() == 3 {
            Ok(ServerMessage::Connect { user: toks[1].clone(), password: toks[2].clone() })
        } else {
            Err(ProtocolErrorKind::MalformedMessage)
        }
    } else if str_eq(kw.as_str(), "HEY") {
        if toks.len() == 1 {
            Ok(ServerMessage::Hey)
        } else {
            Err(ProtocolErrorKind::MalformedMessage)
        }
    } else if str_eq(kw.as_str(), "NO") {
        if toks.len() == 1 {
            Ok(ServerMessage::No)
        } else {
            Err(ProtocolErrorKind::MalformedMessage)
        }
    } else if str_eq(kw.as_str(), "PING") {
        if toks.len() == 1 {
            Ok(ServerMessage::Ping)
        } else {
            Err(ProtocolErrorKind::MalformedMessage)
        }
    } else if str_eq(kw.as_str(), "PONG") {
        if toks.len() == 1 {
            Ok(ServerMessage::Pong)
        } else {
            Err(ProtocolErrorKind::MalformedMessage)
        }
    } else if str_eq(kw.as_str(), "BOOP") {
        if toks.len() == 2 {
            Ok(ServerMessage::Boop { partner_key: toks[1].clone() })
        } else {
            Err(ProtocolErrorKind::MalformedMessage)
        }
    } else if str_eq(kw.as_str(), "BYE") {
        if toks.len() == 1 {
            Ok(ServerMessage::Bye)
        } else {
            Err(ProtocolErrorKind::MalformedMessage)
        }
    } else if str_eq(kw.as_str(), "DISCONNECT") {
        if toks.len() == 1 {
            Ok(ServerMessage::Disconnect)
        } else {
            Err(ProtocolErrorKind::MalformedMessage)
        }
    } else if str_eq(kw.as_str(), "ERROR") {
        if toks.len() == 2 {
            let tok = &toks[1];
            if str_eq(tok.as_str(), "MISMATCH") {
                Ok(ServerMessage::Error { kind: ProtocolErrorKind::ProtocolMismatch })
            } else if str_eq(tok.as_str(), "MALFORMED") {
                Ok(ServerMessage::Error { kind: ProtocolErrorKind::MalformedMessage })
            } else if str_eq(tok.as_str(), "APPLICATION") {
                Ok(ServerMessage::Error { kind: ProtocolErrorKind::ApplicationError })
            } else {
                Err(ProtocolErrorKind::MalformedMessage)
            }
        } else {
            Err(ProtocolErrorKind::MalformedMessage)
        }
    } else if str_eq(kw.as_str(), "ONLINE") {
        if toks.len() == 2 {
            Ok(ServerMessage::Online { partner_key: toks[1].clone() })
        } else {
            Err(ProtocolErrorKind::MalformedMessage)
        }
    } else if str_eq(kw.as_str(), "AFK") {
        if toks.len() == 2 {
            Ok(ServerMessage::Afk { partner_key: toks[1].clone() })
        } else {
            Err(ProtocolErrorKind::MalformedMessage)
        }
    } else if str_eq(kw.as_str(), "AREYOUTHERE") {
        if toks.len() == 2 {
            Ok(ServerMessage::AreYouThere { partner_key: toks[1].clone() })
        } else {
            Err(ProtocolErrorKind::MalformedMessage)
        }
    } else {
        Err(ProtocolErrorKind::MalformedMessage)
    }
}

/// Whether a user-supplied value may travel as a command argument.  The
/// codec assumes this of outbound arguments; callers that accept free text
/// check here before building a message.
pub fn valid_argument(s: &str) -> (r: bool)
    ensures
        r == arg_ok(s@),
{
    let n = s.unicode_len();
    let mut i: usize = 0;
    while i < n
        invariant
            n == s@.len(),
            i <= n,
            forall|j: int| 0 <= j < i ==> s@[j] != ' ' && s@[j] != '\n',
        decreases n - i,
    {
        let c = s.get_char(i);
        if c == ' ' || c == '\n' {
            return false;
        }
        i = i + 1;
    }
    true
}

/// Human-readable description of an error kind, for logs and user display.
pub fn error_text(kind: ProtocolErrorKind) -> (r: String)
    ensures
        kind == ProtocolErrorKind::ProtocolMismatch ==> r@ == "unexpected message for the current protocol phase"@,
        kind == ProtocolErrorKind::MalformedMessage ==> r@ == "received a message that does not follow the protocol"@,
        kind == ProtocolErrorKind::ApplicationError ==> r@ == "the server reported an application error"@,
{
    match kind {
        ProtocolErrorKind::ProtocolMismatch => String::from_str(
            "unexpected message for the current protocol phase",
        ),
        ProtocolErrorKind::MalformedMessage => String::from_str(
            "received a message that does not follow the protocol",
        ),
        ProtocolErrorKind::ApplicationError => String::from_str(
            "the server reported an application error",
        ),
    }
}

} // verus!
