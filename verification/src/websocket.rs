//! Rules of the WebSocket server that serves the browser extension: which
//! origins may connect, which ports it tries, and how its messages are
//! numbered.  Sockets, tasks and serialisation belong to the application.

use vstd::prelude::*;
use vstd::string::StringExecFns;
use crate::text::{decimal, push_decimal, seq_starts_with, str_starts_with};

verus! {

/// First port the server tries.
pub const FIRST_PORT: u16 = 9001;

/// Last port the server tries.
pub const LAST_PORT: u16 = 9100;

/// Whether a handshake from `origin` is accepted: no origin (local test
/// clients), localhost over http or https, Google Meet, and browser
/// extensions when `allow_any_extension` holds (development builds; release
/// builds list no extension ids, so none is accepted).
pub open spec fn origin_allowed(origin: Seq<char>, allow_any_extension: bool) -> bool {
    ||| origin.len() == 0
    ||| seq_starts_with(origin, "http://127.0.0.1"@)
    ||| seq_starts_with(origin, "http://localhost"@)
    ||| seq_starts_with(origin, "https://127.0.0.1"@)
    ||| seq_starts_with(origin, "https://localhost"@)
    ||| seq_starts_with(origin, "https://meet.google.com"@)
    ||| (allow_any_extension && seq_starts_with(origin, "chrome-extension://"@))
}

/// Check the `Origin` header of a handshake (empty when absent).
pub fn verify_origin(origin: &str, allow_any_extension: bool) -> (b: bool)
    ensures
        b == origin_allowed(origin@, allow_any_extension),
{
    if origin.unicode_len() == 0 {
        return true;
    }
    if str_starts_with(origin, "http://127.0.0.1") || str_starts_with(origin, "http://localhost")
        || str_starts_with(origin, "https://127.0.0.1") || str_starts_with(origin, "https://localhost") {
        return true;
    }
    if str_starts_with(origin, "https://meet.google.com") {
        return true;
    }
    if str_starts_with(origin, "chrome-extension://") {
        return allow_any_extension;
    }
    false
}

/// The port to try after `port`, while the range lasts.
pub fn next_port(port: u16) -> (r: Option<u16>)
    ensures
        port < LAST_PORT ==> r == Some((port + 1) as u16),
        port >= LAST_PORT ==> r is None,
{
    if port < LAST_PORT {
        Some(port + 1)
    } else {
        None
    }
}

/// Text of the error when no port of the range is free.
pub open spec fn no_port_text() -> Seq<char> {
    "No available ports in range 9001-9100"@
}

/// The error when no port of the range is free.
pub fn no_port_message() -> (m: String)
    ensures
        m@ == no_port_text(),
{
    String::from_str("No available ports in range 9001-9100")
}

/// Id of the `n`-th message of a server: `ws-n`.
pub open spec fn message_id_text(n: nat) -> Seq<char> {
    "ws-"@ + decimal(n)
}

/// Id of the `n`-th message of a server.
pub fn message_id(n: u64) -> (s: String)
    ensures
        s@ == message_id_text(n as nat),
{
    let mut s = String::from_str("ws-");
    push_decimal(&mut s, n);
    s
}

/// Numbering of a server's messages: each connection gets the next id.
#[derive(Debug)]
pub struct MessageCounter {
    next: u64,
}

impl MessageCounter {
    /// The next id will be `ws-0`.
    pub fn new() -> (c: Self)
        ensures
            c.peek() == 0,
    {
        MessageCounter { next: 0 }
    }

    /// Number of the next id.
    pub closed spec fn peek(&self) -> nat {
        self.next as nat
    }

    /// Take the next id; the counter wraps at 2^64 as the atomic counter of
    /// the server does.
    pub fn next_id(&mut self) -> (s: String)
        ensures
            s@ == message_id_text(old(self).peek()),
            final(self).peek() == (if old(self).peek() == u64::MAX { 0 } else { old(self).peek() + 1 }),
    {
        let n = self.next;
        self.next = if n == u64::MAX { 0 } else { n + 1 };
        message_id(n)
    }
}

/// Distinct counter values give distinct message ids.
pub proof fn lemma_message_ids_distinct(a: nat, b: nat)
    requires
        a != b,
    ensures
        message_id_text(a) != message_id_text(b),
{
    reveal_strlit("ws-");
    lemma_decimal_injective(a, b);
    if message_id_text(a) == message_id_text(b) {
        assert(message_id_text(a).skip(3) =~= decimal(a));
        assert(message_id_text(b).skip(3) =~= decimal(b));
    }
}

/// Decimal rendering is one-to-one.
pub proof fn lemma_decimal_injective(a: nat, b: nat)
    requires
        a != b,
    ensures
        decimal(a) != decimal(b),
    decreases a + b,
{
    if a < 10 && b < 10 {
        assert(decimal(a)[0] != decimal(b)[0]);
    } else if a < 10 {
        lemma_decimal_len_ge(b / 10);
        assert(decimal(b).len() >= 2);
    } else if b < 10 {
        lemma_decimal_len_ge(a / 10);
        assert(decimal(a).len() >= 2);
    } else if a / 10 != b / 10 {
        lemma_decimal_injective(a / 10, b / 10);
        if decimal(a) == decimal(b) {
            assert(decimal(a).drop_last() == decimal(a / 10));
            assert(decimal(b).drop_last() == decimal(b / 10));
        }
    } else {
        assert(a % 10 != b % 10);
        assert(decimal(a).last() == crate::text::digit_char(a % 10));
        assert(decimal(b).last() == crate::text::digit_char(b % 10));
    }
}

proof fn lemma_decimal_len_ge(n: nat)
    ensures
        decimal(n).len() >= 1,
    decreases n,
{
    if n >= 10 {
        lemma_decimal_len_ge(n / 10);
    }
}

} // verus!
