//! IPC protocol between the recorder and the speech-recognition sidecar:
//! message shapes and semantic-version negotiation.
//!
//! A message's version is compared with the protocol version by its first
//! two dot-separated components: a different major version is rejected, a
//! different minor version is accepted with a warning, and later components
//! are ignored.

use vstd::prelude::*;
use crate::text::chars_of;
use vstd::string::StringExecFns;

verus! {

/// Protocol version spoken by this side.
pub const PROTOCOL_VERSION: &'static str = "1.0";

/// `serde_json::Value`, declared so that messages can carry JSON payloads
/// through unchanged; nothing inside a value is visible here.
#[verifier::external_type_specification]
#[verifier::external_body]
pub struct ExJsonValue(serde_json::Value);

/// Result of comparing a received version with the expected one.
#[derive(Debug, Clone, PartialEq, Eq)]
pub enum VersionCompatibility {
    /// Same major and minor version.
    Compatible,
    /// Minor version differs: accepted with a warning.
    MinorMismatch { received: String, expected: String },
    /// Major version differs: communication is rejected.
    MajorMismatch { received: String, expected: String },
    /// The received version is not `major.minor[...]` with numeric parts.
    Malformed { received: String },
}

// ----------------------------------------------------------------------------
// Specification of the version syntax
// ----------------------------------------------------------------------------

/// Index of the first `c` in `s`, or `s.len()` when there is none.
pub open spec fn first_index(s: Seq<char>, c: char) -> nat
    decreases s.len(),
{
    if s.len() == 0 {
        0
    } else if s[0] == c {
        0
    } else {
        1 + first_index(s.skip(1), c)
    }
}

/// The first `.`-separated component (what `split('.')` yields first).
pub open spec fn first_component(s: Seq<char>) -> Seq<char> {
    s.take(first_index(s, '.') as int)
}

/// Everything after the first `.`; only meaningful when there is one.
pub open spec fn after_first_dot(s: Seq<char>) -> Seq<char> {
    s.skip(first_index(s, '.') as int + 1)
}

/// `split('.')` yields at least two components.
pub open spec fn has_two_components(s: Seq<char>) -> bool {
    first_index(s, '.') < s.len()
}

/// Major component of a version string.
pub open spec fn major_component(s: Seq<char>) -> Seq<char> {
    first_component(s)
}

/// Minor component of a version string (second `.`-separated component).
pub open spec fn minor_component(s: Seq<char>) -> Seq<char> {
    first_component(after_first_dot(s))
}

pub open spec fn is_digit(c: char) -> bool {
    '0' <= c <= '9'
}

/// Value of a string of decimal digits.
pub open spec fn digits_value(s: Seq<char>) -> nat
    decreases s.len(),
{
    if s.len() == 0 {
        0
    } else {
        10 * digits_value(s.drop_last()) + (s.last() as nat - '0' as nat) as nat
    }
}

/// The string without one leading `+`.
pub open spec fn unsigned_body(s: Seq<char>) -> Seq<char> {
    if s.len() > 0 && s[0] == '+' {
        s.skip(1)
    } else {
        s
    }
}

/// Every character is an ASCII digit.
pub open spec fn all_digits(s: Seq<char>) -> bool {
    forall|i: int| 0 <= i < s.len() ==> is_digit(#[trigger] s[i])
}

/// What `str::parse::<u32>` returns for `s`: an optional `+` followed by one
/// or more ASCII digits whose value fits in `u32`.
pub open spec fn parse_u32(s: Seq<char>) -> Option<u32> {
    let body = unsigned_body(s);
    if body.len() > 0 && all_digits(body) && digits_value(body) <= u32::MAX {
        Some(digits_value(body) as u32)
    } else {
        None
    }
}

/// Major and minor version numbers, when the string has them.
pub open spec fn version_numbers(s: Seq<char>) -> Option<(u32, u32)> {
    if has_two_components(s) && parse_u32(major_component(s)) is Some && parse_u32(minor_component(s)) is Some {
        Some((parse_u32(major_component(s))->0, parse_u32(minor_component(s))->0))
    } else {
        None
    }
}

/// The compatibility verdict for a received version, given the expected
/// major and minor numbers.
pub open spec fn compatibility_kind(received: Seq<char>, expected: (u32, u32)) -> int {
    match version_numbers(received) {
        None => 3,
        Some((maj, min)) => if maj != expected.0 {
            2
        } else if min != expected.1 {
            1
        } else {
            0
        },
    }
}

// ----------------------------------------------------------------------------
// Executable parsing
// ----------------------------------------------------------------------------

proof fn lemma_first_index_props(s: Seq<char>, c: char)
    ensures
        first_index(s, c) <= s.len(),
        forall|k: int| 0 <= k < first_index(s, c) ==> s[k] != c,
        first_index(s, c) < s.len() ==> s[first_index(s, c) as int] == c,
    decreases s.len(),
{
    if s.len() > 0 && s[0] != c {
        lemma_first_index_props(s.skip(1), c);
        assert forall|k: int| 0 <= k < first_index(s, c) implies s[k] != c by {
            if k > 0 {
                assert(s[k] == s.skip(1)[k - 1]);
            }
        }
    }
}

/// Position of the first `c` in `v[from..]`, as an index into `v`.
fn find_char(v: &Vec<char>, from: usize, c: char) -> (r: usize)
    requires
        from <= v@.len(),
    ensures
        r == from + first_index(v@.skip(from as int), c),
        r <= v@.len(),
{
    proof {
        lemma_first_index_props(v@.skip(from as int), c);
    }
    let mut i = from;
    while i < v.len()
        invariant
            from <= i <= v@.len(),
            forall|k: int| from <= k < i ==> v@[k] != c,
        decreases v@.len() - i,
    {
        if v[i] == c {
            proof {
                lemma_first_index_unique(v@.skip(from as int), c, (i - from) as nat);
            }
            return i;
        }
        i = i + 1;
    }
    proof {
        lemma_first_index_absent(v@.skip(from as int), c);
    }
    i
}

proof fn lemma_first_index_unique(s: Seq<char>, c: char, k: nat)
    requires
        k < s.len(),
        s[k as int] == c,
        forall|j: int| 0 <= j < k ==> s[j] != c,
    ensures
        first_index(s, c) == k,
    decreases k,
{
    if k > 0 {
        assert forall|j: int| 0 <= j < k - 1 implies s.skip(1)[j] != c by {
            assert(s.skip(1)[j] == s[j + 1]);
        }
        lemma_first_index_unique(s.skip(1), c, (k - 1) as nat);
    }
}

proof fn lemma_first_index_absent(s: Seq<char>, c: char)
    requires
        forall|j: int| 0 <= j < s.len() ==> s[j] != c,
    ensures
        first_index(s, c) == s.len(),
    decreases s.len(),
{
    if s.len() > 0 {
        assert forall|j: int| 0 <= j < s.len() - 1 implies s.skip(1)[j] != c by {
            assert(s.skip(1)[j] == s[j + 1]);
        }
        lemma_first_index_absent(s.skip(1), c);
    }
}

/// Parse `v[start..end]` as `str::parse::<u32>` would.
fn parse_u32_range(v: &Vec<char>, start: usize, end: usize) -> (r: Option<u32>)
    requires
        start <= end <= v@.len(),
    ensures
        r == parse_u32(v@.subrange(start as int, end as int)),
{
    let ghost s = v@.subrange(start as int, end as int);
    let mut b = start;
    if start < end && v[start] == '+' {
        b = start + 1;
    }
    let ghost body = v@.subrange(b as int, end as int);
    assert(body =~= unsigned_body(s));
    if b == end {
        return None;
    }
    let mut value: u64 = 0;
    let mut i = b;
    while i < end
        invariant
            b <= i <= end <= v@.len(),
            body == v@.subrange(b as int, end as int),
            s == v@.subrange(start as int, end as int),
            body == unsigned_body(s),
            forall|k: int| b <= k < i ==> is_digit(v@[k]),
            value == digits_value(v@.subrange(b as int, i as int)),
            value <= u32::MAX,
        decreases end - i,
    {
        let c = v[i];
        if !('0' <= c && c <= '9') {
            assert(body[i - b] == c);
            assert(!is_digit(body[i - b]));
            assert(!all_digits(body));
            return None;
        }
        let d: u64 = (c as u32 - '0' as u32) as u64;
        assert(v@.subrange(b as int, i + 1).drop_last() =~= v@.subrange(b as int, i as int));
        let next = value * 10 + d;
        if next > 0xFFFF_FFFF {
            proof {
                let prefix = v@.subrange(b as int, i + 1);
                assert(prefix.drop_last() =~= v@.subrange(b as int, i as int));
                assert(prefix.last() == c);
                assert(digits_value(prefix) == 10 * value + d);
                assert(prefix =~= body.take(i + 1 - b));
                if all_digits(body) {
                    lemma_digits_value_monotone(body, (i + 1 - b) as nat);
                    assert(digits_value(body) > u32::MAX);
                }
                assert(parse_u32(s) is None);
            }
            return None;
        }
        value = next;
        i = i + 1;
    }
    assert(v@.subrange(b as int, end as int) =~= body);
    Some(value as u32)
}

/// The value of a digit string is at least the value of each of its prefixes.
pub proof fn lemma_digits_value_monotone(s: Seq<char>, k: nat)
    requires
        k <= s.len(),
        all_digits(s),
    ensures
        digits_value(s.take(k as int)) <= digits_value(s),
    decreases s.len() - k,
{
    if k < s.len() {
        lemma_digits_value_monotone(s, k + 1);
        assert(s.take(k as int + 1).drop_last() =~= s.take(k as int));
    } else {
        assert(s.take(k as int) =~= s);
    }
}

/// Major and minor numbers of a version string.
fn parse_version(v: &Vec<char>) -> (r: Option<(u32, u32)>)
    ensures
        r == version_numbers(v@),
{
    assert(v@.skip(0) =~= v@);
    let dot = find_char(v, 0, '.');
    if dot >= v.len() {
        return None;
    }
    let major = parse_u32_range(v, 0, dot);
    assert(v@.subrange(0, dot as int) =~= major_component(v@));
    let dot2 = find_char(v, dot + 1, '.');
    let minor = parse_u32_range(v, dot + 1, dot2);
    assert(after_first_dot(v@) == v@.skip(dot + 1));
    assert(v@.subrange(dot + 1, dot2 as int) =~= minor_component(v@));
    match (major, minor) {
        (Some(a), Some(b)) => Some((a, b)),
        _ => None,
    }
}

/// The verdict for a received version against an expected version string.
/// An expected version without two numeric components makes every received
/// version malformed; where the received version is well-formed and the
/// expected one has two components, those components must be numbers.
pub open spec fn version_verdict(received: Seq<char>, expected: Seq<char>) -> int {
    match version_numbers(expected) {
        Some(e) => compatibility_kind(received, e),
        None => 3,
    }
}

/// Compare a received version string with the expected one.
///
/// * either version with fewer than two `.`-separated components, or a
///   received major/minor component that is not a `u32`: `Malformed`;
/// * different major number: `MajorMismatch`;
/// * same major, different minor: `MinorMismatch`;
/// * otherwise `Compatible` (later components are ignored).
pub fn check_version_compatibility(received: &str, expected: &str) -> (r: VersionCompatibility)
    requires
        has_two_components(expected@) && version_numbers(received@) is Some ==> version_numbers(expected@) is Some,
    ensures
        version_verdict(received@, expected@) == 0 <==> r is Compatible,
        version_verdict(received@, expected@) == 1 <==> r is MinorMismatch,
        version_verdict(received@, expected@) == 2 <==> r is MajorMismatch,
        version_verdict(received@, expected@) == 3 <==> r is Malformed,
        r matches VersionCompatibility::MinorMismatch { received: a, expected: b } ==> a@ == received@ && b@ == expected@,
        r matches VersionCompatibility::MajorMismatch { received: a, expected: b } ==> a@ == received@ && b@ == expected@,
        r matches VersionCompatibility::Malformed { received: a } ==> a@ == received@,
{
    let rv = chars_of(received);
    let ev = chars_of(expected);
    let (rmaj, rmin) = match parse_version(&rv) {
        Some(p) => p,
        None => {
            return VersionCompatibility::Malformed { received: String::from_str(received) };
        },
    };
    let (emaj, emin) = match parse_version(&ev) {
        Some(p) => p,
        None => {
            return VersionCompatibility::Malformed { received: String::from_str(received) };
        },
    };
    if rmaj != emaj {
        return VersionCompatibility::MajorMismatch {
            received: String::from_str(received),
            expected: String::from_str(expected),
        };
    }
    if rmin != emin {
        return VersionCompatibility::MinorMismatch {
            received: String::from_str(received),
            expected: String::from_str(expected),
        };
    }
    VersionCompatibility::Compatible
}

} // verus!

verus! {

/// Messages exchanged with the speech-recognition sidecar.  A message
/// without a version is read as version `1.0`.
#[derive(Debug)]
pub enum IpcMessage {
    Request { id: String, version: String, method: String, params: serde_json::Value },
    /// Response carrying a transcription result or other data.
    Response { id: String, version: String, result: serde_json::Value },
    /// Error report: code, message and whether the sidecar can recover.
    Error { id: String, version: String, error_code: String, error_message: String, recoverable: bool },
    /// Asynchronous notification (model change, upgrade proposal, ...).
    Event { version: String, event_type: String, data: serde_json::Value },
}

/// Version carried by a message.
pub open spec fn message_version(m: IpcMessage) -> Seq<char> {
    match m {
        IpcMessage::Request { version, .. } => version@,
        IpcMessage::Response { version, .. } => version@,
        IpcMessage::Error { version, .. } => version@,
        IpcMessage::Event { version, .. } => version@,
    }
}

/// Identifier of a message; events have none and report `N/A`.
pub open spec fn message_id(m: IpcMessage) -> Seq<char> {
    match m {
        IpcMessage::Request { id, .. } => id@,
        IpcMessage::Response { id, .. } => id@,
        IpcMessage::Error { id, .. } => id@,
        IpcMessage::Event { .. } => "N/A"@,
    }
}

impl IpcMessage {
    /// The message's protocol version.
    pub fn version(&self) -> (v: &str)
        ensures
            v@ == message_version(*self),
    {
        match self {
            IpcMessage::Request { version, .. } => version.as_str(),
            IpcMessage::Response { version, .. } => version.as_str(),
            IpcMessage::Error { version, .. } => version.as_str(),
            IpcMessage::Event { version, .. } => version.as_str(),
        }
    }

    /// The message's request id (`N/A` for events).
    pub fn id(&self) -> (v: &str)
        ensures
            v@ == message_id(*self),
    {
        match self {
            IpcMessage::Request { id, .. } => id.as_str(),
            IpcMessage::Response { id, .. } => id.as_str(),
            IpcMessage::Error { id, .. } => id.as_str(),
            IpcMessage::Event { .. } => "N/A",
        }
    }

    /// Compare the message's version with the protocol version.
    pub fn check_version_compatibility(&self) -> (r: VersionCompatibility)
        ensures
            compatibility_kind(message_version(*self), (1, 0)) == 0 <==> r is Compatible,
            compatibility_kind(message_version(*self), (1, 0)) == 1 <==> r is MinorMismatch,
            compatibility_kind(message_version(*self), (1, 0)) == 2 <==> r is MajorMismatch,
            compatibility_kind(message_version(*self), (1, 0)) == 3 <==> r is Malformed,
    {
        proof {
            reveal_strlit("1.0");
            lemma_protocol_version_numbers();
        }
        check_version_compatibility(self.version(), PROTOCOL_VERSION)
    }
}

/// The protocol version reads as major 1, minor 0.
proof fn lemma_protocol_version_numbers()
    ensures
        version_numbers(PROTOCOL_VERSION@) == Some((1u32, 0u32)),
{
    reveal_strlit("1.0");
    let s = PROTOCOL_VERSION@;
    assert(s.len() == 3 && s[0] == '1' && s[1] == '.' && s[2] == '0');
    let s1 = s.skip(1);
    assert(s1[0] == s[1]);
    assert(first_index(s1, '.') == 0);
    assert(first_index(s, '.') == 1);
    let maj = major_component(s);
    assert(maj =~= seq!['1']);
    assert(maj.drop_last() =~= Seq::<char>::empty());
    assert(unsigned_body(maj) =~= maj);
    assert(maj.last() == '1');
    assert(digits_value(maj.drop_last()) == 0);
    assert(('1' as nat) == 49 && ('0' as nat) == 48);
    assert(digits_value(maj) == 1);
    let rest = after_first_dot(s);
    assert(rest =~= seq!['0']);
    assert(rest.skip(1).len() == 0);
    assert(first_index(rest.skip(1), '.') == 0);
    assert(first_index(rest, '.') == 1);
    let min = minor_component(s);
    assert(min =~= seq!['0']);
    assert(min.drop_last() =~= Seq::<char>::empty());
    assert(unsigned_body(min) =~= min);
    assert(digits_value(min) == 0);
}

/// A well-formed version is compatible with itself.
pub proof fn lemma_version_compatible_with_itself(v: Seq<char>)
    requires
        version_numbers(v) is Some,
    ensures
        version_verdict(v, v) == 0,
{
}

/// Compatibility of two well-formed versions does not depend on which side
/// sent which.
pub proof fn lemma_version_compatibility_symmetric(a: Seq<char>, b: Seq<char>)
    requires
        version_numbers(a) is Some,
        version_numbers(b) is Some,
    ensures
        version_verdict(a, b) == version_verdict(b, a),
{
}

/// Versions that agree on major and minor numbers are compatible, whatever
/// follows them.
pub proof fn lemma_version_patch_ignored(a: Seq<char>, b: Seq<char>)
    requires
        version_numbers(a) is Some,
        version_numbers(a) == version_numbers(b),
    ensures
        version_verdict(b, a) == 0,
{
}

} // verus!
