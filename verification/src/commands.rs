//! The line-oriented command protocol of the TCP control port: the
//! shared LED state, the command dispatcher, and the helper that finds
//! command boundaries in a receive buffer.
//!
//! Commands are matched case-insensitively: the incoming line is
//! uppercased first, so `led_on` and `LED_ON` act alike.

use vstd::prelude::*;
use vstd::string::StrSliceExecFns;

verus! {

/// The LED state the command handler and the hardware-update loop
/// share. The handler records the desired state here; the application
/// task that owns the pin reads it and drives the hardware.
#[derive(Clone, Copy, Debug, PartialEq, Eq, Structural)]
pub struct LedControl {
    pub on: bool,
}

impl LedControl {
    /// A fresh control block; the LED starts off.
    pub fn new() -> (c: LedControl)
        ensures
            !c.on,
    {
        LedControl { on: false }
    }

    /// Record that the LED should be on.
    pub fn set_on(&mut self)
        ensures
            final(self).on,
    {
        self.on = true;
    }

    /// Record that the LED should be off.
    pub fn set_off(&mut self)
        ensures
            !final(self).on,
    {
        self.on = false;
    }

    /// The currently desired LED state.
    pub fn is_on(&self) -> (r: bool)
        ensures
            r == self.on,
    {
        self.on
    }
}

/// Character-by-character string comparison; equal exactly when the
/// two views are equal.
fn str_equal(a: &str, b: &str) -> (r: bool)
    ensures
        r == (a@ == b@),
{
    let a_len = a.unicode_len();
    let b_len = b.unicode_len();
    if a_len != b_len {
        return false;
    }
    let mut i: usize = 0;
    while i < a_len
        invariant
            0 <= i <= a_len,
            a_len == a@.len(),
            a_len == b@.len(),
            forall|j: int| 0 <= j < i ==> a@[j] == b@[j],
        decreases a_len - i,
    {
        if a.get_char(i) != b.get_char(i) {
            return false;
        }
        i += 1;
    }
    proof {
        assert(a@ =~= b@);
    }
    true
}

/// What the LED's desired state is after serving an uppercased
/// command, given what it was before.
pub open spec fn spec_led_after(cmd: Seq<char>, was_on: bool) -> bool {
    if cmd == "LED_ON"@ {
        true
    } else if cmd == "LED_OFF"@ {
        false
    } else {
        was_on
    }
}

/// The response owed to an uppercased command, given the LED's state
/// when the command arrived.
pub open spec fn spec_response(cmd: Seq<char>, was_on: bool) -> Seq<char> {
    if cmd == "LED_ON"@ {
        "OK: LED turned ON"@
    } else if cmd == "LED_OFF"@ {
        "OK: LED turned OFF"@
    } else if cmd == "STATUS"@ {
        if was_on {
            "STATUS: LED is ON"@
        } else {
            "STATUS: LED is OFF"@
        }
    } else if cmd == "PING"@ {
        "PONG"@
    } else if cmd == "HELP"@ {
        "Available commands: LED_ON, LED_OFF, STATUS, PING, HELP"@
    } else if cmd == ""@ {
        "ERROR: Empty command"@
    } else {
        "ERROR: Unknown command. Type HELP for available commands"@
    }
}

/// Serve one already-uppercased command: update the LED state the
/// command asks for and return the protocol response.
pub fn dispatch_command(command: &str, led: &mut LedControl) -> (r: &'static str)
    ensures
        final(led).on == spec_led_after(command@, old(led).on),
        r@ == spec_response(command@, old(led).on),
{
    if str_equal(command, "LED_ON") {
        led.set_on();
        "OK: LED turned ON"
    } else if str_equal(command, "LED_OFF") {
        led.set_off();
        "OK: LED turned OFF"
    } else if str_equal(command, "STATUS") {
        if led.is_on() {
            "STATUS: LED is ON"
        } else {
            "STATUS: LED is OFF"
        }
    } else if str_equal(command, "PING") {
        "PONG"
    } else if str_equal(command, "HELP") {
        "Available commands: LED_ON, LED_OFF, STATUS, PING, HELP"
    } else if str_equal(command, "") {
        "ERROR: Empty command"
    } else {
        "ERROR: Unknown command. Type HELP for available commands"
    }
}

/// The uppercase mapping `str::to_uppercase` computes for a string's
/// characters.
pub uninterp spec fn upper_of(s: Seq<char>) -> Seq<char>;

/// Relies on `str::to_uppercase`: its result is a function of the
/// string's characters alone.
#[verifier::external_body]
fn to_uppercase_string(s: &str) -> (r: String)
    ensures
        r@ == upper_of(s@),
{
    s.to_uppercase()
}

/// Serve one command line, matched case-insensitively: the line is
/// uppercased and then dispatched. The caller passes the LED control
/// block it owns; the response is the protocol's answer to the
/// uppercased command.
pub fn process_command(command: &str, led: &mut LedControl) -> (r: &'static str)
    ensures
        final(led).on == spec_led_after(upper_of(command@), old(led).on),
        r@ == spec_response(upper_of(command@), old(led).on),
{
    let upper = to_uppercase_string(command);
    dispatch_command(upper.as_str(), led)
}

/// ASCII whitespace, as the command port's line protocol sees it:
/// space, tab, carriage return, line feed.
pub open spec fn is_ascii_ws(c: char) -> bool {
    c == ' ' || c == '\t' || c == '\r' || c == '\n'
}

/// `s` with leading ASCII whitespace removed.
pub open spec fn trim_front_spec(s: Seq<char>) -> Seq<char>
    decreases s.len(),
{
    if s.len() > 0 && is_ascii_ws(s[0]) {
        trim_front_spec(s.drop_first())
    } else {
        s
    }
}

/// `s` with trailing ASCII whitespace removed.
pub open spec fn trim_back_spec(s: Seq<char>) -> Seq<char>
    decreases s.len(),
{
    if s.len() > 0 && is_ascii_ws(s[s.len() - 1]) {
        trim_back_spec(s.drop_last())
    } else {
        s
    }
}

/// `s` with ASCII whitespace removed from both ends: the shape a
/// received command line is brought into before dispatch.
pub open spec fn trim_spec(s: Seq<char>) -> Seq<char> {
    trim_back_spec(trim_front_spec(s))
}

/// Skipping a whitespace-only prefix does not change the front-trim.
proof fn lemma_trim_front_skip(s: Seq<char>, i: int)
    requires
        0 <= i <= s.len(),
        forall|j: int| 0 <= j < i ==> is_ascii_ws(s[j]),
    ensures
        trim_front_spec(s) == trim_front_spec(s.subrange(i, s.len() as int)),
    decreases i,
{
    if i == 0 {
        assert(s.subrange(0, s.len() as int) =~= s);
    } else {
        let t = s.drop_first();
        assert(forall|j: int| 0 <= j < i - 1 ==> t[j] == s[j + 1]);
        lemma_trim_front_skip(t, i - 1);
        assert(t.subrange(i - 1, t.len() as int) =~= s.subrange(i, s.len() as int));
    }
}

/// Dropping a whitespace-only suffix does not change the back-trim.
proof fn lemma_trim_back_skip(s: Seq<char>, i: int)
    requires
        0 <= i <= s.len(),
        forall|j: int| i <= j < s.len() ==> is_ascii_ws(s[j]),
    ensures
        trim_back_spec(s) == trim_back_spec(s.subrange(0, i)),
    decreases s.len() - i,
{
    if i == s.len() {
        assert(s.subrange(0, s.len() as int) =~= s);
    } else {
        lemma_trim_back_skip(s.drop_last(), i);
        assert(s.drop_last().subrange(0, i) =~= s.subrange(0, i));
    }
}

/// Whether `c` is ASCII whitespace.
fn is_ws_char(c: char) -> (r: bool)
    ensures
        r == is_ascii_ws(c),
{
    c == ' ' || c == '\t' || c == '\r' || c == '\n'
}

/// Strip ASCII whitespace — including the carriage return of a
/// `\r\n`-terminated line — from both ends of a received command
/// line.
pub fn trim_ascii(s: &str) -> (r: &str)
    ensures
        r@ == trim_spec(s@),
{
    let len = s.unicode_len();
    let mut start: usize = 0;
    while start < len
        invariant_except_break
            start <= len,
            len == s@.len(),
            forall|j: int| 0 <= j < start ==> is_ascii_ws(s@[j]),
        ensures
            start <= len,
            len == s@.len(),
            forall|j: int| 0 <= j < start ==> is_ascii_ws(s@[j]),
            start == len || !is_ascii_ws(s@[start as int]),
        decreases len - start,
    {
        if !is_ws_char(s.get_char(start)) {
            break;
        }
        start += 1;
    }
    let mut end: usize = len;
    while end > start
        invariant_except_break
            start <= end <= len,
            len == s@.len(),
            forall|j: int| end <= j < len ==> is_ascii_ws(s@[j]),
        ensures
            start <= end <= len,
            len == s@.len(),
            forall|j: int| end <= j < len ==> is_ascii_ws(s@[j]),
            end == start || !is_ascii_ws(s@[end - 1]),
        decreases end,
    {
        if !is_ws_char(s.get_char(end - 1)) {
            break;
        }
        end -= 1;
    }
    proof {
        lemma_trim_front_skip(s@, start as int);
        let u = s@.subrange(start as int, len as int);
        assert(trim_front_spec(u) == u);
        assert(forall|j: int| end - start <= j < u.len() ==> is_ascii_ws(u[j]));
        lemma_trim_back_skip(u, end - start);
        assert(u.subrange(0, end - start) =~= s@.subrange(start as int, end as int));
    }
    s.substring_char(start, end)
}

/// The position of the first line feed among the first `len` bytes of
/// `buffer`, if any: where the next complete command line ends.
pub fn find_newline(buffer: &[u8], len: usize) -> (r: Option<usize>)
    requires
        len <= buffer@.len(),
    ensures
        match r {
            Some(i) => i < len && buffer@[i as int] == 10 && forall|j: int|
                0 <= j < i ==> buffer@[j] != 10,
            None => forall|j: int| 0 <= j < len ==> buffer@[j] != 10,
        },
{
    let mut i: usize = 0;
    while i < len
        invariant
            0 <= i <= len <= buffer@.len(),
            forall|j: int| 0 <= j < i ==> buffer@[j] != 10,
        decreases len - i,
    {
        if buffer[i] == 10 {
            return Some(i);
        }
        i += 1;
    }
    None
}

} // verus!
