//! The reboot announcement: the human-readable message and the JSON webhook
//! payload that carries it, built with the exact escaping that a JSON
//! serializer applies to a string value.

use vstd::prelude::*;
use vstd::string::StrSliceExecFns;
use vstd::string::StringExecFns;

verus! {

/// The reboot announcement text for a host and a formatted last-heartbeat
/// time.
pub open spec fn reboot_message(host: Seq<char>, last_heartbeat: Seq<char>) -> Seq<char> {
    "System **"@ + host + "** has booted. Last heartbeat was at **"@ + last_heartbeat + "**"@
}

/// The lowercase hexadecimal digit character for a value below 16.
pub open spec fn hex_char(d: int) -> char
    recommends
        0 <= d < 16,
{
    if d < 10 {
        ((48 + d) as u8) as char
    } else {
        ((87 + d) as u8) as char
    }
}

/// How one character appears inside a JSON string value: quote and backslash
/// get a backslash escape, control characters get their short escape or a
/// `\u00XX` escape, and everything else stands as itself.
pub open spec fn json_escaped_char(c: char) -> Seq<char> {
    if c == '"' {
        seq!['\\', '"']
    } else if c == '\\' {
        seq!['\\', '\\']
    } else if c == '\u{8}' {
        seq!['\\', 'b']
    } else if c == '\t' {
        seq!['\\', 't']
    } else if c == '\n' {
        seq!['\\', 'n']
    } else if c == '\u{c}' {
        seq!['\\', 'f']
    } else if c == '\r' {
        seq!['\\', 'r']
    } else if (c as int) < 32 {
        seq!['\\', 'u', '0', '0', hex_char(c as int / 16), hex_char(c as int % 16)]
    } else {
        seq![c]
    }
}

/// How a whole string appears inside a JSON string value.
pub open spec fn json_escaped(s: Seq<char>) -> Seq<char>
    decreases s.len(),
{
    if s.len() == 0 {
        Seq::<char>::empty()
    } else {
        json_escaped(s.drop_last()) + json_escaped_char(s.last())
    }
}

/// The webhook request body for a message: a JSON object with a single
/// `content` field holding the escaped message.
pub open spec fn payload_of(message: Seq<char>) -> Seq<char> {
    "{\"content\":\""@ + json_escaped(message) + "\"}"@
}

/// Builds the reboot announcement text.
pub fn build_reboot_message(hostname: &str, last_heartbeat: &str) -> (m: String)
    ensures
        m@ == reboot_message(hostname@, last_heartbeat@),
{
    let mut m = String::new();
    m.append("System **");
    m.append(hostname);
    m.append("** has booted. Last heartbeat was at **");
    m.append(last_heartbeat);
    m.append("**");
    proof {
        assert(m@ =~= reboot_message(hostname@, last_heartbeat@));
    }
    m
}

/// Appends the JSON escape of one character.
fn push_escaped_char(out: &mut String, c: char)
    ensures
        final(out)@ == old(out)@ + json_escaped_char(c),
{
    let v: u32 = c as u32;
    if c == '"' {
        out.push('\\');
        out.push('"');
    } else if c == '\\' {
        out.push('\\');
        out.push('\\');
    } else if v == 8 {
        out.push('\\');
        out.push('b');
    } else if v == 9 {
        out.push('\\');
        out.push('t');
    } else if v == 10 {
        out.push('\\');
        out.push('n');
    } else if v == 12 {
        out.push('\\');
        out.push('f');
    } else if v == 13 {
        out.push('\\');
        out.push('r');
    } else if v < 32 {
        out.push('\\');
        out.push('u');
        out.push('0');
        out.push('0');
        let hi: u32 = v / 16;
        let lo: u32 = v % 16;
        let hi_c: char = if hi < 10 {
            (48 + hi as u8) as char
        } else {
            (87 + hi as u8) as char
        };
        let lo_c: char = if lo < 10 {
            (48 + lo as u8) as char
        } else {
            (87 + lo as u8) as char
        };
        out.push(hi_c);
        out.push(lo_c);
        proof {
            assert(hi_c == hex_char(c as int / 16));
            assert(lo_c == hex_char(c as int % 16));
        }
    } else {
        out.push(c);
    }
    proof {
        assert(out@ =~= old(out)@ + json_escaped_char(c));
    }
}

/// Builds the webhook request body for a message.
pub fn webhook_payload(message: &str) -> (p: String)
    ensures
        p@ == payload_of(message@),
{
    let mut p = String::new();
    p.append("{\"content\":\"");
    let n: usize = message.unicode_len();
    let mut i: usize = 0;
    while i < n
        invariant
            0 <= i <= n,
            n == message@.len(),
            p@ == "{\"content\":\""@ + json_escaped(message@.take(i as int)),
        decreases n - i,
    {
        let c: char = message.get_char(i);
        push_escaped_char(&mut p, c);
        proof {
            let head = message@.take(i as int + 1);
            assert(head.drop_last() =~= message@.take(i as int));
            assert(head.last() == message@[i as int]);
            assert(p@ =~= "{\"content\":\""@ + json_escaped(head));
        }
        i += 1;
    }
    p.append("\"}");
    proof {
        assert(message@.take(n as int) =~= message@);
        assert(p@ =~= payload_of(message@));
    }
    p
}

/// The user-agent header value that the notifier sends.
pub fn user_agent() -> (u: String)
    ensures
        u@ == "uptime/0.1.0"@,
{
    let mut u = String::new();
    u.append("uptime/0.1.0");
    proof {
        assert(u@ =~= "uptime/0.1.0"@);
    }
    u
}

} // verus!
