//! The control protocol's wire form: one self-describing JSON value per
//! frame, UTF-8 text terminated by a single newline.
//!
//! The writer emits the canonical form below; the reader accepts exactly
//! the canonical frames and answers `None` to anything else, which makes
//! the offending connection close. Strings escape the quote, the
//! backslash and every control character; object keys come in declaration
//! order; no extra whitespace anywhere.

use vstd::prelude::*;
use crate::dispatch::{Command, Response};
use crate::status::{LogMessage, ServiceStatus};
use crate::text::{
    decimal_text, digit_char, hex_digit_char, hex_digit_char_of, push_decimal, push_str_chars,
    string_from_chars, str_chars,
};

verus! {

/// How one character appears inside a JSON string: the quote, the
/// backslash and the named control characters take two-character escapes,
/// any other control character takes a `\u00XX` escape, and everything
/// else stands for itself.
pub open spec fn escape_char(c: char) -> Seq<char> {
    if c == '"' {
        seq!['\\', '"']
    } else if c == '\\' {
        seq!['\\', '\\']
    } else if c == '\u{8}' {
        seq!['\\', 'b']
    } else if c == '\t' {
        seq!['\\', 't']
    } else if c == '\n' {
        seq!['\\', 'n']
    } else if c == '\u{c}' {
        seq!['\\', 'f']
    } else if c == '\r' {
        seq!['\\', 'r']
    } else if (c as u32) < 32 {
        seq!['\\', 'u', '0', '0', hex_digit_char(((c as u32) / 16) as nat), hex_digit_char(
            ((c as u32) % 16) as nat,
        )]
    } else {
        seq![c]
    }
}

/// A whole string's characters, escaped in order.
pub open spec fn escape_text(s: Seq<char>) -> Seq<char>
    decreases s.len(),
{
    if s.len() == 0 {
        Seq::empty()
    } else {
        escape_text(s.drop_last()) + escape_char(s.last())
    }
}

/// Escaping distributes over concatenation.
pub proof fn lemma_escape_text_concat(a: Seq<char>, b: Seq<char>)
    ensures
        escape_text(a + b) == escape_text(a) + escape_text(b),
    decreases b.len(),
{
    if b.len() == 0 {
        assert(a + b =~= a);
        assert(escape_text(a) + escape_text(b) =~= escape_text(a));
    } else {
        lemma_escape_text_concat(a, b.drop_last());
        assert((a + b).drop_last() =~= a + b.drop_last());
        assert(escape_text(a) + escape_text(b.drop_last()) + escape_char(b.last()) =~= escape_text(
            a,
        ) + escape_text(b));
    }
}

/// A JSON string: quote, escaped content, quote.
pub open spec fn json_string(s: Seq<char>) -> Seq<char> {
    seq!['"'] + escape_text(s) + seq!['"']
}

/// An optional string: `null`, or the JSON string.
pub open spec fn json_opt_string(s: Option<Seq<char>>) -> Seq<char> {
    match s {
        None => "null"@,
        Some(t) => json_string(t),
    }
}

/// A JSON boolean literal.
pub open spec fn json_bool(b: bool) -> Seq<char> {
    if b {
        "true"@
    } else {
        "false"@
    }
}

/// The mathematical content of a status snapshot.
pub struct StatusModel {
    pub running: bool,
    pub cron: Seq<char>,
    pub last_update: Option<Seq<char>>,
    pub last_result: Option<Seq<char>>,
    pub current_ip: Option<Seq<char>>,
    pub record_count: nat,
    pub next_run: Option<Seq<char>>,
}

/// The mathematical content of a response.
pub enum ResponseModel {
    Status(StatusModel),
    UpdateTriggered,
    UpdateResult { success: bool, message: Seq<char> },
    Stopping,
    Pong,
    Error(Seq<char>),
    Log { level: Seq<char>, message: Seq<char>, timestamp: Seq<char> },
}

/// The content of an optional string field.
pub open spec fn opt_view(o: Option<String>) -> Option<Seq<char>> {
    match o {
        Some(s) => Some(s@),
        None => None,
    }
}

/// What a status snapshot says, as plain mathematics.
pub open spec fn status_model(st: ServiceStatus) -> StatusModel {
    StatusModel {
        running: st.running,
        cron: st.cron@,
        last_update: opt_view(st.last_update),
        last_result: opt_view(st.last_result),
        current_ip: opt_view(st.current_ip),
        record_count: st.record_count as nat,
        next_run: opt_view(st.next_run),
    }
}

/// What a response says, as plain mathematics.
pub open spec fn response_model(r: Response) -> ResponseModel {
    match r {
        Response::Status(st) => ResponseModel::Status(status_model(st)),
        Response::UpdateTriggered => ResponseModel::UpdateTriggered,
        Response::UpdateResult { success, message } => ResponseModel::UpdateResult {
            success,
            message: message@,
        },
        Response::Stopping => ResponseModel::Stopping,
        Response::Pong => ResponseModel::Pong,
        Response::Error(m) => ResponseModel::Error(m@),
        Response::Log(l) => ResponseModel::Log {
            level: l.level@,
            message: l.message@,
            timestamp: l.timestamp@,
        },
    }
}

/// The JSON object carrying a status snapshot, keys in declaration order.
pub open spec fn status_body(m: StatusModel) -> Seq<char> {
    "{\"running\":"@ + json_bool(m.running) + ",\"cron\":"@ + json_string(m.cron)
        + ",\"last_update\":"@ + json_opt_string(m.last_update) + ",\"last_result\":"@
        + json_opt_string(m.last_result) + ",\"current_ip\":"@ + json_opt_string(m.current_ip)
        + ",\"record_count\":"@ + decimal_text(m.record_count) + ",\"next_run\":"@
        + json_opt_string(m.next_run) + "}"@
}

/// The JSON value of a response: unit variants are bare strings, the
/// others are one-key objects named after the variant.
pub open spec fn response_text(m: ResponseModel) -> Seq<char> {
    match m {
        ResponseModel::Pong => "\"Pong\""@,
        ResponseModel::Stopping => "\"Stopping\""@,
        ResponseModel::UpdateTriggered => "\"UpdateTriggered\""@,
        ResponseModel::Error(s) => "{\"Error\":"@ + json_string(s) + "}"@,
        ResponseModel::UpdateResult { success, message } => "{\"UpdateResult\":{\"success\":"@
            + json_bool(success) + ",\"message\":"@ + json_string(message) + "}}"@,
        ResponseModel::Log { level, message, timestamp } => "{\"Log\":{\"level\":"@ + json_string(
            level,
        ) + ",\"message\":"@ + json_string(message) + ",\"timestamp\":"@ + json_string(timestamp)
            + "}}"@,
        ResponseModel::Status(st) => "{\"Status\":"@ + status_body(st) + "}"@,
    }
}

/// A whole response frame: the value and the terminating newline.
pub open spec fn response_frame(m: ResponseModel) -> Seq<char> {
    response_text(m) + seq!['\n']
}

/// A whole command frame: the variant's name as a JSON string, then the
/// terminating newline.
pub open spec fn command_frame(c: Command) -> Seq<char> {
    match c {
        Command::GetStatus => "\"GetStatus\"\n"@,
        Command::TriggerUpdate => "\"TriggerUpdate\"\n"@,
        Command::Stop => "\"Stop\"\n"@,
        Command::Ping => "\"Ping\"\n"@,
    }
}

/// Appends the escape of one character.
fn push_escaped_char(out: &mut Vec<char>, c: char)
    ensures
        final(out)@ == old(out)@ + escape_char(c),
{
    if c == '"' {
        out.push('\\');
        out.push('"');
    } else if c == '\\' {
        out.push('\\');
        out.push('\\');
    } else if c == '\u{8}' {
        out.push('\\');
        out.push('b');
    } else if c == '\t' {
        out.push('\\');
        out.push('t');
    } else if c == '\n' {
        out.push('\\');
        out.push('n');
    } else if c == '\u{c}' {
        out.push('\\');
        out.push('f');
    } else if c == '\r' {
        out.push('\\');
        out.push('r');
    } else if (c as u32) < 32 {
        let code = c as u32;
        out.push('\\');
        out.push('u');
        out.push('0');
        out.push('0');
        out.push(hex_digit_char_of((code / 16) as u64));
        out.push(hex_digit_char_of((code % 16) as u64));
    } else {
        out.push(c);
    }
    assert(out@ =~= old(out)@ + escape_char(c));
}

/// Appends the JSON string carrying `s`.
fn push_json_string(out: &mut Vec<char>, s: &str)
    ensures
        final(out)@ == old(out)@ + json_string(s@),
{
    out.push('"');
    let n = s.unicode_len();
    for i in 0..n
        invariant
            n == s@.len(),
            out@ == old(out)@ + seq!['"'] + escape_text(s@.subrange(0, i as int)),
    {
        let c = s.get_char(i);
        push_escaped_char(out, c);
        proof {
            assert(s@.subrange(0, i + 1).drop_last() =~= s@.subrange(0, i as int));
            assert(s@.subrange(0, i + 1).last() == s@[i as int]);
            assert(out@ =~= old(out)@ + seq!['"'] + escape_text(s@.subrange(0, i + 1)));
        }
    }
    out.push('"');
    proof {
        assert(s@.subrange(0, s@.len() as int) =~= s@);
        assert(out@ =~= old(out)@ + json_string(s@));
    }
}

/// Appends `null` or the JSON string of the value.
fn push_json_opt_string(out: &mut Vec<char>, o: &Option<String>)
    ensures
        final(out)@ == old(out)@ + json_opt_string(opt_view(*o)),
{
    match o {
        None => push_str_chars(out, "null"),
        Some(s) => push_json_string(out, s.as_str()),
    }
}

/// Appends `true` or `false`.
fn push_json_bool(out: &mut Vec<char>, b: bool)
    ensures
        final(out)@ == old(out)@ + json_bool(b),
{
    if b {
        push_str_chars(out, "true");
    } else {
        push_str_chars(out, "false");
    }
}

/// Appends the JSON object carrying a status snapshot.
fn push_status_body(out: &mut Vec<char>, st: &ServiceStatus)
    ensures
        final(out)@ == old(out)@ + status_body(status_model(*st)),
{
    push_str_chars(out, "{\"running\":");
    push_json_bool(out, st.running);
    push_str_chars(out, ",\"cron\":");
    push_json_string(out, st.cron.as_str());
    push_str_chars(out, ",\"last_update\":");
    push_json_opt_string(out, &st.last_update);
    push_str_chars(out, ",\"last_result\":");
    push_json_opt_string(out, &st.last_result);
    push_str_chars(out, ",\"current_ip\":");
    push_json_opt_string(out, &st.current_ip);
    push_str_chars(out, ",\"record_count\":");
    push_decimal(out, st.record_count as u64);
    push_str_chars(out, ",\"next_run\":");
    push_json_opt_string(out, &st.next_run);
    push_str_chars(out, "}");
    assert(out@ =~= old(out)@ + status_body(status_model(*st)));
}

/// Encodes a command as one frame.
pub fn encode_command(c: &Command) -> (s: String)
    ensures
        s@ == command_frame(*c),
{
    match c {
        Command::GetStatus => String::from_str("\"GetStatus\"\n"),
        Command::TriggerUpdate => String::from_str("\"TriggerUpdate\"\n"),
        Command::Stop => String::from_str("\"Stop\"\n"),
        Command::Ping => String::from_str("\"Ping\"\n"),
    }
}

/// Encodes a response as one frame.
pub fn encode_response(r: &Response) -> (s: String)
    ensures
        s@ == response_frame(response_model(*r)),
{
    let mut out: Vec<char> = Vec::new();
    match r {
        Response::Pong => push_str_chars(&mut out, "\"Pong\""),
        Response::Stopping => push_str_chars(&mut out, "\"Stopping\""),
        Response::UpdateTriggered => push_str_chars(&mut out, "\"UpdateTriggered\""),
        Response::Error(m) => {
            push_str_chars(&mut out, "{\"Error\":");
            push_json_string(&mut out, m.as_str());
            push_str_chars(&mut out, "}");
        },
        Response::UpdateResult { success, message } => {
            push_str_chars(&mut out, "{\"UpdateResult\":{\"success\":");
            push_json_bool(&mut out, *success);
            push_str_chars(&mut out, ",\"message\":");
            push_json_string(&mut out, message.as_str());
            push_str_chars(&mut out, "}}");
        },
        Response::Log(l) => {
            push_str_chars(&mut out, "{\"Log\":{\"level\":");
            push_json_string(&mut out, l.level.as_str());
            push_str_chars(&mut out, ",\"message\":");
            push_json_string(&mut out, l.message.as_str());
            push_str_chars(&mut out, ",\"timestamp\":");
            push_json_string(&mut out, l.timestamp.as_str());
            push_str_chars(&mut out, "}}");
        },
        Response::Status(st) => {
            push_str_chars(&mut out, "{\"Status\":");
            push_status_body(&mut out, st);
            push_str_chars(&mut out, "}");
            proof {
                assert(out@ =~= response_text(response_model(*r)));
            }
        },
    }
    out.push('\n');
    proof {
        assert(out@ =~= response_frame(response_model(*r)));
    }
    string_from_chars(&out)
}

// ------------------------------------------------------------------
// Reading frames back.

/// Whether `c` is a lowercase hexadecimal digit.
pub open spec fn is_hex_digit(c: char) -> bool {
    (48 <= c as u32 <= 57) || (97 <= c as u32 <= 102)
}

/// The value of a lowercase hexadecimal digit.
pub open spec fn hex_val(c: char) -> nat {
    if 48 <= c as u32 <= 57 {
        (c as u32 - 48) as nat
    } else {
        (c as u32 - 87) as nat
    }
}

/// What a two-character escape stands for, if it is one.
pub open spec fn unescape_simple(e: char) -> Option<char> {
    if e == '"' {
        Some('"')
    } else if e == '\\' {
        Some('\\')
    } else if e == '/' {
        Some('/')
    } else if e == 'b' {
        Some('\u{8}')
    } else if e == 't' {
        Some('\t')
    } else if e == 'n' {
        Some('\n')
    } else if e == 'f' {
        Some('\u{c}')
    } else if e == 'r' {
        Some('\r')
    } else {
        None
    }
}

/// Reads a JSON string's content, starting after the opening quote:
/// the decoded characters and what follows the closing quote. Raw
/// control characters, unknown escapes and a missing closing quote are
/// rejected; `\u` escapes are accepted in the canonical `\u00XX` form.
pub open spec fn parse_string_body(t: Seq<char>) -> Option<(Seq<char>, Seq<char>)>
    decreases t.len(),
{
    if t.len() == 0 {
        None
    } else if t[0] == '"' {
        Some((Seq::empty(), t.drop_first()))
    } else if t[0] == '\\' {
        if t.len() < 2 {
            None
        } else if t[1] == 'u' {
            if t.len() < 6 {
                None
            } else if t[2] == '0' && t[3] == '0' && is_hex_digit(t[4]) && is_hex_digit(t[5]) {
                match parse_string_body(t.skip(6)) {
                    Some((cs, rest)) => Some(
                        (seq![(((16 * hex_val(t[4]) + hex_val(t[5])) as u8) as char)] + cs, rest),
                    ),
                    None => None,
                }
            } else {
                None
            }
        } else {
            match unescape_simple(t[1]) {
                Some(c) => match parse_string_body(t.skip(2)) {
                    Some((cs, rest)) => Some((seq![c] + cs, rest)),
                    None => None,
                },
                None => None,
            }
        }
    } else if (t[0] as u32) < 32 {
        None
    } else {
        match parse_string_body(t.drop_first()) {
            Some((cs, rest)) => Some((seq![t[0]] + cs, rest)),
            None => None,
        }
    }
}

/// Whether `p` is a prefix of `t`.
pub open spec fn starts_with(t: Seq<char>, p: Seq<char>) -> bool {
    t.len() >= p.len() && t.subrange(0, p.len() as int) == p
}

/// Reads a JSON boolean literal and what follows it.
pub open spec fn parse_json_bool(t: Seq<char>) -> Option<(bool, Seq<char>)> {
    if starts_with(t, "true"@) {
        Some((true, t.skip("true"@.len() as int)))
    } else if starts_with(t, "false"@) {
        Some((false, t.skip("false"@.len() as int)))
    } else {
        None
    }
}

/// Reads `null` or a JSON string, and what follows it.
pub open spec fn parse_opt_string(t: Seq<char>) -> Option<(Option<Seq<char>>, Seq<char>)> {
    if starts_with(t, "null"@) {
        Some((None, t.skip("null"@.len() as int)))
    } else if t.len() >= 1 && t[0] == '"' {
        match parse_string_body(t.drop_first()) {
            Some((s, rest)) => Some((Some(s), rest)),
            None => None,
        }
    } else {
        None
    }
}

/// Whether `c` is a decimal digit.
pub open spec fn is_ascii_digit(c: char) -> bool {
    48 <= c as u32 <= 57
}

/// The value of a decimal digit.
pub open spec fn digit_val(c: char) -> nat {
    (c as u32 - 48) as nat
}

/// How many decimal digits `t` begins with.
pub open spec fn digit_run_len(t: Seq<char>) -> nat
    decreases t.len(),
{
    if t.len() == 0 || !is_ascii_digit(t[0]) {
        0
    } else {
        1 + digit_run_len(t.drop_first())
    }
}

/// The value of an all-digit text, most significant digit first.
pub open spec fn digits_value(t: Seq<char>) -> nat
    decreases t.len(),
{
    if t.len() == 0 {
        0
    } else {
        digits_value(t.drop_last()) * 10 + digit_val(t.last())
    }
}

/// Reads a decimal number of at most nine digits and what follows it;
/// anything longer is rejected.
pub open spec fn parse_number(t: Seq<char>) -> Option<(nat, Seq<char>)> {
    let k = digit_run_len(t);
    if 1 <= k <= 9 {
        Some((digits_value(t.subrange(0, k as int)), t.skip(k as int)))
    } else {
        None
    }
}

/// Reads the payload after `{"Error":"`.
pub open spec fn parse_error_payload(t: Seq<char>) -> Option<ResponseModel> {
    match parse_string_body(t) {
        Some((s, rest)) => if rest == "}"@ {
            Some(ResponseModel::Error(s))
        } else {
            None
        },
        None => None,
    }
}

/// Reads the payload after `{"UpdateResult":{"success":`.
pub open spec fn parse_update_result_payload(t: Seq<char>) -> Option<ResponseModel> {
    match parse_json_bool(t) {
        Some((b, r1)) => if starts_with(r1, ",\"message\":\""@) {
            match parse_string_body(r1.skip(",\"message\":\""@.len() as int)) {
                Some((m, r2)) => if r2 == "}}"@ {
                    Some(ResponseModel::UpdateResult { success: b, message: m })
                } else {
                    None
                },
                None => None,
            }
        } else {
            None
        },
        None => None,
    }
}

/// Reads the payload after `{"Log":{"level":"`.
pub open spec fn parse_log_payload(t: Seq<char>) -> Option<ResponseModel> {
    match parse_string_body(t) {
        Some((level, r1)) => if starts_with(r1, ",\"message\":\""@) {
            match parse_string_body(r1.skip(",\"message\":\""@.len() as int)) {
                Some((message, r2)) => if starts_with(r2, ",\"timestamp\":\""@) {
                    match parse_string_body(r2.skip(",\"timestamp\":\""@.len() as int)) {
                        Some((timestamp, r3)) => if r3 == "}}"@ {
                            Some(ResponseModel::Log { level, message, timestamp })
                        } else {
                            None
                        },
                        None => None,
                    }
                } else {
                    None
                },
                None => None,
            }
        } else {
            None
        },
        None => None,
    }
}

/// Reads the payload after `{"Status":{"running":`.
pub open spec fn parse_status_payload(t: Seq<char>) -> Option<ResponseModel> {
    match parse_json_bool(t) {
        None => None,
        Some((running, r1)) => if starts_with(r1, ",\"cron\":\""@) {
            match parse_string_body(r1.skip(",\"cron\":\""@.len() as int)) {
                None => None,
                Some((cron, r2)) => if starts_with(r2, ",\"last_update\":"@) {
                    match parse_opt_string(r2.skip(",\"last_update\":"@.len() as int)) {
                        None => None,
                        Some((last_update, r3)) => if starts_with(r3, ",\"last_result\":"@) {
                            match parse_opt_string(r3.skip(",\"last_result\":"@.len() as int)) {
                                None => None,
                                Some((last_result, r4)) => if starts_with(
                                    r4,
                                    ",\"current_ip\":"@,
                                ) {
                                    match parse_opt_string(r4.skip(",\"current_ip\":"@.len() as int)) {
                                        None => None,
                                        Some((current_ip, r5)) => if starts_with(
                                            r5,
                                            ",\"record_count\":"@,
                                        ) {
                                            match parse_number(
                                                r5.skip(",\"record_count\":"@.len() as int),
                                            ) {
                                                None => None,
                                                Some((record_count, r6)) => if starts_with(
                                                    r6,
                                                    ",\"next_run\":"@,
                                                ) {
                                                    match parse_opt_string(
                                                        r6.skip(",\"next_run\":"@.len() as int),
                                                    ) {
                                                        None => None,
                                                        Some((next_run, r7)) => if r7 == "}}"@ {
                                                            Some(
                                                                ResponseModel::Status(
                                                                    StatusModel {
                                                                        running,
                                                                        cron,
                                                                        last_update,
                                                                        last_result,
                                                                        current_ip,
                                                                        record_count,
                                                                        next_run,
                                                                    },
                                                                ),
                                                            )
                                                        } else {
                                                            None
                                                        },
                                                    }
                                                } else {
                                                    None
                                                },
                                            }
                                        } else {
                                            None
                                        },
                                    }
                                } else {
                                    None
                                },
                            }
                        } else {
                            None
                        },
                    }
                } else {
                    None
                },
            }
        } else {
            None
        },
    }
}

/// Reads a whole response frame: newline-terminated, then the canonical
/// value, tried variant by variant.
pub open spec fn parse_response_frame(t: Seq<char>) -> Option<ResponseModel> {
    if t.len() == 0 || t.last() != '\n' {
        None
    } else {
        let body = t.drop_last();
        if body == "\"Pong\""@ {
            Some(ResponseModel::Pong)
        } else if body == "\"Stopping\""@ {
            Some(ResponseModel::Stopping)
        } else if body == "\"UpdateTriggered\""@ {
            Some(ResponseModel::UpdateTriggered)
        } else if starts_with(body, "{\"Error\":\""@) {
            parse_error_payload(body.skip("{\"Error\":\""@.len() as int))
        } else if starts_with(body, "{\"UpdateResult\":{\"success\":"@) {
            parse_update_result_payload(body.skip("{\"UpdateResult\":{\"success\":"@.len() as int))
        } else if starts_with(body, "{\"Log\":{\"level\":\""@) {
            parse_log_payload(body.skip("{\"Log\":{\"level\":\""@.len() as int))
        } else if starts_with(body, "{\"Status\":{\"running\":"@) {
            parse_status_payload(body.skip("{\"Status\":{\"running\":"@.len() as int))
        } else {
            None
        }
    }
}

/// Powers of ten.
pub open spec fn pow10(k: nat) -> nat
    decreases k,
{
    if k == 0 {
        1
    } else {
        10 * pow10((k - 1) as nat)
    }
}

/// Powers of ten grow with the exponent.
proof fn lemma_pow10_le(a: nat, b: nat)
    requires
        a <= b,
    ensures
        pow10(a) <= pow10(b),
    decreases b,
{
    if a < b {
        lemma_pow10_le(a, (b - 1) as nat);
    }
}

/// An all-digit text of `n` characters is worth less than ten to the `n`.
proof fn lemma_digits_value_bound(t: Seq<char>)
    requires
        forall|q: int| 0 <= q < t.len() ==> is_ascii_digit(#[trigger] t[q]),
    ensures
        digits_value(t) < pow10(t.len()),
    decreases t.len(),
{
    if t.len() > 0 {
        lemma_digits_value_bound(t.drop_last());
        assert(digit_val(t.last()) <= 9);
    }
}

/// The value of a lowercase hexadecimal digit, as executable code.
fn hex_val_of(c: char) -> (r: Option<u8>)
    ensures
        match r {
            Some(x) => is_hex_digit(c) && x == hex_val(c) && x < 16,
            None => !is_hex_digit(c),
        },
{
    let u = c as u32;
    if 48 <= u && u <= 57 {
        Some((u - 48) as u8)
    } else if 97 <= u && u <= 102 {
        Some((u - 87) as u8)
    } else {
        None
    }
}

/// The value of a decimal digit, as executable code.
fn digit_val_of(c: char) -> (r: Option<u8>)
    ensures
        match r {
            Some(x) => is_ascii_digit(c) && x == digit_val(c) && x <= 9,
            None => !is_ascii_digit(c),
        },
{
    let u = c as u32;
    if 48 <= u && u <= 57 {
        Some((u - 48) as u8)
    } else {
        None
    }
}

/// What a two-character escape stands for, as executable code.
fn unescape_simple_of(e: char) -> (r: Option<char>)
    ensures
        r == unescape_simple(e),
{
    if e == '"' {
        Some('"')
    } else if e == '\\' {
        Some('\\')
    } else if e == '/' {
        Some('/')
    } else if e == 'b' {
        Some('\u{8}')
    } else if e == 't' {
        Some('\t')
    } else if e == 'n' {
        Some('\n')
    } else if e == 'f' {
        Some('\u{c}')
    } else if e == 'r' {
        Some('\r')
    } else {
        None
    }
}

/// Tries to read `p` at position `i` of `v[..end]`; on success, returns
/// the position just past it.
fn match_prefix(v: &Vec<char>, i: usize, end: usize, p: &str) -> (r: Option<usize>)
    requires
        i <= end <= v@.len(),
    ensures
        match r {
            Some(j) => {
                &&& i <= j <= end
                &&& j == i + p@.len()
                &&& starts_with(v@.subrange(i as int, end as int), p@)
                &&& v@.subrange(j as int, end as int) == v@.subrange(i as int, end as int).skip(
                    p@.len() as int,
                )
            },
            None => !starts_with(v@.subrange(i as int, end as int), p@),
        },
{
    let ghost t = v@.subrange(i as int, end as int);
    let m = p.unicode_len();
    if end - i < m {
        return None;
    }
    for k in 0..m
        invariant
            i <= end <= v@.len(),
            m == p@.len(),
            m <= end - i,
            t == v@.subrange(i as int, end as int),
            forall|q: int| 0 <= q < k ==> t[q] == p@[q],
    {
        let c = v[i + k];
        proof {
            assert(t[k as int] == c);
        }
        if c != p.get_char(k) {
            proof {
                if starts_with(t, p@) {
                    assert(t.subrange(0, m as int)[k as int] == t[k as int]);
                }
            }
            return None;
        }
    }
    proof {
        assert(t.subrange(0, m as int) =~= p@);
        assert(v@.subrange(i + m, end as int) =~= t.skip(m as int));
    }
    Some(i + m)
}

/// Whether `v[i..end]` is exactly the text `p`.
fn range_eq(v: &Vec<char>, i: usize, end: usize, p: &str) -> (b: bool)
    requires
        i <= end <= v@.len(),
    ensures
        b == (v@.subrange(i as int, end as int) == p@),
{
    let ghost t = v@.subrange(i as int, end as int);
    match match_prefix(v, i, end, p) {
        Some(j) => {
            if j == end {
                proof {
                    assert(t.subrange(0, p@.len() as int) =~= t);
                }
                true
            } else {
                proof {
                    assert(t.len() != p@.len());
                }
                false
            }
        },
        None => {
            proof {
                if t == p@ {
                    assert(t.subrange(0, p@.len() as int) =~= t);
                }
            }
            false
        },
    }
}

/// Reads a JSON string's content from position `i` of `v[..end]`,
/// starting after the opening quote.
fn parse_string_body_at(v: &Vec<char>, i: usize, end: usize) -> (r: Option<(Vec<char>, usize)>)
    requires
        i <= end <= v@.len(),
    ensures
        match r {
            Some(cj) => i <= cj.1 <= end && parse_string_body(v@.subrange(i as int, end as int))
                == Some((cj.0@, v@.subrange(cj.1 as int, end as int))),
            None => parse_string_body(v@.subrange(i as int, end as int)) is None,
        },
{
    let ghost t_full = v@.subrange(i as int, end as int);
    let mut content: Vec<char> = Vec::new();
    let mut pos = i;
    loop
        invariant
            i <= pos <= end <= v@.len(),
            t_full == v@.subrange(i as int, end as int),
            ({
                let pres = parse_string_body(v@.subrange(pos as int, end as int));
                match pres {
                    Some((cs, rest)) => parse_string_body(t_full) == Some((content@ + cs, rest)),
                    None => parse_string_body(t_full) is None,
                }
            }),
        decreases end - pos,
    {
        let ghost t_cur = v@.subrange(pos as int, end as int);
        if pos == end {
            return None;
        }
        let c = v[pos];
        proof {
            assert(t_cur[0] == c);
        }
        if c == '"' {
            proof {
                assert(t_cur.drop_first() =~= v@.subrange(pos + 1, end as int));
                assert(content@ + Seq::<char>::empty() =~= content@);
            }
            return Some((content, pos + 1));
        }
        if c == '\\' {
            if end - pos < 2 {
                return None;
            }
            let e = v[pos + 1];
            proof {
                assert(t_cur[1] == e);
            }
            if e == 'u' {
                if end - pos < 6 {
                    return None;
                }
                proof {
                    assert(t_cur[2] == v@[pos + 2]);
                    assert(t_cur[3] == v@[pos + 3]);
                    assert(t_cur[4] == v@[pos + 4]);
                    assert(t_cur[5] == v@[pos + 5]);
                }
                if v[pos + 2] != '0' || v[pos + 3] != '0' {
                    return None;
                }
                let x1 = match hex_val_of(v[pos + 4]) {
                    Some(x) => x,
                    None => {
                        return None;
                    },
                };
                let x2 = match hex_val_of(v[pos + 5]) {
                    Some(x) => x,
                    None => {
                        return None;
                    },
                };
                let code: u8 = 16 * x1 + x2;
                let decoded = code as char;
                proof {
                    assert(t_cur.skip(6) =~= v@.subrange(pos + 6, end as int));
                    let pn = parse_string_body(v@.subrange(pos + 6, end as int));
                    match pn {
                        Some((cs, rest)) => {
                            assert(parse_string_body(t_cur) == Some((seq![decoded] + cs, rest)));
                            assert(content@ + (seq![decoded] + cs) =~= (content@ + seq![decoded])
                                + cs);
                        },
                        None => {},
                    }
                }
                content.push(decoded);
                pos = pos + 6;
            } else {
                match unescape_simple_of(e) {
                    None => {
                        return None;
                    },
                    Some(u) => {
                        proof {
                            assert(t_cur.skip(2) =~= v@.subrange(pos + 2, end as int));
                            let pn = parse_string_body(v@.subrange(pos + 2, end as int));
                            match pn {
                                Some((cs, rest)) => {
                                    assert(parse_string_body(t_cur) == Some(
                                        (seq![u] + cs, rest),
                                    ));
                                    assert(content@ + (seq![u] + cs) =~= (content@ + seq![u])
                                        + cs);
                                },
                                None => {},
                            }
                        }
                        content.push(u);
                        pos = pos + 2;
                    },
                }
            }
        } else if (c as u32) < 32 {
            return None;
        } else {
            proof {
                assert(t_cur.drop_first() =~= v@.subrange(pos + 1, end as int));
                let pn = parse_string_body(v@.subrange(pos + 1, end as int));
                match pn {
                    Some((cs, rest)) => {
                        assert(parse_string_body(t_cur) == Some((seq![c] + cs, rest)));
                        assert(content@ + (seq![c] + cs) =~= (content@ + seq![c]) + cs);
                    },
                    None => {},
                }
            }
            content.push(c);
            pos = pos + 1;
        }
    }
}

/// Reads a JSON boolean literal at position `i` of `v[..end]`.
fn parse_bool_at(v: &Vec<char>, i: usize, end: usize) -> (r: Option<(bool, usize)>)
    requires
        i <= end <= v@.len(),
    ensures
        match r {
            Some(bj) => i <= bj.1 <= end && parse_json_bool(v@.subrange(i as int, end as int))
                == Some((bj.0, v@.subrange(bj.1 as int, end as int))),
            None => parse_json_bool(v@.subrange(i as int, end as int)) is None,
        },
{
    if let Some(j) = match_prefix(v, i, end, "true") {
        return Some((true, j));
    }
    if let Some(j) = match_prefix(v, i, end, "false") {
        return Some((false, j));
    }
    None
}

/// Reads `null` or a JSON string at position `i` of `v[..end]`.
fn parse_opt_string_at(v: &Vec<char>, i: usize, end: usize) -> (r: Option<(Option<String>, usize)>)
    requires
        i <= end <= v@.len(),
    ensures
        match r {
            Some(sj) => i <= sj.1 <= end && parse_opt_string(v@.subrange(i as int, end as int))
                == Some((opt_view(sj.0), v@.subrange(sj.1 as int, end as int))),
            None => parse_opt_string(v@.subrange(i as int, end as int)) is None,
        },
{
    let ghost t = v@.subrange(i as int, end as int);
    if let Some(j) = match_prefix(v, i, end, "null") {
        return Some((None, j));
    }
    if i < end && v[i] == '"' {
        proof {
            assert(t[0] == '"');
            assert(t.drop_first() =~= v@.subrange(i + 1, end as int));
        }
        match parse_string_body_at(v, i + 1, end) {
            Some((content, j)) => {
                let s = string_from_chars(&content);
                return Some((Some(s), j));
            },
            None => {
                return None;
            },
        }
    }
    None
}

/// Reads a decimal number of at most nine digits at position `i` of
/// `v[..end]`.
fn parse_number_at(v: &Vec<char>, i: usize, end: usize) -> (r: Option<(usize, usize)>)
    requires
        i <= end <= v@.len(),
    ensures
        match r {
            Some(nj) => i <= nj.1 <= end && parse_number(v@.subrange(i as int, end as int))
                == Some((nj.0 as nat, v@.subrange(nj.1 as int, end as int))),
            None => parse_number(v@.subrange(i as int, end as int)) is None,
        },
{
    let ghost t = v@.subrange(i as int, end as int);
    let mut j = i;
    let mut value: u64 = 0;
    loop
        invariant_except_break
            i <= j <= end <= v@.len(),
            t == v@.subrange(i as int, end as int),
            forall|q: int| i <= q < j ==> is_ascii_digit(#[trigger] v@[q]),
            digit_run_len(t) == (j - i) + digit_run_len(v@.subrange(j as int, end as int)),
            value == digits_value(v@.subrange(i as int, j as int)),
            j - i <= 9,
            value < 1000000000,
        ensures
            i <= j <= end,
            forall|q: int| i <= q < j ==> is_ascii_digit(#[trigger] v@[q]),
            digit_run_len(t) == j - i,
            value == digits_value(v@.subrange(i as int, j as int)),
            j - i <= 9,
            value < 1000000000,
        decreases end - j,
    {
        proof {
            assert(t.subrange(0, 0) =~= Seq::<char>::empty());
        }
        if j == end {
            proof {
                assert(v@.subrange(j as int, end as int).len() == 0);
            }
            break;
        }
        let ghost t_rest = v@.subrange(j as int, end as int);
        let c = v[j];
        proof {
            assert(t_rest[0] == c);
        }
        match digit_val_of(c) {
            None => {
                break;
            },
            Some(d) => {
                if j - i == 9 {
                    // a tenth digit: the run is too long
                    proof {
                        assert(digit_run_len(t) > 9);
                    }
                    return None;
                }
                proof {
                    assert(t_rest.drop_first() =~= v@.subrange(j + 1, end as int));
                    assert(digit_run_len(t_rest) == 1 + digit_run_len(
                        v@.subrange(j + 1, end as int),
                    ));
                    let prefix = v@.subrange(i as int, j + 1);
                    assert(prefix.drop_last() =~= v@.subrange(i as int, j as int));
                    assert(prefix.last() == c);
                    lemma_digits_value_bound(v@.subrange(i as int, j as int));
                    lemma_pow10_le(v@.subrange(i as int, j as int).len(), 8);
                    assert(pow10(8) == 100000000) by {
                        reveal_with_fuel(pow10, 9);
                    }
                    assert(value < 100000000);
                }
                value = value * 10 + d as u64;
                assert(value < 1000000000);
                j = j + 1;
            },
        }
    }
    if j == i {
        return None;
    }
    proof {
        assert(t.subrange(0, (j - i) as int) =~= v@.subrange(i as int, j as int));
        assert(t.skip((j - i) as int) =~= v@.subrange(j as int, end as int));
    }
    Some((value as usize, j))
}

/// Reads a whole command frame: exactly one of the four canonical frames.
pub open spec fn parse_command_frame(t: Seq<char>) -> Option<Command> {
    if t == command_frame(Command::GetStatus) {
        Some(Command::GetStatus)
    } else if t == command_frame(Command::TriggerUpdate) {
        Some(Command::TriggerUpdate)
    } else if t == command_frame(Command::Stop) {
        Some(Command::Stop)
    } else if t == command_frame(Command::Ping) {
        Some(Command::Ping)
    } else {
        None
    }
}

/// Whether two texts are equal.
fn str_eq(a: &str, b: &str) -> (r: bool)
    ensures
        r == (a@ == b@),
{
    let v = str_chars(a);
    let n = v.len();
    let e = range_eq(&v, 0, n, b);
    proof {
        assert(v@.subrange(0, n as int) =~= a@);
    }
    e
}

/// Reads one command frame; anything but the four canonical frames is
/// rejected.
pub fn parse_command(s: &str) -> (r: Option<Command>)
    ensures
        r == parse_command_frame(s@),
{
    if str_eq(s, "\"GetStatus\"\n") {
        Some(Command::GetStatus)
    } else if str_eq(s, "\"TriggerUpdate\"\n") {
        Some(Command::TriggerUpdate)
    } else if str_eq(s, "\"Stop\"\n") {
        Some(Command::Stop)
    } else if str_eq(s, "\"Ping\"\n") {
        Some(Command::Ping)
    } else {
        None
    }
}

/// Reads the `Error` payload at position `i` of `v[..end]`.
fn parse_error_at(v: &Vec<char>, i: usize, end: usize) -> (r: Option<Response>)
    requires
        i <= end <= v@.len(),
    ensures
        match r {
            Some(resp) => parse_error_payload(v@.subrange(i as int, end as int)) == Some(
                response_model(resp),
            ),
            None => parse_error_payload(v@.subrange(i as int, end as int)) is None,
        },
{
    match parse_string_body_at(v, i, end) {
        Some((content, j)) => {
            if range_eq(v, j, end, "}") {
                Some(Response::Error(string_from_chars(&content)))
            } else {
                None
            }
        },
        None => None,
    }
}

/// Reads the `UpdateResult` payload at position `i` of `v[..end]`.
fn parse_update_result_at(v: &Vec<char>, i: usize, end: usize) -> (r: Option<Response>)
    requires
        i <= end <= v@.len(),
    ensures
        match r {
            Some(resp) => parse_update_result_payload(v@.subrange(i as int, end as int)) == Some(
                response_model(resp),
            ),
            None => parse_update_result_payload(v@.subrange(i as int, end as int)) is None,
        },
{
    match parse_bool_at(v, i, end) {
        Some((b, j1)) => {
            if let Some(j2) = match_prefix(v, j1, end, ",\"message\":\"") {
                match parse_string_body_at(v, j2, end) {
                    Some((content, j3)) => {
                        if range_eq(v, j3, end, "}}") {
                            Some(
                                Response::UpdateResult {
                                    success: b,
                                    message: string_from_chars(&content),
                                },
                            )
                        } else {
                            None
                        }
                    },
                    None => None,
                }
            } else {
                None
            }
        },
        None => None,
    }
}

/// Reads the `Log` payload at position `i` of `v[..end]`.
fn parse_log_at(v: &Vec<char>, i: usize, end: usize) -> (r: Option<Response>)
    requires
        i <= end <= v@.len(),
    ensures
        match r {
            Some(resp) => parse_log_payload(v@.subrange(i as int, end as int)) == Some(
                response_model(resp),
            ),
            None => parse_log_payload(v@.subrange(i as int, end as int)) is None,
        },
{
    match parse_string_body_at(v, i, end) {
        Some((level, j1)) => {
            if let Some(j2) = match_prefix(v, j1, end, ",\"message\":\"") {
                match parse_string_body_at(v, j2, end) {
                    Some((message, j3)) => {
                        if let Some(j4) = match_prefix(v, j3, end, ",\"timestamp\":\"") {
                            match parse_string_body_at(v, j4, end) {
                                Some((timestamp, j5)) => {
                                    if range_eq(v, j5, end, "}}") {
                                        Some(
                                            Response::Log(
                                                LogMessage {
                                                    level: string_from_chars(&level),
                                                    message: string_from_chars(&message),
                                                    timestamp: string_from_chars(&timestamp),
                                                },
                                            ),
                                        )
                                    } else {
                                        None
                                    }
                                },
                                None => None,
                            }
                        } else {
                            None
                        }
                    },
                    None => None,
                }
            } else {
                None
            }
        },
        None => None,
    }
}

/// Reads the `Status` payload at position `i` of `v[..end]`.
fn parse_status_at(v: &Vec<char>, i: usize, end: usize) -> (r: Option<Response>)
    requires
        i <= end <= v@.len(),
    ensures
        match r {
            Some(resp) => parse_status_payload(v@.subrange(i as int, end as int)) == Some(
                response_model(resp),
            ),
            None => parse_status_payload(v@.subrange(i as int, end as int)) is None,
        },
{
    let running;
    let j1;
    match parse_bool_at(v, i, end) {
        Some((b, j)) => {
            running = b;
            j1 = j;
        },
        None => {
            return None;
        },
    }
    let j2 = match match_prefix(v, j1, end, ",\"cron\":\"") {
        Some(j) => j,
        None => {
            return None;
        },
    };
    let cron;
    let j3;
    match parse_string_body_at(v, j2, end) {
        Some((c, j)) => {
            cron = c;
            j3 = j;
        },
        None => {
            return None;
        },
    }
    let j4 = match match_prefix(v, j3, end, ",\"last_update\":") {
        Some(j) => j,
        None => {
            return None;
        },
    };
    let last_update;
    let j5;
    match parse_opt_string_at(v, j4, end) {
        Some((o, j)) => {
            last_update = o;
            j5 = j;
        },
        None => {
            return None;
        },
    }
    let j6 = match match_prefix(v, j5, end, ",\"last_result\":") {
        Some(j) => j,
        None => {
            return None;
        },
    };
    let last_result;
    let j7;
    match parse_opt_string_at(v, j6, end) {
        Some((o, j)) => {
            last_result = o;
            j7 = j;
        },
        None => {
            return None;
        },
    }
    let j8 = match match_prefix(v, j7, end, ",\"current_ip\":") {
        Some(j) => j,
        None => {
            return None;
        },
    };
    let current_ip;
    let j9;
    match parse_opt_string_at(v, j8, end) {
        Some((o, j)) => {
            current_ip = o;
            j9 = j;
        },
        None => {
            return None;
        },
    }
    let j10 = match match_prefix(v, j9, end, ",\"record_count\":") {
        Some(j) => j,
        None => {
            return None;
        },
    };
    let record_count;
    let j11;
    match parse_number_at(v, j10, end) {
        Some((n, j)) => {
            record_count = n;
            j11 = j;
        },
        None => {
            return None;
        },
    }
    let j12 = match match_prefix(v, j11, end, ",\"next_run\":") {
        Some(j) => j,
        None => {
            return None;
        },
    };
    let next_run;
    let j13;
    match parse_opt_string_at(v, j12, end) {
        Some((o, j)) => {
            next_run = o;
            j13 = j;
        },
        None => {
            return None;
        },
    }
    if range_eq(v, j13, end, "}}") {
        Some(
            Response::Status(
                ServiceStatus {
                    running,
                    cron: string_from_chars(&cron),
                    last_update,
                    last_result,
                    current_ip,
                    record_count,
                    next_run,
                },
            ),
        )
    } else {
        None
    }
}

/// Reads one response frame; anything but a canonical frame is rejected.
pub fn parse_response(s: &str) -> (r: Option<Response>)
    ensures
        match r {
            Some(resp) => parse_response_frame(s@) == Some(response_model(resp)),
            None => parse_response_frame(s@) is None,
        },
{
    let v = str_chars(s);
    let n = v.len();
    if n == 0 {
        return None;
    }
    let last = v[n - 1];
    proof {
        assert(s@.last() == last);
    }
    if last != '\n' {
        return None;
    }
    let end = n - 1;
    proof {
        assert(s@.drop_last() =~= v@.subrange(0, end as int));
    }
    if range_eq(&v, 0, end, "\"Pong\"") {
        return Some(Response::Pong);
    }
    if range_eq(&v, 0, end, "\"Stopping\"") {
        return Some(Response::Stopping);
    }
    if range_eq(&v, 0, end, "\"UpdateTriggered\"") {
        return Some(Response::UpdateTriggered);
    }
    if let Some(j) = match_prefix(&v, 0, end, "{\"Error\":\"") {
        return parse_error_at(&v, j, end);
    }
    if let Some(j) = match_prefix(&v, 0, end, "{\"UpdateResult\":{\"success\":") {
        return parse_update_result_at(&v, j, end);
    }
    if let Some(j) = match_prefix(&v, 0, end, "{\"Log\":{\"level\":\"") {
        return parse_log_at(&v, j, end);
    }
    if let Some(j) = match_prefix(&v, 0, end, "{\"Status\":{\"running\":") {
        return parse_status_at(&v, j, end);
    }
    None
}

// ------------------------------------------------------------------
// Round trips: reading back what was written yields the same value.

/// A text that differs from `p` at some position is not prefixed by `p`.
proof fn lemma_not_starts_with(t: Seq<char>, p: Seq<char>, k: int)
    requires
        0 <= k < p.len(),
        k < t.len() ==> t[k] != p[k],
    ensures
        !starts_with(t, p),
{
    if starts_with(t, p) {
        assert(t.subrange(0, p.len() as int)[k] == p[k]);
    }
}

/// The hexadecimal digit characters decode to their values.
proof fn lemma_hex_digit_inverse(d: nat)
    requires
        d < 16,
    ensures
        is_hex_digit(hex_digit_char(d)),
        hex_val(hex_digit_char(d)) == d,
{
}

/// Reading an escaped text followed by the closing quote yields the
/// original text and what follows the quote.
proof fn lemma_parse_escaped(s: Seq<char>, rest: Seq<char>)
    ensures
        parse_string_body(escape_text(s) + seq!['"'] + rest) == Some((s, rest)),
    decreases s.len(),
{
    let t = escape_text(s) + seq!['"'] + rest;
    if s.len() == 0 {
        assert(t =~= seq!['"'] + rest);
        assert(t[0] == '"');
        assert(t.drop_first() =~= rest);
    } else {
        let c = s[0];
        let tail = s.drop_first();
        assert(s =~= seq![c] + tail);
        lemma_escape_text_concat(seq![c], tail);
        assert(escape_text(seq![c]) == escape_char(c)) by {
            assert(seq![c].len() == 1);
            assert(seq![c].drop_last() =~= Seq::<char>::empty());
            assert(seq![c].last() == c);
            assert(escape_text(seq![c]) == escape_text(Seq::<char>::empty()) + escape_char(c));
            assert(escape_text(Seq::<char>::empty()) == Seq::<char>::empty());
            assert(Seq::<char>::empty() + escape_char(c) =~= escape_char(c));
        }
        let t2 = escape_text(tail) + seq!['"'] + rest;
        lemma_parse_escaped(tail, rest);
        assert(t =~= escape_char(c) + t2);
        if c == '"' || c == '\\' || c == '\u{8}' || c == '\t' || c == '\n' || c == '\u{c}' || c
            == '\r' {
            assert(t[0] == '\\');
            assert(t.skip(2) =~= t2);
            assert(parse_string_body(t) == Some((seq![c] + tail, rest)));
            assert(seq![c] + tail =~= s);
        } else if (c as u32) < 32 {
            let hi = hex_digit_char(((c as u32) / 16) as nat);
            let lo = hex_digit_char(((c as u32) % 16) as nat);
            assert(t[0] == '\\' && t[1] == 'u' && t[2] == '0' && t[3] == '0' && t[4] == hi && t[5]
                == lo);
            lemma_hex_digit_inverse(((c as u32) / 16) as nat);
            lemma_hex_digit_inverse(((c as u32) % 16) as nat);
            assert(16 * hex_val(hi) + hex_val(lo) == c as u32);
            vstd::utf8::char_u32_cast(c, c as u32);
            assert((((c as u32) as u8) as char) == c);
            assert((16 * hex_val(hi) + hex_val(lo)) as u8 == (c as u32) as u8);
            assert((((16 * hex_val(hi) + hex_val(lo)) as u8) as char) == c);
            assert(t.skip(6) =~= t2);
            assert(parse_string_body(t) == Some((seq![c] + tail, rest)));
            assert(seq![c] + tail =~= s);
        } else {
            assert(t[0] == c);
            assert(t[0] != '"' && t[0] != '\\');
            assert(t.drop_first() =~= t2);
            assert(parse_string_body(t) == Some((seq![c] + tail, rest)));
            assert(seq![c] + tail =~= s);
        }
    }
}

/// Reading a boolean literal followed by `rest` yields the boolean and
/// `rest`.
proof fn lemma_parse_bool(b: bool, rest: Seq<char>)
    ensures
        parse_json_bool(json_bool(b) + rest) == Some((b, rest)),
{
    reveal_strlit("true");
    reveal_strlit("false");
    let t = json_bool(b) + rest;
    if b {
        assert(t.subrange(0, 4) =~= "true"@);
        assert(t.skip(4) =~= rest);
    } else {
        lemma_not_starts_with(t, "true"@, 0);
        assert(t.subrange(0, 5) =~= "false"@);
        assert(t.skip(5) =~= rest);
    }
}

/// Reading an optional string followed by `rest` yields the value and
/// `rest`.
proof fn lemma_parse_opt(o: Option<Seq<char>>, rest: Seq<char>)
    ensures
        parse_opt_string(json_opt_string(o) + rest) == Some((o, rest)),
{
    reveal_strlit("null");
    let t = json_opt_string(o) + rest;
    match o {
        None => {
            assert(t.subrange(0, 4) =~= "null"@);
            assert(t.skip(4) =~= rest);
        },
        Some(s) => {
            assert(t[0] == '"');
            lemma_not_starts_with(t, "null"@, 0);
            assert(t.drop_first() =~= escape_text(s) + seq!['"'] + rest);
            lemma_parse_escaped(s, rest);
        },
    }
}

/// The decimal digit characters decode to their values.
proof fn lemma_digit_inverse(d: nat)
    requires
        d < 10,
    ensures
        is_ascii_digit(digit_char(d)),
        digit_val(digit_char(d)) == d,
{
}

/// Decimal text is made of digits, is nonempty, and is worth its number.
proof fn lemma_decimal_text_facts(n: nat)
    ensures
        decimal_text(n).len() >= 1,
        forall|q: int| 0 <= q < decimal_text(n).len() ==> is_ascii_digit(
            #[trigger] decimal_text(n)[q],
        ),
        digits_value(decimal_text(n)) == n,
    decreases n,
{
    let d = decimal_text(n);
    if n < 10 {
        lemma_digit_inverse(n);
        assert(d == seq![digit_char(n)]);
        assert(d.drop_last() =~= Seq::<char>::empty());
        assert(d.last() == digit_char(n));
        assert(digits_value(Seq::<char>::empty()) == 0);
        assert(digits_value(d) == digits_value(d.drop_last()) * 10 + digit_val(d.last()));
        assert(digits_value(d) == n);
    } else {
        lemma_decimal_text_facts(n / 10);
        lemma_digit_inverse(n % 10);
        assert(d == decimal_text(n / 10) + seq![digit_char(n % 10)]);
        assert(d.drop_last() =~= decimal_text(n / 10));
        assert(d.last() == digit_char(n % 10));
        assert forall|q: int| 0 <= q < d.len() implies is_ascii_digit(d[q]) by {
            if q < d.len() - 1 {
                assert(d[q] == decimal_text(n / 10)[q]);
            } else {
                assert(d[q] == digit_char(n % 10));
            }
        }
    }
}

/// Short numbers have short decimal text.
proof fn lemma_decimal_text_len(n: nat, k: nat)
    requires
        1 <= k,
        n < pow10(k),
    ensures
        decimal_text(n).len() <= k,
    decreases k,
{
    if n < 10 {
    } else {
        assert(pow10(k) == 10 * pow10((k - 1) as nat));
        lemma_decimal_text_len(n / 10, (k - 1) as nat);
    }
}

/// The digit run of an all-digit text followed by a non-digit is exactly
/// that text.
proof fn lemma_digit_run(a: Seq<char>, b: Seq<char>)
    requires
        forall|q: int| 0 <= q < a.len() ==> is_ascii_digit(#[trigger] a[q]),
        b.len() > 0,
        !is_ascii_digit(b[0]),
    ensures
        digit_run_len(a + b) == a.len(),
    decreases a.len(),
{
    if a.len() == 0 {
        assert(a + b =~= b);
    } else {
        assert((a + b)[0] == a[0]);
        assert((a + b).drop_first() =~= a.drop_first() + b);
        lemma_digit_run(a.drop_first(), b);
    }
}

/// Reading a short decimal number followed by a non-digit yields the
/// number and the rest.
proof fn lemma_parse_decimal(n: nat, rest: Seq<char>)
    requires
        n < 1000000000,
        rest.len() > 0,
        !is_ascii_digit(rest[0]),
    ensures
        parse_number(decimal_text(n) + rest) == Some((n, rest)),
{
    let d = decimal_text(n);
    let t = d + rest;
    lemma_decimal_text_facts(n);
    assert(pow10(9) == 1000000000) by {
        reveal_with_fuel(pow10, 10);
    }
    lemma_decimal_text_len(n, 9);
    lemma_digit_run(d, rest);
    assert(t.subrange(0, d.len() as int) =~= d);
    assert(t.skip(d.len() as int) =~= rest);
}

/// A body that opens an object is none of the three bare-string frames.
proof fn lemma_object_body(body: Seq<char>)
    requires
        body.len() > 0,
        body[0] == '{',
    ensures
        body != "\"Pong\""@,
        body != "\"Stopping\""@,
        body != "\"UpdateTriggered\""@,
{
    reveal_strlit("\"Pong\"");
    reveal_strlit("\"Stopping\"");
    reveal_strlit("\"UpdateTriggered\"");
    if body == "\"Pong\""@ {
        assert(body[0] == ("\"Pong\""@)[0]);
    }
    if body == "\"Stopping\""@ {
        assert(body[0] == ("\"Stopping\""@)[0]);
    }
    if body == "\"UpdateTriggered\""@ {
        assert(body[0] == ("\"UpdateTriggered\""@)[0]);
    }
}

/// Reading back an encoded `Error` response yields it.
proof fn lemma_rt_error(s: Seq<char>)
    ensures
        parse_response_frame(response_frame(ResponseModel::Error(s))) == Some(
            ResponseModel::Error(s),
        ),
{
    let m = ResponseModel::Error(s);
    let body = "{\"Error\":"@ + json_string(s) + "}"@;
    let t = response_frame(m);
    reveal_strlit("{\"Error\":");
    reveal_strlit("{\"Error\":\"");
    reveal_strlit("}");
    assert(t.last() == '\n');
    assert(t.drop_last() =~= body);
    assert(body[0] == '{');
    lemma_object_body(body);
    let p = "{\"Error\":\""@;
    assert(p.len() == 10);
    assert(body.subrange(0, 10) =~= p);
    assert(starts_with(body, p));
    assert(body.skip(10) =~= escape_text(s) + seq!['"'] + "}"@);
    lemma_parse_escaped(s, "}"@);
}

/// Splitting a concatenation at its first part's length.
proof fn lemma_prefix_skip(a: Seq<char>, b: Seq<char>)
    ensures
        starts_with(a + b, a),
        (a + b).skip(a.len() as int) == b,
{
    assert((a + b).subrange(0, a.len() as int) =~= a);
    assert((a + b).skip(a.len() as int) =~= b);
}

/// A field whose value is a JSON string: the key text followed by the
/// opening quote is a prefix, and what follows it is the escaped content.
proof fn lemma_string_field(lit: Seq<char>, litq: Seq<char>, s: Seq<char>, rest: Seq<char>)
    requires
        litq == lit + seq!['"'],
    ensures
        starts_with(lit + (json_string(s) + rest), litq),
        (lit + (json_string(s) + rest)).skip(litq.len() as int) == escape_text(s) + seq!['"']
            + rest,
{
    let t = lit + (json_string(s) + rest);
    assert(t.subrange(0, litq.len() as int) =~= litq);
    assert(t.skip(litq.len() as int) =~= escape_text(s) + seq!['"'] + rest);
}

/// Reading back an encoded `UpdateResult` payload yields it.
proof fn lemma_rt_update_result_payload(b: bool, msg: Seq<char>)
    ensures
        parse_update_result_payload(
            json_bool(b) + (",\"message\":"@ + (json_string(msg) + "}}"@)),
        ) == Some(ResponseModel::UpdateResult { success: b, message: msg }),
{
    reveal_strlit(",\"message\":");
    reveal_strlit(",\"message\":\"");
    let a1 = ",\"message\":"@ + (json_string(msg) + "}}"@);
    let t = json_bool(b) + a1;
    lemma_parse_bool(b, a1);
    assert(parse_json_bool(t) == Some((b, a1)));
    assert(",\"message\":\""@ =~= ",\"message\":"@ + seq!['"']);
    lemma_string_field(",\"message\":"@, ",\"message\":\""@, msg, "}}"@);
    assert(starts_with(a1, ",\"message\":\""@));
    lemma_parse_escaped(msg, "}}"@);
    assert(parse_string_body(a1.skip((",\"message\":\""@).len() as int)) == Some(
        (msg, "}}"@),
    ));
}

/// Reading back an encoded `UpdateResult` response yields it.
proof fn lemma_rt_update_result(b: bool, msg: Seq<char>)
    ensures
        parse_response_frame(
            response_frame(ResponseModel::UpdateResult { success: b, message: msg }),
        ) == Some(ResponseModel::UpdateResult { success: b, message: msg }),
{
    let m = ResponseModel::UpdateResult { success: b, message: msg };
    let body = "{\"UpdateResult\":{\"success\":"@ + json_bool(b) + ",\"message\":"@ + json_string(
        msg,
    ) + "}}"@;
    let t = response_frame(m);
    reveal_strlit("{\"UpdateResult\":{\"success\":");
    reveal_strlit("{\"Error\":\"");
    assert(t.last() == '\n');
    assert(t.drop_last() =~= body);
    assert(body[0] == '{');
    lemma_object_body(body);
    lemma_not_starts_with(body, "{\"Error\":\""@, 2);
    let p = "{\"UpdateResult\":{\"success\":"@;
    assert(body.subrange(0, p.len() as int) =~= p);
    assert(starts_with(body, p));
    assert(body.skip(p.len() as int) =~= json_bool(b) + (",\"message\":"@ + (json_string(msg)
        + "}}"@)));
    lemma_rt_update_result_payload(b, msg);
}

/// Reading back an encoded `Log` payload yields it.
proof fn lemma_rt_log_payload(level: Seq<char>, message: Seq<char>, timestamp: Seq<char>)
    ensures
        parse_log_payload(
            escape_text(level) + seq!['"'] + (",\"message\":"@ + (json_string(message) + (
            ",\"timestamp\":"@ + (json_string(timestamp) + "}}"@)))),
        ) == Some(ResponseModel::Log { level, message, timestamp }),
{
    reveal_strlit(",\"message\":");
    reveal_strlit(",\"message\":\"");
    reveal_strlit(",\"timestamp\":");
    reveal_strlit(",\"timestamp\":\"");
    let a2 = ",\"timestamp\":"@ + (json_string(timestamp) + "}}"@);
    let a1 = ",\"message\":"@ + (json_string(message) + a2);
    let t = escape_text(level) + seq!['"'] + a1;
    lemma_parse_escaped(level, a1);
    assert(parse_string_body(t) == Some((level, a1)));
    assert(",\"message\":\""@ =~= ",\"message\":"@ + seq!['"']);
    lemma_string_field(",\"message\":"@, ",\"message\":\""@, message, a2);
    assert(starts_with(a1, ",\"message\":\""@));
    lemma_parse_escaped(message, a2);
    assert(parse_string_body(a1.skip((",\"message\":\""@).len() as int)) == Some((message, a2)));
    assert(",\"timestamp\":\""@ =~= ",\"timestamp\":"@ + seq!['"']);
    lemma_string_field(",\"timestamp\":"@, ",\"timestamp\":\""@, timestamp, "}}"@);
    assert(starts_with(a2, ",\"timestamp\":\""@));
    lemma_parse_escaped(timestamp, "}}"@);
    assert(parse_string_body(a2.skip((",\"timestamp\":\""@).len() as int)) == Some(
        (timestamp, "}}"@),
    ));
}

/// Reading back an encoded `Log` response yields it.
proof fn lemma_rt_log(level: Seq<char>, message: Seq<char>, timestamp: Seq<char>)
    ensures
        parse_response_frame(response_frame(ResponseModel::Log { level, message, timestamp }))
            == Some(ResponseModel::Log { level, message, timestamp }),
{
    let m = ResponseModel::Log { level, message, timestamp };
    let body = "{\"Log\":{\"level\":"@ + json_string(level) + ",\"message\":"@ + json_string(
        message,
    ) + ",\"timestamp\":"@ + json_string(timestamp) + "}}"@;
    let t = response_frame(m);
    reveal_strlit("{\"Log\":{\"level\":");
    reveal_strlit("{\"Log\":{\"level\":\"");
    reveal_strlit("{\"Error\":\"");
    reveal_strlit("{\"UpdateResult\":{\"success\":");
    assert(t.last() == '\n');
    assert(t.drop_last() =~= body);
    assert(body[0] == '{');
    lemma_object_body(body);
    lemma_not_starts_with(body, "{\"Error\":\""@, 2);
    lemma_not_starts_with(body, "{\"UpdateResult\":{\"success\":"@, 2);
    let p = "{\"Log\":{\"level\":\""@;
    assert(body.subrange(0, p.len() as int) =~= p);
    assert(starts_with(body, p));
    assert(body.skip(p.len() as int) =~= escape_text(level) + seq!['"'] + (",\"message\":"@ + (
    json_string(message) + (",\"timestamp\":"@ + (json_string(timestamp) + "}}"@)))));
    lemma_rt_log_payload(level, message, timestamp);
}

/// Reading back an encoded `Status` payload yields it, for any snapshot
/// whose record count fits in nine decimal digits.
#[verifier::rlimit(100)]
#[verifier::spinoff_prover]
proof fn lemma_rt_status_payload(st: StatusModel)
    requires
        st.record_count < 1000000000,
    ensures
        ({
            let t_nr = json_opt_string(st.next_run) + "}}"@;
            let a6 = ",\"next_run\":"@ + t_nr;
            let t_rc = decimal_text(st.record_count) + a6;
            let a5 = ",\"record_count\":"@ + t_rc;
            let t_ip = json_opt_string(st.current_ip) + a5;
            let a4 = ",\"current_ip\":"@ + t_ip;
            let t_lr = json_opt_string(st.last_result) + a4;
            let a3 = ",\"last_result\":"@ + t_lr;
            let t_lu = json_opt_string(st.last_update) + a3;
            let a2 = ",\"last_update\":"@ + t_lu;
            let t_cr = json_string(st.cron) + a2;
            let a1 = ",\"cron\":"@ + t_cr;
            parse_status_payload(json_bool(st.running) + a1) == Some(ResponseModel::Status(st))
        }),
{
    reveal_strlit(",\"cron\":");
    reveal_strlit(",\"cron\":\"");
    reveal_strlit(",\"last_update\":");
    reveal_strlit(",\"last_result\":");
    reveal_strlit(",\"current_ip\":");
    reveal_strlit(",\"record_count\":");
    reveal_strlit(",\"next_run\":");
    reveal_strlit("}}");
    let t_nr = json_opt_string(st.next_run) + "}}"@;
    let a6 = ",\"next_run\":"@ + t_nr;
    let t_rc = decimal_text(st.record_count) + a6;
    let a5 = ",\"record_count\":"@ + t_rc;
    let t_ip = json_opt_string(st.current_ip) + a5;
    let a4 = ",\"current_ip\":"@ + t_ip;
    let t_lr = json_opt_string(st.last_result) + a4;
    let a3 = ",\"last_result\":"@ + t_lr;
    let t_lu = json_opt_string(st.last_update) + a3;
    let a2 = ",\"last_update\":"@ + t_lu;
    let t_cr = json_string(st.cron) + a2;
    let a1 = ",\"cron\":"@ + t_cr;
    let payload = json_bool(st.running) + a1;
    lemma_parse_bool(st.running, a1);
    assert(parse_json_bool(payload) == Some((st.running, a1)));
    assert(",\"cron\":\""@ =~= ",\"cron\":"@ + seq!['"']);
    lemma_string_field(",\"cron\":"@, ",\"cron\":\""@, st.cron, a2);
    assert(starts_with(a1, ",\"cron\":\""@));
    lemma_parse_escaped(st.cron, a2);
    assert(parse_string_body(a1.skip((",\"cron\":\""@).len() as int)) == Some((st.cron, a2)));
    lemma_prefix_skip(",\"last_update\":"@, t_lu);
    lemma_parse_opt(st.last_update, a3);
    assert(parse_opt_string(a2.skip((",\"last_update\":"@).len() as int)) == Some(
        (st.last_update, a3),
    ));
    lemma_prefix_skip(",\"last_result\":"@, t_lr);
    lemma_parse_opt(st.last_result, a4);
    assert(parse_opt_string(a3.skip((",\"last_result\":"@).len() as int)) == Some(
        (st.last_result, a4),
    ));
    lemma_prefix_skip(",\"current_ip\":"@, t_ip);
    lemma_parse_opt(st.current_ip, a5);
    assert(parse_opt_string(a4.skip((",\"current_ip\":"@).len() as int)) == Some(
        (st.current_ip, a5),
    ));
    lemma_prefix_skip(",\"record_count\":"@, t_rc);
    assert(a6[0] == ',');
    assert(!is_ascii_digit(a6[0]));
    lemma_parse_decimal(st.record_count, a6);
    assert(parse_number(a5.skip((",\"record_count\":"@).len() as int)) == Some(
        (st.record_count, a6),
    ));
    lemma_prefix_skip(",\"next_run\":"@, t_nr);
    lemma_parse_opt(st.next_run, "}}"@);
    assert(parse_opt_string(a6.skip((",\"next_run\":"@).len() as int)) == Some(
        (st.next_run, "}}"@),
    ));
}

/// A status frame's body is the status prefix followed by the payload,
/// right-associated.
#[verifier::rlimit(100)]
#[verifier::spinoff_prover]
proof fn lemma_status_frame_split(st: StatusModel)
    ensures
        ({
            let t_nr = json_opt_string(st.next_run) + "}}"@;
            let a6 = ",\"next_run\":"@ + t_nr;
            let t_rc = decimal_text(st.record_count) + a6;
            let a5 = ",\"record_count\":"@ + t_rc;
            let t_ip = json_opt_string(st.current_ip) + a5;
            let a4 = ",\"current_ip\":"@ + t_ip;
            let t_lr = json_opt_string(st.last_result) + a4;
            let a3 = ",\"last_result\":"@ + t_lr;
            let t_lu = json_opt_string(st.last_update) + a3;
            let a2 = ",\"last_update\":"@ + t_lu;
            let t_cr = json_string(st.cron) + a2;
            let a1 = ",\"cron\":"@ + t_cr;
            "{\"Status\":"@ + status_body(st) + "}"@ == "{\"Status\":{\"running\":"@ + (json_bool(
                st.running,
            ) + a1)
        }),
{
    reveal_strlit("{\"Status\":");
    reveal_strlit("{\"Status\":{\"running\":");
    reveal_strlit("{\"running\":");
    reveal_strlit("}");
    reveal_strlit("}}");
    assert(("}}"@) =~= ("}"@) + ("}"@));
    let t_nr = json_opt_string(st.next_run) + "}}"@;
    let a6 = ",\"next_run\":"@ + t_nr;
    let t_rc = decimal_text(st.record_count) + a6;
    let a5 = ",\"record_count\":"@ + t_rc;
    let t_ip = json_opt_string(st.current_ip) + a5;
    let a4 = ",\"current_ip\":"@ + t_ip;
    let t_lr = json_opt_string(st.last_result) + a4;
    let a3 = ",\"last_result\":"@ + t_lr;
    let t_lu = json_opt_string(st.last_update) + a3;
    let a2 = ",\"last_update\":"@ + t_lu;
    let t_cr = json_string(st.cron) + a2;
    let a1 = ",\"cron\":"@ + t_cr;
    assert("{\"Status\":"@ + status_body(st) + "}"@ =~= "{\"Status\":{\"running\":"@ + (
    json_bool(st.running) + a1));
}

/// Reading back an encoded `Status` response yields it, for any snapshot
/// whose record count fits in nine decimal digits.
proof fn lemma_rt_status(st: StatusModel)
    requires
        st.record_count < 1000000000,
    ensures
        parse_response_frame(response_frame(ResponseModel::Status(st))) == Some(
            ResponseModel::Status(st),
        ),
{
    let m = ResponseModel::Status(st);
    let body = "{\"Status\":"@ + status_body(st) + "}"@;
    let t = response_frame(m);
    reveal_strlit("{\"Status\":");
    reveal_strlit("{\"Status\":{\"running\":");
    reveal_strlit("{\"Error\":\"");
    reveal_strlit("{\"UpdateResult\":{\"success\":");
    reveal_strlit("{\"Log\":{\"level\":\"");
    assert(t.last() == '\n');
    assert(t.drop_last() =~= body);
    assert(body[0] == '{');
    lemma_object_body(body);
    lemma_not_starts_with(body, "{\"Error\":\""@, 2);
    lemma_not_starts_with(body, "{\"UpdateResult\":{\"success\":"@, 2);
    lemma_not_starts_with(body, "{\"Log\":{\"level\":\""@, 2);
    let p = "{\"Status\":{\"running\":"@;
    let t_nr = json_opt_string(st.next_run) + "}}"@;
    let a6 = ",\"next_run\":"@ + t_nr;
    let t_rc = decimal_text(st.record_count) + a6;
    let a5 = ",\"record_count\":"@ + t_rc;
    let t_ip = json_opt_string(st.current_ip) + a5;
    let a4 = ",\"current_ip\":"@ + t_ip;
    let t_lr = json_opt_string(st.last_result) + a4;
    let a3 = ",\"last_result\":"@ + t_lr;
    let t_lu = json_opt_string(st.last_update) + a3;
    let a2 = ",\"last_update\":"@ + t_lu;
    let t_cr = json_string(st.cron) + a2;
    let a1 = ",\"cron\":"@ + t_cr;
    let payload = json_bool(st.running) + a1;
    lemma_status_frame_split(st);
    assert(body == p + payload);
    lemma_prefix_skip(p, payload);
    assert(starts_with(body, p));
    assert(body.skip(p.len() as int) == payload);
    lemma_rt_status_payload(st);
}

/// Reading back an encoded response yields it, for any response whose
/// record count (if it carries a snapshot) fits in nine decimal digits.
pub proof fn lemma_response_round_trip(m: ResponseModel)
    requires
        m matches ResponseModel::Status(st) ==> st.record_count < 1000000000,
    ensures
        parse_response_frame(response_frame(m)) == Some(m),
{
    reveal_strlit("\"Pong\"");
    reveal_strlit("\"Stopping\"");
    reveal_strlit("\"UpdateTriggered\"");
    assert(("\"Pong\""@).len() == 6);
    assert(("\"Stopping\""@).len() == 10);
    assert(("\"UpdateTriggered\""@).len() == 17);
    match m {
        ResponseModel::Pong => {
            let t = response_frame(m);
            assert(t.last() == '\n');
            assert(t.drop_last() =~= "\"Pong\""@);
        },
        ResponseModel::Stopping => {
            let t = response_frame(m);
            assert(t.last() == '\n');
            assert(t.drop_last() =~= "\"Stopping\""@);
        },
        ResponseModel::UpdateTriggered => {
            let t = response_frame(m);
            assert(t.last() == '\n');
            assert(t.drop_last() =~= "\"UpdateTriggered\""@);
        },
        ResponseModel::Error(s) => {
            lemma_rt_error(s);
        },
        ResponseModel::UpdateResult { success, message } => {
            lemma_rt_update_result(success, message);
        },
        ResponseModel::Log { level, message, timestamp } => {
            lemma_rt_log(level, message, timestamp);
        },
        ResponseModel::Status(st) => {
            lemma_rt_status(st);
        },
    }
}

/// Reading back an encoded command yields that command.
pub proof fn lemma_command_round_trip(c: Command)
    ensures
        parse_command_frame(command_frame(c)) == Some(c),
{
    reveal_strlit("\"GetStatus\"\n");
    reveal_strlit("\"TriggerUpdate\"\n");
    reveal_strlit("\"Stop\"\n");
    reveal_strlit("\"Ping\"\n");
    assert(("\"GetStatus\"\n"@).len() == 12);
    assert(("\"TriggerUpdate\"\n"@).len() == 16);
    assert(("\"Stop\"\n"@).len() == 7);
    assert(("\"Ping\"\n"@).len() == 7);
    assert(("\"Stop\"\n"@)[1] != ("\"Ping\"\n"@)[1]);
}

} // verus!
