//! Building the JSON text of an envelope body.
//!
//! The body is assembled from literal fragments, the decimal rendering of the
//! code, the payload's JSON text taken verbatim, and the message as a JSON
//! string with its characters escaped.

use vstd::prelude::*;
use vstd::string::StrSliceExecFns;
use vstd::string::StringExecFns;

verus! {

/// The decimal digit characters, for rendering integers.
pub open spec fn digit_char(d: int) -> char {
    if d == 0 {
        '0'
    } else if d == 1 {
        '1'
    } else if d == 2 {
        '2'
    } else if d == 3 {
        '3'
    } else if d == 4 {
        '4'
    } else if d == 5 {
        '5'
    } else if d == 6 {
        '6'
    } else if d == 7 {
        '7'
    } else if d == 8 {
        '8'
    } else {
        '9'
    }
}

/// Decimal rendering of a non-negative integer, most significant digit first.
pub open spec fn dec_digits(n: nat) -> Seq<char>
    decreases n,
{
    if n < 10 {
        seq![digit_char(n as int)]
    } else {
        dec_digits(n / 10).push(digit_char((n % 10) as int))
    }
}

/// Decimal rendering of a signed integer: a leading '-' for negatives.
pub open spec fn int_str(v: int) -> Seq<char> {
    if v < 0 {
        seq!['-'] + dec_digits((-v) as nat)
    } else {
        dec_digits(v as nat)
    }
}

fn push_digit(out: &mut String, d: u64)
    requires
        d < 10,
    ensures
        final(out)@ == old(out)@ + seq![digit_char(d as int)],
{
    let piece: &str = if d == 0 {
        "0"
    } else if d == 1 {
        "1"
    } else if d == 2 {
        "2"
    } else if d == 3 {
        "3"
    } else if d == 4 {
        "4"
    } else if d == 5 {
        "5"
    } else if d == 6 {
        "6"
    } else if d == 7 {
        "7"
    } else if d == 8 {
        "8"
    } else {
        "9"
    };
    proof {
        reveal_strlit("0");
        reveal_strlit("1");
        reveal_strlit("2");
        reveal_strlit("3");
        reveal_strlit("4");
        reveal_strlit("5");
        reveal_strlit("6");
        reveal_strlit("7");
        reveal_strlit("8");
        reveal_strlit("9");
    }
    assert(piece@ == seq![digit_char(d as int)]);
    out.append(piece);
}

fn push_dec_digits(out: &mut String, n: u64)
    ensures
        final(out)@ == old(out)@ + dec_digits(n as nat),
    decreases n,
{
    if n < 10 {
        push_digit(out, n);
    } else {
        push_dec_digits(out, n / 10);
        push_digit(out, n % 10);
        proof {
            assert(out@ == old(out)@ + dec_digits((n / 10) as nat) + seq![
                digit_char((n % 10) as int),
            ]);
            assert(dec_digits(n as nat) == dec_digits((n / 10) as nat).push(digit_char(
                (n % 10) as int,
            )));
            assert(out@ =~= old(out)@ + dec_digits(n as nat));
        }
    }
}

/// Appends the decimal rendering of `v` to `out`.
pub fn push_int(out: &mut String, v: i32)
    ensures
        final(out)@ == old(out)@ + int_str(v as int),
{
    if v < 0 {
        out.append("-");
        let m: u64 = (-(v as i64)) as u64;
        push_dec_digits(out, m);
        proof {
            reveal_strlit("-");
            assert("-"@ =~= seq!['-']);
            assert(out@ =~= old(out)@ + int_str(v as int));
        }
    } else {
        push_dec_digits(out, v as u64);
    }
}

/// The lowercase hexadecimal digit characters.
pub open spec fn hex_char(d: int) -> char {
    if d < 10 {
        digit_char(d)
    } else if d == 10 {
        'a'
    } else if d == 11 {
        'b'
    } else if d == 12 {
        'c'
    } else if d == 13 {
        'd'
    } else if d == 14 {
        'e'
    } else {
        'f'
    }
}

/// How one character is rendered inside a JSON string: the short escapes of
/// the JSON grammar, `\u00XX` for the remaining control characters, and the
/// character itself otherwise.
pub open spec fn escape_char(c: char) -> Seq<char> {
    if c == '"' {
        seq!['\\', '"']
    } else if c == '\\' {
        seq!['\\', '\\']
    } else if c == '\u{08}' {
        seq!['\\', 'b']
    } else if c == '\t' {
        seq!['\\', 't']
    } else if c == '\n' {
        seq!['\\', 'n']
    } else if c == '\u{0C}' {
        seq!['\\', 'f']
    } else if c == '\r' {
        seq!['\\', 'r']
    } else if (c as u32) < 0x20 {
        seq!['\\', 'u', '0', '0', hex_char((c as u32) as int / 16), hex_char((c as u32) as int % 16)]
    } else {
        seq![c]
    }
}

/// The characters of `s` rendered inside a JSON string.
pub open spec fn json_escaped(s: Seq<char>) -> Seq<char>
    decreases s.len(),
{
    if s.len() == 0 {
        Seq::empty()
    } else {
        escape_char(s[0]) + json_escaped(s.drop_first())
    }
}

/// A complete JSON string: quotes around the escaped characters.
pub open spec fn json_string(s: Seq<char>) -> Seq<char> {
    seq!['"'] + json_escaped(s) + seq!['"']
}

/// Escaping distributes over appending one character at the end.
pub proof fn lemma_escaped_push(t: Seq<char>, c: char)
    ensures
        json_escaped(t.push(c)) == json_escaped(t) + escape_char(c),
    decreases t.len(),
{
    if t.len() == 0 {
        assert(t.push(c)[0] == c);
        assert(t.push(c).drop_first() =~= Seq::<char>::empty());
        assert(json_escaped(t.push(c)) == escape_char(c) + json_escaped(Seq::<char>::empty()));
        assert(json_escaped(Seq::<char>::empty()) =~= Seq::<char>::empty());
        assert(escape_char(c) + Seq::<char>::empty() =~= escape_char(c));
        assert(json_escaped(t) + escape_char(c) =~= escape_char(c));
    } else {
        lemma_escaped_push(t.drop_first(), c);
        assert(t.push(c)[0] == t[0]);
        assert(t.push(c).drop_first() =~= t.drop_first().push(c));
        assert(json_escaped(t.push(c)) == escape_char(t[0]) + (json_escaped(t.drop_first())
            + escape_char(c)));
        assert(json_escaped(t) == escape_char(t[0]) + json_escaped(t.drop_first()));
        assert(escape_char(t[0]) + (json_escaped(t.drop_first()) + escape_char(c)) =~= (escape_char(
            t[0],
        ) + json_escaped(t.drop_first())) + escape_char(c));
    }
}

fn push_hex(out: &mut String, d: u32)
    requires
        d < 16,
    ensures
        final(out)@ == old(out)@ + seq![hex_char(d as int)],
{
    let piece: &str = if d == 0 {
        "0"
    } else if d == 1 {
        "1"
    } else if d == 2 {
        "2"
    } else if d == 3 {
        "3"
    } else if d == 4 {
        "4"
    } else if d == 5 {
        "5"
    } else if d == 6 {
        "6"
    } else if d == 7 {
        "7"
    } else if d == 8 {
        "8"
    } else if d == 9 {
        "9"
    } else if d == 10 {
        "a"
    } else if d == 11 {
        "b"
    } else if d == 12 {
        "c"
    } else if d == 13 {
        "d"
    } else if d == 14 {
        "e"
    } else {
        "f"
    };
    proof {
        reveal_strlit("0");
        reveal_strlit("1");
        reveal_strlit("2");
        reveal_strlit("3");
        reveal_strlit("4");
        reveal_strlit("5");
        reveal_strlit("6");
        reveal_strlit("7");
        reveal_strlit("8");
        reveal_strlit("9");
        reveal_strlit("a");
        reveal_strlit("b");
        reveal_strlit("c");
        reveal_strlit("d");
        reveal_strlit("e");
        reveal_strlit("f");
    }
    assert(piece@ == seq![hex_char(d as int)]);
    out.append(piece);
}

fn push_escaped_char(out: &mut String, s: &str, i: usize)
    requires
        i < s@.len(),
        i + 1 <= usize::MAX,
    ensures
        final(out)@ == old(out)@ + escape_char(s@[i as int]),
{
    let c = s.get_char(i);
    if c == '"' {
        out.append("\\\"");
        proof {
            reveal_strlit("\\\"");
            assert("\\\""@ =~= escape_char(c));
        }
    } else if c == '\\' {
        out.append("\\\\");
        proof {
            reveal_strlit("\\\\");
            assert("\\\\"@ =~= escape_char(c));
        }
    } else if c == '\u{08}' {
        out.append("\\b");
        proof {
            reveal_strlit("\\b");
            assert("\\b"@ =~= escape_char(c));
        }
    } else if c == '\t' {
        out.append("\\t");
        proof {
            reveal_strlit("\\t");
            assert("\\t"@ =~= escape_char(c));
        }
    } else if c == '\n' {
        out.append("\\n");
        proof {
            reveal_strlit("\\n");
            assert("\\n"@ =~= escape_char(c));
        }
    } else if c == '\u{0C}' {
        out.append("\\f");
        proof {
            reveal_strlit("\\f");
            assert("\\f"@ =~= escape_char(c));
        }
    } else if c == '\r' {
        out.append("\\r");
        proof {
            reveal_strlit("\\r");
            assert("\\r"@ =~= escape_char(c));
        }
    } else if (c as u32) < 0x20 {
        let u: u32 = c as u32;
        out.append("\\u00");
        push_hex(out, u / 16);
        push_hex(out, u % 16);
        proof {
            reveal_strlit("\\u00");
            assert("\\u00"@ =~= seq!['\\', 'u', '0', '0']);
            assert(out@ =~= old(out)@ + escape_char(c));
        }
    } else {
        let piece = s.substring_char(i, i + 1);
        out.append(piece);
        proof {
            assert(s@.subrange(i as int, i + 1) =~= seq![s@[i as int]]);
        }
    }
}

/// Appends the JSON-escaped characters of `s` to `out`.
pub fn push_json_escaped(out: &mut String, s: &str)
    ensures
        final(out)@ == old(out)@ + json_escaped(s@),
{
    let n = s.unicode_len();
    let mut i: usize = 0;
    while i < n
        invariant
            n == s@.len(),
            i <= n,
            out@ == old(out)@ + json_escaped(s@.subrange(0, i as int)),
        decreases n - i,
    {
        push_escaped_char(out, s, i);
        proof {
            lemma_escaped_push(s@.subrange(0, i as int), s@[i as int]);
            assert(s@.subrange(0, i as int).push(s@[i as int]) =~= s@.subrange(0, i + 1));
        }
        i = i + 1;
    }
    proof {
        assert(s@.subrange(0, n as int) =~= s@);
    }
}

/// The view of an optional string.
pub open spec fn opt_view(s: Option<&String>) -> Option<Seq<char>> {
    match s {
        Option::Some(x) => Option::Some(x@),
        Option::None => Option::None,
    }
}

/// The complete envelope body. The `code` field is always present; the `data`
/// key is omitted when there is no payload, and likewise the `msg` key when
/// there is no message. The payload text is inserted verbatim — it is already
/// JSON — while the message is rendered as a JSON string.
pub open spec fn envelope_body(code: int, data: Option<Seq<char>>, msg: Option<Seq<char>>) -> Seq<
    char,
> {
    "{\"code\":"@ + int_str(code) + (match data {
        Option::Some(d) => ",\"data\":"@ + d,
        Option::None => Seq::empty(),
    }) + (match msg {
        Option::Some(m) => ",\"msg\":"@ + json_string(m),
        Option::None => Seq::empty(),
    }) + "}"@
}

/// Renders the envelope body text for the given code, optional payload JSON
/// and optional message.
pub fn render_body(code: i32, data: Option<&String>, msg: Option<&String>) -> (b: String)
    ensures
        b@ == envelope_body(code as int, opt_view(data), opt_view(msg)),
{
    let mut b = String::new();
    b.append("{\"code\":");
    push_int(&mut b, code);
    let ghost after_code = b@;
    match data {
        Option::Some(d) => {
            b.append(",\"data\":");
            b.append(d.as_str());
        },
        Option::None => {},
    }
    let ghost after_data = b@;
    match msg {
        Option::Some(m) => {
            b.append(",\"msg\":\"");
            push_json_escaped(&mut b, m.as_str());
            b.append("\"");
            proof {
                reveal_strlit(",\"msg\":\"");
                reveal_strlit(",\"msg\":");
                reveal_strlit("\"");
                assert(",\"msg\":\""@ =~= ",\"msg\":"@ + seq!['"']);
                assert("\""@ =~= seq!['"']);
                assert(b@ =~= after_data + ",\"msg\":"@ + json_string(m@));
            }
        },
        Option::None => {},
    }
    b.append("}");
    proof {
        assert(b@ =~= envelope_body(code as int, opt_view(data), opt_view(msg)));
    }
    b
}

/// `needle` occurs in `hay` starting at position `i`.
pub open spec fn occurs_at(hay: Seq<char>, needle: Seq<char>, i: int) -> bool {
    0 <= i && i + needle.len() <= hay.len() && hay.subrange(i, i + needle.len()) == needle
}

/// `hay` contains `needle` somewhere.
pub open spec fn contains_seq(hay: Seq<char>, needle: Seq<char>) -> bool {
    exists|i: int| occurs_at(hay, needle, i)
}

/// A decimal digit character.
pub open spec fn is_digit_char(c: char) -> bool {
    c == '0' || c == '1' || c == '2' || c == '3' || c == '4' || c == '5' || c == '6' || c == '7'
        || c == '8' || c == '9'
}

proof fn lemma_dec_digits_chars(n: nat)
    ensures
        forall|j: int|
            0 <= j < dec_digits(n).len() ==> is_digit_char(#[trigger] dec_digits(n)[j]),
    decreases n,
{
    if n < 10 {
        assert(dec_digits(n) == seq![digit_char(n as int)]);
        assert(is_digit_char(digit_char(n as int)));
    } else {
        lemma_dec_digits_chars(n / 10);
        assert(dec_digits(n) == dec_digits(n / 10).push(digit_char((n % 10) as int)));
        assert(is_digit_char(digit_char((n % 10) as int)));
    }
}

/// Every character of a decimal rendering is a digit or the minus sign.
pub proof fn lemma_int_str_chars(v: int)
    ensures
        forall|j: int|
            0 <= j < int_str(v).len() ==> (#[trigger] int_str(v)[j] == '-' || is_digit_char(
                int_str(v)[j],
            )),
{
    if v < 0 {
        lemma_dec_digits_chars((-v) as nat);
        assert(int_str(v) == seq!['-'] + dec_digits((-v) as nat));
        assert forall|j: int| 0 <= j < int_str(v).len() implies (#[trigger] int_str(v)[j] == '-'
            || is_digit_char(int_str(v)[j])) by {
            if j == 0 {
                assert(int_str(v)[0] == '-');
            } else {
                assert(int_str(v)[j] == dec_digits((-v) as nat)[j - 1]);
            }
        }
    } else {
        lemma_dec_digits_chars(v as nat);
    }
}

/// In escaped text, every quote character is preceded by a backslash.
pub proof fn lemma_escaped_quotes(s: Seq<char>)
    ensures
        forall|j: int|
            0 <= j < json_escaped(s).len() && #[trigger] json_escaped(s)[j] == '"' ==> j >= 1
                && json_escaped(s)[j - 1] == '\\',
    decreases s.len(),
{
    if s.len() == 0 {
    } else {
        lemma_escaped_quotes(s.drop_first());
        let piece = escape_char(s[0]);
        let rest = json_escaped(s.drop_first());
        assert(json_escaped(s) == piece + rest);
        assert forall|k: int| 0 <= k < piece.len() && #[trigger] piece[k] == '"' implies k == 1
            && piece[0] == '\\' by {
            if s[0] == '"' {
            } else if (s[0] as u32) < 0x20 {
                assert(piece[0] == '\\');
                assert(piece[1] == 'u');
                assert(piece[2] == '0');
                assert(piece[3] == '0');
                assert(!(hex_char((s[0] as u32) as int / 16) == '"'));
                assert(!(hex_char((s[0] as u32) as int % 16) == '"'));
            }
        }
        assert forall|j: int|
            0 <= j < json_escaped(s).len() && #[trigger] json_escaped(s)[j] == '"' implies j >= 1
            && json_escaped(s)[j - 1] == '\\' by {
            if j < piece.len() {
                assert(json_escaped(s)[j] == piece[j]);
                if piece[j] == '"' {
                    assert(j == 1 && piece[0] == '\\');
                    assert(json_escaped(s)[0] == piece[0]);
                }
            } else {
                assert(json_escaped(s)[j] == rest[j - piece.len()]);
                if rest[j - piece.len()] == '"' {
                    assert(j - piece.len() >= 1);
                    assert(rest[j - piece.len() - 1] == '\\');
                    assert(json_escaped(s)[j - 1] == rest[j - piece.len() - 1]);
                }
            }
        }
    }
}

/// The omission law for a payload-free envelope with a message: however the
/// message reads, the body never contains a `data` key.
pub proof fn lemma_data_key_omitted(code: int, m: Seq<char>)
    ensures
        !contains_seq(envelope_body(code, Option::None, Option::Some(m)), "\"data\":"@),
{
    reveal_strlit("{\"code\":");
    reveal_strlit(",\"msg\":");
    reveal_strlit("}");
    reveal_strlit("\"data\":");
    let p = "{\"code\":"@;
    let d = int_str(code);
    let q = ",\"msg\":"@;
    let e = json_escaped(m);
    let quote = seq!['"'];
    let t = "}"@;
    let b = envelope_body(code, Option::None, Option::Some(m));
    let n = "\"data\":"@;
    let dl = d.len() as int;
    let el = e.len() as int;
    assert(b =~= p + d + q + quote + e + quote + t);
    assert(b.len() == 18 + dl + el);
    lemma_int_str_chars(code);
    lemma_escaped_quotes(m);
    assert(n.len() == 7);
    assert(n[0] == '"' && n[1] == 'd' && n[2] == 'a' && n[3] == 't' && n[4] == 'a' && n[5] == '"'
        && n[6] == ':');
    assert forall|i: int| !occurs_at(b, n, i) by {
        if occurs_at(b, n, i) {
            assert forall|k: int| 0 <= k < 7 implies b[i + k] == n[k] by {
                assert(b.subrange(i, i + 7)[k] == b[i + k]);
            }
            assert(b[i] == '"');
            assert(b[i + 5] == '"');
            assert(dl >= 1);
            let vq = 15 + dl;  // the quote that opens the message value
            let cq = 16 + dl + el;  // the quote that closes it
            if i < 8 {
                // inside `{"code":` the quotes sit around the key
                assert(b[i] == p[i]);
                assert(i == 1 || i == 6);
                if i == 1 {
                    assert(b[2] == p[2]);
                    assert(b[2] == 'c');
                } else {
                    assert(b[7] == p[7]);
                    assert(b[7] == ':');
                }
            } else if i < 8 + dl {
                // the code's decimal digits hold no quote
                assert(b[i] == d[i - 8]);
            } else if i < 15 + dl {
                // inside `,"msg":` the quotes sit around the key
                assert(b[i] == q[i - 8 - dl]);
                assert(i == 9 + dl || i == 13 + dl);
                if i == 9 + dl {
                    assert(b[i + 1] == q[2]);
                    assert(b[i + 1] == 'm');
                } else {
                    assert(b[i + 1] == q[6]);
                    assert(b[i + 1] == ':');
                }
            } else if i == vq {
                // the quote that opens the value: what follows is escaped text
                assert(i + 7 <= b.len());
                assert(el >= 4);
                if el == 4 {
                    assert(b[i + 5] == quote[0]);
                    assert(b[i + 6] == t[0]);
                    assert(b[i + 6] == '}');
                } else {
                    assert(b[i + 5] == e[4]);
                    assert(e[3] == '\\');
                    assert(b[i + 4] == e[3]);
                }
            } else if i < cq {
                // a quote inside the escaped message text
                assert(b[i] == e[i - 16 - dl]);
                if i + 5 < cq {
                    assert(b[i + 5] == e[i + 5 - 16 - dl]);
                    assert(e[i + 5 - 16 - dl] == '"');
                    assert(e[i + 4 - 16 - dl] == '\\');
                    assert(b[i + 4] == e[i + 4 - 16 - dl]);
                } else {
                    assert(i + 7 <= b.len());
                    assert(i + 5 == cq);
                    assert(b[i + 6] == t[0]);
                    assert(b[i + 6] == '}');
                }
            } else {
                // the closing quote or the final brace: no room for the key
                assert(i >= cq);
                assert(i + 7 <= 18 + dl + el);
                assert(false);
            }
        }
    }
}

/// The omission law for an envelope with neither payload nor message: the
/// body contains no `data` key and no `msg` key.
pub proof fn lemma_keys_omitted(code: int)
    ensures
        !contains_seq(envelope_body(code, Option::None, Option::None), "\"data\":"@),
        !contains_seq(envelope_body(code, Option::None, Option::None), "\"msg\":"@),
{
    reveal_strlit("{\"code\":");
    reveal_strlit("}");
    reveal_strlit("\"data\":");
    reveal_strlit("\"msg\":");
    let p = "{\"code\":"@;
    let d = int_str(code);
    let t = "}"@;
    let b = envelope_body(code, Option::None, Option::None);
    let dl = d.len() as int;
    assert(b =~= p + d + t);
    assert(b.len() == 9 + dl);
    lemma_int_str_chars(code);
    let n1 = "\"data\":"@;
    let n2 = "\"msg\":"@;
    assert(n1.len() == 7 && n1[0] == '"' && n1[1] == 'd');
    assert(n2.len() == 6 && n2[0] == '"' && n2[1] == 'm');
    assert(dl >= 1);
    assert forall|i: int| !occurs_at(b, n1, i) by {
        if occurs_at(b, n1, i) {
            assert(b.subrange(i, i + 7)[0] == b[i]);
            assert(b.subrange(i, i + 7)[1] == b[i + 1]);
            assert(b[i] == '"' && b[i + 1] == 'd');
            lemma_quote_position_code_only(code, i);
        }
    }
    assert forall|i: int| !occurs_at(b, n2, i) by {
        if occurs_at(b, n2, i) {
            assert(b.subrange(i, i + 6)[0] == b[i]);
            assert(b.subrange(i, i + 6)[1] == b[i + 1]);
            assert(b[i] == '"' && b[i + 1] == 'm');
            lemma_quote_position_code_only(code, i);
        }
    }
}

/// The omission law for an envelope with a payload but no message: unless the
/// payload's own JSON text carries that very key text, the body contains no
/// `msg` key.
pub proof fn lemma_msg_key_omitted(code: int, d: Seq<char>)
    requires
        !contains_seq(d, "\"msg\":"@),
    ensures
        !contains_seq(envelope_body(code, Option::Some(d), Option::None), "\"msg\":"@),
{
    reveal_strlit("{\"code\":");
    reveal_strlit(",\"data\":");
    reveal_strlit("}");
    reveal_strlit("\"msg\":");
    let p = "{\"code\":"@;
    let c = int_str(code);
    let f = ",\"data\":"@;
    let t = "}"@;
    let b = envelope_body(code, Option::Some(d), Option::None);
    let n = "\"msg\":"@;
    let dl = c.len() as int;
    let pl = d.len() as int;
    assert(b =~= p + c + f + d + t);
    assert(b.len() == 17 + dl + pl);
    lemma_int_str_chars(code);
    assert(n.len() == 6);
    assert(n[0] == '"' && n[1] == 'm' && n[2] == 's' && n[3] == 'g' && n[4] == '"' && n[5]
        == ':');
    let sd = 16 + dl;  // where the payload text starts
    assert forall|i: int| !occurs_at(b, n, i) by {
        if occurs_at(b, n, i) {
            assert forall|k: int| 0 <= k < 6 implies b[i + k] == n[k] by {
                assert(b.subrange(i, i + 6)[k] == b[i + k]);
            }
            assert(b[i] == '"');
            assert(dl >= 1);
            if i < 8 {
                assert(b[i] == p[i]);
                assert(i == 1 || i == 6);
                if i == 1 {
                    assert(b[2] == p[2]);
                    assert(b[2] == 'c');
                } else {
                    assert(b[7] == p[7]);
                    assert(b[7] == ':');
                }
            } else if i < 8 + dl {
                assert(b[i] == c[i - 8]);
            } else if i < sd {
                assert(b[i] == f[i - 8 - dl]);
                assert(i == 9 + dl || i == 14 + dl);
                if i == 9 + dl {
                    assert(b[i + 1] == f[2]);
                    assert(b[i + 1] == 'd');
                } else {
                    assert(b[i + 1] == f[7]);
                    assert(b[i + 1] == ':');
                }
            } else if i < sd + pl {
                if i + 6 <= sd + pl {
                    // the whole key text would lie inside the payload
                    assert forall|k: int| 0 <= k < 6 implies d.subrange(i - sd, i - sd + 6)[k]
                        == n[k] by {
                        assert(d.subrange(i - sd, i - sd + 6)[k] == d[i - sd + k]);
                        assert(b[i + k] == d[i - sd + k]);
                    }
                    assert(d.subrange(i - sd, i - sd + 6) =~= n);
                    assert(occurs_at(d, n, i - sd));
                    assert(contains_seq(d, n));
                } else {
                    // it would run past the payload onto the final brace
                    let k = sd + pl - i;
                    assert(1 <= k < 6);
                    assert(i + k == b.len() - 1);
                    assert(b[i + k] == t[0]);
                    assert(b[i + k] == '}');
                    assert(n[k] == '}');
                }
            } else {
                // the final brace: too little room, and not a quote
                assert(i == b.len() - 1);
                assert(b[i] == t[0]);
                assert(b[i] == '}');
            }
        }
    }
}

/// In a body holding only the code, the character after a quote is `c`, a
/// digit, the minus sign or the final brace — never the start of another key.
proof fn lemma_quote_position_code_only(code: int, i: int)
    requires
        0 <= i,
        i + 2 <= envelope_body(code, Option::None, Option::None).len(),
        envelope_body(code, Option::None, Option::None)[i] == '"',
    ensures
        envelope_body(code, Option::None, Option::None)[i + 1] == 'c' || envelope_body(
            code,
            Option::None,
            Option::None,
        )[i + 1] == ':',
{
    reveal_strlit("{\"code\":");
    reveal_strlit("}");
    let p = "{\"code\":"@;
    let d = int_str(code);
    let t = "}"@;
    let b = envelope_body(code, Option::None, Option::None);
    let dl = d.len() as int;
    assert(b =~= p + d + t);
    lemma_int_str_chars(code);
    if i < 8 {
        assert(b[i] == p[i]);
        assert(i == 1 || i == 6);
        if i == 1 {
            assert(b[2] == p[2]);
        } else {
            assert(b[7] == p[7]);
        }
    } else if i < 8 + dl {
        assert(b[i] == d[i - 8]);
        assert(false);
    } else {
        assert(b[i] == t[0]);
        assert(false);
    }
}

} // verus!
