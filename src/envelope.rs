use vstd::prelude::*;
use vstd::arithmetic::power::pow;
use vstd::string::StringExecFns;
use crate::text::{chars_of, string_of};

verus! {

/// The lowercase hexadecimal digits, by value.
pub open spec fn hex_digits() -> Seq<char> {
    seq!['0', '1', '2', '3', '4', '5', '6', '7', '8', '9', 'a', 'b', 'c', 'd', 'e', 'f']
}

/// The value of a lowercase hexadecimal digit.
pub open spec fn hex_value(c: char) -> Option<int> {
    if '0' <= c && c <= '9' {
        Some(c as int - '0' as int)
    } else if 'a' <= c && c <= 'f' {
        Some(c as int - 'a' as int + 10)
    } else {
        None
    }
}

/// The `k`-th hexadecimal digit of `id`, counted from the most significant.
pub open spec fn nibble(id: u128, k: int) -> int {
    (id as int / pow(16, (31 - k) as nat)) % 16
}

/// Which of the 32 digits stands at position `i` of the hyphenated form.
pub open spec fn digit_at(i: int) -> int {
    if i < 8 {
        i
    } else if i < 13 {
        i - 1
    } else if i < 18 {
        i - 2
    } else if i < 23 {
        i - 3
    } else {
        i - 4
    }
}

/// The hyphenated form of an identifier: 32 lowercase hexadecimal digits,
/// most significant first, grouped 8-4-4-4-12.
pub open spec fn uuid_text(id: u128) -> Seq<char> {
    Seq::new(
        36,
        |i: int|
            if i == 8 || i == 13 || i == 18 || i == 23 {
                '-'
            } else {
                hex_digits()[nibble(id, digit_at(i))]
            },
    )
}

/// Relies on `uuid::Uuid::from_u128` and `Hyphenated`'s `to_string`: the
/// lowercase hyphenated form of the identifier.
#[verifier::external_body]
pub(crate) fn uuid_string(id: u128) -> (r: String)
    ensures
        r@ == uuid_text(id),
{
    uuid::Uuid::from_u128(id).hyphenated().to_string()
}

/// Relies on `uuid::Uuid::parse_str` and `Uuid::as_u128`: the hyphenated form
/// of an identifier parses back to that identifier.
#[verifier::external_body]
fn parse_uuid(s: &str) -> (r: Option<u128>)
    ensures
        forall|id: u128| s@ == #[trigger] uuid_text(id) ==> r == Some(id),
{
    match uuid::Uuid::parse_str(s) {
        Ok(u) => Some(u.as_u128()),
        Err(_) => None,
    }
}

/// The letter of the short escape of a control character, if it has one:
/// backspace, tab, line feed, form feed and carriage return.
pub open spec fn short_escape(c: char) -> Option<char> {
    if c == '\u{8}' {
        Some('b')
    } else if c == '\t' {
        Some('t')
    } else if c == '\n' {
        Some('n')
    } else if c == '\u{c}' {
        Some('f')
    } else if c == '\r' {
        Some('r')
    } else {
        None
    }
}

/// The control character that a short escape letter stands for.
pub open spec fn short_unescape(l: char) -> Option<char> {
    if l == 'b' {
        Some('\u{8}')
    } else if l == 't' {
        Some('\t')
    } else if l == 'n' {
        Some('\n')
    } else if l == 'f' {
        Some('\u{c}')
    } else if l == 'r' {
        Some('\r')
    } else {
        None
    }
}

/// How one character is written inside a JSON string: quote and backslash
/// behind a backslash, backspace, tab, line feed, form feed and carriage
/// return as `\b`, `\t`, `\n`, `\f`, `\r`, the other control characters as
/// `\u00XX` in lowercase hexadecimal, the rest as is.
pub open spec fn escape_char(c: char) -> Seq<char> {
    if c == '"' {
        seq!['\\', '"']
    } else if c == '\\' {
        seq!['\\', '\\']
    } else if short_escape(c) is Some {
        seq!['\\', short_escape(c)->0]
    } else if (c as u32) < 0x20 {
        seq!['\\', 'u', '0', '0', hex_digits()[((c as u32) / 16) as int], hex_digits()[((c as u32) % 16) as int]]
    } else {
        seq![c]
    }
}

/// The body of a JSON string holding `s`.
pub open spec fn escape(s: Seq<char>) -> Seq<char>
    decreases s.len(),
{
    if s.len() == 0 {
        Seq::empty()
    } else {
        escape_char(s[0]) + escape(s.drop_first())
    }
}

/// Reads a JSON string body written by `escape` up to its closing quote:
/// the characters it holds and how many characters, the quote included, were read.
pub open spec fn unescape(t: Seq<char>) -> Option<(Seq<char>, int)>
    decreases t.len(),
{
    if t.len() == 0 {
        None
    } else if t[0] == '"' {
        Some((Seq::empty(), 1))
    } else if t[0] == '\\' {
        if t.len() >= 2 && (t[1] == '"' || t[1] == '\\') {
            match unescape(t.subrange(2, t.len() as int)) {
                Some((s, n)) => Some((seq![t[1]] + s, n + 2)),
                None => None,
            }
        } else if t.len() >= 2 && short_unescape(t[1]) is Some {
            match unescape(t.subrange(2, t.len() as int)) {
                Some((s, n)) => Some((seq![short_unescape(t[1])->0] + s, n + 2)),
                None => None,
            }
        } else if t.len() >= 6 && t[1] == 'u' && t[2] == '0' && t[3] == '0' && hex_value(t[4]) is Some
            && hex_value(t[5]) is Some {
            match unescape(t.subrange(6, t.len() as int)) {
                Some((s, n)) => Some((
                    seq![((hex_value(t[4])->0 * 16 + hex_value(t[5])->0) as u32) as char] + s,
                    n + 6,
                )),
                None => None,
            }
        } else {
            None
        }
    } else {
        match unescape(t.subrange(1, t.len() as int)) {
            Some((s, n)) => Some((seq![t[0]] + s, n + 1)),
            None => None,
        }
    }
}

} // verus!

verus! {

proof fn lemma_hex_digit_value(k: int)
    requires
        0 <= k < 16,
    ensures
        hex_value(hex_digits()[k]) == Some(k),
{
    if k == 0 { assert(hex_digits()[k] == '0'); }
    else if k == 1 { assert(hex_digits()[k] == '1'); }
    else if k == 2 { assert(hex_digits()[k] == '2'); }
    else if k == 3 { assert(hex_digits()[k] == '3'); }
    else if k == 4 { assert(hex_digits()[k] == '4'); }
    else if k == 5 { assert(hex_digits()[k] == '5'); }
    else if k == 6 { assert(hex_digits()[k] == '6'); }
    else if k == 7 { assert(hex_digits()[k] == '7'); }
    else if k == 8 { assert(hex_digits()[k] == '8'); }
    else if k == 9 { assert(hex_digits()[k] == '9'); }
    else if k == 10 { assert(hex_digits()[k] == 'a'); }
    else if k == 11 { assert(hex_digits()[k] == 'b'); }
    else if k == 12 { assert(hex_digits()[k] == 'c'); }
    else if k == 13 { assert(hex_digits()[k] == 'd'); }
    else if k == 14 { assert(hex_digits()[k] == 'e'); }
    else { assert(hex_digits()[k] == 'f'); }
}

/// A string body written by `escape` and closed by a quote reads back as the
/// string it was written from, whatever follows the quote.
pub proof fn lemma_unescape_escape(s: Seq<char>, rest: Seq<char>)
    ensures
        unescape(escape(s) + seq!['"'] + rest) == Some((s, escape(s).len() + 1 as int)),
    decreases s.len(),
{
    let t = escape(s) + seq!['"'] + rest;
    if s.len() == 0 {
        assert(t[0] == '"');
    } else {
        let c = s[0];
        let tail = s.drop_first();
        let e = escape_char(c);
        let after = escape(tail) + seq!['"'] + rest;
        assert(t =~= e + after);
        lemma_unescape_escape(tail, rest);
        assert(seq![c] + tail =~= s);
        if c == '"' || c == '\\' {
            assert(t.subrange(2, t.len() as int) =~= after);
        } else if short_escape(c) is Some {
            assert(short_unescape(short_escape(c)->0) == Some(c));
            assert(t.subrange(2, t.len() as int) =~= after);
        } else if (c as u32) < 0x20 {
            let v = c as u32;
            lemma_hex_digit_value((v / 16) as int);
            lemma_hex_digit_value((v % 16) as int);
            assert(t[4] == hex_digits()[(v / 16) as int]);
            assert(t[5] == hex_digits()[(v % 16) as int]);
            assert(((v / 16) as int * 16 + (v % 16) as int) as u32 == v);
            assert((v as char) == c) by {
                vstd::utf8::char_u32_cast(c, v);
            }
            assert(t.subrange(6, t.len() as int) =~= after);
        } else {
            assert(t.subrange(1, t.len() as int) =~= after);
        }
    }
}

} // verus!

verus! {

proof fn lemma_escape_push(s: Seq<char>, c: char)
    ensures
        escape(s.push(c)) == escape(s) + escape_char(c),
    decreases s.len(),
{
    if s.len() == 0 {
        assert(s.push(c).drop_first() =~= Seq::<char>::empty());
        assert(escape(s.push(c).drop_first()) =~= Seq::<char>::empty());
        assert(escape(s) =~= Seq::<char>::empty());
        assert(escape(s.push(c)) =~= escape(s) + escape_char(c));
    } else {
        assert(s.push(c).drop_first() =~= s.drop_first().push(c));
        lemma_escape_push(s.drop_first(), c);
        assert(escape(s.push(c)) =~= escape(s) + escape_char(c));
    }
}

fn hex_char(k: u32) -> (r: char)
    requires
        k < 16,
    ensures
        r == hex_digits()[k as int],
{
    let digits = ['0', '1', '2', '3', '4', '5', '6', '7', '8', '9', 'a', 'b', 'c', 'd', 'e', 'f'];
    assert(digits@ =~= hex_digits());
    digits[k as usize]
}

fn hex_char_value(c: char) -> (r: Option<u32>)
    ensures
        r matches Some(v) ==> hex_value(c) == Some(v as int),
        r is None ==> hex_value(c) is None,
{
    if '0' <= c && c <= '9' {
        Some((c as u32) - ('0' as u32))
    } else if 'a' <= c && c <= 'f' {
        Some((c as u32) - ('a' as u32) + 10)
    } else {
        None
    }
}

/// Appends to `out` the body of a JSON string holding `s`.
pub fn push_escaped(out: &mut String, s: &str)
    ensures
        final(out)@ == old(out)@ + escape(s@),
{
    let chars = chars_of(s);
    let ghost start = out@;
    let mut i: usize = 0;
    while i < chars.len()
        invariant
            0 <= i <= chars@.len(),
            chars@ == s@,
            out@ == start + escape(chars@.take(i as int)),
        decreases chars@.len() - i,
    {
        let c = chars[i];
        if c == '"' {
            out.push('\\');
            out.push('"');
        } else if c == '\\' {
            out.push('\\');
            out.push('\\');
        } else if c == '\u{8}' {
            out.push('\\');
            out.push('b');
        } else if c == '\t' {
            out.push('\\');
            out.push('t');
        } else if c == '\n' {
            out.push('\\');
            out.push('n');
        } else if c == '\u{c}' {
            out.push('\\');
            out.push('f');
        } else if c == '\r' {
            out.push('\\');
            out.push('r');
        } else if (c as u32) < 0x20 {
            out.push('\\');
            out.push('u');
            out.push('0');
            out.push('0');
            out.push(hex_char((c as u32) / 16));
            out.push(hex_char((c as u32) % 16));
        } else {
            out.push(c);
        }
        proof {
            assert(chars@.take(i + 1) =~= chars@.take(i as int).push(c));
            lemma_escape_push(chars@.take(i as int), c);
            assert(out@ =~= start + escape(chars@.take(i + 1)));
        }
        i = i + 1;
    }
    proof {
        assert(chars@.take(chars@.len() as int) =~= s@);
    }
}

/// The outcome of reading `t` from `start` when `prefix` was read before,
/// `used` characters long.
pub open spec fn read_on(prefix: Seq<char>, used: int, r: Option<(Seq<char>, int)>) -> Option<(Seq<char>, int)> {
    match r {
        Some((s, n)) => Some((prefix + s, n + used)),
        None => None,
    }
}

/// Reads a JSON string body from position `start` of `t` up to its closing
/// quote: the characters it holds and the position just after the quote.
pub fn read_escaped(t: &Vec<char>, start: usize) -> (r: Option<(Vec<char>, usize)>)
    requires
        start <= t@.len(),
    ensures
        r matches Some((s, end)) ==> unescape(t@.subrange(start as int, t@.len() as int)) == Some((s@, end - start)),
        r is None ==> unescape(t@.subrange(start as int, t@.len() as int)) is None,
{
    let mut out: Vec<char> = Vec::new();
    let mut i: usize = start;
    let ghost whole = t@.subrange(start as int, t@.len() as int);
    while i < t.len()
        invariant
            start <= i <= t@.len(),
            whole == t@.subrange(start as int, t@.len() as int),
            unescape(whole) == read_on(out@, i - start, unescape(t@.subrange(i as int, t@.len() as int))),
        decreases t@.len() - i,
    {
        let ghost here = t@.subrange(i as int, t@.len() as int);
        let c = t[i];
        if c == '"' {
            proof {
                assert(out@ + Seq::<char>::empty() =~= out@);
            }
            return Some((out, i + 1));
        } else if c == '\\' {
            if t.len() - i >= 2 && (t[i + 1] == '"' || t[i + 1] == '\\') {
                let d = t[i + 1];
                proof {
                    assert(here.subrange(2, here.len() as int) =~= t@.subrange(i + 2, t@.len() as int));
                    let inner = unescape(t@.subrange(i + 2, t@.len() as int));
                    match inner {
                        Some((s, n)) => {
                            assert(out@.push(d) + s =~= out@ + (seq![d] + s));
                        },
                        None => {},
                    }
                }
                out.push(d);
                i = i + 2;
            } else if t.len() - i >= 2 && (t[i + 1] == 'b' || t[i + 1] == 't' || t[i + 1] == 'n' || t[i + 1] == 'f' || t[i + 1] == 'r') {
                let l = t[i + 1];
                let d = if l == 'b' {
                    '\u{8}'
                } else if l == 't' {
                    '\t'
                } else if l == 'n' {
                    '\n'
                } else if l == 'f' {
                    '\u{c}'
                } else {
                    '\r'
                };
                proof {
                    assert(short_unescape(l) == Some(d));
                    assert(here.subrange(2, here.len() as int) =~= t@.subrange(i + 2, t@.len() as int));
                    let inner = unescape(t@.subrange(i + 2, t@.len() as int));
                    match inner {
                        Some((s, n)) => {
                            assert(out@.push(d) + s =~= out@ + (seq![d] + s));
                        },
                        None => {},
                    }
                }
                out.push(d);
                i = i + 2;
            } else if t.len() - i >= 6 && t[i + 1] == 'u' && t[i + 2] == '0' && t[i + 3] == '0' {
                let hi = hex_char_value(t[i + 4]);
                let lo = hex_char_value(t[i + 5]);
                match (hi, lo) {
                    (Some(h), Some(l)) => {
                        let v: u32 = h * 16 + l;
                        let d = (v as u8) as char;
                        proof {
                            assert(here.subrange(6, here.len() as int) =~= t@.subrange(i + 6, t@.len() as int));
                            assert(d == (v as char));
                            let inner = unescape(t@.subrange(i + 6, t@.len() as int));
                            match inner {
                                Some((s, n)) => {
                                    assert(out@.push(d) + s =~= out@ + (seq![d] + s));
                                },
                                None => {},
                            }
                        }
                        out.push(d);
                        i = i + 6;
                    },
                    _ => {
                        return None;
                    },
                }
            } else {
                return None;
            }
        } else {
            proof {
                assert(here.subrange(1, here.len() as int) =~= t@.subrange(i + 1, t@.len() as int));
                let inner = unescape(t@.subrange(i + 1, t@.len() as int));
                match inner {
                    Some((s, n)) => {
                        assert(out@.push(c) + s =~= out@ + (seq![c] + s));
                    },
                    None => {},
                }
            }
            out.push(c);
            i = i + 1;
        }
    }
    None
}

} // verus!

verus! {

/// How the parameters of a call are written: their JSON text, or `null`.
pub open spec fn params_text(p: Option<Seq<char>>) -> Seq<char> {
    match p {
        Some(t) => t,
        None => "null"@,
    }
}

/// The frame that carries a call: its identifier, method name and parameters.
pub open spec fn call_text(id: u128, method: Seq<char>, params: Option<Seq<char>>) -> Seq<char> {
    "{\"id\":\""@ + uuid_text(id) + "\",\"method\":\""@ + escape(method) + "\",\"params\":"@
        + params_text(params) + "}"@
}

/// An outbound call: a fresh identifier, the method name, and the
/// parameters as JSON text (`None` when the method takes none).
#[derive(Debug, Clone)]
pub struct MethodCall {
    pub id: u128,
    pub method: String,
    pub params: Option<String>,
}

/// Whether `t` holds `lit` from position `at` on.
fn holds_at(t: &Vec<char>, at: usize, lit: &str) -> (r: bool)
    requires
        at <= t@.len(),
    ensures
        r == (at + lit@.len() <= t@.len() && t@.subrange(at as int, at + lit@.len()) == lit@),
{
    let l = chars_of(lit);
    if t.len() - at < l.len() {
        return false;
    }
    let mut i: usize = 0;
    while i < l.len()
        invariant
            0 <= i <= l@.len(),
            l@ == lit@,
            at + l@.len() <= t@.len(),
            t@.len() == t.len(),
            forall|k: int| 0 <= k < i ==> t@[at + k] == l@[k],
        decreases l@.len() - i,
    {
        if t[at + i] != l[i] {
            assert(t@.subrange(at as int, at + lit@.len())[i as int] != lit@[i as int]);
            return false;
        }
        i = i + 1;
    }
    assert(t@.subrange(at as int, at + lit@.len()) =~= lit@);
    true
}

/// Whether two character sequences are equal.
fn same_chars(a: &Vec<char>, b: &Vec<char>) -> (r: bool)
    ensures
        r == (a@ == b@),
{
    if a.len() != b.len() {
        return false;
    }
    let mut i: usize = 0;
    while i < a.len()
        invariant
            0 <= i <= a@.len(),
            a@.len() == b@.len(),
            forall|k: int| 0 <= k < i ==> a@[k] == b@[k],
        decreases a@.len() - i,
    {
        if a[i] != b[i] {
            return false;
        }
        i = i + 1;
    }
    assert(a@ =~= b@);
    true
}

/// The characters of `t` from `from` up to `to`.
fn slice_of(t: &Vec<char>, from: usize, to: usize) -> (r: Vec<char>)
    requires
        from <= to <= t@.len(),
    ensures
        r@ == t@.subrange(from as int, to as int),
{
    let mut out: Vec<char> = Vec::new();
    let mut i: usize = from;
    while i < to
        invariant
            from <= i <= to <= t@.len(),
            out@ == t@.subrange(from as int, i as int),
        decreases to - i,
    {
        out.push(t[i]);
        assert(t@.subrange(from as int, i + 1) =~= t@.subrange(from as int, i as int).push(t@[i as int]));
        i = i + 1;
    }
    out
}

impl MethodCall {
    pub open spec fn spec_params(&self) -> Option<Seq<char>> {
        opt_view(self.params)
    }

    /// The frame text of this call.
    pub open spec fn spec_text(&self) -> Seq<char> {
        call_text(self.id, self.method@, self.spec_params())
    }

    pub fn new(id: u128, method: &str, params: Option<String>) -> (r: MethodCall)
        ensures
            r.id == id,
            r.method@ == method@,
            r.params == params,
    {
        MethodCall { id, method: String::from_str(method), params }
    }

    /// Writes the call as a JSON frame:
    /// `{"id":"<hyphenated id>","method":"<method>","params":<params or null>}`.
    pub fn encode(&self) -> (r: String)
        ensures
            r@ == self.spec_text(),
    {
        let mut out = String::from_str("{\"id\":\"");
        out.append(uuid_string(self.id).as_str());
        out.append("\",\"method\":\"");
        push_escaped(&mut out, self.method.as_str());
        out.append("\",\"params\":");
        match &self.params {
            Some(p) => out.append(p.as_str()),
            None => out.append("null"),
        }
        out.append("}");
        out
    }

    /// Reads back a frame written by `encode`. Exactly the texts that
    /// `encode` writes are accepted, and each gives back the call it was
    /// written from; `null` parameters read as no parameters.
    pub fn decode(text: &str) -> (r: Option<MethodCall>)
        ensures
            r matches Some(c) ==> c.spec_text() == text@ && c.spec_params() != Some("null"@),
            forall|id: u128, m: Seq<char>, p: Option<Seq<char>>|
                #![trigger call_text(id, m, p)]
                text@ == call_text(id, m, p) && p != Some("null"@) ==> (r matches Some(c) && c.id
                    == id && c.method@ == m && c.spec_params() == p),
    {
        proof {
            reveal_strlit("\",\"params\":");
            reveal_strlit(",\"params\":");
        }
        let t = chars_of(text);
        let id = read_id(&t);
        let id = match id {
            Some(id) => id,
            None => {
                proof {
                    assert forall|id: u128, m: Seq<char>, p: Option<Seq<char>>|
                        #![trigger call_text(id, m, p)]
                        t@ == call_text(id, m, p) implies false by {
                        lemma_call_layout(id, m, p);
                    }
                }
                return None;
            },
        };
        let method = read_method(&t);
        let (method, end) = match method {
            Some(found) => found,
            None => {
                proof {
                    assert forall|id2: u128, m: Seq<char>, p: Option<Seq<char>>|
                        #![trigger call_text(id2, m, p)]
                        t@ == call_text(id2, m, p) implies false by {
                        lemma_call_layout(id2, m, p);
                    }
                }
                return None;
            },
        };
        let params = read_params(&t, end);
        let params = match params {
            Some(p) => p,
            None => {
                proof {
                    assert forall|id2: u128, m: Seq<char>, p: Option<Seq<char>>|
                        #![trigger call_text(id2, m, p)]
                        t@ == call_text(id2, m, p) && p != Some("null"@) implies false by {
                        lemma_call_layout(id2, m, p);
                        let whole = escape(m) + seq!['"'] + call_tail(p);
                        assert(t@.subrange(end as int, t@.len() as int) =~= whole.subrange(end - 55, whole.len() as int));
                        assert(whole.subrange(end - 55, whole.len() as int) =~= call_tail(p));
                    }
                }
                return None;
            },
        };
        let r = MethodCall { id, method, params };
        proof {
            assert("\",\"params\":"@ =~= seq!['"'] + ",\"params\":"@);
            assert(t@ =~= t@.subrange(0, 7) + t@.subrange(7, 43) + t@.subrange(43, 55) + t@.subrange(55, end as int)
                + t@.subrange(end as int, t@.len() as int));
            assert(r.spec_text() =~= t@);
            assert forall|id2: u128, m: Seq<char>, p: Option<Seq<char>>|
                #![trigger call_text(id2, m, p)]
                t@ == call_text(id2, m, p) && p != Some("null"@) implies r.id == id2 && r.method@ == m
                && r.spec_params() == p by {
                lemma_call_layout(id2, m, p);
                let whole = escape(m) + seq!['"'] + call_tail(p);
                assert(t@.subrange(end as int, t@.len() as int) =~= whole.subrange(end - 55, whole.len() as int));
                assert(whole.subrange(end - 55, whole.len() as int) =~= call_tail(p));
            }
        }
        Some(r)
    }
}

/// Reads the identifier of a call frame, checking the text around it.
fn read_id(t: &Vec<char>) -> (r: Option<u128>)
    ensures
        r matches Some(id) ==> t@.len() >= 55 && t@.subrange(0, 7) == "{\"id\":\""@ && t@.subrange(7, 43)
            == uuid_text(id) && t@.subrange(43, 55) == "\",\"method\":\""@,
        forall|id: u128|
            t@.len() >= 55 && t@.subrange(0, 7) == "{\"id\":\""@ && t@.subrange(7, 43) == #[trigger] uuid_text(id)
                && t@.subrange(43, 55) == "\",\"method\":\""@ ==> r == Some(id),
{
    proof {
        reveal_strlit("{\"id\":\"");
        reveal_strlit("\",\"method\":\"");
    }
    if t.len() < 55 || !holds_at(t, 0, "{\"id\":\"") || !holds_at(t, 43, "\",\"method\":\"") {
        return None;
    }
    let id_chars = slice_of(t, 7, 43);
    let id_text = string_of(&id_chars);
    let id = match parse_uuid(id_text.as_str()) {
        Some(id) => id,
        None => {
            return None;
        },
    };
    let canonical = chars_of(uuid_string(id).as_str());
    if !same_chars(&canonical, &id_chars) {
        return None;
    }
    Some(id)
}

/// Reads the method name of a call frame, which starts at position 55, and
/// the position just after its closing quote. The name must be written as
/// `escape` writes it.
fn read_method(t: &Vec<char>) -> (r: Option<(String, usize)>)
    ensures
        r matches Some((m, end)) ==> 55 < end <= t@.len() && t@.subrange(55, end as int) == escape(m@)
            + seq!['"'],
        forall|m: Seq<char>, p: Option<Seq<char>>|
            #![trigger escape(m), call_tail(p)]
            t@.len() >= 55 && t@.subrange(55, t@.len() as int) == escape(m) + seq!['"'] + call_tail(p)
                ==> (r matches Some((m2, end)) && m2@ == m && end == 55 + escape(m).len() + 1),
{
    if t.len() < 55 {
        return None;
    }
    let found = read_escaped(t, 55);
    let (method_chars, end) = match found {
        Some(found) => found,
        None => {
            proof {
                assert forall|m: Seq<char>, p: Option<Seq<char>>|
                    #![trigger escape(m), call_tail(p)]
                    t@.subrange(55, t@.len() as int) == escape(m) + seq!['"'] + call_tail(p) implies false by {
                    lemma_unescape_escape(m, call_tail(p));
                }
            }
            return None;
        },
    };
    let method = string_of(&method_chars);
    let mut rewritten = String::new();
    push_escaped(&mut rewritten, method.as_str());
    rewritten.push('"');
    let rewritten = chars_of(rewritten.as_str());
    assert(rewritten@ =~= escape(method@) + seq!['"']);
    if end <= 55 || end > t.len() || !same_chars(&rewritten, &slice_of(t, 55, end)) {
        proof {
            assert forall|m: Seq<char>, p: Option<Seq<char>>|
                #![trigger escape(m), call_tail(p)]
                t@.subrange(55, t@.len() as int) == escape(m) + seq!['"'] + call_tail(p) implies false by {
                let rest = call_tail(p);
                lemma_unescape_escape(m, rest);
                assert(method@ == m);
                assert(end == 55 + escape(m).len() + 1);
                assert(t@.subrange(55, end as int) =~= (escape(m) + seq!['"'] + rest).subrange(0, end - 55));
                assert((escape(m) + seq!['"'] + rest).subrange(0, end - 55) =~= escape(m) + seq!['"']);
            }
        }
        return None;
    }
    proof {
        assert forall|m: Seq<char>, p: Option<Seq<char>>|
            #![trigger escape(m), call_tail(p)]
            t@.subrange(55, t@.len() as int) == escape(m) + seq!['"'] + call_tail(p) implies method@ == m
            && end == 55 + escape(m).len() + 1 by {
            lemma_unescape_escape(m, call_tail(p));
        }
    }
    Some((method, end))
}

/// Reads what follows the method name: the parameters and the closing brace.
fn read_params(t: &Vec<char>, end: usize) -> (r: Option<Option<String>>)
    requires
        end <= t@.len(),
    ensures
        r matches Some(p) ==> t@.subrange(end as int, t@.len() as int) == call_tail(opt_view(p)) && opt_view(p)
            != Some("null"@),
        forall|p: Option<Seq<char>>|
            p != Some("null"@) && t@.subrange(end as int, t@.len() as int) == #[trigger] call_tail(p) ==> (r matches Some(
                q) && opt_view(q) == p),
{
    proof {
        reveal_strlit(",\"params\":");
        reveal_strlit("}");
        reveal_strlit("null");
    }
    if t.len() - end < 11 || !holds_at(t, end, ",\"params\":") || t[t.len() - 1] != '}' {
        proof {
            assert forall|p: Option<Seq<char>>|
                t@.subrange(end as int, t@.len() as int) == #[trigger] call_tail(p) implies false by {
                let u = call_tail(p);
                assert(u.len() == 11 + params_text(p).len());
                assert(t@.len() - end == u.len());
                assert(u.subrange(0, 10) =~= ",\"params\":"@);
                assert(t@.subrange(end as int, end + 10) =~= t@.subrange(end as int, t@.len() as int).subrange(0, 10));
                assert(u[u.len() - 1] == '}');
                assert(t@[t@.len() - 1] == u[u.len() - 1]);
            }
        }
        return None;
    }
    let params_slice = slice_of(t, end + 10, t.len() - 1);
    let params = string_of(&params_slice);
    let is_null = params_slice.len() == 4 && holds_at(&params_slice, 0, "null");
    proof {
        assert(is_null <==> params_slice@ == "null"@) by {
            if params_slice@ == "null"@ || is_null {
                assert(params_slice@.subrange(0, 4) =~= params_slice@);
            }
        }
    }
    let r = if is_null {
        None
    } else {
        Some(params)
    };
    proof {
        assert(t@.subrange(end as int, t@.len() as int) =~= call_tail(opt_view(r)));
        assert forall|p: Option<Seq<char>>|
            p != Some("null"@) && t@.subrange(end as int, t@.len() as int) == #[trigger] call_tail(p) implies opt_view(r) == p by {
            let u = call_tail(p);
            assert(u.subrange(10, u.len() - 1) =~= params_text(p));
            assert(params_slice@ =~= u.subrange(10, u.len() - 1));
        }
    }
    Some(r)
}

/// The characters of an optional string.
pub open spec fn opt_view(p: Option<String>) -> Option<Seq<char>> {
    match p {
        Some(s) => Some(s@),
        None => None,
    }
}

/// What follows the closing quote of the method name in a call frame.
pub open spec fn call_tail(p: Option<Seq<char>>) -> Seq<char> {
    ",\"params\":"@ + params_text(p) + "}"@
}

proof fn lemma_call_layout(id: u128, m: Seq<char>, p: Option<Seq<char>>)
    ensures
        ({
            let t = call_text(id, m, p);
            &&& t.len() == 55 + escape(m).len() + 11 + params_text(p).len() + 1
            &&& t.subrange(0, 7) == "{\"id\":\""@
            &&& t.subrange(7, 43) == uuid_text(id)
            &&& t.subrange(43, 55) == "\",\"method\":\""@
            &&& t.subrange(55, t.len() as int) == escape(m) + seq!['"'] + call_tail(p)
            &&& t.subrange(55 + escape(m).len() as int, 55 + escape(m).len() + 11 as int) == "\",\"params\":"@
            &&& t.subrange(55 + escape(m).len() + 11 as int, t.len() - 1) == params_text(p)
            &&& t[t.len() - 1] == '}'
        }),
{
    reveal_strlit("{\"id\":\"");
    reveal_strlit("\",\"method\":\"");
    reveal_strlit("\",\"params\":");
    reveal_strlit(",\"params\":");
    reveal_strlit("}");
    let t = call_text(id, m, p);
    let e = escape(m);
    let q = params_text(p);
    assert(t.subrange(0, 7) =~= "{\"id\":\""@);
    assert(t.subrange(7, 43) =~= uuid_text(id));
    assert(t.subrange(43, 55) =~= "\",\"method\":\""@);
    assert(t.subrange(55, t.len() as int) =~= e + seq!['"'] + call_tail(p));
    assert(t.subrange(55 + e.len() as int, 55 + e.len() + 11 as int) =~= "\",\"params\":"@);
    assert(t.subrange(55 + e.len() + 11 as int, t.len() - 1) =~= q);
}

} // verus!

verus! {

/// Two values whose hexadecimal digits agree from position `e` upwards agree
/// on their quotient by `16^e`.
proof fn lemma_equal_from_digits(a: u128, b: u128, e: nat)
    requires
        e <= 32,
        forall|k: int| 0 <= k < 32 - e ==> nibble(a, k) == nibble(b, k),
    ensures
        a as int / pow(16, e) == b as int / pow(16, e),
    decreases 32 - e,
{
    vstd::arithmetic::power::lemma_pow_positive(16, e);
    if e == 32 {
        assert(pow(16, 32) == 0x1_0000_0000_0000_0000_0000_0000_0000_0000) by {
            reveal_with_fuel(pow, 33);
        }
        vstd::arithmetic::div_mod::lemma_basic_div(a as int, pow(16, 32));
        vstd::arithmetic::div_mod::lemma_basic_div(b as int, pow(16, 32));
    } else {
        lemma_equal_from_digits(a, b, e + 1);
        let p = pow(16, e);
        assert(pow(16, e + 1) == 16 * p) by {
            reveal_with_fuel(pow, 1);
        }
        vstd::arithmetic::div_mod::lemma_div_denominator(a as int, p, 16);
        vstd::arithmetic::div_mod::lemma_div_denominator(b as int, p, 16);
        assert(p * 16 == 16 * p) by (nonlinear_arith);
        vstd::arithmetic::div_mod::lemma_fundamental_div_mod(a as int / p, 16);
        vstd::arithmetic::div_mod::lemma_fundamental_div_mod(b as int / p, 16);
        assert(nibble(a, 31 - e) == nibble(b, 31 - e));
        assert((31 - (31 - e)) as nat == e);
    }
}

/// Different identifiers have different hyphenated forms.
pub proof fn lemma_uuid_text_injective(a: u128, b: u128)
    requires
        uuid_text(a) == uuid_text(b),
    ensures
        a == b,
{
    assert forall|k: int| 0 <= k < 32 implies nibble(a, k) == nibble(b, k) by {
        let i = if k < 8 { k } else if k < 12 { k + 1 } else if k < 16 { k + 2 } else if k < 20 { k + 3 } else { k + 4 };
        assert(digit_at(i) == k);
        assert(uuid_text(a)[i] == uuid_text(b)[i]);
        vstd::arithmetic::power::lemma_pow_positive(16, (31 - k) as nat);
        vstd::arithmetic::div_mod::lemma_div_pos_is_pos(a as int, pow(16, (31 - k) as nat));
        vstd::arithmetic::div_mod::lemma_div_pos_is_pos(b as int, pow(16, (31 - k) as nat));
        assert(0 <= nibble(a, k) < 16 && 0 <= nibble(b, k) < 16);
        assert(uuid_text(a)[i] == hex_digits()[nibble(a, k)]);
        assert(uuid_text(b)[i] == hex_digits()[nibble(b, k)]);
        lemma_hex_digit_value(nibble(a, k));
        lemma_hex_digit_value(nibble(b, k));
    }
    lemma_equal_from_digits(a, b, 0);
    assert(pow(16, 0) == 1) by {
        reveal_with_fuel(pow, 1);
    }
}

/// A call frame identifies its call: two calls that write the same frame have
/// the same identifier, method and parameters (parameters written as `null`
/// aside, which read as none). With `MethodCall::decode` accepting exactly
/// the frames `encode` writes, decoding an encoded call gives it back.
pub proof fn lemma_call_text_identifies_call(
    id_a: u128,
    method_a: Seq<char>,
    params_a: Option<Seq<char>>,
    id_b: u128,
    method_b: Seq<char>,
    params_b: Option<Seq<char>>,
)
    requires
        call_text(id_a, method_a, params_a) == call_text(id_b, method_b, params_b),
        params_a != Some("null"@),
        params_b != Some("null"@),
    ensures
        id_a == id_b,
        method_a == method_b,
        params_a == params_b,
{
    let t = call_text(id_a, method_a, params_a);
    lemma_call_layout(id_a, method_a, params_a);
    lemma_call_layout(id_b, method_b, params_b);
    lemma_uuid_text_injective(id_a, id_b);
    lemma_unescape_escape(method_a, call_tail(params_a));
    lemma_unescape_escape(method_b, call_tail(params_b));
    let whole = t.subrange(55, t.len() as int);
    assert(whole.subrange(escape(method_a).len() + 1 as int, whole.len() as int) =~= call_tail(params_a));
    assert(whole.subrange(escape(method_b).len() + 1 as int, whole.len() as int) =~= call_tail(params_b));
    let tail_a = call_tail(params_a);
    let tail_b = call_tail(params_b);
    reveal_strlit(",\"params\":");
    reveal_strlit("}");
    reveal_strlit("null");
    assert(tail_a.subrange(10, tail_a.len() - 1) =~= params_text(params_a));
    assert(tail_b.subrange(10, tail_b.len() - 1) =~= params_text(params_b));
}

} // verus!
