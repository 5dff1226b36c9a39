//! The JSON value model and the line codec.
//!
//! The wire protocol frames one JSON value per newline-terminated line.
//! Values are modelled by [`JsonValue`]; numbers are 64-bit signed
//! integers — what the protocol's counts, identifiers and conformance
//! values use — and a number with a fraction or exponent part is carried
//! opaquely as its exact wire text, never interpreted. [`SpecJson`] is
//! the mathematical model of a value, [`spec_encode`] the mathematical
//! definition of its canonical text, and the parser is specified by
//! [`spec_parse_text`].

use vstd::prelude::*;

verus! {

/// Mathematical model of a JSON value.
pub enum SpecJson {
    Null,
    Bool(bool),
    Int(int),
    Decimal(Seq<char>),
    Str(Seq<char>),
    Arr(Seq<SpecJson>),
    Obj(Seq<(Seq<char>, SpecJson)>),
}

/// A JSON value as held and produced by the client.
///
/// Object members keep their wire order; the codec neither sorts nor
/// deduplicates keys.
#[derive(Debug)]
pub enum JsonValue {
    Null,
    Bool(bool),
    Int(i64),
    Decimal(JsonNumber),
    Str(String),
    Arr(Vec<JsonValue>),
    Obj(Vec<(String, JsonValue)>),
}

/// The views of a sequence of values, element by element.
pub open spec fn views_of_values(items: Seq<JsonValue>) -> Seq<SpecJson>
    decreases items,
{
    Seq::new(
        items.len(),
        |i: int|
            if 0 <= i < items.len() {
                items[i]@
            } else {
                SpecJson::Null
            },
    )
}

/// The views of a sequence of object members, element by element.
pub open spec fn views_of_members(members: Seq<(String, JsonValue)>) -> Seq<
    (Seq<char>, SpecJson),
>
    decreases members,
{
    Seq::new(
        members.len(),
        |i: int|
            if 0 <= i < members.len() {
                (members[i].0@, members[i].1@)
            } else {
                (Seq::<char>::empty(), SpecJson::Null)
            },
    )
}

impl View for JsonValue {
    type V = SpecJson;

    open spec fn view(&self) -> SpecJson
        decreases self,
    {
        match self {
            JsonValue::Null => SpecJson::Null,
            JsonValue::Bool(b) => SpecJson::Bool(*b),
            JsonValue::Int(n) => SpecJson::Int(*n as int),
            JsonValue::Decimal(d) => SpecJson::Decimal(d@),
            JsonValue::Str(s) => SpecJson::Str(s@),
            JsonValue::Arr(items) => SpecJson::Arr(views_of_values(items@)),
            JsonValue::Obj(members) => SpecJson::Obj(views_of_members(members@)),
        }
    }
}

/// The character for one digit value, decimal or hexadecimal (lower case).
pub open spec fn spec_digit_char(d: int) -> char {
    if d == 0 {
        '0'
    } else if d == 1 {
        '1'
    } else if d == 2 {
        '2'
    } else if d == 3 {
        '3'
    } else if d == 4 {
        '4'
    } else if d == 5 {
        '5'
    } else if d == 6 {
        '6'
    } else if d == 7 {
        '7'
    } else if d == 8 {
        '8'
    } else if d == 9 {
        '9'
    } else if d == 10 {
        'a'
    } else if d == 11 {
        'b'
    } else if d == 12 {
        'c'
    } else if d == 13 {
        'd'
    } else if d == 14 {
        'e'
    } else {
        'f'
    }
}

/// The decimal digits of a natural number, most significant first.
pub open spec fn spec_dec_chars(n: nat) -> Seq<char>
    decreases n,
{
    if n < 10 {
        seq![spec_digit_char(n as int)]
    } else {
        spec_dec_chars(n / 10).push(spec_digit_char((n % 10) as int))
    }
}

/// The canonical text of an integer: a minus sign for negatives, then
/// decimal digits without leading zeros.
pub open spec fn spec_int_chars(i: int) -> Seq<char> {
    if i < 0 {
        seq!['-'] + spec_dec_chars((-i) as nat)
    } else {
        spec_dec_chars(i as nat)
    }
}

/// How one character appears inside a quoted JSON string: quote, backslash
/// and the named control characters get two-character escapes, other
/// control characters a `\u00XX` escape, and everything else stands as is.
pub open spec fn spec_escape_char(c: char) -> Seq<char> {
    if c == '"' {
        seq!['\\', '"']
    } else if c == '\\' {
        seq!['\\', '\\']
    } else if c == '\n' {
        seq!['\\', 'n']
    } else if c == '\r' {
        seq!['\\', 'r']
    } else if c == '\t' {
        seq!['\\', 't']
    } else if (c as u32) < 0x20 {
        seq!['\\', 'u', '0', '0', spec_digit_char((c as u32 / 16) as int), spec_digit_char(
            (c as u32 % 16) as int,
        )]
    } else {
        seq![c]
    }
}

/// The escaped body of a quoted string.
pub open spec fn spec_escape(s: Seq<char>) -> Seq<char>
    decreases s.len(),
{
    if s.len() == 0 {
        Seq::empty()
    } else {
        spec_escape(s.drop_last()) + spec_escape_char(s.last())
    }
}

/// A quoted, escaped JSON string.
pub open spec fn spec_quote(s: Seq<char>) -> Seq<char> {
    seq!['"'] + spec_escape(s) + seq!['"']
}

/// The canonical text of a value: compact JSON, members in order, no
/// inter-token whitespace, and — for every representable value, see
/// [`lemma_encode_line_safe`] — no raw newline, so that one encoded value
/// always fits one line of the wire protocol.
pub open spec fn spec_encode(v: SpecJson) -> Seq<char>
    decreases v, 0int,
{
    match v {
        SpecJson::Null => seq!['n', 'u', 'l', 'l'],
        SpecJson::Bool(b) => if b {
            seq!['t', 'r', 'u', 'e']
        } else {
            seq!['f', 'a', 'l', 's', 'e']
        },
        SpecJson::Int(i) => spec_int_chars(i),
        SpecJson::Decimal(t) => t,
        SpecJson::Str(s) => spec_quote(s),
        SpecJson::Arr(es) => seq!['['] + spec_encode_elems(es) + seq![']'],
        SpecJson::Obj(ms) => seq!['{'] + spec_encode_members(ms) + seq!['}'],
    }
}

/// The comma-separated element list of an encoded array.
pub open spec fn spec_encode_elems(es: Seq<SpecJson>) -> Seq<char>
    decreases es, 1int,
{
    if es.len() == 0 {
        Seq::empty()
    } else if es.len() == 1 {
        spec_encode(es.last())
    } else {
        spec_encode_elems(es.drop_last()) + seq![','] + spec_encode(es.last())
    }
}

/// The comma-separated member list of an encoded object.
pub open spec fn spec_encode_members(ms: Seq<(Seq<char>, SpecJson)>) -> Seq<char>
    decreases ms, 1int,
{
    if ms.len() == 0 {
        Seq::empty()
    } else if ms.len() == 1 {
        spec_quote(ms.last().0) + seq![':'] + spec_encode(ms.last().1)
    } else {
        spec_encode_members(ms.drop_last()) + seq![','] + spec_quote(ms.last().0) + seq![':']
            + spec_encode(ms.last().1)
    }
}

/// Relies on std's `String::push`: appends exactly the given character.
#[verifier::external_body]
pub(crate) fn push_char(out: &mut String, c: char)
    ensures
        final(out)@ == old(out)@.push(c),
{
    out.push(c);
}

/// The character for one digit value below 16.
fn digit_char(d: u64) -> (c: char)
    requires
        d < 16,
    ensures
        c == spec_digit_char(d as int),
{
    if d == 0 {
        '0'
    } else if d == 1 {
        '1'
    } else if d == 2 {
        '2'
    } else if d == 3 {
        '3'
    } else if d == 4 {
        '4'
    } else if d == 5 {
        '5'
    } else if d == 6 {
        '6'
    } else if d == 7 {
        '7'
    } else if d == 8 {
        '8'
    } else if d == 9 {
        '9'
    } else if d == 10 {
        'a'
    } else if d == 11 {
        'b'
    } else if d == 12 {
        'c'
    } else if d == 13 {
        'd'
    } else if d == 14 {
        'e'
    } else {
        'f'
    }
}

fn write_dec(n: u64, out: &mut String)
    ensures
        final(out)@ == old(out)@ + spec_dec_chars(n as nat),
    decreases n,
{
    if n < 10 {
        let c = digit_char(n);
        push_char(out, c);
        proof {
            assert(old(out)@.push(c) =~= old(out)@ + seq![c]);
        }
    } else {
        write_dec(n / 10, out);
        let c = digit_char(n % 10);
        push_char(out, c);
        proof {
            assert((old(out)@ + spec_dec_chars((n / 10) as nat)).push(c) =~= old(out)@
                + spec_dec_chars((n / 10) as nat).push(c));
        }
    }
}

fn write_int(n: i64, out: &mut String)
    ensures
        final(out)@ == old(out)@ + spec_int_chars(n as int),
{
    if n < 0 {
        push_char(out, '-');
        let mag: u64 = (-(n as i128)) as u64;
        write_dec(mag, out);
        proof {
            assert(mag as nat == (-(n as int)) as nat);
            assert(old(out)@.push('-') + spec_dec_chars(mag as nat) =~= old(out)@ + (seq!['-']
                + spec_dec_chars((-(n as int)) as nat)));
        }
    } else {
        write_dec(n as u64, out);
    }
}

proof fn lemma_escape_take_snoc(s: Seq<char>, i: int)
    requires
        0 <= i < s.len(),
    ensures
        spec_escape(s.take(i + 1)) == spec_escape(s.take(i)) + spec_escape_char(s[i]),
{
    assert(s.take(i + 1).drop_last() =~= s.take(i));
    assert(s.take(i + 1).last() == s[i]);
}

fn write_escaped(s: &str, out: &mut String)
    ensures
        final(out)@ == old(out)@ + spec_escape(s@),
{
    let ghost base: Seq<char> = out@;
    let n = s.unicode_len();
    let mut i: usize = 0;
    while i < n
        invariant
            i <= n,
            n == s@.len(),
            out@ == base + spec_escape(s@.take(i as int)),
        decreases n - i,
    {
        let ghost before: Seq<char> = out@;
        let c = s.get_char(i);
        if c == '"' {
            push_char(out, '\\');
            push_char(out, '"');
        } else if c == '\\' {
            push_char(out, '\\');
            push_char(out, '\\');
        } else if c == '\n' {
            push_char(out, '\\');
            push_char(out, 'n');
        } else if c == '\r' {
            push_char(out, '\\');
            push_char(out, 'r');
        } else if c == '\t' {
            push_char(out, '\\');
            push_char(out, 't');
        } else if (c as u32) < 0x20 {
            push_char(out, '\\');
            push_char(out, 'u');
            push_char(out, '0');
            push_char(out, '0');
            let hi = digit_char((c as u32 / 16) as u64);
            push_char(out, hi);
            let lo = digit_char((c as u32 % 16) as u64);
            push_char(out, lo);
        } else {
            push_char(out, c);
        }
        proof {
            lemma_escape_take_snoc(s@, i as int);
            assert(out@ =~= before + spec_escape_char(c));
            assert(out@ =~= base + spec_escape(s@.take(i as int + 1)));
        }
        i += 1;
    }
    proof {
        assert(s@.take(n as int) =~= s@);
    }
}

proof fn lemma_elems_take_snoc(es: Seq<SpecJson>, i: int)
    requires
        0 <= i < es.len(),
    ensures
        spec_encode_elems(es.take(i + 1)) == if i == 0 {
            spec_encode(es[0])
        } else {
            spec_encode_elems(es.take(i)) + seq![','] + spec_encode(es[i])
        },
{
    assert(es.take(i + 1).drop_last() =~= es.take(i));
    assert(es.take(i + 1).last() == es[i]);
}

proof fn lemma_members_take_snoc(ms: Seq<(Seq<char>, SpecJson)>, i: int)
    requires
        0 <= i < ms.len(),
    ensures
        spec_encode_members(ms.take(i + 1)) == if i == 0 {
            spec_quote(ms[0].0) + seq![':'] + spec_encode(ms[0].1)
        } else {
            spec_encode_members(ms.take(i)) + seq![','] + spec_quote(ms[i].0) + seq![':']
                + spec_encode(ms[i].1)
        },
{
    assert(ms.take(i + 1).drop_last() =~= ms.take(i));
    assert(ms.take(i + 1).last() == ms[i]);
}

fn write_json(v: &JsonValue, out: &mut String)
    ensures
        final(out)@ == old(out)@ + spec_encode(v@),
    decreases v, 0int,
{
    match v {
        JsonValue::Null => {
            push_char(out, 'n');
            push_char(out, 'u');
            push_char(out, 'l');
            push_char(out, 'l');
            proof {
                assert(final(out)@ =~= old(out)@ + seq!['n', 'u', 'l', 'l']);
            }
        },
        JsonValue::Bool(b) => {
            if *b {
                push_char(out, 't');
                push_char(out, 'r');
                push_char(out, 'u');
                push_char(out, 'e');
                proof {
                    assert(final(out)@ =~= old(out)@ + seq!['t', 'r', 'u', 'e']);
                }
            } else {
                push_char(out, 'f');
                push_char(out, 'a');
                push_char(out, 'l');
                push_char(out, 's');
                push_char(out, 'e');
                proof {
                    assert(final(out)@ =~= old(out)@ + seq!['f', 'a', 'l', 's', 'e']);
                }
            }
        },
        JsonValue::Int(n) => {
            write_int(*n, out);
        },
        JsonValue::Decimal(d) => {
            out.append(d.text.as_str());
        },
        JsonValue::Str(s) => {
            push_char(out, '"');
            write_escaped(s.as_str(), out);
            push_char(out, '"');
            proof {
                assert(final(out)@ =~= old(out)@ + spec_quote(s@));
            }
        },
        JsonValue::Arr(items) => {
            push_char(out, '[');
            write_elems(items, out);
            push_char(out, ']');
            proof {
                assert(final(out)@ =~= old(out)@ + (seq!['['] + spec_encode_elems(
                    views_of_values(items@),
                ) + seq![']']));
            }
        },
        JsonValue::Obj(members) => {
            push_char(out, '{');
            write_members(members, out);
            push_char(out, '}');
            proof {
                assert(final(out)@ =~= old(out)@ + (seq!['{'] + spec_encode_members(
                    views_of_members(members@),
                ) + seq!['}']));
            }
        },
    }
}

fn write_elems(items: &Vec<JsonValue>, out: &mut String)
    ensures
        final(out)@ == old(out)@ + spec_encode_elems(views_of_values(items@)),
    decreases items, 1int,
{
    let ghost vs: Seq<SpecJson> = views_of_values(items@);
    let ghost base: Seq<char> = out@;
    let mut j: usize = 0;
    while j < items.len()
        invariant
            j <= items@.len(),
            vs == views_of_values(items@),
            out@ == base + spec_encode_elems(vs.take(j as int)),
        decreases items@.len() - j,
    {
        let ghost before: Seq<char> = out@;
        if j > 0 {
            push_char(out, ',');
        }
        proof {
            assert(decreases_to!(items => items@[j as int]));
        }
        write_json(&items[j], out);
        proof {
            assert(vs[j as int] == items@[j as int]@);
            lemma_elems_take_snoc(vs, j as int);
            if j > 0 {
                assert(out@ =~= before + seq![','] + spec_encode(vs[j as int]));
            }
            assert(out@ =~= base + spec_encode_elems(vs.take(j as int + 1)));
        }
        j += 1;
    }
    proof {
        assert(vs.take(items@.len() as int) =~= vs);
    }
}

fn write_members(members: &Vec<(String, JsonValue)>, out: &mut String)
    ensures
        final(out)@ == old(out)@ + spec_encode_members(views_of_members(members@)),
    decreases members, 1int,
{
    let ghost vs: Seq<(Seq<char>, SpecJson)> = views_of_members(members@);
    let ghost base: Seq<char> = out@;
    let mut j: usize = 0;
    while j < members.len()
        invariant
            j <= members@.len(),
            vs == views_of_members(members@),
            out@ == base + spec_encode_members(vs.take(j as int)),
        decreases members@.len() - j,
    {
        let ghost before: Seq<char> = out@;
        if j > 0 {
            push_char(out, ',');
        }
        push_char(out, '"');
        write_escaped(members[j].0.as_str(), out);
        push_char(out, '"');
        push_char(out, ':');
        proof {
            assert(decreases_to!(members => members@[j as int].1));
        }
        write_json(&members[j].1, out);
        proof {
            assert(vs[j as int] == (members@[j as int].0@, members@[j as int].1@));
            lemma_members_take_snoc(vs, j as int);
            if j > 0 {
                assert(out@ =~= before + seq![','] + spec_quote(vs[j as int].0) + seq![':']
                    + spec_encode(vs[j as int].1));
            } else {
                assert(out@ =~= before + spec_quote(vs[j as int].0) + seq![':'] + spec_encode(
                    vs[j as int].1,
                ));
            }
            assert(out@ =~= base + spec_encode_members(vs.take(j as int + 1)));
        }
        j += 1;
    }
    proof {
        assert(vs.take(members@.len() as int) =~= vs);
    }
}

/// Encode one value as its canonical compact JSON text.
pub fn encode_json(v: &JsonValue) -> (s: String)
    ensures
        s@ == spec_encode(v@),
{
    let mut out = String::new();
    write_json(v, &mut out);
    out
}

/// JSON whitespace.
pub open spec fn spec_is_ws(c: char) -> bool {
    c == ' ' || c == '\t' || c == '\n' || c == '\r'
}

/// The first index at or after `i` holding no whitespace.
pub open spec fn spec_skip_ws(s: Seq<char>, i: int) -> int
    decreases s.len() - i,
{
    if 0 <= i < s.len() && spec_is_ws(s[i]) {
        spec_skip_ws(s, i + 1)
    } else {
        i
    }
}

/// A decimal digit.
pub open spec fn spec_is_digit(c: char) -> bool {
    48 <= c as u32 <= 57
}

pub open spec fn spec_digit_val(c: char) -> nat {
    (c as u32 - 48) as nat
}

/// A hexadecimal digit, either case.
pub open spec fn spec_is_hex(c: char) -> bool {
    spec_is_digit(c) || 97 <= c as u32 <= 102 || 65 <= c as u32 <= 70
}

pub open spec fn spec_hex_val(c: char) -> nat {
    if spec_is_digit(c) {
        spec_digit_val(c)
    } else if 97 <= c as u32 {
        (c as u32 - 87) as nat
    } else {
        (c as u32 - 55) as nat
    }
}

/// Consume a run of decimal digits starting at `i`, folding them onto `acc`;
/// the result is the folded value and the index just past the run.
pub open spec fn spec_parse_digits(s: Seq<char>, i: int, acc: nat) -> (nat, int)
    decreases s.len() - i,
{
    if 0 <= i < s.len() && spec_is_digit(s[i]) {
        spec_parse_digits(s, i + 1, acc * 10 + spec_digit_val(s[i]))
    } else {
        (acc, i)
    }
}

/// The index just past the run of decimal digits starting at `i`.
pub open spec fn spec_digit_run_end(s: Seq<char>, i: int) -> int {
    spec_parse_digits(s, i, 0).1
}

/// A character that can stand in a number lexeme.
pub open spec fn spec_is_number_char(c: char) -> bool {
    spec_is_digit(c) || c == '-' || c == '+' || c == '.' || c == 'e' || c == 'E'
}

/// Consume an optional fraction part at `j`: a dot must be followed by at
/// least one digit; no dot means no fraction.
pub open spec fn spec_parse_frac(s: Seq<char>, j: int) -> Option<int> {
    if 0 <= j < s.len() && s[j] == '.' {
        if j + 1 < s.len() && spec_is_digit(s[j + 1]) {
            Some(spec_digit_run_end(s, j + 1))
        } else {
            None
        }
    } else {
        Some(j)
    }
}

/// Consume an optional exponent part at `j`: an exponent mark, an
/// optional sign, and at least one digit.
pub open spec fn spec_parse_exp(s: Seq<char>, j: int) -> Option<int> {
    if 0 <= j < s.len() && (s[j] == 'e' || s[j] == 'E') {
        let k = if j + 1 < s.len() && (s[j + 1] == '+' || s[j + 1] == '-') {
            j + 2
        } else {
            j + 1
        };
        if k < s.len() && spec_is_digit(s[k]) {
            Some(spec_digit_run_end(s, k))
        } else {
            None
        }
    } else {
        Some(j)
    }
}

/// The end of a number whose integer digits end at `j`: a fraction part,
/// then an exponent part, each optional; nothing if either is malformed.
pub open spec fn spec_number_end(s: Seq<char>, j: int) -> Option<int> {
    match spec_parse_frac(s, j) {
        None => None,
        Some(j1) => spec_parse_exp(s, j1),
    }
}

/// The whole text is exactly one number of the grammar that carries a
/// fraction or an exponent part — one the integer model does not hold —
/// and holds number characters only.
pub open spec fn spec_opaque_number_lexeme(t: Seq<char>) -> bool {
    let i0: int = if t.len() > 0 && t[0] == '-' {
        1
    } else {
        0
    };
    &&& i0 < t.len()
    &&& spec_is_digit(t[i0])
    &&& (match spec_number_end(t, spec_digit_run_end(t, i0)) {
        Some(k) => k == t.len() && k != spec_digit_run_end(t, i0),
        None => false,
    })
    &&& (forall|k: int| 0 <= k < t.len() ==> spec_is_number_char(#[trigger] t[k]))
}

/// Consume the body of a quoted string from `i` (just past the opening
/// quote) up to and including the closing quote, appending the decoded
/// characters to `acc`. Escapes for quote, backslash, slash, the named
/// control characters and `\uXXXX` (excluding surrogate code points) are
/// decoded; unescaped control characters are refused.
pub open spec fn spec_parse_string(s: Seq<char>, i: int, acc: Seq<char>) -> Option<
    (Seq<char>, int),
>
    decreases s.len() - i,
{
    if i < 0 || i >= s.len() {
        None
    } else {
        let c = s[i];
        if c == '"' {
            Some((acc, i + 1))
        } else if c == '\\' {
            if i + 1 < s.len() {
                let e = s[i + 1];
                if e == '"' {
                    spec_parse_string(s, i + 2, acc.push('"'))
                } else if e == '\\' {
                    spec_parse_string(s, i + 2, acc.push('\\'))
                } else if e == '/' {
                    spec_parse_string(s, i + 2, acc.push('/'))
                } else if e == 'n' {
                    spec_parse_string(s, i + 2, acc.push('\n'))
                } else if e == 'r' {
                    spec_parse_string(s, i + 2, acc.push('\r'))
                } else if e == 't' {
                    spec_parse_string(s, i + 2, acc.push('\t'))
                } else if e == 'b' {
                    spec_parse_string(s, i + 2, acc.push('\u{8}'))
                } else if e == 'f' {
                    spec_parse_string(s, i + 2, acc.push('\u{c}'))
                } else if e == 'u' {
                    if i + 6 <= s.len() && spec_is_hex(s[i + 2]) && spec_is_hex(s[i + 3])
                        && spec_is_hex(s[i + 4]) && spec_is_hex(s[i + 5]) {
                        let v = spec_hex_val(s[i + 2]) * 0x1000 + spec_hex_val(s[i + 3]) * 0x100
                            + spec_hex_val(s[i + 4]) * 0x10 + spec_hex_val(s[i + 5]);
                        if 0xD800 <= v < 0xE000 {
                            None
                        } else {
                            spec_parse_string(s, i + 6, acc.push(v as char))
                        }
                    } else {
                        None
                    }
                } else {
                    None
                }
            } else {
                None
            }
        } else if (c as u32) < 0x20 {
            None
        } else {
            spec_parse_string(s, i + 1, acc.push(c))
        }
    }
}

/// The text `t` occurs in `s` at position `i`.
pub open spec fn spec_has_at(s: Seq<char>, i: int, t: Seq<char>) -> bool {
    0 <= i && i + t.len() <= s.len() && s.subrange(i, i + t.len()) == t
}

/// Parse one JSON value starting exactly at `i`: the value and the index
/// just past it, or nothing if no value of the grammar starts there.
/// A number without fraction and exponent part must fit a 64-bit signed
/// integer; one with either is carried opaquely as its exact lexeme.
pub open spec fn spec_parse_value(s: Seq<char>, i: int) -> Option<(SpecJson, int)>
    decreases s.len() - i, 0int,
{
    if i < 0 || i >= s.len() {
        None
    } else {
        let c = s[i];
        if c == 'n' {
            if spec_has_at(s, i, seq!['n', 'u', 'l', 'l']) {
                Some((SpecJson::Null, i + 4))
            } else {
                None
            }
        } else if c == 't' {
            if spec_has_at(s, i, seq!['t', 'r', 'u', 'e']) {
                Some((SpecJson::Bool(true), i + 4))
            } else {
                None
            }
        } else if c == 'f' {
            if spec_has_at(s, i, seq!['f', 'a', 'l', 's', 'e']) {
                Some((SpecJson::Bool(false), i + 5))
            } else {
                None
            }
        } else if c == '"' {
            match spec_parse_string(s, i + 1, Seq::empty()) {
                Some((cs, j)) => Some((SpecJson::Str(cs), j)),
                None => None,
            }
        } else if c == '-' {
            if i + 1 < s.len() && spec_is_digit(s[i + 1]) {
                let (m, j) = spec_parse_digits(s, i + 1, 0);
                match spec_number_end(s, j) {
                    None => None,
                    Some(k) => if k != j {
                        let lex = s.subrange(i, k);
                        if spec_opaque_number_lexeme(lex) {
                            Some((SpecJson::Decimal(lex), k))
                        } else {
                            None
                        }
                    } else if m <= 0x8000_0000_0000_0000 {
                        Some((SpecJson::Int(-(m as int)), j))
                    } else {
                        None
                    },
                }
            } else {
                None
            }
        } else if spec_is_digit(c) {
            let (m, j) = spec_parse_digits(s, i, 0);
            match spec_number_end(s, j) {
                None => None,
                Some(k) => if k != j {
                    let lex = s.subrange(i, k);
                    if spec_opaque_number_lexeme(lex) {
                        Some((SpecJson::Decimal(lex), k))
                    } else {
                        None
                    }
                } else if m <= 0x7fff_ffff_ffff_ffff {
                    Some((SpecJson::Int(m as int), j))
                } else {
                    None
                },
            }
        } else if c == '[' {
            if i + 1 < s.len() && s[i + 1] == ']' {
                Some((SpecJson::Arr(Seq::empty()), i + 2))
            } else {
                match spec_parse_elems(s, i + 1, Seq::empty()) {
                    Some((es, j)) => Some((SpecJson::Arr(es), j)),
                    None => None,
                }
            }
        } else if c == '{' {
            if i + 1 < s.len() && s[i + 1] == '}' {
                Some((SpecJson::Obj(Seq::empty()), i + 2))
            } else {
                match spec_parse_members(s, i + 1, Seq::empty()) {
                    Some((ms, j)) => Some((SpecJson::Obj(ms), j)),
                    None => None,
                }
            }
        } else {
            None
        }
    }
}

/// Parse the element list of a non-empty array, the first element starting
/// at `i`; earlier elements are in `acc`. Ends just past the closing
/// bracket. (The index guards refuse an element that consumed nothing —
/// no value of the grammar does — and keep the definition visibly
/// terminating.)
pub open spec fn spec_parse_elems(s: Seq<char>, i: int, acc: Seq<SpecJson>) -> Option<
    (Seq<SpecJson>, int),
>
    decreases s.len() - i, 1int,
{
    match spec_parse_value(s, i) {
        None => None,
        Some((v, j)) => {
            if j <= i || j >= s.len() {
                None
            } else if s[j] == ',' {
                spec_parse_elems(s, j + 1, acc.push(v))
            } else if s[j] == ']' {
                Some((acc.push(v), j + 1))
            } else {
                None
            }
        },
    }
}

/// Parse the member list of a non-empty object, the first key's opening
/// quote standing at `i`; earlier members are in `acc`. Ends just past the
/// closing brace. The index guards are as in the element-list parser.
pub open spec fn spec_parse_members(s: Seq<char>, i: int, acc: Seq<(Seq<char>, SpecJson)>) -> Option<
    (Seq<(Seq<char>, SpecJson)>, int),
>
    decreases s.len() - i, 1int,
{
    if i < 0 || i >= s.len() || s[i] != '"' {
        None
    } else {
        match spec_parse_string(s, i + 1, Seq::empty()) {
            None => None,
            Some((k, j)) => {
                if j <= i || j >= s.len() || s[j] != ':' {
                    None
                } else {
                    match spec_parse_value(s, j + 1) {
                        None => None,
                        Some((v, j2)) => {
                            if j2 <= j || j2 >= s.len() {
                                None
                            } else if s[j2] == ',' {
                                spec_parse_members(s, j2 + 1, acc.push((k, v)))
                            } else if s[j2] == '}' {
                                Some((acc.push((k, v)), j2 + 1))
                            } else {
                                None
                            }
                        },
                    }
                }
            },
        }
    }
}

/// Parse one line of text as exactly one JSON value, with whitespace
/// allowed before and after it and nothing else.
pub open spec fn spec_parse_text(s: Seq<char>) -> Option<SpecJson> {
    match spec_parse_value(s, spec_skip_ws(s, 0)) {
        None => None,
        Some((v, j)) => if spec_skip_ws(s, j) == s.len() {
            Some(v)
        } else {
            None
        },
    }
}

/// Relies on std's `char::from_u32`: a value is `Some` exactly for the
/// valid scalar values (below the surrogate range or between it and
/// 0x110000), and holds the character with that code.
#[verifier::external_body]
fn char_from_u32(v: u32) -> (r: Option<char>)
    ensures
        (v < 0xD800 || (0xE000 <= v < 0x110000)) <==> r is Some,
        r matches Some(c) ==> c == v as char,
{
    char::from_u32(v)
}

fn is_digit(c: char) -> (r: bool)
    ensures
        r == spec_is_digit(c),
{
    let v = c as u32;
    48 <= v && v <= 57
}

fn digit_val(c: char) -> (r: u64)
    requires
        spec_is_digit(c),
    ensures
        r as nat == spec_digit_val(c),
        r <= 9,
{
    (c as u32 - 48) as u64
}

fn is_hex(c: char) -> (r: bool)
    ensures
        r == spec_is_hex(c),
{
    let v = c as u32;
    (48 <= v && v <= 57) || (97 <= v && v <= 102) || (65 <= v && v <= 70)
}

fn hex_val(c: char) -> (r: u32)
    requires
        spec_is_hex(c),
    ensures
        r as nat == spec_hex_val(c),
        r <= 15,
{
    let v = c as u32;
    if 48 <= v && v <= 57 {
        v - 48
    } else if 97 <= v {
        v - 87
    } else {
        v - 55
    }
}

fn skip_ws(s: &Vec<char>, start: usize) -> (j: usize)
    requires
        start <= s@.len(),
    ensures
        j as int == spec_skip_ws(s@, start as int),
        start <= j <= s@.len(),
{
    let mut i: usize = start;
    loop
        invariant
            start <= i <= s@.len(),
            spec_skip_ws(s@, start as int) == spec_skip_ws(s@, i as int),
        decreases s@.len() - i,
    {
        if i >= s.len() {
            return i;
        }
        let c = s[i];
        if c == ' ' || c == '\t' || c == '\n' || c == '\r' {
            i = i + 1;
        } else {
            return i;
        }
    }
}

fn match_lit4(s: &Vec<char>, i: usize, c0: char, c1: char, c2: char, c3: char) -> (r: bool)
    requires
        i < s@.len(),
        s@[i as int] == c0,
    ensures
        r == spec_has_at(s@, i as int, seq![c0, c1, c2, c3]),
{
    let ghost t: Seq<char> = seq![c0, c1, c2, c3];
    if s.len() - i >= 4 {
        let r = s[i + 1] == c1 && s[i + 2] == c2 && s[i + 3] == c3;
        proof {
            if r {
                assert(s@.subrange(i as int, i as int + 4) =~= t);
            } else if spec_has_at(s@, i as int, t) {
                assert(s@[i as int + 1] == s@.subrange(i as int, i as int + 4)[1]);
                assert(s@[i as int + 2] == s@.subrange(i as int, i as int + 4)[2]);
                assert(s@[i as int + 3] == s@.subrange(i as int, i as int + 4)[3]);
            }
        }
        r
    } else {
        false
    }
}

fn match_lit5(s: &Vec<char>, i: usize, c0: char, c1: char, c2: char, c3: char, c4: char) -> (r:
    bool)
    requires
        i < s@.len(),
        s@[i as int] == c0,
    ensures
        r == spec_has_at(s@, i as int, seq![c0, c1, c2, c3, c4]),
{
    let ghost t: Seq<char> = seq![c0, c1, c2, c3, c4];
    if s.len() - i >= 5 {
        let r = s[i + 1] == c1 && s[i + 2] == c2 && s[i + 3] == c3 && s[i + 4] == c4;
        proof {
            if r {
                assert(s@.subrange(i as int, i as int + 5) =~= t);
            } else if spec_has_at(s@, i as int, t) {
                assert(s@[i as int + 1] == s@.subrange(i as int, i as int + 5)[1]);
                assert(s@[i as int + 2] == s@.subrange(i as int, i as int + 5)[2]);
                assert(s@[i as int + 3] == s@.subrange(i as int, i as int + 5)[3]);
                assert(s@[i as int + 4] == s@.subrange(i as int, i as int + 5)[4]);
            }
        }
        r
    } else {
        false
    }
}

/// A digit run's folded value never falls below the value folded so far.
/// Where a digit run ends does not depend on the value folded so far.
proof fn lemma_digits_end_indep(s: Seq<char>, i: int, a: nat, b: nat)
    ensures
        spec_parse_digits(s, i, a).1 == spec_parse_digits(s, i, b).1,
    decreases s.len() - i,
{
    if 0 <= i < s.len() && spec_is_digit(s[i]) {
        lemma_digits_end_indep(
            s,
            i + 1,
            a * 10 + spec_digit_val(s[i]),
            b * 10 + spec_digit_val(s[i]),
        );
    }
}

/// A digit run's shape: it reaches no further than the text, holds
/// digits only, and stops at the first non-digit.
proof fn lemma_digit_run_props(s: Seq<char>, i: int)
    requires
        0 <= i <= s.len(),
    ensures
        i <= spec_digit_run_end(s, i) <= s.len(),
        forall|k: int| i <= k < spec_digit_run_end(s, i) ==> spec_is_digit(#[trigger] s[k]),
        spec_digit_run_end(s, i) < s.len() ==> !spec_is_digit(s[spec_digit_run_end(s, i)]),
    decreases s.len() - i,
{
    if i < s.len() && spec_is_digit(s[i]) {
        lemma_digit_run_props(s, i + 1);
        lemma_digits_end_indep(s, i + 1, spec_digit_val(s[i]), 0);
        assert(spec_digit_run_end(s, i) == spec_digit_run_end(s, i + 1));
    }
}

/// The index just past the run of decimal digits starting at `start`.
fn scan_digits(s: &Vec<char>, start: usize) -> (r: usize)
    requires
        start <= s@.len(),
    ensures
        r as int == spec_digit_run_end(s@, start as int),
        start <= r <= s@.len(),
{
    let mut i: usize = start;
    loop
        invariant
            start <= i <= s@.len(),
            spec_digit_run_end(s@, start as int) == spec_digit_run_end(s@, i as int),
        decreases s@.len() - i,
    {
        if i >= s.len() {
            return i;
        }
        if !is_digit(s[i]) {
            return i;
        }
        proof {
            lemma_digits_end_indep(s@, i as int + 1, spec_digit_val(s@[i as int]), 0);
            assert(spec_digit_run_end(s@, i as int) == spec_digit_run_end(s@, i as int + 1));
        }
        i = i + 1;
    }
}

/// The end of a number whose integer digits end at `j`, as
/// [`spec_number_end`] says.
fn scan_number_tail(s: &Vec<char>, j: usize) -> (r: Option<usize>)
    requires
        j <= s@.len(),
    ensures
        r matches Some(k) ==> spec_number_end(s@, j as int) == Some(k as int) && j <= k
            <= s@.len(),
        r is None ==> spec_number_end(s@, j as int) is None,
{
    let j1: usize;
    if j < s.len() && s[j] == '.' {
        if j + 1 < s.len() && is_digit(s[j + 1]) {
            j1 = scan_digits(s, j + 1);
        } else {
            return None;
        }
    } else {
        j1 = j;
    }
    if j1 < s.len() && (s[j1] == 'e' || s[j1] == 'E') {
        let k0: usize = if j1 + 1 < s.len() && (s[j1 + 1] == '+' || s[j1 + 1] == '-') {
            j1 + 2
        } else {
            j1 + 1
        };
        if k0 < s.len() && is_digit(s[k0]) {
            Some(scan_digits(s, k0))
        } else {
            None
        }
    } else {
        Some(j1)
    }
}

/// The characters `s[start..end]` as one string.
fn chars_substring(s: &Vec<char>, start: usize, end: usize) -> (r: String)
    requires
        start <= end <= s@.len(),
    ensures
        r@ == s@.subrange(start as int, end as int),
{
    let mut text = String::new();
    proof {
        assert(s@.subrange(start as int, start as int) =~= Seq::<char>::empty());
    }
    let mut p: usize = start;
    while p < end
        invariant
            start <= p <= end <= s@.len(),
            text@ == s@.subrange(start as int, p as int),
        decreases end - p,
    {
        push_char(&mut text, s[p]);
        proof {
            assert(s@.subrange(start as int, p as int + 1) =~= s@.subrange(
                start as int,
                p as int,
            ).push(s@[p as int]));
        }
        p += 1;
    }
    text
}

fn is_number_char(c: char) -> (r: bool)
    ensures
        r == spec_is_number_char(c),
{
    is_digit(c) || c == '-' || c == '+' || c == '.' || c == 'e' || c == 'E'
}

/// The text is exactly one opaque-number lexeme, as
/// [`spec_opaque_number_lexeme`] says.
fn is_opaque_number(text: &str) -> (r: bool)
    ensures
        r == spec_opaque_number_lexeme(text@),
{
    let t = chars_of(text);
    let n = t.len();
    let i0: usize = if n > 0 && t[0] == '-' {
        1
    } else {
        0
    };
    if i0 >= n {
        return false;
    }
    if !is_digit(t[i0]) {
        return false;
    }
    let j = scan_digits(&t, i0);
    let k: usize = match scan_number_tail(&t, j) {
        None => {
            return false;
        },
        Some(k) => k,
    };
    if !(k == n && k != j) {
        return false;
    }
    let mut p: usize = 0;
    while p < n
        invariant
            p <= n,
            n == text@.len(),
            t@ == text@,
            forall|q: int| 0 <= q < p ==> spec_is_number_char(#[trigger] text@[q]),
        decreases n - p,
    {
        if !is_number_char(t[p]) {
            proof {
                if spec_opaque_number_lexeme(text@) {
                    assert(spec_is_number_char(text@[p as int]));
                }
            }
            return false;
        }
        p += 1;
    }
    true
}

/// A JSON number that the integer model does not hold: one with a
/// fraction or an exponent part. It is carried as its exact wire text and
/// never interpreted; the client passes it through untouched.
#[derive(Debug)]
pub struct JsonNumber {
    text: String,
}

impl View for JsonNumber {
    type V = Seq<char>;

    closed spec fn view(&self) -> Seq<char> {
        self.text@
    }
}

impl JsonNumber {
    /// Every number of this type holds a whole lexeme of the number
    /// grammar with a fraction or exponent part.
    #[verifier::type_invariant]
    closed spec fn wf(&self) -> bool {
        spec_opaque_number_lexeme(self.text@)
    }

    /// Wrap a number text; refused unless the text is exactly one number
    /// of the grammar with a fraction or exponent part.
    pub fn new(text: String) -> (r: Option<JsonNumber>)
        ensures
            r matches Some(num) ==> num@ == text@ && spec_opaque_number_lexeme(text@),
            r is None ==> !spec_opaque_number_lexeme(text@),
    {
        if is_opaque_number(text.as_str()) {
            Some(JsonNumber { text })
        } else {
            None
        }
    }

    /// The number's exact wire text.
    pub fn text(&self) -> (r: &String)
        ensures
            r@ == self@,
    {
        &self.text
    }

    /// A second carrier of the same number text.
    pub fn duplicate(&self) -> (r: JsonNumber)
        ensures
            r@ == self@,
    {
        proof {
            use_type_invariant(self);
        }
        JsonNumber { text: self.text.clone() }
    }
}

proof fn lemma_digits_lower_bound(s: Seq<char>, i: int, acc: nat)
    ensures
        spec_parse_digits(s, i, acc).0 >= acc,
    decreases s.len() - i,
{
    if 0 <= i < s.len() && spec_is_digit(s[i]) {
        lemma_digits_lower_bound(s, i + 1, acc * 10 + spec_digit_val(s[i]));
    }
}

fn parse_digits(s: &Vec<char>, start: usize, first: u64) -> (r: Option<(u64, usize)>)
    requires
        start <= s@.len(),
        first <= 9,
    ensures
        r matches Some(p) ==> spec_parse_digits(s@, start as int, first as nat) == (
            p.0 as nat,
            p.1 as int,
        ) && start <= p.1 <= s@.len(),
        r is None ==> spec_parse_digits(s@, start as int, first as nat).0 > u64::MAX,
{
    let mut acc: u64 = first;
    let mut i: usize = start;
    loop
        invariant
            start <= i <= s@.len(),
            spec_parse_digits(s@, start as int, first as nat) == spec_parse_digits(
                s@,
                i as int,
                acc as nat,
            ),
        decreases s@.len() - i,
    {
        if i >= s.len() {
            return Some((acc, i));
        }
        let c = s[i];
        if !is_digit(c) {
            return Some((acc, i));
        }
        let d = digit_val(c);
        let next: u128 = acc as u128 * 10 + d as u128;
        if next > u64::MAX as u128 {
            proof {
                lemma_digits_lower_bound(s@, i as int + 1, acc as nat * 10 + spec_digit_val(c));
            }
            return None;
        }
        acc = next as u64;
        i = i + 1;
    }
}

fn parse_string_body(s: &Vec<char>, start: usize) -> (r: Option<(String, usize)>)
    requires
        start <= s@.len(),
    ensures
        r matches Some(p) ==> spec_parse_string(s@, start as int, Seq::empty()) == Some(
            (p.0@, p.1 as int),
        ) && start < p.1 <= s@.len(),
        r is None ==> spec_parse_string(s@, start as int, Seq::empty()) is None,
{
    let mut acc = String::new();
    let mut i: usize = start;
    loop
        invariant
            start <= i <= s@.len(),
            spec_parse_string(s@, start as int, Seq::empty()) == spec_parse_string(
                s@,
                i as int,
                acc@,
            ),
        decreases s@.len() - i,
    {
        if i >= s.len() {
            return None;
        }
        let c = s[i];
        if c == '"' {
            return Some((acc, i + 1));
        } else if c == '\\' {
            if s.len() - i < 2 {
                return None;
            }
            let e = s[i + 1];
            if e == '"' {
                push_char(&mut acc, '"');
                i = i + 2;
            } else if e == '\\' {
                push_char(&mut acc, '\\');
                i = i + 2;
            } else if e == '/' {
                push_char(&mut acc, '/');
                i = i + 2;
            } else if e == 'n' {
                push_char(&mut acc, '\n');
                i = i + 2;
            } else if e == 'r' {
                push_char(&mut acc, '\r');
                i = i + 2;
            } else if e == 't' {
                push_char(&mut acc, '\t');
                i = i + 2;
            } else if e == 'b' {
                push_char(&mut acc, '\u{8}');
                i = i + 2;
            } else if e == 'f' {
                push_char(&mut acc, '\u{c}');
                i = i + 2;
            } else if e == 'u' {
                if s.len() - i < 6 {
                    return None;
                }
                let h0 = s[i + 2];
                let h1 = s[i + 3];
                let h2 = s[i + 4];
                let h3 = s[i + 5];
                if !(is_hex(h0) && is_hex(h1) && is_hex(h2) && is_hex(h3)) {
                    return None;
                }
                let v: u32 = hex_val(h0) * 0x1000 + hex_val(h1) * 0x100 + hex_val(h2) * 0x10
                    + hex_val(h3);
                if 0xD800 <= v && v < 0xE000 {
                    return None;
                }
                match char_from_u32(v) {
                    Some(c2) => {
                        push_char(&mut acc, c2);
                        i = i + 6;
                    },
                    None => {
                        proof {
                            assert(false);
                        }
                    },
                }
            } else {
                return None;
            }
        } else if (c as u32) < 0x20 {
            return None;
        } else {
            push_char(&mut acc, c);
            i = i + 1;
        }
    }
}

fn parse_value(s: &Vec<char>, i: usize) -> (r: Option<(JsonValue, usize)>)
    requires
        i <= s@.len(),
    ensures
        r matches Some(p) ==> spec_parse_value(s@, i as int) == Some((p.0@, p.1 as int)) && i < p.1
            <= s@.len(),
        r is None ==> spec_parse_value(s@, i as int) is None,
    decreases s@.len() - i, 0int,
{
    if i >= s.len() {
        return None;
    }
    let c = s[i];
    if c == 'n' {
        if match_lit4(s, i, 'n', 'u', 'l', 'l') {
            Some((JsonValue::Null, i + 4))
        } else {
            None
        }
    } else if c == 't' {
        if match_lit4(s, i, 't', 'r', 'u', 'e') {
            Some((JsonValue::Bool(true), i + 4))
        } else {
            None
        }
    } else if c == 'f' {
        if match_lit5(s, i, 'f', 'a', 'l', 's', 'e') {
            Some((JsonValue::Bool(false), i + 5))
        } else {
            None
        }
    } else if c == '"' {
        match parse_string_body(s, i + 1) {
            Some((cs, j)) => Some((JsonValue::Str(cs), j)),
            None => None,
        }
    } else if c == '-' {
        if s.len() - i >= 2 && is_digit(s[i + 1]) {
            let j = scan_digits(s, i + 1);
            match scan_number_tail(s, j) {
                None => None,
                Some(k) => {
                    if k != j {
                        let text = chars_substring(s, i, k);
                        match JsonNumber::new(text) {
                            Some(num) => Some((JsonValue::Decimal(num), k)),
                            None => None,
                        }
                    } else {
                        match parse_digits(s, i + 1, 0) {
                            None => None,
                            Some((m, j2)) => {
                                if m <= 0x8000_0000_0000_0000u64 {
                                    let n: i64 = if m == 0x8000_0000_0000_0000u64 {
                                        i64::MIN
                                    } else {
                                        -(m as i64)
                                    };
                                    Some((JsonValue::Int(n), j2))
                                } else {
                                    None
                                }
                            },
                        }
                    }
                },
            }
        } else {
            None
        }
    } else if is_digit(c) {
        let j = scan_digits(s, i);
        match scan_number_tail(s, j) {
            None => None,
            Some(k) => {
                if k != j {
                    let text = chars_substring(s, i, k);
                    match JsonNumber::new(text) {
                        Some(num) => Some((JsonValue::Decimal(num), k)),
                        None => None,
                    }
                } else {
                    match parse_digits(s, i, 0) {
                        None => None,
                        Some((m, j2)) => {
                            proof {
                                lemma_digits_end_indep(
                                    s@,
                                    i as int + 1,
                                    spec_digit_val(s@[i as int]),
                                    0,
                                );
                                lemma_digit_run_props(s@, i as int + 1);
                            }
                            if m <= 0x7fff_ffff_ffff_ffffu64 {
                                Some((JsonValue::Int(m as i64), j2))
                            } else {
                                None
                            }
                        },
                    }
                }
            },
        }
    } else if c == '[' {
        if s.len() - i >= 2 && s[i + 1] == ']' {
            let empty: Vec<JsonValue> = Vec::new();
            proof {
                assert(views_of_values(empty@) =~= Seq::<SpecJson>::empty());
            }
            Some((JsonValue::Arr(empty), i + 2))
        } else {
            match parse_elems(s, i + 1) {
                Some((es, j)) => Some((JsonValue::Arr(es), j)),
                None => None,
            }
        }
    } else if c == '{' {
        if s.len() - i >= 2 && s[i + 1] == '}' {
            let empty: Vec<(String, JsonValue)> = Vec::new();
            proof {
                assert(views_of_members(empty@) =~= Seq::<(Seq<char>, SpecJson)>::empty());
            }
            Some((JsonValue::Obj(empty), i + 2))
        } else {
            match parse_members(s, i + 1) {
                Some((ms, j)) => Some((JsonValue::Obj(ms), j)),
                None => None,
            }
        }
    } else {
        None
    }
}

fn parse_elems(s: &Vec<char>, start: usize) -> (r: Option<(Vec<JsonValue>, usize)>)
    requires
        start <= s@.len(),
    ensures
        r matches Some(p) ==> spec_parse_elems(s@, start as int, Seq::empty()) == Some(
            (views_of_values(p.0@), p.1 as int),
        ) && start < p.1 <= s@.len(),
        r is None ==> spec_parse_elems(s@, start as int, Seq::empty()) is None,
    decreases s@.len() - start, 1int,
{
    let mut acc: Vec<JsonValue> = Vec::new();
    let mut i: usize = start;
    proof {
        assert(views_of_values(acc@) =~= Seq::<SpecJson>::empty());
    }
    loop
        invariant
            start <= i <= s@.len(),
            spec_parse_elems(s@, start as int, Seq::empty()) == spec_parse_elems(
                s@,
                i as int,
                views_of_values(acc@),
            ),
        decreases s@.len() - i,
    {
        match parse_value(s, i) {
            None => {
                return None;
            },
            Some((v, j)) => {
                if j >= s.len() {
                    return None;
                }
                let c = s[j];
                if c == ',' {
                    let ghost old_acc = acc@;
                    acc.push(v);
                    proof {
                        assert(views_of_values(acc@) =~= views_of_values(old_acc).push(v@));
                    }
                    i = j + 1;
                } else if c == ']' {
                    let ghost old_acc = acc@;
                    acc.push(v);
                    proof {
                        assert(views_of_values(acc@) =~= views_of_values(old_acc).push(v@));
                    }
                    return Some((acc, j + 1));
                } else {
                    return None;
                }
            },
        }
    }
}

fn parse_members(s: &Vec<char>, start: usize) -> (r: Option<(Vec<(String, JsonValue)>, usize)>)
    requires
        start <= s@.len(),
    ensures
        r matches Some(p) ==> spec_parse_members(s@, start as int, Seq::empty()) == Some(
            (views_of_members(p.0@), p.1 as int),
        ) && start < p.1 <= s@.len(),
        r is None ==> spec_parse_members(s@, start as int, Seq::empty()) is None,
    decreases s@.len() - start, 1int,
{
    let mut acc: Vec<(String, JsonValue)> = Vec::new();
    let mut i: usize = start;
    proof {
        assert(views_of_members(acc@) =~= Seq::<(Seq<char>, SpecJson)>::empty());
    }
    loop
        invariant
            start <= i <= s@.len(),
            spec_parse_members(s@, start as int, Seq::empty()) == spec_parse_members(
                s@,
                i as int,
                views_of_members(acc@),
            ),
        decreases s@.len() - i,
    {
        if i >= s.len() {
            return None;
        }
        if s[i] != '"' {
            return None;
        }
        match parse_string_body(s, i + 1) {
            None => {
                return None;
            },
            Some((k, j)) => {
                if j >= s.len() {
                    return None;
                }
                if s[j] != ':' {
                    return None;
                }
                match parse_value(s, j + 1) {
                    None => {
                        return None;
                    },
                    Some((v, j2)) => {
                        if j2 >= s.len() {
                            return None;
                        }
                        let c = s[j2];
                        if c == ',' {
                            let ghost old_acc = acc@;
                            acc.push((k, v));
                            proof {
                                assert(views_of_members(acc@) =~= views_of_members(old_acc).push(
                                    (k@, v@),
                                ));
                            }
                            i = j2 + 1;
                        } else if c == '}' {
                            let ghost old_acc = acc@;
                            acc.push((k, v));
                            proof {
                                assert(views_of_members(acc@) =~= views_of_members(old_acc).push(
                                    (k@, v@),
                                ));
                            }
                            return Some((acc, j2 + 1));
                        } else {
                            return None;
                        }
                    },
                }
            },
        }
    }
}

/// The value of the first member with the given key, if any. Later
/// members under the same key are shadowed, never merged.
pub open spec fn spec_obj_get(ms: Seq<(Seq<char>, SpecJson)>, key: Seq<char>) -> Option<SpecJson>
    decreases ms.len(),
{
    if ms.len() == 0 {
        None
    } else if ms[0].0 == key {
        Some(ms[0].1)
    } else {
        spec_obj_get(ms.drop_first(), key)
    }
}

/// Two strings hold the same characters. (String equality has a vstd
/// specification; a literal is lifted to a `String` to use it.)
pub fn str_eq(a: &String, b: &str) -> (r: bool)
    ensures
        r == (a@ == b@),
{
    let bs = String::from_str(b);
    a.eq(&bs)
}

/// Look up the first member with the given key.
pub fn obj_get<'a>(members: &'a Vec<(String, JsonValue)>, key: &str) -> (r: Option<&'a JsonValue>)
    ensures
        r matches Some(v) ==> spec_obj_get(views_of_members(members@), key@) == Some(v@),
        r is None ==> spec_obj_get(views_of_members(members@), key@) is None,
{
    let ghost all: Seq<(Seq<char>, SpecJson)> = views_of_members(members@);
    let mut j: usize = 0;
    proof {
        assert(all.skip(0) =~= all);
    }
    loop
        invariant
            j <= members@.len(),
            all == views_of_members(members@),
            spec_obj_get(all, key@) == spec_obj_get(all.skip(j as int), key@),
        decreases members@.len() - j,
    {
        if j >= members.len() {
            proof {
                assert(all.skip(j as int) =~= Seq::<(Seq<char>, SpecJson)>::empty());
            }
            return None;
        }
        proof {
            assert(all.skip(j as int)[0] == (members@[j as int].0@, members@[j as int].1@));
        }
        if str_eq(&members[j].0, key) {
            return Some(&members[j].1);
        }
        proof {
            assert(all.skip(j as int).drop_first() =~= all.skip(j as int + 1));
        }
        j += 1;
    }
}

/// A value equal to the given one. (The recursive enum gets its copies
/// from here; each copy is proved equal to its original.)
pub fn clone_json(v: &JsonValue) -> (r: JsonValue)
    ensures
        r@ == v@,
    decreases v, 0int,
{
    match v {
        JsonValue::Null => JsonValue::Null,
        JsonValue::Bool(b) => JsonValue::Bool(*b),
        JsonValue::Int(n) => JsonValue::Int(*n),
        JsonValue::Decimal(d) => JsonValue::Decimal(d.duplicate()),
        JsonValue::Str(s) => JsonValue::Str(s.clone()),
        JsonValue::Arr(items) => {
            let r = JsonValue::Arr(clone_values(items));
            proof {
                assert(r@ == v@);
            }
            r
        },
        JsonValue::Obj(members) => {
            let r = JsonValue::Obj(clone_members(members));
            proof {
                assert(r@ == v@);
            }
            r
        },
    }
}

/// An element-by-element copy of a value sequence.
pub fn clone_values(items: &Vec<JsonValue>) -> (r: Vec<JsonValue>)
    ensures
        views_of_values(r@) == views_of_values(items@),
        r@.len() == items@.len(),
    decreases items, 1int,
{
    let mut out: Vec<JsonValue> = Vec::new();
    let mut j: usize = 0;
    while j < items.len()
        invariant
            j <= items@.len(),
            out@.len() == j,
            views_of_values(out@) =~= views_of_values(items@).take(j as int),
        decreases items@.len() - j,
    {
        proof {
            assert(decreases_to!(items => items@[j as int]));
        }
        let c = clone_json(&items[j]);
        let ghost old_out = out@;
        out.push(c);
        proof {
            assert(views_of_values(out@) =~= views_of_values(old_out).push(c@));
            assert(views_of_values(out@) =~= views_of_values(items@).take(j as int + 1));
        }
        j += 1;
    }
    proof {
        assert(views_of_values(items@).take(items@.len() as int) =~= views_of_values(items@));
    }
    out
}

/// An element-by-element copy of an object member list.
pub fn clone_members(members: &Vec<(String, JsonValue)>) -> (r: Vec<(String, JsonValue)>)
    ensures
        views_of_members(r@) == views_of_members(members@),
        r@.len() == members@.len(),
    decreases members, 1int,
{
    let mut out: Vec<(String, JsonValue)> = Vec::new();
    let mut j: usize = 0;
    while j < members.len()
        invariant
            j <= members@.len(),
            out@.len() == j,
            views_of_members(out@) =~= views_of_members(members@).take(j as int),
        decreases members@.len() - j,
    {
        proof {
            assert(decreases_to!(members => members@[j as int].1));
        }
        let k = members[j].0.clone();
        let c = clone_json(&members[j].1);
        let ghost old_out = out@;
        out.push((k, c));
        proof {
            assert(views_of_members(out@) =~= views_of_members(old_out).push((k@, c@)));
            assert(views_of_members(out@) =~= views_of_members(members@).take(j as int + 1));
        }
        j += 1;
    }
    proof {
        assert(views_of_members(members@).take(members@.len() as int) =~= views_of_members(
            members@,
        ));
    }
    out
}

/// The characters of a string, ready for parsing.
pub fn chars_of(s: &str) -> (v: Vec<char>)
    ensures
        v@ == s@,
{
    let n = s.unicode_len();
    let mut v: Vec<char> = Vec::new();
    let mut i: usize = 0;
    while i < n
        invariant
            i <= n,
            n == s@.len(),
            v@ == s@.take(i as int),
        decreases n - i,
    {
        let c = s.get_char(i);
        v.push(c);
        proof {
            assert(s@.take(i as int + 1) =~= s@.take(i as int).push(c));
        }
        i += 1;
    }
    proof {
        assert(s@.take(n as int) =~= s@);
    }
    v
}

/// Parse one line of text as exactly one JSON value.
pub fn parse_json(s: &Vec<char>) -> (r: Option<JsonValue>)
    ensures
        r matches Some(v) ==> spec_parse_text(s@) == Some(v@),
        r is None ==> spec_parse_text(s@) is None,
{
    let start = skip_ws(s, 0);
    match parse_value(s, start) {
        None => None,
        Some((v, j)) => {
            let e = skip_ws(s, j);
            if e == s.len() {
                Some(v)
            } else {
                None
            }
        },
    }
}

/// Every node of the value is representable: each number fits a 64-bit
/// signed integer. Every value this crate holds satisfies it.
pub open spec fn spec_json_wf(v: SpecJson) -> bool
    decreases v, 0int,
{
    match v {
        SpecJson::Null => true,
        SpecJson::Bool(_) => true,
        SpecJson::Int(i) => i64::MIN <= i <= i64::MAX,
        SpecJson::Decimal(t) => spec_opaque_number_lexeme(t),
        SpecJson::Str(_) => true,
        SpecJson::Arr(es) => spec_values_wf(es),
        SpecJson::Obj(ms) => spec_members_wf(ms),
    }
}

pub open spec fn spec_values_wf(es: Seq<SpecJson>) -> bool
    decreases es, 1int,
{
    forall|k: int| 0 <= k < es.len() ==> spec_json_wf(#[trigger] es[k])
}

pub open spec fn spec_members_wf(ms: Seq<(Seq<char>, SpecJson)>) -> bool
    decreases ms, 1int,
{
    forall|k: int| 0 <= k < ms.len() ==> spec_json_wf(#[trigger] ms[k].1)
}

/// Nothing stands at `j`, or what stands there is no digit.
pub open spec fn spec_digit_boundary(s: Seq<char>, j: int) -> bool {
    j >= s.len() || !spec_is_digit(s[j])
}

/// Nothing stands at `j`, or what stands there cannot extend a number:
/// no digit, dot or exponent mark. Everything that follows a value on
/// the wire — comma, closing bracket or brace, whitespace, or the end of
/// the line — satisfies it.
pub open spec fn spec_number_boundary(s: Seq<char>, j: int) -> bool {
    j >= s.len() || !(spec_is_digit(s[j]) || s[j] == '.' || s[j] == 'e' || s[j] == 'E')
}

proof fn lemma_has_at_index(s: Seq<char>, i: int, t: Seq<char>, k: int)
    requires
        spec_has_at(s, i, t),
        0 <= k < t.len(),
    ensures
        s[i + k] == t[k],
{
    assert(s.subrange(i, i + t.len())[k] == s[i + k]);
}

proof fn lemma_has_at_concat(s: Seq<char>, i: int, a: Seq<char>, b: Seq<char>)
    requires
        spec_has_at(s, i, a + b),
    ensures
        spec_has_at(s, i, a),
        spec_has_at(s, i + a.len(), b),
{
    assert forall|k: int| 0 <= k < a.len() implies s.subrange(i, i + a.len())[k] == a[k] by {
        lemma_has_at_index(s, i, a + b, k);
        assert((a + b)[k] == a[k]);
    }
    assert(s.subrange(i, i + a.len()) =~= a);
    assert forall|k: int| 0 <= k < b.len() implies s.subrange(
        i + a.len(),
        i + a.len() + b.len(),
    )[k] == b[k] by {
        lemma_has_at_index(s, i, a + b, a.len() + k);
        assert((a + b)[a.len() + k] == b[k]);
    }
    assert(s.subrange(i + a.len(), i + a.len() + b.len()) =~= b);
}

spec fn pow10(k: nat) -> nat
    decreases k,
{
    if k == 0 {
        1
    } else {
        10 * pow10((k - 1) as nat)
    }
}

spec fn all_digits(t: Seq<char>) -> bool {
    forall|k: int| 0 <= k < t.len() ==> spec_is_digit(#[trigger] t[k])
}

spec fn fold_digits(acc: nat, t: Seq<char>) -> nat
    decreases t.len(),
{
    if t.len() == 0 {
        acc
    } else {
        fold_digits(acc * 10 + spec_digit_val(t[0]), t.drop_first())
    }
}

proof fn lemma_parse_digit_run(s: Seq<char>, i: int, acc: nat, t: Seq<char>)
    requires
        spec_has_at(s, i, t),
        all_digits(t),
        spec_digit_boundary(s, i + t.len()),
    ensures
        spec_parse_digits(s, i, acc) == (fold_digits(acc, t), i + t.len()),
    decreases t.len(),
{
    if t.len() == 0 {
    } else {
        lemma_has_at_index(s, i, t, 0);
        assert(t =~= seq![t[0]] + t.drop_first());
        lemma_has_at_concat(s, i, seq![t[0]], t.drop_first());
        lemma_parse_digit_run(s, i + 1, acc * 10 + spec_digit_val(t[0]), t.drop_first());
    }
}

proof fn lemma_fold_snoc(acc: nat, t: Seq<char>, d: char)
    ensures
        fold_digits(acc, t.push(d)) == fold_digits(acc, t) * 10 + spec_digit_val(d),
    decreases t.len(),
{
    if t.len() == 0 {
        assert(t.push(d)[0] == d);
        assert(t.push(d).drop_first() =~= Seq::<char>::empty());
        assert(fold_digits(acc * 10 + spec_digit_val(d), Seq::<char>::empty()) == acc * 10
            + spec_digit_val(d));
        assert(fold_digits(acc, t) == acc);
    } else {
        assert(t.push(d)[0] == t[0]);
        assert(t.push(d).drop_first() =~= t.drop_first().push(d));
        lemma_fold_snoc(acc * 10 + spec_digit_val(t[0]), t.drop_first(), d);
        assert(fold_digits(acc, t.push(d)) == fold_digits(
            acc * 10 + spec_digit_val(t[0]),
            t.drop_first().push(d),
        ));
        assert(fold_digits(acc, t) == fold_digits(acc * 10 + spec_digit_val(t[0]), t.drop_first()));
    }
}

proof fn lemma_digit_char_val(d: int)
    requires
        0 <= d <= 9,
    ensures
        spec_is_digit(spec_digit_char(d)),
        spec_digit_val(spec_digit_char(d)) == d,
{
}

proof fn lemma_dec_chars_digits(n: nat)
    ensures
        all_digits(spec_dec_chars(n)),
        spec_dec_chars(n).len() >= 1,
    decreases n,
{
    if n < 10 {
        lemma_digit_char_val(n as int);
    } else {
        lemma_dec_chars_digits(n / 10);
        lemma_digit_char_val((n % 10) as int);
        let t = spec_dec_chars(n / 10);
        let d = spec_digit_char((n % 10) as int);
        assert forall|k: int| 0 <= k < t.push(d).len() implies spec_is_digit(
            #[trigger] t.push(d)[k],
        ) by {
            if k < t.len() {
                assert(t.push(d)[k] == t[k]);
            } else {
                assert(t.push(d)[k] == d);
            }
        }
    }
}

proof fn lemma_fold_dec(acc: nat, n: nat)
    ensures
        fold_digits(acc, spec_dec_chars(n)) == acc * pow10(spec_dec_chars(n).len() as nat) + n,
    decreases n,
{
    if n < 10 {
        lemma_digit_char_val(n as int);
        let t = spec_dec_chars(n);
        assert(t == seq![spec_digit_char(n as int)]);
        assert(t[0] == spec_digit_char(n as int));
        assert(t.drop_first() =~= Seq::<char>::empty());
        assert(fold_digits(acc * 10 + spec_digit_val(t[0]), t.drop_first()) == acc * 10
            + spec_digit_val(t[0]));
        assert(fold_digits(acc, t) == acc * 10 + n);
        assert(t.len() == 1);
        assert(pow10(1) == 10 * pow10(0));
        assert(pow10(0) == 1);
    } else {
        let front = spec_dec_chars(n / 10);
        let d = spec_digit_char((n % 10) as int);
        lemma_digit_char_val((n % 10) as int);
        lemma_fold_snoc(acc, front, d);
        lemma_fold_dec(acc, n / 10);
        let k = front.len() as nat;
        assert(spec_dec_chars(n) == front.push(d));
        assert(fold_digits(acc, spec_dec_chars(n)) == (acc * pow10(k) + n / 10) * 10 + n % 10);
        assert(pow10((k + 1) as nat) == 10 * pow10(k));
        assert((acc * pow10(k) + n / 10) * 10 == acc * pow10((k + 1) as nat) + (n / 10) * 10)
            by (nonlinear_arith)
            requires
                pow10((k + 1) as nat) == 10 * pow10(k),
        ;
        assert(spec_dec_chars(n).len() == k + 1);
        assert((n / 10) * 10 + n % 10 == n);
    }
}

proof fn lemma_hex_digit_char(d: int)
    requires
        0 <= d < 16,
    ensures
        spec_is_hex(spec_digit_char(d)),
        spec_hex_val(spec_digit_char(d)) == d,
{
}

proof fn lemma_escape_front(t: Seq<char>)
    requires
        t.len() > 0,
    ensures
        spec_escape(t) == spec_escape_char(t[0]) + spec_escape(t.drop_first()),
    decreases t.len(),
{
    if t.len() == 1 {
        assert(t.drop_last() =~= Seq::<char>::empty());
        assert(t.drop_first() =~= Seq::<char>::empty());
        assert(spec_escape(Seq::<char>::empty()) == Seq::<char>::empty());
        assert(t.last() == t[0]);
        assert(spec_escape(t) =~= spec_escape_char(t[0]) + spec_escape(t.drop_first()));
    } else {
        lemma_escape_front(t.drop_last());
        assert(t.drop_last()[0] == t[0]);
        assert(t.drop_last().drop_first() =~= t.drop_first().drop_last());
        assert(t.drop_first().last() == t.last());
        assert(spec_escape(t.drop_first()) == spec_escape(t.drop_first().drop_last())
            + spec_escape_char(t.drop_first().last()));
        assert(spec_escape(t) =~= spec_escape_char(t[0]) + spec_escape(t.drop_first()));
    }
}

#[verifier::rlimit(60)]
proof fn lemma_parse_string_at(s: Seq<char>, i: int, t: Seq<char>, acc: Seq<char>)
    requires
        spec_has_at(s, i, spec_escape(t) + seq!['"']),
    ensures
        spec_parse_string(s, i, acc) == Some((acc + t, i + spec_escape(t).len() + 1)),
    decreases t.len(),
{
    if t.len() == 0 {
        assert(spec_escape(t) == Seq::<char>::empty());
        assert((spec_escape(t) + seq!['"'])[0] == '"');
        lemma_has_at_index(s, i, spec_escape(t) + seq!['"'], 0);
        assert(acc + t =~= acc);
    } else {
        lemma_escape_front(t);
        let c = t[0];
        let e = spec_escape_char(c);
        let rest = spec_escape(t.drop_first()) + seq!['"'];
        assert(spec_escape(t) + seq!['"'] =~= e + rest);
        lemma_has_at_concat(s, i, e, rest);
        assert forall|k: int| 0 <= k < e.len() implies s[i + k] == e[k] by {
            lemma_has_at_index(s, i, e, k);
        }
        if c == '"' || c == '\\' || c == '\n' || c == '\r' || c == '\t' {
            lemma_parse_string_at(s, i + 2, t.drop_first(), acc.push(c));
            assert(acc.push(c) + t.drop_first() =~= acc + t);
        } else if (c as u32) < 0x20 {
            let hi = spec_digit_char((c as u32 / 16) as int);
            let lo = spec_digit_char((c as u32 % 16) as int);
            lemma_hex_digit_char((c as u32 / 16) as int);
            lemma_hex_digit_char((c as u32 % 16) as int);
            lemma_digit_char_val(0);
            assert(e[0] == '\\' && e[1] == 'u' && e[2] == '0' && e[3] == '0' && e[4] == hi && e[5]
                == lo);
            let v = spec_hex_val(s[i + 2]) * 0x1000 + spec_hex_val(s[i + 3]) * 0x100 + spec_hex_val(
                s[i + 4],
            ) * 0x10 + spec_hex_val(s[i + 5]);
            assert(spec_hex_val('0') == 0);
            assert(v == (c as u32 / 16) * 16 + (c as u32 % 16));
            assert(v == c as u32);
            let u: u32 = c as u32;
            vstd::utf8::char_u32_cast(c, u);
            assert(v as char == u as char);
            assert(v as char == c);
            lemma_parse_string_at(s, i + 6, t.drop_first(), acc.push(c));
            assert(acc.push(c) + t.drop_first() =~= acc + t);
        } else {
            assert(e == seq![c]);
            lemma_has_at_index(s, i, e, 0);
            assert(s[i + 0] == c);
            assert(s[i] == c);
            lemma_parse_string_at(s, i + 1, t.drop_first(), acc.push(c));
            assert(acc.push(c) + t.drop_first() =~= acc + t);
        }
    }
}

proof fn lemma_parse_quoted_at(s: Seq<char>, i: int, t: Seq<char>)
    requires
        spec_has_at(s, i, spec_quote(t)),
    ensures
        spec_parse_string(s, i + 1, Seq::empty()) == Some(
            (t, i + spec_quote(t).len()),
        ),
        s[i] == '"',
{
    assert(spec_quote(t) =~= seq!['"'] + (spec_escape(t) + seq!['"']));
    lemma_has_at_concat(s, i, seq!['"'], spec_escape(t) + seq!['"']);
    lemma_has_at_index(s, i, spec_quote(t), 0);
    lemma_parse_string_at(s, i + 1, t, Seq::empty());
    assert(Seq::<char>::empty() + t =~= t);
}

proof fn lemma_parse_int_at(s: Seq<char>, i: int, n: int)
    requires
        i64::MIN <= n <= i64::MAX,
        spec_has_at(s, i, spec_int_chars(n)),
        spec_number_boundary(s, i + spec_int_chars(n).len()),
    ensures
        spec_parse_value(s, i) == Some((SpecJson::Int(n), i + spec_int_chars(n).len())),
{
    if n >= 0 {
        let t = spec_dec_chars(n as nat);
        lemma_dec_chars_digits(n as nat);
        lemma_has_at_index(s, i, t, 0);
        lemma_parse_digit_run(s, i, 0, t);
        lemma_fold_dec(0, n as nat);
        assert(fold_digits(0, t) == n) by (nonlinear_arith)
            requires
                fold_digits(0, t) == 0 * pow10(t.len() as nat) + n,
        ;
        let j = i + t.len();
        assert(spec_parse_frac(s, j) == Some(j));
        assert(spec_parse_exp(s, j) == Some(j));
        assert(spec_number_end(s, j) == Some(j));
    } else {
        let t = spec_dec_chars((-n) as nat);
        lemma_dec_chars_digits((-n) as nat);
        assert(spec_int_chars(n) == seq!['-'] + t);
        lemma_has_at_concat(s, i, seq!['-'], t);
        lemma_has_at_index(s, i, seq!['-'] + t, 0);
        lemma_has_at_index(s, i + 1, t, 0);
        lemma_parse_digit_run(s, i + 1, 0, t);
        lemma_fold_dec(0, (-n) as nat);
        assert(fold_digits(0, t) == (-n) as nat) by (nonlinear_arith)
            requires
                fold_digits(0, t) == 0 * pow10(t.len() as nat) + ((-n) as nat),
        ;
        let j = i + 1 + t.len();
        assert(spec_parse_frac(s, j) == Some(j));
        assert(spec_parse_exp(s, j) == Some(j));
        assert(spec_number_end(s, j) == Some(j));
    }
}

/// An opaque-number lexeme standing in a larger text, closed by a number
/// boundary, parses to exactly itself.
#[verifier::rlimit(90)]
#[verifier::spinoff_prover]
proof fn lemma_parse_decimal_at(s: Seq<char>, i: int, t: Seq<char>)
    requires
        spec_opaque_number_lexeme(t),
        spec_has_at(s, i, t),
        spec_number_boundary(s, i + t.len()),
    ensures
        spec_parse_value(s, i) == Some((SpecJson::Decimal(t), i + t.len())),
{
    let n = t.len() as int;
    let i0: int = if t[0] == '-' {
        1
    } else {
        0
    };
    let r1 = spec_digit_run_end(t, i0);
    lemma_digit_run_props(t, i0);
    assert forall|k: int| 0 <= k < n implies s[i + k] == t[k] by {
        lemma_has_at_index(s, i, t, k);
    }
    // The integer run cannot reach the end: the tail is non-empty.
    assert(r1 < n) by {
        if r1 == n {
            assert(spec_parse_frac(t, r1) == Some(r1));
            assert(spec_parse_exp(t, r1) == Some(r1));
        }
    }
    // The integer digit run of `s` ends at `i + r1`.
    let run = t.subrange(i0, r1);
    assert forall|q: int| 0 <= q < run.len() implies s.subrange(i + i0, i + r1)[q] == run[q] by {
        assert(s.subrange(i + i0, i + r1)[q] == s[i + i0 + q]);
        assert(run[q] == t[i0 + q]);
    }
    assert(s.subrange(i + i0, i + r1) =~= run);
    assert(spec_has_at(s, i + i0, run));
    assert(all_digits(run)) by {
        assert forall|q: int| 0 <= q < run.len() implies spec_is_digit(#[trigger] run[q]) by {
            assert(run[q] == t[i0 + q]);
        }
    }
    assert(!spec_is_digit(s[i + r1]));
    lemma_parse_digit_run(s, i + i0, 0, run);
    assert(spec_parse_digits(s, i + i0, 0).1 == i + r1);
    // The fraction part of `s` ends where `t`'s does.
    let r2 = match spec_parse_frac(t, r1) {
        Some(r2) => r2,
        None => 0,
    };
    assert(spec_parse_frac(t, r1) == Some(r2));
    assert(spec_parse_frac(s, i + r1) == Some(i + r2)) by {
        if t[r1] == '.' {
            assert(r1 + 1 < n && spec_is_digit(t[r1 + 1]));
            assert(r2 == spec_digit_run_end(t, r1 + 1));
            lemma_digit_run_props(t, r1 + 1);
            let frun = t.subrange(r1 + 1, r2);
            assert forall|q: int| 0 <= q < frun.len() implies s.subrange(
                i + r1 + 1,
                i + r2,
            )[q] == frun[q] by {
                assert(s.subrange(i + r1 + 1, i + r2)[q] == s[i + r1 + 1 + q]);
                assert(frun[q] == t[r1 + 1 + q]);
            }
            assert(s.subrange(i + r1 + 1, i + r2) =~= frun);
            assert(spec_has_at(s, i + r1 + 1, frun));
            assert(all_digits(frun)) by {
                assert forall|q: int| 0 <= q < frun.len() implies spec_is_digit(
                    #[trigger] frun[q],
                ) by {
                    assert(frun[q] == t[r1 + 1 + q]);
                }
            }
            assert(spec_digit_boundary(s, i + r2)) by {
                if r2 < n {
                    assert(s[i + r2] == t[r2]);
                }
            }
            lemma_parse_digit_run(s, i + r1 + 1, 0, frun);
            assert(spec_digit_run_end(s, i + r1 + 1) == i + r2);
        } else {
            assert(r2 == r1);
            assert(s[i + r1] != '.');
        }
    }
    // The exponent part of `s` ends where `t` ends.
    assert(spec_parse_exp(t, r2) == Some(n));
    assert(spec_parse_exp(s, i + r2) == Some(i + n)) by {
        if r2 < n && (t[r2] == 'e' || t[r2] == 'E') {
            let k0: int = if r2 + 1 < n && (t[r2 + 1] == '+' || t[r2 + 1] == '-') {
                r2 + 2
            } else {
                r2 + 1
            };
            assert(k0 < n && spec_is_digit(t[k0]));
            assert(spec_digit_run_end(t, k0) == n);
            lemma_digit_run_props(t, k0);
            let erun = t.subrange(k0, n);
            assert forall|q: int| 0 <= q < erun.len() implies s.subrange(
                i + k0,
                i + n,
            )[q] == erun[q] by {
                assert(s.subrange(i + k0, i + n)[q] == s[i + k0 + q]);
                assert(erun[q] == t[k0 + q]);
            }
            assert(s.subrange(i + k0, i + n) =~= erun);
            assert(spec_has_at(s, i + k0, erun));
            assert(all_digits(erun)) by {
                assert forall|q: int| 0 <= q < erun.len() implies spec_is_digit(
                    #[trigger] erun[q],
                ) by {
                    assert(erun[q] == t[k0 + q]);
                }
            }
            lemma_parse_digit_run(s, i + k0, 0, erun);
            assert(spec_digit_run_end(s, i + k0) == i + n);
            let sk0: int = if i + r2 + 1 < s.len() && (s[i + r2 + 1] == '+' || s[i + r2 + 1]
                == '-') {
                i + r2 + 2
            } else {
                i + r2 + 1
            };
            assert(sk0 == i + k0);
        } else {
            assert(r2 == n);
        }
    }
    assert(spec_number_end(s, i + r1) == Some(i + n));
    // The parser therefore takes the opaque branch with exactly `t`.
    assert(s.subrange(i, i + n) == t);
    if i0 == 1 {
        assert(s[i] == '-');
        assert(spec_is_digit(s[i + 1]));
        assert(spec_parse_digits(s, i + 1, 0).1 == i + r1);
    } else {
        assert(spec_is_digit(s[i]));
        assert(spec_parse_digits(s, i, 0).1 == i + r1);
    }
}

proof fn lemma_encode_starts(v: SpecJson)
    requires
        spec_json_wf(v),
    ensures
        spec_encode(v).len() > 0,
        !spec_is_ws(spec_encode(v)[0]),
        spec_encode(v)[0] != ']',
        spec_encode(v)[0] != '}',
{
    match v {
        SpecJson::Int(n) => {
            if n < 0 {
                assert(spec_encode(v)[0] == '-');
            } else {
                lemma_dec_chars_digits(n as nat);
                assert(spec_is_digit(spec_encode(v)[0]));
            }
        },
        SpecJson::Decimal(t) => {
            if t[0] == '-' {
            } else {
                assert(spec_is_digit(t[0]));
            }
        },
        _ => {},
    }
}

#[verifier::rlimit(80)]
#[verifier::spinoff_prover]
proof fn lemma_encode_elems_front(es: Seq<SpecJson>)
    requires
        es.len() > 0,
    ensures
        spec_encode_elems(es) == spec_encode(es[0]) + (if es.len() == 1 {
            Seq::<char>::empty()
        } else {
            seq![','] + spec_encode_elems(es.drop_first())
        }),
    decreases es.len(),
{
    if es.len() == 1 {
        assert(es.last() == es[0]);
        assert(spec_encode_elems(es) =~= spec_encode(es[0]) + Seq::<char>::empty());
    } else {
        lemma_encode_elems_front(es.drop_last());
        assert(es.drop_last()[0] == es[0]);
        if es.len() == 2 {
            assert(es.drop_last().len() == 1);
            assert(es.drop_first().len() == 1);
            assert(es.drop_first().last() == es[1]);
            assert(es.drop_last()[0] == es[0]);
            assert(spec_encode_elems(es.drop_last()) == spec_encode(es[0]) + Seq::<
                char,
            >::empty());
            assert(spec_encode_elems(es.drop_first()) == spec_encode(es.drop_first().last()));
            assert(es.last() == es[1]);
            assert(spec_encode_elems(es) =~= spec_encode(es[0]) + (seq![','] + spec_encode_elems(
                es.drop_first(),
            )));
        } else {
            assert(es.drop_last().drop_first() =~= es.drop_first().drop_last());
            assert(es.drop_first().last() == es.last());
            assert(es.drop_first().len() >= 2);
            assert(spec_encode_elems(es.drop_first()) == spec_encode_elems(
                es.drop_first().drop_last(),
            ) + seq![','] + spec_encode(es.drop_first().last()));
            assert(spec_encode_elems(es) =~= spec_encode(es[0]) + (seq![','] + spec_encode_elems(
                es.drop_first(),
            )));
        }
    }
}

#[verifier::rlimit(80)]
#[verifier::spinoff_prover]
proof fn lemma_encode_members_front(ms: Seq<(Seq<char>, SpecJson)>)
    requires
        ms.len() > 0,
    ensures
        spec_encode_members(ms) == (spec_quote(ms[0].0) + seq![':'] + spec_encode(ms[0].1)) + (
        if ms.len() == 1 {
            Seq::<char>::empty()
        } else {
            seq![','] + spec_encode_members(ms.drop_first())
        }),
    decreases ms.len(),
{
    if ms.len() == 1 {
        assert(ms.last() == ms[0]);
        assert(spec_encode_members(ms) =~= (spec_quote(ms[0].0) + seq![':'] + spec_encode(
            ms[0].1,
        )) + Seq::<char>::empty());
    } else {
        lemma_encode_members_front(ms.drop_last());
        assert(ms.drop_last()[0] == ms[0]);
        if ms.len() == 2 {
            assert(ms.drop_last().len() == 1);
            assert(ms.drop_first().len() == 1);
            assert(ms.drop_first().last() == ms[1]);
            assert(ms.last() == ms[1]);
            assert(spec_encode_members(ms.drop_first()) == spec_quote(ms.drop_first().last().0)
                + seq![':'] + spec_encode(ms.drop_first().last().1));
            assert(spec_encode_members(ms) =~= (spec_quote(ms[0].0) + seq![':'] + spec_encode(
                ms[0].1,
            )) + (seq![','] + spec_encode_members(ms.drop_first())));
        } else {
            assert(ms.drop_last().drop_first() =~= ms.drop_first().drop_last());
            assert(ms.drop_first().last() == ms.last());
            assert(ms.drop_first().len() >= 2);
            assert(spec_encode_members(ms.drop_first()) == spec_encode_members(
                ms.drop_first().drop_last(),
            ) + seq![','] + spec_quote(ms.drop_first().last().0) + seq![':'] + spec_encode(
                ms.drop_first().last().1,
            ));
            assert(spec_encode_members(ms) =~= (spec_quote(ms[0].0) + seq![':'] + spec_encode(
                ms[0].1,
            )) + (seq![','] + spec_encode_members(ms.drop_first())));
        }
    }
}

#[verifier::rlimit(60)]
#[verifier::spinoff_prover]
proof fn lemma_parse_value_at(s: Seq<char>, i: int, v: SpecJson)
    requires
        spec_json_wf(v),
        spec_has_at(s, i, spec_encode(v)),
        spec_number_boundary(s, i + spec_encode(v).len()),
    ensures
        spec_parse_value(s, i) == Some((v, i + spec_encode(v).len())),
    decreases v, 0int,
{
    lemma_encode_starts(v);
    lemma_has_at_index(s, i, spec_encode(v), 0);
    assert(s[i + 0] == spec_encode(v)[0]);
    assert(s[i] == spec_encode(v)[0]);
    match v {
        SpecJson::Null => {
            assert(spec_encode(v) == seq!['n', 'u', 'l', 'l']);
            assert(spec_has_at(s, i, seq!['n', 'u', 'l', 'l']));
            assert(s[i] == 'n');
            assert(spec_parse_value(s, i) == Some((SpecJson::Null, i + 4)));
            assert(spec_encode(v).len() == 4);
        },
        SpecJson::Bool(b) => {
            if b {
                assert(spec_has_at(s, i, seq!['t', 'r', 'u', 'e']));
                assert(s[i] == 't');
                assert(spec_parse_value(s, i) == Some((SpecJson::Bool(true), i + 4)));
                assert(spec_encode(v).len() == 4);
            } else {
                assert(spec_has_at(s, i, seq!['f', 'a', 'l', 's', 'e']));
                assert(s[i] == 'f');
                assert(spec_parse_value(s, i) == Some((SpecJson::Bool(false), i + 5)));
                assert(spec_encode(v).len() == 5);
            }
        },
        SpecJson::Int(n) => {
            lemma_parse_int_at(s, i, n);
        },
        SpecJson::Decimal(t) => {
            lemma_parse_decimal_at(s, i, t);
        },
        SpecJson::Str(t) => {
            lemma_parse_quoted_at(s, i, t);
        },
        SpecJson::Arr(es) => {
            lemma_parse_arr_at(s, i, es);
        },
        SpecJson::Obj(ms) => {
            lemma_parse_obj_at(s, i, ms);
        },
    }
}

#[verifier::rlimit(60)]
#[verifier::spinoff_prover]
proof fn lemma_parse_arr_at(s: Seq<char>, i: int, es: Seq<SpecJson>)
    requires
        spec_json_wf(SpecJson::Arr(es)),
        spec_has_at(s, i, spec_encode(SpecJson::Arr(es))),
    ensures
        spec_parse_value(s, i) == Some(
            (SpecJson::Arr(es), i + spec_encode(SpecJson::Arr(es)).len()),
        ),
    decreases es, 2int,
{
    let v = SpecJson::Arr(es);
    lemma_has_at_index(s, i, spec_encode(v), 0);
    assert(s[i + 0] == spec_encode(v)[0]);
    assert(s[i] == '[');
    if es.len() == 0 {
        assert(spec_encode_elems(es) == Seq::<char>::empty());
        assert(spec_encode(v) =~= seq!['[', ']']);
        lemma_has_at_index(s, i, spec_encode(v), 1);
        assert(s[i + 1] == ']');
        assert(es =~= Seq::<SpecJson>::empty());
        assert(spec_encode(v).len() == 2);
        assert(i + 1 < s.len());
        assert(spec_parse_value(s, i) == Some(
            (SpecJson::Arr(Seq::<SpecJson>::empty()), i + 2),
        ));
    } else {
        assert(spec_encode(v) =~= seq!['['] + (spec_encode_elems(es) + seq![']']));
        lemma_has_at_concat(s, i, seq!['['], spec_encode_elems(es) + seq![']']);
        lemma_encode_elems_front(es);
        lemma_encode_starts(es[0]);
        lemma_has_at_index(s, i + 1, spec_encode_elems(es) + seq![']'], 0);
        assert((spec_encode_elems(es) + seq![']'])[0] == spec_encode(es[0])[0]);
        assert(s[i + 1] != ']');
        lemma_parse_elems_at(s, i + 1, es, Seq::empty());
        assert(Seq::<SpecJson>::empty() + es =~= es);
    }
}

#[verifier::rlimit(60)]
#[verifier::spinoff_prover]
proof fn lemma_parse_obj_at(s: Seq<char>, i: int, ms: Seq<(Seq<char>, SpecJson)>)
    requires
        spec_json_wf(SpecJson::Obj(ms)),
        spec_has_at(s, i, spec_encode(SpecJson::Obj(ms))),
    ensures
        spec_parse_value(s, i) == Some(
            (SpecJson::Obj(ms), i + spec_encode(SpecJson::Obj(ms)).len()),
        ),
    decreases ms, 2int,
{
    let v = SpecJson::Obj(ms);
    lemma_has_at_index(s, i, spec_encode(v), 0);
    assert(s[i + 0] == spec_encode(v)[0]);
    assert(s[i] == '{');
    if ms.len() == 0 {
        assert(spec_encode_members(ms) == Seq::<char>::empty());
        assert(spec_encode(v) =~= seq!['{', '}']);
        lemma_has_at_index(s, i, spec_encode(v), 1);
        assert(s[i + 1] == '}');
        assert(ms =~= Seq::<(Seq<char>, SpecJson)>::empty());
        assert(spec_encode(v).len() == 2);
        assert(i + 1 < s.len());
        assert(spec_parse_value(s, i) == Some(
            (SpecJson::Obj(Seq::<(Seq<char>, SpecJson)>::empty()), i + 2),
        ));
    } else {
        assert(spec_encode(v) =~= seq!['{'] + (spec_encode_members(ms) + seq!['}']));
        lemma_has_at_concat(s, i, seq!['{'], spec_encode_members(ms) + seq!['}']);
        lemma_encode_members_front(ms);
        lemma_has_at_index(s, i + 1, spec_encode_members(ms) + seq!['}'], 0);
        assert((spec_encode_members(ms) + seq!['}'])[0] == '"');
        assert(s[i + 1] != '}');
        lemma_parse_members_at(s, i + 1, ms, Seq::empty());
        assert(Seq::<(Seq<char>, SpecJson)>::empty() + ms =~= ms);
    }
}

#[verifier::rlimit(60)]
proof fn lemma_parse_elems_at(s: Seq<char>, i: int, es: Seq<SpecJson>, acc: Seq<SpecJson>)
    requires
        es.len() > 0,
        spec_values_wf(es),
        spec_has_at(s, i, spec_encode_elems(es) + seq![']']),
    ensures
        spec_parse_elems(s, i, acc) == Some((acc + es, i + spec_encode_elems(es).len() + 1)),
    decreases es, 1int,
{
    lemma_encode_elems_front(es);
    lemma_encode_starts(es[0]);
    let e0 = spec_encode(es[0]);
    if es.len() == 1 {
        assert(spec_encode_elems(es) + seq![']'] =~= e0 + seq![']']);
        lemma_has_at_concat(s, i, e0, seq![']']);
        lemma_has_at_index(s, i + e0.len(), seq![']'], 0);
        assert(s[i + e0.len()] == ']');
        lemma_parse_value_at(s, i, es[0]);
        assert(acc.push(es[0]) =~= acc + es);
    } else {
        let rest = spec_encode_elems(es.drop_first());
        assert(spec_encode_elems(es) + seq![']'] =~= e0 + (seq![','] + (rest + seq![']'])));
        lemma_has_at_concat(s, i, e0, seq![','] + (rest + seq![']']));
        lemma_has_at_concat(s, i + e0.len(), seq![','], rest + seq![']']);
        lemma_has_at_index(s, i + e0.len(), seq![','], 0);
        assert(s[i + e0.len()] == ',');
        lemma_parse_value_at(s, i, es[0]);
        assert(spec_values_wf(es.drop_first())) by {
            assert forall|k: int| 0 <= k < es.drop_first().len() implies spec_json_wf(
                #[trigger] es.drop_first()[k],
            ) by {
                assert(es.drop_first()[k] == es[k + 1]);
            }
        }
        lemma_parse_elems_at(s, i + e0.len() + 1, es.drop_first(), acc.push(es[0]));
        assert(acc.push(es[0]) + es.drop_first() =~= acc + es);
    }
}

#[verifier::rlimit(60)]
proof fn lemma_parse_members_at(
    s: Seq<char>,
    i: int,
    ms: Seq<(Seq<char>, SpecJson)>,
    acc: Seq<(Seq<char>, SpecJson)>,
)
    requires
        ms.len() > 0,
        spec_members_wf(ms),
        spec_has_at(s, i, spec_encode_members(ms) + seq!['}']),
    ensures
        spec_parse_members(s, i, acc) == Some((acc + ms, i + spec_encode_members(ms).len() + 1)),
    decreases ms, 1int,
{
    lemma_encode_members_front(ms);
    lemma_encode_starts(ms[0].1);
    let k0 = spec_quote(ms[0].0);
    let e0 = spec_encode(ms[0].1);
    let head = k0 + seq![':'] + e0;
    if ms.len() == 1 {
        assert(spec_encode_members(ms) + seq!['}'] =~= k0 + (seq![':'] + (e0 + seq!['}'])));
        lemma_has_at_concat(s, i, k0, seq![':'] + (e0 + seq!['}']));
        lemma_has_at_concat(s, i + k0.len(), seq![':'], e0 + seq!['}']);
        lemma_has_at_concat(s, i + k0.len() + 1, e0, seq!['}']);
        lemma_has_at_index(s, i + k0.len(), seq![':'], 0);
        lemma_has_at_index(s, i + k0.len() + 1 + e0.len(), seq!['}'], 0);
        lemma_parse_quoted_at(s, i, ms[0].0);
        assert(s[i + k0.len()] == ':');
        assert(s[i + k0.len() + 1 + e0.len()] == '}');
        lemma_parse_value_at(s, i + k0.len() + 1, ms[0].1);
        assert(acc.push(ms[0]) =~= acc + ms);
        assert(spec_encode_members(ms).len() == k0.len() + 1 + e0.len());
    } else {
        let rest = spec_encode_members(ms.drop_first());
        assert(spec_encode_members(ms) + seq!['}'] =~= k0 + (seq![':'] + (e0 + (seq![','] + (rest
            + seq!['}'])))));
        lemma_has_at_concat(s, i, k0, seq![':'] + (e0 + (seq![','] + (rest + seq!['}']))));
        lemma_has_at_concat(s, i + k0.len(), seq![':'], e0 + (seq![','] + (rest + seq!['}'])));
        lemma_has_at_concat(s, i + k0.len() + 1, e0, seq![','] + (rest + seq!['}']));
        lemma_has_at_concat(s, i + k0.len() + 1 + e0.len(), seq![','], rest + seq!['}']);
        lemma_has_at_index(s, i + k0.len(), seq![':'], 0);
        lemma_has_at_index(s, i + k0.len() + 1 + e0.len(), seq![','], 0);
        lemma_parse_quoted_at(s, i, ms[0].0);
        assert(s[i + k0.len()] == ':');
        assert(s[i + k0.len() + 1 + e0.len()] == ',');
        lemma_parse_value_at(s, i + k0.len() + 1, ms[0].1);
        assert(spec_members_wf(ms.drop_first())) by {
            assert forall|k: int| 0 <= k < ms.drop_first().len() implies spec_json_wf(
                #[trigger] ms.drop_first()[k].1,
            ) by {
                assert(ms.drop_first()[k] == ms[k + 1]);
            }
        }
        lemma_parse_members_at(s, i + k0.len() + 1 + e0.len() + 1, ms.drop_first(), acc.push(ms[0]));
        assert(acc.push(ms[0]) + ms.drop_first() =~= acc + ms);
        assert(spec_encode_members(ms).len() == k0.len() + 1 + e0.len() + 1 + rest.len());
    }
}

/// The codec round trip: the canonical text of any representable value
/// parses back to exactly that value. With the parser's and encoder's own
/// contracts this carries to the executable pair: whatever one process
/// encodes, its peer reads back unchanged.
pub proof fn lemma_parse_encode(v: SpecJson)
    requires
        spec_json_wf(v),
    ensures
        spec_parse_text(spec_encode(v)) == Some(v),
{
    let s = spec_encode(v);
    lemma_encode_starts(v);
    assert(spec_skip_ws(s, 0) == 0);
    assert(s.subrange(0, s.len() as int) =~= s);
    assert(spec_has_at(s, 0, s));
    lemma_parse_value_at(s, 0, v);
    assert(spec_skip_ws(s, s.len() as int) == s.len());
}

/// The text holds no raw newline.
pub open spec fn spec_line_safe(t: Seq<char>) -> bool {
    forall|k: int| 0 <= k < t.len() ==> #[trigger] t[k] != '\n'
}

proof fn lemma_concat_line_safe(a: Seq<char>, b: Seq<char>)
    requires
        spec_line_safe(a),
        spec_line_safe(b),
    ensures
        spec_line_safe(a + b),
{
    assert forall|k: int| 0 <= k < (a + b).len() implies #[trigger] (a + b)[k] != '\n' by {
        if k < a.len() {
            assert((a + b)[k] == a[k]);
        } else {
            assert((a + b)[k] == b[k - a.len()]);
        }
    }
}

proof fn lemma_dec_chars_line_safe(n: nat)
    ensures
        spec_line_safe(spec_dec_chars(n)),
{
    lemma_dec_chars_digits(n);
    assert forall|k: int| 0 <= k < spec_dec_chars(n).len() implies #[trigger] spec_dec_chars(
        n,
    )[k] != '\n' by {
        assert(spec_is_digit(spec_dec_chars(n)[k]));
    }
}

proof fn lemma_escape_char_line_safe(c: char)
    ensures
        spec_line_safe(spec_escape_char(c)),
{
    if c == '"' || c == '\\' || c == '\n' || c == '\r' || c == '\t' {
    } else if (c as u32) < 0x20 {
        lemma_hex_digit_char((c as u32 / 16) as int);
        lemma_hex_digit_char((c as u32 % 16) as int);
        assert(spec_is_hex(spec_escape_char(c)[4]));
        assert(spec_is_hex(spec_escape_char(c)[5]));
    } else {
    }
}

proof fn lemma_escape_line_safe(t: Seq<char>)
    ensures
        spec_line_safe(spec_escape(t)),
    decreases t.len(),
{
    if t.len() == 0 {
    } else {
        lemma_escape_line_safe(t.drop_last());
        lemma_escape_char_line_safe(t.last());
        lemma_concat_line_safe(spec_escape(t.drop_last()), spec_escape_char(t.last()));
    }
}

proof fn lemma_quote_line_safe(t: Seq<char>)
    ensures
        spec_line_safe(spec_quote(t)),
{
    lemma_escape_line_safe(t);
    lemma_concat_line_safe(seq!['"'], spec_escape(t));
    lemma_concat_line_safe(seq!['"'] + spec_escape(t), seq!['"']);
}

/// Framing safety: the canonical text of a representable value holds no
/// raw newline, whatever its strings hold, so one encoded value always
/// fits one newline-terminated line of the wire protocol.
pub proof fn lemma_encode_line_safe(v: SpecJson)
    requires
        spec_json_wf(v),
    ensures
        spec_line_safe(spec_encode(v)),
    decreases v, 0int,
{
    match v {
        SpecJson::Null => {},
        SpecJson::Bool(_) => {},
        SpecJson::Int(i) => {
            if i < 0 {
                lemma_dec_chars_line_safe((-i) as nat);
                lemma_concat_line_safe(seq!['-'], spec_dec_chars((-i) as nat));
            } else {
                lemma_dec_chars_line_safe(i as nat);
            }
        },
        SpecJson::Decimal(t) => {
            assert forall|k: int| 0 <= k < t.len() implies #[trigger] t[k] != '\n' by {
                assert(spec_is_number_char(t[k]));
            }
        },
        SpecJson::Str(t) => {
            lemma_quote_line_safe(t);
        },
        SpecJson::Arr(es) => {
            lemma_elems_line_safe(es);
            lemma_concat_line_safe(seq!['['], spec_encode_elems(es));
            lemma_concat_line_safe(seq!['['] + spec_encode_elems(es), seq![']']);
        },
        SpecJson::Obj(ms) => {
            lemma_members_line_safe(ms);
            lemma_concat_line_safe(seq!['{'], spec_encode_members(ms));
            lemma_concat_line_safe(seq!['{'] + spec_encode_members(ms), seq!['}']);
        },
    }
}

proof fn lemma_elems_line_safe(es: Seq<SpecJson>)
    requires
        spec_values_wf(es),
    ensures
        spec_line_safe(spec_encode_elems(es)),
    decreases es, 1int,
{
    if es.len() == 0 {
    } else if es.len() == 1 {
        assert(spec_json_wf(es[0]));
        lemma_encode_line_safe(es.last());
    } else {
        assert(spec_values_wf(es.drop_last())) by {
            assert forall|k: int| 0 <= k < es.drop_last().len() implies spec_json_wf(
                #[trigger] es.drop_last()[k],
            ) by {
                assert(es.drop_last()[k] == es[k]);
            }
        }
        assert(spec_json_wf(es[es.len() - 1]));
        lemma_elems_line_safe(es.drop_last());
        lemma_encode_line_safe(es.last());
        lemma_concat_line_safe(spec_encode_elems(es.drop_last()), seq![',']);
        lemma_concat_line_safe(
            spec_encode_elems(es.drop_last()) + seq![','],
            spec_encode(es.last()),
        );
    }
}

proof fn lemma_members_line_safe(ms: Seq<(Seq<char>, SpecJson)>)
    requires
        spec_members_wf(ms),
    ensures
        spec_line_safe(spec_encode_members(ms)),
    decreases ms, 1int,
{
    if ms.len() == 0 {
    } else if ms.len() == 1 {
        assert(spec_json_wf(ms[0].1));
        lemma_quote_line_safe(ms.last().0);
        lemma_encode_line_safe(ms.last().1);
        lemma_concat_line_safe(spec_quote(ms.last().0), seq![':']);
        lemma_concat_line_safe(spec_quote(ms.last().0) + seq![':'], spec_encode(ms.last().1));
    } else {
        assert(spec_members_wf(ms.drop_last())) by {
            assert forall|k: int| 0 <= k < ms.drop_last().len() implies spec_json_wf(
                #[trigger] ms.drop_last()[k].1,
            ) by {
                assert(ms.drop_last()[k] == ms[k]);
            }
        }
        assert(spec_json_wf(ms[ms.len() - 1].1));
        lemma_members_line_safe(ms.drop_last());
        lemma_quote_line_safe(ms.last().0);
        lemma_encode_line_safe(ms.last().1);
        lemma_concat_line_safe(spec_encode_members(ms.drop_last()), seq![',']);
        lemma_concat_line_safe(
            spec_encode_members(ms.drop_last()) + seq![','],
            spec_quote(ms.last().0),
        );
        lemma_concat_line_safe(
            spec_encode_members(ms.drop_last()) + seq![','] + spec_quote(ms.last().0),
            seq![':'],
        );
        lemma_concat_line_safe(
            spec_encode_members(ms.drop_last()) + seq![','] + spec_quote(ms.last().0) + seq![':'],
            spec_encode(ms.last().1),
        );
    }
}

/// The round trip through a whole wire line: the canonical text of a
/// representable value, closed by the line terminator, still parses back
/// to exactly that value.
pub proof fn lemma_parse_encode_line(v: SpecJson)
    requires
        spec_json_wf(v),
    ensures
        spec_parse_text(spec_encode(v) + seq!['\n']) == Some(v),
{
    let e = spec_encode(v);
    let s = e + seq!['\n'];
    lemma_encode_starts(v);
    assert(s[0] == e[0]);
    assert(spec_skip_ws(s, 0) == 0);
    assert(s.subrange(0, e.len() as int) =~= e);
    assert(spec_has_at(s, 0, e));
    assert(s[e.len() as int] == '\n');
    assert(!spec_is_digit('\n'));
    lemma_parse_value_at(s, 0, v);
    assert(spec_skip_ws(s, e.len() as int) == spec_skip_ws(s, e.len() as int + 1));
    assert(spec_skip_ws(s, s.len() as int) == s.len());
}

} // verus!
