//! A small JSON codec for the engine's wire snapshots: flat objects of
//! null, boolean, unsigned-integer and string values. The encoder emits a
//! canonical form; the decoder additionally accepts whitespace between
//! tokens, as controller clients send it. Decoding an encoded object yields
//! the object back.

use vstd::prelude::*;

use crate::config::SwanlingConfiguration;
use crate::logger::SwanlingLogFormat;
use crate::metrics::error_agg_eq;
use crate::metrics::SwanlingErrorMetricAggregate;
use crate::metrics::SwanlingMethod;
use crate::metrics::SwanlingCoordinatedOmissionMitigation;
use crate::util;

verus! {

/// A scalar JSON value.
#[derive(Debug, PartialEq, Eq)]
pub enum JsonScalar {
    /// The JSON `null`.
    Null,
    /// A JSON boolean.
    Bool(bool),
    /// A non-negative JSON integer.
    UInt(u64),
    /// A JSON string.
    Text(Vec<char>),
}

/// One `"key": value` pair of a flat JSON object.
pub type JsonField = (Vec<char>, JsonScalar);

/// The ghost view of a scalar, with the string as a character sequence.
pub enum JsonScalarView {
    /// The JSON `null`.
    Null,
    /// A JSON boolean.
    Bool(bool),
    /// A non-negative JSON integer.
    UInt(u64),
    /// A JSON string.
    Text(Seq<char>),
}

impl View for JsonScalar {
    type V = JsonScalarView;

    open spec fn view(&self) -> JsonScalarView {
        match self {
            JsonScalar::Null => JsonScalarView::Null,
            JsonScalar::Bool(b) => JsonScalarView::Bool(*b),
            JsonScalar::UInt(n) => JsonScalarView::UInt(*n),
            JsonScalar::Text(v) => JsonScalarView::Text(v@),
        }
    }
}

/// The escape sequence of one string character, if it needs one.
pub open spec fn esc_char(c: char) -> Seq<char> {
    if c == '"' {
        seq!['\\', '"']
    } else if c == '\\' {
        seq!['\\', '\\']
    } else if c == '\n' {
        seq!['\\', 'n']
    } else if c == '\r' {
        seq!['\\', 'r']
    } else if c == '\t' {
        seq!['\\', 't']
    } else {
        seq![c]
    }
}

/// A string's characters with every escape applied.
pub open spec fn escaped(v: Seq<char>) -> Seq<char>
    decreases v.len(),
{
    if v.len() == 0 {
        Seq::empty()
    } else {
        esc_char(v[0]) + escaped(v.drop_first())
    }
}

/// The encoding of a JSON string: the escaped characters in quotes.
pub open spec fn enc_text(v: Seq<char>) -> Seq<char> {
    seq!['"'] + escaped(v) + seq!['"']
}

/// The encoding of a scalar.
pub open spec fn enc_scalar(s: JsonScalarView) -> Seq<char> {
    match s {
        JsonScalarView::Null => "null"@,
        JsonScalarView::Bool(b) => if b {
            "true"@
        } else {
            "false"@
        },
        JsonScalarView::UInt(n) => util::spec_digits(n as nat),
        JsonScalarView::Text(v) => enc_text(v),
    }
}

/// The encoding of one `"key": value` pair.
pub open spec fn enc_field(key: Seq<char>, value: JsonScalarView) -> Seq<char> {
    enc_text(key) + seq![':'] + enc_scalar(value)
}

/// The encoding of an object's fields, comma separated.
pub open spec fn enc_fields(fs: Seq<(Seq<char>, JsonScalarView)>) -> Seq<char>
    decreases fs.len(),
{
    if fs.len() == 0 {
        Seq::empty()
    } else if fs.len() == 1 {
        enc_field(fs[0].0, fs[0].1)
    } else {
        enc_field(fs[0].0, fs[0].1) + seq![','] + enc_fields(fs.drop_first())
    }
}

/// The encoding of a flat object.
pub open spec fn enc_object(fs: Seq<(Seq<char>, JsonScalarView)>) -> Seq<char> {
    seq!['{'] + enc_fields(fs) + seq!['}']
}

/// The ghost view of an exec field list.
pub open spec fn fields_view(fs: Seq<(Vec<char>, JsonScalar)>) -> Seq<(Seq<char>, JsonScalarView)> {
    fs.map_values(|f: (Vec<char>, JsonScalar)| (f.0@, f.1@))
}

/// Appends one character's escape sequence.
fn push_escaped_char(out: &mut Vec<char>, c: char)
    ensures
        final(out)@ == old(out)@ + esc_char(c),
{
    if c == '"' {
        out.push('\\');
        out.push('"');
    } else if c == '\\' {
        out.push('\\');
        out.push('\\');
    } else if c == '\n' {
        out.push('\\');
        out.push('n');
    } else if c == '\r' {
        out.push('\\');
        out.push('r');
    } else if c == '\t' {
        out.push('\\');
        out.push('t');
    } else {
        out.push(c);
    }
    proof {
        assert(out@ =~= old(out)@ + esc_char(c));
    }
}

/// Every escape applied to a suffix in turn gives the whole escape.
proof fn lemma_escaped_take(v: Seq<char>, i: int)
    requires
        0 <= i < v.len(),
    ensures
        escaped(v.take(i + 1)) == escaped(v.take(i)) + esc_char(v[i]),
    decreases i,
{
    if i == 0 {
        assert(v.take(1)[0] == v[0]);
        assert(v.take(1).drop_first() =~= Seq::<char>::empty());
        assert(v.take(0) =~= Seq::<char>::empty());
        assert(escaped(Seq::<char>::empty()) == Seq::<char>::empty());
        assert(escaped(v.take(1)) == esc_char(v[0]) + escaped(Seq::<char>::empty()));
        assert(escaped(v.take(1)) =~= escaped(v.take(0)) + esc_char(v[0]));
    } else {
        lemma_escaped_take(v.drop_first(), i - 1);
        assert(v.take(i + 1)[0] == v[0]);
        assert(v.take(i + 1).drop_first() =~= v.drop_first().take(i));
        assert(v.take(i).drop_first() =~= v.drop_first().take(i - 1));
        assert(v.drop_first()[i - 1] == v[i]);
        assert(escaped(v.take(i + 1)) == esc_char(v[0]) + escaped(v.drop_first().take(i)));
        assert(escaped(v.take(i)) == esc_char(v[0]) + escaped(v.drop_first().take(i - 1)));
        assert(escaped(v.take(i + 1)) =~= escaped(v.take(i)) + esc_char(v[i]));
    }
}

/// Appends the encoding of a JSON string.
fn push_text(out: &mut Vec<char>, v: &Vec<char>)
    ensures
        final(out)@ == old(out)@ + enc_text(v@),
{
    out.push('"');
    let mut i: usize = 0;
    while i < v.len()
        invariant
            i <= v@.len(),
            out@ == old(out)@ + seq!['"'] + escaped(v@.take(i as int)),
        decreases v@.len() - i,
    {
        proof {
            lemma_escaped_take(v@, i as int);
        }
        push_escaped_char(out, v[i]);
        i = i + 1;
        proof {
            assert(out@ =~= old(out)@ + seq!['"'] + escaped(v@.take(i as int)));
        }
    }
    out.push('"');
    proof {
        assert(v@.take(v@.len() as int) =~= v@);
        assert(out@ =~= old(out)@ + enc_text(v@));
    }
}

/// Appends the encoding of a scalar.
fn push_scalar(out: &mut Vec<char>, s: &JsonScalar)
    ensures
        final(out)@ == old(out)@ + enc_scalar(s@),
{
    match s {
        JsonScalar::Null => {
            proof {
                reveal_strlit("null");
            }
            out.push('n');
            out.push('u');
            out.push('l');
            out.push('l');
            proof {
                assert(out@ =~= old(out)@ + "null"@);
            }
        },
        JsonScalar::Bool(b) => {
            proof {
                reveal_strlit("true");
                reveal_strlit("false");
            }
            if *b {
                out.push('t');
                out.push('r');
                out.push('u');
                out.push('e');
                proof {
                    assert(out@ =~= old(out)@ + "true"@);
                }
            } else {
                out.push('f');
                out.push('a');
                out.push('l');
                out.push('s');
                out.push('e');
                proof {
                    assert(out@ =~= old(out)@ + "false"@);
                }
            }
        },
        JsonScalar::UInt(n) => {
            util::push_u64_chars(out, *n);
        },
        JsonScalar::Text(v) => {
            push_text(out, v);
        },
    }
}

/// One more field extends the encoding with a comma and the field.
proof fn lemma_enc_fields_take(fs: Seq<(Seq<char>, JsonScalarView)>, i: int)
    requires
        1 <= i < fs.len(),
    ensures
        enc_fields(fs.take(i + 1)) == enc_fields(fs.take(i)) + seq![','] + enc_field(
            fs[i].0,
            fs[i].1,
        ),
    decreases i,
{
    if i == 1 {
        assert(fs.take(2)[0] == fs[0]);
        assert(fs.take(2).drop_first() =~= fs.subrange(1, 2));
        assert(fs.subrange(1, 2).len() == 1);
        assert(fs.subrange(1, 2)[0] == fs[1]);
        assert(enc_fields(fs.subrange(1, 2)) == enc_field(fs[1].0, fs[1].1));
        assert(fs.take(1).len() == 1);
        assert(fs.take(1)[0] == fs[0]);
        assert(enc_fields(fs.take(1)) == enc_field(fs[0].0, fs[0].1));
        assert(enc_fields(fs.take(2)) == enc_field(fs[0].0, fs[0].1) + seq![','] + enc_fields(
            fs.subrange(1, 2),
        ));
        assert(enc_fields(fs.take(2)) =~= enc_fields(fs.take(1)) + seq![','] + enc_field(
            fs[1].0,
            fs[1].1,
        ));
    } else {
        lemma_enc_fields_take(fs.drop_first(), i - 1);
        assert(fs.take(i + 1)[0] == fs[0]);
        assert(fs.take(i + 1).drop_first() =~= fs.drop_first().take(i));
        assert(fs.take(i).drop_first() =~= fs.drop_first().take(i - 1));
        assert(fs.drop_first()[i - 1] == fs[i]);
        assert(fs.take(i + 1).len() == i + 1);
        assert(fs.take(i).len() == i);
        assert(enc_fields(fs.take(i + 1)) == enc_field(fs[0].0, fs[0].1) + seq![','] + enc_fields(
            fs.drop_first().take(i),
        ));
        assert(enc_fields(fs.take(i)) == enc_field(fs[0].0, fs[0].1) + seq![','] + enc_fields(
            fs.drop_first().take(i - 1),
        ));
        assert(enc_fields(fs.take(i + 1)) =~= enc_fields(fs.take(i)) + seq![','] + enc_field(
            fs[i].0,
            fs[i].1,
        ));
    }
}

/// Encodes a flat object canonically: no whitespace, fields in order.
pub fn encode_object(fields: &Vec<(Vec<char>, JsonScalar)>) -> (out: Vec<char>)
    ensures
        out@ == enc_object(fields_view(fields@)),
{
    let ghost fv = fields_view(fields@);
    let mut out: Vec<char> = Vec::new();
    out.push('{');
    let mut i: usize = 0;
    proof {
        assert(fv.take(0) =~= Seq::<(Seq<char>, JsonScalarView)>::empty());
        assert(out@ =~= seq!['{'] + enc_fields(fv.take(0)));
    }
    while i < fields.len()
        invariant
            fv == fields_view(fields@),
            i <= fv.len(),
            fv.len() == fields@.len(),
            out@ == seq!['{'] + enc_fields(fv.take(i as int)),
        decreases fv.len() - i,
    {
        if i > 0 {
            out.push(',');
        }
        let ghost mid = out@;
        push_text(&mut out, &fields[i].0);
        out.push(':');
        push_scalar(&mut out, &fields[i].1);
        i = i + 1;
        proof {
            assert(fv[i - 1].0 == fields@[i - 1].0@);
            assert(fv[i - 1].1 == fields@[i - 1].1@);
            assert(out@ =~= mid + enc_field(fv[i - 1].0, fv[i - 1].1));
            if i == 1 {
                assert(fv.take(1)[0] == fv[0]);
                assert(enc_fields(fv.take(1)) == enc_field(fv[0].0, fv[0].1));
                assert(out@ =~= seq!['{'] + enc_fields(fv.take(1)));
            } else {
                lemma_enc_fields_take(fv, i - 1);
                assert(out@ =~= seq!['{'] + enc_fields(fv.take(i as int)));
            }
        }
    }
    out.push('}');
    proof {
        assert(fv.take(fv.len() as int) =~= fv);
        assert(out@ =~= enc_object(fv));
    }
    out
}


/// JSON whitespace.
pub open spec fn is_ws(c: char) -> bool {
    c == ' ' || c == '\t' || c == '\r' || c == '\n'
}

/// The first non-whitespace position at or after `i`.
pub open spec fn skip_ws(s: Seq<char>, i: int) -> int
    decreases s.len() - i,
{
    if 0 <= i < s.len() && is_ws(s[i]) {
        skip_ws(s, i + 1)
    } else {
        i
    }
}

/// Bounds of whitespace skipping.
proof fn lemma_skip_ws(s: Seq<char>, i: int)
    requires
        0 <= i <= s.len(),
    ensures
        i <= skip_ws(s, i) <= s.len(),
        skip_ws(s, i) < s.len() ==> !is_ws(s[skip_ws(s, i)]),
    decreases s.len() - i,
{
    if i < s.len() && is_ws(s[i]) {
        lemma_skip_ws(s, i + 1);
    }
}

/// The character an escape code stands for; the encoder emits only the
/// first five, the decoder accepts what clients may legally send.
pub open spec fn unesc_char(c: char) -> Option<char> {
    if c == '"' {
        Some('"')
    } else if c == '\\' {
        Some('\\')
    } else if c == 'n' {
        Some('\n')
    } else if c == 'r' {
        Some('\r')
    } else if c == 't' {
        Some('\t')
    } else if c == '/' {
        Some('/')
    } else if c == 'b' {
        Some('\u{8}')
    } else if c == 'f' {
        Some('\u{c}')
    } else {
        None
    }
}

/// The value of one hexadecimal digit.
pub open spec fn hex_val(c: char) -> Option<u32> {
    if '0' <= c && c <= '9' {
        Some((c as int - '0' as int) as u32)
    } else if 'a' <= c && c <= 'f' {
        Some((c as int - 'a' as int + 10) as u32)
    } else if 'A' <= c && c <= 'F' {
        Some((c as int - 'A' as int + 10) as u32)
    } else {
        None
    }
}

/// The code point four hexadecimal digits stand for, when all four are
/// digits and the result is no surrogate.
pub open spec fn hex4_char(c1: char, c2: char, c3: char, c4: char) -> Option<char> {
    match (hex_val(c1), hex_val(c2), hex_val(c3), hex_val(c4)) {
        (Some(a), Some(b), Some(c), Some(d)) => {
            let v = a * 4096 + b * 256 + c * 16 + d;
            if v < 0xD800 || v > 0xDFFF {
                Some(v as char)
            } else {
                None
            }
        },
        _ => None,
    }
}

/// Parses the characters of a JSON string after its opening quote, up to and
/// past the closing quote.
pub open spec fn parse_text_body(s: Seq<char>, i: int) -> Option<(Seq<char>, int)>
    decreases s.len() - i,
{
    if i < 0 || i >= s.len() {
        None
    } else if s[i] == '"' {
        Some((Seq::empty(), i + 1))
    } else if s[i] == '\\' {
        if i + 1 < s.len() {
            if s[i + 1] == 'u' {
                if i + 5 < s.len() {
                    match hex4_char(s[i + 2], s[i + 3], s[i + 4], s[i + 5]) {
                        Some(c) => match parse_text_body(s, i + 6) {
                            Some(p) => Some((seq![c] + p.0, p.1)),
                            None => None,
                        },
                        None => None,
                    }
                } else {
                    None
                }
            } else {
                match unesc_char(s[i + 1]) {
                    Some(c) => match parse_text_body(s, i + 2) {
                        Some(p) => Some((seq![c] + p.0, p.1)),
                        None => None,
                    },
                    None => None,
                }
            }
        } else {
            None
        }
    } else {
        match parse_text_body(s, i + 1) {
            Some(p) => Some((seq![s[i]] + p.0, p.1)),
            None => None,
        }
    }
}

/// Parses a quoted JSON string at `i`.
pub open spec fn parse_text(s: Seq<char>, i: int) -> Option<(Seq<char>, int)> {
    if 0 <= i < s.len() && s[i] == '"' {
        parse_text_body(s, i + 1)
    } else {
        None
    }
}

/// Parses a scalar at `i`: a string, `null`, `true`, `false`, or an unsigned
/// integer that fits.
pub open spec fn parse_scalar(s: Seq<char>, i: int) -> Option<(JsonScalarView, int)> {
    if i < 0 || i >= s.len() {
        None
    } else if s[i] == '"' {
        match parse_text(s, i) {
            Some(p) => Some((JsonScalarView::Text(p.0), p.1)),
            None => None,
        }
    } else if s[i] == 'n' {
        if i + 4 <= s.len() && s.subrange(i, i + 4) == "null"@ {
            Some((JsonScalarView::Null, i + 4))
        } else {
            None
        }
    } else if s[i] == 't' {
        if i + 4 <= s.len() && s.subrange(i, i + 4) == "true"@ {
            Some((JsonScalarView::Bool(true), i + 4))
        } else {
            None
        }
    } else if s[i] == 'f' {
        if i + 5 <= s.len() && s.subrange(i, i + 5) == "false"@ {
            Some((JsonScalarView::Bool(false), i + 5))
        } else {
            None
        }
    } else if util::is_digit(s[i]) {
        let e = util::digit_run_end(s, i);
        if util::digits_value(s.subrange(i, e)) <= u64::MAX {
            Some((JsonScalarView::UInt(util::digits_value(s.subrange(i, e)) as u64), e))
        } else {
            None
        }
    } else {
        None
    }
}

/// Parses one `"key": value` pair, whitespace allowed around the tokens.
pub open spec fn parse_field(s: Seq<char>, i: int) -> Option<((Seq<char>, JsonScalarView), int)> {
    let k = skip_ws(s, i);
    match parse_text(s, k) {
        None => None,
        Some(kp) => {
            let c = skip_ws(s, kp.1);
            if c < s.len() && s[c] == ':' {
                let v0 = skip_ws(s, c + 1);
                match parse_scalar(s, v0) {
                    Some(vp) => Some(((kp.0, vp.0), vp.1)),
                    None => None,
                }
            } else {
                None
            }
        },
    }
}

/// Parses one or more comma-separated fields.
pub open spec fn parse_fields(s: Seq<char>, i: int) -> Option<
    (Seq<(Seq<char>, JsonScalarView)>, int),
>
    decreases s.len() - i,
{
    match parse_field(s, i) {
        None => None,
        Some(fp) => {
            let k = skip_ws(s, fp.1);
            if k < s.len() && s[k] == ',' {
                if i < k + 1 <= s.len() {
                    match parse_fields(s, k + 1) {
                        Some(rp) => Some((seq![fp.0] + rp.0, rp.1)),
                        None => None,
                    }
                } else {
                    None
                }
            } else {
                Some((seq![fp.0], k))
            }
        },
    }
}

/// Parses a flat JSON object at `i`.
pub open spec fn parse_object(s: Seq<char>, i: int) -> Option<
    (Seq<(Seq<char>, JsonScalarView)>, int),
> {
    let k = skip_ws(s, i);
    if k < s.len() && s[k] == '{' {
        let b = skip_ws(s, k + 1);
        if b < s.len() && s[b] == '}' {
            Some((Seq::empty(), b + 1))
        } else {
            match parse_fields(s, k + 1) {
                Some(fp) => {
                    let c = skip_ws(s, fp.1);
                    if c < s.len() && s[c] == '}' {
                        Some((fp.0, c + 1))
                    } else {
                        None
                    }
                },
                None => None,
            }
        }
    } else {
        None
    }
}

/// Decodes a whole input as one flat object with nothing but whitespace
/// after it.
pub open spec fn spec_decode_object(s: Seq<char>) -> Option<Seq<(Seq<char>, JsonScalarView)>> {
    match parse_object(s, 0) {
        Some(p) => if skip_ws(s, p.1) == s.len() {
            Some(p.0)
        } else {
            None
        },
        None => None,
    }
}


/// Whitespace skipping stops immediately on a non-whitespace character.
proof fn lemma_skip_ws_id(s: Seq<char>, i: int)
    requires
        0 <= i <= s.len(),
        i == s.len() || !is_ws(s[i]),
    ensures
        skip_ws(s, i) == i,
{
}

/// Parsing inverts escaping: on the encoder's output the string body parser
/// returns the original characters and stops past the closing quote.
proof fn lemma_parse_text_body_enc(v: Seq<char>, s: Seq<char>, i: int)
    requires
        0 <= i,
        i + escaped(v).len() < s.len(),
        s.subrange(i, i + escaped(v).len()) == escaped(v),
        s[i + escaped(v).len()] == '"',
    ensures
        parse_text_body(s, i) == Some((v, i + escaped(v).len() + 1)),
    decreases v.len(),
{
    if v.len() == 0 {
        assert(escaped(v).len() == 0);
        assert(s[i] == '"');
    } else {
        let e0 = esc_char(v[0]);
        let rest = escaped(v.drop_first());
        assert(escaped(v) == e0 + rest);
        assert(e0.len() == escaped(v).len() - rest.len());
        assert forall|j: int| 0 <= j < e0.len() implies s[i + j] == e0[j] by {
            assert(s.subrange(i, i + escaped(v).len())[j] == s[i + j]);
            assert((e0 + rest)[j] == e0[j]);
        }
        assert(s.subrange(i + e0.len(), i + e0.len() + rest.len()) =~= rest) by {
            assert forall|j: int| 0 <= j < rest.len() implies s[i + e0.len() + j] == rest[j] by {
                assert(s.subrange(i, i + escaped(v).len())[e0.len() + j] == s[i + e0.len() + j]);
                assert((e0 + rest)[e0.len() + j] == rest[j]);
            }
        }
        lemma_parse_text_body_enc(v.drop_first(), s, i + e0.len());
        let c = v[0];
        assert(s[i + 0] == e0[0]);
        if c == '"' || c == '\\' || c == '\n' || c == '\r' || c == '\t' {
            assert(e0.len() == 2);
            assert(s[i + 1] == e0[1]);
            assert(s[i] == '\\');
            assert(unesc_char(s[i + 1]) == Some(c));
            assert(parse_text_body(s, i) == Some((seq![c] + v.drop_first(), i + escaped(v).len()
                + 1)));
            assert(seq![c] + v.drop_first() =~= v);
        } else {
            assert(e0.len() == 1);
            assert(s[i] == c);
            assert(s[i] != '"' && s[i] != '\\');
            assert(parse_text_body(s, i) == Some((seq![c] + v.drop_first(), i + escaped(v).len()
                + 1)));
            assert(seq![c] + v.drop_first() =~= v);
        }
    }
}

/// Parsing inverts string encoding.
proof fn lemma_parse_text_enc(v: Seq<char>, s: Seq<char>, i: int)
    requires
        0 <= i,
        i + enc_text(v).len() <= s.len(),
        s.subrange(i, i + enc_text(v).len()) == enc_text(v),
    ensures
        parse_text(s, i) == Some((v, i + enc_text(v).len())),
{
    assert(enc_text(v).len() == escaped(v).len() + 2);
    assert forall|j: int| 0 <= j < enc_text(v).len() implies s[i + j] == enc_text(v)[j] by {
        assert(s.subrange(i, i + enc_text(v).len())[j] == s[i + j]);
    }
    assert(s[i + 0] == enc_text(v)[0]);
    assert(enc_text(v)[0] == '"');
    assert(s[i] == '"');
    assert(s.subrange(i + 1, i + 1 + escaped(v).len()) =~= escaped(v)) by {
        assert forall|j: int| 0 <= j < escaped(v).len() implies s[i + 1 + j] == escaped(v)[j] by {
            assert(enc_text(v)[1 + j] == (seq!['"'] + escaped(v) + seq!['"'])[1 + j]);
        }
    }
    assert(s[i + 1 + escaped(v).len()] == '"') by {
        assert(enc_text(v)[enc_text(v).len() - 1] == '"');
    }
    lemma_parse_text_body_enc(v, s, i + 1);
}

/// The run of digits the encoder emits ends exactly where the digits end.
proof fn lemma_digit_run_exact(s: Seq<char>, i: int, e: int)
    requires
        0 <= i <= e <= s.len(),
        forall|j: int| i <= j < e ==> util::is_digit(#[trigger] s[j]),
        e == s.len() || !util::is_digit(s[e]),
    ensures
        util::digit_run_end(s, i) == e,
    decreases e - i,
{
    if i < e {
        lemma_digit_run_exact(s, i + 1, e);
    }
}

/// The first character of a scalar's encoding decides its kind; none of the
/// kinds starts with whitespace, a comma, or a brace.
proof fn lemma_enc_scalar_first(sc: JsonScalarView)
    ensures
        enc_scalar(sc).len() >= 1,
        !is_ws(enc_scalar(sc)[0]),
        enc_scalar(sc)[0] != ',' && enc_scalar(sc)[0] != '}' && enc_scalar(sc)[0] != ':',
        match sc {
            JsonScalarView::Null => enc_scalar(sc)[0] == 'n',
            JsonScalarView::Bool(b) => enc_scalar(sc)[0] == (if b {
                't'
            } else {
                'f'
            }),
            JsonScalarView::UInt(n) => util::is_digit(enc_scalar(sc)[0]),
            JsonScalarView::Text(v) => enc_scalar(sc)[0] == '"',
        },
{
    reveal_strlit("null");
    reveal_strlit("true");
    reveal_strlit("false");
    match sc {
        JsonScalarView::UInt(n) => {
            util::lemma_digits_value_of_spec_digits(n as nat);
            assert(util::is_digit(util::spec_digits(n as nat)[0]));
        },
        _ => {},
    }
}

/// Parsing inverts scalar encoding, provided a digit run is ended by the
/// following character.
proof fn lemma_parse_scalar_enc(sc: JsonScalarView, s: Seq<char>, i: int)
    requires
        0 <= i,
        i + enc_scalar(sc).len() <= s.len(),
        s.subrange(i, i + enc_scalar(sc).len()) == enc_scalar(sc),
        sc is UInt ==> (i + enc_scalar(sc).len() == s.len() || !util::is_digit(
            s[i + enc_scalar(sc).len()],
        )),
    ensures
        parse_scalar(s, i) == Some((sc, i + enc_scalar(sc).len())),
{
    reveal_strlit("null");
    reveal_strlit("true");
    reveal_strlit("false");
    lemma_enc_scalar_first(sc);
    assert forall|j: int| 0 <= j < enc_scalar(sc).len() implies s[i + j] == enc_scalar(sc)[j] by {
        assert(s.subrange(i, i + enc_scalar(sc).len())[j] == s[i + j]);
    }
    match sc {
        JsonScalarView::Null => {
            assert(s.subrange(i, i + 4) =~= "null"@);
            assert(s[i] == 'n');
        },
        JsonScalarView::Bool(b) => {
            if b {
                assert(s.subrange(i, i + 4) =~= "true"@);
                assert(s[i] == 't');
                assert(s[i] != '"' && s[i] != 'n');
            } else {
                assert(s.subrange(i, i + 5) =~= "false"@);
                assert(s[i] == 'f');
                assert(s[i] != '"' && s[i] != 'n' && s[i] != 't');
            }
        },
        JsonScalarView::UInt(n) => {
            let d = util::spec_digits(n as nat);
            util::lemma_digits_value_of_spec_digits(n as nat);
            assert(s[i] != '"' && s[i] != 'n' && s[i] != 't' && s[i] != 'f') by {
                assert(util::is_digit(s[i]));
            }
            assert(s.subrange(i, i + d.len()) =~= d);
            assert forall|j: int| i <= j < i + d.len() implies util::is_digit(#[trigger] s[j]) by {
                assert(s.subrange(i, i + d.len() as int)[j - i] == s[j]);
                assert(d[j - i] == s[j]);
            }
            lemma_digit_run_exact(s, i, i + d.len() as int);
            assert(util::digits_value(s.subrange(i, i + d.len())) == n as nat);
        },
        JsonScalarView::Text(v) => {
            assert(s[i] == '"');
            lemma_parse_text_enc(v, s, i);
        },
    }
}

/// Parsing inverts field encoding.
proof fn lemma_parse_field_enc(key: Seq<char>, val: JsonScalarView, s: Seq<char>, i: int)
    requires
        0 <= i,
        i + enc_field(key, val).len() <= s.len(),
        s.subrange(i, i + enc_field(key, val).len()) == enc_field(key, val),
        val is UInt ==> (i + enc_field(key, val).len() == s.len() || !util::is_digit(
            s[i + enc_field(key, val).len()],
        )),
    ensures
        parse_field(s, i) == Some(((key, val), i + enc_field(key, val).len())),
{
    let kl = enc_text(key).len();
    let vl = enc_scalar(val).len();
    assert(enc_field(key, val).len() == kl + 1 + vl);
    assert forall|j: int| 0 <= j < kl + 1 + vl implies s[i + j] == enc_field(key, val)[j] by {
        assert(s.subrange(i, i + enc_field(key, val).len())[j] == s[i + j]);
    }
    assert(s.subrange(i, i + kl) =~= enc_text(key)) by {
        assert forall|j: int| 0 <= j < kl implies s[i + j] == enc_text(key)[j] by {
            assert(enc_field(key, val)[j] == (enc_text(key) + seq![':'] + enc_scalar(val))[j]);
        }
    }
    assert(s[i + kl] == ':') by {
        assert(enc_field(key, val)[kl as int] == ':');
    }
    assert(s.subrange(i + kl + 1, i + kl + 1 + vl) =~= enc_scalar(val)) by {
        assert forall|j: int| 0 <= j < vl implies s[i + kl + 1 + j] == enc_scalar(val)[j] by {
            assert(enc_field(key, val)[kl + 1 + j] == enc_scalar(val)[j]);
        }
    }
    assert(s[i] == '"') by {
        assert(enc_text(key)[0] == '"');
    }
    lemma_skip_ws_id(s, i);
    lemma_parse_text_enc(key, s, i);
    lemma_skip_ws_id(s, i + kl);
    lemma_enc_scalar_first(val);
    assert(s[i + kl + 1] == enc_scalar(val)[0]);
    lemma_skip_ws_id(s, i + kl + 1);
    lemma_parse_scalar_enc(val, s, i + kl + 1);
}

/// Parsing inverts the encoding of a non-empty field list when a closing
/// brace follows it.
proof fn lemma_parse_fields_enc(
    fs: Seq<(Seq<char>, JsonScalarView)>,
    s: Seq<char>,
    i: int,
)
    requires
        0 <= i,
        fs.len() >= 1,
        i + enc_fields(fs).len() < s.len(),
        s.subrange(i, i + enc_fields(fs).len()) == enc_fields(fs),
        s[i + enc_fields(fs).len()] == '}',
    ensures
        parse_fields(s, i) == Some((fs, i + enc_fields(fs).len())),
    decreases fs.len(),
{
    let fl = enc_field(fs[0].0, fs[0].1).len();
    assert forall|j: int| 0 <= j < enc_fields(fs).len() implies s[i + j] == enc_fields(fs)[j] by {
        assert(s.subrange(i, i + enc_fields(fs).len())[j] == s[i + j]);
    }
    if fs.len() == 1 {
        assert(enc_fields(fs) == enc_field(fs[0].0, fs[0].1));
        assert(s.subrange(i, i + fl) =~= enc_field(fs[0].0, fs[0].1));
        lemma_parse_field_enc(fs[0].0, fs[0].1, s, i);
        lemma_skip_ws_id(s, i + fl);
        assert(s[i + fl] == '}');
        assert(seq![fs[0]] =~= fs);
    } else {
        let rest = fs.drop_first();
        assert(enc_fields(fs) == enc_field(fs[0].0, fs[0].1) + seq![','] + enc_fields(rest));
        assert(s.subrange(i, i + fl) =~= enc_field(fs[0].0, fs[0].1)) by {
            assert forall|j: int| 0 <= j < fl implies s[i + j] == enc_field(fs[0].0, fs[0].1)[j]
                by {
                assert(enc_fields(fs)[j] == (enc_field(fs[0].0, fs[0].1) + seq![','] + enc_fields(
                    rest,
                ))[j]);
            }
        }
        assert(s[i + fl] == ',') by {
            assert(enc_fields(fs)[fl as int] == ',');
        }
        assert(s.subrange(i + fl + 1, i + fl + 1 + enc_fields(rest).len()) =~= enc_fields(rest))
            by {
            assert forall|j: int| 0 <= j < enc_fields(rest).len() implies s[i + fl + 1 + j]
                == enc_fields(rest)[j] by {
                assert(enc_fields(fs)[fl + 1 + j] == enc_fields(rest)[j]);
            }
        }
        assert(s[i + fl + 1 + enc_fields(rest).len()] == '}');
        lemma_parse_field_enc(fs[0].0, fs[0].1, s, i);
        lemma_skip_ws_id(s, i + fl);
        lemma_parse_fields_enc(rest, s, i + fl + 1);
        assert(seq![fs[0]] + rest =~= fs);
    }
}

/// Decoding inverts encoding: parsing the canonical encoding of any flat
/// object yields the object back, ending at the input's end.
pub proof fn lemma_object_round_trip(fs: Seq<(Seq<char>, JsonScalarView)>)
    ensures
        spec_decode_object(enc_object(fs)) == Some(fs),
{
    let s = enc_object(fs);
    assert(s[0] == '{');
    assert(s.len() == enc_fields(fs).len() + 2);
    lemma_skip_ws_id(s, 0);
    if fs.len() == 0 {
        assert(enc_fields(fs).len() == 0);
        assert(s[1] == '}');
        lemma_skip_ws_id(s, 1);
        lemma_skip_ws_id(s, 2);
        assert(parse_object(s, 0) == Some((Seq::<(Seq<char>, JsonScalarView)>::empty(), 2int)));
        assert(fs =~= Seq::<(Seq<char>, JsonScalarView)>::empty());
    } else {
        assert(s.subrange(1, 1 + enc_fields(fs).len() as int) =~= enc_fields(fs)) by {
            assert forall|j: int| 0 <= j < enc_fields(fs).len() implies s[1 + j] == enc_fields(
                fs,
            )[j] by {
                assert((seq!['{'] + enc_fields(fs) + seq!['}'])[1 + j] == enc_fields(fs)[j]);
            }
        }
        assert(s[1 + enc_fields(fs).len() as int] == '}');
        lemma_parse_fields_enc(fs, s, 1);
        // The first field's key begins with a quote, so the object is not
        // taken for an empty one.
        assert(enc_fields(fs)[0] == '"') by {
            if fs.len() == 1 {
                assert(enc_fields(fs) == enc_field(fs[0].0, fs[0].1));
            }
            assert(enc_field(fs[0].0, fs[0].1)[0] == enc_text(fs[0].0)[0]);
        }
        assert(s[1] == '"');
        lemma_skip_ws_id(s, 1);
        lemma_skip_ws_id(s, 1 + enc_fields(fs).len() as int);
        lemma_skip_ws_id(s, s.len() as int);
    }
}


/// Skips whitespace.
fn skip_ws_exec(s: &Vec<char>, i: usize) -> (r: usize)
    requires
        i <= s@.len(),
    ensures
        r == skip_ws(s@, i as int),
        i <= r <= s@.len(),
    decreases s@.len() - i,
{
    proof {
        lemma_skip_ws(s@, i as int);
    }
    if i < s.len() {
        let c = s[i];
        if c == ' ' || c == '\t' || c == '\r' || c == '\n' {
            return skip_ws_exec(s, i + 1);
        }
    }
    i
}

/// Reads one hexadecimal digit.
fn hex_digit(c: char) -> (r: Option<u32>)
    ensures
        r == hex_val(c),
{
    if '0' <= c && c <= '9' {
        Some(c as u32 - '0' as u32)
    } else if 'a' <= c && c <= 'f' {
        Some(c as u32 - 'a' as u32 + 10)
    } else if 'A' <= c && c <= 'F' {
        Some(c as u32 - 'A' as u32 + 10)
    } else {
        None
    }
}

/// Parses a quoted JSON string.
fn parse_text_exec(s: &Vec<char>, pos: usize) -> (r: Option<(Vec<char>, usize)>)
    requires
        pos <= s@.len(),
    ensures
        match r {
            Some(p) => parse_text(s@, pos as int) == Some((p.0@, p.1 as int)) && pos < p.1
                <= s@.len(),
            None => parse_text(s@, pos as int) is None,
        },
{
    if pos >= s.len() || s[pos] != '"' {
        return None;
    }
    let mut acc: Vec<char> = Vec::new();
    let mut i: usize = pos + 1;
    loop
        invariant
            pos < i <= s@.len(),
            pos < s@.len() && s@[pos as int] == '"',
            parse_text_body(s@, pos + 1) == (match parse_text_body(s@, i as int) {
                Some(p) => Some::<(Seq<char>, int)>((acc@ + p.0, p.1)),
                None => None::<(Seq<char>, int)>,
            }),
        decreases s@.len() - i,
    {
        if i >= s.len() {
            return None;
        }
        let c = s[i];
        if c == '"' {
            proof {
                assert(parse_text_body(s@, i as int) == Some((Seq::<char>::empty(), i + 1)));
                assert(acc@ + Seq::<char>::empty() =~= acc@);
            }
            return Some((acc, i + 1));
        } else if c == '\\' {
            if i + 1 >= s.len() {
                return None;
            }
            let e = s[i + 1];
            if e == 'u' {
                if s.len() - i <= 5 {
                    return None;
                }
                let h1 = hex_digit(s[i + 2]);
                let h2 = hex_digit(s[i + 3]);
                let h3 = hex_digit(s[i + 4]);
                let h4 = hex_digit(s[i + 5]);
                let v: u32 = match (h1, h2, h3, h4) {
                    (Some(a), Some(b), Some(c3), Some(d)) => a * 4096 + b * 256 + c3 * 16 + d,
                    _ => {
                        return None;
                    },
                };
                if !(v < 0xD800 || v > 0xDFFF) {
                    return None;
                }
                let u = util::char_from_u32(v);
                let ghost acc0 = acc@;
                acc.push(u);
                proof {
                    assert(hex4_char(s@[i + 2], s@[i + 3], s@[i + 4], s@[i + 5]) == Some(u));
                    match parse_text_body(s@, i + 6) {
                        Some(p) => {
                            assert(parse_text_body(s@, i as int) == Some((seq![u] + p.0, p.1)));
                            assert(acc0 + (seq![u] + p.0) =~= acc@ + p.0);
                        },
                        None => {
                            assert(parse_text_body(s@, i as int) is None);
                        },
                    }
                }
                i = i + 6;
                continue;
            }
            let u: char = if e == '"' {
                '"'
            } else if e == '\\' {
                '\\'
            } else if e == 'n' {
                '\n'
            } else if e == 'r' {
                '\r'
            } else if e == 't' {
                '\t'
            } else if e == '/' {
                '/'
            } else if e == 'b' {
                '\u{8}'
            } else {
                '\u{c}'
            };
            if !(e == '"' || e == '\\' || e == 'n' || e == 'r' || e == 't' || e == '/' || e == 'b'
                || e == 'f') {
                proof {
                    assert(unesc_char(s@[i as int + 1]) is None);
                }
                return None;
            }
            let ghost acc0 = acc@;
            acc.push(u);
            proof {
                assert(unesc_char(s@[i as int + 1]) == Some(u));
                match parse_text_body(s@, i + 2) {
                    Some(p) => {
                        assert(parse_text_body(s@, i as int) == Some((seq![u] + p.0, p.1)));
                        assert(acc0 + (seq![u] + p.0) =~= acc@ + p.0);
                    },
                    None => {
                        assert(parse_text_body(s@, i as int) is None);
                    },
                }
            }
            i = i + 2;
        } else {
            let ghost acc0 = acc@;
            acc.push(c);
            proof {
                match parse_text_body(s@, i + 1) {
                    Some(p) => {
                        assert(parse_text_body(s@, i as int) == Some((seq![c] + p.0, p.1)));
                        assert(acc0 + (seq![c] + p.0) =~= acc@ + p.0);
                    },
                    None => {
                        assert(parse_text_body(s@, i as int) is None);
                    },
                }
            }
            i = i + 1;
        }
    }
}

/// Matches four characters of the input against a known word.
fn match4(s: &Vec<char>, pos: usize, c0: char, c1: char, c2: char, c3: char) -> (r: bool)
    requires
        pos <= s@.len(),
    ensures
        r <==> (pos + 4 <= s@.len() && s@.subrange(pos as int, pos + 4) =~= seq![c0, c1, c2, c3]),
{
    if s.len() - pos >= 4 && s[pos] == c0 && s[pos + 1] == c1 && s[pos + 2] == c2 && s[pos + 3]
        == c3 {
        proof {
            assert(s@.subrange(pos as int, pos + 4) =~= seq![c0, c1, c2, c3]);
        }
        true
    } else {
        proof {
            if pos + 4 <= s@.len() && s@.subrange(pos as int, pos + 4) =~= seq![c0, c1, c2, c3] {
                assert(s@[pos as int] == s@.subrange(pos as int, pos + 4)[0]);
                assert(s@[pos + 1] == s@.subrange(pos as int, pos + 4)[1]);
                assert(s@[pos + 2] == s@.subrange(pos as int, pos + 4)[2]);
                assert(s@[pos + 3] == s@.subrange(pos as int, pos + 4)[3]);
            }
        }
        false
    }
}

/// Parses a scalar.
fn parse_scalar_exec(s: &Vec<char>, pos: usize) -> (r: Option<(JsonScalar, usize)>)
    requires
        pos <= s@.len(),
    ensures
        match r {
            Some(p) => parse_scalar(s@, pos as int) == Some((p.0@, p.1 as int)) && pos < p.1
                <= s@.len(),
            None => parse_scalar(s@, pos as int) is None,
        },
{
    proof {
        reveal_strlit("null");
        reveal_strlit("true");
        reveal_strlit("false");
    }
    if pos >= s.len() {
        return None;
    }
    let c = s[pos];
    if c == '"' {
        match parse_text_exec(s, pos) {
            Some((v, j)) => Some((JsonScalar::Text(v), j)),
            None => None,
        }
    } else if c == 'n' {
        if match4(s, pos, 'n', 'u', 'l', 'l') {
            proof {
                assert("null"@ =~= seq!['n', 'u', 'l', 'l']);
            }
            Some((JsonScalar::Null, pos + 4))
        } else {
            proof {
                assert("null"@ =~= seq!['n', 'u', 'l', 'l']);
            }
            None
        }
    } else if c == 't' {
        if match4(s, pos, 't', 'r', 'u', 'e') {
            proof {
                assert("true"@ =~= seq!['t', 'r', 'u', 'e']);
            }
            Some((JsonScalar::Bool(true), pos + 4))
        } else {
            proof {
                assert("true"@ =~= seq!['t', 'r', 'u', 'e']);
            }
            None
        }
    } else if c == 'f' {
        if s.len() - pos >= 5 && s[pos + 1] == 'a' && s[pos + 2] == 'l' && s[pos + 3] == 's'
            && s[pos + 4] == 'e' {
            proof {
                assert("false"@ =~= seq!['f', 'a', 'l', 's', 'e']);
                assert(s@.subrange(pos as int, pos + 5) =~= "false"@);
            }
            Some((JsonScalar::Bool(false), pos + 5))
        } else {
            proof {
                assert("false"@ =~= seq!['f', 'a', 'l', 's', 'e']);
                if pos + 5 <= s@.len() && s@.subrange(pos as int, pos + 5) == "false"@ {
                    assert(s@[pos + 1] == s@.subrange(pos as int, pos + 5)[1]);
                    assert(s@[pos + 2] == s@.subrange(pos as int, pos + 5)[2]);
                    assert(s@[pos + 3] == s@.subrange(pos as int, pos + 5)[3]);
                    assert(s@[pos + 4] == s@.subrange(pos as int, pos + 5)[4]);
                }
            }
            None
        }
    } else if '0' <= c && c <= '9' {
        let e = util::find_digit_run_end(s, pos);
        proof {
            util::lemma_digit_run_end(s@, pos as int);
            assert(util::all_digits(s@.subrange(pos as int, e as int))) by {
                assert forall|j: int|
                    0 <= j < e - pos implies util::is_digit(
                    #[trigger] s@.subrange(pos as int, e as int)[j],
                ) by {
                    assert(s@.subrange(pos as int, e as int)[j] == s@[pos + j]);
                }
            }
        }
        proof {
            assert(util::digit_run_end(s@, pos as int) == util::digit_run_end(s@, pos + 1));
            assert(e > pos);
        }
        match util::parse_u64_digits(s, pos, e) {
            Some(v) => Some((JsonScalar::UInt(v), e)),
            None => None,
        }
    } else {
        None
    }
}

/// Parses one `"key": value` pair.
fn parse_field_exec(s: &Vec<char>, pos: usize) -> (r: Option<((Vec<char>, JsonScalar), usize)>)
    requires
        pos <= s@.len(),
    ensures
        match r {
            Some(p) => parse_field(s@, pos as int) == Some((((p.0).0@, (p.0).1@), p.1 as int))
                && pos < p.1 <= s@.len(),
            None => parse_field(s@, pos as int) is None,
        },
{
    let k = skip_ws_exec(s, pos);
    let (key, j) = match parse_text_exec(s, k) {
        Some(p) => p,
        None => {
            return None;
        },
    };
    let c = skip_ws_exec(s, j);
    if !(c < s.len() && s[c] == ':') {
        return None;
    }
    let v0 = skip_ws_exec(s, c + 1);
    match parse_scalar_exec(s, v0) {
        Some((val, e)) => Some(((key, val), e)),
        None => None,
    }
}

/// Parses one or more comma-separated fields.
fn parse_fields_exec(s: &Vec<char>, pos: usize) -> (r: Option<(Vec<(Vec<char>, JsonScalar)>, usize)>)
    requires
        pos <= s@.len(),
    ensures
        match r {
            Some(p) => parse_fields(s@, pos as int) == Some((fields_view(p.0@), p.1 as int))
                && p.1 <= s@.len(),
            None => parse_fields(s@, pos as int) is None,
        },
{
    let mut acc: Vec<(Vec<char>, JsonScalar)> = Vec::new();
    let mut cur: usize = pos;
    proof {
        assert(fields_view(acc@) =~= Seq::<(Seq<char>, JsonScalarView)>::empty());
    }
    loop
        invariant
            pos <= cur <= s@.len(),
            parse_fields(s@, pos as int) == (match parse_fields(s@, cur as int) {
                Some(p) => Some::<(Seq<(Seq<char>, JsonScalarView)>, int)>((fields_view(acc@)
                    + p.0, p.1)),
                None => None::<(Seq<(Seq<char>, JsonScalarView)>, int)>,
            }),
        decreases s@.len() - cur,
    {
        let (f, j) = match parse_field_exec(s, cur) {
            Some(p) => p,
            None => {
                return None;
            },
        };
        let k = skip_ws_exec(s, j);
        let ghost fv = (f.0@, f.1@);
        if k < s.len() && s[k] == ',' {
            let ghost acc0 = acc@;
            acc.push(f);
            proof {
                assert(fields_view(acc@) =~= fields_view(acc0).push(fv));
                match parse_fields(s@, k + 1) {
                    Some(p) => {
                        assert(parse_fields(s@, cur as int) == Some((seq![fv] + p.0, p.1)));
                        assert(fields_view(acc0) + (seq![fv] + p.0) =~= fields_view(acc@) + p.0);
                    },
                    None => {
                        assert(parse_fields(s@, cur as int) is None);
                    },
                }
            }
            cur = k + 1;
        } else {
            let ghost acc0 = acc@;
            acc.push(f);
            proof {
                assert(parse_fields(s@, cur as int) == Some((seq![fv], k as int)));
                assert(fields_view(acc@) =~= fields_view(acc0).push(fv));
                assert(fields_view(acc0) + seq![fv] =~= fields_view(acc@));
            }
            return Some((acc, k));
        }
    }
}

/// Decodes a whole input as one flat JSON object; trailing whitespace is
/// allowed, anything else after the object is rejected.
pub fn decode_object(s: &Vec<char>) -> (r: Option<Vec<(Vec<char>, JsonScalar)>>)
    ensures
        match r {
            Some(fs) => spec_decode_object(s@) == Some(fields_view(fs@)),
            None => spec_decode_object(s@) is None,
        },
{
    let k = skip_ws_exec(s, 0);
    if !(k < s.len() && s[k] == '{') {
        return None;
    }
    let b = skip_ws_exec(s, k + 1);
    if b < s.len() && s[b] == '}' {
        let e = skip_ws_exec(s, b + 1);
        if e == s.len() {
            let empty_fields: Vec<(Vec<char>, JsonScalar)> = Vec::new();
            proof {
                assert(fields_view(empty_fields@) =~= Seq::<(Seq<char>, JsonScalarView)>::empty());
            }
            return Some(empty_fields);
        } else {
            return None;
        }
    }
    match parse_fields_exec(s, k + 1) {
        Some((fs, e)) => {
            let c = skip_ws_exec(s, e);
            if c < s.len() && s[c] == '}' {
                let t = skip_ws_exec(s, c + 1);
                if t == s.len() {
                    Some(fs)
                } else {
                    None
                }
            } else {
                None
            }
        },
        None => None,
    }
}


/// The name a log format carries on the wire.
pub open spec fn spec_log_format_name(f: SwanlingLogFormat) -> Seq<char> {
    match f {
        SwanlingLogFormat::Csv => "csv"@,
        SwanlingLogFormat::Json => "json"@,
        SwanlingLogFormat::Raw => "raw"@,
    }
}

/// Builds a log format's wire name.
pub fn log_format_name(f: SwanlingLogFormat) -> (r: Vec<char>)
    ensures
        r@ == spec_log_format_name(f),
{
    match f {
        SwanlingLogFormat::Csv => util::str_to_chars("csv"),
        SwanlingLogFormat::Json => util::str_to_chars("json"),
        SwanlingLogFormat::Raw => util::str_to_chars("raw"),
    }
}

/// The name a mitigation strategy carries on the wire.
pub open spec fn spec_co_name(m: SwanlingCoordinatedOmissionMitigation) -> Seq<char> {
    match m {
        SwanlingCoordinatedOmissionMitigation::Average => "average"@,
        SwanlingCoordinatedOmissionMitigation::Disabled => "disabled"@,
        SwanlingCoordinatedOmissionMitigation::Maximum => "maximum"@,
        SwanlingCoordinatedOmissionMitigation::Minimum => "minimum"@,
    }
}

/// Builds a mitigation strategy's wire name.
pub fn co_name(m: SwanlingCoordinatedOmissionMitigation) -> (r: Vec<char>)
    ensures
        r@ == spec_co_name(m),
{
    match m {
        SwanlingCoordinatedOmissionMitigation::Average => util::str_to_chars("average"),
        SwanlingCoordinatedOmissionMitigation::Disabled => util::str_to_chars("disabled"),
        SwanlingCoordinatedOmissionMitigation::Maximum => util::str_to_chars("maximum"),
        SwanlingCoordinatedOmissionMitigation::Minimum => util::str_to_chars("minimum"),
    }
}

/// Parses a mitigation strategy's wire name.
pub fn parse_co_name(v: &Vec<char>) -> (r: Option<SwanlingCoordinatedOmissionMitigation>)
    ensures
        match r {
            Some(m) => v@ == spec_co_name(m),
            None => forall|m: SwanlingCoordinatedOmissionMitigation| v@ != spec_co_name(m),
        },
{
    proof {
        reveal_strlit("average");
        reveal_strlit("disabled");
        reveal_strlit("maximum");
        reveal_strlit("minimum");
        assert("average"@.len() == 7 && "disabled"@.len() == 8 && "maximum"@.len() == 7
            && "minimum"@.len() == 7);
        assert("average"@[0] == 'a' && "maximum"@[0] == 'm' && "minimum"@[0] == 'm');
        assert("maximum"@[1] == 'a' && "minimum"@[1] == 'i');
    }
    if crate::logger::chars_match(v, "average") {
        Some(SwanlingCoordinatedOmissionMitigation::Average)
    } else if crate::logger::chars_match(v, "disabled") {
        Some(SwanlingCoordinatedOmissionMitigation::Disabled)
    } else if crate::logger::chars_match(v, "maximum") {
        Some(SwanlingCoordinatedOmissionMitigation::Maximum)
    } else if crate::logger::chars_match(v, "minimum") {
        Some(SwanlingCoordinatedOmissionMitigation::Minimum)
    } else {
        None
    }
}

/// One quarter of the configuration snapshot's fields.
pub open spec fn spec_config_fields_a(c: SwanlingConfiguration) -> Seq<(Seq<char>, JsonScalarView)> {
    seq![
        ("help"@, JsonScalarView::Bool(c.help)),
        ("version"@, JsonScalarView::Bool(c.version)),
        ("list"@, JsonScalarView::Bool(c.list)),
        ("host"@, JsonScalarView::Text(c.host@)),
        ("users"@, match c.users { Some(v) => JsonScalarView::UInt(v as u64), None => JsonScalarView::Null }),
        ("hatch_rate"@, match c.hatch_rate { Some(v) => JsonScalarView::Text(v@), None => JsonScalarView::Null }),
        ("run_time"@, JsonScalarView::Text(c.run_time@)),
        ("swanling_log"@, JsonScalarView::Text(c.swanling_log@)),
        ("log_level"@, JsonScalarView::UInt(c.log_level as u64)),
        ("verbose"@, JsonScalarView::UInt(c.verbose as u64)),
        ("running_metrics"@, match c.running_metrics { Some(v) => JsonScalarView::UInt(v as u64), None => JsonScalarView::Null }),
    ]
}

/// One quarter of the configuration snapshot's fields.
pub open spec fn spec_config_fields_b(c: SwanlingConfiguration) -> Seq<(Seq<char>, JsonScalarView)> {
    seq![
        ("no_reset_metrics"@, JsonScalarView::Bool(c.no_reset_metrics)),
        ("no_metrics"@, JsonScalarView::Bool(c.no_metrics)),
        ("no_task_metrics"@, JsonScalarView::Bool(c.no_task_metrics)),
        ("no_error_summary"@, JsonScalarView::Bool(c.no_error_summary)),
        ("report_file"@, JsonScalarView::Text(c.report_file@)),
        ("request_log"@, JsonScalarView::Text(c.request_log@)),
        ("request_format"@, match c.request_format { Some(v) => JsonScalarView::Text(spec_log_format_name(v)), None => JsonScalarView::Null }),
        ("task_log"@, JsonScalarView::Text(c.task_log@)),
        ("task_format"@, match c.task_format { Some(v) => JsonScalarView::Text(spec_log_format_name(v)), None => JsonScalarView::Null }),
        ("error_log"@, JsonScalarView::Text(c.error_log@)),
        ("error_format"@, match c.error_format { Some(v) => JsonScalarView::Text(spec_log_format_name(v)), None => JsonScalarView::Null }),
    ]
}

/// One quarter of the configuration snapshot's fields.
pub open spec fn spec_config_fields_c(c: SwanlingConfiguration) -> Seq<(Seq<char>, JsonScalarView)> {
    seq![
        ("debug_log"@, JsonScalarView::Text(c.debug_log@)),
        ("debug_format"@, match c.debug_format { Some(v) => JsonScalarView::Text(spec_log_format_name(v)), None => JsonScalarView::Null }),
        ("no_debug_body"@, JsonScalarView::Bool(c.no_debug_body)),
        ("status_codes"@, JsonScalarView::Bool(c.status_codes)),
        ("no_telnet"@, JsonScalarView::Bool(c.no_telnet)),
        ("telnet_host"@, JsonScalarView::Text(c.telnet_host@)),
        ("telnet_port"@, JsonScalarView::UInt(c.telnet_port as u64)),
        ("no_websocket"@, JsonScalarView::Bool(c.no_websocket)),
        ("websocket_host"@, JsonScalarView::Text(c.websocket_host@)),
        ("websocket_port"@, JsonScalarView::UInt(c.websocket_port as u64)),
        ("no_autostart"@, JsonScalarView::Bool(c.no_autostart)),
    ]
}

/// One quarter of the configuration snapshot's fields.
pub open spec fn spec_config_fields_d(c: SwanlingConfiguration) -> Seq<(Seq<char>, JsonScalarView)> {
    seq![
        ("co_mitigation"@, match c.co_mitigation { Some(v) => JsonScalarView::Text(spec_co_name(v)), None => JsonScalarView::Null }),
        ("throttle_requests"@, JsonScalarView::UInt(c.throttle_requests as u64)),
        ("sticky_follow"@, JsonScalarView::Bool(c.sticky_follow)),
        ("manager"@, JsonScalarView::Bool(c.manager)),
        ("expect_workers"@, match c.expect_workers { Some(v) => JsonScalarView::UInt(v as u64), None => JsonScalarView::Null }),
        ("no_hash_check"@, JsonScalarView::Bool(c.no_hash_check)),
        ("manager_bind_host"@, JsonScalarView::Text(c.manager_bind_host@)),
        ("manager_bind_port"@, JsonScalarView::UInt(c.manager_bind_port as u64)),
        ("worker"@, JsonScalarView::Bool(c.worker)),
        ("manager_host"@, JsonScalarView::Text(c.manager_host@)),
        ("manager_port"@, JsonScalarView::UInt(c.manager_port as u64)),
    ]
}

/// The configuration snapshot as a flat JSON object: one field per run-time
/// option, in declaration order.
pub open spec fn spec_config_fields(c: SwanlingConfiguration) -> Seq<(Seq<char>, JsonScalarView)> {
    spec_config_fields_a(c) + spec_config_fields_b(c) + spec_config_fields_c(c)
        + spec_config_fields_d(c)
}

/// Two configurations with the same option values, strings compared by their
/// characters.
pub open spec fn spec_config_eq(a: SwanlingConfiguration, b: SwanlingConfiguration) -> bool {
    &&& a.help == b.help
    &&& a.version == b.version
    &&& a.list == b.list
    &&& a.host@ == b.host@
    &&& a.users == b.users
    &&& (match (a.hatch_rate, b.hatch_rate) {
        (Some(x), Some(y)) => x@ == y@,
        (None, None) => true,
        _ => false,
    })
    &&& a.run_time@ == b.run_time@
    &&& a.swanling_log@ == b.swanling_log@
    &&& a.log_level == b.log_level
    &&& a.verbose == b.verbose
    &&& a.running_metrics == b.running_metrics
    &&& a.no_reset_metrics == b.no_reset_metrics
    &&& a.no_metrics == b.no_metrics
    &&& a.no_task_metrics == b.no_task_metrics
    &&& a.no_error_summary == b.no_error_summary
    &&& a.report_file@ == b.report_file@
    &&& a.request_log@ == b.request_log@
    &&& a.request_format == b.request_format
    &&& a.task_log@ == b.task_log@
    &&& a.task_format == b.task_format
    &&& a.error_log@ == b.error_log@
    &&& a.error_format == b.error_format
    &&& a.debug_log@ == b.debug_log@
    &&& a.debug_format == b.debug_format
    &&& a.no_debug_body == b.no_debug_body
    &&& a.status_codes == b.status_codes
    &&& a.no_telnet == b.no_telnet
    &&& a.telnet_host@ == b.telnet_host@
    &&& a.telnet_port == b.telnet_port
    &&& a.no_websocket == b.no_websocket
    &&& a.websocket_host@ == b.websocket_host@
    &&& a.websocket_port == b.websocket_port
    &&& a.no_autostart == b.no_autostart
    &&& a.co_mitigation == b.co_mitigation
    &&& a.throttle_requests == b.throttle_requests
    &&& a.sticky_follow == b.sticky_follow
    &&& a.manager == b.manager
    &&& a.expect_workers == b.expect_workers
    &&& a.no_hash_check == b.no_hash_check
    &&& a.manager_bind_host@ == b.manager_bind_host@
    &&& a.manager_bind_port == b.manager_bind_port
    &&& a.worker == b.worker
    &&& a.manager_host@ == b.manager_host@
    &&& a.manager_port == b.manager_port
}

/// Appends one quarter of the snapshot's fields.
#[verifier::rlimit(100)]
fn push_config_fields_a(out: &mut Vec<(Vec<char>, JsonScalar)>, c: &SwanlingConfiguration)
    ensures
        fields_view(final(out)@) == fields_view(old(out)@) + spec_config_fields_a(*c),
{
    out.push((util::str_to_chars("help"), JsonScalar::Bool(c.help)));
    out.push((util::str_to_chars("version"), JsonScalar::Bool(c.version)));
    out.push((util::str_to_chars("list"), JsonScalar::Bool(c.list)));
    out.push((util::str_to_chars("host"), JsonScalar::Text(util::str_to_chars(c.host.as_str()))));
    out.push((util::str_to_chars("users"), match c.users { Some(v) => JsonScalar::UInt(v as u64), None => JsonScalar::Null }));
    out.push((util::str_to_chars("hatch_rate"), match &c.hatch_rate { Some(v) => JsonScalar::Text(util::str_to_chars(v.as_str())), None => JsonScalar::Null }));
    out.push((util::str_to_chars("run_time"), JsonScalar::Text(util::str_to_chars(c.run_time.as_str()))));
    out.push((util::str_to_chars("swanling_log"), JsonScalar::Text(util::str_to_chars(c.swanling_log.as_str()))));
    out.push((util::str_to_chars("log_level"), JsonScalar::UInt(c.log_level as u64)));
    out.push((util::str_to_chars("verbose"), JsonScalar::UInt(c.verbose as u64)));
    out.push((util::str_to_chars("running_metrics"), match c.running_metrics { Some(v) => JsonScalar::UInt(v as u64), None => JsonScalar::Null }));
    proof {
        assert(fields_view(out@) =~= fields_view(old(out)@) + spec_config_fields_a(*c));
    }
}

/// Appends one quarter of the snapshot's fields.
#[verifier::rlimit(100)]
fn push_config_fields_b(out: &mut Vec<(Vec<char>, JsonScalar)>, c: &SwanlingConfiguration)
    ensures
        fields_view(final(out)@) == fields_view(old(out)@) + spec_config_fields_b(*c),
{
    out.push((util::str_to_chars("no_reset_metrics"), JsonScalar::Bool(c.no_reset_metrics)));
    out.push((util::str_to_chars("no_metrics"), JsonScalar::Bool(c.no_metrics)));
    out.push((util::str_to_chars("no_task_metrics"), JsonScalar::Bool(c.no_task_metrics)));
    out.push((util::str_to_chars("no_error_summary"), JsonScalar::Bool(c.no_error_summary)));
    out.push((util::str_to_chars("report_file"), JsonScalar::Text(util::str_to_chars(c.report_file.as_str()))));
    out.push((util::str_to_chars("request_log"), JsonScalar::Text(util::str_to_chars(c.request_log.as_str()))));
    out.push((util::str_to_chars("request_format"), match c.request_format { Some(v) => JsonScalar::Text(log_format_name(v)), None => JsonScalar::Null }));
    out.push((util::str_to_chars("task_log"), JsonScalar::Text(util::str_to_chars(c.task_log.as_str()))));
    out.push((util::str_to_chars("task_format"), match c.task_format { Some(v) => JsonScalar::Text(log_format_name(v)), None => JsonScalar::Null }));
    out.push((util::str_to_chars("error_log"), JsonScalar::Text(util::str_to_chars(c.error_log.as_str()))));
    out.push((util::str_to_chars("error_format"), match c.error_format { Some(v) => JsonScalar::Text(log_format_name(v)), None => JsonScalar::Null }));
    proof {
        assert(fields_view(out@) =~= fields_view(old(out)@) + spec_config_fields_b(*c));
    }
}

/// Appends one quarter of the snapshot's fields.
#[verifier::rlimit(100)]
fn push_config_fields_c(out: &mut Vec<(Vec<char>, JsonScalar)>, c: &SwanlingConfiguration)
    ensures
        fields_view(final(out)@) == fields_view(old(out)@) + spec_config_fields_c(*c),
{
    out.push((util::str_to_chars("debug_log"), JsonScalar::Text(util::str_to_chars(c.debug_log.as_str()))));
    out.push((util::str_to_chars("debug_format"), match c.debug_format { Some(v) => JsonScalar::Text(log_format_name(v)), None => JsonScalar::Null }));
    out.push((util::str_to_chars("no_debug_body"), JsonScalar::Bool(c.no_debug_body)));
    out.push((util::str_to_chars("status_codes"), JsonScalar::Bool(c.status_codes)));
    out.push((util::str_to_chars("no_telnet"), JsonScalar::Bool(c.no_telnet)));
    out.push((util::str_to_chars("telnet_host"), JsonScalar::Text(util::str_to_chars(c.telnet_host.as_str()))));
    out.push((util::str_to_chars("telnet_port"), JsonScalar::UInt(c.telnet_port as u64)));
    out.push((util::str_to_chars("no_websocket"), JsonScalar::Bool(c.no_websocket)));
    out.push((util::str_to_chars("websocket_host"), JsonScalar::Text(util::str_to_chars(c.websocket_host.as_str()))));
    out.push((util::str_to_chars("websocket_port"), JsonScalar::UInt(c.websocket_port as u64)));
    out.push((util::str_to_chars("no_autostart"), JsonScalar::Bool(c.no_autostart)));
    proof {
        assert(fields_view(out@) =~= fields_view(old(out)@) + spec_config_fields_c(*c));
    }
}

/// Appends one quarter of the snapshot's fields.
#[verifier::rlimit(100)]
fn push_config_fields_d(out: &mut Vec<(Vec<char>, JsonScalar)>, c: &SwanlingConfiguration)
    ensures
        fields_view(final(out)@) == fields_view(old(out)@) + spec_config_fields_d(*c),
{
    out.push((util::str_to_chars("co_mitigation"), match c.co_mitigation { Some(v) => JsonScalar::Text(co_name(v)), None => JsonScalar::Null }));
    out.push((util::str_to_chars("throttle_requests"), JsonScalar::UInt(c.throttle_requests as u64)));
    out.push((util::str_to_chars("sticky_follow"), JsonScalar::Bool(c.sticky_follow)));
    out.push((util::str_to_chars("manager"), JsonScalar::Bool(c.manager)));
    out.push((util::str_to_chars("expect_workers"), match c.expect_workers { Some(v) => JsonScalar::UInt(v as u64), None => JsonScalar::Null }));
    out.push((util::str_to_chars("no_hash_check"), JsonScalar::Bool(c.no_hash_check)));
    out.push((util::str_to_chars("manager_bind_host"), JsonScalar::Text(util::str_to_chars(c.manager_bind_host.as_str()))));
    out.push((util::str_to_chars("manager_bind_port"), JsonScalar::UInt(c.manager_bind_port as u64)));
    out.push((util::str_to_chars("worker"), JsonScalar::Bool(c.worker)));
    out.push((util::str_to_chars("manager_host"), JsonScalar::Text(util::str_to_chars(c.manager_host.as_str()))));
    out.push((util::str_to_chars("manager_port"), JsonScalar::UInt(c.manager_port as u64)));
    proof {
        assert(fields_view(out@) =~= fields_view(old(out)@) + spec_config_fields_d(*c));
    }
}

/// Builds the configuration snapshot's fields.
pub fn config_fields(c: &SwanlingConfiguration) -> (out: Vec<(Vec<char>, JsonScalar)>)
    ensures
        fields_view(out@) == spec_config_fields(*c),
{
    let mut out: Vec<(Vec<char>, JsonScalar)> = Vec::new();
    push_config_fields_a(&mut out, c);
    push_config_fields_b(&mut out, c);
    push_config_fields_c(&mut out, c);
    push_config_fields_d(&mut out, c);
    proof {
        assert(fields_view(Seq::<(Vec<char>, JsonScalar)>::empty()) =~= Seq::<(
            Seq<char>,
            JsonScalarView,
        )>::empty());
        assert(fields_view(out@) =~= spec_config_fields(*c));
    }
    out
}

/// Encodes the configuration snapshot as canonical JSON.
pub fn encode_config(c: &SwanlingConfiguration) -> (out: Vec<char>)
    ensures
        out@ == enc_object(spec_config_fields(*c)),
{
    let fields = config_fields(c);
    encode_object(&fields)
}

/// One slice of a decoded configuration.
struct ConfigPartP0 {
    help: bool,
    version: bool,
}

/// Whether one slice matches a configuration's values.
spec fn config_p0_eq(p: ConfigPartP0, c0: SwanlingConfiguration) -> bool {
    &&& p.help == c0.help
    &&& p.version == c0.version
}

/// Decodes one slice of the snapshot's fields.
#[verifier::rlimit(100)]
#[verifier::spinoff_prover]
fn config_p0(fs: &Vec<(Vec<char>, JsonScalar)>) -> (r: Option<ConfigPartP0>)
    requires
        fs@.len() == 44,
    ensures
        forall|c0: SwanlingConfiguration|
            fields_view(fs@) == spec_config_fields(c0) ==> (match r {
                Some(p) => config_p0_eq(p, c0),
                None => false,
            }),
{
    if !crate::logger::chars_match(&fs[0].0, "help") {
            proof {
                assert forall|c0: SwanlingConfiguration|
                    fields_view(fs@) == spec_config_fields(c0) implies false by {
                    assert(fields_view(fs@)[0] == spec_config_fields(c0)[0]);
                }
            }
        return None;
    }
    let f_help: bool = match &fs[0].1 {
        JsonScalar::Bool(v) => *v,
        _ => {
            proof {
                assert forall|c0: SwanlingConfiguration|
                    fields_view(fs@) == spec_config_fields(c0) implies false by {
                    assert(fields_view(fs@)[0] == spec_config_fields(c0)[0]);
                }
            }
            return None;
        },
    };
    if !crate::logger::chars_match(&fs[1].0, "version") {
            proof {
                assert forall|c0: SwanlingConfiguration|
                    fields_view(fs@) == spec_config_fields(c0) implies false by {
                    assert(fields_view(fs@)[1] == spec_config_fields(c0)[1]);
                }
            }
        return None;
    }
    let f_version: bool = match &fs[1].1 {
        JsonScalar::Bool(v) => *v,
        _ => {
            proof {
                assert forall|c0: SwanlingConfiguration|
                    fields_view(fs@) == spec_config_fields(c0) implies false by {
                    assert(fields_view(fs@)[1] == spec_config_fields(c0)[1]);
                }
            }
            return None;
        },
    };

    let p = ConfigPartP0 {
        help: f_help,
        version: f_version,
    };
    proof {
        reveal_strlit("csv");
        reveal_strlit("json");
        reveal_strlit("raw");
        reveal_strlit("average");
        reveal_strlit("disabled");
        reveal_strlit("maximum");
        reveal_strlit("minimum");
        assert("csv"@.len() == 3 && "json"@.len() == 4 && "raw"@.len() == 3);
        assert("csv"@[0] == 'c' && "raw"@[0] == 'r');
        assert("average"@.len() == 7 && "disabled"@.len() == 8 && "maximum"@.len() == 7
            && "minimum"@.len() == 7);
        assert("average"@[0] == 'a' && "maximum"@[0] == 'm' && "minimum"@[0] == 'm');
        assert("maximum"@[1] == 'a' && "minimum"@[1] == 'i');
        assert forall|c0: SwanlingConfiguration|
            fields_view(fs@) == spec_config_fields(c0) implies config_p0_eq(p, c0) by {
            assert(fields_view(fs@)[0] == spec_config_fields(c0)[0]);
            assert(fields_view(fs@)[1] == spec_config_fields(c0)[1]);
        }
    }
    Some(p)
}

/// One slice of a decoded configuration.
struct ConfigPartP1 {
    list: bool,
    host: String,
}

/// Whether one slice matches a configuration's values.
spec fn config_p1_eq(p: ConfigPartP1, c0: SwanlingConfiguration) -> bool {
    &&& p.list == c0.list
    &&& p.host@ == c0.host@
}

/// Decodes one slice of the snapshot's fields.
#[verifier::rlimit(100)]
#[verifier::spinoff_prover]
fn config_p1(fs: &Vec<(Vec<char>, JsonScalar)>) -> (r: Option<ConfigPartP1>)
    requires
        fs@.len() == 44,
    ensures
        forall|c0: SwanlingConfiguration|
            fields_view(fs@) == spec_config_fields(c0) ==> (match r {
                Some(p) => config_p1_eq(p, c0),
                None => false,
            }),
{
    if !crate::logger::chars_match(&fs[2].0, "list") {
            proof {
                assert forall|c0: SwanlingConfiguration|
                    fields_view(fs@) == spec_config_fields(c0) implies false by {
                    assert(fields_view(fs@)[2] == spec_config_fields(c0)[2]);
                }
            }
        return None;
    }
    let f_list: bool = match &fs[2].1 {
        JsonScalar::Bool(v) => *v,
        _ => {
            proof {
                assert forall|c0: SwanlingConfiguration|
                    fields_view(fs@) == spec_config_fields(c0) implies false by {
                    assert(fields_view(fs@)[2] == spec_config_fields(c0)[2]);
                }
            }
            return None;
        },
    };
    if !crate::logger::chars_match(&fs[3].0, "host") {
            proof {
                assert forall|c0: SwanlingConfiguration|
                    fields_view(fs@) == spec_config_fields(c0) implies false by {
                    assert(fields_view(fs@)[3] == spec_config_fields(c0)[3]);
                }
            }
        return None;
    }
    let f_host: String = match &fs[3].1 {
        JsonScalar::Text(v) => util::chars_to_string(v),
        _ => {
            proof {
                assert forall|c0: SwanlingConfiguration|
                    fields_view(fs@) == spec_config_fields(c0) implies false by {
                    assert(fields_view(fs@)[3] == spec_config_fields(c0)[3]);
                }
            }
            return None;
        },
    };

    let p = ConfigPartP1 {
        list: f_list,
        host: f_host,
    };
    proof {
        reveal_strlit("csv");
        reveal_strlit("json");
        reveal_strlit("raw");
        reveal_strlit("average");
        reveal_strlit("disabled");
        reveal_strlit("maximum");
        reveal_strlit("minimum");
        assert("csv"@.len() == 3 && "json"@.len() == 4 && "raw"@.len() == 3);
        assert("csv"@[0] == 'c' && "raw"@[0] == 'r');
        assert("average"@.len() == 7 && "disabled"@.len() == 8 && "maximum"@.len() == 7
            && "minimum"@.len() == 7);
        assert("average"@[0] == 'a' && "maximum"@[0] == 'm' && "minimum"@[0] == 'm');
        assert("maximum"@[1] == 'a' && "minimum"@[1] == 'i');
        assert forall|c0: SwanlingConfiguration|
            fields_view(fs@) == spec_config_fields(c0) implies config_p1_eq(p, c0) by {
            assert(fields_view(fs@)[2] == spec_config_fields(c0)[2]);
            assert(fields_view(fs@)[3] == spec_config_fields(c0)[3]);
        }
    }
    Some(p)
}

/// One slice of a decoded configuration.
struct ConfigPartP2 {
    users: Option<usize>,
    hatch_rate: Option<String>,
}

/// Whether one slice matches a configuration's values.
spec fn config_p2_eq(p: ConfigPartP2, c0: SwanlingConfiguration) -> bool {
    &&& p.users == c0.users
    &&& (match (p.hatch_rate, c0.hatch_rate) {
        (Some(x), Some(y)) => x@ == y@,
        (None, None) => true,
        _ => false,
    })
}

/// Decodes one slice of the snapshot's fields.
#[verifier::rlimit(100)]
#[verifier::spinoff_prover]
fn config_p2(fs: &Vec<(Vec<char>, JsonScalar)>) -> (r: Option<ConfigPartP2>)
    requires
        fs@.len() == 44,
    ensures
        forall|c0: SwanlingConfiguration|
            fields_view(fs@) == spec_config_fields(c0) ==> (match r {
                Some(p) => config_p2_eq(p, c0),
                None => false,
            }),
{
    if !crate::logger::chars_match(&fs[4].0, "users") {
            proof {
                assert forall|c0: SwanlingConfiguration|
                    fields_view(fs@) == spec_config_fields(c0) implies false by {
                    assert(fields_view(fs@)[4] == spec_config_fields(c0)[4]);
                }
            }
        return None;
    }
    let f_users: Option<usize> = match &fs[4].1 {
        JsonScalar::Null => None,
        JsonScalar::UInt(v) => if *v <= usize::MAX as u64 {
            Some(*v as usize)
        } else {
            proof {
                assert forall|c0: SwanlingConfiguration|
                    fields_view(fs@) == spec_config_fields(c0) implies false by {
                    assert(fields_view(fs@)[4] == spec_config_fields(c0)[4]);
                }
            }
            return None;
        },
        _ => {
            proof {
                assert forall|c0: SwanlingConfiguration|
                    fields_view(fs@) == spec_config_fields(c0) implies false by {
                    assert(fields_view(fs@)[4] == spec_config_fields(c0)[4]);
                }
            }
            return None;
        },
    };
    if !crate::logger::chars_match(&fs[5].0, "hatch_rate") {
            proof {
                assert forall|c0: SwanlingConfiguration|
                    fields_view(fs@) == spec_config_fields(c0) implies false by {
                    assert(fields_view(fs@)[5] == spec_config_fields(c0)[5]);
                }
            }
        return None;
    }
    let f_hatch_rate: Option<String> = match &fs[5].1 {
        JsonScalar::Null => None,
        JsonScalar::Text(v) => Some(util::chars_to_string(v)),
        _ => {
            proof {
                assert forall|c0: SwanlingConfiguration|
                    fields_view(fs@) == spec_config_fields(c0) implies false by {
                    assert(fields_view(fs@)[5] == spec_config_fields(c0)[5]);
                }
            }
            return None;
        },
    };

    let p = ConfigPartP2 {
        users: f_users,
        hatch_rate: f_hatch_rate,
    };
    proof {
        reveal_strlit("csv");
        reveal_strlit("json");
        reveal_strlit("raw");
        reveal_strlit("average");
        reveal_strlit("disabled");
        reveal_strlit("maximum");
        reveal_strlit("minimum");
        assert("csv"@.len() == 3 && "json"@.len() == 4 && "raw"@.len() == 3);
        assert("csv"@[0] == 'c' && "raw"@[0] == 'r');
        assert("average"@.len() == 7 && "disabled"@.len() == 8 && "maximum"@.len() == 7
            && "minimum"@.len() == 7);
        assert("average"@[0] == 'a' && "maximum"@[0] == 'm' && "minimum"@[0] == 'm');
        assert("maximum"@[1] == 'a' && "minimum"@[1] == 'i');
        assert forall|c0: SwanlingConfiguration|
            fields_view(fs@) == spec_config_fields(c0) implies config_p2_eq(p, c0) by {
            assert(fields_view(fs@)[4] == spec_config_fields(c0)[4]);
            assert(fields_view(fs@)[5] == spec_config_fields(c0)[5]);
        }
    }
    Some(p)
}

/// One slice of a decoded configuration.
struct ConfigPartP3 {
    run_time: String,
    swanling_log: String,
}

/// Whether one slice matches a configuration's values.
spec fn config_p3_eq(p: ConfigPartP3, c0: SwanlingConfiguration) -> bool {
    &&& p.run_time@ == c0.run_time@
    &&& p.swanling_log@ == c0.swanling_log@
}

/// Decodes one slice of the snapshot's fields.
#[verifier::rlimit(100)]
#[verifier::spinoff_prover]
fn config_p3(fs: &Vec<(Vec<char>, JsonScalar)>) -> (r: Option<ConfigPartP3>)
    requires
        fs@.len() == 44,
    ensures
        forall|c0: SwanlingConfiguration|
            fields_view(fs@) == spec_config_fields(c0) ==> (match r {
                Some(p) => config_p3_eq(p, c0),
                None => false,
            }),
{
    if !crate::logger::chars_match(&fs[6].0, "run_time") {
            proof {
                assert forall|c0: SwanlingConfiguration|
                    fields_view(fs@) == spec_config_fields(c0) implies false by {
                    assert(fields_view(fs@)[6] == spec_config_fields(c0)[6]);
                }
            }
        return None;
    }
    let f_run_time: String = match &fs[6].1 {
        JsonScalar::Text(v) => util::chars_to_string(v),
        _ => {
            proof {
                assert forall|c0: SwanlingConfiguration|
                    fields_view(fs@) == spec_config_fields(c0) implies false by {
                    assert(fields_view(fs@)[6] == spec_config_fields(c0)[6]);
                }
            }
            return None;
        },
    };
    if !crate::logger::chars_match(&fs[7].0, "swanling_log") {
            proof {
                assert forall|c0: SwanlingConfiguration|
                    fields_view(fs@) == spec_config_fields(c0) implies false by {
                    assert(fields_view(fs@)[7] == spec_config_fields(c0)[7]);
                }
            }
        return None;
    }
    let f_swanling_log: String = match &fs[7].1 {
        JsonScalar::Text(v) => util::chars_to_string(v),
        _ => {
            proof {
                assert forall|c0: SwanlingConfiguration|
                    fields_view(fs@) == spec_config_fields(c0) implies false by {
                    assert(fields_view(fs@)[7] == spec_config_fields(c0)[7]);
                }
            }
            return None;
        },
    };

    let p = ConfigPartP3 {
        run_time: f_run_time,
        swanling_log: f_swanling_log,
    };
    proof {
        reveal_strlit("csv");
        reveal_strlit("json");
        reveal_strlit("raw");
        reveal_strlit("average");
        reveal_strlit("disabled");
        reveal_strlit("maximum");
        reveal_strlit("minimum");
        assert("csv"@.len() == 3 && "json"@.len() == 4 && "raw"@.len() == 3);
        assert("csv"@[0] == 'c' && "raw"@[0] == 'r');
        assert("average"@.len() == 7 && "disabled"@.len() == 8 && "maximum"@.len() == 7
            && "minimum"@.len() == 7);
        assert("average"@[0] == 'a' && "maximum"@[0] == 'm' && "minimum"@[0] == 'm');
        assert("maximum"@[1] == 'a' && "minimum"@[1] == 'i');
        assert forall|c0: SwanlingConfiguration|
            fields_view(fs@) == spec_config_fields(c0) implies config_p3_eq(p, c0) by {
            assert(fields_view(fs@)[6] == spec_config_fields(c0)[6]);
            assert(fields_view(fs@)[7] == spec_config_fields(c0)[7]);
        }
    }
    Some(p)
}

/// One slice of a decoded configuration.
struct ConfigPartP4 {
    log_level: u8,
    verbose: u8,
}

/// Whether one slice matches a configuration's values.
spec fn config_p4_eq(p: ConfigPartP4, c0: SwanlingConfiguration) -> bool {
    &&& p.log_level == c0.log_level
    &&& p.verbose == c0.verbose
}

/// Decodes one slice of the snapshot's fields.
#[verifier::rlimit(100)]
#[verifier::spinoff_prover]
fn config_p4(fs: &Vec<(Vec<char>, JsonScalar)>) -> (r: Option<ConfigPartP4>)
    requires
        fs@.len() == 44,
    ensures
        forall|c0: SwanlingConfiguration|
            fields_view(fs@) == spec_config_fields(c0) ==> (match r {
                Some(p) => config_p4_eq(p, c0),
                None => false,
            }),
{
    if !crate::logger::chars_match(&fs[8].0, "log_level") {
            proof {
                assert forall|c0: SwanlingConfiguration|
                    fields_view(fs@) == spec_config_fields(c0) implies false by {
                    assert(fields_view(fs@)[8] == spec_config_fields(c0)[8]);
                }
            }
        return None;
    }
    let f_log_level: u8 = match &fs[8].1 {
        JsonScalar::UInt(v) => if *v <= u8::MAX as u64 {
            *v as u8
        } else {
            proof {
                assert forall|c0: SwanlingConfiguration|
                    fields_view(fs@) == spec_config_fields(c0) implies false by {
                    assert(fields_view(fs@)[8] == spec_config_fields(c0)[8]);
                }
            }
            return None;
        },
        _ => {
            proof {
                assert forall|c0: SwanlingConfiguration|
                    fields_view(fs@) == spec_config_fields(c0) implies false by {
                    assert(fields_view(fs@)[8] == spec_config_fields(c0)[8]);
                }
            }
            return None;
        },
    };
    if !crate::logger::chars_match(&fs[9].0, "verbose") {
            proof {
                assert forall|c0: SwanlingConfiguration|
                    fields_view(fs@) == spec_config_fields(c0) implies false by {
                    assert(fields_view(fs@)[9] == spec_config_fields(c0)[9]);
                }
            }
        return None;
    }
    let f_verbose: u8 = match &fs[9].1 {
        JsonScalar::UInt(v) => if *v <= u8::MAX as u64 {
            *v as u8
        } else {
            proof {
                assert forall|c0: SwanlingConfiguration|
                    fields_view(fs@) == spec_config_fields(c0) implies false by {
                    assert(fields_view(fs@)[9] == spec_config_fields(c0)[9]);
                }
            }
            return None;
        },
        _ => {
            proof {
                assert forall|c0: SwanlingConfiguration|
                    fields_view(fs@) == spec_config_fields(c0) implies false by {
                    assert(fields_view(fs@)[9] == spec_config_fields(c0)[9]);
                }
            }
            return None;
        },
    };

    let p = ConfigPartP4 {
        log_level: f_log_level,
        verbose: f_verbose,
    };
    proof {
        reveal_strlit("csv");
        reveal_strlit("json");
        reveal_strlit("raw");
        reveal_strlit("average");
        reveal_strlit("disabled");
        reveal_strlit("maximum");
        reveal_strlit("minimum");
        assert("csv"@.len() == 3 && "json"@.len() == 4 && "raw"@.len() == 3);
        assert("csv"@[0] == 'c' && "raw"@[0] == 'r');
        assert("average"@.len() == 7 && "disabled"@.len() == 8 && "maximum"@.len() == 7
            && "minimum"@.len() == 7);
        assert("average"@[0] == 'a' && "maximum"@[0] == 'm' && "minimum"@[0] == 'm');
        assert("maximum"@[1] == 'a' && "minimum"@[1] == 'i');
        assert forall|c0: SwanlingConfiguration|
            fields_view(fs@) == spec_config_fields(c0) implies config_p4_eq(p, c0) by {
            assert(fields_view(fs@)[8] == spec_config_fields(c0)[8]);
            assert(fields_view(fs@)[9] == spec_config_fields(c0)[9]);
        }
    }
    Some(p)
}

/// One slice of a decoded configuration.
struct ConfigPartP5 {
    running_metrics: Option<usize>,
    no_reset_metrics: bool,
}

/// Whether one slice matches a configuration's values.
spec fn config_p5_eq(p: ConfigPartP5, c0: SwanlingConfiguration) -> bool {
    &&& p.running_metrics == c0.running_metrics
    &&& p.no_reset_metrics == c0.no_reset_metrics
}

/// Decodes one slice of the snapshot's fields.
#[verifier::rlimit(100)]
#[verifier::spinoff_prover]
fn config_p5(fs: &Vec<(Vec<char>, JsonScalar)>) -> (r: Option<ConfigPartP5>)
    requires
        fs@.len() == 44,
    ensures
        forall|c0: SwanlingConfiguration|
            fields_view(fs@) == spec_config_fields(c0) ==> (match r {
                Some(p) => config_p5_eq(p, c0),
                None => false,
            }),
{
    if !crate::logger::chars_match(&fs[10].0, "running_metrics") {
            proof {
                assert forall|c0: SwanlingConfiguration|
                    fields_view(fs@) == spec_config_fields(c0) implies false by {
                    assert(fields_view(fs@)[10] == spec_config_fields(c0)[10]);
                }
            }
        return None;
    }
    let f_running_metrics: Option<usize> = match &fs[10].1 {
        JsonScalar::Null => None,
        JsonScalar::UInt(v) => if *v <= usize::MAX as u64 {
            Some(*v as usize)
        } else {
            proof {
                assert forall|c0: SwanlingConfiguration|
                    fields_view(fs@) == spec_config_fields(c0) implies false by {
                    assert(fields_view(fs@)[10] == spec_config_fields(c0)[10]);
                }
            }
            return None;
        },
        _ => {
            proof {
                assert forall|c0: SwanlingConfiguration|
                    fields_view(fs@) == spec_config_fields(c0) implies false by {
                    assert(fields_view(fs@)[10] == spec_config_fields(c0)[10]);
                }
            }
            return None;
        },
    };
    if !crate::logger::chars_match(&fs[11].0, "no_reset_metrics") {
            proof {
                assert forall|c0: SwanlingConfiguration|
                    fields_view(fs@) == spec_config_fields(c0) implies false by {
                    assert(fields_view(fs@)[11] == spec_config_fields(c0)[11]);
                }
            }
        return None;
    }
    let f_no_reset_metrics: bool = match &fs[11].1 {
        JsonScalar::Bool(v) => *v,
        _ => {
            proof {
                assert forall|c0: SwanlingConfiguration|
                    fields_view(fs@) == spec_config_fields(c0) implies false by {
                    assert(fields_view(fs@)[11] == spec_config_fields(c0)[11]);
                }
            }
            return None;
        },
    };

    let p = ConfigPartP5 {
        running_metrics: f_running_metrics,
        no_reset_metrics: f_no_reset_metrics,
    };
    proof {
        reveal_strlit("csv");
        reveal_strlit("json");
        reveal_strlit("raw");
        reveal_strlit("average");
        reveal_strlit("disabled");
        reveal_strlit("maximum");
        reveal_strlit("minimum");
        assert("csv"@.len() == 3 && "json"@.len() == 4 && "raw"@.len() == 3);
        assert("csv"@[0] == 'c' && "raw"@[0] == 'r');
        assert("average"@.len() == 7 && "disabled"@.len() == 8 && "maximum"@.len() == 7
            && "minimum"@.len() == 7);
        assert("average"@[0] == 'a' && "maximum"@[0] == 'm' && "minimum"@[0] == 'm');
        assert("maximum"@[1] == 'a' && "minimum"@[1] == 'i');
        assert forall|c0: SwanlingConfiguration|
            fields_view(fs@) == spec_config_fields(c0) implies config_p5_eq(p, c0) by {
            assert(fields_view(fs@)[10] == spec_config_fields(c0)[10]);
            assert(fields_view(fs@)[11] == spec_config_fields(c0)[11]);
        }
    }
    Some(p)
}

/// One slice of a decoded configuration.
struct ConfigPartP6 {
    no_metrics: bool,
    no_task_metrics: bool,
}

/// Whether one slice matches a configuration's values.
spec fn config_p6_eq(p: ConfigPartP6, c0: SwanlingConfiguration) -> bool {
    &&& p.no_metrics == c0.no_metrics
    &&& p.no_task_metrics == c0.no_task_metrics
}

/// Decodes one slice of the snapshot's fields.
#[verifier::rlimit(100)]
#[verifier::spinoff_prover]
fn config_p6(fs: &Vec<(Vec<char>, JsonScalar)>) -> (r: Option<ConfigPartP6>)
    requires
        fs@.len() == 44,
    ensures
        forall|c0: SwanlingConfiguration|
            fields_view(fs@) == spec_config_fields(c0) ==> (match r {
                Some(p) => config_p6_eq(p, c0),
                None => false,
            }),
{
    if !crate::logger::chars_match(&fs[12].0, "no_metrics") {
            proof {
                assert forall|c0: SwanlingConfiguration|
                    fields_view(fs@) == spec_config_fields(c0) implies false by {
                    assert(fields_view(fs@)[12] == spec_config_fields(c0)[12]);
                }
            }
        return None;
    }
    let f_no_metrics: bool = match &fs[12].1 {
        JsonScalar::Bool(v) => *v,
        _ => {
            proof {
                assert forall|c0: SwanlingConfiguration|
                    fields_view(fs@) == spec_config_fields(c0) implies false by {
                    assert(fields_view(fs@)[12] == spec_config_fields(c0)[12]);
                }
            }
            return None;
        },
    };
    if !crate::logger::chars_match(&fs[13].0, "no_task_metrics") {
            proof {
                assert forall|c0: SwanlingConfiguration|
                    fields_view(fs@) == spec_config_fields(c0) implies false by {
                    assert(fields_view(fs@)[13] == spec_config_fields(c0)[13]);
                }
            }
        return None;
    }
    let f_no_task_metrics: bool = match &fs[13].1 {
        JsonScalar::Bool(v) => *v,
        _ => {
            proof {
                assert forall|c0: SwanlingConfiguration|
                    fields_view(fs@) == spec_config_fields(c0) implies false by {
                    assert(fields_view(fs@)[13] == spec_config_fields(c0)[13]);
                }
            }
            return None;
        },
    };

    let p = ConfigPartP6 {
        no_metrics: f_no_metrics,
        no_task_metrics: f_no_task_metrics,
    };
    proof {
        reveal_strlit("csv");
        reveal_strlit("json");
        reveal_strlit("raw");
        reveal_strlit("average");
        reveal_strlit("disabled");
        reveal_strlit("maximum");
        reveal_strlit("minimum");
        assert("csv"@.len() == 3 && "json"@.len() == 4 && "raw"@.len() == 3);
        assert("csv"@[0] == 'c' && "raw"@[0] == 'r');
        assert("average"@.len() == 7 && "disabled"@.len() == 8 && "maximum"@.len() == 7
            && "minimum"@.len() == 7);
        assert("average"@[0] == 'a' && "maximum"@[0] == 'm' && "minimum"@[0] == 'm');
        assert("maximum"@[1] == 'a' && "minimum"@[1] == 'i');
        assert forall|c0: SwanlingConfiguration|
            fields_view(fs@) == spec_config_fields(c0) implies config_p6_eq(p, c0) by {
            assert(fields_view(fs@)[12] == spec_config_fields(c0)[12]);
            assert(fields_view(fs@)[13] == spec_config_fields(c0)[13]);
        }
    }
    Some(p)
}

/// One slice of a decoded configuration.
struct ConfigPartP7 {
    no_error_summary: bool,
    report_file: String,
}

/// Whether one slice matches a configuration's values.
spec fn config_p7_eq(p: ConfigPartP7, c0: SwanlingConfiguration) -> bool {
    &&& p.no_error_summary == c0.no_error_summary
    &&& p.report_file@ == c0.report_file@
}

/// Decodes one slice of the snapshot's fields.
#[verifier::rlimit(100)]
#[verifier::spinoff_prover]
fn config_p7(fs: &Vec<(Vec<char>, JsonScalar)>) -> (r: Option<ConfigPartP7>)
    requires
        fs@.len() == 44,
    ensures
        forall|c0: SwanlingConfiguration|
            fields_view(fs@) == spec_config_fields(c0) ==> (match r {
                Some(p) => config_p7_eq(p, c0),
                None => false,
            }),
{
    if !crate::logger::chars_match(&fs[14].0, "no_error_summary") {
            proof {
                assert forall|c0: SwanlingConfiguration|
                    fields_view(fs@) == spec_config_fields(c0) implies false by {
                    assert(fields_view(fs@)[14] == spec_config_fields(c0)[14]);
                }
            }
        return None;
    }
    let f_no_error_summary: bool = match &fs[14].1 {
        JsonScalar::Bool(v) => *v,
        _ => {
            proof {
                assert forall|c0: SwanlingConfiguration|
                    fields_view(fs@) == spec_config_fields(c0) implies false by {
                    assert(fields_view(fs@)[14] == spec_config_fields(c0)[14]);
                }
            }
            return None;
        },
    };
    if !crate::logger::chars_match(&fs[15].0, "report_file") {
            proof {
                assert forall|c0: SwanlingConfiguration|
                    fields_view(fs@) == spec_config_fields(c0) implies false by {
                    assert(fields_view(fs@)[15] == spec_config_fields(c0)[15]);
                }
            }
        return None;
    }
    let f_report_file: String = match &fs[15].1 {
        JsonScalar::Text(v) => util::chars_to_string(v),
        _ => {
            proof {
                assert forall|c0: SwanlingConfiguration|
                    fields_view(fs@) == spec_config_fields(c0) implies false by {
                    assert(fields_view(fs@)[15] == spec_config_fields(c0)[15]);
                }
            }
            return None;
        },
    };

    let p = ConfigPartP7 {
        no_error_summary: f_no_error_summary,
        report_file: f_report_file,
    };
    proof {
        reveal_strlit("csv");
        reveal_strlit("json");
        reveal_strlit("raw");
        reveal_strlit("average");
        reveal_strlit("disabled");
        reveal_strlit("maximum");
        reveal_strlit("minimum");
        assert("csv"@.len() == 3 && "json"@.len() == 4 && "raw"@.len() == 3);
        assert("csv"@[0] == 'c' && "raw"@[0] == 'r');
        assert("average"@.len() == 7 && "disabled"@.len() == 8 && "maximum"@.len() == 7
            && "minimum"@.len() == 7);
        assert("average"@[0] == 'a' && "maximum"@[0] == 'm' && "minimum"@[0] == 'm');
        assert("maximum"@[1] == 'a' && "minimum"@[1] == 'i');
        assert forall|c0: SwanlingConfiguration|
            fields_view(fs@) == spec_config_fields(c0) implies config_p7_eq(p, c0) by {
            assert(fields_view(fs@)[14] == spec_config_fields(c0)[14]);
            assert(fields_view(fs@)[15] == spec_config_fields(c0)[15]);
        }
    }
    Some(p)
}

/// One slice of a decoded configuration.
struct ConfigPartP8 {
    request_log: String,
    request_format: Option<SwanlingLogFormat>,
}

/// Whether one slice matches a configuration's values.
spec fn config_p8_eq(p: ConfigPartP8, c0: SwanlingConfiguration) -> bool {
    &&& p.request_log@ == c0.request_log@
    &&& p.request_format == c0.request_format
}

/// Decodes one slice of the snapshot's fields.
#[verifier::rlimit(100)]
#[verifier::spinoff_prover]
fn config_p8(fs: &Vec<(Vec<char>, JsonScalar)>) -> (r: Option<ConfigPartP8>)
    requires
        fs@.len() == 44,
    ensures
        forall|c0: SwanlingConfiguration|
            fields_view(fs@) == spec_config_fields(c0) ==> (match r {
                Some(p) => config_p8_eq(p, c0),
                None => false,
            }),
{
    if !crate::logger::chars_match(&fs[16].0, "request_log") {
            proof {
                assert forall|c0: SwanlingConfiguration|
                    fields_view(fs@) == spec_config_fields(c0) implies false by {
                    assert(fields_view(fs@)[16] == spec_config_fields(c0)[16]);
                }
            }
        return None;
    }
    let f_request_log: String = match &fs[16].1 {
        JsonScalar::Text(v) => util::chars_to_string(v),
        _ => {
            proof {
                assert forall|c0: SwanlingConfiguration|
                    fields_view(fs@) == spec_config_fields(c0) implies false by {
                    assert(fields_view(fs@)[16] == spec_config_fields(c0)[16]);
                }
            }
            return None;
        },
    };
    if !crate::logger::chars_match(&fs[17].0, "request_format") {
            proof {
                assert forall|c0: SwanlingConfiguration|
                    fields_view(fs@) == spec_config_fields(c0) implies false by {
                    assert(fields_view(fs@)[17] == spec_config_fields(c0)[17]);
                }
            }
        return None;
    }
    let f_request_format: Option<SwanlingLogFormat> = match &fs[17].1 {
        JsonScalar::Null => None,
        JsonScalar::Text(v) => match crate::logger::parse_log_format(v) {
            Some(lf) => Some(lf),
            None => {
            proof {
                assert forall|c0: SwanlingConfiguration|
                    fields_view(fs@) == spec_config_fields(c0) implies false by {
                    assert(fields_view(fs@)[17] == spec_config_fields(c0)[17]);
                }
            }
                return None;
            },
        },
        _ => {
            proof {
                assert forall|c0: SwanlingConfiguration|
                    fields_view(fs@) == spec_config_fields(c0) implies false by {
                    assert(fields_view(fs@)[17] == spec_config_fields(c0)[17]);
                }
            }
            return None;
        },
    };

    let p = ConfigPartP8 {
        request_log: f_request_log,
        request_format: f_request_format,
    };
    proof {
        reveal_strlit("csv");
        reveal_strlit("json");
        reveal_strlit("raw");
        reveal_strlit("average");
        reveal_strlit("disabled");
        reveal_strlit("maximum");
        reveal_strlit("minimum");
        assert("csv"@.len() == 3 && "json"@.len() == 4 && "raw"@.len() == 3);
        assert("csv"@[0] == 'c' && "raw"@[0] == 'r');
        assert("average"@.len() == 7 && "disabled"@.len() == 8 && "maximum"@.len() == 7
            && "minimum"@.len() == 7);
        assert("average"@[0] == 'a' && "maximum"@[0] == 'm' && "minimum"@[0] == 'm');
        assert("maximum"@[1] == 'a' && "minimum"@[1] == 'i');
        assert forall|c0: SwanlingConfiguration|
            fields_view(fs@) == spec_config_fields(c0) implies config_p8_eq(p, c0) by {
            assert(fields_view(fs@)[16] == spec_config_fields(c0)[16]);
            assert(fields_view(fs@)[17] == spec_config_fields(c0)[17]);
        }
    }
    Some(p)
}

/// One slice of a decoded configuration.
struct ConfigPartP9 {
    task_log: String,
    task_format: Option<SwanlingLogFormat>,
}

/// Whether one slice matches a configuration's values.
spec fn config_p9_eq(p: ConfigPartP9, c0: SwanlingConfiguration) -> bool {
    &&& p.task_log@ == c0.task_log@
    &&& p.task_format == c0.task_format
}

/// Decodes one slice of the snapshot's fields.
#[verifier::rlimit(100)]
#[verifier::spinoff_prover]
fn config_p9(fs: &Vec<(Vec<char>, JsonScalar)>) -> (r: Option<ConfigPartP9>)
    requires
        fs@.len() == 44,
    ensures
        forall|c0: SwanlingConfiguration|
            fields_view(fs@) == spec_config_fields(c0) ==> (match r {
                Some(p) => config_p9_eq(p, c0),
                None => false,
            }),
{
    if !crate::logger::chars_match(&fs[18].0, "task_log") {
            proof {
                assert forall|c0: SwanlingConfiguration|
                    fields_view(fs@) == spec_config_fields(c0) implies false by {
                    assert(fields_view(fs@)[18] == spec_config_fields(c0)[18]);
                }
            }
        return None;
    }
    let f_task_log: String = match &fs[18].1 {
        JsonScalar::Text(v) => util::chars_to_string(v),
        _ => {
            proof {
                assert forall|c0: SwanlingConfiguration|
                    fields_view(fs@) == spec_config_fields(c0) implies false by {
                    assert(fields_view(fs@)[18] == spec_config_fields(c0)[18]);
                }
            }
            return None;
        },
    };
    if !crate::logger::chars_match(&fs[19].0, "task_format") {
            proof {
                assert forall|c0: SwanlingConfiguration|
                    fields_view(fs@) == spec_config_fields(c0) implies false by {
                    assert(fields_view(fs@)[19] == spec_config_fields(c0)[19]);
                }
            }
        return None;
    }
    let f_task_format: Option<SwanlingLogFormat> = match &fs[19].1 {
        JsonScalar::Null => None,
        JsonScalar::Text(v) => match crate::logger::parse_log_format(v) {
            Some(lf) => Some(lf),
            None => {
            proof {
                assert forall|c0: SwanlingConfiguration|
                    fields_view(fs@) == spec_config_fields(c0) implies false by {
                    assert(fields_view(fs@)[19] == spec_config_fields(c0)[19]);
                }
            }
                return None;
            },
        },
        _ => {
            proof {
                assert forall|c0: SwanlingConfiguration|
                    fields_view(fs@) == spec_config_fields(c0) implies false by {
                    assert(fields_view(fs@)[19] == spec_config_fields(c0)[19]);
                }
            }
            return None;
        },
    };

    let p = ConfigPartP9 {
        task_log: f_task_log,
        task_format: f_task_format,
    };
    proof {
        reveal_strlit("csv");
        reveal_strlit("json");
        reveal_strlit("raw");
        reveal_strlit("average");
        reveal_strlit("disabled");
        reveal_strlit("maximum");
        reveal_strlit("minimum");
        assert("csv"@.len() == 3 && "json"@.len() == 4 && "raw"@.len() == 3);
        assert("csv"@[0] == 'c' && "raw"@[0] == 'r');
        assert("average"@.len() == 7 && "disabled"@.len() == 8 && "maximum"@.len() == 7
            && "minimum"@.len() == 7);
        assert("average"@[0] == 'a' && "maximum"@[0] == 'm' && "minimum"@[0] == 'm');
        assert("maximum"@[1] == 'a' && "minimum"@[1] == 'i');
        assert forall|c0: SwanlingConfiguration|
            fields_view(fs@) == spec_config_fields(c0) implies config_p9_eq(p, c0) by {
            assert(fields_view(fs@)[18] == spec_config_fields(c0)[18]);
            assert(fields_view(fs@)[19] == spec_config_fields(c0)[19]);
        }
    }
    Some(p)
}

/// One slice of a decoded configuration.
struct ConfigPartP10 {
    error_log: String,
    error_format: Option<SwanlingLogFormat>,
}

/// Whether one slice matches a configuration's values.
spec fn config_p10_eq(p: ConfigPartP10, c0: SwanlingConfiguration) -> bool {
    &&& p.error_log@ == c0.error_log@
    &&& p.error_format == c0.error_format
}

/// Decodes one slice of the snapshot's fields.
#[verifier::rlimit(100)]
#[verifier::spinoff_prover]
fn config_p10(fs: &Vec<(Vec<char>, JsonScalar)>) -> (r: Option<ConfigPartP10>)
    requires
        fs@.len() == 44,
    ensures
        forall|c0: SwanlingConfiguration|
            fields_view(fs@) == spec_config_fields(c0) ==> (match r {
                Some(p) => config_p10_eq(p, c0),
                None => false,
            }),
{
    if !crate::logger::chars_match(&fs[20].0, "error_log") {
            proof {
                assert forall|c0: SwanlingConfiguration|
                    fields_view(fs@) == spec_config_fields(c0) implies false by {
                    assert(fields_view(fs@)[20] == spec_config_fields(c0)[20]);
                }
            }
        return None;
    }
    let f_error_log: String = match &fs[20].1 {
        JsonScalar::Text(v) => util::chars_to_string(v),
        _ => {
            proof {
                assert forall|c0: SwanlingConfiguration|
                    fields_view(fs@) == spec_config_fields(c0) implies false by {
                    assert(fields_view(fs@)[20] == spec_config_fields(c0)[20]);
                }
            }
            return None;
        },
    };
    if !crate::logger::chars_match(&fs[21].0, "error_format") {
            proof {
                assert forall|c0: SwanlingConfiguration|
                    fields_view(fs@) == spec_config_fields(c0) implies false by {
                    assert(fields_view(fs@)[21] == spec_config_fields(c0)[21]);
                }
            }
        return None;
    }
    let f_error_format: Option<SwanlingLogFormat> = match &fs[21].1 {
        JsonScalar::Null => None,
        JsonScalar::Text(v) => match crate::logger::parse_log_format(v) {
            Some(lf) => Some(lf),
            None => {
            proof {
                assert forall|c0: SwanlingConfiguration|
                    fields_view(fs@) == spec_config_fields(c0) implies false by {
                    assert(fields_view(fs@)[21] == spec_config_fields(c0)[21]);
                }
            }
                return None;
            },
        },
        _ => {
            proof {
                assert forall|c0: SwanlingConfiguration|
                    fields_view(fs@) == spec_config_fields(c0) implies false by {
                    assert(fields_view(fs@)[21] == spec_config_fields(c0)[21]);
                }
            }
            return None;
        },
    };

    let p = ConfigPartP10 {
        error_log: f_error_log,
        error_format: f_error_format,
    };
    proof {
        reveal_strlit("csv");
        reveal_strlit("json");
        reveal_strlit("raw");
        reveal_strlit("average");
        reveal_strlit("disabled");
        reveal_strlit("maximum");
        reveal_strlit("minimum");
        assert("csv"@.len() == 3 && "json"@.len() == 4 && "raw"@.len() == 3);
        assert("csv"@[0] == 'c' && "raw"@[0] == 'r');
        assert("average"@.len() == 7 && "disabled"@.len() == 8 && "maximum"@.len() == 7
            && "minimum"@.len() == 7);
        assert("average"@[0] == 'a' && "maximum"@[0] == 'm' && "minimum"@[0] == 'm');
        assert("maximum"@[1] == 'a' && "minimum"@[1] == 'i');
        assert forall|c0: SwanlingConfiguration|
            fields_view(fs@) == spec_config_fields(c0) implies config_p10_eq(p, c0) by {
            assert(fields_view(fs@)[20] == spec_config_fields(c0)[20]);
            assert(fields_view(fs@)[21] == spec_config_fields(c0)[21]);
        }
    }
    Some(p)
}

/// One slice of a decoded configuration.
struct ConfigPartP11 {
    debug_log: String,
    debug_format: Option<SwanlingLogFormat>,
}

/// Whether one slice matches a configuration's values.
spec fn config_p11_eq(p: ConfigPartP11, c0: SwanlingConfiguration) -> bool {
    &&& p.debug_log@ == c0.debug_log@
    &&& p.debug_format == c0.debug_format
}

/// Decodes one slice of the snapshot's fields.
#[verifier::rlimit(100)]
#[verifier::spinoff_prover]
fn config_p11(fs: &Vec<(Vec<char>, JsonScalar)>) -> (r: Option<ConfigPartP11>)
    requires
        fs@.len() == 44,
    ensures
        forall|c0: SwanlingConfiguration|
            fields_view(fs@) == spec_config_fields(c0) ==> (match r {
                Some(p) => config_p11_eq(p, c0),
                None => false,
            }),
{
    if !crate::logger::chars_match(&fs[22].0, "debug_log") {
            proof {
                assert forall|c0: SwanlingConfiguration|
                    fields_view(fs@) == spec_config_fields(c0) implies false by {
                    assert(fields_view(fs@)[22] == spec_config_fields(c0)[22]);
                }
            }
        return None;
    }
    let f_debug_log: String = match &fs[22].1 {
        JsonScalar::Text(v) => util::chars_to_string(v),
        _ => {
            proof {
                assert forall|c0: SwanlingConfiguration|
                    fields_view(fs@) == spec_config_fields(c0) implies false by {
                    assert(fields_view(fs@)[22] == spec_config_fields(c0)[22]);
                }
            }
            return None;
        },
    };
    if !crate::logger::chars_match(&fs[23].0, "debug_format") {
            proof {
                assert forall|c0: SwanlingConfiguration|
                    fields_view(fs@) == spec_config_fields(c0) implies false by {
                    assert(fields_view(fs@)[23] == spec_config_fields(c0)[23]);
                }
            }
        return None;
    }
    let f_debug_format: Option<SwanlingLogFormat> = match &fs[23].1 {
        JsonScalar::Null => None,
        JsonScalar::Text(v) => match crate::logger::parse_log_format(v) {
            Some(lf) => Some(lf),
            None => {
            proof {
                assert forall|c0: SwanlingConfiguration|
                    fields_view(fs@) == spec_config_fields(c0) implies false by {
                    assert(fields_view(fs@)[23] == spec_config_fields(c0)[23]);
                }
            }
                return None;
            },
        },
        _ => {
            proof {
                assert forall|c0: SwanlingConfiguration|
                    fields_view(fs@) == spec_config_fields(c0) implies false by {
                    assert(fields_view(fs@)[23] == spec_config_fields(c0)[23]);
                }
            }
            return None;
        },
    };

    let p = ConfigPartP11 {
        debug_log: f_debug_log,
        debug_format: f_debug_format,
    };
    proof {
        reveal_strlit("csv");
        reveal_strlit("json");
        reveal_strlit("raw");
        reveal_strlit("average");
        reveal_strlit("disabled");
        reveal_strlit("maximum");
        reveal_strlit("minimum");
        assert("csv"@.len() == 3 && "json"@.len() == 4 && "raw"@.len() == 3);
        assert("csv"@[0] == 'c' && "raw"@[0] == 'r');
        assert("average"@.len() == 7 && "disabled"@.len() == 8 && "maximum"@.len() == 7
            && "minimum"@.len() == 7);
        assert("average"@[0] == 'a' && "maximum"@[0] == 'm' && "minimum"@[0] == 'm');
        assert("maximum"@[1] == 'a' && "minimum"@[1] == 'i');
        assert forall|c0: SwanlingConfiguration|
            fields_view(fs@) == spec_config_fields(c0) implies config_p11_eq(p, c0) by {
            assert(fields_view(fs@)[22] == spec_config_fields(c0)[22]);
            assert(fields_view(fs@)[23] == spec_config_fields(c0)[23]);
        }
    }
    Some(p)
}

/// One slice of a decoded configuration.
struct ConfigPartP12 {
    no_debug_body: bool,
    status_codes: bool,
}

/// Whether one slice matches a configuration's values.
spec fn config_p12_eq(p: ConfigPartP12, c0: SwanlingConfiguration) -> bool {
    &&& p.no_debug_body == c0.no_debug_body
    &&& p.status_codes == c0.status_codes
}

/// Decodes one slice of the snapshot's fields.
#[verifier::rlimit(100)]
#[verifier::spinoff_prover]
fn config_p12(fs: &Vec<(Vec<char>, JsonScalar)>) -> (r: Option<ConfigPartP12>)
    requires
        fs@.len() == 44,
    ensures
        forall|c0: SwanlingConfiguration|
            fields_view(fs@) == spec_config_fields(c0) ==> (match r {
                Some(p) => config_p12_eq(p, c0),
                None => false,
            }),
{
    if !crate::logger::chars_match(&fs[24].0, "no_debug_body") {
            proof {
                assert forall|c0: SwanlingConfiguration|
                    fields_view(fs@) == spec_config_fields(c0) implies false by {
                    assert(fields_view(fs@)[24] == spec_config_fields(c0)[24]);
                }
            }
        return None;
    }
    let f_no_debug_body: bool = match &fs[24].1 {
        JsonScalar::Bool(v) => *v,
        _ => {
            proof {
                assert forall|c0: SwanlingConfiguration|
                    fields_view(fs@) == spec_config_fields(c0) implies false by {
                    assert(fields_view(fs@)[24] == spec_config_fields(c0)[24]);
                }
            }
            return None;
        },
    };
    if !crate::logger::chars_match(&fs[25].0, "status_codes") {
            proof {
                assert forall|c0: SwanlingConfiguration|
                    fields_view(fs@) == spec_config_fields(c0) implies false by {
                    assert(fields_view(fs@)[25] == spec_config_fields(c0)[25]);
                }
            }
        return None;
    }
    let f_status_codes: bool = match &fs[25].1 {
        JsonScalar::Bool(v) => *v,
        _ => {
            proof {
                assert forall|c0: SwanlingConfiguration|
                    fields_view(fs@) == spec_config_fields(c0) implies false by {
                    assert(fields_view(fs@)[25] == spec_config_fields(c0)[25]);
                }
            }
            return None;
        },
    };

    let p = ConfigPartP12 {
        no_debug_body: f_no_debug_body,
        status_codes: f_status_codes,
    };
    proof {
        reveal_strlit("csv");
        reveal_strlit("json");
        reveal_strlit("raw");
        reveal_strlit("average");
        reveal_strlit("disabled");
        reveal_strlit("maximum");
        reveal_strlit("minimum");
        assert("csv"@.len() == 3 && "json"@.len() == 4 && "raw"@.len() == 3);
        assert("csv"@[0] == 'c' && "raw"@[0] == 'r');
        assert("average"@.len() == 7 && "disabled"@.len() == 8 && "maximum"@.len() == 7
            && "minimum"@.len() == 7);
        assert("average"@[0] == 'a' && "maximum"@[0] == 'm' && "minimum"@[0] == 'm');
        assert("maximum"@[1] == 'a' && "minimum"@[1] == 'i');
        assert forall|c0: SwanlingConfiguration|
            fields_view(fs@) == spec_config_fields(c0) implies config_p12_eq(p, c0) by {
            assert(fields_view(fs@)[24] == spec_config_fields(c0)[24]);
            assert(fields_view(fs@)[25] == spec_config_fields(c0)[25]);
        }
    }
    Some(p)
}

/// One slice of a decoded configuration.
struct ConfigPartP13 {
    no_telnet: bool,
    telnet_host: String,
}

/// Whether one slice matches a configuration's values.
spec fn config_p13_eq(p: ConfigPartP13, c0: SwanlingConfiguration) -> bool {
    &&& p.no_telnet == c0.no_telnet
    &&& p.telnet_host@ == c0.telnet_host@
}

/// Decodes one slice of the snapshot's fields.
#[verifier::rlimit(100)]
#[verifier::spinoff_prover]
fn config_p13(fs: &Vec<(Vec<char>, JsonScalar)>) -> (r: Option<ConfigPartP13>)
    requires
        fs@.len() == 44,
    ensures
        forall|c0: SwanlingConfiguration|
            fields_view(fs@) == spec_config_fields(c0) ==> (match r {
                Some(p) => config_p13_eq(p, c0),
                None => false,
            }),
{
    if !crate::logger::chars_match(&fs[26].0, "no_telnet") {
            proof {
                assert forall|c0: SwanlingConfiguration|
                    fields_view(fs@) == spec_config_fields(c0) implies false by {
                    assert(fields_view(fs@)[26] == spec_config_fields(c0)[26]);
                }
            }
        return None;
    }
    let f_no_telnet: bool = match &fs[26].1 {
        JsonScalar::Bool(v) => *v,
        _ => {
            proof {
                assert forall|c0: SwanlingConfiguration|
                    fields_view(fs@) == spec_config_fields(c0) implies false by {
                    assert(fields_view(fs@)[26] == spec_config_fields(c0)[26]);
                }
            }
            return None;
        },
    };
    if !crate::logger::chars_match(&fs[27].0, "telnet_host") {
            proof {
                assert forall|c0: SwanlingConfiguration|
                    fields_view(fs@) == spec_config_fields(c0) implies false by {
                    assert(fields_view(fs@)[27] == spec_config_fields(c0)[27]);
                }
            }
        return None;
    }
    let f_telnet_host: String = match &fs[27].1 {
        JsonScalar::Text(v) => util::chars_to_string(v),
        _ => {
            proof {
                assert forall|c0: SwanlingConfiguration|
                    fields_view(fs@) == spec_config_fields(c0) implies false by {
                    assert(fields_view(fs@)[27] == spec_config_fields(c0)[27]);
                }
            }
            return None;
        },
    };

    let p = ConfigPartP13 {
        no_telnet: f_no_telnet,
        telnet_host: f_telnet_host,
    };
    proof {
        reveal_strlit("csv");
        reveal_strlit("json");
        reveal_strlit("raw");
        reveal_strlit("average");
        reveal_strlit("disabled");
        reveal_strlit("maximum");
        reveal_strlit("minimum");
        assert("csv"@.len() == 3 && "json"@.len() == 4 && "raw"@.len() == 3);
        assert("csv"@[0] == 'c' && "raw"@[0] == 'r');
        assert("average"@.len() == 7 && "disabled"@.len() == 8 && "maximum"@.len() == 7
            && "minimum"@.len() == 7);
        assert("average"@[0] == 'a' && "maximum"@[0] == 'm' && "minimum"@[0] == 'm');
        assert("maximum"@[1] == 'a' && "minimum"@[1] == 'i');
        assert forall|c0: SwanlingConfiguration|
            fields_view(fs@) == spec_config_fields(c0) implies config_p13_eq(p, c0) by {
            assert(fields_view(fs@)[26] == spec_config_fields(c0)[26]);
            assert(fields_view(fs@)[27] == spec_config_fields(c0)[27]);
        }
    }
    Some(p)
}

/// One slice of a decoded configuration.
struct ConfigPartP14 {
    telnet_port: u16,
    no_websocket: bool,
}

/// Whether one slice matches a configuration's values.
spec fn config_p14_eq(p: ConfigPartP14, c0: SwanlingConfiguration) -> bool {
    &&& p.telnet_port == c0.telnet_port
    &&& p.no_websocket == c0.no_websocket
}

/// Decodes one slice of the snapshot's fields.
#[verifier::rlimit(100)]
#[verifier::spinoff_prover]
fn config_p14(fs: &Vec<(Vec<char>, JsonScalar)>) -> (r: Option<ConfigPartP14>)
    requires
        fs@.len() == 44,
    ensures
        forall|c0: SwanlingConfiguration|
            fields_view(fs@) == spec_config_fields(c0) ==> (match r {
                Some(p) => config_p14_eq(p, c0),
                None => false,
            }),
{
    if !crate::logger::chars_match(&fs[28].0, "telnet_port") {
            proof {
                assert forall|c0: SwanlingConfiguration|
                    fields_view(fs@) == spec_config_fields(c0) implies false by {
                    assert(fields_view(fs@)[28] == spec_config_fields(c0)[28]);
                }
            }
        return None;
    }
    let f_telnet_port: u16 = match &fs[28].1 {
        JsonScalar::UInt(v) => if *v <= u16::MAX as u64 {
            *v as u16
        } else {
            proof {
                assert forall|c0: SwanlingConfiguration|
                    fields_view(fs@) == spec_config_fields(c0) implies false by {
                    assert(fields_view(fs@)[28] == spec_config_fields(c0)[28]);
                }
            }
            return None;
        },
        _ => {
            proof {
                assert forall|c0: SwanlingConfiguration|
                    fields_view(fs@) == spec_config_fields(c0) implies false by {
                    assert(fields_view(fs@)[28] == spec_config_fields(c0)[28]);
                }
            }
            return None;
        },
    };
    if !crate::logger::chars_match(&fs[29].0, "no_websocket") {
            proof {
                assert forall|c0: SwanlingConfiguration|
                    fields_view(fs@) == spec_config_fields(c0) implies false by {
                    assert(fields_view(fs@)[29] == spec_config_fields(c0)[29]);
                }
            }
        return None;
    }
    let f_no_websocket: bool = match &fs[29].1 {
        JsonScalar::Bool(v) => *v,
        _ => {
            proof {
                assert forall|c0: SwanlingConfiguration|
                    fields_view(fs@) == spec_config_fields(c0) implies false by {
                    assert(fields_view(fs@)[29] == spec_config_fields(c0)[29]);
                }
            }
            return None;
        },
    };

    let p = ConfigPartP14 {
        telnet_port: f_telnet_port,
        no_websocket: f_no_websocket,
    };
    proof {
        reveal_strlit("csv");
        reveal_strlit("json");
        reveal_strlit("raw");
        reveal_strlit("average");
        reveal_strlit("disabled");
        reveal_strlit("maximum");
        reveal_strlit("minimum");
        assert("csv"@.len() == 3 && "json"@.len() == 4 && "raw"@.len() == 3);
        assert("csv"@[0] == 'c' && "raw"@[0] == 'r');
        assert("average"@.len() == 7 && "disabled"@.len() == 8 && "maximum"@.len() == 7
            && "minimum"@.len() == 7);
        assert("average"@[0] == 'a' && "maximum"@[0] == 'm' && "minimum"@[0] == 'm');
        assert("maximum"@[1] == 'a' && "minimum"@[1] == 'i');
        assert forall|c0: SwanlingConfiguration|
            fields_view(fs@) == spec_config_fields(c0) implies config_p14_eq(p, c0) by {
            assert(fields_view(fs@)[28] == spec_config_fields(c0)[28]);
            assert(fields_view(fs@)[29] == spec_config_fields(c0)[29]);
        }
    }
    Some(p)
}

/// One slice of a decoded configuration.
struct ConfigPartP15 {
    websocket_host: String,
    websocket_port: u16,
}

/// Whether one slice matches a configuration's values.
spec fn config_p15_eq(p: ConfigPartP15, c0: SwanlingConfiguration) -> bool {
    &&& p.websocket_host@ == c0.websocket_host@
    &&& p.websocket_port == c0.websocket_port
}

/// Decodes one slice of the snapshot's fields.
#[verifier::rlimit(100)]
#[verifier::spinoff_prover]
fn config_p15(fs: &Vec<(Vec<char>, JsonScalar)>) -> (r: Option<ConfigPartP15>)
    requires
        fs@.len() == 44,
    ensures
        forall|c0: SwanlingConfiguration|
            fields_view(fs@) == spec_config_fields(c0) ==> (match r {
                Some(p) => config_p15_eq(p, c0),
                None => false,
            }),
{
    if !crate::logger::chars_match(&fs[30].0, "websocket_host") {
            proof {
                assert forall|c0: SwanlingConfiguration|
                    fields_view(fs@) == spec_config_fields(c0) implies false by {
                    assert(fields_view(fs@)[30] == spec_config_fields(c0)[30]);
                }
            }
        return None;
    }
    let f_websocket_host: String = match &fs[30].1 {
        JsonScalar::Text(v) => util::chars_to_string(v),
        _ => {
            proof {
                assert forall|c0: SwanlingConfiguration|
                    fields_view(fs@) == spec_config_fields(c0) implies false by {
                    assert(fields_view(fs@)[30] == spec_config_fields(c0)[30]);
                }
            }
            return None;
        },
    };
    if !crate::logger::chars_match(&fs[31].0, "websocket_port") {
            proof {
                assert forall|c0: SwanlingConfiguration|
                    fields_view(fs@) == spec_config_fields(c0) implies false by {
                    assert(fields_view(fs@)[31] == spec_config_fields(c0)[31]);
                }
            }
        return None;
    }
    let f_websocket_port: u16 = match &fs[31].1 {
        JsonScalar::UInt(v) => if *v <= u16::MAX as u64 {
            *v as u16
        } else {
            proof {
                assert forall|c0: SwanlingConfiguration|
                    fields_view(fs@) == spec_config_fields(c0) implies false by {
                    assert(fields_view(fs@)[31] == spec_config_fields(c0)[31]);
                }
            }
            return None;
        },
        _ => {
            proof {
                assert forall|c0: SwanlingConfiguration|
                    fields_view(fs@) == spec_config_fields(c0) implies false by {
                    assert(fields_view(fs@)[31] == spec_config_fields(c0)[31]);
                }
            }
            return None;
        },
    };

    let p = ConfigPartP15 {
        websocket_host: f_websocket_host,
        websocket_port: f_websocket_port,
    };
    proof {
        reveal_strlit("csv");
        reveal_strlit("json");
        reveal_strlit("raw");
        reveal_strlit("average");
        reveal_strlit("disabled");
        reveal_strlit("maximum");
        reveal_strlit("minimum");
        assert("csv"@.len() == 3 && "json"@.len() == 4 && "raw"@.len() == 3);
        assert("csv"@[0] == 'c' && "raw"@[0] == 'r');
        assert("average"@.len() == 7 && "disabled"@.len() == 8 && "maximum"@.len() == 7
            && "minimum"@.len() == 7);
        assert("average"@[0] == 'a' && "maximum"@[0] == 'm' && "minimum"@[0] == 'm');
        assert("maximum"@[1] == 'a' && "minimum"@[1] == 'i');
        assert forall|c0: SwanlingConfiguration|
            fields_view(fs@) == spec_config_fields(c0) implies config_p15_eq(p, c0) by {
            assert(fields_view(fs@)[30] == spec_config_fields(c0)[30]);
            assert(fields_view(fs@)[31] == spec_config_fields(c0)[31]);
        }
    }
    Some(p)
}

/// One slice of a decoded configuration.
struct ConfigPartP16 {
    no_autostart: bool,
    co_mitigation: Option<SwanlingCoordinatedOmissionMitigation>,
}

/// Whether one slice matches a configuration's values.
spec fn config_p16_eq(p: ConfigPartP16, c0: SwanlingConfiguration) -> bool {
    &&& p.no_autostart == c0.no_autostart
    &&& p.co_mitigation == c0.co_mitigation
}

/// Decodes one slice of the snapshot's fields.
#[verifier::rlimit(100)]
#[verifier::spinoff_prover]
fn config_p16(fs: &Vec<(Vec<char>, JsonScalar)>) -> (r: Option<ConfigPartP16>)
    requires
        fs@.len() == 44,
    ensures
        forall|c0: SwanlingConfiguration|
            fields_view(fs@) == spec_config_fields(c0) ==> (match r {
                Some(p) => config_p16_eq(p, c0),
                None => false,
            }),
{
    if !crate::logger::chars_match(&fs[32].0, "no_autostart") {
            proof {
                assert forall|c0: SwanlingConfiguration|
                    fields_view(fs@) == spec_config_fields(c0) implies false by {
                    assert(fields_view(fs@)[32] == spec_config_fields(c0)[32]);
                }
            }
        return None;
    }
    let f_no_autostart: bool = match &fs[32].1 {
        JsonScalar::Bool(v) => *v,
        _ => {
            proof {
                assert forall|c0: SwanlingConfiguration|
                    fields_view(fs@) == spec_config_fields(c0) implies false by {
                    assert(fields_view(fs@)[32] == spec_config_fields(c0)[32]);
                }
            }
            return None;
        },
    };
    if !crate::logger::chars_match(&fs[33].0, "co_mitigation") {
            proof {
                assert forall|c0: SwanlingConfiguration|
                    fields_view(fs@) == spec_config_fields(c0) implies false by {
                    assert(fields_view(fs@)[33] == spec_config_fields(c0)[33]);
                }
            }
        return None;
    }
    let f_co_mitigation: Option<SwanlingCoordinatedOmissionMitigation> = match &fs[33].1 {
        JsonScalar::Null => None,
        JsonScalar::Text(v) => match parse_co_name(v) {
            Some(m) => Some(m),
            None => {
            proof {
                assert forall|c0: SwanlingConfiguration|
                    fields_view(fs@) == spec_config_fields(c0) implies false by {
                    assert(fields_view(fs@)[33] == spec_config_fields(c0)[33]);
                }
            }
                return None;
            },
        },
        _ => {
            proof {
                assert forall|c0: SwanlingConfiguration|
                    fields_view(fs@) == spec_config_fields(c0) implies false by {
                    assert(fields_view(fs@)[33] == spec_config_fields(c0)[33]);
                }
            }
            return None;
        },
    };

    let p = ConfigPartP16 {
        no_autostart: f_no_autostart,
        co_mitigation: f_co_mitigation,
    };
    proof {
        reveal_strlit("csv");
        reveal_strlit("json");
        reveal_strlit("raw");
        reveal_strlit("average");
        reveal_strlit("disabled");
        reveal_strlit("maximum");
        reveal_strlit("minimum");
        assert("csv"@.len() == 3 && "json"@.len() == 4 && "raw"@.len() == 3);
        assert("csv"@[0] == 'c' && "raw"@[0] == 'r');
        assert("average"@.len() == 7 && "disabled"@.len() == 8 && "maximum"@.len() == 7
            && "minimum"@.len() == 7);
        assert("average"@[0] == 'a' && "maximum"@[0] == 'm' && "minimum"@[0] == 'm');
        assert("maximum"@[1] == 'a' && "minimum"@[1] == 'i');
        assert forall|c0: SwanlingConfiguration|
            fields_view(fs@) == spec_config_fields(c0) implies config_p16_eq(p, c0) by {
            assert(fields_view(fs@)[32] == spec_config_fields(c0)[32]);
            assert(fields_view(fs@)[33] == spec_config_fields(c0)[33]);
        }
    }
    Some(p)
}

/// One slice of a decoded configuration.
struct ConfigPartP17 {
    throttle_requests: usize,
    sticky_follow: bool,
}

/// Whether one slice matches a configuration's values.
spec fn config_p17_eq(p: ConfigPartP17, c0: SwanlingConfiguration) -> bool {
    &&& p.throttle_requests == c0.throttle_requests
    &&& p.sticky_follow == c0.sticky_follow
}

/// Decodes one slice of the snapshot's fields.
#[verifier::rlimit(100)]
#[verifier::spinoff_prover]
fn config_p17(fs: &Vec<(Vec<char>, JsonScalar)>) -> (r: Option<ConfigPartP17>)
    requires
        fs@.len() == 44,
    ensures
        forall|c0: SwanlingConfiguration|
            fields_view(fs@) == spec_config_fields(c0) ==> (match r {
                Some(p) => config_p17_eq(p, c0),
                None => false,
            }),
{
    if !crate::logger::chars_match(&fs[34].0, "throttle_requests") {
            proof {
                assert forall|c0: SwanlingConfiguration|
                    fields_view(fs@) == spec_config_fields(c0) implies false by {
                    assert(fields_view(fs@)[34] == spec_config_fields(c0)[34]);
                }
            }
        return None;
    }
    let f_throttle_requests: usize = match &fs[34].1 {
        JsonScalar::UInt(v) => if *v <= usize::MAX as u64 {
            *v as usize
        } else {
            proof {
                assert forall|c0: SwanlingConfiguration|
                    fields_view(fs@) == spec_config_fields(c0) implies false by {
                    assert(fields_view(fs@)[34] == spec_config_fields(c0)[34]);
                }
            }
            return None;
        },
        _ => {
            proof {
                assert forall|c0: SwanlingConfiguration|
                    fields_view(fs@) == spec_config_fields(c0) implies false by {
                    assert(fields_view(fs@)[34] == spec_config_fields(c0)[34]);
                }
            }
            return None;
        },
    };
    if !crate::logger::chars_match(&fs[35].0, "sticky_follow") {
            proof {
                assert forall|c0: SwanlingConfiguration|
                    fields_view(fs@) == spec_config_fields(c0) implies false by {
                    assert(fields_view(fs@)[35] == spec_config_fields(c0)[35]);
                }
            }
        return None;
    }
    let f_sticky_follow: bool = match &fs[35].1 {
        JsonScalar::Bool(v) => *v,
        _ => {
            proof {
                assert forall|c0: SwanlingConfiguration|
                    fields_view(fs@) == spec_config_fields(c0) implies false by {
                    assert(fields_view(fs@)[35] == spec_config_fields(c0)[35]);
                }
            }
            return None;
        },
    };

    let p = ConfigPartP17 {
        throttle_requests: f_throttle_requests,
        sticky_follow: f_sticky_follow,
    };
    proof {
        reveal_strlit("csv");
        reveal_strlit("json");
        reveal_strlit("raw");
        reveal_strlit("average");
        reveal_strlit("disabled");
        reveal_strlit("maximum");
        reveal_strlit("minimum");
        assert("csv"@.len() == 3 && "json"@.len() == 4 && "raw"@.len() == 3);
        assert("csv"@[0] == 'c' && "raw"@[0] == 'r');
        assert("average"@.len() == 7 && "disabled"@.len() == 8 && "maximum"@.len() == 7
            && "minimum"@.len() == 7);
        assert("average"@[0] == 'a' && "maximum"@[0] == 'm' && "minimum"@[0] == 'm');
        assert("maximum"@[1] == 'a' && "minimum"@[1] == 'i');
        assert forall|c0: SwanlingConfiguration|
            fields_view(fs@) == spec_config_fields(c0) implies config_p17_eq(p, c0) by {
            assert(fields_view(fs@)[34] == spec_config_fields(c0)[34]);
            assert(fields_view(fs@)[35] == spec_config_fields(c0)[35]);
        }
    }
    Some(p)
}

/// One slice of a decoded configuration.
struct ConfigPartP18 {
    manager: bool,
    expect_workers: Option<u16>,
}

/// Whether one slice matches a configuration's values.
spec fn config_p18_eq(p: ConfigPartP18, c0: SwanlingConfiguration) -> bool {
    &&& p.manager == c0.manager
    &&& p.expect_workers == c0.expect_workers
}

/// Decodes one slice of the snapshot's fields.
#[verifier::rlimit(100)]
#[verifier::spinoff_prover]
fn config_p18(fs: &Vec<(Vec<char>, JsonScalar)>) -> (r: Option<ConfigPartP18>)
    requires
        fs@.len() == 44,
    ensures
        forall|c0: SwanlingConfiguration|
            fields_view(fs@) == spec_config_fields(c0) ==> (match r {
                Some(p) => config_p18_eq(p, c0),
                None => false,
            }),
{
    if !crate::logger::chars_match(&fs[36].0, "manager") {
            proof {
                assert forall|c0: SwanlingConfiguration|
                    fields_view(fs@) == spec_config_fields(c0) implies false by {
                    assert(fields_view(fs@)[36] == spec_config_fields(c0)[36]);
                }
            }
        return None;
    }
    let f_manager: bool = match &fs[36].1 {
        JsonScalar::Bool(v) => *v,
        _ => {
            proof {
                assert forall|c0: SwanlingConfiguration|
                    fields_view(fs@) == spec_config_fields(c0) implies false by {
                    assert(fields_view(fs@)[36] == spec_config_fields(c0)[36]);
                }
            }
            return None;
        },
    };
    if !crate::logger::chars_match(&fs[37].0, "expect_workers") {
            proof {
                assert forall|c0: SwanlingConfiguration|
                    fields_view(fs@) == spec_config_fields(c0) implies false by {
                    assert(fields_view(fs@)[37] == spec_config_fields(c0)[37]);
                }
            }
        return None;
    }
    let f_expect_workers: Option<u16> = match &fs[37].1 {
        JsonScalar::Null => None,
        JsonScalar::UInt(v) => if *v <= u16::MAX as u64 {
            Some(*v as u16)
        } else {
            proof {
                assert forall|c0: SwanlingConfiguration|
                    fields_view(fs@) == spec_config_fields(c0) implies false by {
                    assert(fields_view(fs@)[37] == spec_config_fields(c0)[37]);
                }
            }
            return None;
        },
        _ => {
            proof {
                assert forall|c0: SwanlingConfiguration|
                    fields_view(fs@) == spec_config_fields(c0) implies false by {
                    assert(fields_view(fs@)[37] == spec_config_fields(c0)[37]);
                }
            }
            return None;
        },
    };

    let p = ConfigPartP18 {
        manager: f_manager,
        expect_workers: f_expect_workers,
    };
    proof {
        reveal_strlit("csv");
        reveal_strlit("json");
        reveal_strlit("raw");
        reveal_strlit("average");
        reveal_strlit("disabled");
        reveal_strlit("maximum");
        reveal_strlit("minimum");
        assert("csv"@.len() == 3 && "json"@.len() == 4 && "raw"@.len() == 3);
        assert("csv"@[0] == 'c' && "raw"@[0] == 'r');
        assert("average"@.len() == 7 && "disabled"@.len() == 8 && "maximum"@.len() == 7
            && "minimum"@.len() == 7);
        assert("average"@[0] == 'a' && "maximum"@[0] == 'm' && "minimum"@[0] == 'm');
        assert("maximum"@[1] == 'a' && "minimum"@[1] == 'i');
        assert forall|c0: SwanlingConfiguration|
            fields_view(fs@) == spec_config_fields(c0) implies config_p18_eq(p, c0) by {
            assert(fields_view(fs@)[36] == spec_config_fields(c0)[36]);
            assert(fields_view(fs@)[37] == spec_config_fields(c0)[37]);
        }
    }
    Some(p)
}

/// One slice of a decoded configuration.
struct ConfigPartP19 {
    no_hash_check: bool,
    manager_bind_host: String,
}

/// Whether one slice matches a configuration's values.
spec fn config_p19_eq(p: ConfigPartP19, c0: SwanlingConfiguration) -> bool {
    &&& p.no_hash_check == c0.no_hash_check
    &&& p.manager_bind_host@ == c0.manager_bind_host@
}

/// Decodes one slice of the snapshot's fields.
#[verifier::rlimit(100)]
#[verifier::spinoff_prover]
fn config_p19(fs: &Vec<(Vec<char>, JsonScalar)>) -> (r: Option<ConfigPartP19>)
    requires
        fs@.len() == 44,
    ensures
        forall|c0: SwanlingConfiguration|
            fields_view(fs@) == spec_config_fields(c0) ==> (match r {
                Some(p) => config_p19_eq(p, c0),
                None => false,
            }),
{
    if !crate::logger::chars_match(&fs[38].0, "no_hash_check") {
            proof {
                assert forall|c0: SwanlingConfiguration|
                    fields_view(fs@) == spec_config_fields(c0) implies false by {
                    assert(fields_view(fs@)[38] == spec_config_fields(c0)[38]);
                }
            }
        return None;
    }
    let f_no_hash_check: bool = match &fs[38].1 {
        JsonScalar::Bool(v) => *v,
        _ => {
            proof {
                assert forall|c0: SwanlingConfiguration|
                    fields_view(fs@) == spec_config_fields(c0) implies false by {
                    assert(fields_view(fs@)[38] == spec_config_fields(c0)[38]);
                }
            }
            return None;
        },
    };
    if !crate::logger::chars_match(&fs[39].0, "manager_bind_host") {
            proof {
                assert forall|c0: SwanlingConfiguration|
                    fields_view(fs@) == spec_config_fields(c0) implies false by {
                    assert(fields_view(fs@)[39] == spec_config_fields(c0)[39]);
                }
            }
        return None;
    }
    let f_manager_bind_host: String = match &fs[39].1 {
        JsonScalar::Text(v) => util::chars_to_string(v),
        _ => {
            proof {
                assert forall|c0: SwanlingConfiguration|
                    fields_view(fs@) == spec_config_fields(c0) implies false by {
                    assert(fields_view(fs@)[39] == spec_config_fields(c0)[39]);
                }
            }
            return None;
        },
    };

    let p = ConfigPartP19 {
        no_hash_check: f_no_hash_check,
        manager_bind_host: f_manager_bind_host,
    };
    proof {
        reveal_strlit("csv");
        reveal_strlit("json");
        reveal_strlit("raw");
        reveal_strlit("average");
        reveal_strlit("disabled");
        reveal_strlit("maximum");
        reveal_strlit("minimum");
        assert("csv"@.len() == 3 && "json"@.len() == 4 && "raw"@.len() == 3);
        assert("csv"@[0] == 'c' && "raw"@[0] == 'r');
        assert("average"@.len() == 7 && "disabled"@.len() == 8 && "maximum"@.len() == 7
            && "minimum"@.len() == 7);
        assert("average"@[0] == 'a' && "maximum"@[0] == 'm' && "minimum"@[0] == 'm');
        assert("maximum"@[1] == 'a' && "minimum"@[1] == 'i');
        assert forall|c0: SwanlingConfiguration|
            fields_view(fs@) == spec_config_fields(c0) implies config_p19_eq(p, c0) by {
            assert(fields_view(fs@)[38] == spec_config_fields(c0)[38]);
            assert(fields_view(fs@)[39] == spec_config_fields(c0)[39]);
        }
    }
    Some(p)
}

/// One slice of a decoded configuration.
struct ConfigPartP20 {
    manager_bind_port: u16,
    worker: bool,
}

/// Whether one slice matches a configuration's values.
spec fn config_p20_eq(p: ConfigPartP20, c0: SwanlingConfiguration) -> bool {
    &&& p.manager_bind_port == c0.manager_bind_port
    &&& p.worker == c0.worker
}

/// Decodes one slice of the snapshot's fields.
#[verifier::rlimit(100)]
#[verifier::spinoff_prover]
fn config_p20(fs: &Vec<(Vec<char>, JsonScalar)>) -> (r: Option<ConfigPartP20>)
    requires
        fs@.len() == 44,
    ensures
        forall|c0: SwanlingConfiguration|
            fields_view(fs@) == spec_config_fields(c0) ==> (match r {
                Some(p) => config_p20_eq(p, c0),
                None => false,
            }),
{
    if !crate::logger::chars_match(&fs[40].0, "manager_bind_port") {
            proof {
                assert forall|c0: SwanlingConfiguration|
                    fields_view(fs@) == spec_config_fields(c0) implies false by {
                    assert(fields_view(fs@)[40] == spec_config_fields(c0)[40]);
                }
            }
        return None;
    }
    let f_manager_bind_port: u16 = match &fs[40].1 {
        JsonScalar::UInt(v) => if *v <= u16::MAX as u64 {
            *v as u16
        } else {
            proof {
                assert forall|c0: SwanlingConfiguration|
                    fields_view(fs@) == spec_config_fields(c0) implies false by {
                    assert(fields_view(fs@)[40] == spec_config_fields(c0)[40]);
                }
            }
            return None;
        },
        _ => {
            proof {
                assert forall|c0: SwanlingConfiguration|
                    fields_view(fs@) == spec_config_fields(c0) implies false by {
                    assert(fields_view(fs@)[40] == spec_config_fields(c0)[40]);
                }
            }
            return None;
        },
    };
    if !crate::logger::chars_match(&fs[41].0, "worker") {
            proof {
                assert forall|c0: SwanlingConfiguration|
                    fields_view(fs@) == spec_config_fields(c0) implies false by {
                    assert(fields_view(fs@)[41] == spec_config_fields(c0)[41]);
                }
            }
        return None;
    }
    let f_worker: bool = match &fs[41].1 {
        JsonScalar::Bool(v) => *v,
        _ => {
            proof {
                assert forall|c0: SwanlingConfiguration|
                    fields_view(fs@) == spec_config_fields(c0) implies false by {
                    assert(fields_view(fs@)[41] == spec_config_fields(c0)[41]);
                }
            }
            return None;
        },
    };

    let p = ConfigPartP20 {
        manager_bind_port: f_manager_bind_port,
        worker: f_worker,
    };
    proof {
        reveal_strlit("csv");
        reveal_strlit("json");
        reveal_strlit("raw");
        reveal_strlit("average");
        reveal_strlit("disabled");
        reveal_strlit("maximum");
        reveal_strlit("minimum");
        assert("csv"@.len() == 3 && "json"@.len() == 4 && "raw"@.len() == 3);
        assert("csv"@[0] == 'c' && "raw"@[0] == 'r');
        assert("average"@.len() == 7 && "disabled"@.len() == 8 && "maximum"@.len() == 7
            && "minimum"@.len() == 7);
        assert("average"@[0] == 'a' && "maximum"@[0] == 'm' && "minimum"@[0] == 'm');
        assert("maximum"@[1] == 'a' && "minimum"@[1] == 'i');
        assert forall|c0: SwanlingConfiguration|
            fields_view(fs@) == spec_config_fields(c0) implies config_p20_eq(p, c0) by {
            assert(fields_view(fs@)[40] == spec_config_fields(c0)[40]);
            assert(fields_view(fs@)[41] == spec_config_fields(c0)[41]);
        }
    }
    Some(p)
}

/// One slice of a decoded configuration.
struct ConfigPartP21 {
    manager_host: String,
    manager_port: u16,
}

/// Whether one slice matches a configuration's values.
spec fn config_p21_eq(p: ConfigPartP21, c0: SwanlingConfiguration) -> bool {
    &&& p.manager_host@ == c0.manager_host@
    &&& p.manager_port == c0.manager_port
}

/// Decodes one slice of the snapshot's fields.
#[verifier::rlimit(100)]
#[verifier::spinoff_prover]
fn config_p21(fs: &Vec<(Vec<char>, JsonScalar)>) -> (r: Option<ConfigPartP21>)
    requires
        fs@.len() == 44,
    ensures
        forall|c0: SwanlingConfiguration|
            fields_view(fs@) == spec_config_fields(c0) ==> (match r {
                Some(p) => config_p21_eq(p, c0),
                None => false,
            }),
{
    if !crate::logger::chars_match(&fs[42].0, "manager_host") {
            proof {
                assert forall|c0: SwanlingConfiguration|
                    fields_view(fs@) == spec_config_fields(c0) implies false by {
                    assert(fields_view(fs@)[42] == spec_config_fields(c0)[42]);
                }
            }
        return None;
    }
    let f_manager_host: String = match &fs[42].1 {
        JsonScalar::Text(v) => util::chars_to_string(v),
        _ => {
            proof {
                assert forall|c0: SwanlingConfiguration|
                    fields_view(fs@) == spec_config_fields(c0) implies false by {
                    assert(fields_view(fs@)[42] == spec_config_fields(c0)[42]);
                }
            }
            return None;
        },
    };
    if !crate::logger::chars_match(&fs[43].0, "manager_port") {
            proof {
                assert forall|c0: SwanlingConfiguration|
                    fields_view(fs@) == spec_config_fields(c0) implies false by {
                    assert(fields_view(fs@)[43] == spec_config_fields(c0)[43]);
                }
            }
        return None;
    }
    let f_manager_port: u16 = match &fs[43].1 {
        JsonScalar::UInt(v) => if *v <= u16::MAX as u64 {
            *v as u16
        } else {
            proof {
                assert forall|c0: SwanlingConfiguration|
                    fields_view(fs@) == spec_config_fields(c0) implies false by {
                    assert(fields_view(fs@)[43] == spec_config_fields(c0)[43]);
                }
            }
            return None;
        },
        _ => {
            proof {
                assert forall|c0: SwanlingConfiguration|
                    fields_view(fs@) == spec_config_fields(c0) implies false by {
                    assert(fields_view(fs@)[43] == spec_config_fields(c0)[43]);
                }
            }
            return None;
        },
    };

    let p = ConfigPartP21 {
        manager_host: f_manager_host,
        manager_port: f_manager_port,
    };
    proof {
        reveal_strlit("csv");
        reveal_strlit("json");
        reveal_strlit("raw");
        reveal_strlit("average");
        reveal_strlit("disabled");
        reveal_strlit("maximum");
        reveal_strlit("minimum");
        assert("csv"@.len() == 3 && "json"@.len() == 4 && "raw"@.len() == 3);
        assert("csv"@[0] == 'c' && "raw"@[0] == 'r');
        assert("average"@.len() == 7 && "disabled"@.len() == 8 && "maximum"@.len() == 7
            && "minimum"@.len() == 7);
        assert("average"@[0] == 'a' && "maximum"@[0] == 'm' && "minimum"@[0] == 'm');
        assert("maximum"@[1] == 'a' && "minimum"@[1] == 'i');
        assert forall|c0: SwanlingConfiguration|
            fields_view(fs@) == spec_config_fields(c0) implies config_p21_eq(p, c0) by {
            assert(fields_view(fs@)[42] == spec_config_fields(c0)[42]);
            assert(fields_view(fs@)[43] == spec_config_fields(c0)[43]);
        }
    }
    Some(p)
}

/// Rebuilds a configuration from a decoded snapshot's fields. On the fields
/// of any configuration's snapshot this succeeds and returns a configuration
/// with the same values.
#[verifier::rlimit(100)]
#[verifier::spinoff_prover]
pub fn config_from_fields(fs: &Vec<(Vec<char>, JsonScalar)>) -> (r: Option<SwanlingConfiguration>)
    ensures
        forall|c0: SwanlingConfiguration|
            fields_view(fs@) == spec_config_fields(c0) ==> (match r {
                Some(c) => spec_config_eq(c, c0),
                None => false,
            }),
{
    if fs.len() != 44 {
        proof {
            assert forall|c0: SwanlingConfiguration|
                fields_view(fs@) == spec_config_fields(c0) implies false by {
                assert(spec_config_fields(c0).len() == 44);
            }
        }
        return None;
    }
    let w_p0 = match config_p0(fs) {
        Some(p) => p,
        None => {
            return None;
        },
    };
    let w_p1 = match config_p1(fs) {
        Some(p) => p,
        None => {
            return None;
        },
    };
    let w_p2 = match config_p2(fs) {
        Some(p) => p,
        None => {
            return None;
        },
    };
    let w_p3 = match config_p3(fs) {
        Some(p) => p,
        None => {
            return None;
        },
    };
    let w_p4 = match config_p4(fs) {
        Some(p) => p,
        None => {
            return None;
        },
    };
    let w_p5 = match config_p5(fs) {
        Some(p) => p,
        None => {
            return None;
        },
    };
    let w_p6 = match config_p6(fs) {
        Some(p) => p,
        None => {
            return None;
        },
    };
    let w_p7 = match config_p7(fs) {
        Some(p) => p,
        None => {
            return None;
        },
    };
    let w_p8 = match config_p8(fs) {
        Some(p) => p,
        None => {
            return None;
        },
    };
    let w_p9 = match config_p9(fs) {
        Some(p) => p,
        None => {
            return None;
        },
    };
    let w_p10 = match config_p10(fs) {
        Some(p) => p,
        None => {
            return None;
        },
    };
    let w_p11 = match config_p11(fs) {
        Some(p) => p,
        None => {
            return None;
        },
    };
    let w_p12 = match config_p12(fs) {
        Some(p) => p,
        None => {
            return None;
        },
    };
    let w_p13 = match config_p13(fs) {
        Some(p) => p,
        None => {
            return None;
        },
    };
    let w_p14 = match config_p14(fs) {
        Some(p) => p,
        None => {
            return None;
        },
    };
    let w_p15 = match config_p15(fs) {
        Some(p) => p,
        None => {
            return None;
        },
    };
    let w_p16 = match config_p16(fs) {
        Some(p) => p,
        None => {
            return None;
        },
    };
    let w_p17 = match config_p17(fs) {
        Some(p) => p,
        None => {
            return None;
        },
    };
    let w_p18 = match config_p18(fs) {
        Some(p) => p,
        None => {
            return None;
        },
    };
    let w_p19 = match config_p19(fs) {
        Some(p) => p,
        None => {
            return None;
        },
    };
    let w_p20 = match config_p20(fs) {
        Some(p) => p,
        None => {
            return None;
        },
    };
    let w_p21 = match config_p21(fs) {
        Some(p) => p,
        None => {
            return None;
        },
    };
    let c = SwanlingConfiguration {
        help: w_p0.help,
        version: w_p0.version,
        list: w_p1.list,
        host: w_p1.host,
        users: w_p2.users,
        hatch_rate: w_p2.hatch_rate,
        run_time: w_p3.run_time,
        swanling_log: w_p3.swanling_log,
        log_level: w_p4.log_level,
        verbose: w_p4.verbose,
        running_metrics: w_p5.running_metrics,
        no_reset_metrics: w_p5.no_reset_metrics,
        no_metrics: w_p6.no_metrics,
        no_task_metrics: w_p6.no_task_metrics,
        no_error_summary: w_p7.no_error_summary,
        report_file: w_p7.report_file,
        request_log: w_p8.request_log,
        request_format: w_p8.request_format,
        task_log: w_p9.task_log,
        task_format: w_p9.task_format,
        error_log: w_p10.error_log,
        error_format: w_p10.error_format,
        debug_log: w_p11.debug_log,
        debug_format: w_p11.debug_format,
        no_debug_body: w_p12.no_debug_body,
        status_codes: w_p12.status_codes,
        no_telnet: w_p13.no_telnet,
        telnet_host: w_p13.telnet_host,
        telnet_port: w_p14.telnet_port,
        no_websocket: w_p14.no_websocket,
        websocket_host: w_p15.websocket_host,
        websocket_port: w_p15.websocket_port,
        no_autostart: w_p16.no_autostart,
        co_mitigation: w_p16.co_mitigation,
        throttle_requests: w_p17.throttle_requests,
        sticky_follow: w_p17.sticky_follow,
        manager: w_p18.manager,
        expect_workers: w_p18.expect_workers,
        no_hash_check: w_p19.no_hash_check,
        manager_bind_host: w_p19.manager_bind_host,
        manager_bind_port: w_p20.manager_bind_port,
        worker: w_p20.worker,
        manager_host: w_p21.manager_host,
        manager_port: w_p21.manager_port,
    };
    Some(c)
}

/// Decodes a canonical configuration snapshot. Decoding the encoding of any
/// configuration yields a configuration with the same values.
pub fn decode_config(s: &Vec<char>) -> (r: Option<SwanlingConfiguration>)
    ensures
        forall|c0: SwanlingConfiguration|
            s@ == enc_object(spec_config_fields(c0)) ==> (match r {
                Some(c) => spec_config_eq(c, c0),
                None => false,
            }),
{
    let fs = match decode_object(s) {
        Some(fs) => fs,
        None => {
            proof {
                assert forall|c0: SwanlingConfiguration|
                    s@ == enc_object(spec_config_fields(c0)) implies false by {
                    lemma_object_round_trip(spec_config_fields(c0));
                }
            }
            return None;
        },
    };
    proof {
        assert forall|c0: SwanlingConfiguration|
            s@ == enc_object(spec_config_fields(c0)) implies fields_view(fs@)
            == spec_config_fields(c0) by {
            lemma_object_round_trip(spec_config_fields(c0));
        }
    }
    config_from_fields(&fs)
}


/// Parses an HTTP method's wire name.
pub fn parse_method(v: &Vec<char>) -> (r: Option<SwanlingMethod>)
    ensures
        match r {
            Some(m) => v@ == m.spec_name(),
            None => forall|m: SwanlingMethod| v@ != m.spec_name(),
        },
{
    proof {
        lemma_method_names_distinct();
    }
    if crate::logger::chars_match(v, "DELETE") {
        Some(SwanlingMethod::Delete)
    } else if crate::logger::chars_match(v, "GET") {
        Some(SwanlingMethod::Get)
    } else if crate::logger::chars_match(v, "HEAD") {
        Some(SwanlingMethod::Head)
    } else if crate::logger::chars_match(v, "PATCH") {
        Some(SwanlingMethod::Patch)
    } else if crate::logger::chars_match(v, "POST") {
        Some(SwanlingMethod::Post)
    } else if crate::logger::chars_match(v, "PUT") {
        Some(SwanlingMethod::Put)
    } else {
        None
    }
}

/// The six method names differ.
proof fn lemma_method_names_distinct()
    ensures
        "DELETE"@.len() == 6,
        "GET"@.len() == 3,
        "HEAD"@.len() == 4,
        "PATCH"@.len() == 5,
        "POST"@.len() == 4,
        "PUT"@.len() == 3,
        "GET"@[0] == 'G' && "PUT"@[0] == 'P',
        "HEAD"@[0] == 'H' && "POST"@[0] == 'P',
{
    reveal_strlit("DELETE");
    reveal_strlit("GET");
    reveal_strlit("HEAD");
    reveal_strlit("PATCH");
    reveal_strlit("POST");
    reveal_strlit("PUT");
}

/// An aggregated error entry as a flat JSON object.
pub open spec fn spec_error_entry_fields(e: SwanlingErrorMetricAggregate) -> Seq<
    (Seq<char>, JsonScalarView),
> {
    seq![
        ("method"@, JsonScalarView::Text(e.method.spec_name())),
        ("name"@, JsonScalarView::Text(e.name@)),
        ("error"@, JsonScalarView::Text(e.error@)),
        ("occurrences"@, JsonScalarView::UInt(e.occurrences)),
    ]
}

/// Encodes one aggregated error entry as canonical JSON.
pub fn encode_error_entry(e: &SwanlingErrorMetricAggregate) -> (out: Vec<char>)
    ensures
        out@ == enc_object(spec_error_entry_fields(*e)),
{
    let mut fields: Vec<(Vec<char>, JsonScalar)> = Vec::new();
    fields.push(
        (util::str_to_chars("method"), JsonScalar::Text(util::str_to_chars(e.method.as_str()))),
    );
    fields.push(
        (util::str_to_chars("name"), JsonScalar::Text(util::str_to_chars(e.name.as_str()))),
    );
    fields.push(
        (util::str_to_chars("error"), JsonScalar::Text(util::str_to_chars(e.error.as_str()))),
    );
    fields.push((util::str_to_chars("occurrences"), JsonScalar::UInt(e.occurrences)));
    let out = encode_object(&fields);
    proof {
        assert(fields_view(fields@) =~= spec_error_entry_fields(*e));
    }
    out
}

/// Decodes one aggregated error entry. Decoding the encoding of any entry
/// yields an entry with the same values.
#[verifier::rlimit(100)]
pub fn decode_error_entry(s: &Vec<char>) -> (r: Option<SwanlingErrorMetricAggregate>)
    ensures
        forall|e0: SwanlingErrorMetricAggregate|
            s@ == enc_object(spec_error_entry_fields(e0)) ==> (match r {
                Some(e) => error_agg_eq(e, e0),
                None => false,
            }),
{
    let fs = match decode_object(s) {
        Some(fs) => fs,
        None => {
            proof {
                assert forall|e0: SwanlingErrorMetricAggregate|
                    s@ == enc_object(spec_error_entry_fields(e0)) implies false by {
                    lemma_object_round_trip(spec_error_entry_fields(e0));
                }
            }
            return None;
        },
    };
    proof {
        assert forall|e0: SwanlingErrorMetricAggregate|
            s@ == enc_object(spec_error_entry_fields(e0)) implies fields_view(fs@)
            == spec_error_entry_fields(e0) by {
            lemma_object_round_trip(spec_error_entry_fields(e0));
        }
    }
    if fs.len() != 4 {
        proof {
            assert forall|e0: SwanlingErrorMetricAggregate|
                fields_view(fs@) == spec_error_entry_fields(e0) implies false by {
                assert(spec_error_entry_fields(e0).len() == 4);
            }
        }
        return None;
    }
    if !(crate::logger::chars_match(&fs[0].0, "method") && crate::logger::chars_match(
        &fs[1].0,
        "name",
    ) && crate::logger::chars_match(&fs[2].0, "error") && crate::logger::chars_match(
        &fs[3].0,
        "occurrences",
    )) {
        proof {
            assert forall|e0: SwanlingErrorMetricAggregate|
                fields_view(fs@) == spec_error_entry_fields(e0) implies false by {
                assert(fields_view(fs@)[0] == spec_error_entry_fields(e0)[0]);
                assert(fields_view(fs@)[1] == spec_error_entry_fields(e0)[1]);
                assert(fields_view(fs@)[2] == spec_error_entry_fields(e0)[2]);
                assert(fields_view(fs@)[3] == spec_error_entry_fields(e0)[3]);
            }
        }
        return None;
    }
    let method = match &fs[0].1 {
        JsonScalar::Text(v) => match parse_method(v) {
            Some(m) => m,
            None => {
                proof {
                    assert forall|e0: SwanlingErrorMetricAggregate|
                        fields_view(fs@) == spec_error_entry_fields(e0) implies false by {
                        assert(fields_view(fs@)[0] == spec_error_entry_fields(e0)[0]);
                    }
                }
                return None;
            },
        },
        _ => {
            proof {
                assert forall|e0: SwanlingErrorMetricAggregate|
                    fields_view(fs@) == spec_error_entry_fields(e0) implies false by {
                    assert(fields_view(fs@)[0] == spec_error_entry_fields(e0)[0]);
                }
            }
            return None;
        },
    };
    let name = match &fs[1].1 {
        JsonScalar::Text(v) => util::chars_to_string(v),
        _ => {
            proof {
                assert forall|e0: SwanlingErrorMetricAggregate|
                    fields_view(fs@) == spec_error_entry_fields(e0) implies false by {
                    assert(fields_view(fs@)[1] == spec_error_entry_fields(e0)[1]);
                }
            }
            return None;
        },
    };
    let error = match &fs[2].1 {
        JsonScalar::Text(v) => util::chars_to_string(v),
        _ => {
            proof {
                assert forall|e0: SwanlingErrorMetricAggregate|
                    fields_view(fs@) == spec_error_entry_fields(e0) implies false by {
                    assert(fields_view(fs@)[2] == spec_error_entry_fields(e0)[2]);
                }
            }
            return None;
        },
    };
    let occurrences = match &fs[3].1 {
        JsonScalar::UInt(n) => *n,
        _ => {
            proof {
                assert forall|e0: SwanlingErrorMetricAggregate|
                    fields_view(fs@) == spec_error_entry_fields(e0) implies false by {
                    assert(fields_view(fs@)[3] == spec_error_entry_fields(e0)[3]);
                }
            }
            return None;
        },
    };
    let e = SwanlingErrorMetricAggregate { method, name, error, occurrences };
    proof {
        lemma_method_names_distinct();
        assert forall|e0: SwanlingErrorMetricAggregate|
            fields_view(fs@) == spec_error_entry_fields(e0) implies error_agg_eq(e, e0) by {
            assert(fields_view(fs@)[0] == spec_error_entry_fields(e0)[0]);
            assert(fields_view(fs@)[1] == spec_error_entry_fields(e0)[1]);
            assert(fields_view(fs@)[2] == spec_error_entry_fields(e0)[2]);
            assert(fields_view(fs@)[3] == spec_error_entry_fields(e0)[3]);
            assert(e.method.spec_name() == e0.method.spec_name());
            assert(e.method == e0.method) by {
                match (e.method, e0.method) {
                    _ => {},
                }
            }
        }
    }
    Some(e)
}

} // verus!
