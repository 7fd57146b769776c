//! Construction of the JSON object text that message bodies carry.
//!
//! Bodies are built directly as text, with a specification that pins the
//! output exactly: an object is written as `{"name":value,...}` with no
//! whitespace, and a field is present if and only if the caller supplied
//! it.  Objects are written with their fields in the order given by the
//! caller; the session layer lists them in lexicographic order, as the
//! reference serializer does.
//!
//! String values are escaped as the reference serializer escapes them:
//! quote and backslash with a backslash, the named control characters as
//! `\b`, `\t`, `\n`, `\f`, `\r`, and every other control character as
//! `\u00` plus two lowercase hex digits.  Every other character passes
//! through unchanged.

use vstd::prelude::*;
use crate::codec::hview;

verus! {

/// How one character is written inside a JSON string literal.
pub open spec fn json_escape_char(c: char) -> Seq<char> {
    if c == '"' {
        seq!['\\', '"']
    } else if c == '\\' {
        seq!['\\', '\\']
    } else if c == '\u{8}' {
        seq!['\\', 'b']
    } else if c == '\u{9}' {
        seq!['\\', 't']
    } else if c == '\u{a}' {
        seq!['\\', 'n']
    } else if c == '\u{c}' {
        seq!['\\', 'f']
    } else if c == '\u{d}' {
        seq!['\\', 'r']
    } else if (c as u32) < 0x20 {
        seq![
            '\\',
            'u',
            '0',
            '0',
            hex_digit(((c as u32) / 16) as nat),
            hex_digit(((c as u32) % 16) as nat),
        ]
    } else {
        seq![c]
    }
}

/// A whole string, escaped character by character.
pub open spec fn json_escaped(s: Seq<char>) -> Seq<char> {
    s.map_values(|c: char| json_escape_char(c)).flatten()
}

/// A JSON string literal: the escaped characters between two quotes.
pub open spec fn jstr(s: Seq<char>) -> Seq<char> {
    seq!['"'] + json_escaped(s) + seq!['"']
}

/// The lowercase hex digit the escape `\u00XY` uses.
pub open spec fn hex_digit(d: nat) -> char {
    if d < 10 {
        digit_char(d)
    } else if d == 10 {
        'a'
    } else if d == 11 {
        'b'
    } else if d == 12 {
        'c'
    } else if d == 13 {
        'd'
    } else if d == 14 {
        'e'
    } else {
        'f'
    }
}

/// A JSON boolean literal.
pub open spec fn jbool(b: bool) -> Seq<char> {
    if b {
        "true"@
    } else {
        "false"@
    }
}

/// The comma-separated field list of an object: `"name":value` pairs.
pub open spec fn spec_fields_text(fs: Seq<(Seq<char>, Seq<char>)>) -> Seq<char>
    decreases fs.len(),
{
    if fs.len() == 0 {
        Seq::empty()
    } else if fs.len() == 1 {
        jstr(fs[0].0) + seq![':'] + fs[0].1
    } else {
        jstr(fs[0].0) + seq![':'] + fs[0].1 + seq![','] + spec_fields_text(fs.drop_first())
    }
}

/// A whole JSON object.
pub open spec fn spec_obj(fs: Seq<(Seq<char>, Seq<char>)>) -> Seq<char> {
    seq!['{'] + spec_fields_text(fs) + seq!['}']
}

proof fn lemma_fields_text_push(fs: Seq<(Seq<char>, Seq<char>)>, f: (Seq<char>, Seq<char>))
    ensures
        spec_fields_text(fs.push(f)) == if fs.len() == 0 {
            jstr(f.0) + seq![':'] + f.1
        } else {
            spec_fields_text(fs) + seq![','] + (jstr(f.0) + seq![':'] + f.1)
        },
    decreases fs.len(),
{
    let p = fs.push(f);
    if fs.len() == 0 {
        assert(p.len() == 1);
        assert(p[0] == f);
    } else {
        assert(p[0] == fs[0]);
        assert(p.drop_first() =~= fs.drop_first().push(f));
        lemma_fields_text_push(fs.drop_first(), f);
        if fs.len() == 1 {
            assert(spec_fields_text(p) =~= spec_fields_text(fs) + seq![','] + (jstr(f.0) + seq![
                ':',
            ] + f.1));
        } else {
            assert(spec_fields_text(p) =~= spec_fields_text(fs) + seq![','] + (jstr(f.0) + seq![
                ':',
            ] + f.1));
        }
    }
}

proof fn lemma_json_escaped_push(s: Seq<char>, c: char)
    ensures
        json_escaped(s.push(c)) == json_escaped(s) + json_escape_char(c),
{
    let f = |c: char| json_escape_char(c);
    assert(s.push(c).map_values(f) =~= s.map_values(f).push(f(c)));
    s.map_values(f).lemma_flatten_push(f(c));
    assert(json_escaped(s.push(c)) =~= json_escaped(s) + json_escape_char(c));
}

fn hex_str(d: u32) -> (r: &'static str)
    requires
        d < 16,
    ensures
        r@ == seq![hex_digit(d as nat)],
{
    proof {
        reveal_strlit("0");
        reveal_strlit("1");
        reveal_strlit("2");
        reveal_strlit("3");
        reveal_strlit("4");
        reveal_strlit("5");
        reveal_strlit("6");
        reveal_strlit("7");
        reveal_strlit("8");
        reveal_strlit("9");
        reveal_strlit("a");
        reveal_strlit("b");
        reveal_strlit("c");
        reveal_strlit("d");
        reveal_strlit("e");
        reveal_strlit("f");
    }
    let r = match d {
        0 => "0",
        1 => "1",
        2 => "2",
        3 => "3",
        4 => "4",
        5 => "5",
        6 => "6",
        7 => "7",
        8 => "8",
        9 => "9",
        10 => "a",
        11 => "b",
        12 => "c",
        13 => "d",
        14 => "e",
        _ => "f",
    };
    proof {
        assert(r@ =~= seq![hex_digit(d as nat)]);
    }
    r
}

/// Writes a string value as a JSON string literal, escaped.
pub fn jstr_exec(s: &str) -> (r: String)
    ensures
        r@ == jstr(s@),
{
    proof {
        reveal_strlit("\"");
        reveal_strlit("\\\"");
        reveal_strlit("\\\\");
        reveal_strlit("\\b");
        reveal_strlit("\\t");
        reveal_strlit("\\n");
        reveal_strlit("\\f");
        reveal_strlit("\\r");
        reveal_strlit("\\u00");
        assert("\""@ =~= seq!['"']);
        assert("\\\""@ =~= seq!['\\', '"']);
        assert("\\\\"@ =~= seq!['\\', '\\']);
        assert("\\b"@ =~= seq!['\\', 'b']);
        assert("\\t"@ =~= seq!['\\', 't']);
        assert("\\n"@ =~= seq!['\\', 'n']);
        assert("\\f"@ =~= seq!['\\', 'f']);
        assert("\\r"@ =~= seq!['\\', 'r']);
        assert("\\u00"@ =~= seq!['\\', 'u', '0', '0']);
    }
    let mut out = String::new();
    out.append("\"");
    proof {
        assert(Seq::<char>::empty().map_values(|c: char| json_escape_char(c)) =~= Seq::<
            Seq<char>,
        >::empty());
        assert(Seq::<Seq<char>>::empty().flatten() =~= Seq::<char>::empty());
        assert(s@.take(0) =~= Seq::<char>::empty());
        assert(out@ =~= seq!['"'] + json_escaped(s@.take(0)));
    }
    let n = s.unicode_len();
    let mut i: usize = 0;
    while i < n
        invariant
            n == s@.len(),
            0 <= i <= n,
            "\""@ == seq!['"'],
            "\\\""@ == seq!['\\', '"'],
            "\\\\"@ == seq!['\\', '\\'],
            "\\b"@ == seq!['\\', 'b'],
            "\\t"@ == seq!['\\', 't'],
            "\\n"@ == seq!['\\', 'n'],
            "\\f"@ == seq!['\\', 'f'],
            "\\r"@ == seq!['\\', 'r'],
            "\\u00"@ == seq!['\\', 'u', '0', '0'],
            out@ == seq!['"'] + json_escaped(s@.take(i as int)),
        decreases n - i,
    {
        let c = s.get_char(i);
        if c == '"' {
            out.append("\\\"");
        } else if c == '\\' {
            out.append("\\\\");
        } else if c == '\u{8}' {
            out.append("\\b");
        } else if c == '\u{9}' {
            out.append("\\t");
        } else if c == '\u{a}' {
            out.append("\\n");
        } else if c == '\u{c}' {
            out.append("\\f");
        } else if c == '\u{d}' {
            out.append("\\r");
        } else if (c as u32) < 0x20 {
            out.append("\\u00");
            let v = c as u32;
            out.append(hex_str(v / 16));
            out.append(hex_str(v % 16));
        } else {
            out.append(s.substring_char(i, i + 1));
            proof {
                assert(s@.subrange(i as int, i as int + 1) =~= seq![s@[i as int]]);
            }
        }
        proof {
            lemma_json_escaped_push(s@.take(i as int), s@[i as int]);
            assert(s@.take(i as int).push(s@[i as int]) =~= s@.take(i as int + 1));
            assert(out@ =~= seq!['"'] + json_escaped(s@.take(i as int + 1)));
        }
        i = i + 1;
    }
    out.append("\"");
    proof {
        assert(s@.take(n as int) =~= s@);
        assert(out@ =~= jstr(s@));
    }
    out
}

/// The text of a boolean value.
pub fn jbool_exec(b: bool) -> (r: &'static str)
    ensures
        r@ == jbool(b),
{
    if b {
        "true"
    } else {
        "false"
    }
}

/// Serializes an object from its ordered field list.
pub fn build_object(fields: &Vec<(String, String)>) -> (r: String)
    ensures
        r@ == spec_obj(hview(fields@)),
{
    proof {
        reveal_strlit("{");
        reveal_strlit("}");
        reveal_strlit(":");
        reveal_strlit(",");
        assert("{"@ =~= seq!['{']);
        assert("}"@ =~= seq!['}']);
        assert(":"@ =~= seq![':']);
        assert(","@ =~= seq![',']);
    }
    let mut out = String::new();
    out.append("{");
    let n = fields.len();
    let mut i: usize = 0;
    while i < n
        invariant
            n == fields.len(),
            0 <= i <= n,
            "{"@ == seq!['{'],
            ":"@ == seq![':'],
            ","@ == seq![','],
            out@ == seq!['{'] + spec_fields_text(hview(fields@).take(i as int)),
        decreases n - i,
    {
        if i > 0 {
            out.append(",");
        }
        let quoted = jstr_exec(fields[i].0.as_str());
        out.append(quoted.as_str());
        out.append(":");
        out.append(fields[i].1.as_str());
        proof {
            let hv = hview(fields@);
            lemma_fields_text_push(hv.take(i as int), hv[i as int]);
            assert(hv.take(i as int).push(hv[i as int]) =~= hv.take(i as int + 1));
            assert(out@ =~= seq!['{'] + spec_fields_text(hv.take(i as int + 1)));
        }
        i = i + 1;
    }
    out.append("}");
    proof {
        assert(hview(fields@).take(n as int) =~= hview(fields@));
        assert(out@ =~= spec_obj(hview(fields@)));
    }
    out
}

/// What `dec_digits` writes for the digit `d`.
pub open spec fn digit_char(d: nat) -> char {
    if d == 0 {
        '0'
    } else if d == 1 {
        '1'
    } else if d == 2 {
        '2'
    } else if d == 3 {
        '3'
    } else if d == 4 {
        '4'
    } else if d == 5 {
        '5'
    } else if d == 6 {
        '6'
    } else if d == 7 {
        '7'
    } else if d == 8 {
        '8'
    } else {
        '9'
    }
}

/// The decimal digit string of a natural number, most significant digit
/// first.
pub open spec fn dec_digits(n: nat) -> Seq<char>
    decreases n,
{
    if n < 10 {
        seq![digit_char(n)]
    } else {
        dec_digits(n / 10) + seq![digit_char(n % 10)]
    }
}

/// A nonempty string of decimal digits.
pub open spec fn is_dec_string(s: Seq<char>) -> bool {
    s.len() > 0 && forall|i: int| 0 <= i < s.len() ==> '0' <= #[trigger] s[i] <= '9'
}

/// Every decimal digit string is one.
pub proof fn lemma_dec_digits_is_dec_string(n: nat)
    ensures
        is_dec_string(dec_digits(n)),
    decreases n,
{
    if n >= 10 {
        lemma_dec_digits_is_dec_string(n / 10);
        assert forall|i: int| 0 <= i < dec_digits(n).len() implies '0' <= #[trigger] dec_digits(
            n,
        )[i] <= '9' by {
            if i < dec_digits(n / 10).len() {
                assert(dec_digits(n)[i] == dec_digits(n / 10)[i]);
            }
        }
    }
}

fn digit_str(d: u64) -> (r: &'static str)
    requires
        d < 10,
    ensures
        r@ == seq![digit_char(d as nat)],
{
    proof {
        reveal_strlit("0");
        reveal_strlit("1");
        reveal_strlit("2");
        reveal_strlit("3");
        reveal_strlit("4");
        reveal_strlit("5");
        reveal_strlit("6");
        reveal_strlit("7");
        reveal_strlit("8");
        reveal_strlit("9");
    }
    let r = match d {
        0 => "0",
        1 => "1",
        2 => "2",
        3 => "3",
        4 => "4",
        5 => "5",
        6 => "6",
        7 => "7",
        8 => "8",
        _ => "9",
    };
    proof {
        assert(r@ =~= seq![digit_char(d as nat)]);
    }
    r
}

/// Writes a number in decimal, for the `X-Timestamp` header.
pub fn u64_to_dec(n: u64) -> (r: String)
    ensures
        r@ == dec_digits(n as nat),
    decreases n,
{
    if n < 10 {
        digit_str(n).to_owned()
    } else {
        let mut s = u64_to_dec(n / 10);
        s.append(digit_str(n % 10));
        s
    }
}

} // verus!
