//! The frame codec: serializing a message to one transport frame and
//! parsing a received frame back into headers and body.
//!
//! Wire shape of a text frame: each header is written as `Name: Value`
//! followed by a carriage-return-line-feed pair, in the given order; a body,
//! when present, follows after one further (blank-line) pair.  A frame
//! without that blank line carries no body at all, which is distinct from a
//! blank line followed by nothing — an empty body.  A binary frame starts
//! with the same header block as UTF-8 bytes, up to and including the blank
//! line, after which the remaining bytes are the payload verbatim.
//!
//! Decoding splits at the first blank line; every header line must contain
//! exactly one colon-space separator, and the required headers `X-RequestId`
//! and `Path` must be present, else the frame is rejected as a single
//! "frame parse failure" — a malformed frame is never decoded partially.

use vstd::prelude::*;
use vstd::utf8::*;
use crate::ProtocolError;
use crate::message::{Data, DataView, Message, MessageView, spec_get_header, spec_has_header, str_eq};

verus! {

/// A header name: a nonempty token without colon, carriage return or line
/// feed.
pub open spec fn wf_header_name(n: Seq<char>) -> bool {
    n.len() > 0 && forall|i: int| 0 <= i < n.len() ==> n[i] != ':' && n[i] != '\r' && n[i] != '\n'
}

/// The colon-space separator stands at index `i` of `s`.
pub open spec fn sep_at(s: Seq<char>, i: int) -> bool {
    0 <= i && i + 2 <= s.len() && s[i] == ':' && s[i + 1] == ' '
}

/// A header value: free of carriage returns, line feeds, and colon-space
/// pairs, so that the line it stands on keeps exactly one separator.
pub open spec fn wf_header_value(v: Seq<char>) -> bool {
    (forall|i: int| 0 <= i < v.len() ==> v[i] != '\r' && v[i] != '\n') && (forall|i: int|
        !sep_at(v, i))
}

/// Every header of the list is well-formed.
pub open spec fn wf_headers(hs: Seq<(Seq<char>, Seq<char>)>) -> bool {
    forall|i: int|
        0 <= i < hs.len() ==> wf_header_name(#[trigger] hs[i].0) && wf_header_value(hs[i].1)
}

/// One header line, line terminator included.
pub open spec fn spec_header_line(n: Seq<char>, v: Seq<char>) -> Seq<char> {
    n + seq![':', ' '] + v + seq!['\r', '\n']
}

/// The header block: every line in order.
pub open spec fn spec_header_block(hs: Seq<(Seq<char>, Seq<char>)>) -> Seq<char>
    decreases hs.len(),
{
    if hs.len() == 0 {
        Seq::empty()
    } else {
        spec_header_line(hs[0].0, hs[0].1) + spec_header_block(hs.drop_first())
    }
}

/// A whole text frame: the header block, then — only when a body is
/// present — a blank line and the body.
pub open spec fn spec_encode(hs: Seq<(Seq<char>, Seq<char>)>, body: Option<Seq<char>>) -> Seq<
    char,
> {
    match body {
        None => spec_header_block(hs),
        Some(b) => spec_header_block(hs) + seq!['\r', '\n'] + b,
    }
}

/// The first index at or after `i` where a carriage-return-line-feed pair
/// starts, or -1.
pub open spec fn first_crlf_from(s: Seq<char>, i: int) -> int
    decreases s.len() - i when 0 <= i <= s.len()
{
    if i + 2 > s.len() {
        -1
    } else if s[i] == '\r' && s[i + 1] == '\n' {
        i
    } else {
        first_crlf_from(s, i + 1)
    }
}

/// The first index at or after `i` where the colon-space separator starts,
/// or -1.
pub open spec fn first_sep_from(s: Seq<char>, i: int) -> int
    decreases s.len() - i when 0 <= i <= s.len()
{
    if i + 2 > s.len() {
        -1
    } else if s[i] == ':' && s[i + 1] == ' ' {
        i
    } else {
        first_sep_from(s, i + 1)
    }
}

/// Splits one header line (terminator already removed) at its separator;
/// `None` unless the line holds exactly one colon-space separator.
pub open spec fn spec_parse_line(line: Seq<char>) -> Option<(Seq<char>, Seq<char>)> {
    let i = first_sep_from(line, 0);
    if i < 0 || i + 2 > line.len() {
        None
    } else if first_sep_from(line, i + 1) >= 0 {
        None
    } else {
        Some((line.subrange(0, i), line.subrange(i + 2, line.len() as int)))
    }
}

/// Parses the frame text from position `pos` on: the list of remaining
/// headers and the body, or `None` for a malformed header block.
pub open spec fn spec_parse_headers_from(s: Seq<char>, pos: int) -> Option<
    (Seq<(Seq<char>, Seq<char>)>, Option<Seq<char>>),
>
    decreases s.len() - pos when 0 <= pos <= s.len()
{
    if pos >= s.len() {
        Some((Seq::empty(), None))
    } else if pos + 2 <= s.len() && s[pos] == '\r' && s[pos + 1] == '\n' {
        Some((Seq::empty(), Some(s.subrange(pos + 2, s.len() as int))))
    } else {
        let j = first_crlf_from(s, pos);
        if j < pos || j + 2 > s.len() {
            None
        } else {
            match spec_parse_line(s.subrange(pos, j)) {
                None => None,
                Some(nv) => match spec_parse_headers_from(s, j + 2) {
                    None => None,
                    Some(rest) => Some((seq![nv] + rest.0, rest.1)),
                },
            }
        }
    }
}

/// What decoding a whole text frame yields.
pub open spec fn spec_parse_frame(s: Seq<char>) -> Option<
    (Seq<(Seq<char>, Seq<char>)>, Option<Seq<char>>),
> {
    spec_parse_headers_from(s, 0)
}

// ---------------------------------------------------------------------------
// Round trip: decoding the output of encoding returns the original pair.
// ---------------------------------------------------------------------------
proof fn lemma_first_crlf_finds(s: Seq<char>, from: int, j: int)
    requires
        0 <= from <= j,
        j + 2 <= s.len(),
        forall|k: int| from <= k < j ==> s[k] != '\r',
        s[j] == '\r',
        s[j + 1] == '\n',
    ensures
        first_crlf_from(s, from) == j,
    decreases j - from,
{
    if from < j {
        lemma_first_crlf_finds(s, from + 1, j);
    }
}

proof fn lemma_first_sep_finds(s: Seq<char>, from: int, j: int)
    requires
        0 <= from <= j,
        j + 2 <= s.len(),
        forall|k: int| from <= k < j ==> s[k] != ':',
        s[j] == ':',
        s[j + 1] == ' ',
    ensures
        first_sep_from(s, from) == j,
    decreases j - from,
{
    if from < j {
        lemma_first_sep_finds(s, from + 1, j);
    }
}

proof fn lemma_first_sep_none(s: Seq<char>, from: int)
    requires
        0 <= from <= s.len(),
        forall|k: int| from <= k ==> !sep_at(s, k),
    ensures
        first_sep_from(s, from) == -1,
    decreases s.len() - from,
{
    if from + 2 <= s.len() {
        assert(!sep_at(s, from));
        lemma_first_sep_none(s, from + 1);
    }
}

proof fn lemma_parse_header_line(n: Seq<char>, v: Seq<char>)
    requires
        wf_header_name(n),
        wf_header_value(v),
    ensures
        spec_parse_line(n + seq![':', ' '] + v) == Some((n, v)),
{
    let line = n + seq![':', ' '] + v;
    let p = n.len() as int;
    assert(line[p] == ':');
    assert(line[p + 1] == ' ');
    lemma_first_sep_finds(line, 0, p);
    assert forall|k: int| p + 1 <= k implies !sep_at(line, k) by {
        if p + 1 <= k && k + 2 <= line.len() {
            if k == p + 1 {
                assert(line[k] == ' ');
            } else {
                assert(line[k] == v[k - p - 2]);
                assert(line[k + 1] == v[k - p - 1]);
                assert(!sep_at(v, k - p - 2));
            }
        }
    }
    lemma_first_sep_none(line, p + 1);
    assert(line.subrange(0, p) =~= n);
    assert(line.subrange(p + 2, line.len() as int) =~= v);
}

proof fn lemma_round_trip_from(s: Seq<char>, pos: int, hs: Seq<(Seq<char>, Seq<char>)>, body: Option<Seq<char>>)
    requires
        0 <= pos <= s.len(),
        s.subrange(pos, s.len() as int) == spec_encode(hs, body),
        wf_headers(hs),
    ensures
        spec_parse_headers_from(s, pos) == Some((hs, body)),
    decreases hs.len(),
{
    let suffix = s.subrange(pos, s.len() as int);
    if hs.len() == 0 {
        match body {
            None => {
                assert(suffix.len() == 0);
            },
            Some(b) => {
                assert(spec_header_block(hs) =~= Seq::<char>::empty());
                assert(suffix =~= seq!['\r', '\n'] + b);
                assert(s[pos] == suffix[0] && suffix[0] == '\r');
                assert(s[pos + 1] == suffix[1] && suffix[1] == '\n');
                let b2 = s.subrange(pos + 2, s.len() as int);
                assert(b2 =~= b) by {
                    assert forall|k: int| 0 <= k < b.len() implies b2[k] == b[k] by {
                        assert(b2[k] == s[pos + 2 + k]);
                        assert(s[pos + 2 + k] == suffix[2 + k]);
                    }
                }
            },
        }
    } else {
        let n = hs[0].0;
        let v = hs[0].1;
        let line = spec_header_line(n, v);
        let rest = spec_encode(hs.drop_first(), body);
        assert(spec_header_block(hs) == line + spec_header_block(hs.drop_first()));
        assert(suffix =~= line + rest) by {
            match body {
                None => {},
                Some(b) => {
                    assert(suffix == (line + spec_header_block(hs.drop_first())) + seq![
                        '\r',
                        '\n',
                    ] + b);
                },
            }
        }
        assert(wf_header_name(n) && wf_header_value(v));
        // the line end is the first carriage-return-line-feed pair
        let j = pos + n.len() + 2 + v.len();
        assert forall|k: int| pos <= k < j implies s[k] != '\r' by {
            assert(s[k] == suffix[k - pos]);
            let li = k - pos;
            if li < n.len() {
                assert(suffix[li] == n[li]);
            } else if li == n.len() {
                assert(suffix[li] == ':');
            } else if li == n.len() + 1 {
                assert(suffix[li] == ' ');
            } else {
                assert(suffix[li] == v[li - n.len() - 2]);
            }
        }
        assert(s[j] == suffix[j - pos] && suffix[j - pos] == '\r');
        assert(s[j + 1] == suffix[j + 1 - pos] && suffix[j + 1 - pos] == '\n');
        lemma_first_crlf_finds(s, pos, j);
        assert(s.subrange(pos, j) =~= n + seq![':', ' '] + v) by {
            assert forall|k: int| 0 <= k < j - pos implies s.subrange(pos, j)[k] == (n + seq![
                ':',
                ' ',
            ] + v)[k] by {
                assert(s.subrange(pos, j)[k] == s[pos + k]);
                assert(s[pos + k] == suffix[k]);
                assert(suffix[k] == line[k]);
            }
        }
        lemma_parse_header_line(n, v);
        assert(s.subrange(j + 2, s.len() as int) =~= rest) by {
            assert forall|k: int| 0 <= k < rest.len() implies s.subrange(j + 2, s.len() as int)[k]
                == rest[k] by {
                assert(s.subrange(j + 2, s.len() as int)[k] == s[j + 2 + k]);
                assert(s[j + 2 + k] == suffix[j + 2 + k - pos]);
                assert(suffix[j + 2 + k - pos] == (line + rest)[line.len() + k]);
            }
        }
        assert(wf_headers(hs.drop_first())) by {
            assert forall|i: int|
                0 <= i < hs.drop_first().len() implies wf_header_name(
                #[trigger] hs.drop_first()[i].0,
            ) && wf_header_value(hs.drop_first()[i].1) by {
                assert(hs.drop_first()[i] == hs[i + 1]);
            }
        }
        lemma_round_trip_from(s, j + 2, hs.drop_first(), body);
        // the header line parsed here, put back in front of the rest
        assert(s[pos] == n[0]);
        assert(n[0] != '\r');
        let parsed = spec_parse_headers_from(s, pos);
        assert(parsed matches Some(r) && r.0 == seq![(n, v)] + hs.drop_first() && r.1 == body);
        assert(seq![(n, v)] + hs.drop_first() =~= hs);
    }
}

/// Law: decoding the output of encoding any well-formed (headers, body)
/// pair returns the original headers, in the same order, and the original
/// body.
pub proof fn lemma_encode_decode_round_trip(hs: Seq<(Seq<char>, Seq<char>)>, body: Option<Seq<char>>)
    requires
        wf_headers(hs),
    ensures
        spec_parse_frame(spec_encode(hs, body)) == Some((hs, body)),
{
    let s = spec_encode(hs, body);
    assert(s.subrange(0, s.len() as int) =~= s);
    lemma_round_trip_from(s, 0, hs, body);
}

// ---------------------------------------------------------------------------
// Executable encoding
// ---------------------------------------------------------------------------
/// The view of an executable header list.
pub open spec fn hview(hs: Seq<(String, String)>) -> Seq<(Seq<char>, Seq<char>)> {
    hs.map_values(|p: (String, String)| (p.0@, p.1@))
}

proof fn lemma_header_block_push(hs: Seq<(Seq<char>, Seq<char>)>, nv: (Seq<char>, Seq<char>))
    ensures
        spec_header_block(hs.push(nv)) == spec_header_block(hs) + spec_header_line(nv.0, nv.1),
    decreases hs.len(),
{
    if hs.len() == 0 {
        let p = hs.push(nv);
        assert(p[0] == nv);
        assert(p.drop_first() =~= Seq::<(Seq<char>, Seq<char>)>::empty());
        assert(spec_header_block(p.drop_first()) =~= Seq::<char>::empty());
        assert(spec_header_block(p) =~= spec_header_line(nv.0, nv.1));
        assert(spec_header_block(hs) + spec_header_line(nv.0, nv.1) =~= spec_header_line(
            nv.0,
            nv.1,
        ));
    } else {
        assert(hs.push(nv).drop_first() =~= hs.drop_first().push(nv));
        lemma_header_block_push(hs.drop_first(), nv);
        assert(hs.push(nv)[0] == hs[0]);
        assert(spec_header_block(hs.push(nv)) =~= spec_header_block(hs) + spec_header_line(
            nv.0,
            nv.1,
        ));
    }
}

/// Serializes a header list and an optional text body into one text frame.
pub fn encode_text_frame(headers: &Vec<(String, String)>, body: Option<&str>) -> (r: String)
    ensures
        r@ == spec_encode(
            hview(headers@),
            match body {
                Some(b) => Some(b@),
                None => None,
            },
        ),
{
    proof {
        reveal_strlit(": ");
        reveal_strlit("\r\n");
        assert(": "@ =~= seq![':', ' ']);
        assert("\r\n"@ =~= seq!['\r', '\n']);
    }
    let mut out = String::new();
    let n = headers.len();
    let mut i: usize = 0;
    while i < n
        invariant
            n == headers.len(),
            0 <= i <= n,
            ": "@ == seq![':', ' '],
            "\r\n"@ == seq!['\r', '\n'],
            out@ == spec_header_block(hview(headers@).take(i as int)),
        decreases n - i,
    {
        out.append(headers[i].0.as_str());
        out.append(": ");
        out.append(headers[i].1.as_str());
        out.append("\r\n");
        proof {
            let hv = hview(headers@);
            lemma_header_block_push(hv.take(i as int), hv[i as int]);
            assert(hv.take(i as int).push(hv[i as int]) =~= hv.take(i as int + 1));
            assert(out@ =~= spec_header_block(hv.take(i as int)) + spec_header_line(
                hv[i as int].0,
                hv[i as int].1,
            ));
        }
        i = i + 1;
    }
    proof {
        assert(hview(headers@).take(n as int) =~= hview(headers@));
    }
    match body {
        Some(b) => {
            out.append("\r\n");
            out.append(b);
        },
        None => {},
    }
    out
}

// ---------------------------------------------------------------------------
// Executable decoding
// ---------------------------------------------------------------------------
fn find_crlf(s: &str, from: usize) -> (r: Option<usize>)
    requires
        from <= s@.len(),
    ensures
        match r {
            Some(j) => first_crlf_from(s@, from as int) == j && from <= j && j + 2 <= s@.len(),
            None => first_crlf_from(s@, from as int) == -1,
        },
{
    let n = s.unicode_len();
    let mut i = from;
    loop
        invariant
            n == s@.len(),
            from <= i <= n,
            first_crlf_from(s@, from as int) == first_crlf_from(s@, i as int),
        decreases n - i,
    {
        if n < 2 || i > n - 2 {
            return None;
        }
        if s.get_char(i) == '\r' && s.get_char(i + 1) == '\n' {
            return Some(i);
        }
        i = i + 1;
    }
}

fn find_sep(s: &str, from: usize) -> (r: Option<usize>)
    requires
        from <= s@.len(),
    ensures
        match r {
            Some(j) => first_sep_from(s@, from as int) == j && from <= j && j + 2 <= s@.len(),
            None => first_sep_from(s@, from as int) == -1,
        },
{
    let n = s.unicode_len();
    let mut i = from;
    loop
        invariant
            n == s@.len(),
            from <= i <= n,
            first_sep_from(s@, from as int) == first_sep_from(s@, i as int),
        decreases n - i,
    {
        if n < 2 || i > n - 2 {
            return None;
        }
        if s.get_char(i) == ':' && s.get_char(i + 1) == ' ' {
            return Some(i);
        }
        i = i + 1;
    }
}

/// Splits one header line at its single colon-space separator.
fn parse_header_line(line: &str) -> (r: Option<(String, String)>)
    ensures
        match r {
            Some(nv) => spec_parse_line(line@) == Some((nv.0@, nv.1@)),
            None => spec_parse_line(line@) is None,
        },
{
    let n = line.unicode_len();
    match find_sep(line, 0) {
        None => None,
        Some(i) => {
            match find_sep(line, i + 1) {
                Some(_) => None,
                None => {
                    let name = line.substring_char(0, i).to_owned();
                    let value = line.substring_char(i + 2, n).to_owned();
                    Some((name, value))
                },
            }
        },
    }
}

/// Parses a whole text frame into its header list and optional body.
pub fn parse_text_frame(frame: &str) -> (r: Result<(Vec<(String, String)>, Option<String>), ProtocolError>)
    ensures
        match r {
            Ok(p) => spec_parse_frame(frame@) == Some(
                (
                    hview(p.0@),
                    match p.1 {
                        Some(b) => Some(b@),
                        None => None,
                    },
                ),
            ),
            Err(e) => spec_parse_frame(frame@) is None && e is FrameParse,
        },
{
    let n = frame.unicode_len();
    let mut pos: usize = 0;
    let mut headers: Vec<(String, String)> = Vec::new();
    loop
        invariant
            pos <= n == frame@.len(),
            match spec_parse_headers_from(frame@, pos as int) {
                None => spec_parse_frame(frame@) is None,
                Some(rest) => spec_parse_frame(frame@) == Some(
                    (hview(headers@) + rest.0, rest.1),
                ),
            },
        decreases n - pos,
    {
        if pos >= n {
            proof {
                assert(hview(headers@) + Seq::<(Seq<char>, Seq<char>)>::empty() =~= hview(
                    headers@,
                ));
            }
            return Ok((headers, None));
        }
        if n >= 2 && pos <= n - 2 && frame.get_char(pos) == '\r' && frame.get_char(pos + 1)
            == '\n' {
            let body = frame.substring_char(pos + 2, n).to_owned();
            proof {
                assert(hview(headers@) + Seq::<(Seq<char>, Seq<char>)>::empty() =~= hview(
                    headers@,
                ));
            }
            return Ok((headers, Some(body)));
        }
        let j = match find_crlf(frame, pos) {
            None => {
                return Err(ProtocolError::FrameParse);
            },
            Some(j) => j,
        };
        let line = frame.substring_char(pos, j);
        let nv = match parse_header_line(line) {
            None => {
                return Err(ProtocolError::FrameParse);
            },
            Some(nv) => nv,
        };
        let ghost old_headers = headers@;
        headers.push(nv);
        proof {
            assert(hview(headers@) =~= hview(old_headers).push((headers@[headers@.len() - 1].0@, headers@[headers@.len() - 1].1@)));
            match spec_parse_headers_from(frame@, j as int + 2) {
                None => {},
                Some(rest) => {
                    let nvv = (headers@[headers@.len() - 1].0@, headers@[headers@.len() - 1].1@);
                    assert(hview(old_headers) + (seq![nvv] + rest.0) =~= hview(headers@) + rest.0);
                },
            }
        }
        pos = j + 2;
    }
}

/// Looks up the value of the first header named `name`, as an owned copy.
fn lookup_header(headers: &Vec<(String, String)>, name: &str) -> (r: Option<String>)
    ensures
        match r {
            Some(v) => spec_get_header(hview(headers@), name@) == Some(v@),
            None => spec_get_header(hview(headers@), name@) is None,
        },
{
    let n = headers.len();
    let mut i: usize = 0;
    proof {
        assert(hview(headers@).skip(0) =~= hview(headers@));
    }
    while i < n
        invariant
            n == headers.len(),
            0 <= i <= n,
            spec_get_header(hview(headers@), name@) == spec_get_header(
                hview(headers@).skip(i as int),
                name@,
            ),
        decreases n - i,
    {
        proof {
            assert(hview(headers@).skip(i as int).drop_first() =~= hview(headers@).skip(
                i as int + 1,
            ));
            assert(hview(headers@).skip(i as int)[0] == hview(headers@)[i as int]);
        }
        if str_eq(headers[i].0.as_str(), name) {
            return Some(headers[i].1.clone());
        }
        i = i + 1;
    }
    proof {
        assert(hview(headers@).skip(n as int) =~= Seq::<(Seq<char>, Seq<char>)>::empty());
    }
    None
}

/// What a successful decode of a parsed (headers, body) pair looks like:
/// the message keeps the headers in order and the body as given, and its
/// `id` and `path` fields carry the two required headers' values.
pub open spec fn decoded_message(
    m: MessageView,
    hs: Seq<(Seq<char>, Seq<char>)>,
    data: DataView,
) -> bool {
    &&& m.headers == hs
    &&& m.data == data
    &&& spec_get_header(hs, "X-RequestId"@) == Some(m.id)
    &&& spec_get_header(hs, "Path"@) == Some(m.path)
}

/// Builds the [`Message`] for a parsed header list and body, rejecting a
/// frame that misses `X-RequestId` or `Path`.
fn finish_message(headers: Vec<(String, String)>, data: Data) -> (r: Result<Message, ProtocolError>)
    ensures
        match r {
            Ok(m) => decoded_message(m@, hview(headers@), data@) && spec_has_header(
                hview(headers@),
                "X-RequestId"@,
            ) && spec_has_header(hview(headers@), "Path"@),
            Err(e) => e is FrameParse && !(spec_has_header(hview(headers@), "X-RequestId"@)
                && spec_has_header(hview(headers@), "Path"@)),
        },
{
    let id = match lookup_header(&headers, "X-RequestId") {
        None => {
            return Err(ProtocolError::FrameParse);
        },
        Some(v) => v,
    };
    let path = match lookup_header(&headers, "Path") {
        None => {
            return Err(ProtocolError::FrameParse);
        },
        Some(v) => v,
    };
    Ok(Message { id, path, headers, data })
}

/// Serializes a header list and a binary payload into one binary frame:
/// the header block and blank line as UTF-8 bytes, then the payload
/// verbatim.
pub fn encode_binary_frame(headers: &Vec<(String, String)>, payload: &Vec<u8>) -> (r: Vec<u8>)
    ensures
        r@ == encode_utf8(spec_encode(hview(headers@), Some(Seq::empty()))) + payload@,
{
    proof {
        reveal_strlit("");
    }
    let head = encode_text_frame(headers, Some(""));
    let mut out = head.as_str().as_bytes_vec();
    let ghost head_bytes = out@;
    let n = payload.len();
    let mut i: usize = 0;
    while i < n
        invariant
            n == payload@.len(),
            0 <= i <= n,
            out@ == head_bytes + payload@.subrange(0, i as int),
        decreases n - i,
    {
        let b = payload[i];
        out.push(b);
        proof {
            assert(out@ =~= head_bytes + payload@.subrange(0, i as int + 1));
        }
        i = i + 1;
    }
    proof {
        assert(payload@.subrange(0, n as int) =~= payload@);
        assert(head_bytes == encode_utf8(spec_encode(hview(headers@), Some(""@))));
        assert(""@ =~= Seq::<char>::empty());
    }
    out
}

/// Relies on String::from_utf8: `Some` exactly on valid UTF-8 input, and
/// the returned string's characters are the input bytes' decoding.
#[verifier::external_body]
pub(crate) fn string_from_utf8(v: Vec<u8>) -> (r: Option<String>)
    ensures
        r is Some <==> valid_utf8(v@),
        r matches Some(s) ==> s@ == decode_utf8(v@),
{
    String::from_utf8(v).ok()
}

/// The first index at or after `i` where the four-byte blank-line
/// terminator of a binary frame's header block starts, or -1.
pub open spec fn first_blank_from(bs: Seq<u8>, i: int) -> int
    decreases bs.len() - i when 0 <= i <= bs.len()
{
    if i + 4 > bs.len() {
        -1
    } else if bs[i] == 13 && bs[i + 1] == 10 && bs[i + 2] == 13 && bs[i + 3] == 10 {
        i
    } else {
        first_blank_from(bs, i + 1)
    }
}

/// What decoding a binary frame yields: the headers parsed from the UTF-8
/// prefix up to the blank line, and the remaining bytes verbatim.
pub open spec fn spec_parse_binary(bs: Seq<u8>) -> Option<
    (Seq<(Seq<char>, Seq<char>)>, Seq<u8>),
> {
    let p = first_blank_from(bs, 0);
    if p < 0 || p + 4 > bs.len() {
        None
    } else {
        let prefix = bs.subrange(0, p + 2);
        if !valid_utf8(prefix) {
            None
        } else {
            match spec_parse_headers_from(decode_utf8(prefix), 0) {
                None => None,
                Some(r) => if r.1 is Some {
                    None
                } else {
                    Some((r.0, bs.subrange(p + 4, bs.len() as int)))
                },
            }
        }
    }
}

fn find_blank(bs: &Vec<u8>, from: usize) -> (r: Option<usize>)
    requires
        from <= bs@.len(),
    ensures
        match r {
            Some(j) => first_blank_from(bs@, from as int) == j && from <= j && j + 4 <= bs@.len(),
            None => first_blank_from(bs@, from as int) == -1,
        },
{
    let n = bs.len();
    let mut i = from;
    loop
        invariant
            n == bs@.len(),
            from <= i <= n,
            first_blank_from(bs@, from as int) == first_blank_from(bs@, i as int),
        decreases n - i,
    {
        if n < 4 || i > n - 4 {
            return None;
        }
        if bs[i] == 13 && bs[i + 1] == 10 && bs[i + 2] == 13 && bs[i + 3] == 10 {
            return Some(i);
        }
        i = i + 1;
    }
}

fn copy_byte_range(bs: &Vec<u8>, from: usize, to: usize) -> (r: Vec<u8>)
    requires
        from <= to <= bs@.len(),
    ensures
        r@ == bs@.subrange(from as int, to as int),
{
    let mut out: Vec<u8> = Vec::new();
    let mut i = from;
    while i < to
        invariant
            from <= i <= to <= bs@.len(),
            out@ == bs@.subrange(from as int, i as int),
        decreases to - i,
    {
        let b = bs[i];
        out.push(b);
        proof {
            assert(out@ =~= bs@.subrange(from as int, i as int + 1));
        }
        i = i + 1;
    }
    out
}

/// Decodes one binary frame: the header block is the UTF-8 prefix up to
/// the blank line, the payload is everything after it, verbatim.  The
/// required headers must be present; a malformed or non-UTF-8 header block
/// is a frame-parse failure, and the frame is never decoded partially.
pub fn decode_binary_frame(bytes: &Vec<u8>) -> (r: Result<Message, ProtocolError>)
    ensures
        match r {
            Ok(m) => spec_parse_binary(bytes@) matches Some(p) && decoded_message(
                m@,
                p.0,
                DataView::Binary(p.1),
            ),
            Err(e) => e is FrameParse && match spec_parse_binary(bytes@) {
                None => true,
                Some(p) => !(spec_has_header(p.0, "X-RequestId"@) && spec_has_header(
                    p.0,
                    "Path"@,
                )),
            },
        },
{
    let n = bytes.len();
    let p = match find_blank(bytes, 0) {
        None => {
            return Err(ProtocolError::FrameParse);
        },
        Some(p) => p,
    };
    proof {
        assert(p + 4 <= n);
    }
    let prefix = copy_byte_range(bytes, 0, p + 2);
    let header_text = match string_from_utf8(prefix) {
        None => {
            return Err(ProtocolError::FrameParse);
        },
        Some(s) => s,
    };
    let (headers, body) = match parse_text_frame(header_text.as_str()) {
        Err(_) => {
            return Err(ProtocolError::FrameParse);
        },
        Ok(pr) => pr,
    };
    if body.is_some() {
        return Err(ProtocolError::FrameParse);
    }
    let payload = copy_byte_range(bytes, p + 4, n);
    finish_message(headers, Data::Binary(payload))
}

/// Decodes one text frame: parses the header block and body and requires
/// `X-RequestId` and `Path` to be present.  A malformed frame yields a
/// frame-parse failure and no message at all.
pub fn decode_text_frame(frame: &str) -> (r: Result<Message, ProtocolError>)
    ensures
        match r {
            Ok(m) => spec_parse_frame(frame@) matches Some(p) && decoded_message(
                m@,
                p.0,
                DataView::Text(p.1),
            ),
            Err(e) => e is FrameParse && match spec_parse_frame(frame@) {
                None => true,
                Some(p) => !(spec_has_header(p.0, "X-RequestId"@) && spec_has_header(
                    p.0,
                    "Path"@,
                )),
            },
        },
{
    let (headers, body) = match parse_text_frame(frame) {
        Err(e) => {
            return Err(e);
        },
        Ok(p) => p,
    };
    finish_message(headers, Data::Text(body))
}

} // verus!
