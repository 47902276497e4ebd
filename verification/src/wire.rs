//! The byte-level specification of the HTTP/1.1 wire format, and the
//! verified serializer and parsers over it.

use vstd::prelude::*;
use vstd::string::StringSliceAdditionalSpecFns;
use vstd::utf8::valid_utf8;

use crate::error::{Error, HttpClientError};
use crate::http_protocol::{spec_view_headers, HttpHeaderView, HttpMethod, HttpRequest};

verus! {

/// Carriage return.
pub const CR: u8 = 13;

/// Line feed.
pub const LF: u8 = 10;

/// Space.
pub const SP: u8 = 32;

/// Colon.
pub const COLON: u8 = 58;

/// The letter `G`.
pub const UC_G: u8 = 71;

/// The letter `E`.
pub const UC_E: u8 = 69;

/// The letter `T`.
pub const UC_T: u8 = 84;

/// The letter `P`.
pub const UC_P: u8 = 80;

/// The letter `O`.
pub const UC_O: u8 = 79;

/// The letter `S`.
pub const UC_S: u8 = 83;

/// The letter `H`.
pub const UC_H: u8 = 72;

/// The slash `/`.
pub const SLASH: u8 = 47;

/// The digit `1`.
pub const DIGIT_1: u8 = 49;

/// The full stop `.`.
pub const DOT: u8 = 46;

/// The two-byte line terminator `\r\n`.
pub open spec fn spec_crlf() -> Seq<u8> {
    seq![CR, LF]
}

/// The bytes of the request-line token naming a method: `GET` or `POST`.
pub open spec fn spec_method_bytes(m: HttpMethod) -> Seq<u8> {
    match m {
        HttpMethod::Get => seq![UC_G, UC_E, UC_T],
        HttpMethod::Post => seq![UC_P, UC_O, UC_S, UC_T],
    }
}

/// The bytes of the fixed request-line suffix ` HTTP/1.1\r\n`.
pub open spec fn spec_version_suffix() -> Seq<u8> {
    seq![SP, UC_H, UC_T, UC_T, UC_P, SLASH, DIGIT_1, DOT, DIGIT_1, CR, LF]
}

/// The bytes of one serialized header line: `<key>: <value>\r\n`.
pub open spec fn spec_header_bytes(key: Seq<u8>, value: Seq<u8>) -> Seq<u8> {
    key + seq![COLON, SP] + value + spec_crlf()
}

/// The bytes of a sequence of serialized header lines, in order.
pub open spec fn spec_headers_bytes(headers: Seq<(Seq<u8>, Seq<u8>)>) -> Seq<u8>
    decreases headers.len(),
{
    if headers.len() == 0 {
        Seq::empty()
    } else {
        spec_header_bytes(headers[0].0, headers[0].1) + spec_headers_bytes(headers.drop_first())
    }
}

/// The serialized bytes of a whole request:
/// `<METHOD> <path> HTTP/1.1\r\n`, then each header as `<key>: <value>\r\n`
/// in the given order, then a blank line, then the body — the body only when
/// the method is `POST` and the body is non-empty.
pub open spec fn spec_request_bytes(
    method: HttpMethod,
    path: Seq<u8>,
    headers: Seq<(Seq<u8>, Seq<u8>)>,
    body: Seq<u8>,
) -> Seq<u8> {
    spec_method_bytes(method) + seq![SP] + path + spec_version_suffix()
        + spec_headers_bytes(headers) + spec_crlf() + if method is Post && body.len() > 0 {
        body
    } else {
        Seq::empty()
    }
}

/// Appends the bytes of a slice to a growable buffer.
fn append_bytes(out: &mut Vec<u8>, bytes: &[u8])
    ensures
        final(out)@ == old(out)@ + bytes@,
{
    let mut tmp = vstd::slice::slice_to_vec(bytes);
    out.append(&mut tmp);
}

/// Appends the request-line token of a method.
fn append_method(out: &mut Vec<u8>, method: &HttpMethod)
    ensures
        final(out)@ == old(out)@ + spec_method_bytes(*method),
{
    match method {
        HttpMethod::Get => {
            out.push(UC_G);
            out.push(UC_E);
            out.push(UC_T);
        },
        HttpMethod::Post => {
            out.push(UC_P);
            out.push(UC_O);
            out.push(UC_S);
            out.push(UC_T);
        },
    }
    assert(out@ =~= old(out)@ + spec_method_bytes(*method));
}

/// Appends the fixed request-line suffix ` HTTP/1.1\r\n`.
fn append_version_suffix(out: &mut Vec<u8>)
    ensures
        final(out)@ == old(out)@ + spec_version_suffix(),
{
    out.push(SP);
    out.push(UC_H);
    out.push(UC_T);
    out.push(UC_T);
    out.push(UC_P);
    out.push(SLASH);
    out.push(DIGIT_1);
    out.push(DOT);
    out.push(DIGIT_1);
    out.push(CR);
    out.push(LF);
    assert(out@ =~= old(out)@ + spec_version_suffix());
}

/// Serializes a request to the exact bytes that go on the wire:
/// `"<METHOD> <path> HTTP/1.1\r\n"`, the headers in their given order, a
/// blank line, and — only for a `POST` with a non-empty body — the body.
pub fn serialize_request(request: &HttpRequest) -> (r: Vec<u8>)
    ensures
        r@ == spec_request_bytes(
            request.method,
            request.path.spec_bytes(),
            spec_view_headers(request.headers@),
            request.body@,
        ),
{
    let ghost gheaders = spec_view_headers(request.headers@);
    let mut out: Vec<u8> = Vec::new();
    append_method(&mut out, &request.method);
    out.push(SP);
    append_bytes(&mut out, request.path.as_bytes());
    append_version_suffix(&mut out);

    let ghost prefix = out@;
    let mut i: usize = 0;
    while i < request.headers.len()
        invariant
            i <= request.headers.len(),
            gheaders == spec_view_headers(request.headers@),
            gheaders.len() == request.headers.len(),
            out@ == prefix + spec_headers_bytes(gheaders.take(i as int)),
        decreases request.headers.len() - i,
    {
        let header = &request.headers[i];
        append_bytes(&mut out, header.key.as_bytes());
        out.push(COLON);
        out.push(SP);
        append_bytes(&mut out, header.value.as_bytes());
        out.push(CR);
        out.push(LF);
        proof {
            lemma_headers_bytes_take_step(gheaders, i as int);
            assert(out@ =~= prefix + spec_headers_bytes(gheaders.take(i as int))
                + spec_header_bytes(gheaders[i as int].0, gheaders[i as int].1));
        }
        i = i + 1;
    }
    proof {
        assert(gheaders.take(gheaders.len() as int) =~= gheaders);
    }

    out.push(CR);
    out.push(LF);

    if request.method == HttpMethod::Post && request.body.len() > 0 {
        append_bytes(&mut out, request.body);
    }
    proof {
        assert(out@ =~= spec_request_bytes(
            request.method,
            request.path.spec_bytes(),
            gheaders,
            request.body@,
        ));
    }
    out
}

/// The plus sign `+`.
pub const PLUS: u8 = 43;

/// The digit `0`.
pub const DIGIT_0: u8 = 48;

/// True of the bytes that count as ASCII whitespace: space, tab, line feed,
/// form feed, and carriage return.
pub open spec fn is_ascii_ws(b: u8) -> bool {
    b == SP || b == 9 || b == LF || b == 12 || b == CR
}

/// The lower-case form of an ASCII byte; bytes outside `A`..`Z` are kept.
pub open spec fn spec_to_lower(b: u8) -> u8 {
    if 65 <= b <= 90 {
        (b + 32) as u8
    } else {
        b
    }
}

/// True when two bytes are equal up to ASCII letter case.
pub open spec fn ascii_eq_ignore_case(a: u8, b: u8) -> bool {
    spec_to_lower(a) == spec_to_lower(b)
}

/// The lower-case form of an ASCII byte.
pub fn to_lower(b: u8) -> (r: u8)
    ensures
        r == spec_to_lower(b),
{
    if 65 <= b && b <= 90 {
        b + 32
    } else {
        b
    }
}

/// The first position at or after `i` where `target` occurs in `s`, or
/// `s.len()` when it does not occur there.
pub open spec fn spec_find_byte(s: Seq<u8>, i: int, target: u8) -> int
    decreases s.len() - i,
    when 0 <= i <= s.len()
{
    if i >= s.len() {
        i
    } else if s[i] == target {
        i
    } else {
        spec_find_byte(s, i + 1, target)
    }
}

/// What `spec_find_byte` returns: the first occurrence at or after `i`, or
/// the length of the sequence.
pub proof fn lemma_find_byte(s: Seq<u8>, i: int, target: u8)
    requires
        0 <= i <= s.len(),
    ensures
        i <= spec_find_byte(s, i, target) <= s.len(),
        spec_find_byte(s, i, target) < s.len() ==> s[spec_find_byte(s, i, target)] == target,
        forall|k: int| i <= k < spec_find_byte(s, i, target) ==> s[k] != target,
    decreases s.len() - i,
{
    if i < s.len() && s[i] != target {
        lemma_find_byte(s, i + 1, target);
    }
}

/// The first position at or after `from` where `target` occurs in the
/// slice, or the slice's length when it does not occur there.
pub fn find_byte_from(buf: &[u8], from: usize, target: u8) -> (r: usize)
    requires
        from <= buf@.len(),
    ensures
        r == spec_find_byte(buf@, from as int, target),
{
    let n = buf.len();
    let mut j = from;
    while j < n
        invariant
            from <= j <= n,
            n == buf@.len(),
            spec_find_byte(buf@, from as int, target) == spec_find_byte(buf@, j as int, target),
        decreases n - j,
    {
        if *vstd::slice::slice_index_get(buf, j) == target {
            return j;
        }
        j = j + 1;
    }
    j
}

/// A line with its trailing carriage return removed, if it has one.
pub open spec fn spec_strip_cr(s: Seq<u8>) -> Seq<u8> {
    if s.len() > 0 && s.last() == CR {
        s.drop_last()
    } else {
        s
    }
}

/// The position of the first byte at or after `i` that is not ASCII
/// whitespace, or `s.len()` when the rest is all whitespace.
pub open spec fn spec_skip_ws(s: Seq<u8>, i: int) -> int
    decreases s.len() - i,
    when 0 <= i <= s.len()
{
    if i >= s.len() {
        i
    } else if is_ascii_ws(s[i]) {
        spec_skip_ws(s, i + 1)
    } else {
        i
    }
}

/// The position just after the last byte before `j` that is not ASCII
/// whitespace, or `0` when everything before `j` is whitespace.
pub open spec fn spec_rskip_ws(s: Seq<u8>, j: int) -> int
    decreases j,
    when 0 <= j <= s.len()
{
    if j <= 0 {
        0
    } else if is_ascii_ws(s[j - 1]) {
        spec_rskip_ws(s, j - 1)
    } else {
        j
    }
}

/// `s` without its leading ASCII whitespace.
pub open spec fn spec_trim_start(s: Seq<u8>) -> Seq<u8> {
    s.subrange(spec_skip_ws(s, 0), s.len() as int)
}

/// `s` without its trailing ASCII whitespace.
pub open spec fn spec_trim_end(s: Seq<u8>) -> Seq<u8> {
    s.subrange(0, spec_rskip_ws(s, s.len() as int))
}

/// `s` without its leading and trailing ASCII whitespace.
pub open spec fn spec_trim(s: Seq<u8>) -> Seq<u8> {
    spec_trim_end(spec_trim_start(s))
}

/// Bounds of `spec_skip_ws`.
pub proof fn lemma_skip_ws(s: Seq<u8>, i: int)
    requires
        0 <= i <= s.len(),
    ensures
        i <= spec_skip_ws(s, i) <= s.len(),
    decreases s.len() - i,
{
    if i < s.len() && is_ascii_ws(s[i]) {
        lemma_skip_ws(s, i + 1);
    }
}

/// Bounds of `spec_rskip_ws`.
pub proof fn lemma_rskip_ws(s: Seq<u8>, j: int)
    requires
        0 <= j <= s.len(),
    ensures
        0 <= spec_rskip_ws(s, j) <= j,
    decreases j,
{
    if j > 0 && is_ascii_ws(s[j - 1]) {
        lemma_rskip_ws(s, j - 1);
    }
}

/// True when the byte at `i` is ASCII whitespace.
fn is_ws_at(buf: &[u8], i: usize) -> (r: bool)
    requires
        i < buf@.len(),
    ensures
        r == is_ascii_ws(buf@[i as int]),
{
    let b = *vstd::slice::slice_index_get(buf, i);
    b == SP || b == 9 || b == LF || b == 12 || b == CR
}

/// The subslice of `buf` without leading ASCII whitespace.
pub fn trim_start_ascii(buf: &[u8]) -> (r: &[u8])
    ensures
        r@ == spec_trim_start(buf@),
{
    let n = buf.len();
    let mut i: usize = 0;
    while i < n && is_ws_at(buf, i)
        invariant
            0 <= i <= n,
            n == buf@.len(),
            spec_skip_ws(buf@, 0) == spec_skip_ws(buf@, i as int),
        decreases n - i,
    {
        i = i + 1;
    }
    proof {
        assert(spec_skip_ws(buf@, i as int) == i as int);
    }
    vstd::slice::slice_subrange(buf, i, n)
}

/// True when the byte just before `j` is ASCII whitespace.
fn is_ws_before(buf: &[u8], j: usize) -> (r: bool)
    requires
        0 < j <= buf@.len(),
    ensures
        r == is_ascii_ws(buf@[j - 1]),
{
    let b = *vstd::slice::slice_index_get(buf, j - 1);
    b == SP || b == 9 || b == LF || b == 12 || b == CR
}

/// The subslice of `buf` without trailing ASCII whitespace.
pub fn trim_end_ascii(buf: &[u8]) -> (r: &[u8])
    ensures
        r@ == spec_trim_end(buf@),
{
    let n = buf.len();
    let mut j: usize = n;
    while j > 0 && is_ws_before(buf, j)
        invariant
            0 <= j <= n,
            n == buf@.len(),
            spec_rskip_ws(buf@, n as int) == spec_rskip_ws(buf@, j as int),
        decreases j,
    {
        j = j - 1;
    }
    proof {
        assert(spec_rskip_ws(buf@, j as int) == j as int);
    }
    vstd::slice::slice_subrange(buf, 0, j)
}

/// The subslice of `buf` without leading or trailing ASCII whitespace.
pub fn trim_ascii(buf: &[u8]) -> (r: &[u8])
    ensures
        r@ == spec_trim(buf@),
{
    trim_end_ascii(trim_start_ascii(buf))
}

/// True of an ASCII decimal digit.
pub open spec fn is_digit(b: u8) -> bool {
    48 <= b <= 57
}

/// True when every byte of `s` is an ASCII decimal digit.
pub open spec fn all_digits(s: Seq<u8>) -> bool {
    forall|k: int| 0 <= k < s.len() ==> is_digit(#[trigger] s[k])
}

/// The value of a sequence of decimal digits, most significant first.
pub open spec fn spec_dec_val(s: Seq<u8>) -> nat
    decreases s.len(),
{
    if s.len() == 0 {
        0
    } else {
        spec_dec_val(s.drop_last()) * 10 + (if s.last() >= DIGIT_0 {
            (s.last() - DIGIT_0) as nat
        } else {
            0
        })
    }
}

/// The digit part of a decimal token: the token with one optional leading
/// plus sign removed.
pub open spec fn spec_dec_digits(s: Seq<u8>) -> Seq<u8> {
    if s.len() > 0 && s[0] == PLUS {
        s.subrange(1, s.len() as int)
    } else {
        s
    }
}

/// The value of an unsigned decimal token as `parse` of the standard
/// library reads one: an optional leading `+`, then one or more digits and
/// nothing else, with a value that fits the target type.
pub open spec fn spec_parse_usize(s: Seq<u8>) -> Option<usize> {
    let t = spec_dec_digits(s);
    if t.len() > 0 && all_digits(t) && spec_dec_val(t) <= usize::MAX as nat {
        Some(spec_dec_val(t) as usize)
    } else {
        None
    }
}

/// The value of an unsigned decimal token that fits a `u16`.
pub open spec fn spec_parse_u16(s: Seq<u8>) -> Option<u16> {
    let t = spec_dec_digits(s);
    if t.len() > 0 && all_digits(t) && spec_dec_val(t) <= u16::MAX as nat {
        Some(spec_dec_val(t) as u16)
    } else {
        None
    }
}

/// Reading one more digit multiplies the value by ten and adds the digit.
proof fn lemma_dec_val_step(s: Seq<u8>, i: int)
    requires
        0 <= i < s.len(),
    ensures
        spec_dec_val(s.take(i + 1)) == spec_dec_val(s.take(i)) * 10 + (if s[i] >= DIGIT_0 {
            (s[i] - DIGIT_0) as nat
        } else {
            0
        }),
{
    let pre = s.take(i + 1);
    assert(pre.drop_last() =~= s.take(i));
    assert(pre.last() == s[i]);
}

/// A digit sequence is worth at least as much as any of its prefixes.
proof fn lemma_dec_val_monotonic(s: Seq<u8>, i: int)
    requires
        0 <= i <= s.len(),
    ensures
        spec_dec_val(s.take(i)) <= spec_dec_val(s),
    decreases s.len() - i,
{
    if i == s.len() {
        assert(s.take(i) =~= s);
    } else {
        lemma_dec_val_monotonic(s, i + 1);
        lemma_dec_val_step(s, i);
    }
}

/// Parses an unsigned decimal token into a `usize`, as `parse` of the
/// standard library does: an optional leading `+`, then one or more digits
/// and nothing else, rejecting values that do not fit.
pub fn parse_usize_dec(s: &[u8]) -> (r: Option<usize>)
    ensures
        r == spec_parse_usize(s@),
{
    let n = s.len();
    let start: usize = if n > 0 && *vstd::slice::slice_index_get(s, 0) == PLUS {
        1
    } else {
        0
    };
    let ghost t = spec_dec_digits(s@);
    proof {
        assert(t =~= s@.subrange(start as int, n as int));
    }
    if n == start {
        return None;
    }
    let mut acc: usize = 0;
    let mut i: usize = start;
    while i < n
        invariant
            start <= i <= n,
            n == s@.len(),
            t == spec_dec_digits(s@),
            t == s@.subrange(start as int, n as int),
            all_digits(t.take(i - start)),
            acc == spec_dec_val(t.take(i - start)),
        decreases n - i,
    {
        let b = *vstd::slice::slice_index_get(s, i);
        if !(48 <= b && b <= 57) {
            proof {
                assert(!is_digit(t[i - start]));
            }
            return None;
        }
        let d = (b - 48) as usize;
        let wide: u128 = acc as u128 * 10 + d as u128;
        if wide > usize::MAX as u128 {
            proof {
                lemma_dec_val_step(t, i - start);
                lemma_dec_val_monotonic(t, i - start + 1);
            }
            return None;
        }
        proof {
            lemma_dec_val_step(t, i - start);
        }
        acc = acc * 10 + d;
        i = i + 1;
    }
    proof {
        assert(t.take(n - start) =~= t);
    }
    Some(acc)
}

/// Parses an unsigned decimal token into a `u16`, rejecting values that do
/// not fit.
pub fn parse_u16_dec(s: &[u8]) -> (r: Option<u16>)
    ensures
        r == spec_parse_u16(s@),
{
    match parse_usize_dec(s) {
        Some(v) => {
            if v <= 65535 {
                Some(v as u16)
            } else {
                None
            }
        },
        None => {
            proof {
                let t = spec_dec_digits(s@);
                if t.len() > 0 && all_digits(t) && spec_dec_val(t) <= u16::MAX as nat {
                    assert(spec_dec_val(t) <= usize::MAX as nat);
                }
            }
            None
        },
    }
}

/// True when the four-byte header terminator `\r\n\r\n` stands at `i`.
pub open spec fn is_terminator_at(s: Seq<u8>, i: int) -> bool {
    &&& 0 <= i
    &&& i + 4 <= s.len()
    &&& s[i] == CR
    &&& s[i + 1] == LF
    &&& s[i + 2] == CR
    &&& s[i + 3] == LF
}

/// The position of the first header terminator `\r\n\r\n` in the buffer, if
/// there is one.
pub fn find_header_terminator(buf: &[u8]) -> (r: Option<usize>)
    ensures
        r matches Some(i) ==> is_terminator_at(buf@, i as int) && (forall|j: int|
            0 <= j < i ==> !is_terminator_at(buf@, j)),
        r is None ==> forall|j: int| !is_terminator_at(buf@, j),
{
    let n = buf.len();
    if n < 4 {
        return None;
    }
    let mut i: usize = 0;
    while i <= n - 4
        invariant
            4 <= n == buf@.len(),
            0 <= i <= n - 3,
            forall|j: int| 0 <= j < i ==> !is_terminator_at(buf@, j),
        decreases n - i,
    {
        if *vstd::slice::slice_index_get(buf, i) == CR && *vstd::slice::slice_index_get(
            buf,
            i + 1,
        ) == LF && *vstd::slice::slice_index_get(buf, i + 2) == CR && *vstd::slice::slice_index_get(
            buf,
            i + 3,
        ) == LF {
            return Some(i);
        }
        i = i + 1;
    }
    None
}

/// The fifteen bytes of the lower-case header name `content-length:`.
pub open spec fn spec_cl_token() -> Seq<u8> {
    seq![99u8, 111, 110, 116, 101, 110, 116, 45, 108, 101, 110, 103, 116, 104, 58]
}

/// True when a header line names `Content-Length`, in any letter case: it
/// is at least fifteen bytes long and its first fifteen bytes match
/// `Content-Length:` case-insensitively.
pub open spec fn is_cl_line(line: Seq<u8>) -> bool {
    line.len() >= 15 && forall|k: int|
        0 <= k < 15 ==> ascii_eq_ignore_case(#[trigger] line[k], spec_cl_token()[k])
}

/// The body length announced by one header line, when the line names
/// `Content-Length` and its value — after the leading whitespace — is a
/// well-formed decimal number.  A malformed value yields nothing, and the
/// scan then goes on.
///
/// Deliberately, only *leading* whitespace is trimmed from the value: a
/// value with trailing whitespace (`Content-Length: 2 `) does not parse
/// and is ignored, and framing then falls back tolerantly to
/// connection-close delimiting rather than rejecting the response.
pub open spec fn spec_cl_line_value(line: Seq<u8>) -> Option<usize> {
    if is_cl_line(line) {
        spec_parse_usize(spec_trim_start(line.subrange(15, line.len() as int)))
    } else {
        None
    }
}

/// The body length announced by the header lines of `s` from position `i`
/// on: the value of the first `Content-Length` line with a well-formed
/// value, stopping at the first empty line.
pub open spec fn spec_cl_scan(s: Seq<u8>, i: int) -> Option<usize>
    decreases s.len() - i,
    when 0 <= i <= s.len()
    via spec_cl_scan_decreases
{
    if i >= s.len() {
        None
    } else {
        let j = spec_find_byte(s, i, LF);
        let line = spec_strip_cr(s.subrange(i, j));
        if line.len() == 0 {
            None
        } else if spec_cl_line_value(line) is Some {
            spec_cl_line_value(line)
        } else if j >= s.len() {
            None
        } else {
            spec_cl_scan(s, j + 1)
        }
    }
}

#[via_fn]
proof fn spec_cl_scan_decreases(s: Seq<u8>, i: int) {
    if 0 <= i < s.len() {
        lemma_find_byte(s, i, LF);
    }
}

/// The body length announced by a whole header block (status line first):
/// the status line is skipped, and the first `Content-Length` header with a
/// well-formed value — matched case-insensitively — wins.
pub open spec fn spec_content_length(block: Seq<u8>) -> Option<usize> {
    let j = spec_find_byte(block, 0, LF);
    if j >= block.len() {
        None
    } else {
        spec_cl_scan(block, j + 1)
    }
}

/// The lower-case header name `content-length:` as bytes.
fn cl_token() -> (r: Vec<u8>)
    ensures
        r@ == spec_cl_token(),
{
    let mut v: Vec<u8> = Vec::new();
    v.push(99);
    v.push(111);
    v.push(110);
    v.push(116);
    v.push(101);
    v.push(110);
    v.push(116);
    v.push(45);
    v.push(108);
    v.push(101);
    v.push(110);
    v.push(103);
    v.push(116);
    v.push(104);
    v.push(58);
    proof {
        assert(v@ =~= spec_cl_token());
    }
    v
}

/// True when the line names `Content-Length` in any letter case.
fn line_is_cl(line: &[u8]) -> (r: bool)
    ensures
        r == is_cl_line(line@),
{
    if line.len() < 15 {
        return false;
    }
    let token = cl_token();
    let mut k: usize = 0;
    while k < 15
        invariant
            0 <= k <= 15,
            line@.len() >= 15,
            token@ == spec_cl_token(),
            forall|m: int|
                0 <= m < k ==> ascii_eq_ignore_case(#[trigger] line@[m], spec_cl_token()[m]),
        decreases 15 - k,
    {
        let b = to_lower(*vstd::slice::slice_index_get(line, k));
        if b != token[k] {
            proof {
                assert(spec_to_lower(spec_cl_token()[k as int]) == spec_cl_token()[k as int]);
            }
            return false;
        }
        k = k + 1;
    }
    true
}

/// True when `key` names the `Content-Length` header, in any letter case:
/// it is exactly the fourteen letters of `Content-Length`, compared
/// case-insensitively.
pub open spec fn is_cl_key(key: Seq<u8>) -> bool {
    key.len() == 14 && forall|k: int|
        0 <= k < 14 ==> ascii_eq_ignore_case(#[trigger] key[k], spec_cl_token()[k])
}

/// True when a header key names `Content-Length` in any letter case.
pub fn key_is_cl(key: &str) -> (r: bool)
    ensures
        r == is_cl_key(key.spec_bytes()),
{
    let bytes = key.as_bytes();
    if bytes.len() != 14 {
        return false;
    }
    let token = cl_token();
    let mut k: usize = 0;
    while k < 14
        invariant
            0 <= k <= 14,
            bytes@.len() == 14,
            bytes@ == key.spec_bytes(),
            token@ == spec_cl_token(),
            forall|m: int|
                0 <= m < k ==> ascii_eq_ignore_case(#[trigger] bytes@[m], spec_cl_token()[m]),
        decreases 14 - k,
    {
        let b = to_lower(*vstd::slice::slice_index_get(bytes, k));
        if b != token[k] {
            proof {
                assert(spec_to_lower(spec_cl_token()[k as int]) == spec_cl_token()[k as int]);
            }
            return false;
        }
        k = k + 1;
    }
    true
}

/// The line with its trailing carriage return removed, if it has one.
fn strip_cr<'a>(line: &'a [u8]) -> (r: &'a [u8])
    ensures
        r@ == spec_strip_cr(line@),
{
    let n = line.len();
    if n > 0 && *vstd::slice::slice_index_get(line, n - 1) == CR {
        vstd::slice::slice_subrange(line, 0, n - 1)
    } else {
        line
    }
}

/// The body length announced by one header line, when it names
/// `Content-Length` and carries a well-formed decimal value.
fn cl_line_value(line: &[u8]) -> (r: Option<usize>)
    ensures
        r == spec_cl_line_value(line@),
{
    if !line_is_cl(line) {
        return None;
    }
    let value = vstd::slice::slice_subrange(line, 15, line.len());
    parse_usize_dec(trim_start_ascii(value))
}

/// Scans a whole header block (status line first) for the body length it
/// announces: the status line is skipped, each following line is matched
/// against `Content-Length` case-insensitively, and the first line with a
/// well-formed decimal value wins.  The scan stops at the first empty line;
/// a block without a well-formed `Content-Length` announces nothing.
pub fn find_content_length(block: &[u8]) -> (r: Option<usize>)
    ensures
        r == spec_content_length(block@),
{
    let n = block.len();
    let first_end = find_byte_from(block, 0, LF);
    proof {
        lemma_find_byte(block@, 0, LF);
    }
    if first_end >= n {
        return None;
    }
    let mut i: usize = first_end + 1;
    loop
        invariant
            0 <= i <= n,
            n == block@.len(),
            spec_content_length(block@) == spec_cl_scan(block@, i as int),
        ensures
            spec_content_length(block@) is None,
        decreases n - i,
    {
        if i >= n {
            break ;
        }
        let j = find_byte_from(block, i, LF);
        proof {
            lemma_find_byte(block@, i as int, LF);
        }
        let line = strip_cr(vstd::slice::slice_subrange(block, i, j));
        if line.len() == 0 {
            break ;
        }
        let v = cl_line_value(line);
        if v.is_some() {
            return v;
        }
        if j >= n {
            break ;
        }
        i = j + 1;
    }
    None
}

/// The first well-formed `Content-Length` line wins: once the scan reaches
/// a line that announces a well-formed length, the result is that line's
/// value, whatever the lines after it say.  Together with the scan's
/// definition — lines without a well-formed value are passed over — this
/// makes the first announcing line the one that frames the body.
pub proof fn lemma_first_content_length_wins(s: Seq<u8>, i: int)
    requires
        0 <= i < s.len(),
        spec_cl_line_value(spec_strip_cr(s.subrange(i, spec_find_byte(s, i, LF)))) is Some,
    ensures
        spec_cl_scan(s, i) == spec_cl_line_value(
            spec_strip_cr(s.subrange(i, spec_find_byte(s, i, LF))),
        ),
{
}

/// True when two byte sequences are equal up to ASCII letter case.
pub open spec fn case_variants(a: Seq<u8>, b: Seq<u8>) -> bool {
    a.len() == b.len() && forall|i: int|
        0 <= i < a.len() ==> ascii_eq_ignore_case(#[trigger] a[i], #[trigger] b[i])
}

/// A byte that lower-cases to itself and is not a lower-case letter is
/// fixed under case variation.
proof fn lemma_case_fixed_byte(x: u8, y: u8, c: u8)
    requires
        ascii_eq_ignore_case(x, y),
        spec_to_lower(c) == c,
        !(97 <= c <= 122),
    ensures
        x == c <==> y == c,
{
}

/// Case variation moves the first occurrence of a structural byte (a line
/// feed, a colon — anything fixed under lower-casing and not a lower-case
/// letter) to the same position.
proof fn lemma_find_byte_case(a: Seq<u8>, b: Seq<u8>, i: int, target: u8)
    requires
        case_variants(a, b),
        0 <= i <= a.len(),
        spec_to_lower(target) == target,
        !(97 <= target <= 122),
    ensures
        spec_find_byte(a, i, target) == spec_find_byte(b, i, target),
    decreases a.len() - i,
{
    if i < a.len() {
        lemma_case_fixed_byte(a[i], b[i], target);
        if a[i] != target {
            lemma_find_byte_case(a, b, i + 1, target);
        }
    }
}

/// Case variation survives stripping a trailing carriage return.
proof fn lemma_strip_cr_case(a: Seq<u8>, b: Seq<u8>)
    requires
        case_variants(a, b),
    ensures
        case_variants(spec_strip_cr(a), spec_strip_cr(b)),
        spec_strip_cr(a).len() == spec_strip_cr(b).len(),
{
    if a.len() > 0 {
        lemma_case_fixed_byte(a.last(), b.last(), CR);
    }
}

/// Case variation skips the same leading whitespace.
proof fn lemma_skip_ws_case(a: Seq<u8>, b: Seq<u8>, i: int)
    requires
        case_variants(a, b),
        0 <= i <= a.len(),
    ensures
        spec_skip_ws(a, i) == spec_skip_ws(b, i),
    decreases a.len() - i,
{
    if i < a.len() {
        assert(is_ascii_ws(a[i]) <==> is_ascii_ws(b[i])) by {
            lemma_case_fixed_byte(a[i], b[i], SP);
            lemma_case_fixed_byte(a[i], b[i], 9);
            lemma_case_fixed_byte(a[i], b[i], LF);
            lemma_case_fixed_byte(a[i], b[i], 12);
            lemma_case_fixed_byte(a[i], b[i], CR);
        }
        if is_ascii_ws(a[i]) {
            lemma_skip_ws_case(a, b, i + 1);
        }
    }
}

/// Case variation does not change the value of a decimal token: digits and
/// the plus sign are fixed under case, and a token broken by a letter is
/// broken in both variants.
proof fn lemma_parse_usize_case(a: Seq<u8>, b: Seq<u8>)
    requires
        case_variants(a, b),
    ensures
        spec_parse_usize(a) == spec_parse_usize(b),
{
    if a.len() > 0 {
        lemma_case_fixed_byte(a[0], b[0], PLUS);
    }
    let ta = spec_dec_digits(a);
    let tb = spec_dec_digits(b);
    assert(case_variants(ta, tb));
    assert(all_digits(ta) <==> all_digits(tb)) by {
        assert forall|k: int| 0 <= k < ta.len() && is_digit(ta[k]) implies tb[k] == ta[k] by {
            lemma_case_fixed_byte(ta[k], tb[k], ta[k]);
        }
        assert forall|k: int| 0 <= k < tb.len() && is_digit(tb[k]) implies ta[k] == tb[k] by {
            lemma_case_fixed_byte(ta[k], tb[k], tb[k]);
        }
    }
    if ta.len() > 0 && all_digits(ta) && all_digits(tb) {
        assert forall|k: int| 0 <= k < ta.len() implies ta[k] == tb[k] by {
            lemma_case_fixed_byte(ta[k], tb[k], ta[k]);
        }
        assert(ta =~= tb);
    }
}

/// Case variation does not change what one header line announces: the
/// `Content-Length` match is case-insensitive, and the value bytes are
/// fixed.
proof fn lemma_cl_line_value_case(a: Seq<u8>, b: Seq<u8>)
    requires
        case_variants(a, b),
    ensures
        spec_cl_line_value(a) == spec_cl_line_value(b),
{
    assert(is_cl_line(a) <==> is_cl_line(b)) by {
        if a.len() >= 15 {
            assert forall|k: int| 0 <= k < 15 implies (ascii_eq_ignore_case(
                a[k],
                spec_cl_token()[k],
            ) <==> ascii_eq_ignore_case(b[k], spec_cl_token()[k])) by {
                assert(ascii_eq_ignore_case(a[k], b[k]));
            }
        }
    }
    if is_cl_line(a) {
        let va = a.subrange(15, a.len() as int);
        let vb = b.subrange(15, b.len() as int);
        assert(case_variants(va, vb));
        lemma_skip_ws_case(va, vb, 0);
        lemma_skip_ws(va, 0);
        assert(case_variants(spec_trim_start(va), spec_trim_start(vb)));
        lemma_parse_usize_case(spec_trim_start(va), spec_trim_start(vb));
    }
}

/// `Content-Length` matching is case-insensitive: two header blocks that
/// are equal up to ASCII letter case announce the same body length.
pub proof fn lemma_content_length_case_insensitive(a: Seq<u8>, b: Seq<u8>)
    requires
        case_variants(a, b),
    ensures
        spec_content_length(a) == spec_content_length(b),
{
    lemma_find_byte_case(a, b, 0, LF);
    lemma_find_byte(a, 0, LF);
    if spec_find_byte(a, 0, LF) < a.len() {
        lemma_cl_scan_case(a, b, spec_find_byte(a, 0, LF) + 1);
    }
}

/// Case variation does not change the result of the header scan.
proof fn lemma_cl_scan_case(a: Seq<u8>, b: Seq<u8>, i: int)
    requires
        case_variants(a, b),
        0 <= i <= a.len(),
    ensures
        spec_cl_scan(a, i) == spec_cl_scan(b, i),
    decreases a.len() - i,
{
    if i < a.len() {
        let ja = spec_find_byte(a, i, LF);
        lemma_find_byte_case(a, b, i, LF);
        lemma_find_byte(a, i, LF);
        let ra = a.subrange(i, ja);
        let rb = b.subrange(i, ja);
        assert(case_variants(ra, rb));
        lemma_strip_cr_case(ra, rb);
        lemma_cl_line_value_case(spec_strip_cr(ra), spec_strip_cr(rb));
        if spec_strip_cr(ra).len() != 0 && spec_cl_line_value(spec_strip_cr(ra)) is None && ja
            < a.len() {
            lemma_cl_scan_case(a, b, ja + 1);
        }
    }
}

/// Relies on `core::str::from_utf8`: it succeeds exactly on UTF-8-valid
/// bytes, and the string it returns views those same bytes.
#[verifier::external_body]
pub(crate) fn bytes_as_str(bytes: &[u8]) -> (r: Option<&str>)
    ensures
        r is Some <==> valid_utf8(bytes@),
        r matches Some(s) ==> s.spec_bytes() == bytes@,
{
    core::str::from_utf8(bytes).ok()
}

/// A valid UTF-8 sequence splits into two valid halves at any position
/// whose byte is ASCII (or at the very end).
proof fn lemma_utf8_split_at_ascii(s: Seq<u8>, i: int)
    requires
        valid_utf8(s),
        0 <= i <= s.len(),
        i == s.len() || s[i] < 128,
    ensures
        valid_utf8(s.subrange(0, i)),
        valid_utf8(s.subrange(i, s.len() as int)),
{
    if i == s.len() {
        vstd::utf8::is_char_boundary_start_end_of_seq(s);
    } else {
        vstd::utf8::is_char_boundary_iff_not_is_continuation_byte(s, i);
    }
    vstd::utf8::valid_utf8_split(s, i);
}

/// Dropping the leading byte of a valid UTF-8 sequence that starts with an
/// ASCII byte leaves a valid UTF-8 sequence.
proof fn lemma_utf8_drop_ascii_head(s: Seq<u8>)
    requires
        valid_utf8(s),
        s.len() > 0,
        s[0] < 128,
    ensures
        valid_utf8(s.subrange(1, s.len() as int)),
{
    assert(vstd::utf8::valid_first_scalar(s));
    assert(vstd::utf8::length_of_first_scalar(s) == 1);
    assert(vstd::utf8::pop_first_scalar(s) =~= s.subrange(1, s.len() as int));
    assert(valid_utf8(vstd::utf8::pop_first_scalar(s)));
}

/// The parse of a status line: the numeric status code and the bytes of
/// the status message.  The line must be valid UTF-8; after trailing
/// whitespace is trimmed, it splits on single spaces into the HTTP version
/// (ignored), the status code (which must parse as a decimal `u16`), and
/// the rest as the message (empty when absent).
pub open spec fn spec_parse_status_line(line: Seq<u8>) -> Option<(u16, Seq<u8>)> {
    if !valid_utf8(line) {
        None
    } else {
        let t = spec_trim_end(line);
        let sp1 = spec_find_byte(t, 0, SP);
        if sp1 >= t.len() {
            None
        } else {
            let rest = t.subrange(sp1 + 1, t.len() as int);
            let sp2 = spec_find_byte(rest, 0, SP);
            let code_bytes = rest.subrange(0, sp2);
            let message = if sp2 >= rest.len() {
                Seq::<u8>::empty()
            } else {
                rest.subrange(sp2 + 1, rest.len() as int)
            };
            match spec_parse_u16(code_bytes) {
                Some(code) => Some((code, message)),
                None => None,
            }
        }
    }
}

/// Parses a status line into the numeric status code and the status
/// message.  Fails with an HTTP parse failure when the line is not UTF-8,
/// has no second token, or has a status code that is not a `u16` decimal.
pub fn parse_status_line<'a>(line: &'a [u8]) -> (r: Result<(u16, &'a str), Error>)
    ensures
        r is Ok <==> spec_parse_status_line(line@) is Some,
        r matches Ok((code, message)) ==> spec_parse_status_line(line@) == Some(
            (code, message.spec_bytes()),
        ),
        r matches Err(e) ==> e == Error::Http(HttpClientError::HttpParseFailure),
{
    if bytes_as_str(line).is_none() {
        return Err(Error::Http(HttpClientError::HttpParseFailure));
    }
    let t = trim_end_ascii(line);
    proof {
        lemma_rskip_ws(line@, line@.len() as int);
        lemma_skip_trailing_ws_keeps_utf8(line@);
    }
    let sp1 = find_byte_from(t, 0, SP);
    proof {
        lemma_find_byte(t@, 0, SP);
    }
    if sp1 >= t.len() {
        return Err(Error::Http(HttpClientError::HttpParseFailure));
    }
    proof {
        lemma_utf8_split_at_ascii(t@, sp1 as int);
        lemma_utf8_drop_ascii_head(t@.subrange(sp1 as int, t@.len() as int));
        assert(t@.subrange(sp1 as int, t@.len() as int).subrange(
            1,
            t@.len() - sp1 as int,
        ) =~= t@.subrange(sp1 + 1, t@.len() as int));
    }
    let rest = vstd::slice::slice_subrange(t, sp1 + 1, t.len());
    let sp2 = find_byte_from(rest, 0, SP);
    proof {
        lemma_find_byte(rest@, 0, SP);
    }
    let code_bytes = vstd::slice::slice_subrange(rest, 0, sp2);
    let code = match parse_u16_dec(code_bytes) {
        Some(c) => c,
        None => {
            return Err(Error::Http(HttpClientError::HttpParseFailure));
        },
    };
    let message: &'a str = if sp2 >= rest.len() {
        ""
    } else {
        proof {
            lemma_utf8_split_at_ascii(rest@, sp2 as int);
            lemma_utf8_drop_ascii_head(rest@.subrange(sp2 as int, rest@.len() as int));
            assert(rest@.subrange(sp2 as int, rest@.len() as int).subrange(
                1,
                rest@.len() - sp2 as int,
            ) =~= rest@.subrange(sp2 + 1, rest@.len() as int));
        }
        let message_bytes = vstd::slice::slice_subrange(rest, sp2 + 1, rest.len());
        match bytes_as_str(message_bytes) {
            Some(m) => m,
            None => {
                proof {
                    assert(false);
                }
                return Err(Error::Http(HttpClientError::HttpParseFailure));
            },
        }
    };
    proof {
        if sp2 >= rest@.len() {
            reveal_strlit("");
            assert(message.spec_bytes() =~= Seq::<u8>::empty());
        }
    }
    Ok((code, message))
}

/// Trimming trailing ASCII whitespace from a valid UTF-8 sequence leaves a
/// valid UTF-8 sequence.
proof fn lemma_skip_trailing_ws_keeps_utf8(s: Seq<u8>)
    requires
        valid_utf8(s),
    ensures
        valid_utf8(spec_trim_end(s)),
{
    let p = spec_rskip_ws(s, s.len() as int);
    lemma_rskip_ws_ws_at(s, s.len() as int);
    lemma_utf8_split_at_ascii(s, p);
}

/// The byte at the cut of `spec_rskip_ws` is whitespace (or the cut is at
/// the end of the region).
proof fn lemma_rskip_ws_ws_at(s: Seq<u8>, j: int)
    requires
        0 <= j <= s.len(),
    ensures
        0 <= spec_rskip_ws(s, j) <= j,
        spec_rskip_ws(s, j) < j ==> is_ascii_ws(s[spec_rskip_ws(s, j)]),
    decreases j,
{
    if j > 0 && is_ascii_ws(s[j - 1]) {
        lemma_rskip_ws_ws_at(s, j - 1);
    }
}

/// The parse of one header line: the key before the first colon, and the
/// value after it with surrounding whitespace trimmed.  A line that is
/// empty, has no colon, or whose key or trimmed value is not valid UTF-8 is
/// silently skipped.
pub open spec fn spec_parse_header_line(line: Seq<u8>) -> Option<(Seq<u8>, Seq<u8>)> {
    if line.len() == 0 {
        None
    } else {
        let c = spec_find_byte(line, 0, COLON);
        if c >= line.len() {
            None
        } else {
            let key = line.subrange(0, c);
            let value = spec_trim(line.subrange(c + 1, line.len() as int));
            if valid_utf8(key) && valid_utf8(value) {
                Some((key, value))
            } else {
                None
            }
        }
    }
}

/// The parse of a block of header lines from position `i` on: each line —
/// with its trailing carriage return stripped — contributes a key and
/// value if `spec_parse_header_line` accepts it, in order.
pub open spec fn spec_parse_header_block(s: Seq<u8>, i: int) -> Seq<(Seq<u8>, Seq<u8>)>
    decreases s.len() - i,
    when 0 <= i <= s.len()
    via spec_parse_header_block_decreases
{
    if i >= s.len() {
        Seq::empty()
    } else {
        let j = spec_find_byte(s, i, LF);
        let line = spec_strip_cr(s.subrange(i, j));
        let rest = if j >= s.len() {
            Seq::empty()
        } else {
            spec_parse_header_block(s, j + 1)
        };
        match spec_parse_header_line(line) {
            Some(kv) => seq![kv] + rest,
            None => rest,
        }
    }
}

#[via_fn]
proof fn spec_parse_header_block_decreases(s: Seq<u8>, i: int) {
    if 0 <= i < s.len() {
        lemma_find_byte(s, i, LF);
    }
}

/// Parses one header line into a borrowed header view, if the line
/// carries one.
fn parse_header_line<'a>(line: &'a [u8]) -> (r: Option<HttpHeaderView<'a>>)
    ensures
        r matches Some(h) ==> spec_parse_header_line(line@) == Some(
            (h.key.spec_bytes(), h.value.spec_bytes()),
        ),
        r is None ==> spec_parse_header_line(line@) is None,
{
    if line.len() == 0 {
        return None;
    }
    let c = find_byte_from(line, 0, COLON);
    proof {
        lemma_find_byte(line@, 0, COLON);
    }
    if c >= line.len() {
        return None;
    }
    let key_bytes = vstd::slice::slice_subrange(line, 0, c);
    let value_bytes = trim_ascii(vstd::slice::slice_subrange(line, c + 1, line.len()));
    let key = match bytes_as_str(key_bytes) {
        Some(k) => k,
        None => {
            return None;
        },
    };
    let value = match bytes_as_str(value_bytes) {
        Some(v) => v,
        None => {
            return None;
        },
    };
    Some(HttpHeaderView { key, value })
}

/// Parses a block of header lines into borrowed header views, in order.
/// Lines that are empty, have no colon, or are not valid UTF-8 are
/// silently skipped.
pub fn parse_header_block<'a>(block: &'a [u8]) -> (r: Vec<HttpHeaderView<'a>>)
    ensures
        spec_view_headers(r@) == spec_parse_header_block(block@, 0),
{
    let n = block.len();
    let mut out: Vec<HttpHeaderView<'a>> = Vec::new();
    let mut i: usize = 0;
    proof {
        assert(spec_view_headers(out@) =~= Seq::<(Seq<u8>, Seq<u8>)>::empty());
    }
    loop
        invariant_except_break
            0 <= i <= n,
            n == block@.len(),
            spec_parse_header_block(block@, 0) == spec_view_headers(out@)
                + spec_parse_header_block(block@, i as int),
        ensures
            spec_parse_header_block(block@, 0) == spec_view_headers(out@),
        decreases n - i,
    {
        if i >= n {
            proof {
                assert(spec_view_headers(out@) + spec_parse_header_block(block@, i as int)
                    =~= spec_view_headers(out@));
            }
            break ;
        }
        let j = find_byte_from(block, i, LF);
        proof {
            lemma_find_byte(block@, i as int, LF);
        }
        let line = strip_cr(vstd::slice::slice_subrange(block, i, j));
        let ghost before = out@;
        let parsed = parse_header_line(line);
        let ghost delta: Seq<(Seq<u8>, Seq<u8>)> = match parsed {
            Some(h) => seq![(h.key.spec_bytes(), h.value.spec_bytes())],
            None => Seq::empty(),
        };
        proof {
            if j >= n {
                assert(spec_parse_header_block(block@, i as int) =~= delta);
            } else {
                assert(spec_parse_header_block(block@, i as int) =~= delta
                    + spec_parse_header_block(block@, j + 1));
            }
        }
        match parsed {
            Some(h) => {
                out.push(h);
                proof {
                    assert(spec_view_headers(out@) =~= spec_view_headers(before) + delta);
                }
            },
            None => {
                proof {
                    assert(spec_view_headers(out@) + delta =~= spec_view_headers(out@));
                }
            },
        }
        if j >= n {
            proof {
                assert(spec_parse_header_block(block@, 0) =~= spec_view_headers(out@));
            }
            break ;
        }
        i = j + 1;
    }
    out
}

/// The parse of a whole buffered response, given where the header block
/// ends and the announced body length.
///
/// The header block is everything before the terminator at
/// `header_size - 4`; it splits at the first line feed into the status
/// line and the header lines.  The body is the `content_length` bytes
/// after the header terminator when a length is known — the parse fails
/// when fewer are buffered — and everything after the terminator
/// otherwise.
pub open spec fn spec_parse_response(
    buffer: Seq<u8>,
    header_size: usize,
    content_length: Option<usize>,
) -> Option<(u16, Seq<u8>, Seq<(Seq<u8>, Seq<u8>)>, Seq<u8>)> {
    if header_size < 4 || header_size > buffer.len() {
        None
    } else {
        let block = buffer.subrange(0, header_size - 4);
        let j = spec_find_byte(block, 0, LF);
        let status_line = block.subrange(0, j);
        let header_lines = if j >= block.len() {
            Seq::<u8>::empty()
        } else {
            block.subrange(j + 1, block.len() as int)
        };
        match spec_parse_status_line(status_line) {
            None => None,
            Some((code, message)) => {
                let headers = spec_parse_header_block(header_lines, 0);
                match content_length {
                    Some(len) => if header_size + len <= buffer.len() {
                        Some(
                            (
                                code,
                                message,
                                headers,
                                buffer.subrange(
                                    header_size as int,
                                    header_size as int + len as int,
                                ),
                            ),
                        )
                    } else {
                        None
                    },
                    None => Some(
                        (
                            code,
                            message,
                            headers,
                            buffer.subrange(header_size as int, buffer.len() as int),
                        ),
                    ),
                }
            },
        }
    }
}

/// How a response body is framed.
///
/// With an announced `Content-Length`, the body is exactly that many bytes
/// after the header terminator, and a buffer holding fewer — a response
/// cut short by connection closure — does not parse at all, whatever else
/// it holds.  Without an announced length, the body is everything after
/// the header terminator: all bytes received before closure.
pub proof fn lemma_body_framing(buffer: Seq<u8>, header_size: usize, content_length: Option<usize>)
    ensures
        content_length matches Some(n) ==> (spec_parse_response(
            buffer,
            header_size,
            content_length,
        ) matches Some(parts) ==> parts.3 == buffer.subrange(
            header_size as int,
            header_size + n,
        ) && parts.3.len() == n),
        content_length matches Some(n) && buffer.len() < header_size + n ==> spec_parse_response(
            buffer,
            header_size,
            content_length,
        ) is None,
        content_length is None ==> (spec_parse_response(buffer, header_size, content_length)
            matches Some(parts) ==> parts.3 == buffer.subrange(
            header_size as int,
            buffer.len() as int,
        )),
{
}

/// Parses a whole buffered response into its four parts: status code,
/// status message, header views, and body bytes.  Everything borrowed
/// aliases the given buffer.
pub fn parse_response<'a>(
    buffer: &'a [u8],
    header_size: usize,
    content_length: Option<usize>,
) -> (r: Result<(u16, &'a str, Vec<HttpHeaderView<'a>>, &'a [u8]), Error>)
    ensures
        r is Ok <==> spec_parse_response(buffer@, header_size, content_length) is Some,
        r matches Ok((code, message, headers, body)) ==> spec_parse_response(
            buffer@,
            header_size,
            content_length,
        ) == Some((code, message.spec_bytes(), spec_view_headers(headers@), body@)),
        r matches Err(e) ==> e == Error::Http(HttpClientError::HttpParseFailure),
{
    if header_size < 4 || header_size > buffer.len() {
        return Err(Error::Http(HttpClientError::HttpParseFailure));
    }
    let block = vstd::slice::slice_subrange(buffer, 0, header_size - 4);
    let j = find_byte_from(block, 0, LF);
    proof {
        lemma_find_byte(block@, 0, LF);
    }
    let status_line = vstd::slice::slice_subrange(block, 0, j);
    let header_lines = if j >= block.len() {
        vstd::slice::slice_subrange(block, block.len(), block.len())
    } else {
        vstd::slice::slice_subrange(block, j + 1, block.len())
    };
    proof {
        if j >= block@.len() {
            assert(header_lines@ =~= Seq::<u8>::empty());
        }
    }
    let (code, message) = match parse_status_line(status_line) {
        Ok(pair) => pair,
        Err(e) => {
            return Err(e);
        },
    };
    let headers = parse_header_block(header_lines);
    let body = match content_length {
        Some(len) => {
            if len > buffer.len() - header_size {
                return Err(Error::Http(HttpClientError::HttpParseFailure));
            }
            vstd::slice::slice_subrange(buffer, header_size, header_size + len)
        },
        None => vstd::slice::slice_subrange(buffer, header_size, buffer.len()),
    };
    Ok((code, message, headers, body))
}

/// Serializing one more header appends exactly that header's line.
proof fn lemma_headers_bytes_take_step(headers: Seq<(Seq<u8>, Seq<u8>)>, i: int)
    requires
        0 <= i < headers.len(),
    ensures
        spec_headers_bytes(headers.take(i + 1)) == spec_headers_bytes(headers.take(i))
            + spec_header_bytes(headers[i].0, headers[i].1),
    decreases i,
{
    let pre = headers.take(i + 1);
    if i == 0 {
        assert(pre.drop_first() =~= Seq::<(Seq<u8>, Seq<u8>)>::empty());
        assert(headers.take(0) =~= Seq::<(Seq<u8>, Seq<u8>)>::empty());
        assert(spec_headers_bytes(Seq::<(Seq<u8>, Seq<u8>)>::empty()) =~= Seq::<u8>::empty());
        assert(spec_headers_bytes(pre) =~= spec_header_bytes(headers[0].0, headers[0].1));
    } else {
        lemma_headers_bytes_take_step(headers.drop_first(), i - 1);
        assert(pre.drop_first() =~= headers.drop_first().take(i));
        assert(headers.take(i).drop_first() =~= headers.drop_first().take(i - 1));
        assert(spec_headers_bytes(headers.take(i + 1)) == spec_header_bytes(
            headers[0].0,
            headers[0].1,
        ) + spec_headers_bytes(headers.drop_first().take(i)));
        assert(spec_headers_bytes(headers.take(i)) == spec_header_bytes(headers[0].0, headers[0].1)
            + spec_headers_bytes(headers.drop_first().take(i - 1)));
        assert(spec_headers_bytes(headers.take(i + 1)) =~= spec_headers_bytes(headers.take(i))
            + spec_header_bytes(headers[i].0, headers[i].1));
    }
}

} // verus!
