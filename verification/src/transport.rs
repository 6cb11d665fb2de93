//! Guarded requests to the Temper data API and to provider APIs.

use vstd::prelude::*;
use vstd::string::StringSliceAdditionalSpecFns;
use vstd::string::{StrSliceExecFns, StringExecFns};
use crate::text::{push_char, has_prefix, str_starts_with, trim_end_char, trim_end_matches_char, str_has_char, split_char, split_on_char, chars_of, string_from_chars, slice_chars};
use crate::json::{Json, JsonV, spec_get, opt_json, opt_json_owned, opt_str, spec_as_array};
use crate::json_text::{parse_json, parsed_json};

verus! {

/// Why a transport step failed.
#[derive(Debug)]
pub enum Error {
    /// A required field was absent or unusable.
    Field(String),
    /// A binding (identifier, base URL, credential, ...) was refused.
    Binding(&'static str),
    /// A non-success HTTP status from the named source.
    Http(u16, &'static str),
    /// An unusable response body from the named source.
    Response(&'static str),
}

/// An outgoing HTTP request.
pub struct Request {
    pub method: &'static str,
    pub url: String,
    pub headers: Vec<(String, String)>,
    pub body: String,
}

/// An HTTP response.
pub struct Response {
    pub status: u16,
    pub body: String,
}

/// What the embedding runtime provides: HTTP requests and secrets.
pub trait Host {
    /// Perform an HTTP request.
    fn request(&mut self, request: &Request) -> Result<Response, Error>;

    /// Look up a named secret.
    fn secret(&mut self, name: &str) -> Result<String, Error>;
}

/// A host plus the Temper endpoint and credentials requests are made with.
pub struct Runtime<'a, H> {
    pub host: &'a mut H,
    pub base: &'a str,
    pub tenant: &'a str,
    pub key: &'a str,
    pub now_ms: i64,
}

/// An ASCII letter or digit.
pub open spec fn ascii_alphanumeric_byte(b: u8) -> bool {
    (97 <= b <= 122) || (65 <= b <= 90) || (48 <= b <= 57)
}

/// Bytes allowed in an identifier: ASCII letters and digits, `_ - . :`.
pub open spec fn identifier_byte(b: u8) -> bool {
    ascii_alphanumeric_byte(b) || b == 95 || b == 45 || b == 46 || b == 58
}

/// A usable identifier: 1 to 160 bytes, each allowed.
pub open spec fn identifier_ok(bytes: Seq<u8>) -> bool {
    &&& 0 < bytes.len() <= 160
    &&& forall|k: int| 0 <= k < bytes.len() ==> identifier_byte(#[trigger] bytes[k])
}

/// The error an identifier is refused with.
pub open spec fn is_binding(e: Error, message: Seq<char>) -> bool {
    e matches Error::Binding(m) && m@ == message
}

/// Accept `raw` as an identifier for a URL path segment, or refuse it.
pub fn identifier(raw: &str) -> (res: Result<&str, Error>)
    ensures
        match res {
            Ok(s) => identifier_ok(raw.spec_bytes()) && s == raw,
            Err(e) => !identifier_ok(raw.spec_bytes()) && is_binding(e, "invalid identifier"@),
        },
{
    proof {
        reveal_strlit("invalid identifier");
    }
    let bytes = raw.as_bytes();
    if bytes.len() == 0 || bytes.len() > 160 {
        return Err(Error::Binding("invalid identifier"));
    }
    let mut i: usize = 0;
    while i < bytes.len()
        invariant
            bytes@ == raw.spec_bytes(),
            i <= bytes@.len(),
            forall|k: int| 0 <= k < i ==> identifier_byte(#[trigger] bytes@[k]),
        decreases bytes@.len() - i,
    {
        let b = bytes[i];
        let ok = (97 <= b && b <= 122) || (65 <= b && b <= 90) || (48 <= b && b <= 57) || b == 95
            || b == 45 || b == 46 || b == 58;
        if !ok {
            return Err(Error::Binding("invalid identifier"));
        }
        i += 1;
    }
    Ok(raw)
}

/// A lower-case hexadecimal digit byte.
pub open spec fn lower_hex_byte(b: u8) -> bool {
    (48 <= b <= 57) || (97 <= b <= 102)
}

/// A full git commit SHA: 40 or 64 lower-case hexadecimal digits.
pub open spec fn spec_full_sha(bytes: Seq<u8>) -> bool {
    &&& (bytes.len() == 40 || bytes.len() == 64)
    &&& forall|k: int| 0 <= k < bytes.len() ==> lower_hex_byte(#[trigger] bytes[k])
}

/// Whether `raw` is a full (SHA-1 or SHA-256) commit hash.
pub fn full_sha(raw: &str) -> (res: bool)
    ensures
        res == spec_full_sha(raw.spec_bytes()),
{
    let bytes = raw.as_bytes();
    if bytes.len() != 40 && bytes.len() != 64 {
        return false;
    }
    let mut i: usize = 0;
    while i < bytes.len()
        invariant
            bytes@ == raw.spec_bytes(),
            i <= bytes@.len(),
            forall|k: int| 0 <= k < i ==> lower_hex_byte(#[trigger] bytes@[k]),
        decreases bytes@.len() - i,
    {
        let b = bytes[i];
        if !((48 <= b && b <= 57) || (97 <= b && b <= 102)) {
            return false;
        }
        i += 1;
    }
    true
}

/// Bytes that stand for themselves in a URL component: ASCII letters and
/// digits and `- _ . ~`.
pub open spec fn unreserved_byte(b: u8) -> bool {
    ascii_alphanumeric_byte(b) || b == 45 || b == 95 || b == 46 || b == 126
}

/// The upper-case hexadecimal digit for `n` (below 16).
pub open spec fn hex_digit_upper(n: u8) -> char {
    if n < 10 {
        (48 + n) as char
    } else {
        (55 + n) as char
    }
}

/// How one byte is written in a URL component: itself when unreserved,
/// otherwise `%` and two upper-case hexadecimal digits.
pub open spec fn encode_byte(b: u8) -> Seq<char> {
    if unreserved_byte(b) {
        seq![b as char]
    } else {
        seq!['%', hex_digit_upper(b / 16), hex_digit_upper(b % 16)]
    }
}

/// Percent-encoding of a byte sequence.
pub open spec fn percent_encode(bytes: Seq<u8>) -> Seq<char>
    decreases bytes.len(),
{
    if bytes.len() == 0 {
        seq![]
    } else {
        percent_encode(bytes.drop_last()) + encode_byte(bytes.last())
    }
}

/// A character percent-encoding writes: an unreserved ASCII character or `%`.
pub open spec fn url_safe_char(c: char) -> bool {
    c == '%' || (c as u32) < 128 && unreserved_byte(c as u32 as u8)
}

/// The length of the percent-encoding of a byte sequence: one character per
/// unreserved byte, three per other byte.
pub open spec fn encoded_len(bytes: Seq<u8>) -> nat
    decreases bytes.len(),
{
    if bytes.len() == 0 {
        0
    } else {
        encoded_len(bytes.drop_last()) + if unreserved_byte(bytes.last()) {
            1nat
        } else {
            3nat
        }
    }
}

/// The value of an upper-case hexadecimal digit.
pub open spec fn hex_value(c: char) -> int {
    if '0' <= c && c <= '9' {
        c as int - 48
    } else {
        c as int - 55
    }
}

/// Percent-decoding: `%` and two hexadecimal digits give the byte they
/// spell, any other character the byte of its code.
pub open spec fn percent_decode(s: Seq<char>) -> Seq<u8>
    decreases s.len(),
{
    if s.len() == 0 {
        seq![]
    } else if s[0] == '%' && s.len() >= 3 {
        seq![(hex_value(s[1]) * 16 + hex_value(s[2])) as u8] + percent_decode(s.skip(3))
    } else {
        seq![s[0] as u32 as u8] + percent_decode(s.drop_first())
    }
}

/// Encoding a byte in front of others writes it first.
proof fn lemma_encode_front(b: u8, rest: Seq<u8>)
    ensures
        percent_encode(seq![b] + rest) == encode_byte(b) + percent_encode(rest),
    decreases rest.len(),
{
    if rest.len() == 0 {
        assert(seq![b] + rest =~= seq![b]);
        assert((seq![b]).drop_last() =~= Seq::<u8>::empty());
        assert(encode_byte(b) + percent_encode(rest) =~= encode_byte(b));
        assert(percent_encode(seq![b]) =~= percent_encode(Seq::<u8>::empty()) + encode_byte(b));
    } else {
        lemma_encode_front(b, rest.drop_last());
        assert((seq![b] + rest).drop_last() =~= seq![b] + rest.drop_last());
        assert((seq![b] + rest).last() == rest.last());
        assert(encode_byte(b) + percent_encode(rest) =~= encode_byte(b) + percent_encode(rest.drop_last())
            + encode_byte(rest.last()));
    }
}

/// Decoding undoes the encoding of one byte.
proof fn lemma_decode_byte(b: u8, rest: Seq<char>)
    ensures
        percent_decode(encode_byte(b) + rest) == seq![b] + percent_decode(rest),
{
    let e = encode_byte(b) + rest;
    if unreserved_byte(b) {
        assert(e[0] == b as char);
        assert((b as char) != '%');
        assert(e.drop_first() =~= rest);
        assert((b as char) as u32 as u8 == b);
    } else {
        let hi = b / 16;
        let lo = b % 16;
        assert(e[0] == '%' && e[1] == hex_digit_upper(hi) && e[2] == hex_digit_upper(lo));
        assert(hex_value(hex_digit_upper(hi)) == hi as int);
        assert(hex_value(hex_digit_upper(lo)) == lo as int);
        assert(e.skip(3) =~= rest);
        assert(hi as int * 16 + lo as int == b as int);
    }
}

/// Percent-encoding writes only unreserved ASCII characters and `%`, one
/// character for each unreserved byte and three for any other, decodes back
/// to the bytes it encoded, and leaves a run of unreserved bytes as it is.
pub proof fn law_percent_encoding(bytes: Seq<u8>)
    ensures
        forall|k: int| 0 <= k < percent_encode(bytes).len() ==> url_safe_char(#[trigger] percent_encode(bytes)[k]),
        percent_encode(bytes).len() == encoded_len(bytes),
        percent_decode(percent_encode(bytes)) == bytes,
        (forall|k: int| 0 <= k < bytes.len() ==> unreserved_byte(#[trigger] bytes[k])) ==> percent_encode(bytes)
            == bytes.map_values(|b: u8| b as char),
    decreases bytes.len(),
{
    if bytes.len() == 0 {
        assert(percent_decode(Seq::<char>::empty()) =~= Seq::<u8>::empty());
        assert(bytes.map_values(|b: u8| b as char) =~= Seq::<char>::empty());
    } else {
        let b = bytes[0];
        let rest = bytes.drop_first();
        law_percent_encoding(rest);
        assert(bytes =~= seq![b] + rest);
        lemma_encode_front(b, rest);
        lemma_decode_byte(b, percent_encode(rest));
        let e = encode_byte(b);
        assert(forall|k: int| 0 <= k < e.len() ==> url_safe_char(#[trigger] e[k])) by {
            if unreserved_byte(b) {
                assert((b as char) as u32 as u8 == b);
            } else {
                let hi = b / 16;
                let lo = b % 16;
                assert(unreserved_byte(hex_digit_upper(hi) as u32 as u8));
                assert(unreserved_byte(hex_digit_upper(lo) as u32 as u8));
            }
        }
        let whole = percent_encode(bytes);
        assert(whole =~= e + percent_encode(rest));
        assert forall|k: int| 0 <= k < whole.len() implies url_safe_char(#[trigger] whole[k]) by {
            if k >= e.len() {
                assert(whole[k] == percent_encode(rest)[k - e.len()]);
            } else {
                assert(whole[k] == e[k]);
            }
        }
        assert(encoded_len(bytes) == encoded_len(rest) + if unreserved_byte(b) { 1nat } else { 3nat }) by {
            lemma_encoded_len_front(b, rest);
        }
        assert(seq![b] + percent_decode(percent_encode(rest)) =~= bytes);
        if forall|k: int| 0 <= k < bytes.len() ==> unreserved_byte(#[trigger] bytes[k]) {
            assert(unreserved_byte(bytes[0]));
            assert forall|k: int| 0 <= k < rest.len() implies unreserved_byte(#[trigger] rest[k]) by {
                assert(rest[k] == bytes[k + 1]);
            }
            assert(bytes.map_values(|x: u8| x as char) =~= seq![b as char] + rest.map_values(|x: u8| x as char));
        }
    }
}

/// The encoded length counts a byte in front of others first.
proof fn lemma_encoded_len_front(b: u8, rest: Seq<u8>)
    ensures
        encoded_len(seq![b] + rest) == encoded_len(rest) + if unreserved_byte(b) { 1nat } else { 3nat },
    decreases rest.len(),
{
    if rest.len() == 0 {
        assert(seq![b] + rest =~= seq![b]);
        assert((seq![b]).drop_last() =~= Seq::<u8>::empty());
        assert(encoded_len(Seq::<u8>::empty()) == 0);
        assert(encoded_len(rest) == 0);
        assert(encoded_len(seq![b]) == encoded_len(seq![b].drop_last()) + if unreserved_byte(b) { 1nat } else { 3nat });
    } else {
        lemma_encoded_len_front(b, rest.drop_last());
        assert((seq![b] + rest).drop_last() =~= seq![b] + rest.drop_last());
        assert((seq![b] + rest).last() == rest.last());
    }
}

/// The character for an ASCII byte.
fn ascii_char(b: u8) -> (res: char)
    requires
        b < 128,
    ensures
        res == b as char,
{
    b as char
}

/// The upper-case hexadecimal digit for `n`.
fn hex_upper(n: u8) -> (res: char)
    requires
        n < 16,
    ensures
        res == hex_digit_upper(n),
{
    if n < 10 {
        ascii_char(48 + n)
    } else {
        ascii_char(55 + n)
    }
}

/// Percent-encode every byte of `raw` that is not unreserved.
pub fn encoded(raw: &str) -> (res: String)
    ensures
        res@ == percent_encode(raw.spec_bytes()),
{
    let bytes = raw.as_bytes();
    let mut res = String::new();
    let mut i: usize = 0;
    while i < bytes.len()
        invariant
            bytes@ == raw.spec_bytes(),
            i <= bytes@.len(),
            res@ == percent_encode(bytes@.take(i as int)),
        decreases bytes@.len() - i,
    {
        let b = bytes[i];
        let ghost before = res@;
        if (97 <= b && b <= 122) || (65 <= b && b <= 90) || (48 <= b && b <= 57) || b == 45 || b == 95
            || b == 46 || b == 126 {
            push_char(&mut res, ascii_char(b));
        } else {
            push_char(&mut res, '%');
            push_char(&mut res, hex_upper(b / 16));
            push_char(&mut res, hex_upper(b % 16));
        }
        assert(bytes@.take(i + 1).drop_last() =~= bytes@.take(i as int));
        assert(res@ =~= before + encode_byte(b));
        i += 1;
    }
    assert(bytes@.take(bytes@.len() as int) =~= bytes@);
    res
}

/// A Temper base URL requests may be sent to.
pub open spec fn base_ok(base: Seq<char>) -> bool {
    has_prefix(base, "https://"@) || has_prefix(base, "http://127.0.0.1:"@)
}

/// The URL of an entity (or, with `file`, of its file content).
pub open spec fn read_url(base: Seq<char>, set: Seq<char>, id: Seq<char>, file: bool) -> Seq<char> {
    trim_end_char(base, '/') + "/tdata/"@ + set + "('"@ + id + "')"@ + if file {
        "/$value"@
    } else {
        seq![]
    }
}

/// Why a read is refused before any request is made, if it is.
pub open spec fn read_refusal(base: Seq<char>, set: &str, id: &str) -> Option<Seq<char>> {
    if !identifier_ok(set.spec_bytes()) || !identifier_ok(id.spec_bytes()) {
        Some("invalid identifier"@)
    } else if !base_ok(base) {
        Some("invalid Temper base"@)
    } else {
        None
    }
}

/// The request `read` sends: an authenticated, tenant-scoped GET.
pub open spec fn is_read_request(
    r: Request,
    base: Seq<char>,
    tenant: Seq<char>,
    key: Seq<char>,
    set: Seq<char>,
    id: Seq<char>,
    file: bool,
) -> bool {
    &&& r.method@ == "GET"@
    &&& r.url@ == read_url(base, set, id, file)
    &&& r.headers@.len() == 2
    &&& r.headers@[0].0@ == "authorization"@
    &&& r.headers@[0].1@ == "Bearer "@ + key
    &&& r.headers@[1].0@ == "x-tenant-id"@
    &&& r.headers@[1].1@ == tenant
    &&& r.body@ == Seq::<char>::empty()
}

/// Build the request for reading entity `id` of `set`, or refuse it.
pub fn read_request(base: &str, tenant: &str, key: &str, set: &str, id: &str, file: bool) -> (res: Result<
    Request,
    Error,
>)
    ensures
        match read_refusal(base@, set, id) {
            Some(m) => res matches Err(e) && is_binding(e, m),
            None => res matches Ok(r) && is_read_request(r, base@, tenant@, key@, set@, id@, file),
        },
{
    proof {
        reveal_strlit("invalid Temper base");
    }
    identifier(set)?;
    identifier(id)?;
    if !str_starts_with(base, "https://") && !str_starts_with(base, "http://127.0.0.1:") {
        return Err(Error::Binding("invalid Temper base"));
    }
    let mut url = trim_end_matches_char(base, '/');
    url.append("/tdata/");
    url.append(set);
    url.append("('");
    url.append(id);
    url.append("')");
    if file {
        url.append("/$value");
    }
    let mut bearer = String::from_str("Bearer ");
    bearer.append(key);
    let mut headers: Vec<(String, String)> = Vec::new();
    headers.push((String::from_str("authorization"), bearer));
    headers.push((String::from_str("x-tenant-id"), String::from_str(tenant)));
    let r = Request { method: "GET", url, headers, body: String::new() };
    assert(r.url@ =~= read_url(base@, set@, id@, file));
    Ok(r)
}

/// Why a credential value is refused, if it is: empty, or holding a line break.
pub open spec fn credential_ok(secret: Seq<char>) -> bool {
    secret.len() > 0 && !secret.contains('\r') && !secret.contains('\n')
}

/// Accept a secret value as a header credential, or refuse it.
pub fn check_credential(secret: String) -> (res: Result<String, Error>)
    ensures
        credential_ok(secret@) ==> (res matches Ok(s) && s@ == secret@),
        !credential_ok(secret@) ==> (res matches Err(e) && is_binding(e, "invalid credential"@)),
{
    proof {
        reveal_strlit("invalid credential");
    }
    if secret.as_str().unicode_len() == 0 || str_has_char(secret.as_str(), '\r') || str_has_char(
        secret.as_str(),
        '\n',
    ) {
        return Err(Error::Binding("invalid credential"));
    }
    Ok(secret)
}

impl<'a, H: Host> Runtime<'a, H> {
    /// Read entity `id` of `set` (its file content with `file`) from Temper.
    ///
    /// Identifiers and the base URL are checked before anything is sent; the
    /// request is the one `read_request` builds, and the host's answer is
    /// returned as it came.
    pub fn read(&mut self, set: &str, id: &str, file: bool) -> (res: Result<Response, Error>)
        ensures
            read_refusal(old(self).base@, set, id) matches Some(m) ==> (res matches Err(e)
                && is_binding(e, m)),
    {
        let request = read_request(self.base, self.tenant, self.key, set, id, file)?;
        self.host.request(&request)
    }

    /// Look up credential `name` through the host and check its value.
    pub fn credential(&mut self, name: &str) -> (res: Result<String, Error>)
        ensures
            !identifier_ok(name.spec_bytes()) ==> (res matches Err(e) && is_binding(
                e,
                "invalid identifier"@,
            )),
            res matches Ok(s) ==> identifier_ok(name.spec_bytes()) && credential_ok(s@),
    {
        identifier(name)?;
        let secret = self.host.secret(name)?;
        check_credential(secret)
    }
}

/// What `char::to_uppercase` makes of a character, as text.
pub uninterp spec fn uppercase_of(c: char) -> Seq<char>;

/// `char::to_uppercase`, collected. Claimed: the text depends on the
/// character alone, and an ASCII lowercase letter becomes its capital.
#[verifier::external_body]
fn char_uppercase(c: char) -> (res: String)
    ensures
        res@ == uppercase_of(c),
        ('a' <= c && c <= 'z') ==> res@ == seq![((c as u32) - 32) as char],
{
    c.to_uppercase().collect()
}

/// A piece with its first character upper-cased.
pub open spec fn capitalized(piece: Seq<char>) -> Seq<char> {
    if piece.len() == 0 {
        seq![]
    } else {
        uppercase_of(piece[0]) + piece.drop_first()
    }
}

/// The pieces run together.
pub open spec fn concat_all(pieces: Seq<Seq<char>>) -> Seq<char>
    decreases pieces.len(),
{
    if pieces.len() == 0 {
        seq![]
    } else {
        concat_all(pieces.drop_last()) + pieces.last()
    }
}

/// `snake_case` as `PascalCase`: each `_`-separated piece capitalized, the
/// pieces run together.
pub open spec fn pascal_case(name: Seq<char>) -> Seq<char> {
    concat_all(split_char(name, '_').map_values(|p: Seq<char>| capitalized(p)))
}

/// The PascalCase form of a snake_case name.
pub fn pascal(name: &str) -> (res: String)
    ensures
        res@ == pascal_case(name@),
{
    let pieces = split_on_char(&chars_of(name), '_');
    let ghost pv = pieces@.map_values(|p: Vec<char>| p@);
    let ghost cv = pv.map_values(|p: Seq<char>| capitalized(p));
    let mut out = String::new();
    let mut i: usize = 0;
    proof {
        assert(cv.take(0) =~= Seq::<Seq<char>>::empty());
    }
    while i < pieces.len()
        invariant
            i <= pieces@.len(),
            pv == pieces@.map_values(|p: Vec<char>| p@),
            cv == pv.map_values(|p: Seq<char>| capitalized(p)),
            out@ == concat_all(cv.take(i as int)),
        decreases pieces@.len() - i,
    {
        let piece = &pieces[i];
        proof {
            assert(cv.take(i + 1).drop_last() =~= cv.take(i as int));
            assert(cv.take(i + 1).last() == capitalized(piece@));
        }
        if piece.len() > 0 {
            let first = char_uppercase(piece[0]);
            let rest = string_from_chars(&slice_chars(piece, 1, piece.len()));
            let ghost before = out@;
            out.append(first.as_str());
            out.append(rest.as_str());
            assert(out@ =~= before + capitalized(piece@));
        } else {
            assert(capitalized(piece@) =~= Seq::<char>::empty());
            assert(out@ =~= out@ + capitalized(piece@));
        }
        i += 1;
    }
    assert(cv.take(i as int) =~= cv);
    out
}

/// The record a field is looked up in: its `fields` object when it has one.
pub open spec fn field_record(value: JsonV) -> JsonV {
    match spec_get(value, "fields"@) {
        Some(f) => f,
        None => value,
    }
}

/// Field `name` of a record, under its own name or its PascalCase form.
pub open spec fn spec_field(value: JsonV, name: Seq<char>) -> Option<JsonV> {
    let record = field_record(value);
    match spec_get(record, name) {
        Some(v) => Some(v),
        None => spec_get(record, pascal_case(name)),
    }
}

/// Field `name` of a record (or of its `fields` object), under its own name
/// or its PascalCase form.
pub fn field<'a>(value: &'a Json, name: &str) -> (res: Option<&'a Json>)
    ensures
        opt_json(res) == spec_field(value@, name@),
{
    let record: &Json = match value.get("fields") {
        Some(f) => f,
        None => value,
    };
    match record.get(name) {
        Some(v) => Some(v),
        None => {
            let p = pascal(name);
            record.get(p.as_str())
        },
    }
}

/// The error of a missing or unusable field.
pub open spec fn is_field_error(e: Error, name: Seq<char>) -> bool {
    e matches Error::Field(n) && n@ == name
}

/// The non-empty string field `name`, if there is one.
pub open spec fn spec_required(value: JsonV, name: Seq<char>) -> Option<Seq<char>> {
    match spec_field(value, name) {
        Some(v) => match crate::json::spec_as_str(v) {
            Some(s) => if s.len() > 0 {
                Some(s)
            } else {
                None
            },
            None => None,
        },
        None => None,
    }
}

/// Field `name` as a non-empty string, or a field error naming it.
pub fn required<'a>(value: &'a Json, name: &str) -> (res: Result<&'a str, Error>)
    ensures
        match spec_required(value@, name@) {
            Some(s) => res matches Ok(r) && r@ == s,
            None => res matches Err(e) && is_field_error(e, name@),
        },
{
    match field(value, name) {
        Some(v) => match v.as_str() {
            Some(s) => {
                if s.unicode_len() > 0 {
                    return Ok(s);
                }
            },
            None => {},
        },
        None => {},
    }
    Err(Error::Field(name.to_string()))
}

/// Field `name` as JSON: a string holding JSON text is read, any other value
/// taken as it is.
pub open spec fn spec_decoded(value: JsonV, name: Seq<char>) -> Option<JsonV> {
    match spec_field(value, name) {
        Some(JsonV::String(raw)) => parsed_json(raw),
        Some(v) => Some(v),
        None => None,
    }
}

/// Field `name` decoded as JSON, or a field error naming it.
pub fn decoded(value: &Json, name: &str) -> (res: Result<Json, Error>)
    ensures
        match spec_decoded(value@, name@) {
            Some(v) => res matches Ok(r) && r@ == v,
            None => res matches Err(e) && is_field_error(e, name@),
        },
{
    let v = match field(value, name) {
        Some(v) => v,
        None => return Err(Error::Field(name.to_string())),
    };
    match v {
        Json::String(raw) => {
            assert(v@ == JsonV::String(raw@));
            match parse_json(raw.as_str()) {
                Some(parsed) => Ok(parsed),
                None => Err(Error::Field(name.to_string())),
            }
        },
        _ => Ok(v.duplicate()),
    }
}

/// Largest response body read as JSON, in bytes.
pub const MAX_JSON_BODY_BYTES: usize = 1048576;

/// What reading a response as JSON gives: an HTTP error outside 2xx, a
/// response error for a body over the limit or not JSON, the value otherwise.
pub open spec fn spec_json_body(status: u16, body: Seq<char>, body_len: usize) -> Result<JsonV, (Option<u16>, ())> {
    if !(200 <= status && status < 300) {
        Err((Some(status), ()))
    } else if body_len > MAX_JSON_BODY_BYTES {
        Err((None, ()))
    } else {
        match parsed_json(body) {
            Some(v) => Ok(v),
            None => Err((None, ())),
        }
    }
}

/// The error `json_body` reports for `source`.
pub open spec fn is_body_error(e: Error, status: Option<u16>, source: Seq<char>) -> bool {
    match status {
        Some(s) => e matches Error::Http(code, src) && code == s && src@ == source,
        None => e matches Error::Response(src) && src@ == source,
    }
}

/// Read a response as JSON, attributing failures to `source`.
pub fn json_body(response: Response, source: &'static str) -> (res: Result<Json, Error>)
    ensures
        match spec_json_body(response.status, response.body@, vstd::utf8::encode_utf8(response.body@).len() as usize) {
            Ok(v) => res matches Ok(r) && r@ == v,
            Err((status, _)) => res matches Err(e) && is_body_error(e, status, source@),
        },
{
    if !(200 <= response.status && response.status < 300) {
        return Err(Error::Http(response.status, source));
    }
    if response.body.as_str().len() > MAX_JSON_BODY_BYTES {
        return Err(Error::Response(source));
    }
    match parse_json(response.body.as_str()) {
        Some(v) => Ok(v),
        None => Err(Error::Response(source)),
    }
}

/// A provider reply that lists errors.
pub open spec fn has_provider_errors(value: JsonV) -> bool {
    match spec_get(value, "errors"@) {
        Some(e) => match spec_as_array(e) {
            Some(items) => items.len() > 0,
            None => false,
        },
        None => false,
    }
}

/// Whether a provider reply lists errors.
pub fn provider_errors(value: &Json) -> (res: bool)
    ensures
        res == has_provider_errors(value@),
{
    match value.get("errors") {
        Some(e) => match e.as_array() {
            Some(items) => {
                proof {
                    crate::json::lemma_items_view(items@);
                }
                items.len() > 0
            },
            None => false,
        },
        None => false,
    }
}

/// The request `bearer_json` sends: the method and URL as given, a bearer
/// credential and a JSON content type, and the body's JSON text unless the
/// method is `GET` or `HEAD`.
pub open spec fn is_bearer_request(
    r: Request,
    secret: Seq<char>,
    method: Seq<char>,
    url: Seq<char>,
    body: JsonV,
) -> bool {
    &&& r.method@ == method
    &&& r.url@ == url
    &&& r.headers@.len() == 2
    &&& r.headers@[0].0@ == "authorization"@
    &&& r.headers@[0].1@ == "Bearer "@ + secret
    &&& r.headers@[1].0@ == "content-type"@
    &&& r.headers@[1].1@ == "application/json"@
    &&& r.body@ == if method == "GET"@ || method == "HEAD"@ {
        ""@
    } else {
        crate::json_text::serialized_json(body)
    }
}

/// The request a provider call sends with credential `secret`.
pub fn bearer_request(secret: &str, method: &'static str, url: String, body: &Json) -> (res: Request)
    ensures
        is_bearer_request(res, secret@, method@, url@, body@),
{
    proof {
        reveal_strlit("");
    }
    let mut bearer = String::from_str("Bearer ");
    bearer.append(secret);
    let mut headers: Vec<(String, String)> = Vec::new();
    headers.push((String::from_str("authorization"), bearer));
    headers.push((String::from_str("content-type"), String::from_str("application/json")));
    assert(headers@.len() == 2);
    assert(headers@[0].0@ == "authorization"@);
    assert(headers@[0].1@ == "Bearer "@ + secret@);
    assert(headers@[1].0@ == "content-type"@);
    assert(headers@[1].1@ == "application/json"@);
    let text = if crate::text::str_eq(method, "GET") || crate::text::str_eq(method, "HEAD") {
        String::new()
    } else {
        crate::json_text::to_json_text(body)
    };
    assert(text@ == if method@ == "GET"@ || method@ == "HEAD"@ {
        ""@
    } else {
        crate::json_text::serialized_json(body@)
    });
    let r = Request { method, url, headers, body: text };
    assert(r.headers@[0].0@ == "authorization"@);
    r
}

/// What a provider reply is read as: `json_body`'s reading of it for the
/// source `provider`, with a value that lists errors refused as
/// `provider errors`.
pub open spec fn spec_provider_reply(status: u16, body: Seq<char>) -> Result<JsonV, (Option<u16>, Seq<char>)> {
    match spec_json_body(status, body, vstd::utf8::encode_utf8(body).len() as usize) {
        Ok(v) => if has_provider_errors(v) {
            Err((None, "provider errors"@))
        } else {
            Ok(v)
        },
        Err((s, _)) => Err((s, "provider"@)),
    }
}

/// A result that carries an expected reading: the value, or the error for
/// the status and source given.
pub open spec fn reads_as(res: Result<Json, Error>, expected: Result<JsonV, (Option<u16>, Seq<char>)>) -> bool {
    match expected {
        Ok(v) => res matches Ok(r) && r@ == v,
        Err((s, src)) => res matches Err(e) && is_body_error(e, s, src),
    }
}

/// Reads a provider reply as JSON; a reply that lists errors is refused.
pub fn provider_reply(response: Response) -> (res: Result<Json, Error>)
    ensures
        reads_as(res, spec_provider_reply(response.status, response.body@)),
{
    proof {
        reveal_strlit("provider");
    }
    let value = json_body(response, "provider")?;
    if provider_errors(&value) {
        return Err(Error::Response("provider errors"));
    }
    Ok(value)
}

impl<'a, H: Host> Runtime<'a, H> {
    /// Read row `id` of `set` from Temper as JSON. The response comes from
    /// the host; a value returned is `json_body`'s reading of some response.
    pub fn row(&mut self, set: &str, id: &str) -> (res: Result<Json, Error>)
        ensures
            read_refusal(old(self).base@, set, id) matches Some(m) ==> (res matches Err(e)
                && is_binding(e, m)),
            res matches Ok(v) ==> exists|status: u16, body: Seq<char>|
                #[trigger] spec_json_body(status, body, vstd::utf8::encode_utf8(body).len() as usize) == Ok::<
                    JsonV,
                    (Option<u16>, ()),
                >(v@),
    {
        let response = self.read(set, id, false)?;
        let ghost status = response.status;
        let ghost body = response.body@;
        let res = json_body(response, "Temper");
        proof {
            if res is Ok {
                assert(spec_json_body(status, body, vstd::utf8::encode_utf8(body).len() as usize) == Ok::<
                    JsonV,
                    (Option<u16>, ()),
                >(res->Ok_0@));
            }
        }
        res
    }

    /// Call a provider API with the bearer credential `secret_name` and read
    /// its JSON reply with `provider_reply`. The reply comes from the host; a
    /// value returned is `provider_reply`'s reading of some reply.
    pub fn bearer_json(&mut self, secret_name: &str, method: &'static str, url: String, body: Json) -> (res: Result<
        Json,
        Error,
    >)
        ensures
            !identifier_ok(secret_name.spec_bytes()) ==> (res matches Err(e) && is_binding(
                e,
                "invalid identifier"@,
            )),
            res matches Ok(v) ==> exists|status: u16, reply: Seq<char>|
                #[trigger] spec_provider_reply(status, reply) == Ok::<JsonV, (Option<u16>, Seq<char>)>(v@),
            res matches Ok(v) ==> !has_provider_errors(v@),
    {
        let secret = self.credential(secret_name)?;
        let request = bearer_request(secret.as_str(), method, url, &body);
        let response = self.host.request(&request)?;
        let ghost status = response.status;
        let ghost reply = response.body@;
        let res = provider_reply(response);
        proof {
            if res is Ok {
                assert(spec_provider_reply(status, reply) == Ok::<JsonV, (Option<u16>, Seq<char>)>(res->Ok_0@));
            }
        }
        res
    }
}

} // verus!
