//! The browser sign-in: the address the browser is sent to, the local address it
//! comes back to, and the reading of the authorization code from that callback.

use vstd::prelude::*;
use vstd::utf8::{
    decode_utf8, encode_scalar, encode_utf8, encode_utf8_decode_utf8, encode_utf8_valid_utf8,
    valid_utf8,
};
use crate::auth::{login_base, SCOPES};
use crate::config::{Config, ConfigView};
use crate::text::{
    lemma_find_char, lemma_find_char_unique,
    chars_of, decimal, decimal_string, find_char, find_char_in, same_text, slice_chars,
    seq_join, string_of, text_result,
};

verus! {

/// Whether a byte is left as it is by URL encoding: ASCII letters and digits,
/// '-', '.', '_' and '~'.
pub open spec fn url_safe_byte(b: u8) -> bool {
    ||| 0x30 <= b <= 0x39
    ||| 0x41 <= b <= 0x5a
    ||| 0x61 <= b <= 0x7a
    ||| b == 0x2d || b == 0x2e || b == 0x5f || b == 0x7e
}

/// The upper-case hexadecimal digit for `d` (below 16).
pub open spec fn hex_digit(d: int) -> char {
    if d < 10 { (0x30 + d) as char } else { (0x41 + d - 10) as char }
}

/// Percent-encoding of bytes: safe bytes stay, every other byte becomes '%' and two
/// upper-case hex digits.
pub open spec fn percent_encode(bytes: Seq<u8>) -> Seq<char>
    decreases bytes.len(),
{
    if bytes.len() == 0 {
        Seq::empty()
    } else {
        let b = bytes[0];
        (if url_safe_byte(b) {
            seq![b as char]
        } else {
            seq!['%', hex_digit(b as int / 16), hex_digit(b as int % 16)]
        }) + percent_encode(bytes.drop_first())
    }
}

/// URL encoding of a text: percent-encoding of its UTF-8 bytes.
pub open spec fn url_encoded(s: Seq<char>) -> Seq<char> {
    percent_encode(encode_utf8(s))
}

/// `urlencoding::encode`: the text with every byte of its UTF-8 form percent-encoded
/// except ASCII letters, digits, '-', '.', '_' and '~' (hex digits upper-case), as the
/// crate documents and its source does.
#[verifier::external_body]
fn url_encode(s: &str) -> (r: String)
    ensures
        r@ == url_encoded(s@),
{
    urlencoding::encode(s).into_owned()
}

/// The value of an ASCII hexadecimal digit (either case), if `b` is one.
pub open spec fn hex_value(b: u8) -> Option<u8> {
    if 0x30 <= b <= 0x39 {
        Some((b - 0x30) as u8)
    } else if 0x41 <= b <= 0x46 {
        Some((b - 0x41 + 10) as u8)
    } else if 0x61 <= b <= 0x66 {
        Some((b - 0x61 + 10) as u8)
    } else {
        None
    }
}

/// Percent-decoding of bytes: '%' followed by two hex digits becomes the byte they
/// spell; every other byte, a '%' without two hex digits after it included, stays.
pub open spec fn percent_decode(bytes: Seq<u8>) -> Seq<u8>
    decreases bytes.len(),
{
    if bytes.len() == 0 {
        Seq::empty()
    } else if bytes[0] == 0x25 && bytes.len() >= 3 && hex_value(bytes[1]) is Some
        && hex_value(bytes[2]) is Some {
        seq![(hex_value(bytes[1])->0 * 16 + hex_value(bytes[2])->0) as u8] + percent_decode(bytes.skip(3))
    } else {
        seq![bytes[0]] + percent_decode(bytes.drop_first())
    }
}

/// The message `urlencoding::decode` gives for a text whose decoded bytes are not UTF-8.
pub uninterp spec fn url_decode_error(s: Seq<char>) -> Seq<char>;

/// What URL decoding gives for a text: the text its percent-decoded UTF-8 bytes
/// spell, or the error where those bytes are not valid UTF-8.
pub open spec fn url_decoded(s: Seq<char>) -> Result<Seq<char>, Seq<char>> {
    let bytes = percent_decode(encode_utf8(s));
    if valid_utf8(bytes) { Ok(decode_utf8(bytes)) } else { Err(url_decode_error(s)) }
}

/// No byte of the UTF-8 form of a character other than '%' is the byte of '%'.
proof fn lemma_scalar_has_no_percent_byte(c: char)
    requires
        c != '%',
    ensures
        forall|i: int| 0 <= i < encode_scalar(c as u32).len() ==> #[trigger] encode_scalar(c as u32)[i] != 0x25u8,
{
    let u = c as u32;
    assert(u != 0x25);
    assert(u <= 0x7f && u != 0x25 ==> (u & 0x7f) as u8 != 0x25u8) by (bit_vector);
    assert(forall|y: u8| (0xC0u8 | y) != 0x25u8) by (bit_vector);
    assert(forall|y: u8| (0xE0u8 | y) != 0x25u8) by (bit_vector);
    assert(forall|y: u8| (0xF0u8 | y) != 0x25u8) by (bit_vector);
    assert(forall|y: u8| (0x80u8 | y) != 0x25u8) by (bit_vector);
}

/// The UTF-8 form of a text without '%' holds no byte of '%'.
proof fn lemma_encoding_has_no_percent_byte(s: Seq<char>)
    requires
        !s.contains('%'),
    ensures
        forall|i: int| 0 <= i < encode_utf8(s).len() ==> encode_utf8(s)[i] != 0x25u8,
    decreases s.len(),
{
    if s.len() > 0 {
        assert(s[0] != '%') by {
            if s[0] == '%' {
                assert(s.contains('%'));
            }
        }
        lemma_scalar_has_no_percent_byte(s[0]);
        assert(!s.drop_first().contains('%')) by {
            if s.drop_first().contains('%') {
                let j = choose|j: int| 0 <= j < s.drop_first().len() && s.drop_first()[j] == '%';
                assert(s[j + 1] == '%');
            }
        }
        lemma_encoding_has_no_percent_byte(s.drop_first());
        let a = encode_scalar(s[0] as u32);
        let b = encode_utf8(s.drop_first());
        assert(encode_utf8(s) == a + b);
        assert forall|i: int| 0 <= i < encode_utf8(s).len() implies encode_utf8(s)[i] != 0x25u8 by {
            if i < a.len() {
                assert((a + b)[i] == a[i]);
            } else {
                assert((a + b)[i] == b[i - a.len()]);
            }
        }
    }
}

/// Percent-decoding leaves bytes without a '%' as they are.
proof fn lemma_percent_decode_plain(bytes: Seq<u8>)
    requires
        forall|i: int| 0 <= i < bytes.len() ==> bytes[i] != 0x25u8,
    ensures
        percent_decode(bytes) == bytes,
    decreases bytes.len(),
{
    if bytes.len() > 0 {
        lemma_percent_decode_plain(bytes.drop_first());
        assert(bytes =~= seq![bytes[0]] + bytes.drop_first());
    }
}

/// A text without '%' URL-decodes to itself.
pub proof fn lemma_plain_text_decodes_to_itself(s: Seq<char>)
    requires
        !s.contains('%'),
    ensures
        url_decoded(s) == Ok::<Seq<char>, Seq<char>>(s),
{
    broadcast use encode_utf8_valid_utf8, encode_utf8_decode_utf8;

    lemma_encoding_has_no_percent_byte(s);
    lemma_percent_decode_plain(encode_utf8(s));
}

/// `urlencoding::decode`, with its error turned into its message: the text's UTF-8
/// bytes are percent-decoded ('%' and two hex digits of either case give a byte,
/// anything else stays as it is), and the result is the text those bytes spell, or
/// the `FromUtf8Error`'s message (named `url_decode_error`) where they are not UTF-8.
#[verifier::external_body]
fn url_decode(s: &str) -> (r: Result<String, String>)
    ensures
        text_result(r) == url_decoded(s@),
        r matches Err(e) ==> e@ == url_decode_error(s@),
{
    match urlencoding::decode(s) {
        Ok(d) => Ok(d.into_owned()),
        Err(e) => Err(e.to_string()),
    }
}

/// `std::str::from_utf8`: the text that `bytes` encode, or `None` where they are not
/// valid UTF-8 (in vstd's definitions `valid_utf8` and `decode_utf8`).
#[verifier::external_body]
fn utf8_text(bytes: &[u8]) -> (r: Option<String>)
    ensures
        r is Some <==> valid_utf8(bytes@),
        r matches Some(s) ==> s@ == decode_utf8(bytes@),
{
    match std::str::from_utf8(bytes) {
        Ok(s) => Some(s.to_string()),
        Err(_) => None,
    }
}

/// The local address the browser is sent back to.
pub open spec fn spec_redirect_uri(port: u16) -> Seq<char> {
    "http://localhost:"@ + decimal(port as nat) + "/"@
}

/// `http://localhost:<port>/`.
pub fn redirect_uri(port: u16) -> (uri: String)
    ensures
        uri@ == spec_redirect_uri(port),
{
    let mut uri = "http://localhost:".to_string();
    uri.append(decimal_string(port as u64).as_str());
    uri.append("/");
    uri
}

/// The sign-in page the browser is opened on.
pub open spec fn spec_authorize_url(c: ConfigView, redirect_uri: Seq<char>) -> Seq<char> {
    login_base(c.tenant_id) + "authorize?client_id="@ + c.client_id + "&response_type=code&redirect_uri="@
        + url_encoded(redirect_uri) + "&scope="@ + url_encoded(SCOPES@) + "&response_mode=query"@
}

/// The sign-in page for the configured tenant and client, coming back to `redirect_uri`.
pub fn authorize_url(config: &Config, redirect_uri: &str) -> (url: String)
    ensures
        url@ == spec_authorize_url(config@, redirect_uri@),
{
    let mut url = "https://login.microsoftonline.com/".to_string();
    url.append(config.tenant_id.as_str());
    url.append("/oauth2/v2.0/");
    url.append("authorize?client_id=");
    url.append(config.client_id.as_str());
    url.append("&response_type=code&redirect_uri=");
    url.append(url_encode(redirect_uri).as_str());
    url.append("&scope=");
    url.append(url_encode(SCOPES).as_str());
    url.append("&response_mode=query");
    url
}


/// The first line of a text: up to the first '\n', without a '\r' just before it;
/// the whole text where it has no '\n'.
pub open spec fn first_line(text: Seq<char>) -> Seq<char> {
    let k = find_char(text, '\n');
    if k < text.len() {
        let line = text.take(k);
        if line.len() > 0 && line.last() == '\r' { line.drop_last() } else { line }
    } else {
        text
    }
}

/// Unicode White_Space, the characters `char::is_whitespace` accepts.
pub open spec fn is_white_space(c: char) -> bool {
    let u = c as u32;
    ||| 0x9 <= u <= 0xd
    ||| u == 0x20 || u == 0x85 || u == 0xa0 || u == 0x1680
    ||| 0x2000 <= u <= 0x200a
    ||| u == 0x2028 || u == 0x2029 || u == 0x202f || u == 0x205f || u == 0x3000
}

fn white_space(c: char) -> (r: bool)
    ensures
        r == is_white_space(c),
{
    let u = c as u32;
    (0x9 <= u && u <= 0xd) || u == 0x20 || u == 0x85 || u == 0xa0 || u == 0x1680
        || (0x2000 <= u && u <= 0x200a) || u == 0x2028 || u == 0x2029 || u == 0x202f
        || u == 0x205f || u == 0x3000
}

/// The maximal runs of non-white-space characters of a text, in order.
pub open spec fn words(s: Seq<char>) -> Seq<Seq<char>>
    decreases s.len(),
{
    if s.len() == 0 {
        Seq::empty()
    } else {
        let earlier = words(s.drop_last());
        let c = s.last();
        if is_white_space(c) {
            earlier
        } else if s.len() > 1 && !is_white_space(s[s.len() - 2]) {
            earlier.drop_last().push(earlier.last().push(c))
        } else {
            earlier.push(seq![c])
        }
    }
}

/// The pieces of a text between the separators `sep` (an empty text is one empty piece).
pub open spec fn split_on(s: Seq<char>, sep: char) -> Seq<Seq<char>>
    decreases s.len(),
{
    if s.len() == 0 {
        seq![Seq::empty()]
    } else {
        let earlier = split_on(s.drop_last(), sep);
        if s.last() == sep {
            earlier.push(Seq::empty())
        } else {
            earlier.drop_last().push(earlier.last().push(s.last()))
        }
    }
}

/// The texts of a list of character vectors.
pub open spec fn texts(v: Seq<Vec<char>>) -> Seq<Seq<char>> {
    v.map_values(|x: Vec<char>| x@)
}

/// The path of an HTTP request line: its second word, or nothing.
pub open spec fn request_path(line: Seq<char>) -> Seq<char> {
    if words(line).len() >= 2 { words(line)[1] } else { Seq::empty() }
}

/// The query of a path: what follows the first '?', or nothing.
pub open spec fn query_of(path: Seq<char>) -> Seq<char> {
    let k = find_char(path, '?');
    if k < path.len() { path.skip(k + 1) } else { Seq::empty() }
}

/// The decoded text, or nothing where decoding fails.
pub open spec fn decoded_or_empty(s: Seq<char>) -> Seq<char> {
    match url_decoded(s) {
        Ok(d) => d,
        Err(_) => Seq::empty(),
    }
}

/// The message for an error description as `urlencoding::decode` gave it back: the
/// decoded text after "OAuth error: ", or nothing after it where decoding failed.
pub fn oauth_error(decoded: Result<String, String>) -> (e: String)
    ensures
        e@ == "OAuth error: "@ + match text_result(decoded) {
            Ok(d) => d,
            Err(_) => Seq::<char>::empty(),
        },
{
    let mut e = "OAuth error: ".to_string();
    if let Ok(d) = decoded {
        e.append(d.as_str());
    }
    e
}

/// Looks through `key=value` pairs in order: the first "error_description" gives the
/// OAuth error, the first "code" gives the decoded code; a piece without '=' and
/// any other key are passed over.
pub open spec fn scan_pairs(pairs: Seq<Seq<char>>) -> Result<Seq<char>, Seq<char>>
    decreases pairs.len(),
{
    if pairs.len() == 0 {
        Err("No authorization code in callback"@)
    } else {
        let p = pairs[0];
        let k = find_char(p, '=');
        if k < p.len() && p.take(k) == "error_description"@ {
            Err("OAuth error: "@ + decoded_or_empty(p.skip(k + 1)))
        } else if k < p.len() && p.take(k) == "code"@ {
            url_decoded(p.skip(k + 1))
        } else {
            scan_pairs(pairs.drop_first())
        }
    }
}

/// What the sign-in callback request gives: the authorization code of its query, or
/// the error.
pub open spec fn spec_extract_code(request: Seq<u8>) -> Result<Seq<char>, Seq<char>> {
    if !valid_utf8(request) {
        Err("Invalid UTF-8 in request"@)
    } else {
        scan_pairs(split_on(query_of(request_path(first_line(decode_utf8(request)))), '&'))
    }
}

/// The first line of `text`.
fn first_line_of(text: &Vec<char>) -> (line: Vec<char>)
    ensures
        line@ == first_line(text@),
{
    let k = find_char_in(text, '\n');
    if k < text.len() {
        if k > 0 && text[k - 1] == '\r' {
            let line = slice_chars(text, 0, k - 1);
            assert(line@ =~= text@.take(k as int).drop_last());
            line
        } else {
            let line = slice_chars(text, 0, k);
            assert(line@ =~= text@.take(k as int));
            line
        }
    } else {
        let line = slice_chars(text, 0, text.len());
        assert(line@ =~= text@);
        line
    }
}

/// The words of `s`.
fn words_of(s: &Vec<char>) -> (ws: Vec<Vec<char>>)
    ensures
        texts(ws@) == words(s@),
{
    let mut done: Vec<Vec<char>> = Vec::new();
    let mut cur: Vec<char> = Vec::new();
    let mut in_word = false;
    let mut i: usize = 0;
    while i < s.len()
        invariant
            i <= s.len(),
            in_word == (i > 0 && !is_white_space(s@[i - 1])),
            in_word ==> words(s@.take(i as int)) == texts(done@).push(cur@),
            !in_word ==> words(s@.take(i as int)) == texts(done@) && cur@.len() == 0,
        decreases s.len() - i,
    {
        let c = s[i];
        assert(s@.take(i + 1).drop_last() =~= s@.take(i as int));
        assert(s@.take(i + 1).last() == c);
        if white_space(c) {
            if in_word {
                let ghost before = texts(done@);
                let w = cur;
                cur = Vec::new();
                done.push(w);
                assert(texts(done@) =~= before.push(w@));
            }
            in_word = false;
        } else {
            let ghost before = words(s@.take(i as int));
            if in_word {
                assert(s@.take(i + 1)[i - 1] == s@[i - 1]);
                assert(before.drop_last() =~= texts(done@));
            } else {
                assert(cur@.push(c) =~= seq![c]);
            }
            cur.push(c);
            in_word = true;
        }
        i = i + 1;
    }
    assert(s@.take(s.len() as int) =~= s@);
    if in_word {
        let ghost before = texts(done@);
        let w = cur;
        done.push(w);
        assert(texts(done@) =~= before.push(w@));
    }
    done
}

/// The pieces of `s` between the separators `sep`.
fn split_chars(s: &Vec<char>, sep: char) -> (parts: Vec<Vec<char>>)
    ensures
        texts(parts@) == split_on(s@, sep),
{
    let mut done: Vec<Vec<char>> = Vec::new();
    let mut cur: Vec<char> = Vec::new();
    let mut i: usize = 0;
    assert(s@.take(0) =~= Seq::<char>::empty());
    assert(texts(done@).push(cur@) =~= seq![Seq::<char>::empty()]);
    while i < s.len()
        invariant
            i <= s.len(),
            split_on(s@.take(i as int), sep) == texts(done@).push(cur@),
        decreases s.len() - i,
    {
        let c = s[i];
        assert(s@.take(i + 1).drop_last() =~= s@.take(i as int));
        assert(s@.take(i + 1).last() == c);
        let ghost before = texts(done@);
        if c == sep {
            let w = cur;
            cur = Vec::new();
            done.push(w);
            assert(texts(done@) =~= before.push(w@));
        } else {
            assert(texts(done@).push(cur@).drop_last() =~= texts(done@));
            cur.push(c);
        }
        i = i + 1;
    }
    assert(s@.take(s.len() as int) =~= s@);
    let ghost before = texts(done@);
    let w = cur;
    done.push(w);
    assert(texts(done@) =~= before.push(w@));
    done
}

/// Whether the characters of `v` spell `lit`.
fn spells(v: &Vec<char>, lit: &str) -> (r: bool)
    ensures
        r == (v@ == lit@),
{
    let s = string_of(v);
    same_text(s.as_str(), lit)
}

/// Reads the authorization code from the raw bytes of the sign-in callback request
/// ("GET /?code=...&session_state=... HTTP/1.1").
pub fn extract_code(request: &[u8]) -> (r: Result<String, String>)
    ensures
        text_result(r) == spec_extract_code(request@),
{
    let text = match utf8_text(request) {
        Some(t) => t,
        None => return Err("Invalid UTF-8 in request".to_string()),
    };
    let chars = chars_of(text.as_str());
    let line = first_line_of(&chars);
    let ws = words_of(&line);
    let path: Vec<char> = if ws.len() >= 2 {
        slice_chars(&ws[1], 0, ws[1].len())
    } else {
        Vec::new()
    };
    assert(path@ =~= request_path(line@));
    let q = find_char_in(&path, '?');
    let query: Vec<char> = if q < path.len() { slice_chars(&path, q + 1, path.len()) } else { Vec::new() };
    assert(query@ =~= query_of(path@));
    let pairs = split_chars(&query, '&');
    let ghost all = texts(pairs@);
    let mut j: usize = 0;
    assert(all.skip(0) =~= all);
    while j < pairs.len()
        invariant
            all == texts(pairs@),
            scan_pairs(all) == spec_extract_code(request@),
            j <= pairs.len(),
            scan_pairs(all) == scan_pairs(all.skip(j as int)),
        decreases pairs.len() - j,
    {
        let p = &pairs[j];
        assert(all.skip(j as int)[0] == p@);
        assert(all.skip(j as int).drop_first() =~= all.skip(j + 1));
        let k = find_char_in(p, '=');
        if k < p.len() {
            let key = slice_chars(p, 0, k);
            let val = string_of(&slice_chars(p, k + 1, p.len()));
            assert(key@ =~= p@.take(k as int));
            assert(val@ =~= p@.skip(k + 1));
            if spells(&key, "error_description") {
                return Err(oauth_error(url_decode(val.as_str())));
            }
            if spells(&key, "code") {
                return url_decode(val.as_str());
            }
        }
        j = j + 1;
    }
    Err("No authorization code in callback".to_string())
}


/// Whether a `key=value` piece has the key `key`: it starts with `key` and '='.
pub open spec fn has_key(piece: Seq<char>, key: Seq<char>) -> bool {
    key.push('=').is_prefix_of(piece)
}

/// For a key without '=', the piece's text before its first '=' is the key exactly
/// when the piece starts with the key and '='.
proof fn lemma_key_before_first_equals(p: Seq<char>, key: Seq<char>)
    requires
        !key.contains('='),
    ensures
        (find_char(p, '=') < p.len() && p.take(find_char(p, '=')) == key) <==> has_key(p, key),
{
    lemma_find_char(p, '=');
    let k = find_char(p, '=');
    if has_key(p, key) {
        assert forall|j: int| 0 <= j < key.len() implies p[j] != '=' by {
            assert(p[j] == key.push('=')[j]);
            if key[j] == '=' {
                assert(key.contains('='));
            }
        }
        assert(p[key.len() as int] == key.push('=')[key.len() as int]);
        lemma_find_char_unique(p, '=', key.len() as int);
        assert(p.take(k) =~= key);
    }
    if k < p.len() && p.take(k) == key {
        assert(key.len() == k);
        assert(p.subrange(0, k + 1) =~= key.push('='));
    }
}

/// The key "code" and "error_description" hold no '='.
proof fn lemma_keys_have_no_equals()
    ensures
        !"code"@.contains('='),
        !"error_description"@.contains('='),
        "code"@ != "error_description"@,
{
    reveal_strlit("code");
    reveal_strlit("error_description");
    assert(!"code"@.contains('=')) by {
        if "code"@.contains('=') {
            let j = choose|j: int| 0 <= j < "code"@.len() && "code"@[j] == '=';
        }
    }
    assert(!"error_description"@.contains('=')) by {
        if "error_description"@.contains('=') {
            let j = choose|j: int| 0 <= j < "error_description"@.len() && "error_description"@[j] == '=';
        }
    }
    assert("code"@.len() != "error_description"@.len());
}

/// In a list of `key=value` pieces, a piece `code=V` with `V` free of '%', with no
/// "code" or "error_description" piece before it, gives exactly `V`: the whole text
/// after the first '=', whatever characters it holds.
pub proof fn lemma_code_piece_gives_its_value(pieces: Seq<Seq<char>>, i: int, v: Seq<char>)
    requires
        0 <= i < pieces.len(),
        pieces[i] == "code"@.push('=') + v,
        !v.contains('%'),
        forall|j: int| 0 <= j < i ==> !has_key(#[trigger] pieces[j], "code"@) && !has_key(pieces[j], "error_description"@),
    ensures
        scan_pairs(pieces) == Ok::<Seq<char>, Seq<char>>(v),
    decreases i,
{
    lemma_keys_have_no_equals();
    let p = pieces[0];
    lemma_key_before_first_equals(p, "code"@);
    lemma_key_before_first_equals(p, "error_description"@);
    if i == 0 {
        let key = "code"@;
        assert(key.push('=').is_prefix_of(p)) by {
            assert(p.subrange(0, key.len() as int + 1) =~= key.push('='));
        }
        let k = find_char(p, '=');
        lemma_find_char(p, '=');
        assert(k == key.len());
        assert(p.skip(k + 1) =~= v);
        lemma_plain_text_decodes_to_itself(v);
    } else {
        assert(!has_key(pieces[0], "code"@));
        assert forall|j: int| 0 <= j < i - 1 implies
            !has_key(#[trigger] pieces.drop_first()[j], "code"@) && !has_key(pieces.drop_first()[j], "error_description"@) by {
            assert(pieces.drop_first()[j] == pieces[j + 1]);
        }
        lemma_code_piece_gives_its_value(pieces.drop_first(), i - 1, v);
    }
}


/// Splitting never gives an empty list of pieces.
proof fn lemma_split_nonempty(s: Seq<char>, sep: char)
    ensures
        split_on(s, sep).len() >= 1,
    decreases s.len(),
{
    if s.len() > 0 {
        lemma_split_nonempty(s.drop_last(), sep);
    }
}

/// Splitting `a`, a separator, `b` gives the pieces of `a` followed by those of `b`.
proof fn lemma_split_concat(a: Seq<char>, b: Seq<char>, sep: char)
    ensures
        split_on(a.push(sep) + b, sep) == split_on(a, sep) + split_on(b, sep),
    decreases b.len(),
{
    let x = a.push(sep) + b;
    if b.len() == 0 {
        assert(x =~= a.push(sep));
        assert(x.drop_last() =~= a);
        assert(split_on(a, sep).push(Seq::empty()) =~= split_on(a, sep) + seq![Seq::<char>::empty()]);
    } else {
        assert(x.drop_last() =~= a.push(sep) + b.drop_last());
        assert(x.last() == b.last());
        lemma_split_concat(a, b.drop_last(), sep);
        lemma_split_nonempty(b.drop_last(), sep);
        let pa = split_on(a, sep);
        let pb = split_on(b.drop_last(), sep);
        if b.last() == sep {
            assert((pa + pb).push(Seq::empty()) =~= pa + pb.push(Seq::empty()));
        } else {
            assert((pa + pb).drop_last() =~= pa + pb.drop_last());
            assert((pa + pb).last() == pb.last());
            assert((pa + pb).drop_last().push(pb.last().push(b.last())) =~= pa + pb.drop_last().push(pb.last().push(b.last())));
        }
    }
}

/// A text without the separator is one piece.
proof fn lemma_split_plain(s: Seq<char>, sep: char)
    requires
        !s.contains(sep),
    ensures
        split_on(s, sep) == seq![s],
    decreases s.len(),
{
    if s.len() > 0 {
        assert(!s.drop_last().contains(sep)) by {
            if s.drop_last().contains(sep) {
                let j = choose|j: int| 0 <= j < s.drop_last().len() && s.drop_last()[j] == sep;
                assert(s[j] == sep);
            }
        }
        lemma_split_plain(s.drop_last(), sep);
        assert(s.last() != sep) by {
            if s.last() == sep {
                assert(s.contains(sep));
            }
        }
        assert(s.drop_last().push(s.last()) =~= s);
        assert(seq![s.drop_last()].drop_last().push(s.drop_last().push(s.last())) =~= seq![s]);
    } else {
        assert(s =~= Seq::<char>::empty());
    }
}

/// Joining pieces that hold no separator with it, then splitting at it, gives the
/// pieces back.
pub proof fn lemma_split_join(pieces: Seq<Seq<char>>, sep: char)
    requires
        pieces.len() > 0,
        forall|j: int| 0 <= j < pieces.len() ==> !(#[trigger] pieces[j]).contains(sep),
    ensures
        split_on(seq_join(pieces, seq![sep]), sep) == pieces,
    decreases pieces.len(),
{
    if pieces.len() == 1 {
        lemma_split_plain(pieces[0], sep);
        assert(seq![pieces[0]] =~= pieces);
    } else {
        let init = pieces.drop_last();
        assert forall|j: int| 0 <= j < init.len() implies !(#[trigger] init[j]).contains(sep) by {
            assert(init[j] == pieces[j]);
        }
        lemma_split_join(init, sep);
        let joined = seq_join(init, seq![sep]);
        assert(joined + seq![sep] + pieces.last() =~= joined.push(sep) + pieces.last());
        lemma_split_concat(joined, pieces.last(), sep);
        lemma_split_plain(pieces.last(), sep);
        assert(init + seq![pieces.last()] =~= pieces);
    }
}


/// Whether a text holds no white space.
pub open spec fn no_white_space(s: Seq<char>) -> bool {
    forall|j: int| 0 <= j < s.len() ==> !is_white_space(#[trigger] s[j])
}

/// A text ending in a character that is not white space has a word.
proof fn lemma_words_nonempty(s: Seq<char>)
    requires
        s.len() > 0,
        !is_white_space(s.last()),
    ensures
        words(s).len() > 0,
    decreases s.len(),
{
    if s.len() > 1 && !is_white_space(s[s.len() - 2]) {
        assert(s.drop_last().last() == s[s.len() - 2]);
        lemma_words_nonempty(s.drop_last());
    }
}

/// White space between two texts separates their words.
proof fn lemma_words_concat(a: Seq<char>, w: char, b: Seq<char>)
    requires
        is_white_space(w),
    ensures
        words(a.push(w) + b) == words(a) + words(b),
    decreases b.len(),
{
    let x = a.push(w) + b;
    if b.len() == 0 {
        assert(x =~= a.push(w));
        assert(x.drop_last() =~= a);
        assert(words(a) + words(b) =~= words(a));
    } else {
        assert(x.drop_last() =~= a.push(w) + b.drop_last());
        assert(x.last() == b.last());
        lemma_words_concat(a, w, b.drop_last());
        let wa = words(a);
        let wb = words(b.drop_last());
        let c = b.last();
        if is_white_space(c) {
        } else if b.len() > 1 && !is_white_space(b[b.len() - 2]) {
            assert(x[x.len() - 2] == b[b.len() - 2]);
            assert(b.drop_last().last() == b[b.len() - 2]);
            lemma_words_nonempty(b.drop_last());
            assert((wa + wb).drop_last() =~= wa + wb.drop_last());
            assert((wa + wb).last() == wb.last());
            assert((wa + wb).drop_last().push(wb.last().push(c)) =~= wa + wb.drop_last().push(wb.last().push(c)));
        } else {
            if b.len() > 1 {
                assert(x[x.len() - 2] == b[b.len() - 2]);
            } else {
                assert(x[x.len() - 2] == w);
            }
            assert((wa + wb).push(seq![c]) =~= wa + wb.push(seq![c]));
        }
    }
}

/// A non-empty text without white space is one word.
proof fn lemma_words_plain(s: Seq<char>)
    requires
        s.len() > 0,
        no_white_space(s),
    ensures
        words(s) == seq![s],
    decreases s.len(),
{
    if s.len() == 1 {
        assert(seq![s.last()] =~= s);
        assert(words(s.drop_last()) =~= Seq::<Seq<char>>::empty());
        assert(Seq::<Seq<char>>::empty().push(seq![s.last()]) =~= seq![s]);
    } else {
        assert(no_white_space(s.drop_last())) by {
            assert forall|j: int| 0 <= j < s.drop_last().len() implies !is_white_space(#[trigger] s.drop_last()[j]) by {
                assert(s.drop_last()[j] == s[j]);
            }
        }
        lemma_words_plain(s.drop_last());
        assert(!is_white_space(s[s.len() - 2]));
        assert(!is_white_space(s.last()));
        assert(s.drop_last().push(s.last()) =~= s);
        assert(seq![s.drop_last()].drop_last().push(s.drop_last().push(s.last())) =~= seq![s]);
    }
}


/// Joining texts without white space with '&' gives a text without white space.
proof fn lemma_join_no_white_space(pieces: Seq<Seq<char>>)
    requires
        forall|j: int| 0 <= j < pieces.len() ==> no_white_space(#[trigger] pieces[j]),
    ensures
        no_white_space(seq_join(pieces, seq!['&'])),
    decreases pieces.len(),
{
    if pieces.len() > 1 {
        let init = pieces.drop_last();
        assert forall|j: int| 0 <= j < init.len() implies no_white_space(#[trigger] init[j]) by {
            assert(init[j] == pieces[j]);
        }
        lemma_join_no_white_space(init);
        let a = seq_join(init, seq!['&']);
        let l = pieces.last();
        assert(no_white_space(l));
        let all = a + seq!['&'] + l;
        assert forall|j: int| 0 <= j < all.len() implies !is_white_space(#[trigger] all[j]) by {
            if j < a.len() {
                assert(all[j] == a[j]);
            } else if j == a.len() {
                assert(all[j] == '&');
            } else {
                assert(all[j] == l[j - a.len() - 1]);
            }
        }
    } else if pieces.len() == 1 {
        assert(no_white_space(pieces[0]));
    }
}

/// A sign-in callback request: the method, a space, "/?", the query made of
/// `pieces` joined by '&', a space, the protocol version, CR LF, then the rest.
pub open spec fn callback_request(
    method: Seq<char>,
    pieces: Seq<Seq<char>>,
    version: Seq<char>,
    rest: Seq<char>,
) -> Seq<char> {
    method.push(' ') + seq!['/', '?'] + seq_join(pieces, seq!['&']) + seq![' '] + version + seq!['\r', '\n'] + rest
}

/// The authorization code of a callback is returned whole. In a request
/// `<method> /?<pieces joined by '&'> <version>` CR LF `<rest>`, whose words and query
/// pieces hold no white space and whose pieces hold no '&', a piece `code=V` with `V`
/// free of '%' and no "code" or "error_description" piece before it makes the result
/// `Ok(V)`: everything after the first '=' of that piece, whatever it holds.
pub proof fn lemma_callback_gives_whole_code(
    method: Seq<char>,
    pieces: Seq<Seq<char>>,
    i: int,
    v: Seq<char>,
    version: Seq<char>,
    rest: Seq<char>,
)
    requires
        method.len() > 0,
        no_white_space(method),
        version.len() > 0,
        no_white_space(version),
        forall|j: int| 0 <= j < pieces.len() ==> no_white_space(#[trigger] pieces[j]) && !pieces[j].contains('&'),
        0 <= i < pieces.len(),
        pieces[i] == "code"@.push('=') + v,
        !v.contains('%'),
        forall|j: int| 0 <= j < i ==> !has_key(#[trigger] pieces[j], "code"@) && !has_key(pieces[j], "error_description"@),
    ensures
        spec_extract_code(encode_utf8(callback_request(method, pieces, version, rest)))
            == Ok::<Seq<char>, Seq<char>>(v),
{
    broadcast use encode_utf8_valid_utf8, encode_utf8_decode_utf8;

    let query = seq_join(pieces, seq!['&']);
    let path = seq!['/', '?'] + query;
    let tail = path.push(' ') + version;
    let line = method.push(' ') + tail;
    let text = callback_request(method, pieces, version, rest);
    assert(text =~= line + seq!['\r', '\n'] + rest);

    // the path and the line hold no line break
    lemma_join_no_white_space(pieces);
    assert(no_white_space(path)) by {
        assert forall|j: int| 0 <= j < path.len() implies !is_white_space(#[trigger] path[j]) by {
            if j >= 2 {
                assert(path[j] == query[j - 2]);
            }
        }
    }
    assert forall|j: int| 0 <= j < line.len() implies line[j] != '\n' by {
        let m = method.len() as int;
        let p = path.len() as int;
        if j < m {
            assert(line[j] == method[j]);
        } else if j == m {
            assert(line[j] == ' ');
        } else if j < m + 1 + p {
            assert(line[j] == path[j - m - 1]);
        } else if j == m + 1 + p {
            assert(line[j] == ' ');
        } else {
            assert(line[j] == version[j - m - 2 - p]);
        }
    }

    // the first line
    let k: int = line.len() as int + 1;
    assert forall|j: int| 0 <= j < k implies text[j] != '\n' by {
        if j < line.len() {
            assert(text[j] == line[j]);
        }
    }
    assert(text[k] == '\n');
    lemma_find_char_unique(text, '\n', k);
    assert(text.take(k) =~= line.push('\r'));
    assert(line.push('\r').drop_last() =~= line);
    assert(first_line(text) == line);

    // the words of the line
    lemma_words_plain(method);
    lemma_words_plain(path);
    lemma_words_plain(version);
    lemma_words_concat(path, ' ', version);
    lemma_words_concat(method, ' ', tail);
    assert(words(line) =~= seq![method, path, version]);
    assert(request_path(line) == path);

    // the query
    lemma_find_char_unique(path, '?', 1);
    assert(path.skip(2) =~= query);
    assert(query_of(path) == query);

    // the pieces
    assert forall|j: int| 0 <= j < pieces.len() implies !(#[trigger] pieces[j]).contains('&') by {}
    lemma_split_join(pieces, '&');
    lemma_code_piece_gives_its_value(pieces, i, v);
}

} // verus!
