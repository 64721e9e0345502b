//! De-redirection: recovering the destination that a search provider's
//! tracking link wraps.
use vstd::prelude::*;
use vstd::utf8::{decode_utf8, encode_utf8, valid_utf8};
use crate::text::{chars_of, contains, find, find_from, occurs_at};

verus! {

/// The 6-bit value of a character of the standard base64 alphabet.
pub open spec fn sextet(c: char) -> Option<u8> {
    if 'A' <= c && c <= 'Z' {
        Some((c as u32 - 65) as u8)
    } else if 'a' <= c && c <= 'z' {
        Some((c as u32 - 97 + 26) as u8)
    } else if '0' <= c && c <= '9' {
        Some((c as u32 - 48 + 52) as u8)
    } else if c == '+' {
        Some(62)
    } else if c == '/' {
        Some(63)
    } else {
        None
    }
}

/// `s` without its trailing `=` padding.
pub open spec fn trim_padding(s: Seq<char>) -> Seq<char>
    decreases s.len(),
{
    if s.len() > 0 && s.last() == '=' {
        trim_padding(s.drop_last())
    } else {
        s
    }
}

/// The 6-bit values of the alphabet characters of `s`, in order; any other
/// character is skipped.
pub open spec fn sextets(s: Seq<char>) -> Seq<u8>
    decreases s.len(),
{
    if s.len() == 0 {
        Seq::empty()
    } else {
        match sextet(s.last()) {
            Some(v) => sextets(s.drop_last()).push(v),
            None => sextets(s.drop_last()),
        }
    }
}

/// Packs 6-bit values into bytes: each group of four gives three bytes, a
/// trailing group of three gives two, of two gives one, of one gives none.
pub open spec fn pack_sextets(v: Seq<u8>) -> Seq<u8>
    decreases v.len(),
{
    if v.len() >= 4 {
        seq![
            (v[0] * 4 + v[1] / 16) as u8,
            ((v[1] % 16) * 16 + v[2] / 4) as u8,
            ((v[2] % 4) * 64 + v[3]) as u8,
        ] + pack_sextets(v.skip(4))
    } else if v.len() == 3 {
        seq![(v[0] * 4 + v[1] / 16) as u8, ((v[1] % 16) * 16 + v[2] / 4) as u8]
    } else if v.len() == 2 {
        seq![(v[0] * 4 + v[1] / 16) as u8]
    } else {
        Seq::empty()
    }
}

/// The bytes that a base64 text stands for: padding at the end is dropped,
/// characters outside the alphabet are skipped, the rest is packed.
pub open spec fn base64_decoded(s: Seq<char>) -> Seq<u8> {
    pack_sextets(sextets(trim_padding(s)))
}

fn sextet_of(c: char) -> (r: Option<u8>)
    ensures
        r == sextet(c),
{
    if 'A' <= c && c <= 'Z' {
        Some((c as u32 - 65) as u8)
    } else if 'a' <= c && c <= 'z' {
        Some((c as u32 - 97 + 26) as u8)
    } else if '0' <= c && c <= '9' {
        Some((c as u32 - 48 + 52) as u8)
    } else if c == '+' {
        Some(62)
    } else if c == '/' {
        Some(63)
    } else {
        None
    }
}

proof fn lemma_sextet_bound(c: char)
    ensures
        sextet(c) matches Some(v) ==> v < 64,
{
}

proof fn lemma_sextets_bound(s: Seq<char>)
    ensures
        forall|i: int| 0 <= i < sextets(s).len() ==> sextets(s)[i] < 64,
    decreases s.len(),
{
    if s.len() > 0 {
        lemma_sextets_bound(s.drop_last());
        lemma_sextet_bound(s.last());
        let r = sextets(s.drop_last());
        assert forall|i: int| 0 <= i < sextets(s).len() implies sextets(s)[i] < 64 by {
            if i < r.len() {
                assert(sextets(s)[i] == r[i]);
            }
        }
    }
}

/// Decodes standard base64 text. Trailing `=` padding is ignored, as is any
/// character outside the alphabet; a final partial group yields the whole
/// bytes it holds.
pub fn base64_decode(input: &str) -> (r: Vec<u8>)
    ensures
        r@ == base64_decoded(input@),
{
    let cs = chars_of(input);
    let mut end: usize = cs.len();
    assert(cs@.take(end as int) =~= cs@);
    while end > 0 && cs[end - 1] == '='
        invariant
            end <= cs@.len(),
            trim_padding(cs@) == trim_padding(cs@.take(end as int)),
        decreases end,
    {
        assert(cs@.take(end as int).drop_last() =~= cs@.take(end - 1));
        end = end - 1;
    }
    let ghost body = cs@.take(end as int);
    assert(trim_padding(body) == body);
    let mut vals: Vec<u8> = Vec::new();
    let mut i: usize = 0;
    while i < end
        invariant
            end <= cs@.len(),
            body == cs@.take(end as int),
            i <= end,
            vals@ == sextets(body.take(i as int)),
        decreases end - i,
    {
        assert(body.take(i + 1).drop_last() =~= body.take(i as int));
        match sextet_of(cs[i]) {
            Some(v) => vals.push(v),
            None => {},
        }
        i = i + 1;
    }
    assert(body.take(end as int) =~= body);
    proof {
        lemma_sextets_bound(body);
    }
    let n = vals.len();
    let mut out: Vec<u8> = Vec::new();
    let mut k: usize = 0;
    assert(vals@.skip(0) =~= vals@);
    while n - k >= 4
        invariant
            n == vals@.len(),
            k <= n,
            forall|j: int| 0 <= j < n ==> vals@[j] < 64,
            pack_sextets(vals@) == out@ + pack_sextets(vals@.skip(k as int)),
        decreases n - k,
    {
        let a = vals[k];
        let b = vals[k + 1];
        let c = vals[k + 2];
        let d = vals[k + 3];
        assert(vals@.skip(k as int).skip(4) =~= vals@.skip(k + 4));
        out.push(a * 4 + b / 16);
        out.push((b % 16) * 16 + c / 4);
        out.push((c % 4) * 64 + d);
        k = k + 4;
    }
    let rest = n - k;
    if rest == 3 {
        out.push(vals[k] * 4 + vals[k + 1] / 16);
        out.push((vals[k + 1] % 16) * 16 + vals[k + 2] / 4);
    } else if rest == 2 {
        out.push(vals[k] * 4 + vals[k + 1] / 16);
    }
    assert(out@ =~= pack_sextets(vals@));
    out
}

/// Relies on `String::from_utf8`: the bytes become a string exactly when
/// they are valid UTF-8, and the string holds the characters they encode.
#[verifier::external_body]
fn utf8_to_string(b: Vec<u8>) -> (r: Option<String>)
    ensures
        r is Some <==> valid_utf8(b@),
        r matches Some(t) ==> t@ == decode_utf8(b@),
{
    String::from_utf8(b).ok()
}

/// `s` holds no `%`.
pub open spec fn no_percent(s: Seq<char>) -> bool {
    forall|i: int| 0 <= i < s.len() ==> s[i] != '%'
}

/// What percent-decoding `s` gives, or `None` where the decoded bytes are
/// not UTF-8.
pub uninterp spec fn percent_decoded(s: Seq<char>) -> Option<Seq<char>>;

/// Relies on `urlencoding::decode`: it percent-decodes `s` and fails only
/// when the decoded bytes are not UTF-8; text without `%` comes back as it is.
#[verifier::external_body]
fn url_decode(s: &str) -> (r: Option<String>)
    ensures
        r matches Some(t) ==> percent_decoded(s@) == Some(t@),
        r is None ==> percent_decoded(s@) is None,
        no_percent(s@) ==> r is Some,
        r matches Some(t) ==> (no_percent(s@) ==> t@ == s@),
{
    urlencoding::decode(s).ok().map(|t| t.into_owned())
}

/// Where a search for `pat` from `start` stops: its first occurrence, or the end.
pub open spec fn end_of(u: Seq<char>, pat: Seq<char>, start: int) -> int {
    match find_from(u, pat, start) {
        Some(q) => q,
        None => u.len() as int,
    }
}

/// `e` without a leading `a1`.
pub open spec fn strip_a1(e: Seq<char>) -> Seq<char> {
    if e.len() >= 2 && e[0] == 'a' && e[1] == '1' {
        e.skip(2)
    } else {
        e
    }
}

/// The destination of a Bing click-tracking link: the `u` parameter, less its
/// `a1` prefix, read as base64 of UTF-8 text.
pub open spec fn bing_destination(u: Seq<char>) -> Option<Seq<char>> {
    if find_from(u, "bing.com/ck/a"@, 0) is Some {
        match find_from(u, "&u="@, 0) {
            Some(p) => {
                let start = p + "&u="@.len();
                let bytes = base64_decoded(strip_a1(u.subrange(start, end_of(u, "&"@, start))));
                if valid_utf8(bytes) {
                    Some(decode_utf8(bytes))
                } else {
                    None
                }
            },
            None => None,
        }
    } else {
        None
    }
}

/// The parameter marker of a Google redirect: `&url=` where there is one,
/// else `?url=`.
pub open spec fn google_marker(u: Seq<char>) -> Seq<char> {
    if find_from(u, "&url="@, 0) is Some {
        "&url="@
    } else {
        "?url="@
    }
}

/// The destination of a Google redirect link: the `url` parameter up to the
/// next `&`, percent-decoded; where that fails, the raw text up to the next
/// marker.
pub open spec fn google_destination(u: Seq<char>) -> Option<Seq<char>> {
    if find_from(u, "google.com/url"@, 0) is Some {
        let marker = google_marker(u);
        match find_from(u, marker, 0) {
            Some(p) => {
                let start = p + marker.len();
                let piece_end = end_of(u, marker, start);
                let amp = end_of(u, "&"@, start);
                let head_end = if amp < piece_end { amp } else { piece_end };
                match percent_decoded(u.subrange(start, head_end)) {
                    Some(t) => Some(t),
                    None => Some(u.subrange(start, piece_end)),
                }
            },
            None => None,
        }
    } else {
        None
    }
}

/// The destination behind `u`: the Bing form first, then the Google form,
/// else `u` itself.
pub open spec fn destination_of(u: Seq<char>) -> Seq<char> {
    match bing_destination(u) {
        Some(d) => d,
        None => match google_destination(u) {
            Some(d) => d,
            None => u,
        },
    }
}

proof fn lemma_end_of_bounds(u: Seq<char>, pat: Seq<char>, start: int)
    requires
        0 <= start <= u.len(),
    ensures
        start <= end_of(u, pat, start) <= u.len(),
{
    crate::text::lemma_find_from_result(u, pat, start);
}

fn search_end(cs: &Vec<char>, pat: &Vec<char>, start: usize) -> (r: usize)
    requires
        start <= cs@.len(),
    ensures
        r == end_of(cs@, pat@, start as int),
        start <= r <= cs@.len(),
{
    proof {
        lemma_end_of_bounds(cs@, pat@, start as int);
    }
    match find(cs, pat, start) {
        Some(q) => q,
        None => cs.len(),
    }
}

fn bing_target(url: &str, cs: &Vec<char>) -> (r: Option<String>)
    requires
        cs@ == url@,
    ensures
        r matches Some(t) ==> bing_destination(url@) == Some(t@),
        r is None ==> bing_destination(url@) is None,
{
    let marker = chars_of("bing.com/ck/a");
    if find(cs, &marker, 0).is_none() {
        return None;
    }
    let param = chars_of("&u=");
    let amp = chars_of("&");
    match find(cs, &param, 0) {
        Some(p) => {
            proof {
                crate::text::lemma_find_from_result(cs@, param@, 0);
                assert(occurs_at(cs@, param@, p as int));
                assert(p + param.len() <= cs.len());
            }
            let start = p + param.len();
            let end = search_end(cs, &amp, start);
            let ghost enc = cs@.subrange(start as int, end as int);
            let mut from = start;
            if end - start >= 2 && cs[start] == 'a' && cs[start + 1] == '1' {
                from = start + 2;
                assert(cs@.subrange(from as int, end as int) =~= enc.skip(2));
            } else {
                assert(cs@.subrange(from as int, end as int) =~= enc);
            }
            let bytes = base64_decode(url.substring_char(from, end));
            utf8_to_string(bytes)
        },
        None => None,
    }
}

fn google_target(url: &str, cs: &Vec<char>) -> (r: Option<String>)
    requires
        cs@ == url@,
    ensures
        r matches Some(t) ==> google_destination(url@) == Some(t@),
        r is None ==> google_destination(url@) is None,
{
    let host = chars_of("google.com/url");
    if find(cs, &host, 0).is_none() {
        return None;
    }
    let amp_param = chars_of("&url=");
    let marker = if find(cs, &amp_param, 0).is_some() {
        amp_param
    } else {
        chars_of("?url=")
    };
    assert(marker@ == google_marker(url@));
    let amp = chars_of("&");
    match find(cs, &marker, 0) {
        Some(p) => {
            proof {
                crate::text::lemma_find_from_result(cs@, marker@, 0);
                assert(occurs_at(cs@, marker@, p as int));
                assert(p + marker.len() <= cs.len());
            }
            let start = p + marker.len();
            let piece_end = search_end(cs, &marker, start);
            let amp_end = search_end(cs, &amp, start);
            let head_end = if amp_end < piece_end { amp_end } else { piece_end };
            match url_decode(url.substring_char(start, head_end)) {
                Some(t) => Some(t),
                None => Some(url.substring_char(start, piece_end).to_owned()),
            }
        },
        None => None,
    }
}

/// Unwraps a search provider's redirect link. A Bing click-tracking link
/// (`bing.com/ck/a` with a `u` parameter) gives the base64 text after its
/// `a1` prefix, decoded; a Google redirect (`google.com/url` with a `url`
/// parameter) gives that parameter percent-decoded. Any other link, or one
/// whose parameter does not decode, comes back unchanged.
pub fn decode_search_url(url: &str) -> (r: String)
    ensures
        r@ == destination_of(url@),
{
    let cs = chars_of(url);
    match bing_target(url, &cs) {
        Some(t) => t,
        None => match google_target(url, &cs) {
            Some(t) => t,
            None => url.to_owned(),
        },
    }
}

/// The alphabet character of a 6-bit value.
pub open spec fn sextet_char(v: u8) -> char {
    if v < 26 {
        (v + 65) as char
    } else if v < 52 {
        (v - 26 + 97) as char
    } else if v < 62 {
        (v - 52 + 48) as char
    } else if v == 62 {
        '+'
    } else {
        '/'
    }
}

/// Splits bytes into 6-bit values, three bytes to four values; a final one or
/// two bytes give two or three values, the missing low bits zero.
pub open spec fn split_sextets(b: Seq<u8>) -> Seq<u8>
    decreases b.len(),
{
    if b.len() >= 3 {
        seq![
            (b[0] / 4) as u8,
            ((b[0] % 4) * 16 + b[1] / 16) as u8,
            ((b[1] % 16) * 4 + b[2] / 64) as u8,
            (b[2] % 64) as u8,
        ] + split_sextets(b.skip(3))
    } else if b.len() == 2 {
        seq![(b[0] / 4) as u8, ((b[0] % 4) * 16 + b[1] / 16) as u8, ((b[1] % 16) * 4) as u8]
    } else if b.len() == 1 {
        seq![(b[0] / 4) as u8, ((b[0] % 4) * 16) as u8]
    } else {
        Seq::empty()
    }
}

/// The `=` padding that completes the last group of an encoding of `n` bytes.
pub open spec fn padding(n: nat) -> Seq<char> {
    if n % 3 == 1 {
        seq!['=', '=']
    } else if n % 3 == 2 {
        seq!['=']
    } else {
        Seq::empty()
    }
}

/// Standard base64 encoding, with padding.
pub open spec fn base64_encoded(b: Seq<u8>) -> Seq<char> {
    base64_unpadded(b) + padding(b.len())
}

/// Standard base64 encoding without the `=` padding.
pub open spec fn base64_unpadded(b: Seq<u8>) -> Seq<char> {
    split_sextets(b).map_values(|v: u8| sextet_char(v))
}

/// Base64 of `b`, padded or not.
pub open spec fn base64_text(b: Seq<u8>, padded: bool) -> Seq<char> {
    if padded {
        base64_encoded(b)
    } else {
        base64_unpadded(b)
    }
}

/// A Bing click-tracking link to `dest`: `prefix`, then the `u` parameter
/// holding `a1` and the base64 (padded or not) of the destination's UTF-8
/// bytes, then `suffix`, the link's further parameters.
pub open spec fn bing_link(prefix: Seq<char>, dest: Seq<char>, padded: bool, suffix: Seq<char>) -> Seq<
    char,
> {
    prefix + "&u=a1"@ + base64_text(encode_utf8(dest), padded) + suffix
}

proof fn lemma_sextet_char(v: u8)
    requires
        v < 64,
    ensures
        sextet(sextet_char(v)) == Some(v),
        sextet_char(v) != '=',
        sextet_char(v) != '&',
{
}

proof fn lemma_split_sextets(b: Seq<u8>)
    ensures
        forall|i: int| 0 <= i < split_sextets(b).len() ==> split_sextets(b)[i] < 64,
        pack_sextets(split_sextets(b)) == b,
    decreases b.len(),
{
    if b.len() >= 3 {
        lemma_split_sextets(b.skip(3));
        let head = seq![
            (b[0] / 4) as u8,
            ((b[0] % 4) * 16 + b[1] / 16) as u8,
            ((b[1] % 16) * 4 + b[2] / 64) as u8,
            (b[2] % 64) as u8,
        ];
        let v = split_sextets(b);
        assert(v == head + split_sextets(b.skip(3)));
        assert(v.skip(4) =~= split_sextets(b.skip(3)));
        assert(v[0] * 4 + v[1] / 16 == b[0]);
        assert((v[1] % 16) * 16 + v[2] / 4 == b[1]);
        assert((v[2] % 4) * 64 + v[3] == b[2]);
        assert(pack_sextets(v) =~= b);
    } else if b.len() == 2 {
        let v = split_sextets(b);
        assert(v[0] * 4 + v[1] / 16 == b[0]);
        assert((v[1] % 16) * 16 + v[2] / 4 == b[1]);
        assert(pack_sextets(v) =~= b);
    } else if b.len() == 1 {
        let v = split_sextets(b);
        assert(v[0] * 4 + v[1] / 16 == b[0]);
        assert(pack_sextets(v) =~= b);
    } else {
        assert(pack_sextets(split_sextets(b)) =~= b);
    }
}

proof fn lemma_sextets_of_chars(v: Seq<u8>)
    requires
        forall|i: int| 0 <= i < v.len() ==> v[i] < 64,
    ensures
        sextets(v.map_values(|x: u8| sextet_char(x))) == v,
    decreases v.len(),
{
    let m = v.map_values(|x: u8| sextet_char(x));
    if v.len() > 0 {
        assert(m.drop_last() =~= v.drop_last().map_values(|x: u8| sextet_char(x)));
        lemma_sextets_of_chars(v.drop_last());
        lemma_sextet_char(v.last());
        assert(v.drop_last().push(v.last()) =~= v);
    } else {
        assert(m.len() == 0);
    }
}

proof fn lemma_trim_padding(body: Seq<char>, pad: Seq<char>)
    requires
        body.len() == 0 || body.last() != '=',
        forall|i: int| 0 <= i < pad.len() ==> pad[i] == '=',
    ensures
        trim_padding(body + pad) == body,
    decreases pad.len(),
{
    if pad.len() > 0 {
        assert((body + pad).drop_last() =~= body + pad.drop_last());
        lemma_trim_padding(body, pad.drop_last());
    } else {
        assert(body + pad =~= body);
    }
}

/// Base64 text, with or without padding, decodes to the bytes it encodes.
pub proof fn lemma_base64_round_trip(b: Seq<u8>, padded: bool)
    ensures
        base64_decoded(base64_text(b, padded)) == b,
{
    lemma_split_sextets(b);
    let v = split_sextets(b);
    let body = v.map_values(|x: u8| sextet_char(x));
    if body.len() > 0 {
        lemma_sextet_char(v.last());
    }
    if padded {
        lemma_trim_padding(body, padding(b.len()));
    } else {
        lemma_trim_padding(body, Seq::empty());
        assert(body + Seq::<char>::empty() =~= body);
    }
    lemma_sextets_of_chars(v);
}

/// A link that is neither a Bing nor a Google redirect passes through
/// unchanged, so unwrapping it twice is the same as unwrapping it once.
pub proof fn lemma_decode_idempotent_on_plain(u: Seq<char>)
    requires
        !contains(u, "bing.com/ck/a"@),
        !contains(u, "google.com/url"@),
    ensures
        destination_of(u) == u,
        destination_of(destination_of(u)) == destination_of(u),
{
    crate::text::lemma_contains_iff_found(u, "bing.com/ck/a"@);
    crate::text::lemma_contains_iff_found(u, "google.com/url"@);
}

/// A Bing click-tracking link built from a destination unwraps to that
/// destination, with or without padding and whatever parameters follow,
/// provided the link's first `u` parameter is the one built.
pub proof fn lemma_bing_round_trip(prefix: Seq<char>, dest: Seq<char>, padded: bool, suffix: Seq<char>)
    requires
        contains(prefix, "bing.com/ck/a"@),
        forall|i: int|
            0 <= i < prefix.len() ==> !occurs_at(bing_link(prefix, dest, padded, suffix), "&u="@, i),
        suffix.len() == 0 || suffix[0] == '&',
    ensures
        destination_of(bing_link(prefix, dest, padded, suffix)) == dest,
{
    reveal_strlit("&u=a1");
    reveal_strlit("&u=");
    reveal_strlit("&");
    let bytes = encode_utf8(dest);
    let enc = base64_text(bytes, padded);
    let url = bing_link(prefix, dest, padded, suffix);
    let marker = "bing.com/ck/a"@;
    let j = choose|j: int| occurs_at(prefix, marker, j);
    assert(url.subrange(j, j + marker.len()) =~= prefix.subrange(j, j + marker.len()));
    crate::text::lemma_find_from_finds(url, marker, 0, j);
    let p = prefix.len() as int;
    assert(url.subrange(p, p + 3) =~= "&u="@);
    crate::text::lemma_first_occurrence(url, "&u="@, p);
    let start = p + 3;
    let e = start + 2 + enc.len();
    let param = seq!['a', '1'] + enc;
    assert(url.subrange(start, e) =~= param);
    lemma_split_sextets(bytes);
    let v = split_sextets(bytes);
    assert forall|k: int| start <= k < e implies !occurs_at(url, "&"@, k) by {
        crate::text::lemma_single(url, "&"@, k);
        assert(url[k] == url.subrange(start, e)[k - start]);
        if k >= start + 2 && k < start + 2 + v.len() {
            lemma_sextet_char(v[k - start - 2]);
        }
    }
    if suffix.len() == 0 {
        assert(url.len() == e);
        crate::text::lemma_absent_from(url, "&"@, start);
    } else {
        assert(url[e] == suffix[0]);
        crate::text::lemma_single(url, "&"@, e);
        crate::text::lemma_find_from_finds(url, "&"@, start, e);
        crate::text::lemma_find_from_result(url, "&"@, start);
    }
    assert(end_of(url, "&"@, start) == e);
    assert(strip_a1(param) =~= enc);
    lemma_base64_round_trip(bytes, padded);
    vstd::utf8::encode_utf8_valid_utf8(dest);
    vstd::utf8::encode_utf8_decode_utf8(dest);
}

} // verus!
