//! `GET /api/revisions/{id}/download?variant=original`: the name the ingested bytes are handed
//! out under, the header that carries it, and which `variant` the route serves.
//!
//! A download name must not carry a path separator, a quote or a control character, whatever a
//! part is called; it is capped in bytes on a character boundary; and the header carries it twice,
//! once in ASCII for old clients and once percent-encoded as RFC 5987 asks.

use vstd::prelude::*;
use vstd::utf8::encode_utf8;
use crate::digest::{blake3_hex, blake3_hex_of};
use crate::text::{
    chars_of, lemma_utf8_len, lemma_utf8_len_concat, push_all, push_char, trim,
    trimmed, utf8_len, width, width_of,
};

verus! {

/// The only `variant` this route serves.
pub const ORIGINAL: &'static str = "original";

/// A cap on the download name, in bytes, below the 255 every filesystem allows, with headroom for
/// the ` (1)` a browser appends.
pub const MAX_FILENAME_BYTES: usize = 200;

/// The download's query string: absent and unknown `variant`s are different answers.
pub struct DownloadQuery {
    pub variant: Option<String>,
}

/// What the route does with the `variant` asked for.
#[derive(Debug, Clone, Copy, PartialEq, Eq, Structural)]
pub enum VariantCheck {
    /// `original`: the ingested bytes, unconverted.
    Original,
    /// Some other variant, which this route does not convert to.
    Unknown,
    /// None, or `variant=` with nothing after it: a URL built wrong.
    Missing,
}

/// The answer to a `variant`: an empty one is a missing one.
pub open spec fn variant_check(variant: Option<Seq<char>>) -> VariantCheck {
    match variant {
        None => VariantCheck::Missing,
        Some(v) => if v.len() == 0 {
            VariantCheck::Missing
        } else if v == ORIGINAL@ {
            VariantCheck::Original
        } else {
            VariantCheck::Unknown
        },
    }
}

/// Which answer a download's `variant` gets.
pub fn check_variant(query: &DownloadQuery) -> (r: VariantCheck)
    ensures
        r == variant_check(match query.variant {
            Some(v) => Some(v@),
            None => None,
        }),
{
    match &query.variant {
        None => VariantCheck::Missing,
        Some(v) => {
            if v.as_str().is_empty() {
                VariantCheck::Missing
            } else if crate::text::same_text(v.as_str(), ORIGINAL) {
                VariantCheck::Original
            } else {
                VariantCheck::Unknown
            }
        },
    }
}

/// `char::is_control`: the C0 controls, DEL and the C1 controls.
pub open spec fn is_control(c: char) -> bool {
    let u = c as u32;
    u < 0x20 || (0x7f <= u && u < 0xa0)
}

/// What a download name may not carry: a control character, which would end the header line, a
/// `/` or `\`, which would reach outside the download directory, and `"`, which would close the
/// quoted ASCII half.
pub open spec fn is_unsafe(c: char) -> bool {
    is_control(c) || c == '/' || c == '\\' || c == '"'
}

/// The characters of `raw` a download name may carry, in order.
pub open spec fn sanitized(raw: Seq<char>) -> Seq<char>
    decreases raw.len(),
{
    if raw.len() == 0 {
        seq![]
    } else {
        sanitized(raw.drop_last()) + (if is_unsafe(raw.last()) {
            seq![]
        } else {
            seq![raw.last()]
        })
    }
}

/// `raw` with every character a download name must not carry dropped.
pub fn sanitize(raw: &str) -> (s: String)
    ensures
        s@ == sanitized(raw@),
{
    let v = chars_of(raw);
    let mut s = String::new();
    let mut i: usize = 0;
    while i < v.len()
        invariant
            i <= v@.len(),
            v@ == raw@,
            s@ == sanitized(v@.take(i as int)),
        decreases v@.len() - i,
    {
        let c = v[i];
        let u = c as u32;
        let bad = u < 0x20 || (0x7f <= u && u < 0xa0) || c == '/' || c == '\\' || c == '"';
        if !bad {
            push_char(&mut s, c);
        }
        proof {
            assert(v@.take(i + 1).drop_last() =~= v@.take(i as int));
            assert(v@.take(i + 1).last() == c);
            assert(s@ =~= sanitized(v@.take(i + 1)));
        }
        i = i + 1;
    }
    assert(v@.take(v@.len() as int) =~= v@);
    s
}

/// The half of the header a client predating RFC 5987 reads: every non-ASCII character as `_`.
pub open spec fn ascii_only(name: Seq<char>) -> Seq<char> {
    name.map_values(|c: char| if (c as u32) < 0x80 { c } else { '_' })
}

/// `name` in ASCII, each character it cannot spell as `_`.
pub fn ascii_fallback(name: &str) -> (s: String)
    ensures
        s@ == ascii_only(name@),
{
    let v = chars_of(name);
    let mut s = String::new();
    let mut i: usize = 0;
    while i < v.len()
        invariant
            i <= v@.len(),
            v@ == name@,
            s@ == ascii_only(v@.take(i as int)),
        decreases v@.len() - i,
    {
        let c = v[i];
        push_char(&mut s, if (c as u32) < 0x80 { c } else { '_' });
        assert(s@ =~= ascii_only(v@.take(i + 1)));
        i = i + 1;
    }
    assert(v@.take(v@.len() as int) =~= v@);
    s
}

/// A byte RFC 5987's `attr-char` lets through as it is: ASCII letters and digits and
/// `! # $ & + - . ^ _ ` | ~`.
pub open spec fn is_attr_byte(b: u8) -> bool {
    ||| 0x30 <= b <= 0x39
    ||| 0x41 <= b <= 0x5a
    ||| 0x61 <= b <= 0x7a
    ||| b == 0x21 || b == 0x23 || b == 0x24 || b == 0x26 || b == 0x2b || b == 0x2d || b == 0x2e
        || b == 0x5e || b == 0x5f || b == 0x60 || b == 0x7c || b == 0x7e
}

/// An uppercase hex digit, for a value below sixteen.
pub open spec fn hex_digit(d: u8) -> char {
    if d < 10 {
        (0x30 + d) as char
    } else {
        (0x41 + d - 10) as char
    }
}

/// One byte of the encoded value: itself when it is an `attr-char`, `%XX` otherwise.
pub open spec fn encoded_byte(b: u8) -> Seq<char> {
    if is_attr_byte(b) {
        seq![b as char]
    } else {
        seq!['%', hex_digit(b / 16), hex_digit(b % 16)]
    }
}

/// RFC 5987 `ext-value` over bytes: each byte encoded in turn.
pub open spec fn encoded_bytes(bytes: Seq<u8>) -> Seq<char>
    decreases bytes.len(),
{
    if bytes.len() == 0 {
        seq![]
    } else {
        encoded_bytes(bytes.drop_last()) + encoded_byte(bytes.last())
    }
}

fn hex_char(d: u8) -> (c: char)
    requires
        d < 16,
    ensures
        c == hex_digit(d),
{
    let b: u8 = if d < 10 { 0x30 + d } else { 0x41 + d - 10 };
    b as char
}

/// RFC 5987 `ext-value`: every byte of `name`'s UTF-8 encoding outside `attr-char` as `%XX`,
/// in uppercase hex.
pub fn percent_encode(name: &str) -> (s: String)
    ensures
        s@ == encoded_bytes(encode_utf8(name@)),
{
    let bytes = name.as_bytes();
    let ghost bs = encode_utf8(name@);
    let mut s = String::new();
    let mut i: usize = 0;
    while i < bytes.len()
        invariant
            i <= bytes@.len(),
            bytes@ == bs,
            s@ == encoded_bytes(bs.take(i as int)),
        decreases bytes@.len() - i,
    {
        let b = bytes[i];
        let attr = (0x30 <= b && b <= 0x39) || (0x41 <= b && b <= 0x5a) || (0x61 <= b && b <= 0x7a)
            || b == 0x21 || b == 0x23 || b == 0x24 || b == 0x26 || b == 0x2b || b == 0x2d || b
            == 0x2e || b == 0x5e || b == 0x5f || b == 0x60 || b == 0x7c || b == 0x7e;
        if attr {
            push_char(&mut s, b as char);
        } else {
            push_char(&mut s, '%');
            push_char(&mut s, hex_char(b / 16));
            push_char(&mut s, hex_char(b % 16));
        }
        proof {
            assert(bs.take(i + 1).drop_last() =~= bs.take(i as int));
            assert(bs.take(i + 1).last() == b);
            assert(s@ =~= encoded_bytes(bs.take(i + 1)));
        }
        i = i + 1;
    }
    assert(bs.take(bs.len() as int) =~= bs);
    s
}

/// The header's value, per RFC 6266: the ASCII `filename=` first, then `filename*`.
pub open spec fn disposition(filename: Seq<char>) -> Seq<char> {
    "attachment; filename=\""@ + ascii_only(filename) + "\"; filename*=UTF-8''"@ + encoded_bytes(
        encode_utf8(filename),
    )
}

/// The `Content-Disposition` a download is handed out with.
pub fn content_disposition(filename: &str) -> (s: String)
    ensures
        s@ == disposition(filename@),
{
    let mut s = String::new();
    push_all(&mut s, "attachment; filename=\"");
    let ascii = ascii_fallback(filename);
    push_all(&mut s, ascii.as_str());
    push_all(&mut s, "\"; filename*=UTF-8''");
    let encoded = percent_encode(filename);
    push_all(&mut s, encoded.as_str());
    s
}

/// The longest beginning of `s` that UTF-8 spells in at most `budget` bytes, stopping at the
/// first character that does not fit.
pub open spec fn capped(s: Seq<char>, budget: int) -> Seq<char>
    decreases s.len(),
{
    if s.len() == 0 || width(s[0]) > budget {
        seq![]
    } else {
        seq![s[0]] + capped(s.drop_first(), budget - width(s[0]))
    }
}

/// The bytes left for the stem once the extension and its dot are paid for.
pub open spec fn stem_budget(ext: Seq<char>) -> int {
    if utf8_len(ext) + 1 >= MAX_FILENAME_BYTES {
        0
    } else {
        MAX_FILENAME_BYTES - utf8_len(ext) - 1
    }
}

/// `{part.name}.{format}`, each sanitized, a name that sanitizes to nothing but white space read
/// as `download`, and the stem capped so the whole fits [`MAX_FILENAME_BYTES`].
pub open spec fn filename_for(part_name: Seq<char>, format: Seq<char>) -> Seq<char> {
    let ext = sanitized(format);
    let stem = sanitized(part_name);
    let stem = if trimmed(stem).len() == 0 { "download"@ } else { stem };
    capped(stem, stem_budget(ext)) + seq!['.'] + ext
}

/// The name a part's original downloads under.
pub fn download_filename(part_name: &str, format: &str) -> (s: String)
    ensures
        s@ == filename_for(part_name@, format@),
{
    let ext = sanitize(format);
    let stem = sanitize(part_name);
    let blank = trim(stem.as_str()).as_str().is_empty();
    let stem: Vec<char> = if blank { chars_of("download") } else { chars_of(stem.as_str()) };
    let ext_bytes = ext.as_str().as_bytes().len();
    proof {
        lemma_utf8_len(ext@);
        assert(ext_bytes == utf8_len(ext@));
    }
    let budget: usize = if ext_bytes >= MAX_FILENAME_BYTES - 1 { 0 } else { MAX_FILENAME_BYTES - ext_bytes - 1 };
    let mut out = String::new();
    let mut used: usize = 0;
    let mut i: usize = 0;
    let ghost total = capped(stem@, budget as int);
    assert(stem@.skip(0) =~= stem@);
    while i < stem.len()
        invariant
            i <= stem@.len(),
            used <= budget <= MAX_FILENAME_BYTES,
            total == capped(stem@, budget as int),
            total == out@ + capped(stem@.skip(i as int), budget - used),
        ensures
            out@ == total,
        decreases stem@.len() - i,
    {
        let c = stem[i];
        let w = width_of(c);
        let ghost rest = stem@.skip(i as int);
        assert(rest[0] == c);
        if used + w > budget {
            assert(capped(rest, budget - used) =~= Seq::<char>::empty());
            assert(out@ + Seq::<char>::empty() =~= out@);
            break;
        }
        push_char(&mut out, c);
        used = used + w;
        proof {
            assert(rest.drop_first() =~= stem@.skip(i + 1));
            assert(out@ + capped(stem@.skip(i + 1), budget - used) =~= total);
        }
        i = i + 1;
    }
    proof {
        assert(stem@ == (if trimmed(sanitized(part_name@)).len() == 0 { "download"@ } else {
            sanitized(part_name@)
        }));
    }
    push_char(&mut out, '.');
    push_all(&mut out, ext.as_str());
    out
}


/// The value of a hex digit, either case.
pub open spec fn hex_value(c: char) -> int {
    if '0' <= c <= '9' {
        c as int - 0x30
    } else if 'A' <= c <= 'F' {
        c as int - 0x41 + 10
    } else if 'a' <= c <= 'f' {
        c as int - 0x61 + 10
    } else {
        0
    }
}

/// Percent-decoding, as a client reads an RFC 5987 value: `%XX` is the byte `XX`, and any other
/// character is its own byte.
pub open spec fn percent_decoded(s: Seq<char>) -> Seq<u8>
    decreases s.len(),
{
    if s.len() == 0 {
        seq![]
    } else if s[0] == '%' && s.len() >= 3 {
        seq![(hex_value(s[1]) * 16 + hex_value(s[2])) as u8] + percent_decoded(s.skip(3))
    } else {
        seq![s[0] as u8] + percent_decoded(s.skip(1))
    }
}

proof fn lemma_encoded_concat(a: Seq<u8>, c: Seq<u8>)
    ensures
        encoded_bytes(a + c) == encoded_bytes(a) + encoded_bytes(c),
    decreases c.len(),
{
    if c.len() == 0 {
        assert(a + c =~= a);
        assert(encoded_bytes(a) + encoded_bytes(c) =~= encoded_bytes(a));
    } else {
        assert((a + c).drop_last() =~= a + c.drop_last());
        assert((a + c).last() == c.last());
        lemma_encoded_concat(a, c.drop_last());
        assert(encoded_bytes(a + c) =~= encoded_bytes(a) + encoded_bytes(c));
    }
}

proof fn lemma_decode_one(x: u8, t: Seq<char>)
    ensures
        percent_decoded(encoded_byte(x) + t) == seq![x] + percent_decoded(t),
{
    let s = encoded_byte(x) + t;
    if is_attr_byte(x) {
        assert(s[0] == x as char);
        assert((x as char) != '%');
        assert(((x as char) as u8) == x);
        assert(s.skip(1) =~= t);
    } else {
        let hi = x / 16;
        let lo = x % 16;
        assert(s[0] == '%' && s[1] == hex_digit(hi) && s[2] == hex_digit(lo));
        assert(hex_value(hex_digit(hi)) == hi as int);
        assert(hex_value(hex_digit(lo)) == lo as int);
        assert(hi as int * 16 + lo as int == x as int);
        assert(s.skip(3) =~= t);
    }
}

/// A client's percent-decoding of the encoded name gives back its UTF-8 bytes exactly: the
/// `filename*` half names the same file as the name itself.
pub proof fn percent_encoding_decodes(bytes: Seq<u8>)
    ensures
        percent_decoded(encoded_bytes(bytes)) == bytes,
    decreases bytes.len(),
{
    if bytes.len() > 0 {
        let rest = bytes.drop_first();
        assert(bytes =~= seq![bytes[0]] + rest);
        lemma_encoded_concat(seq![bytes[0]], rest);
        let one = seq![bytes[0]];
        assert(one.drop_last() =~= Seq::<u8>::empty());
        assert(encoded_bytes(Seq::<u8>::empty()) == Seq::<char>::empty());
        assert(one.last() == bytes[0]);
        assert(encoded_bytes(one) =~= encoded_byte(bytes[0]));
        lemma_decode_one(bytes[0], encoded_bytes(rest));
        percent_encoding_decodes(rest);
    }
}

/// Whether `c` is an `attr-char`: an ASCII character whose byte RFC 5987 lets through as it is.
pub open spec fn is_attr_char(c: char) -> bool {
    (c as u32) < 0x80 && is_attr_byte(c as u32 as u8)
}

/// An uppercase hex digit.
pub open spec fn is_upper_hex(c: char) -> bool {
    ('0' <= c <= '9') || ('A' <= c <= 'F')
}

/// Text made only of `attr-char`s and `%XX` triplets in uppercase hex.
pub open spec fn well_encoded(s: Seq<char>) -> bool
    decreases s.len(),
{
    if s.len() == 0 {
        true
    } else if is_attr_char(s[0]) {
        well_encoded(s.skip(1))
    } else {
        s[0] == '%' && s.len() >= 3 && is_upper_hex(s[1]) && is_upper_hex(s[2]) && well_encoded(
            s.skip(3),
        )
    }
}

proof fn lemma_well_encoded_one(x: u8, t: Seq<char>)
    ensures
        well_encoded(encoded_byte(x) + t) == well_encoded(t),
{
    let s = encoded_byte(x) + t;
    if is_attr_byte(x) {
        assert(s[0] == x as char);
        assert(((x as char) as u32) == x as u32);
        assert(is_attr_char(s[0]));
        assert(s.skip(1) =~= t);
    } else {
        assert(s[0] == '%');
        assert(!is_attr_char('%'));
        assert(is_upper_hex(s[1]) && is_upper_hex(s[2]));
        assert(s.skip(3) =~= t);
    }
}

/// The encoded name holds nothing but `attr-char`s and `%XX` triplets in uppercase hex, whatever
/// the bytes.
pub proof fn percent_encoding_alphabet(bytes: Seq<u8>)
    ensures
        well_encoded(encoded_bytes(bytes)),
    decreases bytes.len(),
{
    if bytes.len() > 0 {
        let rest = bytes.drop_first();
        let one = seq![bytes[0]];
        assert(bytes =~= one + rest);
        lemma_encoded_concat(one, rest);
        assert(one.drop_last() =~= Seq::<u8>::empty());
        assert(encoded_bytes(Seq::<u8>::empty()) == Seq::<char>::empty());
        assert(one.last() == bytes[0]);
        assert(encoded_bytes(one) =~= encoded_byte(bytes[0]));
        lemma_well_encoded_one(bytes[0], encoded_bytes(rest));
        percent_encoding_alphabet(rest);
    }
}

/// A name made only of `attr-char`s comes back from encoding unchanged.
pub proof fn percent_encoding_keeps_plain_names(name: Seq<char>)
    requires
        forall|i: int| 0 <= i < name.len() ==> is_attr_char(#[trigger] name[i]),
    ensures
        encoded_bytes(encode_utf8(name)) == name,
    decreases name.len(),
{
    if name.len() > 0 {
        let rest = name.drop_first();
        assert forall|i: int| 0 <= i < rest.len() implies is_attr_char(#[trigger] rest[i]) by {
            assert(rest[i] == name[i + 1]);
        }
        percent_encoding_keeps_plain_names(rest);
        let c = name[0] as u32;
        assert(is_attr_char(name[0]));
        assert(c < 0x80 ==> c & 0x7F == c) by (bit_vector);
        let b = (c & 0x7F) as u8;
        assert(vstd::utf8::encode_scalar(c) == seq![b]);
        assert(encode_utf8(name) == seq![b] + encode_utf8(rest));
        lemma_encoded_concat(seq![b], encode_utf8(rest));
        let one = seq![b];
        assert(one.drop_last() =~= Seq::<u8>::empty());
        assert(encoded_bytes(Seq::<u8>::empty()) == Seq::<char>::empty());
        assert(one.last() == b);
        assert(encoded_bytes(one) =~= encoded_byte(b));
        assert(b as u32 == c);
        assert(is_attr_byte(b));
        vstd::utf8::char_u32_cast(name[0], c);
        assert((b as char) == ((b as u32) as char));
        assert((b as char) == name[0]);
        assert(encoded_byte(b) =~= seq![name[0]]);
        assert(name =~= seq![name[0]] + rest);
    }
}

/// Whether the bytes read for a download are the ones stored: their BLAKE3 digest is `stored`,
/// the stored digest in lowercase hex. Checked last, as it is the only check that needs the bytes,
/// and before anything is served.
pub fn served_intact(stored: &str, bytes: &[u8]) -> (ok: bool)
    ensures
        ok == (blake3_hex(bytes@) == stored@),
{
    let digest = blake3_hex_of(bytes);
    crate::text::same_text(digest.as_str(), stored)
}

/// What `sanitized` keeps is safe.
proof fn lemma_sanitized_safe(raw: Seq<char>)
    ensures
        forall|i: int| 0 <= i < sanitized(raw).len() ==> !is_unsafe(#[trigger] sanitized(raw)[i]),
    decreases raw.len(),
{
    if raw.len() > 0 {
        lemma_sanitized_safe(raw.drop_last());
        let before = sanitized(raw.drop_last());
        let tail: Seq<char> = if is_unsafe(raw.last()) { seq![] } else { seq![raw.last()] };
        assert forall|i: int| 0 <= i < sanitized(raw).len() implies !is_unsafe(#[trigger] sanitized(raw)[i]) by {
            if i < before.len() {
                assert(sanitized(raw)[i] == before[i]);
            } else {
                assert(sanitized(raw)[i] == tail[i - before.len()]);
            }
        }
    }
}

/// What `capped` keeps is the beginning of what it was given, within the budget.
proof fn lemma_capped_prefix(s: Seq<char>, budget: int)
    ensures
        capped(s, budget).len() <= s.len(),
        forall|i: int| 0 <= i < capped(s, budget).len() ==> #[trigger] capped(s, budget)[i] == s[i],
        budget >= 0 ==> utf8_len(capped(s, budget)) <= budget,
    decreases s.len(),
{
    if s.len() > 0 && width(s[0]) <= budget {
        lemma_capped_prefix(s.drop_first(), budget - width(s[0]));
        let rest = capped(s.drop_first(), budget - width(s[0]));
        let c = seq![s[0]] + rest;
        assert(c.drop_first() =~= rest);
        assert forall|i: int| 0 <= i < c.len() implies #[trigger] c[i] == s[i] by {
            if i > 0 {
                assert(c[i] == rest[i - 1]);
                assert(s.drop_first()[i - 1] == s[i]);
            }
        }
    } else {
        assert(capped(s, budget) =~= Seq::<char>::empty());
    }
}

/// A download name never carries a path separator, a quote or a control character, whatever the
/// part is called and whatever its format says.
pub proof fn download_name_is_safe(part_name: Seq<char>, format: Seq<char>)
    ensures
        forall|i: int|
            0 <= i < filename_for(part_name, format).len() ==> !is_unsafe(
                #[trigger] filename_for(part_name, format)[i],
            ),
{
    let ext = sanitized(format);
    let raw_stem = sanitized(part_name);
    let stem = if trimmed(raw_stem).len() == 0 { "download"@ } else { raw_stem };
    let budget = stem_budget(ext);
    lemma_sanitized_safe(format);
    lemma_sanitized_safe(part_name);
    reveal_strlit("download");
    lemma_capped_prefix(stem, budget);
    let head = capped(stem, budget);
    let name = filename_for(part_name, format);
    assert(name == head + seq!['.'] + ext);
    assert forall|i: int| 0 <= i < name.len() implies !is_unsafe(#[trigger] name[i]) by {
        if i < head.len() {
            assert(name[i] == head[i]);
            assert(head[i] == stem[i]);
        } else if i == head.len() {
            assert(name[i] == '.');
        } else {
            assert(name[i] == ext[i - head.len() - 1]);
        }
    }
}

/// A download name fits [`MAX_FILENAME_BYTES`] in UTF-8 whenever its extension leaves room for a
/// stem at all: the stem is cut, on a character boundary, to what the extension and its dot leave.
pub proof fn download_name_fits(part_name: Seq<char>, format: Seq<char>)
    requires
        utf8_len(sanitized(format)) + 1 < MAX_FILENAME_BYTES,
    ensures
        utf8_len(filename_for(part_name, format)) <= MAX_FILENAME_BYTES,
{
    let ext = sanitized(format);
    let raw_stem = sanitized(part_name);
    let stem = if trimmed(raw_stem).len() == 0 { "download"@ } else { raw_stem };
    let budget = stem_budget(ext);
    lemma_capped_prefix(stem, budget);
    let head = capped(stem, budget);
    lemma_utf8_len_concat(head, seq!['.']);
    lemma_utf8_len_concat(head + seq!['.'], ext);
    assert(utf8_len(seq!['.']) == 1) by {
        let dot = seq!['.'];
        assert(dot.drop_first() =~= Seq::<char>::empty());
        assert(utf8_len(Seq::<char>::empty()) == 0);
        assert(dot[0] == '.');
        assert(width('.') == 1);
    }
}

} // verus!
