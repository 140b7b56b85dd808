//! Identifiers of locally served models: `local-<provider>-hex-<hex name>`,
//! and the older `local-<provider>-<name>` form.

use vstd::prelude::*;
use vstd::utf8::*;
use crate::llm_id::LLMId;
use crate::provider::LocalLLMProvider;
use crate::llm_id::local_id_prefix;
use crate::text::{has_prefix, opt_view, skip_chars, starts_with};

verus! {

/// The value of an ASCII hexadecimal digit, either case.
pub open spec fn spec_hex_digit(c: u8) -> Option<u8> {
    if 0x30 <= c <= 0x39 {
        Some((c - 0x30) as u8)
    } else if 0x61 <= c <= 0x66 {
        Some((c - 0x61 + 10) as u8)
    } else if 0x41 <= c <= 0x46 {
        Some((c - 0x41 + 10) as u8)
    } else {
        None
    }
}

/// The byte that a two-byte string denotes in base 16, as `u8::from_str_radix`
/// reads it: two hexadecimal digits, or a `+` sign and one digit.
pub open spec fn spec_hex_pair(hi: u8, lo: u8) -> Option<u8> {
    if hi == 0x2b {
        spec_hex_digit(lo)
    } else {
        match (spec_hex_digit(hi), spec_hex_digit(lo)) {
            (Some(h), Some(l)) => Some((h * 16 + l) as u8),
            _ => None,
        }
    }
}

/// The bytes that `b`, read two bytes at a time, denotes; `None` when some
/// pair is not a byte in base 16 or a byte is left over.
pub open spec fn hex_decode(b: Seq<u8>) -> Option<Seq<u8>>
    decreases b.len(),
{
    if b.len() == 0 {
        Some(Seq::empty())
    } else if b.len() < 2 {
        None
    } else {
        match spec_hex_pair(b[0], b[1]) {
            None => None,
            Some(v) => match hex_decode(b.subrange(2, b.len() as int)) {
                Some(rest) => Some(seq![v] + rest),
                None => None,
            },
        }
    }
}

/// Whether cutting `b` into two-byte pieces, up to the first piece that is not
/// a byte in base 16, cuts through a UTF-8 character: slicing a `str` there panics.
pub open spec fn hex_slice_panics(b: Seq<u8>) -> bool
    decreases b.len(),
{
    if b.len() < 2 {
        false
    } else if is_continuation_byte(b[0]) || (b.len() > 2 && is_continuation_byte(b[2])) {
        true
    } else {
        match spec_hex_pair(b[0], b[1]) {
            None => false,
            Some(_) => hex_slice_panics(b.subrange(2, b.len() as int)),
        }
    }
}

/// Whether decoding `s` as a hex-encoded name would slice a string off a
/// character boundary.
pub open spec fn hex_name_panics(s: Seq<char>) -> bool {
    let b = encode_utf8(s);
    b.len() > 0 && b.len() % 2 == 0 && hex_slice_panics(b)
}

/// The model name that a hex-encoded string stands for: its UTF-8 bytes read
/// as base-16 pairs, which must decode as UTF-8.
pub open spec fn spec_decode_hex_model_name(s: Seq<char>) -> Option<Seq<char>> {
    let b = encode_utf8(s);
    if b.len() == 0 || b.len() % 2 != 0 {
        None
    } else {
        match hex_decode(b) {
            Some(d) => if valid_utf8(d) {
                Some(decode_utf8(d))
            } else {
                None
            },
            None => None,
        }
    }
}

/// `p` followed by `o`, where `o` is present.
pub open spec fn prepend_opt(p: Seq<u8>, o: Option<Seq<u8>>) -> Option<Seq<u8>> {
    match o {
        Some(r) => Some(p + r),
        None => None,
    }
}

/// `String::from_utf8`: the bytes as a string when they are valid UTF-8.
#[verifier::external_body]
fn string_from_utf8(bytes: Vec<u8>) -> (r: Option<String>)
    ensures
        r is Some <==> valid_utf8(bytes@),
        r matches Some(s) ==> s@ == decode_utf8(bytes@),
{
    String::from_utf8(bytes).ok()
}

fn hex_digit_value(c: u8) -> (r: Option<u8>)
    ensures
        r == spec_hex_digit(c),
{
    if 0x30 <= c && c <= 0x39 {
        Some(c - 0x30)
    } else if 0x61 <= c && c <= 0x66 {
        Some(c - 0x61 + 10)
    } else if 0x41 <= c && c <= 0x46 {
        Some(c - 0x41 + 10)
    } else {
        None
    }
}

fn hex_pair_value(hi: u8, lo: u8) -> (r: Option<u8>)
    ensures
        r == spec_hex_pair(hi, lo),
{
    if hi == 0x2b {
        hex_digit_value(lo)
    } else {
        match (hex_digit_value(hi), hex_digit_value(lo)) {
            (Some(h), Some(l)) => Some(h * 16 + l),
            _ => None,
        }
    }
}

/// Decodes a hex-encoded model name. Returns `None` when the text is empty,
/// has an odd number of bytes, holds a pair that is not a byte in base 16, or
/// decodes to bytes that are not UTF-8.
pub fn decode_hex_model_name(encoded: &str) -> (r: Option<String>)
    requires
        !hex_name_panics(encoded@),
    ensures
        opt_view(r) == spec_decode_hex_model_name(encoded@),
{
    let b = encoded.as_bytes();
    let n = b.len();
    if n == 0 || n % 2 != 0 {
        return None;
    }
    let mut out: Vec<u8> = Vec::new();
    let mut i: usize = 0;
    assert(b@.subrange(0, n as int) =~= b@);
    while i < n
        invariant
            n == b@.len(),
            b@ == encode_utf8(encoded@),
            i <= n,
            i % 2 == 0,
            n % 2 == 0,
            hex_decode(b@) == prepend_opt(out@, hex_decode(b@.subrange(i as int, n as int))),
        decreases n - i,
    {
        let ghost rest = b@.subrange(i as int, n as int);
        assert(rest[0] == b@[i as int] && rest[1] == b@[i + 1]);
        match hex_pair_value(b[i], b[i + 1]) {
            None => {
                return None;
            },
            Some(v) => {
                assert(rest.subrange(2, rest.len() as int) =~= b@.subrange(i + 2, n as int));
                let ghost old_out = out@;
                out.push(v);
                proof {
                    match hex_decode(b@.subrange(i + 2, n as int)) {
                        Some(t) => {
                            assert(old_out + (seq![v] + t) =~= out@ + t);
                        },
                        None => {},
                    }
                }
                i = i + 2;
            },
        }
    }
    assert(b@.subrange(n as int, n as int) =~= Seq::<u8>::empty());
    assert(out@ + Seq::<u8>::empty() =~= out@);
    string_from_utf8(out)
}

/// The name after `prefix`, hex-decoded, when `id` carries that prefix.
pub open spec fn spec_try_hex(id: Seq<char>, prefix: Seq<char>) -> Option<Seq<char>> {
    if has_prefix(id, prefix) {
        spec_decode_hex_model_name(id.subrange(prefix.len() as int, id.len() as int))
    } else {
        None
    }
}

/// The name after `prefix`, taken as it is, when `id` carries that prefix.
pub open spec fn spec_try_plain(id: Seq<char>, prefix: Seq<char>) -> Option<Seq<char>> {
    if has_prefix(id, prefix) {
        Some(id.subrange(prefix.len() as int, id.len() as int))
    } else {
        None
    }
}

/// Pairs the provider with a name found.
pub open spec fn with_provider(p: LocalLLMProvider, o: Option<Seq<char>>) -> Option<
    (LocalLLMProvider, Seq<char>),
> {
    match o {
        Some(name) => Some((p, name)),
        None => None,
    }
}

/// `a` if it is present, otherwise `b`.
pub open spec fn or_else<T>(a: Option<T>, b: Option<T>) -> Option<T> {
    match a {
        Some(x) => Some(x),
        None => b,
    }
}

/// The provider and model name a local model identifier stands for. The
/// hex-encoded forms are tried first, for Ollama, LM Studio and custom
/// endpoints in that order, then the older plain forms in the same order.
pub open spec fn spec_parse_local_model_id(id: Seq<char>) -> Option<(LocalLLMProvider, Seq<char>)> {
    or_else(
        with_provider(LocalLLMProvider::Ollama, spec_try_hex(id, "local-ollama-hex-"@)),
        or_else(
            with_provider(LocalLLMProvider::LMStudio, spec_try_hex(id, "local-lmstudio-hex-"@)),
            or_else(
                with_provider(LocalLLMProvider::Custom, spec_try_hex(id, "local-custom-hex-"@)),
                or_else(
                    with_provider(LocalLLMProvider::Ollama, spec_try_plain(id, "local-ollama-"@)),
                    or_else(
                        with_provider(
                            LocalLLMProvider::LMStudio,
                            spec_try_plain(id, "local-lmstudio-"@),
                        ),
                        with_provider(
                            LocalLLMProvider::Custom,
                            spec_try_plain(id, "local-custom-"@),
                        ),
                    ),
                ),
            ),
        ),
    )
}

/// Whether the hex name after `prefix`, if `id` has it, can be decoded
/// without slicing off a character boundary.
pub open spec fn hex_part_decodable(id: Seq<char>, prefix: Seq<char>) -> bool {
    has_prefix(id, prefix) ==> !hex_name_panics(id.subrange(prefix.len() as int, id.len() as int))
}

/// Whether parsing `id` runs without slicing a string off a character boundary.
pub open spec fn model_id_parsable(id: Seq<char>) -> bool {
    &&& hex_part_decodable(id, "local-ollama-hex-"@)
    &&& hex_part_decodable(id, "local-lmstudio-hex-"@)
    &&& hex_part_decodable(id, "local-custom-hex-"@)
}

/// The view of a parsed identifier.
pub open spec fn parsed_view(o: Option<(LocalLLMProvider, String)>) -> Option<
    (LocalLLMProvider, Seq<char>),
> {
    match o {
        Some((p, s)) => Some((p, s@)),
        None => None,
    }
}

fn try_hex(id: &str, prefix: &str) -> (r: Option<String>)
    requires
        hex_part_decodable(id@, prefix@),
    ensures
        opt_view(r) == spec_try_hex(id@, prefix@),
{
    if starts_with(id, prefix) {
        let rest = skip_chars(id, prefix.unicode_len());
        decode_hex_model_name(rest.as_str())
    } else {
        None
    }
}

fn try_plain(id: &str, prefix: &str) -> (r: Option<String>)
    ensures
        opt_view(r) == spec_try_plain(id@, prefix@),
{
    if starts_with(id, prefix) {
        Some(skip_chars(id, prefix.unicode_len()))
    } else {
        None
    }
}

fn attach(p: LocalLLMProvider, o: Option<String>) -> (r: Option<(LocalLLMProvider, String)>)
    ensures
        parsed_view(r) == with_provider(p, opt_view(o)),
{
    match o {
        Some(s) => Some((p, s)),
        None => None,
    }
}

/// Reads the provider and model name out of a local model identifier; `None`
/// for identifiers of other models.
pub fn parse_local_model_id(model_id: &LLMId) -> (r: Option<(LocalLLMProvider, String)>)
    requires
        model_id_parsable(model_id@),
    ensures
        parsed_view(r) == spec_parse_local_model_id(model_id@),
{
    let id = model_id.as_str();
    let r = attach(LocalLLMProvider::Ollama, try_hex(id, "local-ollama-hex-"));
    if r.is_some() {
        return r;
    }
    let r = attach(LocalLLMProvider::LMStudio, try_hex(id, "local-lmstudio-hex-"));
    if r.is_some() {
        return r;
    }
    let r = attach(LocalLLMProvider::Custom, try_hex(id, "local-custom-hex-"));
    if r.is_some() {
        return r;
    }
    let r = attach(LocalLLMProvider::Ollama, try_plain(id, "local-ollama-"));
    if r.is_some() {
        return r;
    }
    let r = attach(LocalLLMProvider::LMStudio, try_plain(id, "local-lmstudio-"));
    if r.is_some() {
        return r;
    }
    attach(LocalLLMProvider::Custom, try_plain(id, "local-custom-"))
}

fn is_continuation(c: u8) -> (r: bool)
    ensures
        r == is_continuation_byte(c),
{
    0x80 <= c && c <= 0xbf
}

/// Whether decoding `s` as a hex-encoded name would slice it off a character
/// boundary.
pub fn hex_name_would_panic(s: &str) -> (r: bool)
    ensures
        r == hex_name_panics(s@),
{
    let b = s.as_bytes();
    let n = b.len();
    if n == 0 || n % 2 != 0 {
        return false;
    }
    let mut i: usize = 0;
    assert(b@.subrange(0, n as int) =~= b@);
    while i < n
        invariant
            n == b@.len(),
            b@ == encode_utf8(s@),
            n > 0,
            n % 2 == 0,
            i <= n,
            i % 2 == 0,
            hex_slice_panics(b@) == hex_slice_panics(b@.subrange(i as int, n as int)),
        decreases n - i,
    {
        let ghost rest = b@.subrange(i as int, n as int);
        assert(rest[0] == b@[i as int] && rest[1] == b@[i + 1]);
        if i + 2 < n {
            assert(rest[2] == b@[i + 2]);
        }
        if is_continuation(b[i]) || (i + 2 < n && is_continuation(b[i + 2])) {
            return true;
        }
        match hex_pair_value(b[i], b[i + 1]) {
            None => {
                return false;
            },
            Some(_) => {
                assert(rest.subrange(2, rest.len() as int) =~= b@.subrange(i + 2, n as int));
                i = i + 2;
            },
        }
    }
    false
}

/// Whether `parse_local_model_id` can read `model_id` without slicing a string
/// off a character boundary.
pub fn is_parsable_model_id(model_id: &LLMId) -> (r: bool)
    ensures
        r == model_id_parsable(model_id@),
{
    let id = model_id.as_str();
    let ok_ollama = !starts_with(id, "local-ollama-hex-") || !hex_name_would_panic(
        skip_chars(id, "local-ollama-hex-".unicode_len()).as_str(),
    );
    let ok_lmstudio = !starts_with(id, "local-lmstudio-hex-") || !hex_name_would_panic(
        skip_chars(id, "local-lmstudio-hex-".unicode_len()).as_str(),
    );
    let ok_custom = !starts_with(id, "local-custom-hex-") || !hex_name_would_panic(
        skip_chars(id, "local-custom-hex-".unicode_len()).as_str(),
    );
    ok_ollama && ok_lmstudio && ok_custom
}

/// The prefix of the hex-encoded identifiers of a provider's models.
pub open spec fn hex_id_prefix(p: LocalLLMProvider) -> Seq<char> {
    match p {
        LocalLLMProvider::Ollama => "local-ollama-hex-"@,
        LocalLLMProvider::LMStudio => "local-lmstudio-hex-"@,
        LocalLLMProvider::Custom => "local-custom-hex-"@,
    }
}

/// The hexadecimal digit for a value below 16, in upper or lower case.
pub open spec fn hex_digit_char(v: int, upper: bool) -> char {
    if v < 10 {
        (v + 48) as char
    } else if upper {
        (v + 55) as char
    } else {
        (v + 87) as char
    }
}

/// The hexadecimal text of a byte sequence, two digits per byte (as
/// `format!("{:02x}")` or, in upper case, `format!("{:02X}")` writes each).
pub open spec fn hex_text(b: Seq<u8>, upper: bool) -> Seq<char> {
    Seq::new(
        2 * b.len(),
        |i: int|
            if i % 2 == 0 {
                hex_digit_char(b[i / 2] as int / 16, upper)
            } else {
                hex_digit_char(b[i / 2] as int % 16, upper)
            },
    )
}

/// The lowercase hexadecimal text of a byte sequence, two digits per byte.
pub open spec fn hex_encode(b: Seq<u8>) -> Seq<char> {
    hex_text(b, false)
}

/// The identifier under which a provider's model of the given name is listed:
/// the provider's hex prefix and the hex text of the name's UTF-8 bytes.
pub open spec fn hex_model_id(p: LocalLLMProvider, name: Seq<char>) -> Seq<char> {
    hex_id_prefix(p) + hex_encode(encode_utf8(name))
}

proof fn lemma_hex_encode_ascii(b: Seq<u8>, upper: bool)
    ensures
        is_ascii_chars(hex_text(b, upper)),
        encode_utf8(hex_text(b, upper)).len() == 2 * b.len(),
        forall|i: int|
            0 <= i < 2 * b.len() ==> #[trigger] encode_utf8(hex_text(b, upper))[i] == hex_text(b, upper)[i] as u8,
{
    is_ascii_chars_encode_utf8(hex_text(b, upper));
}

proof fn lemma_hex_decode_encoded(b: Seq<u8>, e: Seq<u8>, upper: bool)
    requires
        e.len() == 2 * b.len(),
        forall|i: int| 0 <= i < e.len() ==> #[trigger] e[i] == hex_text(b, upper)[i] as u8,
    ensures
        hex_decode(e) == Some(b),
        !hex_slice_panics(e),
    decreases b.len(),
{
    if b.len() > 0 {
        let v = b[0];
        let hi = v / 16;
        let lo = v % 16;
        assert(e[0] == hex_text(b, upper)[0] as u8);
        assert(e[1] == hex_text(b, upper)[1] as u8);
        assert(spec_hex_digit(e[0]) == Some(hi as u8));
        assert(spec_hex_digit(e[1]) == Some(lo as u8));
        assert(spec_hex_pair(e[0], e[1]) == Some(v));
        let e2 = e.subrange(2, e.len() as int);
        let b2 = b.subrange(1, b.len() as int);
        assert forall|i: int| 0 <= i < e2.len() implies #[trigger] e2[i] == hex_text(b2, upper)[i] as u8 by {
            assert(e2[i] == e[i + 2]);
            assert(hex_text(b, upper)[i + 2] == hex_text(b2, upper)[i]);
        }
        lemma_hex_decode_encoded(b2, e2, upper);
        assert(seq![v] + b2 =~= b);
        if e.len() > 2 {
            assert(e[2] == hex_text(b, upper)[2] as u8);
        }
    } else {
        assert(e.len() == 0);
    }
}

/// A hex-encoded name decodes back to the name: for every non-empty name,
/// writing each byte of its UTF-8 encoding as two hexadecimal digits, all in
/// lower case or all in upper case, gives a text that `decode_hex_model_name`
/// reads without slicing off a character boundary and maps to the name.
pub proof fn lemma_hex_name_roundtrip(name: Seq<char>, upper: bool)
    requires
        name.len() > 0,
    ensures
        !hex_name_panics(hex_text(encode_utf8(name), upper)),
        spec_decode_hex_model_name(hex_text(encode_utf8(name), upper)) == Some(name),
{
    let bytes = encode_utf8(name);
    let h = hex_text(bytes, upper);
    lemma_encode_nonempty(name);
    lemma_hex_encode_ascii(bytes, upper);
    lemma_hex_decode_encoded(bytes, encode_utf8(h), upper);
    encode_utf8_valid_utf8(name);
    encode_utf8_decode_utf8(name);
}

proof fn lemma_encode_nonempty(s: Seq<char>)
    requires
        s.len() > 0,
    ensures
        encode_utf8(s).len() > 0,
{
}

proof fn lemma_prefix_split(id: Seq<char>, prefix: Seq<char>, rest: Seq<char>)
    requires
        id == prefix + rest,
    ensures
        has_prefix(id, prefix),
        id.subrange(prefix.len() as int, id.len() as int) == rest,
{
    assert(id.subrange(0, prefix.len() as int) =~= prefix);
    assert(id.subrange(prefix.len() as int, id.len() as int) =~= rest);
}

/// A model listed under its hex-encoded identifier is read back as the same
/// provider and the same name: for every provider and every non-empty name,
/// `parse_local_model_id` maps `hex_model_id(p, name)` to `(p, name)`, and
/// parsing that identifier slices no string off a character boundary.
pub proof fn lemma_hex_model_id_roundtrip(p: LocalLLMProvider, name: Seq<char>)
    requires
        name.len() > 0,
    ensures
        model_id_parsable(hex_model_id(p, name)),
        spec_parse_local_model_id(hex_model_id(p, name)) == Some((p, name)),
{
    reveal_strlit("local-ollama-hex-");
    reveal_strlit("local-lmstudio-hex-");
    reveal_strlit("local-custom-hex-");
    let bytes = encode_utf8(name);
    let h = hex_encode(bytes);
    let id = hex_model_id(p, name);
    let prefix = hex_id_prefix(p);
    lemma_hex_name_roundtrip(name, false);
    lemma_prefix_split(id, prefix, h);
    assert(!hex_name_panics(h));
    assert(spec_decode_hex_model_name(h) == Some(name));
    assert(spec_try_hex(id, prefix) == Some(name));
    assert(id[6] == prefix[6]);
    if p != LocalLLMProvider::Ollama {
        assert(!has_prefix(id, "local-ollama-hex-"@)) by {
            if has_prefix(id, "local-ollama-hex-"@) {
                assert(id.subrange(0, 17)[6] == id[6]);
            }
        }
    }
    if p == LocalLLMProvider::Custom {
        assert(!has_prefix(id, "local-lmstudio-hex-"@)) by {
            if has_prefix(id, "local-lmstudio-hex-"@) {
                assert(id.subrange(0, 19)[6] == id[6]);
            }
        }
    }
    if p != LocalLLMProvider::Custom {
        assert(!has_prefix(id, "local-custom-hex-"@)) by {
            if has_prefix(id, "local-custom-hex-"@) {
                assert(id.subrange(0, 17)[6] == id[6]);
            }
        }
    }
    if p == LocalLLMProvider::Ollama {
        assert(!has_prefix(id, "local-lmstudio-hex-"@)) by {
            if has_prefix(id, "local-lmstudio-hex-"@) {
                assert(id.subrange(0, 19)[6] == id[6]);
            }
        }
    }
}

proof fn lemma_prefix_trans(id: Seq<char>, p: Seq<char>, q: Seq<char>)
    requires
        has_prefix(id, p),
        has_prefix(p, q),
    ensures
        has_prefix(id, q),
{
    assert(id.subrange(0, q.len() as int) =~= p.subrange(0, q.len() as int)) by {
        assert forall|i: int| 0 <= i < q.len() implies id.subrange(0, q.len() as int)[i] == p.subrange(0, q.len() as int)[i] by {
            assert(id.subrange(0, p.len() as int)[i] == id[i]);
        }
    }
}

/// Every identifier that `parse_local_model_id` reads as a local model is one
/// that `LLMId::is_local` reports as local.
pub proof fn lemma_parsed_ids_are_local(id: LLMId)
    ensures
        spec_parse_local_model_id(id@) is Some ==> has_prefix(id@, local_id_prefix()),
{
    reveal_strlit("local-");
    reveal_strlit("local-ollama-hex-");
    reveal_strlit("local-lmstudio-hex-");
    reveal_strlit("local-custom-hex-");
    reveal_strlit("local-ollama-");
    reveal_strlit("local-lmstudio-");
    reveal_strlit("local-custom-");
    let s = id@;
    let prefixes = seq![
        "local-ollama-hex-"@,
        "local-lmstudio-hex-"@,
        "local-custom-hex-"@,
        "local-ollama-"@,
        "local-lmstudio-"@,
        "local-custom-"@,
    ];
    assert forall|k: int| 0 <= k < 6 implies has_prefix(#[trigger] prefixes[k], local_id_prefix()) by {
        assert(prefixes[k].subrange(0, 6) =~= local_id_prefix());
    }
    if spec_parse_local_model_id(s) is Some {
        if has_prefix(s, prefixes[0]) {
            lemma_prefix_trans(s, prefixes[0], local_id_prefix());
        } else if has_prefix(s, prefixes[1]) {
            lemma_prefix_trans(s, prefixes[1], local_id_prefix());
        } else if has_prefix(s, prefixes[2]) {
            lemma_prefix_trans(s, prefixes[2], local_id_prefix());
        } else if has_prefix(s, prefixes[3]) {
            lemma_prefix_trans(s, prefixes[3], local_id_prefix());
        } else if has_prefix(s, prefixes[4]) {
            lemma_prefix_trans(s, prefixes[4], local_id_prefix());
        } else {
            assert(has_prefix(s, prefixes[5]));
            lemma_prefix_trans(s, prefixes[5], local_id_prefix());
        }
    }
}

/// The provider whose identifier prefix `id` starts with: `local-ollama-`,
/// `local-lmstudio-` or `local-custom-`.
pub open spec fn local_prefix_provider(id: Seq<char>) -> Option<LocalLLMProvider> {
    if has_prefix(id, "local-ollama-"@) {
        Some(LocalLLMProvider::Ollama)
    } else if has_prefix(id, "local-lmstudio-"@) {
        Some(LocalLLMProvider::LMStudio)
    } else if has_prefix(id, "local-custom-"@) {
        Some(LocalLLMProvider::Custom)
    } else {
        None
    }
}

proof fn lemma_ascii_no_slice_panic(b: Seq<u8>)
    requires
        forall|i: int| 0 <= i < b.len() ==> #[trigger] b[i] < 0x80,
    ensures
        !hex_slice_panics(b),
    decreases b.len(),
{
    if b.len() >= 2 {
        let rest = b.subrange(2, b.len() as int);
        assert forall|i: int| 0 <= i < rest.len() implies #[trigger] rest[i] < 0x80 by {
            assert(rest[i] == b[i + 2]);
        }
        lemma_ascii_no_slice_panic(rest);
        if b.len() > 2 {
            assert(b[2] < 0x80);
        }
    }
}

proof fn lemma_ascii_hex_part(id: Seq<char>, prefix: Seq<char>)
    requires
        is_ascii_chars(id),
    ensures
        hex_part_decodable(id, prefix),
{
    if has_prefix(id, prefix) {
        let r = id.subrange(prefix.len() as int, id.len() as int);
        assert(is_ascii_chars(r)) by {
            assert forall|i: int| 0 <= i < r.len() implies '\0' <= #[trigger] r[i] <= '\u{7f}' by {
                assert(r[i] == id[prefix.len() + i]);
            }
        }
        is_ascii_chars_encode_utf8(r);
        let b = encode_utf8(r);
        assert forall|i: int| 0 <= i < b.len() implies #[trigger] b[i] < 0x80 by {
            assert(r[i] as u8 == b[i]);
        }
        lemma_ascii_no_slice_panic(b);
    }
}

proof fn lemma_prefix_at(id: Seq<char>, prefix: Seq<char>, k: int)
    requires
        has_prefix(id, prefix),
        0 <= k < prefix.len(),
    ensures
        id[k] == prefix[k],
{
    assert(id.subrange(0, prefix.len() as int)[k] == id[k]);
}

/// An ASCII model identifier is always read without slicing a string off a
/// character boundary, and it is read as a local model exactly when it starts
/// with `local-ollama-`, `local-lmstudio-` or `local-custom-`; the provider is
/// the one its prefix names.
pub proof fn lemma_parse_by_prefix(id: Seq<char>)
    requires
        is_ascii_chars(id),
    ensures
        model_id_parsable(id),
        spec_parse_local_model_id(id) is Some <==> local_prefix_provider(id) is Some,
        spec_parse_local_model_id(id) matches Some((p, _)) ==> local_prefix_provider(id) == Some(p),
{
    reveal_strlit("local-ollama-hex-");
    reveal_strlit("local-lmstudio-hex-");
    reveal_strlit("local-custom-hex-");
    reveal_strlit("local-ollama-");
    reveal_strlit("local-lmstudio-");
    reveal_strlit("local-custom-");
    lemma_ascii_hex_part(id, "local-ollama-hex-"@);
    lemma_ascii_hex_part(id, "local-lmstudio-hex-"@);
    lemma_ascii_hex_part(id, "local-custom-hex-"@);
    let hex = seq!["local-ollama-hex-"@, "local-lmstudio-hex-"@, "local-custom-hex-"@];
    let plain = seq!["local-ollama-"@, "local-lmstudio-"@, "local-custom-"@];
    assert forall|k: int| 0 <= k < 3 implies has_prefix(#[trigger] hex[k], plain[k]) by {
        assert(hex[k].subrange(0, plain[k].len() as int) =~= plain[k]);
    }
    assert forall|k: int| 0 <= k < 3 && has_prefix(id, #[trigger] hex[k]) implies has_prefix(id, plain[k]) by {
        lemma_prefix_trans(id, hex[k], plain[k]);
    }
    assert forall|k: int| 0 <= k < 3 && has_prefix(id, #[trigger] plain[k]) implies id[6] == plain[k][6] by {
        lemma_prefix_at(id, plain[k], 6);
    }
    assert(has_prefix(id, hex[0]) ==> has_prefix(id, plain[0]));
    assert(has_prefix(id, hex[1]) ==> has_prefix(id, plain[1]));
    assert(has_prefix(id, hex[2]) ==> has_prefix(id, plain[2]));
    assert(has_prefix(id, plain[0]) ==> id[6] == plain[0][6]);
    assert(has_prefix(id, plain[1]) ==> id[6] == plain[1][6]);
    assert(has_prefix(id, plain[2]) ==> id[6] == plain[2][6]);
}

} // verus!
