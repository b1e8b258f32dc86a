//! Escaping of the user data handed to character windows: `\uXXXX` escapes
//! for non-ASCII characters, and percent-encoding for a URL query value.
use vstd::prelude::*;
use crate::text::{ascii_only, chars_of, hex_char, hex_char_of, push_char};

verus! {

// ---------------------------------------------------------------------------
// Percent-encoding
// ---------------------------------------------------------------------------

/// Characters that percent-encoding leaves as they are.
pub open spec fn is_unreserved(c: char) -> bool {
    ||| 'A' <= c && c <= 'Z'
    ||| 'a' <= c && c <= 'z'
    ||| '0' <= c && c <= '9'
    ||| c == '-' || c == '_' || c == '.' || c == '~'
}

/// The encoding of one character: itself when unreserved, else `%` and two
/// upper-case hex digits of the low byte of its code point.
pub open spec fn percent_escape(c: char) -> Seq<char> {
    if is_unreserved(c) {
        seq![c]
    } else {
        let b = (c as u32) as nat % 256;
        seq!['%', hex_char(b / 16), hex_char(b % 16)]
    }
}

/// The percent-encoding of a whole string: the encodings of its characters in
/// order.
pub open spec fn percent_encoded(s: Seq<char>) -> Seq<char>
    decreases s.len(),
{
    if s.len() == 0 {
        Seq::empty()
    } else {
        percent_encoded(s.drop_last()) + percent_escape(s.last())
    }
}

fn is_unreserved_char(c: char) -> (r: bool)
    ensures
        r == is_unreserved(c),
{
    ('A' <= c && c <= 'Z') || ('a' <= c && c <= 'z') || ('0' <= c && c <= '9') || c == '-' || c
        == '_' || c == '.' || c == '~'
}

/// Percent-encodes `s`: unreserved characters stay, every other character
/// becomes `%` and two upper-case hex digits of the low byte of its code point.
pub fn percent_encode_ascii(s: &str) -> (r: String)
    ensures
        r@ == percent_encoded(s@),
{
    let cs = chars_of(s);
    let n = cs.len();
    let mut out = String::new();
    for i in 0..n
        invariant
            cs@ == s@,
            n == s@.len(),
            out@ == percent_encoded(s@.take(i as int)),
    {
        let c = cs[i];
        let ghost before = out@;
        if is_unreserved_char(c) {
            push_char(&mut out, c);
        } else {
            let b: u32 = (c as u32) % 256;
            push_char(&mut out, '%');
            push_char(&mut out, hex_char_of(b / 16));
            push_char(&mut out, hex_char_of(b % 16));
        }
        assert(out@ =~= before + percent_escape(c));
        assert(s@.take(i + 1).drop_last() =~= s@.take(i as int));
    }
    assert(s@.take(n as int) =~= s@);
    out
}

// ---------------------------------------------------------------------------
// `\uXXXX` escapes
// ---------------------------------------------------------------------------

/// Four upper-case hex digits of `v` (for `v <= 0xFFFF`).
pub open spec fn hex4(v: nat) -> Seq<char> {
    seq![hex_char(v / 4096), hex_char((v / 256) % 16), hex_char((v / 16) % 16), hex_char(v % 16)]
}

/// `\u` followed by four hex digits of `v`.
pub open spec fn u_escape(v: nat) -> Seq<char> {
    seq!['\\', 'u'] + hex4(v)
}

/// The escape of one character: ASCII stays; a character of the basic plane
/// becomes one `\uXXXX`; any other becomes its UTF-16 surrogate pair, each
/// half as `\uXXXX`.
pub open spec fn json_escape(c: char) -> Seq<char> {
    let code = (c as u32) as nat;
    if code < 128 {
        seq![c]
    } else if code <= 0xFFFF {
        u_escape(code)
    } else {
        let k = (code - 0x10000) as nat;
        u_escape(0xD800 + k / 1024) + u_escape(0xDC00 + k % 1024)
    }
}

/// The escapes of all characters of `s`, in order.
pub open spec fn json_escaped(s: Seq<char>) -> Seq<char>
    decreases s.len(),
{
    if s.len() == 0 {
        Seq::empty()
    } else {
        json_escaped(s.drop_last()) + json_escape(s.last())
    }
}

fn push_u_escape(out: &mut String, v: u32)
    requires
        v <= 0xFFFF,
    ensures
        final(out)@ == old(out)@ + u_escape(v as nat),
{
    push_char(out, '\\');
    push_char(out, 'u');
    push_char(out, hex_char_of(v / 4096));
    push_char(out, hex_char_of((v / 256) % 16));
    push_char(out, hex_char_of((v / 16) % 16));
    push_char(out, hex_char_of(v % 16));
    assert(final(out)@ =~= old(out)@ + u_escape(v as nat));
}

/// Replaces every non-ASCII character of `s` by `\uXXXX` escapes (a surrogate
/// pair outside the basic plane), keeping ASCII characters as they are.
pub fn unicode_escape_json(s: &str) -> (r: String)
    ensures
        r@ == json_escaped(s@),
{
    let cs = chars_of(s);
    let n = cs.len();
    let mut out = String::new();
    for i in 0..n
        invariant
            cs@ == s@,
            n == s@.len(),
            out@ == json_escaped(s@.take(i as int)),
    {
        let c = cs[i];
        let ghost before = out@;
        let code: u32 = c as u32;
        if code < 128 {
            push_char(&mut out, c);
        } else if code <= 0xFFFF {
            push_u_escape(&mut out, code);
        } else {
            proof {
                vstd::utf8::char_is_scalar(c);
            }
            let k = code - 0x10000;
            push_u_escape(&mut out, 0xD800 + k / 1024);
            push_u_escape(&mut out, 0xDC00 + k % 1024);
        }
        assert(out@ =~= before + json_escape(c));
        assert(s@.take(i + 1).drop_last() =~= s@.take(i as int));
    }
    assert(s@.take(n as int) =~= s@);
    out
}

// ---------------------------------------------------------------------------
// Laws
// ---------------------------------------------------------------------------

/// The value of a hexadecimal digit character, or -1 for any other character.
pub open spec fn hex_value(c: char) -> int {
    if '0' <= c && c <= '9' {
        c as int - 48
    } else if 'A' <= c && c <= 'F' {
        c as int - 55
    } else if 'a' <= c && c <= 'f' {
        c as int - 87
    } else {
        -1
    }
}

/// Percent-decoding: every `%` followed by two hex digits stands for the
/// character with that code; every other character stands for itself.
pub open spec fn percent_decoded(t: Seq<char>) -> Seq<char>
    decreases t.len(),
{
    if t.len() == 0 {
        Seq::empty()
    } else if t[0] == '%' && t.len() >= 3 && hex_value(t[1]) >= 0 && hex_value(t[2]) >= 0 {
        seq![(hex_value(t[1]) * 16 + hex_value(t[2])) as char] + percent_decoded(t.skip(3))
    } else {
        seq![t[0]] + percent_decoded(t.drop_first())
    }
}

/// The value of four hexadecimal digit characters.
pub open spec fn hex4_value(s: Seq<char>) -> int {
    ((hex_value(s[0]) * 16 + hex_value(s[1])) * 16 + hex_value(s[2])) * 16 + hex_value(s[3])
}

/// A hex digit character reads back as its value.
pub proof fn lemma_hex_char_value(d: nat)
    requires
        d < 16,
    ensures
        hex_value(hex_char(d)) == d,
        hex_char(d) != '%',
        (hex_char(d) as u32) < 128,
{
}

/// A string's encoding starts with the encoding of its first character.
pub proof fn lemma_percent_encoded_front(s: Seq<char>)
    requires
        s.len() > 0,
    ensures
        percent_encoded(s) == percent_escape(s[0]) + percent_encoded(s.drop_first()),
    decreases s.len(),
{
    if s.len() > 1 {
        lemma_percent_encoded_front(s.drop_last());
        assert(s.drop_last().drop_first() =~= s.drop_first().drop_last());
        assert(s.drop_first().last() == s.last());
        assert(s.drop_last()[0] == s[0]);
    } else {
        assert(s.drop_first() =~= Seq::<char>::empty());
        assert(s.drop_last() =~= Seq::<char>::empty());
    }
}

/// Percent-encoding an ASCII string and decoding the result gives the string
/// back.
pub proof fn law_percent_roundtrip(s: Seq<char>)
    requires
        ascii_only(s),
    ensures
        percent_decoded(percent_encoded(s)) == s,
    decreases s.len(),
{
    if s.len() == 0 {
        assert(percent_encoded(s) =~= Seq::<char>::empty());
    } else {
        let c = s[0];
        let rest = s.drop_first();
        assert(ascii_only(rest)) by {
            assert forall|i: int| 0 <= i < rest.len() implies (#[trigger] rest[i] as u32) < 128 by {
                assert(rest[i] == s[i + 1]);
            }
        }
        law_percent_roundtrip(rest);
        lemma_percent_encoded_front(s);
        let t = percent_encoded(s);
        let e = percent_escape(c);
        assert(t == e + percent_encoded(rest));
        assert((c as u32) < 128);
        if is_unreserved(c) {
            assert(t[0] == c);
            assert(t.drop_first() =~= percent_encoded(rest));
            assert(s =~= seq![c] + rest);
        } else {
            let b = (c as u32) as nat % 256;
            assert(b == c as u32);
            lemma_hex_char_value(b / 16);
            lemma_hex_char_value(b % 16);
            assert(t[0] == '%');
            assert(t[1] == hex_char(b / 16));
            assert(t[2] == hex_char(b % 16));
            assert(t.skip(3) =~= percent_encoded(rest));
            assert((b / 16) * 16 + b % 16 == b);
            vstd::utf8::char_u32_cast(c, c as u32);
            assert(((hex_value(t[1]) * 16 + hex_value(t[2])) as char) == c);
            assert(s =~= seq![c] + rest);
        }
    }
}

/// Percent-encoding a string of unreserved characters leaves it unchanged.
pub proof fn law_percent_unreserved_unchanged(s: Seq<char>)
    requires
        forall|i: int| 0 <= i < s.len() ==> is_unreserved(#[trigger] s[i]),
    ensures
        percent_encoded(s) == s,
    decreases s.len(),
{
    if s.len() > 0 {
        law_percent_unreserved_unchanged(s.drop_last());
        assert(is_unreserved(s[s.len() - 1]));
        assert(s =~= s.drop_last() + seq![s.last()]);
    }
}

/// A percent-encoding holds ASCII characters only.
pub proof fn law_percent_encoded_ascii(s: Seq<char>)
    ensures
        ascii_only(percent_encoded(s)),
    decreases s.len(),
{
    if s.len() > 0 {
        law_percent_encoded_ascii(s.drop_last());
        let c = s.last();
        let a = percent_encoded(s.drop_last());
        let e = percent_escape(c);
        if !is_unreserved(c) {
            let b = (c as u32) as nat % 256;
            lemma_hex_char_value(b / 16);
            lemma_hex_char_value(b % 16);
        }
        assert(ascii_only(e));
        assert forall|i: int| 0 <= i < (a + e).len() implies ((#[trigger] (a + e)[i]) as u32) < 128 by {
            if i < a.len() {
                assert((a + e)[i] == a[i]);
            } else {
                assert((a + e)[i] == e[i - a.len()]);
            }
        }
    }
}

/// A `\uXXXX` escape holds ASCII characters only.
proof fn lemma_u_escape_ascii(v: nat)
    requires
        v <= 0xFFFF,
    ensures
        ascii_only(u_escape(v)),
        u_escape(v).len() == 6,
        hex4_value(u_escape(v).subrange(2, 6)) == v,
{
    lemma_hex_char_value(v / 4096);
    lemma_hex_char_value((v / 256) % 16);
    lemma_hex_char_value((v / 16) % 16);
    lemma_hex_char_value(v % 16);
    let h = u_escape(v).subrange(2, 6);
    assert(h =~= hex4(v));
    assert(((v / 4096 * 16 + (v / 256) % 16) * 16 + (v / 16) % 16) * 16 + v % 16 == v);
}

/// The escape of every character holds ASCII characters only, and the escape
/// of a non-ASCII character denotes it: one `\uXXXX` holding its code in the
/// basic plane, else a UTF-16 surrogate pair whose halves combine to its code.
pub proof fn law_json_escape_denotes(c: char)
    ensures
        ascii_only(json_escape(c)),
        (c as u32) < 128 ==> json_escape(c) == seq![c],
        128 <= (c as u32) <= 0xFFFF ==> {
            let e = json_escape(c);
            &&& e.len() == 6
            &&& e[0] == '\\' && e[1] == 'u'
            &&& hex4_value(e.subrange(2, 6)) == c as u32
        },
        (c as u32) > 0xFFFF ==> {
            let e = json_escape(c);
            let hi = hex4_value(e.subrange(2, 6));
            let lo = hex4_value(e.subrange(8, 12));
            &&& e.len() == 12
            &&& e[0] == '\\' && e[1] == 'u' && e[6] == '\\' && e[7] == 'u'
            &&& 0xD800 <= hi <= 0xDBFF
            &&& 0xDC00 <= lo <= 0xDFFF
            &&& 0x10000 + (hi - 0xD800) * 1024 + (lo - 0xDC00) == c as u32
        },
{
    vstd::utf8::char_is_scalar(c);
    let code = (c as u32) as nat;
    if code < 128 {
    } else if code <= 0xFFFF {
        lemma_u_escape_ascii(code);
    } else {
        let k = (code - 0x10000) as nat;
        let a = u_escape(0xD800 + k / 1024);
        let b = u_escape(0xDC00 + k % 1024);
        lemma_u_escape_ascii(0xD800 + k / 1024);
        lemma_u_escape_ascii(0xDC00 + k % 1024);
        let e = a + b;
        assert(e.subrange(2, 6) =~= a.subrange(2, 6));
        assert(e.subrange(8, 12) =~= b.subrange(2, 6));
        assert forall|i: int| 0 <= i < e.len() implies ((#[trigger] e[i]) as u32) < 128 by {
            if i < 6 {
                assert(e[i] == a[i]);
            } else {
                assert(e[i] == b[i - 6]);
            }
        }
        assert(k / 1024 * 1024 + k % 1024 == k);
    }
}

/// Escaping gives ASCII text, and leaves ASCII text unchanged.
pub proof fn law_json_escaped_ascii(s: Seq<char>)
    ensures
        ascii_only(json_escaped(s)),
        ascii_only(s) ==> json_escaped(s) == s,
    decreases s.len(),
{
    if s.len() > 0 {
        law_json_escaped_ascii(s.drop_last());
        law_json_escape_denotes(s.last());
        let a = json_escaped(s.drop_last());
        let e = json_escape(s.last());
        assert forall|i: int| 0 <= i < (a + e).len() implies ((#[trigger] (a + e)[i]) as u32) < 128 by {
            if i < a.len() {
                assert((a + e)[i] == a[i]);
            } else {
                assert((a + e)[i] == e[i - a.len()]);
            }
        }
        if ascii_only(s) {
            assert(ascii_only(s.drop_last())) by {
                assert forall|i: int| 0 <= i < s.drop_last().len() implies ((#[trigger] s.drop_last()[i]) as u32) < 128 by {
                    assert(s.drop_last()[i] == s[i]);
                }
            }
            assert((s.last() as u32) < 128);
            assert(s =~= s.drop_last() + seq![s.last()]);
        }
    } else {
        assert(json_escaped(s) =~= s);
    }
}

/// `c` is one of the characters that may stand unescaped in the encoded query
/// value: `A`-`Z`, `a`-`z`, `0`-`9`, `-`, `_`, `.`, `~`.
pub open spec fn url_plain(c: char) -> bool {
    let k = c as u32;
    ||| 65 <= k <= 90
    ||| 97 <= k <= 122
    ||| 48 <= k <= 57
    ||| k == 45 || k == 95 || k == 46 || k == 126
}

/// `c` is an upper-case hexadecimal digit.
pub open spec fn upper_hex_digit(c: char) -> bool {
    ('0' <= c && c <= '9') || ('A' <= c && c <= 'F')
}

/// An upper-case hex digit character is what `hex_char` gives.
proof fn lemma_hex_char_upper(d: nat)
    requires
        d < 16,
    ensures
        upper_hex_digit(hex_char(d)),
        !url_plain('%'),
{
}

/// Encoding a concatenation encodes each part on its own.
pub proof fn law_percent_encoded_concat(a: Seq<char>, b: Seq<char>)
    ensures
        percent_encoded(a + b) == percent_encoded(a) + percent_encoded(b),
    decreases b.len(),
{
    if b.len() == 0 {
        assert(a + b =~= a);
        assert(percent_encoded(b) =~= Seq::<char>::empty());
        assert(percent_encoded(a) + percent_encoded(b) =~= percent_encoded(a));
    } else {
        law_percent_encoded_concat(a, b.drop_last());
        assert((a + b).drop_last() =~= a + b.drop_last());
        assert((a + b).last() == b.last());
        assert(percent_encoded(a) + percent_encoded(b) =~= percent_encoded(a) + percent_encoded(
            b.drop_last(),
        ) + percent_escape(b.last()));
    }
}

/// One character encodes as itself when it is one of `A`-`Z`, `a`-`z`,
/// `0`-`9`, `-`, `_`, `.`, `~`; any other character encodes as `%` and two
/// upper-case hex digits whose value is the low byte of its code point.
pub proof fn law_percent_escape_char(c: char)
    ensures
        url_plain(c) ==> percent_encoded(seq![c]) == seq![c],
        !url_plain(c) ==> {
            let e = percent_encoded(seq![c]);
            &&& e.len() == 3
            &&& e[0] == '%'
            &&& upper_hex_digit(e[1]) && upper_hex_digit(e[2])
            &&& hex_value(e[1]) * 16 + hex_value(e[2]) == (c as u32) as int % 256
        },
{
    let s = seq![c];
    assert(s.drop_last() =~= Seq::<char>::empty());
    assert(percent_encoded(s.drop_last()) =~= Seq::<char>::empty());
    assert(percent_encoded(s) =~= percent_escape(c));
    if !url_plain(c) {
        let b = (c as u32) as nat % 256;
        lemma_hex_char_value(b / 16);
        lemma_hex_char_value(b % 16);
        lemma_hex_char_upper(b / 16);
        lemma_hex_char_upper(b % 16);
        assert((b / 16) * 16 + b % 16 == b);
    }
}

/// Every character of a percent-encoding is one of `A`-`Z`, `a`-`z`, `0`-`9`,
/// `-`, `_`, `.`, `~` or `%`: no other character of the input appears in it.
pub proof fn law_percent_alphabet(s: Seq<char>)
    ensures
        forall|i: int|
            0 <= i < percent_encoded(s).len() ==> url_plain(#[trigger] percent_encoded(s)[i])
                || percent_encoded(s)[i] == '%',
    decreases s.len(),
{
    if s.len() > 0 {
        law_percent_alphabet(s.drop_last());
        let a = percent_encoded(s.drop_last());
        let c = s.last();
        let e = percent_escape(c);
        if !is_unreserved(c) {
            let b = (c as u32) as nat % 256;
            lemma_hex_char_upper(b / 16);
            lemma_hex_char_upper(b % 16);
        }
        assert forall|i: int| 0 <= i < (a + e).len() implies url_plain(#[trigger] (a + e)[i]) || (a
            + e)[i] == '%' by {
            if i < a.len() {
                assert((a + e)[i] == a[i]);
            } else {
                assert((a + e)[i] == e[i - a.len()]);
            }
        }
    }
}

/// Escaping a concatenation escapes each part on its own.
pub proof fn law_json_escaped_concat(a: Seq<char>, b: Seq<char>)
    ensures
        json_escaped(a + b) == json_escaped(a) + json_escaped(b),
    decreases b.len(),
{
    if b.len() == 0 {
        assert(a + b =~= a);
        assert(json_escaped(b) =~= Seq::<char>::empty());
        assert(json_escaped(a) + json_escaped(b) =~= json_escaped(a));
    } else {
        law_json_escaped_concat(a, b.drop_last());
        assert((a + b).drop_last() =~= a + b.drop_last());
        assert((a + b).last() == b.last());
        assert(json_escaped(a) + json_escaped(b) =~= json_escaped(a) + json_escaped(b.drop_last())
            + json_escape(b.last()));
    }
}

/// The hex digits of every `\u` escape are upper-case, and a single character
/// escapes as `json_escape` of it.
pub proof fn law_json_escape_upper_hex(c: char)
    ensures
        json_escaped(seq![c]) == json_escape(c),
        forall|i: int|
            0 <= i < json_escape(c).len() && (c as u32) >= 128 && i % 6 >= 2 ==> upper_hex_digit(
                #[trigger] json_escape(c)[i],
            ),
{
    let s = seq![c];
    assert(s.drop_last() =~= Seq::<char>::empty());
    assert(json_escaped(s.drop_last()) =~= Seq::<char>::empty());
    assert(json_escaped(s) =~= json_escape(c));
    vstd::utf8::char_is_scalar(c);
    let code = (c as u32) as nat;
    if code >= 128 {
        if code <= 0xFFFF {
            lemma_hex_char_upper(code / 4096);
            lemma_hex_char_upper((code / 256) % 16);
            lemma_hex_char_upper((code / 16) % 16);
            lemma_hex_char_upper(code % 16);
        } else {
            let k = (code - 0x10000) as nat;
            let hi = 0xD800 + k / 1024;
            let lo = 0xDC00 + k % 1024;
            lemma_hex_char_upper(hi / 4096);
            lemma_hex_char_upper((hi / 256) % 16);
            lemma_hex_char_upper((hi / 16) % 16);
            lemma_hex_char_upper(hi % 16);
            lemma_hex_char_upper(lo / 4096);
            lemma_hex_char_upper((lo / 256) % 16);
            lemma_hex_char_upper((lo / 16) % 16);
            lemma_hex_char_upper(lo % 16);
            let e = json_escape(c);
            assert forall|i: int| 0 <= i < e.len() && i % 6 >= 2 implies upper_hex_digit(#[trigger] e[i]) by {
                if i < 6 {
                    assert(e[i] == u_escape(hi)[i]);
                } else {
                    assert(e[i] == u_escape(lo)[i - 6]);
                }
            }
        }
    }
}

} // verus!
