//! The signaling wire schema: a JSON object `{"type": "offer"|"answer",
//! "sdp": "<text>"}`, handled entirely at the byte level.
//!
//! Serialization and parsing are verified against spec-level definitions
//! (`json_of`, `parse_desc`), and parsing inverts serialization
//! (`lemma_roundtrip`). The parser accepts any object of string members with
//! optional JSON whitespace, unknown members included; `\uXXXX` escapes are
//! accepted for code points below 0x80 (the only ones serialization emits).
use vstd::prelude::*;

use crate::session::{bytes_eq, clone_bytes, DescView, SdpKind, SessionDescription};

verus! {

pub const QUOTE: u8 = 0x22;

pub const BACKSLASH: u8 = 0x5c;

pub const SLASH: u8 = 0x2f;

pub const LBRACE: u8 = 0x7b;

pub const RBRACE: u8 = 0x7d;

pub const COLON: u8 = 0x3a;

pub const COMMA: u8 = 0x2c;

/// JSON insignificant whitespace.
pub open spec fn is_ws(b: u8) -> bool {
    b == 0x20 || b == 0x09 || b == 0x0a || b == 0x0d
}

/// The lower-case hex digit for a value below 16.
pub open spec fn hex_digit(n: u8) -> u8
    recommends
        n < 16,
{
    if n < 10 {
        (0x30 + n) as u8
    } else {
        (0x57 + n) as u8
    }
}

/// The value of a hex digit byte, if it is one.
pub open spec fn hex_value(b: u8) -> Option<u8> {
    if 0x30 <= b && b <= 0x39 {
        Some((b - 0x30) as u8)
    } else if 0x61 <= b && b <= 0x66 {
        Some((b - 0x57) as u8)
    } else if 0x41 <= b && b <= 0x46 {
        Some((b - 0x37) as u8)
    } else {
        None
    }
}

/// A byte that is emitted unescaped inside a JSON string.
pub open spec fn is_plain(b: u8) -> bool {
    b >= 0x20 && b != QUOTE && b != BACKSLASH
}

/// How one byte of string content is emitted.
pub open spec fn escape_byte(b: u8) -> Seq<u8> {
    if b == QUOTE {
        seq![BACKSLASH, QUOTE]
    } else if b == BACKSLASH {
        seq![BACKSLASH, BACKSLASH]
    } else if b == 0x08 {
        seq![BACKSLASH, 0x62]
    } else if b == 0x09 {
        seq![BACKSLASH, 0x74]
    } else if b == 0x0a {
        seq![BACKSLASH, 0x6e]
    } else if b == 0x0c {
        seq![BACKSLASH, 0x66]
    } else if b == 0x0d {
        seq![BACKSLASH, 0x72]
    } else if b < 0x20 {
        seq![BACKSLASH, 0x75, 0x30, 0x30, hex_digit((b / 16) as u8), hex_digit((b % 16) as u8)]
    } else {
        seq![b]
    }
}

/// String content, escaped for embedding between quotes.
pub open spec fn escape(s: Seq<u8>) -> Seq<u8>
    decreases s.len(),
{
    if s.len() == 0 {
        Seq::empty()
    } else {
        escape_byte(s[0]) + escape(s.drop_first())
    }
}

pub open spec fn type_key() -> Seq<u8> {
    seq![0x74u8, 0x79, 0x70, 0x65]
}

pub open spec fn sdp_key() -> Seq<u8> {
    seq![0x73u8, 0x64, 0x70]
}

pub open spec fn offer_bytes() -> Seq<u8> {
    seq![0x6fu8, 0x66, 0x66, 0x65, 0x72]
}

pub open spec fn answer_bytes() -> Seq<u8> {
    seq![0x61u8, 0x6e, 0x73, 0x77, 0x65, 0x72]
}

pub open spec fn kind_bytes(k: SdpKind) -> Seq<u8> {
    match k {
        SdpKind::Offer => offer_bytes(),
        SdpKind::Answer => answer_bytes(),
    }
}

/// `{"type":"`
pub open spec fn json_prefix() -> Seq<u8> {
    seq![LBRACE, QUOTE] + type_key() + seq![QUOTE, COLON, QUOTE]
}

/// `","sdp":"`
pub open spec fn json_mid() -> Seq<u8> {
    seq![QUOTE, COMMA, QUOTE] + sdp_key() + seq![QUOTE, COLON, QUOTE]
}

/// `"}`
pub open spec fn json_suffix() -> Seq<u8> {
    seq![QUOTE, RBRACE]
}

/// The serialized form of a description.
pub open spec fn json_of(d: DescView) -> Seq<u8> {
    json_prefix() + kind_bytes(d.kind) + json_mid() + escape(d.sdp) + json_suffix()
}

/// The first index at or after `i` holding a non-whitespace byte.
pub open spec fn skip_ws(s: Seq<u8>, i: int) -> int
    decreases s.len() - i,
    when 0 <= i <= s.len()
{
    if i < s.len() && is_ws(s[i]) {
        skip_ws(s, i + 1)
    } else {
        i
    }
}

/// Reads one escape sequence starting at the backslash at `i`; yields the
/// decoded byte and the index just past the sequence.
pub open spec fn unescape_at(s: Seq<u8>, i: int) -> Option<(u8, int)> {
    if i + 1 < s.len() {
        let c = s[i + 1];
        if c == QUOTE {
            Some((QUOTE, i + 2))
        } else if c == BACKSLASH {
            Some((BACKSLASH, i + 2))
        } else if c == SLASH {
            Some((SLASH, i + 2))
        } else if c == 0x62 {
            Some((0x08u8, i + 2))
        } else if c == 0x66 {
            Some((0x0cu8, i + 2))
        } else if c == 0x6e {
            Some((0x0au8, i + 2))
        } else if c == 0x72 {
            Some((0x0du8, i + 2))
        } else if c == 0x74 {
            Some((0x09u8, i + 2))
        } else if c == 0x75 && i + 5 < s.len() {
            match (hex_value(s[i + 2]), hex_value(s[i + 3]), hex_value(s[i + 4]), hex_value(
                s[i + 5],
            )) {
                (Some(h1), Some(h2), Some(h3), Some(h4)) => if h1 == 0 && h2 == 0 && h3 < 8 {
                    Some(((h3 * 16 + h4) as u8, i + 6))
                } else {
                    None
                },
                _ => None,
            }
        } else {
            None
        }
    } else {
        None
    }
}

/// Parses string content from just after an opening quote up to and past the
/// closing quote.
pub open spec fn parse_chars(s: Seq<u8>, i: int) -> Option<(Seq<u8>, int)>
    decreases s.len() - i,
    when 0 <= i <= s.len()
{
    if i >= s.len() {
        None
    } else if s[i] == QUOTE {
        Some((Seq::empty(), i + 1))
    } else if s[i] == BACKSLASH {
        match unescape_at(s, i) {
            None => None,
            Some((b, ni)) => if i < ni <= s.len() {
                match parse_chars(s, ni) {
                    None => None,
                    Some((rest, e)) => Some((seq![b] + rest, e)),
                }
            } else {
                None
            },
        }
    } else if s[i] < 0x20 {
        None
    } else {
        match parse_chars(s, i + 1) {
            None => None,
            Some((rest, e)) => Some((seq![s[i]] + rest, e)),
        }
    }
}

/// Parses a JSON string starting at the opening quote at `i`.
pub open spec fn parse_string(s: Seq<u8>, i: int) -> Option<(Seq<u8>, int)> {
    if 0 <= i && i < s.len() && s[i] == QUOTE {
        parse_chars(s, i + 1)
    } else {
        None
    }
}

/// Parses one or more `"key": "value"` members separated by commas, starting
/// at the first key's opening quote.
pub open spec fn parse_members(s: Seq<u8>, i: int) -> Option<(Seq<(Seq<u8>, Seq<u8>)>, int)>
    decreases s.len() - i,
    when 0 <= i <= s.len()
{
    match parse_string(s, i) {
        None => None,
        Some((k, i1)) => if !(0 <= i1 && i1 <= s.len()) {
            None
        } else {
            let i2 = skip_ws(s, i1);
            if !(0 <= i2 && i2 < s.len() && s[i2] == COLON) {
                None
            } else {
                let i3 = skip_ws(s, i2 + 1);
                if !(0 <= i3 && i3 <= s.len()) {
                    None
                } else {
                    match parse_string(s, i3) {
                        None => None,
                        Some((v, i4)) => if !(0 <= i4 && i4 <= s.len()) {
                            None
                        } else {
                            let i5 = skip_ws(s, i4);
                            if 0 <= i5 && i5 < s.len() && s[i5] == COMMA {
                                let i6 = skip_ws(s, i5 + 1);
                                if i < i6 <= s.len() {
                                    match parse_members(s, i6) {
                                        None => None,
                                        Some((rest, e)) => Some((seq![(k, v)] + rest, e)),
                                    }
                                } else {
                                    None
                                }
                            } else {
                                Some((seq![(k, v)], i5))
                            }
                        },
                    }
                }
            }
        },
    }
}

/// The value of the first member with the given key.
pub open spec fn lookup(mem: Seq<(Seq<u8>, Seq<u8>)>, key: Seq<u8>) -> Option<Seq<u8>>
    decreases mem.len(),
{
    if mem.len() == 0 {
        None
    } else if mem[0].0 == key {
        Some(mem[0].1)
    } else {
        lookup(mem.drop_first(), key)
    }
}

/// How many members carry the given key.
pub open spec fn key_count(mem: Seq<(Seq<u8>, Seq<u8>)>, key: Seq<u8>) -> nat
    decreases mem.len(),
{
    if mem.len() == 0 {
        0
    } else {
        (if mem[0].0 == key {
            1nat
        } else {
            0nat
        }) + key_count(mem.drop_first(), key)
    }
}

/// Schema extraction: exactly one `type` member naming a known kind, and
/// exactly one `sdp` member.
pub open spec fn desc_of_members(mem: Seq<(Seq<u8>, Seq<u8>)>) -> Option<DescView> {
    if key_count(mem, type_key()) == 1 && key_count(mem, sdp_key()) == 1 {
        match lookup(mem, type_key()) {
            None => None,
            Some(tv) => match lookup(mem, sdp_key()) {
                None => None,
                Some(sv) => if tv == offer_bytes() {
                    Some(DescView { kind: SdpKind::Offer, sdp: sv })
                } else if tv == answer_bytes() {
                    Some(DescView { kind: SdpKind::Answer, sdp: sv })
                } else {
                    None
                },
            },
        }
    } else {
        None
    }
}

/// The parse of a whole payload: one object, nothing but whitespace around
/// it, and the schema satisfied.
pub open spec fn parse_desc(s: Seq<u8>) -> Option<DescView> {
    let i0 = skip_ws(s, 0);
    if !(0 <= i0 && i0 < s.len() && s[i0] == LBRACE) {
        None
    } else {
        let i1 = skip_ws(s, i0 + 1);
        if !(0 <= i1 && i1 <= s.len()) {
            None
        } else {
            match parse_members(s, i1) {
                None => None,
                Some((mem, i2)) => if !(0 <= i2 && i2 < s.len() && s[i2] == RBRACE) {
                    None
                } else if skip_ws(s, i2 + 1) == s.len() {
                    desc_of_members(mem)
                } else {
                    None
                },
            }
        }
    }
}

pub proof fn lemma_parse_chars_bounds(s: Seq<u8>, i: int)
    requires
        0 <= i <= s.len(),
    ensures
        parse_chars(s, i) matches Some(r) ==> i < r.1 <= s.len(),
    decreases s.len() - i,
{
    if i < s.len() && s[i] == BACKSLASH {
        match unescape_at(s, i) {
            None => {},
            Some((b, ni)) => {
                if i < ni <= s.len() {
                    lemma_parse_chars_bounds(s, ni);
                }
            },
        }
    } else if i < s.len() && s[i] != QUOTE && s[i] >= 0x20 {
        lemma_parse_chars_bounds(s, i + 1);
    }
}

/// Escaping distributes over concatenation.
pub proof fn lemma_escape_app(a: Seq<u8>, b: Seq<u8>)
    ensures
        escape(a + b) == escape(a) + escape(b),
    decreases a.len(),
{
    if a.len() == 0 {
        assert(a + b =~= b);
        assert(escape(a) + escape(b) =~= escape(b));
    } else {
        assert((a + b).drop_first() =~= a.drop_first() + b);
        lemma_escape_app(a.drop_first(), b);
        assert(escape(a + b) =~= escape(a) + escape(b));
    }
}

/// A sequence of plain bytes is its own escaped form.
pub proof fn lemma_escape_plain(s: Seq<u8>)
    requires
        forall|k: int| 0 <= k < s.len() ==> is_plain(#[trigger] s[k]),
    ensures
        escape(s) == s,
    decreases s.len(),
{
    if s.len() == 0 {
        assert(escape(s) =~= s);
    } else {
        lemma_escape_plain(s.drop_first());
        assert(escape(s) =~= s);
    }
}

/// Parsing string content inverts escaping: if the bytes from `i` on start
/// with `escape(content)` followed by a closing quote, the parse yields
/// exactly `content`.
pub proof fn lemma_parse_escape(s: Seq<u8>, i: int, content: Seq<u8>)
    requires
        0 <= i,
        i + escape(content).len() + 1 <= s.len(),
        s.subrange(i, i + escape(content).len() + 1) == escape(content) + seq![QUOTE],
    ensures
        parse_chars(s, i) == Some((content, i + escape(content).len() + 1)),
    decreases content.len(),
{
    let esc = escape(content);
    let tail = s.subrange(i, i + esc.len() + 1);
    if content.len() == 0 {
        assert(esc =~= Seq::<u8>::empty());
        assert(s[i] == tail[0]);
        assert(s[i] == QUOTE);
        assert(parse_chars(s, i) == Some((Seq::<u8>::empty(), i + 1)));
        assert(content =~= Seq::<u8>::empty());
    } else {
        let b0 = content[0];
        let rest = content.drop_first();
        let eb = escape_byte(b0);
        assert(esc == eb + escape(rest));
        let erest = escape(rest);
        assert(esc.len() == eb.len() + erest.len());
        assert forall|k: int| 0 <= k < eb.len() implies s[i + k] == eb[k] by {
            assert(tail[k] == s[i + k]);
            assert(tail[k] == (eb + erest + seq![QUOTE])[k]) by {
                assert(tail =~= eb + erest + seq![QUOTE]);
            }
        }
        let ni = i + eb.len();
        assert(s.subrange(ni, ni + erest.len() + 1) =~= erest + seq![QUOTE]) by {
            assert forall|k: int| 0 <= k < erest.len() + 1 implies s.subrange(
                ni,
                ni + erest.len() + 1,
            )[k] == (erest + seq![QUOTE])[k] by {
                assert(s[ni + k] == tail[eb.len() + k]);
                assert(tail =~= eb + erest + seq![QUOTE]);
            }
        }
        lemma_parse_escape(s, ni, rest);
        if is_plain(b0) {
            assert(eb =~= seq![b0]);
            assert(s[i + 0] == eb[0]);
            assert(s[i] == b0);
            assert(parse_chars(s, i) == Some((seq![b0] + rest, i + esc.len() + 1)));
            assert(seq![b0] + rest =~= content);
        } else if b0 == QUOTE || b0 == BACKSLASH || b0 == 0x08 || b0 == 0x09 || b0 == 0x0a || b0
            == 0x0c || b0 == 0x0d {
            assert(eb.len() == 2);
            assert(s[i + 0] == eb[0] && s[i + 1] == eb[1]);
            assert(s[i] == BACKSLASH);
            assert(unescape_at(s, i) == Some((b0, i + 2)));
            assert(parse_chars(s, i) == Some((seq![b0] + rest, i + esc.len() + 1)));
            assert(seq![b0] + rest =~= content);
        } else {
            // control byte without a shorthand: \u00XX
            assert(b0 < 0x20);
            assert(eb.len() == 6);
            assert(s[i + 0] == eb[0] && s[i + 1] == eb[1] && s[i + 2] == eb[2] && s[i + 3] == eb[3]
                && s[i + 4] == eb[4] && s[i + 5] == eb[5]);
            assert(s[i] == BACKSLASH);
            assert(s[i + 1] == 0x75);
            let h3 = (b0 / 16) as u8;
            let h4 = (b0 % 16) as u8;
            assert(s[i + 2] == 0x30 && s[i + 3] == 0x30);
            assert(s[i + 4] == hex_digit(h3));
            assert(s[i + 5] == hex_digit(h4));
            assert(hex_value(0x30) == Some(0u8));
            assert(h3 < 2 && h4 < 16);
            assert(hex_value(hex_digit(h3)) == Some(h3));
            assert(hex_value(hex_digit(h4)) == Some(h4));
            assert(h3 * 16 + h4 == b0) by {
                assert(b0 / 16 * 16 + b0 % 16 == b0) by (nonlinear_arith);
            }
            assert(unescape_at(s, i) == Some((b0, i + 6)));
            assert(parse_chars(s, i) == Some((seq![b0] + rest, i + esc.len() + 1)));
            assert(seq![b0] + rest =~= content);
        }
    }
}

/// Parsing inverts serialization: every description's wire form parses back
/// to the same description.
#[verifier::rlimit(100)]
pub proof fn lemma_roundtrip(d: DescView)
    ensures
        parse_desc(json_of(d)) == Some(d),
{
    let s = json_of(d);
    let kb = kind_bytes(d.kind);
    let esc = escape(d.sdp);
    let klen = kb.len() as int;
    let elen = esc.len() as int;
    assert(json_prefix() =~= seq![LBRACE, QUOTE, 0x74u8, 0x79, 0x70, 0x65, QUOTE, COLON, QUOTE]);
    assert(json_mid() =~= seq![QUOTE, COMMA, QUOTE, 0x73u8, 0x64, 0x70, QUOTE, COLON, QUOTE]);
    assert(s == json_prefix() + kb + json_mid() + esc + json_suffix());
    assert(s.len() == 9 + klen + 9 + elen + 2);
    // Positions: 0:'{' 1:'"' 2..6:"type" 6:'"' 7:':' 8:'"' 9..9+klen:kind
    // 9+klen:'"' 10+klen:',' 11+klen:'"' 12+klen..15+klen:"sdp" 15+klen:'"'
    // 16+klen:':' 17+klen:'"' 18+klen..18+klen+elen:escaped sdp
    // 18+klen+elen:'"' 19+klen+elen:'}'
    reveal_with_fuel(skip_ws, 2);
    reveal_with_fuel(parse_chars, 2);
    assert(s[0] == LBRACE);
    assert(skip_ws(s, 0) == 0);
    assert(s[1] == QUOTE);
    assert(skip_ws(s, 1) == 1);
    // key "type"
    assert(forall|k: int| 0 <= k < 4 ==> is_plain(#[trigger] type_key()[k]));
    lemma_escape_plain(type_key());
    assert(s.subrange(2, 7) =~= escape(type_key()) + seq![QUOTE]);
    lemma_parse_escape(s, 2, type_key());
    assert(parse_string(s, 1) == Some((type_key(), 7int)));
    assert(s[7] == COLON);
    assert(skip_ws(s, 7) == 7);
    assert(s[8] == QUOTE);
    assert(skip_ws(s, 8) == 8);
    // value: the kind
    assert(forall|k: int| 0 <= k < offer_bytes().len() ==> is_plain(#[trigger] offer_bytes()[k]));
    assert(forall|k: int| 0 <= k < answer_bytes().len() ==> is_plain(
        #[trigger] answer_bytes()[k],
    ));
    lemma_escape_plain(kb);
    assert(s.subrange(9, 9 + klen + 1) =~= escape(kb) + seq![QUOTE]);
    lemma_parse_escape(s, 9, kb);
    assert(parse_string(s, 8) == Some((kb, 10 + klen)));
    assert(s[10 + klen] == COMMA);
    assert(skip_ws(s, 10 + klen) == 10 + klen);
    assert(s[11 + klen] == QUOTE);
    assert(skip_ws(s, 11 + klen) == 11 + klen);
    // key "sdp"
    assert(forall|k: int| 0 <= k < 3 ==> is_plain(#[trigger] sdp_key()[k]));
    lemma_escape_plain(sdp_key());
    assert(s.subrange(12 + klen, 16 + klen) =~= escape(sdp_key()) + seq![QUOTE]);
    lemma_parse_escape(s, 12 + klen, sdp_key());
    assert(parse_string(s, 11 + klen) == Some((sdp_key(), 16 + klen)));
    assert(s[16 + klen] == COLON);
    assert(skip_ws(s, 16 + klen) == 16 + klen);
    assert(s[17 + klen] == QUOTE);
    assert(skip_ws(s, 17 + klen) == 17 + klen);
    // value: the escaped sdp
    assert(s.subrange(18 + klen, 18 + klen + elen + 1) =~= esc + seq![QUOTE]);
    lemma_parse_escape(s, 18 + klen, d.sdp);
    assert(parse_string(s, 17 + klen) == Some((d.sdp, 19 + klen + elen)));
    let close = 19 + klen + elen;
    assert(s[close] == RBRACE);
    assert(skip_ws(s, close) == close);
    // assemble the member list
    let inner = parse_members(s, 11 + klen);
    assert(inner == Some((seq![(sdp_key(), d.sdp)], close)));
    let mem = seq![(type_key(), kb), (sdp_key(), d.sdp)];
    assert(parse_members(s, 1) == Some((seq![(type_key(), kb)] + seq![(sdp_key(), d.sdp)], close)));
    assert(seq![(type_key(), kb)] + seq![(sdp_key(), d.sdp)] =~= mem);
    assert(skip_ws(s, close + 1) == s.len());
    // schema extraction on the two members
    assert(type_key().len() != sdp_key().len());
    assert(type_key() != sdp_key());
    assert(kb != type_key() && kb != sdp_key()) by {
        assert(kb.len() == 5 || kb.len() == 6);
    }
    assert(mem.drop_first() =~= seq![(sdp_key(), d.sdp)]);
    assert(seq![(sdp_key(), d.sdp)].drop_first() =~= Seq::<(Seq<u8>, Seq<u8>)>::empty());
    reveal_with_fuel(key_count, 3);
    reveal_with_fuel(lookup, 3);
    assert(key_count(mem, type_key()) == 1);
    assert(key_count(mem, sdp_key()) == 1);
    assert(lookup(mem, type_key()) == Some(kb));
    assert(lookup(mem, sdp_key()) == Some(d.sdp));
    assert(offer_bytes().len() != answer_bytes().len());
    assert(offer_bytes() != answer_bytes());
    match d.kind {
        SdpKind::Offer => {
            assert(desc_of_members(mem) == Some(DescView { kind: SdpKind::Offer, sdp: d.sdp }));
        },
        SdpKind::Answer => {
            assert(desc_of_members(mem) == Some(DescView { kind: SdpKind::Answer, sdp: d.sdp }));
        },
    }
    assert(DescView { kind: d.kind, sdp: d.sdp } =~= d);
}

} // verus!

verus! {

/// The view of an executable member list.
pub open spec fn mem_view(m: Seq<(Vec<u8>, Vec<u8>)>) -> Seq<(Seq<u8>, Seq<u8>)> {
    Seq::new(m.len(), |k: int| (m[k].0@, m[k].1@))
}

fn type_key_vec() -> (r: Vec<u8>)
    ensures
        r@ == type_key(),
{
    let mut v: Vec<u8> = Vec::new();
    v.push(0x74);
    v.push(0x79);
    v.push(0x70);
    v.push(0x65);
    proof {
        assert(v@ =~= type_key());
    }
    v
}

fn sdp_key_vec() -> (r: Vec<u8>)
    ensures
        r@ == sdp_key(),
{
    let mut v: Vec<u8> = Vec::new();
    v.push(0x73);
    v.push(0x64);
    v.push(0x70);
    proof {
        assert(v@ =~= sdp_key());
    }
    v
}

fn offer_vec() -> (r: Vec<u8>)
    ensures
        r@ == offer_bytes(),
{
    let mut v: Vec<u8> = Vec::new();
    v.push(0x6f);
    v.push(0x66);
    v.push(0x66);
    v.push(0x65);
    v.push(0x72);
    proof {
        assert(v@ =~= offer_bytes());
    }
    v
}

fn answer_vec() -> (r: Vec<u8>)
    ensures
        r@ == answer_bytes(),
{
    let mut v: Vec<u8> = Vec::new();
    v.push(0x61);
    v.push(0x6e);
    v.push(0x73);
    v.push(0x77);
    v.push(0x65);
    v.push(0x72);
    proof {
        assert(v@ =~= answer_bytes());
    }
    v
}

/// Serializes a description into its wire form.
pub fn serialize_description(d: &SessionDescription) -> (r: Vec<u8>)
    ensures
        r@ == json_of(d@),
{
    let mut out: Vec<u8> = Vec::new();
    out.push(LBRACE);
    out.push(QUOTE);
    out.push(0x74);
    out.push(0x79);
    out.push(0x70);
    out.push(0x65);
    out.push(QUOTE);
    out.push(COLON);
    out.push(QUOTE);
    proof {
        assert(out@ =~= json_prefix());
    }
    match d.kind {
        SdpKind::Offer => {
            out.push(0x6f);
            out.push(0x66);
            out.push(0x66);
            out.push(0x65);
            out.push(0x72);
        },
        SdpKind::Answer => {
            out.push(0x61);
            out.push(0x6e);
            out.push(0x73);
            out.push(0x77);
            out.push(0x65);
            out.push(0x72);
        },
    }
    proof {
        assert(out@ =~= json_prefix() + kind_bytes(d@.kind));
    }
    out.push(QUOTE);
    out.push(COMMA);
    out.push(QUOTE);
    out.push(0x73);
    out.push(0x64);
    out.push(0x70);
    out.push(QUOTE);
    out.push(COLON);
    out.push(QUOTE);
    let ghost base = json_prefix() + kind_bytes(d@.kind) + json_mid();
    proof {
        assert(out@ =~= base);
    }
    let mut i: usize = 0;
    while i < d.sdp.len()
        invariant
            i <= d.sdp.len(),
            out@ == base + escape(d.sdp@.take(i as int)),
        decreases d.sdp.len() - i,
    {
        let b = d.sdp[i];
        if b == QUOTE {
            out.push(BACKSLASH);
            out.push(QUOTE);
        } else if b == BACKSLASH {
            out.push(BACKSLASH);
            out.push(BACKSLASH);
        } else if b == 0x08 {
            out.push(BACKSLASH);
            out.push(0x62);
        } else if b == 0x09 {
            out.push(BACKSLASH);
            out.push(0x74);
        } else if b == 0x0a {
            out.push(BACKSLASH);
            out.push(0x6e);
        } else if b == 0x0c {
            out.push(BACKSLASH);
            out.push(0x66);
        } else if b == 0x0d {
            out.push(BACKSLASH);
            out.push(0x72);
        } else if b < 0x20 {
            out.push(BACKSLASH);
            out.push(0x75);
            out.push(0x30);
            out.push(0x30);
            let hi = b / 16;
            let lo = b % 16;
            out.push(0x30 + hi);
            if lo < 10 {
                out.push(0x30 + lo);
            } else {
                out.push(0x57 + lo);
            }
        } else {
            out.push(b);
        }
        proof {
            let sdp = d.sdp@;
            let ii = i as int;
            assert(sdp.take(ii + 1) =~= sdp.take(ii) + seq![sdp[ii]]);
            lemma_escape_app(sdp.take(ii), seq![sdp[ii]]);
            assert(escape(seq![sdp[ii]]) =~= escape_byte(sdp[ii])) by {
                reveal_with_fuel(escape, 2);
                assert(seq![sdp[ii]].drop_first() =~= Seq::<u8>::empty());
                assert(escape(seq![sdp[ii]].drop_first()) =~= Seq::<u8>::empty());
                assert(escape_byte(sdp[ii]) + Seq::<u8>::empty() =~= escape_byte(sdp[ii]));
            }
            assert(out@ =~= base + escape(sdp.take(ii + 1)));
        }
        i = i + 1;
    }
    proof {
        assert(d.sdp@.take(d.sdp@.len() as int) =~= d.sdp@);
    }
    out.push(QUOTE);
    out.push(RBRACE);
    proof {
        assert(out@ =~= json_of(d@));
    }
    out
}

fn skip_ws_exec(s: &Vec<u8>, i: usize) -> (r: usize)
    requires
        i <= s.len(),
    ensures
        r as int == skip_ws(s@, i as int),
        i <= r <= s.len(),
{
    let mut j = i;
    while j < s.len() && (s[j] == 0x20 || s[j] == 0x09 || s[j] == 0x0a || s[j] == 0x0d)
        invariant
            i <= j <= s.len(),
            skip_ws(s@, i as int) == skip_ws(s@, j as int),
        decreases s.len() - j,
    {
        j = j + 1;
    }
    j
}

fn hex_value_exec(b: u8) -> (r: Option<u8>)
    ensures
        r == hex_value(b),
{
    if 0x30 <= b && b <= 0x39 {
        Some(b - 0x30)
    } else if 0x61 <= b && b <= 0x66 {
        Some(b - 0x57)
    } else if 0x41 <= b && b <= 0x46 {
        Some(b - 0x37)
    } else {
        None
    }
}

fn unescape_exec(s: &Vec<u8>, i: usize) -> (r: Option<(u8, usize)>)
    requires
        i < s.len(),
    ensures
        r is None ==> unescape_at(s@, i as int) is None,
        r matches Some(p) ==> unescape_at(s@, i as int) == Some((p.0, p.1 as int)) && i < p.1
            <= s.len(),
{
    if i + 1 >= s.len() {
        return None;
    }
    let c = s[i + 1];
    if c == QUOTE {
        Some((QUOTE, i + 2))
    } else if c == BACKSLASH {
        Some((BACKSLASH, i + 2))
    } else if c == SLASH {
        Some((SLASH, i + 2))
    } else if c == 0x62 {
        Some((0x08, i + 2))
    } else if c == 0x66 {
        Some((0x0c, i + 2))
    } else if c == 0x6e {
        Some((0x0a, i + 2))
    } else if c == 0x72 {
        Some((0x0d, i + 2))
    } else if c == 0x74 {
        Some((0x09, i + 2))
    } else if c == 0x75 && s.len() - i > 5 {
        let h1 = hex_value_exec(s[i + 2]);
        let h2 = hex_value_exec(s[i + 3]);
        let h3 = hex_value_exec(s[i + 4]);
        let h4 = hex_value_exec(s[i + 5]);
        match (h1, h2, h3, h4) {
            (Some(a), Some(b), Some(cc), Some(dd)) => {
                if a == 0 && b == 0 && cc < 8 {
                    Some((cc * 16 + dd, i + 6))
                } else {
                    None
                }
            },
            _ => None,
        }
    } else {
        None
    }
}

fn parse_chars_exec(s: &Vec<u8>, i: usize) -> (r: Option<(Vec<u8>, usize)>)
    requires
        i <= s.len(),
    ensures
        r is None ==> parse_chars(s@, i as int) is None,
        r matches Some(p) ==> parse_chars(s@, i as int) == Some((p.0@, p.1 as int)),
{
    let mut out: Vec<u8> = Vec::new();
    let mut j = i;
    loop
        invariant
            i <= j <= s.len(),
            parse_chars(s@, j as int) is None ==> parse_chars(s@, i as int) is None,
            parse_chars(s@, j as int) matches Some(pr) ==> parse_chars(s@, i as int) == Some(
                (out@ + pr.0, pr.1),
            ),
        decreases s.len() - j,
    {
        if j >= s.len() {
            return None;
        }
        let b = s[j];
        if b == QUOTE {
            proof {
                assert(parse_chars(s@, j as int) == Some((Seq::<u8>::empty(), j as int + 1)));
                assert(out@ + Seq::<u8>::empty() =~= out@);
            }
            return Some((out, j + 1));
        } else if b == BACKSLASH {
            match unescape_exec(s, j) {
                None => {
                    proof {
                        assert(parse_chars(s@, j as int) is None);
                    }
                    return None;
                },
                Some((ub, nj)) => {
                    let ghost j0 = j as int;
                    let ghost out0 = out@;
                    out.push(ub);
                    j = nj;
                    proof {
                        match parse_chars(s@, j as int) {
                            None => {
                                assert(parse_chars(s@, j0) is None);
                            },
                            Some((rest, e)) => {
                                assert(parse_chars(s@, j0) == Some((seq![ub] + rest, e)));
                                assert(out@ + rest =~= out0 + (seq![ub] + rest));
                            },
                        }
                    }
                },
            }
        } else if b < 0x20 {
            proof {
                assert(parse_chars(s@, j as int) is None);
            }
            return None;
        } else {
            let ghost j0 = j as int;
            let ghost out0 = out@;
            out.push(b);
            j = j + 1;
            proof {
                match parse_chars(s@, j as int) {
                    None => {
                        assert(parse_chars(s@, j0) is None);
                    },
                    Some((rest, e)) => {
                        assert(parse_chars(s@, j0) == Some((seq![b] + rest, e)));
                        assert(out@ + rest =~= out0 + (seq![b] + rest));
                    },
                }
            }
        }
    }
}

fn parse_string_exec(s: &Vec<u8>, i: usize) -> (r: Option<(Vec<u8>, usize)>)
    requires
        i <= s.len(),
    ensures
        r is None ==> parse_string(s@, i as int) is None,
        r matches Some(p) ==> parse_string(s@, i as int) == Some((p.0@, p.1 as int)) && i < p.1
            <= s.len(),
{
    if i < s.len() && s[i] == QUOTE {
        let r = parse_chars_exec(s, i + 1);
        proof {
            lemma_parse_chars_bounds(s@, i as int + 1);
        }
        r
    } else {
        None
    }
}

fn parse_members_exec(s: &Vec<u8>, i: usize) -> (r: Option<(Vec<(Vec<u8>, Vec<u8>)>, usize)>)
    requires
        i <= s.len(),
    ensures
        r is None ==> parse_members(s@, i as int) is None,
        r matches Some(p) ==> parse_members(s@, i as int) == Some((mem_view(p.0@), p.1 as int))
            && p.1 <= s.len(),
{
    let mut mem: Vec<(Vec<u8>, Vec<u8>)> = Vec::new();
    let mut j = i;
    loop
        invariant
            i <= j <= s.len(),
            parse_members(s@, j as int) is None ==> parse_members(s@, i as int) is None,
            parse_members(s@, j as int) matches Some(pr) ==> parse_members(s@, i as int) == Some(
                (mem_view(mem@) + pr.0, pr.1),
            ),
        decreases s.len() - j,
    {
        match parse_string_exec(s, j) {
            None => {
                return None;
            },
            Some((k, j1)) => {
                let j2 = skip_ws_exec(s, j1);
                if !(j2 < s.len() && s[j2] == COLON) {
                    return None;
                }
                let j3 = skip_ws_exec(s, j2 + 1);
                match parse_string_exec(s, j3) {
                    None => {
                        return None;
                    },
                    Some((v, j4)) => {
                        let j5 = skip_ws_exec(s, j4);
                        let ghost j0 = j as int;
                        let ghost mem0 = mem@;
                        let ghost kv = (k@, v@);
                        mem.push((k, v));
                        proof {
                            assert(mem_view(mem@) =~= mem_view(mem0) + seq![kv]);
                        }
                        if j5 < s.len() && s[j5] == COMMA {
                            let j6 = skip_ws_exec(s, j5 + 1);
                            if j6 <= j {
                                proof {
                                    assert(parse_members(s@, j0) is None);
                                }
                                return None;
                            }
                            j = j6;
                            proof {
                                match parse_members(s@, j as int) {
                                    None => {
                                        assert(parse_members(s@, j0) is None);
                                    },
                                    Some((rest, e)) => {
                                        assert(parse_members(s@, j0) == Some(
                                            (seq![kv] + rest, e),
                                        ));
                                        assert(mem_view(mem@) + rest =~= mem_view(mem0) + (
                                        seq![kv] + rest));
                                    },
                                }
                            }
                        } else {
                            proof {
                                assert(parse_members(s@, j0) == Some((seq![kv], j5 as int)));
                                assert(mem_view(mem0) + seq![kv] =~= mem_view(mem@));
                            }
                            return Some((mem, j5));
                        }
                    },
                }
            },
        }
    }
}

fn key_count_exec(mem: &Vec<(Vec<u8>, Vec<u8>)>, key: &Vec<u8>) -> (r: usize)
    ensures
        r as nat == key_count(mem_view(mem@), key@),
{
    let mut count: usize = 0;
    let mut idx: usize = 0;
    proof {
        assert(mem_view(mem@).skip(0) =~= mem_view(mem@));
    }
    while idx < mem.len()
        invariant
            idx <= mem.len(),
            count <= idx,
            key_count(mem_view(mem@), key@) == count + key_count(
                mem_view(mem@).skip(idx as int),
                key@,
            ),
        decreases mem.len() - idx,
    {
        let ghost tail = mem_view(mem@).skip(idx as int);
        proof {
            assert(tail.len() == mem.len() - idx);
            assert(tail[0] == mem_view(mem@)[idx as int]);
            assert(tail.drop_first() =~= mem_view(mem@).skip(idx as int + 1));
        }
        if bytes_eq(&mem[idx].0, key) {
            count = count + 1;
        }
        idx = idx + 1;
    }
    proof {
        assert(mem_view(mem@).skip(mem.len() as int) =~= Seq::<(Seq<u8>, Seq<u8>)>::empty());
    }
    count
}

fn lookup_idx(mem: &Vec<(Vec<u8>, Vec<u8>)>, key: &Vec<u8>) -> (r: Option<usize>)
    ensures
        r is None ==> lookup(mem_view(mem@), key@) is None,
        r matches Some(ix) ==> ix < mem.len() && lookup(mem_view(mem@), key@) == Some(
            mem@[ix as int].1@,
        ),
{
    let mut idx: usize = 0;
    proof {
        assert(mem_view(mem@).skip(0) =~= mem_view(mem@));
    }
    while idx < mem.len()
        invariant
            idx <= mem.len(),
            lookup(mem_view(mem@), key@) == lookup(mem_view(mem@).skip(idx as int), key@),
        decreases mem.len() - idx,
    {
        let ghost tail = mem_view(mem@).skip(idx as int);
        proof {
            assert(tail.len() == mem.len() - idx);
            assert(tail[0] == mem_view(mem@)[idx as int]);
            assert(tail.drop_first() =~= mem_view(mem@).skip(idx as int + 1));
        }
        if bytes_eq(&mem[idx].0, key) {
            return Some(idx);
        }
        idx = idx + 1;
    }
    proof {
        assert(mem_view(mem@).skip(mem.len() as int) =~= Seq::<(Seq<u8>, Seq<u8>)>::empty());
    }
    None
}

fn desc_of_members_exec(mem: &Vec<(Vec<u8>, Vec<u8>)>) -> (r: Option<SessionDescription>)
    ensures
        r is None ==> desc_of_members(mem_view(mem@)) is None,
        r matches Some(d) ==> desc_of_members(mem_view(mem@)) == Some(d@),
{
    let type_k = type_key_vec();
    let sdp_k = sdp_key_vec();
    let tc = key_count_exec(mem, &type_k);
    let sc = key_count_exec(mem, &sdp_k);
    if tc != 1 || sc != 1 {
        return None;
    }
    match lookup_idx(mem, &type_k) {
        None => None,
        Some(tix) => match lookup_idx(mem, &sdp_k) {
            None => None,
            Some(six) => {
                let offer_b = offer_vec();
                let answer_b = answer_vec();
                if bytes_eq(&mem[tix].1, &offer_b) {
                    Some(SessionDescription { kind: SdpKind::Offer, sdp: clone_bytes(&mem[six].1) })
                } else if bytes_eq(&mem[tix].1, &answer_b) {
                    Some(
                        SessionDescription { kind: SdpKind::Answer, sdp: clone_bytes(&mem[six].1) },
                    )
                } else {
                    None
                }
            },
        },
    }
}

/// Parses a signaling payload; yields the description exactly when the bytes
/// form a well-formed schema object per `parse_desc`.
pub fn parse_description(s: &Vec<u8>) -> (r: Option<SessionDescription>)
    ensures
        r is None ==> parse_desc(s@) is None,
        r matches Some(d) ==> parse_desc(s@) == Some(d@),
{
    let i0 = skip_ws_exec(s, 0);
    if !(i0 < s.len() && s[i0] == LBRACE) {
        return None;
    }
    let i1 = skip_ws_exec(s, i0 + 1);
    match parse_members_exec(s, i1) {
        None => None,
        Some((mem, i2)) => {
            if !(i2 < s.len() && s[i2] == RBRACE) {
                return None;
            }
            let i3 = skip_ws_exec(s, i2 + 1);
            if i3 != s.len() {
                return None;
            }
            desc_of_members_exec(&mem)
        },
    }
}

} // verus!
