//! The entry file format: a cached success payload is stored as a single
//! JSON string. Encoding escapes the quote, the backslash and the control
//! bytes; decoding parses such a string back and rejects anything else, so a
//! corrupt entry surfaces as a deserialization fault instead of a wrong value.

use vstd::prelude::*;

verus! {

pub const QUOTE: u8 = 34;
pub const BACKSLASH: u8 = 92;

/// The lower-case hex digit for a value below 16.
pub open spec fn hex_digit(n: int) -> u8 {
    if n < 10 {
        (48 + n) as u8
    } else {
        (87 + n) as u8
    }
}

/// How one payload byte appears inside the stored JSON string.
pub open spec fn escape_byte(b: u8) -> Seq<u8> {
    if b == QUOTE {
        seq![BACKSLASH, QUOTE]
    } else if b == BACKSLASH {
        seq![BACKSLASH, BACKSLASH]
    } else if b == 8 {
        seq![BACKSLASH, 98u8]
    } else if b == 9 {
        seq![BACKSLASH, 116u8]
    } else if b == 10 {
        seq![BACKSLASH, 110u8]
    } else if b == 12 {
        seq![BACKSLASH, 102u8]
    } else if b == 13 {
        seq![BACKSLASH, 114u8]
    } else if b < 32 {
        seq![BACKSLASH, 117u8, 48u8, 48u8, hex_digit(b as int / 16), hex_digit(b as int % 16)]
    } else {
        seq![b]
    }
}

/// The body of the stored JSON string: each payload byte, escaped.
pub open spec fn encode_body(s: Seq<u8>) -> Seq<u8>
    decreases s.len(),
{
    if s.len() == 0 {
        Seq::empty()
    } else {
        escape_byte(s[0]) + encode_body(s.drop_first())
    }
}

/// The whole stored entry: the escaped body between two quotes.
pub open spec fn encode_string(s: Seq<u8>) -> Seq<u8> {
    seq![QUOTE] + encode_body(s) + seq![QUOTE]
}

pub open spec fn is_hex(b: u8) -> bool {
    (48 <= b && b <= 57) || (97 <= b && b <= 102) || (65 <= b && b <= 70)
}

/// The value of a hex digit byte, either case.
pub open spec fn hex_val(b: u8) -> int {
    if 48 <= b && b <= 57 {
        b - 48
    } else if 97 <= b {
        b - 87
    } else {
        b - 55
    }
}

pub open spec fn prepend(b: u8, rest: Option<Seq<u8>>) -> Option<Seq<u8>> {
    match rest {
        Some(r) => Some(seq![b] + r),
        None => None,
    }
}

/// Parses the inside of a JSON string back to payload bytes; `None` on any
/// byte sequence this format cannot have produced or that JSON forbids.
/// Escaped code points are accepted only up to 0x7f, where one code point is
/// one byte.
pub open spec fn decode_body(s: Seq<u8>) -> Option<Seq<u8>>
    decreases s.len(),
{
    if s.len() == 0 {
        Some(Seq::empty())
    } else if s[0] == QUOTE {
        None
    } else if s[0] == BACKSLASH {
        if s.len() < 2 {
            None
        } else {
            let e = s[1];
            if e == QUOTE || e == BACKSLASH || e == 47 {
                prepend(e, decode_body(s.skip(2)))
            } else if e == 98 {
                prepend(8, decode_body(s.skip(2)))
            } else if e == 116 {
                prepend(9, decode_body(s.skip(2)))
            } else if e == 110 {
                prepend(10, decode_body(s.skip(2)))
            } else if e == 102 {
                prepend(12, decode_body(s.skip(2)))
            } else if e == 114 {
                prepend(13, decode_body(s.skip(2)))
            } else if e == 117 {
                if s.len() >= 6 && s[2] == 48 && s[3] == 48 && is_hex(s[4]) && is_hex(s[5])
                    && 16 * hex_val(s[4]) + hex_val(s[5]) < 128 {
                    prepend((16 * hex_val(s[4]) + hex_val(s[5])) as u8, decode_body(s.skip(6)))
                } else {
                    None
                }
            } else {
                None
            }
        }
    } else if s[0] < 32 {
        None
    } else {
        prepend(s[0], decode_body(s.skip(1)))
    }
}

/// Parses a whole stored entry: a quote, a body, a closing quote.
pub open spec fn decode_string(s: Seq<u8>) -> Option<Seq<u8>> {
    if s.len() >= 2 && s[0] == QUOTE && s[s.len() - 1] == QUOTE {
        decode_body(s.subrange(1, s.len() - 1))
    } else {
        None
    }
}

fn hex_digit_exec(n: u8) -> (r: u8)
    requires
        n < 16,
    ensures
        r == hex_digit(n as int),
{
    if n < 10 {
        48 + n
    } else {
        87 + n
    }
}

proof fn lemma_encode_body_snoc(s: Seq<u8>, b: u8)
    ensures
        encode_body(s.push(b)) == encode_body(s) + escape_byte(b),
    decreases s.len(),
{
    if s.len() == 0 {
        assert(s.push(b).drop_first() =~= Seq::<u8>::empty());
        assert(encode_body(Seq::<u8>::empty()) == Seq::<u8>::empty());
        assert(s.push(b)[0] == b);
        assert(encode_body(s.push(b)) =~= encode_body(s) + escape_byte(b));
    } else {
        lemma_encode_body_snoc(s.drop_first(), b);
        assert(s.push(b).drop_first() =~= s.drop_first().push(b));
        assert(s.push(b)[0] == s[0]);
        assert(encode_body(s.push(b)) =~= encode_body(s) + escape_byte(b));
    }
}

/// Serializes a success payload into the bytes of its cache entry.
pub fn encode_payload(p: &Vec<u8>) -> (r: Vec<u8>)
    ensures
        r@ == encode_string(p@),
{
    let mut out: Vec<u8> = Vec::new();
    out.push(QUOTE);
    proof {
        assert(p@.take(0) =~= Seq::<u8>::empty());
        assert(out@ =~= seq![QUOTE] + encode_body(p@.take(0)));
    }
    let n = p.len();
    let mut i: usize = 0;
    while i < n
        invariant
            i <= n,
            n == p@.len(),
            out@ == seq![QUOTE] + encode_body(p@.take(i as int)),
        decreases n - i,
    {
        let b = p[i];
        if b == QUOTE {
            out.push(BACKSLASH);
            out.push(QUOTE);
        } else if b == BACKSLASH {
            out.push(BACKSLASH);
            out.push(BACKSLASH);
        } else if b == 8 {
            out.push(BACKSLASH);
            out.push(98);
        } else if b == 9 {
            out.push(BACKSLASH);
            out.push(116);
        } else if b == 10 {
            out.push(BACKSLASH);
            out.push(110);
        } else if b == 12 {
            out.push(BACKSLASH);
            out.push(102);
        } else if b == 13 {
            out.push(BACKSLASH);
            out.push(114);
        } else if b < 32 {
            out.push(BACKSLASH);
            out.push(117);
            out.push(48);
            out.push(48);
            out.push(hex_digit_exec(b / 16));
            out.push(hex_digit_exec(b % 16));
        } else {
            out.push(b);
        }
        proof {
            lemma_encode_body_snoc(p@.take(i as int), b);
            assert(p@.take(i + 1 as int) =~= p@.take(i as int).push(b));
            assert(out@ =~= seq![QUOTE] + encode_body(p@.take(i + 1 as int)));
        }
        i += 1;
    }
    out.push(QUOTE);
    proof {
        assert(p@.take(n as int) =~= p@);
        assert(out@ =~= encode_string(p@));
    }
    out
}

/// What an `Option` of payload bytes stands for at the spec level.
pub open spec fn decoded_view(r: Option<Vec<u8>>) -> Option<Seq<u8>> {
    match r {
        Some(v) => Some(v@),
        None => None,
    }
}

/// Deserializes the bytes of a cache entry; `None` reports corruption.
pub fn decode_payload(s: &Vec<u8>) -> (r: Option<Vec<u8>>)
    ensures
        decoded_view(r) == decode_string(s@),
{
    let n = s.len();
    if n < 2 || s[0] != QUOTE || s[n - 1] != QUOTE {
        return None;
    }
    let ghost body = s@.subrange(1, n as int - 1);
    assert(decode_string(s@) == decode_body(body));
    let end = n - 1;
    let mut out: Vec<u8> = Vec::new();
    let mut i: usize = 1;
    proof {
        assert(s@.subrange(1, end as int) == body);
        match decode_body(body) {
            Some(r) => {
                assert(out@ + r =~= r);
            },
            None => {},
        }
    }
    while i < end
        invariant
            1 <= i <= end,
            end == n - 1,
            n == s@.len(),
            2 <= n,
            body == s@.subrange(1, n as int - 1),
            decode_string(s@) == decode_body(body),
            (match decode_body(s@.subrange(i as int, end as int)) {
                Some(r) => decode_body(body) == Some(out@ + r),
                None => decode_body(body) is None,
            }),
        decreases end - i,
    {
        let ghost rem = s@.subrange(i as int, end as int);
        assert(rem[0] == s@[i as int]);
        let c = s[i];
        if c == QUOTE {
            assert(decode_body(rem) is None);
            return None;
        } else if c == BACKSLASH {
            if i + 1 >= end {
                assert(rem.len() < 2);
                assert(decode_body(rem) is None);
                return None;
            }
            let e = s[i + 1];
            assert(rem[1] == e);
            if e == QUOTE || e == BACKSLASH || e == 47 || e == 98 || e == 116 || e == 110
                || e == 102 || e == 114 {
                let d: u8 = if e == 98 {
                    8
                } else if e == 116 {
                    9
                } else if e == 110 {
                    10
                } else if e == 102 {
                    12
                } else if e == 114 {
                    13
                } else {
                    e
                };
                let ghost out0 = out@;
                out.push(d);
                proof {
                    assert(rem.skip(2) =~= s@.subrange(i + 2 as int, end as int));
                    assert(decode_body(rem) == prepend(d, decode_body(rem.skip(2))));
                    match decode_body(rem.skip(2)) {
                        Some(r) => {
                            assert(out@ + r =~= out0 + (seq![d] + r));
                        },
                        None => {},
                    }
                }
                i += 2;
            } else if e == 117 {
                if end - i < 6 {
                    assert(rem.len() < 6);
                    assert(decode_body(rem) is None);
                    return None;
                }
                let h2 = s[i + 2];
                let h3 = s[i + 3];
                let h4 = s[i + 4];
                let h5 = s[i + 5];
                assert(rem[2] == h2 && rem[3] == h3 && rem[4] == h4 && rem[5] == h5);
                let ok4 = (48 <= h4 && h4 <= 57) || (97 <= h4 && h4 <= 102) || (65 <= h4 && h4
                    <= 70);
                let ok5 = (48 <= h5 && h5 <= 57) || (97 <= h5 && h5 <= 102) || (65 <= h5 && h5
                    <= 70);
                if h2 != 48 || h3 != 48 || !ok4 || !ok5 {
                    assert(decode_body(rem) is None);
                    return None;
                }
                let v4: u8 = if h4 <= 57 {
                    h4 - 48
                } else if h4 >= 97 {
                    h4 - 87
                } else {
                    h4 - 55
                };
                let v5: u8 = if h5 <= 57 {
                    h5 - 48
                } else if h5 >= 97 {
                    h5 - 87
                } else {
                    h5 - 55
                };
                assert(v4 as int == hex_val(h4) && v5 as int == hex_val(h5));
                assert(v4 < 16 && v5 < 16);
                let d: u8 = 16 * v4 + v5;
                if d >= 128 {
                    assert(decode_body(rem) is None);
                    return None;
                }
                let ghost out0 = out@;
                out.push(d);
                proof {
                    assert(rem.skip(6) =~= s@.subrange(i + 6 as int, end as int));
                    assert(decode_body(rem) == prepend(d, decode_body(rem.skip(6))));
                    match decode_body(rem.skip(6)) {
                        Some(r) => {
                            assert(out@ + r =~= out0 + (seq![d] + r));
                        },
                        None => {},
                    }
                }
                i += 6;
            } else {
                assert(decode_body(rem) is None);
                return None;
            }
        } else if c < 32 {
            assert(decode_body(rem) is None);
            return None;
        } else {
            let ghost out0 = out@;
            out.push(c);
            proof {
                assert(rem.skip(1) =~= s@.subrange(i + 1 as int, end as int));
                assert(decode_body(rem) == prepend(c, decode_body(rem.skip(1))));
                match decode_body(rem.skip(1)) {
                    Some(r) => {
                        assert(out@ + r =~= out0 + (seq![c] + r));
                    },
                    None => {},
                }
            }
            i += 1;
        }
    }
    proof {
        assert(s@.subrange(end as int, end as int) =~= Seq::<u8>::empty());
        assert(decode_body(s@.subrange(end as int, end as int)) == Some(Seq::<u8>::empty()));
        assert(out@ + Seq::<u8>::empty() =~= out@);
    }
    Some(out)
}

/// Decoding inverts encoding on the string body.
proof fn lemma_decode_encode_body(s: Seq<u8>)
    ensures
        decode_body(encode_body(s)) == Some(s),
    decreases s.len(),
{
    if s.len() == 0 {
        assert(encode_body(s).len() == 0);
        assert(decode_body(encode_body(s)) == Some(Seq::<u8>::empty()));
        assert(s =~= Seq::<u8>::empty());
    } else {
        let b = s[0];
        let rest = s.drop_first();
        lemma_decode_encode_body(rest);
        let e = escape_byte(b);
        let er = encode_body(rest);
        let t = encode_body(s);
        assert(t == e + er);
        if b == QUOTE || b == BACKSLASH || b == 8 || b == 9 || b == 10 || b == 12 || b == 13 {
            assert(t.len() == er.len() + 2);
            assert(t[0] == BACKSLASH);
            assert(t.skip(2) =~= er);
            assert(decode_body(t) == prepend(b, decode_body(t.skip(2))));
        } else if b < 32 {
            assert(e == seq![BACKSLASH, 117u8, 48u8, 48u8, hex_digit(b as int / 16), hex_digit(
                b as int % 16,
            )]);
            assert(t.len() == er.len() + 6);
            assert(t[0] == BACKSLASH && t[1] == 117u8 && t[2] == 48 && t[3] == 48);
            let h = hex_digit(b as int / 16);
            let l = hex_digit(b as int % 16);
            assert(t[4] == h && t[5] == l);
            assert(0 <= b as int / 16 < 2 && 0 <= b as int % 16 < 16);
            assert(is_hex(h) && is_hex(l));
            assert(hex_val(h) == b as int / 16 && hex_val(l) == b as int % 16);
            assert(16 * (b as int / 16) + b as int % 16 == b as int) by (nonlinear_arith);
            assert(t.skip(6) =~= er);
            assert(decode_body(t) == prepend(b, decode_body(t.skip(6))));
        } else {
            assert(e == seq![b]);
            assert(t.len() == er.len() + 1);
            assert(t[0] == b);
            assert(t[0] != QUOTE && t[0] != BACKSLASH && !(t[0] < 32));
            assert(t.skip(1) =~= er);
            assert(decode_body(t) == prepend(b, decode_body(t.skip(1))));
        }
        assert(seq![b] + rest =~= s);
    }
}

/// Round-trip: any payload written through this format reads back equal.
pub proof fn lemma_codec_round_trip(s: Seq<u8>)
    ensures
        decode_string(encode_string(s)) == Some(s),
{
    let t = encode_string(s);
    let body = encode_body(s);
    assert(t.len() == body.len() + 2);
    assert(t[0] == QUOTE);
    assert(t[t.len() - 1] == QUOTE);
    assert(t.subrange(1, t.len() - 1) =~= body);
    lemma_decode_encode_body(s);
}

} // verus!
