//! Standard base64 with padding, for cover images.
use vstd::prelude::*;

verus! {

/// The character for a value of six bits.
pub open spec fn sextet(v: int) -> char {
    if v < 26 {
        (65 + v) as char
    } else if v < 52 {
        (97 + (v - 26)) as char
    } else if v < 62 {
        (48 + (v - 52)) as char
    } else if v == 62 {
        '+'
    } else {
        '/'
    }
}

/// Three bytes as one number of 24 bits.
pub open spec fn triple(b0: u8, b1: u8, b2: u8) -> int {
    b0 * 65536 + b1 * 256 + b2
}

/// The four characters for up to three bytes; `n` says how many there are.
pub open spec fn quad(b0: u8, b1: u8, b2: u8, n: int) -> Seq<char> {
    let t = triple(b0, b1, b2);
    seq![
        sextet(t / 262144),
        sextet((t / 4096) % 64),
        if n > 1 {
            sextet((t / 64) % 64)
        } else {
            '='
        },
        if n > 2 {
            sextet(t % 64)
        } else {
            '='
        },
    ]
}

/// The base64 text of a sequence of bytes.
pub open spec fn encoded(data: Seq<u8>) -> Seq<char>
    decreases data.len(),
{
    if data.len() == 0 {
        Seq::empty()
    } else if data.len() == 1 {
        quad(data[0], 0, 0, 1)
    } else if data.len() == 2 {
        quad(data[0], data[1], 0, 2)
    } else {
        quad(data[0], data[1], data[2], 3) + encoded(data.skip(3))
    }
}

/// The value of a base64 character; padding counts as zero.
pub open spec fn sextet_value(c: char) -> int {
    if 'A' <= c <= 'Z' {
        c as int - 65
    } else if 'a' <= c <= 'z' {
        c as int - 97 + 26
    } else if '0' <= c <= '9' {
        c as int - 48 + 52
    } else if c == '+' {
        62
    } else if c == '/' {
        63
    } else {
        0
    }
}

/// The bytes of a base64 text.
pub open spec fn decoded(s: Seq<char>) -> Seq<u8>
    decreases s.len(),
{
    if s.len() < 4 {
        Seq::empty()
    } else {
        let t = sextet_value(s[0]) * 262144 + sextet_value(s[1]) * 4096 + sextet_value(s[2]) * 64
            + sextet_value(s[3]);
        let b0 = (t / 65536) as u8;
        let b1 = ((t / 256) % 256) as u8;
        let b2 = (t % 256) as u8;
        if s[2] == '=' {
            seq![b0]
        } else if s[3] == '=' {
            seq![b0, b1]
        } else {
            seq![b0, b1, b2] + decoded(s.skip(4))
        }
    }
}

/// Every value of six bits has its own character.
proof fn lemma_sextet(v: int)
    requires
        0 <= v < 64,
    ensures
        sextet_value(sextet(v)) == v,
        sextet(v) != '=',
{
}

/// Four values of six bits make up a number of 24 bits.
proof fn lemma_sextets(t: int)
    requires
        0 <= t < 16777216,
    ensures
        0 <= t / 262144 < 64,
        (t / 262144) * 262144 + ((t / 4096) % 64) * 4096 + ((t / 64) % 64) * 64 + t % 64 == t,
{
}

/// Three bytes make up a number of 24 bits.
proof fn lemma_triple(b0: u8, b1: u8, b2: u8)
    ensures
        0 <= triple(b0, b1, b2) < 16777216,
        triple(b0, b1, b2) / 65536 == b0,
        (triple(b0, b1, b2) / 256) % 256 == b1,
        triple(b0, b1, b2) % 256 == b2,
{
}

/// Decoding an encoded sequence of bytes gives the bytes back.
pub proof fn encoding_can_be_decoded(data: Seq<u8>)
    ensures
        decoded(encoded(data)) == data,
    decreases data.len(),
{
    if data.len() > 0 {
        let b0 = data[0];
        let b1 = if data.len() > 1 {
            data[1]
        } else {
            0u8
        };
        let b2 = if data.len() > 2 {
            data[2]
        } else {
            0u8
        };
        let t = triple(b0, b1, b2);
        lemma_triple(b0, b1, b2);
        lemma_sextets(t);
        lemma_sextet(t / 262144);
        lemma_sextet((t / 4096) % 64);
        lemma_sextet((t / 64) % 64);
        lemma_sextet(t % 64);
        if data.len() == 1 {
            assert(t % 64 == 0 && (t / 64) % 64 == 0);
            assert(decoded(encoded(data)) =~= data);
        } else if data.len() == 2 {
            assert(t % 64 == 0);
            assert(decoded(encoded(data)) =~= data);
        } else {
            encoding_can_be_decoded(data.skip(3));
            let s = encoded(data);
            assert(s.skip(4) =~= encoded(data.skip(3)));
            assert(decoded(s) =~= data);
        }
    }
}

/// Every three bytes, the last incomplete group included, take four characters.
pub proof fn encoded_length(data: Seq<u8>)
    ensures
        encoded(data).len() == (data.len() + 2) / 3 * 4,
    decreases data.len(),
{
    if data.len() > 3 {
        encoded_length(data.skip(3));
    } else if data.len() == 3 {
        assert(encoded(data.skip(3)).len() == 0);
    }
}

fn sextet_char(v: u32) -> (c: char)
    requires
        v < 64,
    ensures
        c == sextet(v as int),
{
    if v < 26 {
        (65 + v as u8) as char
    } else if v < 52 {
        (97 + (v as u8 - 26)) as char
    } else if v < 62 {
        (48 + (v as u8 - 52)) as char
    } else if v == 62 {
        '+'
    } else {
        '/'
    }
}

/// Encodes bytes as base64, padded with `=`.
pub fn base64_encode(data: &[u8]) -> (r: String)
    ensures
        r@ == encoded(data@),
{
    let mut out = String::new();
    let mut i: usize = 0;
    assert(data@.skip(0) =~= data@);
    assert(out@ + encoded(data@) =~= encoded(data@));
    while i < data.len()
        invariant
            i <= data@.len(),
            out@ + encoded(data@.skip(i as int)) == encoded(data@),
        decreases data@.len() - i,
    {
        let left = data.len() - i;
        let b0 = data[i];
        let b1 = if left > 1 {
            data[i + 1]
        } else {
            0
        };
        let b2 = if left > 2 {
            data[i + 2]
        } else {
            0
        };
        let t: u32 = b0 as u32 * 65536 + b1 as u32 * 256 + b2 as u32;
        assert(t == triple(b0, b1, b2));
        let ghost before = out@;
        let ghost rest = data@.skip(i as int);
        out.push(sextet_char(t / 262144));
        out.push(sextet_char((t / 4096) % 64));
        if left > 1 {
            out.push(sextet_char((t / 64) % 64));
        } else {
            out.push('=');
        }
        if left > 2 {
            out.push(sextet_char(t % 64));
        } else {
            out.push('=');
        }
        assert(out@ =~= before + quad(b0, b1, b2, left as int));
        i = if left > 3 {
            i + 3
        } else {
            data.len()
        };
        assert(left >= 3 ==> data@.skip(i as int) =~= rest.skip(3));
        assert(left < 3 ==> data@.skip(i as int).len() == 0);
        assert(out@ + encoded(data@.skip(i as int)) =~= before + encoded(rest));
    }
    assert(out@ + encoded(data@.skip(i as int)) =~= out@);
    out
}

} // verus!
