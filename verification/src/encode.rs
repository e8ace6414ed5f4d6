//! Base64 encoding of binary data, for embedding buffers in text
//! output.

use vstd::prelude::*;
use crate::text::push_char;

verus! {

/// The character of the standard base64 alphabet at position `v`:
/// `A`-`Z`, `a`-`z`, `0`-`9`, `+`, `/`.
pub open spec fn b64_char(v: int) -> char {
    if v < 26 {
        ((65 + v) as u8) as char
    } else if v < 52 {
        ((97 + v - 26) as u8) as char
    } else if v < 62 {
        ((48 + v - 52) as u8) as char
    } else if v == 62 {
        '+'
    } else {
        '/'
    }
}

/// The standard base64 encoding of `d`: each group of three bytes
/// becomes four alphabet characters, a final group of one or two bytes
/// is zero-extended and padded with `=`.
pub open spec fn spec_base64(d: Seq<u8>) -> Seq<char>
    decreases d.len(),
{
    if d.len() == 0 {
        Seq::empty()
    } else {
        let b1 = d[0];
        let b2: u8 = if d.len() > 1 {
            d[1]
        } else {
            0
        };
        let b3: u8 = if d.len() > 2 {
            d[2]
        } else {
            0
        };
        let c1 = b64_char(b1 as int / 4);
        let c2 = b64_char((b1 as int % 4) * 16 + b2 as int / 16);
        let c3 = if d.len() > 1 {
            b64_char((b2 as int % 16) * 4 + b3 as int / 64)
        } else {
            '='
        };
        let c4 = if d.len() > 2 {
            b64_char(b3 as int % 64)
        } else {
            '='
        };
        seq![c1, c2, c3, c4] + spec_base64(
            d.skip(
                if d.len() < 3 {
                    d.len() as int
                } else {
                    3
                },
            ),
        )
    }
}

/// The alphabet character at position `v`, computed.
fn b64_char_exec(v: u8) -> (r: char)
    requires
        v < 64,
    ensures
        r == b64_char(v as int),
{
    if v < 26 {
        (65 + v) as char
    } else if v < 52 {
        (97 + v - 26) as char
    } else if v < 62 {
        (48 + v - 52) as char
    } else if v == 62 {
        '+'
    } else {
        '/'
    }
}

/// Encodes bytes in standard base64 with `=` padding.
#[verifier::loop_isolation(false)]
pub fn base64_encode(data: &[u8]) -> (r: String)
    ensures
        r@ == spec_base64(data@),
{
    let n = data.len();
    let mut result = String::new();
    proof {
        assert(data@.skip(0) =~= data@);
        assert(Seq::<char>::empty() + spec_base64(data@) =~= spec_base64(data@));
    }
    let mut i: usize = 0;
    while i < n
        invariant
            0 <= i <= n,
            i % 3 == 0 || i >= n,
            result@ + spec_base64(data@.skip(i as int)) == spec_base64(data@),
        decreases n - i,
    {
        let b1 = data[i];
        let b2: u8 = if i + 1 < n {
            data[i + 1]
        } else {
            0
        };
        let b3: u8 = if i + 2 < n {
            data[i + 2]
        } else {
            0
        };

        push_char(&mut result, b64_char_exec(b1 / 4));
        push_char(&mut result, b64_char_exec((b1 % 4) * 16 + b2 / 16));
        if i + 1 < n {
            push_char(&mut result, b64_char_exec((b2 % 16) * 4 + b3 / 64));
        } else {
            push_char(&mut result, '=');
        }
        if i + 2 < n {
            push_char(&mut result, b64_char_exec(b3 % 64));
        } else {
            push_char(&mut result, '=');
        }

        proof {
            let rest = data@.skip(i as int);
            assert(rest[0] == data@[i as int]);
            if i + 1 < n {
                assert(rest[1] == data@[i + 1]);
            }
            if i + 2 < n {
                assert(rest[2] == data@[i + 2]);
            }
            assert(rest.skip(
                if rest.len() < 3 {
                    rest.len() as int
                } else {
                    3
                },
            ) =~= data@.skip(
                if i + 3 <= n {
                    i + 3
                } else {
                    n as int
                },
            ));
        }
        if i + 3 <= n {
            i += 3;
        } else {
            i = n;
        }
    }
    proof {
        assert(data@.skip(n as int) =~= Seq::<u8>::empty());
    }
    result
}

} // verus!
