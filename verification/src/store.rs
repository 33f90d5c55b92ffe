//! Typed identifier values handed to the entity store.

use vstd::prelude::*;

verus! {

/// Identifies one entity: its type and its raw id text.
#[derive(Debug, Clone, PartialEq, Eq)]
pub struct EntityKey {
    pub entity_type: String,
    pub entity_id: String,
}

/// A typed identifier value: the id column holds either text or bytes.
#[derive(Debug, Clone, PartialEq, Eq)]
pub enum StoreValue {
    String(String),
    Bytes(Vec<u8>),
}

/// The numeric value of a hexadecimal digit, if the character is one.
pub open spec fn spec_hex_digit(c: char) -> Option<u8> {
    if '0' <= c && c <= '9' {
        Some((c as u8 - '0' as u8) as u8)
    } else if 'a' <= c && c <= 'f' {
        Some((c as u8 - 'a' as u8 + 10) as u8)
    } else if 'A' <= c && c <= 'F' {
        Some((c as u8 - 'A' as u8 + 10) as u8)
    } else {
        None
    }
}

/// The bytes a hexadecimal text denotes: two digits for each byte, high
/// digit first; an odd length or a stray character denotes nothing.
pub open spec fn spec_hex_bytes(s: Seq<char>) -> Option<Seq<u8>>
    decreases s.len(),
{
    if s.len() == 0 {
        Some(Seq::empty())
    } else if s.len() == 1 {
        None
    } else {
        match (spec_hex_digit(s[0]), spec_hex_digit(s[1])) {
            (Some(hi), Some(lo)) => match spec_hex_bytes(s.skip(2)) {
                Some(rest) => Some(seq![(hi * 16 + lo) as u8] + rest),
                None => None,
            },
            _ => None,
        }
    }
}

/// The bytes a raw id denotes: the text, after an optional `0x` prefix, read
/// as hexadecimal digits.
pub open spec fn spec_id_bytes(s: Seq<char>) -> Option<Seq<u8>> {
    if s.len() >= 2 && s[0] == '0' && s[1] == 'x' {
        spec_hex_bytes(s.skip(2))
    } else {
        spec_hex_bytes(s)
    }
}

fn hex_digit(c: char) -> (r: Option<u8>)
    ensures
        r == spec_hex_digit(c),
{
    if '0' <= c && c <= '9' {
        Some(c as u8 - '0' as u8)
    } else if 'a' <= c && c <= 'f' {
        Some(c as u8 - 'a' as u8 + 10)
    } else if 'A' <= c && c <= 'F' {
        Some(c as u8 - 'A' as u8 + 10)
    } else {
        None
    }
}

/// Reads a hexadecimal text into its bytes; the text must pair up evenly and
/// hold digits alone.
pub fn hex_bytes(s: &str) -> (r: Option<Vec<u8>>)
    ensures
        match r {
            Some(v) => spec_hex_bytes(s@) == Some(v@),
            None => spec_hex_bytes(s@) is None,
        },
{
    let n = s.unicode_len();
    let mut out: Vec<u8> = Vec::new();
    let mut i: usize = 0;
    proof {
        assert(s@.skip(0) =~= s@);
    }
    while i < n
        invariant
            n == s@.len(),
            i <= n,
            i % 2 == 0,
            match spec_hex_bytes(s@.skip(i as int)) {
                Some(rest) => spec_hex_bytes(s@) == Some(out@ + rest),
                None => spec_hex_bytes(s@) is None,
            },
        decreases n - i,
    {
        if i + 1 >= n {
            proof {
                assert(s@.skip(i as int).len() == 1);
            }
            return None;
        }
        proof {
            assert(s@.skip(i as int)[0] == s@[i as int]);
            assert(s@.skip(i as int)[1] == s@[i as int + 1]);
            assert(s@.skip(i as int).skip(2) =~= s@.skip(i as int + 2));
        }
        let hi = match hex_digit(s.get_char(i)) {
            Some(d) => d,
            None => {
                return None;
            },
        };
        let lo = match hex_digit(s.get_char(i + 1)) {
            Some(d) => d,
            None => {
                return None;
            },
        };
        let ghost prev = out@;
        out.push(hi * 16 + lo);
        proof {
            assert(out@ =~= prev.push((hi * 16 + lo) as u8));
            if let Some(rest) = spec_hex_bytes(s@.skip(i as int + 2)) {
                assert(prev + (seq![(hi * 16 + lo) as u8] + rest) =~= prev.push(
                    (hi * 16 + lo) as u8,
                ) + rest);
            }
        }
        i += 2;
    }
    proof {
        assert(spec_hex_bytes(s@.skip(n as int)) == Some(Seq::<u8>::empty()));
        assert(out@ + Seq::<u8>::empty() =~= out@);
    }
    Some(out)
}

/// Reads a raw id as bytes, allowing an optional `0x` prefix.
pub fn id_bytes(s: &str) -> (r: Option<Vec<u8>>)
    ensures
        match r {
            Some(v) => spec_id_bytes(s@) == Some(v@),
            None => spec_id_bytes(s@) is None,
        },
{
    let n = s.unicode_len();
    if n >= 2 && s.get_char(0) == '0' && s.get_char(1) == 'x' {
        let rest = s.substring_char(2, n);
        hex_bytes(rest)
    } else {
        hex_bytes(s)
    }
}

} // verus!
