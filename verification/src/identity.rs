//! Identity fingerprints: 32-character hexadecimal strings, normalized
//! to lowercase before any lookup or storage.

use vstd::prelude::*;

verus! {

/// A character is a hexadecimal digit (either case).
pub open spec fn is_hex_char(c: char) -> bool {
    ('0' <= c && c <= '9') || ('a' <= c && c <= 'f') || ('A' <= c && c <= 'F')
}

/// A well-formed identity fingerprint: exactly 32 hexadecimal characters.
pub open spec fn is_hex_id(s: Seq<char>) -> bool {
    s.len() == 32 && forall|i: int| 0 <= i < s.len() ==> is_hex_char(#[trigger] s[i])
}

/// Checks that a string is exactly 32 characters long and made of
/// hexadecimal digits only. Runs before any cache lookup.
pub fn is_hex_string(s: &str) -> (r: bool)
    ensures
        r == is_hex_id(s@),
{
    let len = s.unicode_len();
    if len != 32 {
        return false;
    }
    let mut i: usize = 0;
    while i < 32
        invariant
            s@.len() == 32,
            0 <= i <= 32,
            forall|j: int| 0 <= j < i ==> is_hex_char(#[trigger] s@[j]),
        decreases 32 - i,
    {
        let c = s.get_char(i);
        let ok = ('0' <= c && c <= '9') || ('a' <= c && c <= 'f') || ('A' <= c && c <= 'F');
        if !ok {
            return false;
        }
        i = i + 1;
    }
    true
}

/// Case-normalization of one hexadecimal character.
pub open spec fn lower_hex_char(c: char) -> char {
    if c == 'A' {
        'a'
    } else if c == 'B' {
        'b'
    } else if c == 'C' {
        'c'
    } else if c == 'D' {
        'd'
    } else if c == 'E' {
        'e'
    } else if c == 'F' {
        'f'
    } else {
        c
    }
}

/// Case-normalization of an identity: every character lowercased.
pub open spec fn lower_hex(s: Seq<char>) -> Seq<char> {
    s.map_values(|c: char| lower_hex_char(c))
}

/// Validates and normalizes a raw identifier: `Some` of the lowercased
/// identity exactly when the input is 32 hexadecimal characters.
pub fn normalize_identity(s: &str) -> (r: Option<String>)
    ensures
        r is Some <==> is_hex_id(s@),
        r matches Some(t) ==> t@ == lower_hex(s@),
{
    if !is_hex_string(s) {
        return None;
    }
    proof {
        assert forall|i: int| 0 <= i < s@.len() implies '\0' <= #[trigger] s@[i] <= '\u{7f}' by {
            assert(is_hex_char(s@[i]));
        }
        assert(s.is_ascii());
    }
    let mut out = String::new();
    let mut i: usize = 0;
    while i < 32
        invariant
            is_hex_id(s@),
            s.is_ascii(),
            0 <= i <= 32,
            out@ == lower_hex(s@.subrange(0, i as int)),
        decreases 32 - i,
    {
        let c = s.get_char(i);
        if c == 'A' {
            out.append("a");
            proof {
                reveal_strlit("a");
            }
        } else if c == 'B' {
            out.append("b");
            proof {
                reveal_strlit("b");
            }
        } else if c == 'C' {
            out.append("c");
            proof {
                reveal_strlit("c");
            }
        } else if c == 'D' {
            out.append("d");
            proof {
                reveal_strlit("d");
            }
        } else if c == 'E' {
            out.append("e");
            proof {
                reveal_strlit("e");
            }
        } else if c == 'F' {
            out.append("f");
            proof {
                reveal_strlit("f");
            }
        } else {
            let piece = s.substring_ascii(i, i + 1);
            out.append(piece);
        }
        proof {
            assert(out@ =~= lower_hex(s@.subrange(0, i + 1 as int)));
        }
        i = i + 1;
    }
    proof {
        assert(s@.subrange(0, 32) =~= s@);
    }
    Some(out)
}

} // verus!
