//! Textual IPv4 addresses: dotted-quad syntax and its decoding.
use vstd::prelude::*;

use crate::dns_name::lemma_first_dot_is;
use crate::dns_name::split_dots;

verus! {

/// A decimal digit.
pub open spec fn dec_digit(c: char) -> bool {
    '0' <= c && c <= '9'
}

/// The value of a decimal digit.
pub open spec fn digit_val(c: char) -> int {
    (c as u32) - ('0' as u32)
}

/// The value of a sequence of decimal digits, most significant first.
pub open spec fn dec_val(p: Seq<char>) -> int
    decreases p.len(),
{
    if p.len() == 0 {
        0
    } else {
        dec_val(p.drop_last()) * 10 + digit_val(p.last())
    }
}

/// A well-formed dotted-quad group: one to three decimal digits whose value
/// is at most 255.
pub open spec fn octet_ok(p: Seq<char>) -> bool {
    1 <= p.len() <= 3 && (forall|i: int| 0 <= i < p.len() ==> dec_digit(#[trigger] p[i]))
        && dec_val(p) <= 255
}

/// A syntactically valid dotted-quad IPv4 address.
pub open spec fn valid_ipv4(s: Seq<char>) -> bool {
    split_dots(s).len() == 4 && forall|i: int|
        0 <= i < 4 ==> octet_ok(#[trigger] split_dots(s)[i])
}

/// Splits a string at every dot. Empty parts are kept, so the result always
/// holds one more part than the string holds dots.
pub fn split_on_dots(s: &str) -> (r: Vec<Vec<char>>)
    ensures
        r@.len() == split_dots(s@).len(),
        forall|i: int| 0 <= i < r@.len() ==> r@[i]@ == split_dots(s@)[i],
{
    let len = s.unicode_len();
    let mut out: Vec<Vec<char>> = Vec::new();
    let mut cur: Vec<char> = Vec::new();
    let ghost mut parts: Seq<Seq<char>> = seq![];
    let mut start: usize = 0;
    let mut pos: usize = 0;
    proof {
        assert(s@.subrange(0, len as int) =~= s@);
        assert(parts + split_dots(s@) =~= split_dots(s@));
        assert(cur@ =~= s@.subrange(0, 0));
    }
    while pos < len
        invariant
            len == s@.len(),
            start <= pos <= len,
            forall|k: int| start <= k < pos ==> s@[k] != '.',
            cur@ == s@.subrange(start as int, pos as int),
            split_dots(s@) == parts + split_dots(s@.subrange(start as int, len as int)),
            out@.len() == parts.len(),
            forall|k: int| 0 <= k < parts.len() ==> out@[k]@ == #[trigger] parts[k],
        decreases len - pos,
    {
        let c = s.get_char(pos);
        let ghost rest = s@.subrange(start as int, len as int);
        if c == '.' {
            proof {
                lemma_first_dot_is(rest, pos - start);
                assert(split_dots(rest) == seq![rest.subrange(0, pos - start)] + split_dots(
                    rest.subrange(pos - start + 1, rest.len() as int),
                ));
                assert(rest.subrange(0, pos - start) =~= s@.subrange(start as int, pos as int));
                assert(rest.subrange(pos - start + 1, rest.len() as int) =~= s@.subrange(
                    pos + 1,
                    len as int,
                ));
            }
            let ghost part = s@.subrange(start as int, pos as int);
            out.push(cur);
            cur = Vec::new();
            proof {
                parts = parts + seq![part];
                assert(split_dots(s@) =~= parts + split_dots(s@.subrange(pos + 1, len as int)));
            }
            start = pos + 1;
            pos = pos + 1;
            proof {
                assert(cur@ =~= s@.subrange(start as int, pos as int));
            }
        } else {
            cur.push(c);
            pos = pos + 1;
            proof {
                assert(cur@ =~= s@.subrange(start as int, pos as int));
            }
        }
    }
    let ghost rest = s@.subrange(start as int, len as int);
    proof {
        lemma_first_dot_is(rest, rest.len() as int);
        assert(split_dots(rest) == seq![rest]);
    }
    out.push(cur);
    proof {
        parts = parts + seq![rest];
        assert(split_dots(s@) =~= parts);
    }
    out
}

/// Decodes one dotted-quad group, accepting it exactly when it is one to
/// three decimal digits not exceeding 255.
pub fn check_octet(p: &Vec<char>) -> (r: Option<u8>)
    ensures
        r is Some <==> octet_ok(p@),
        r matches Some(v) ==> v as int == dec_val(p@),
{
    if p.len() == 0 || p.len() > 3 {
        return None;
    }
    let mut val: u16 = 0;
    let mut i: usize = 0;
    proof {
        assert(p@.subrange(0, 0) =~= Seq::<char>::empty());
    }
    while i < p.len()
        invariant
            i <= p@.len(),
            1 <= p@.len() <= 3,
            forall|k: int| 0 <= k < i ==> dec_digit(#[trigger] p@[k]),
            val as int == dec_val(p@.subrange(0, i as int)),
            i == 0 ==> val == 0,
            i == 1 ==> val < 10,
            i == 2 ==> val < 100,
            i == 3 ==> val < 1000,
        decreases p.len() - i,
    {
        let c = p[i];
        if !('0' <= c && c <= '9') {
            return None;
        }
        let d: u16 = ((c as u32) - ('0' as u32)) as u16;
        proof {
            assert(d <= 9);
            assert(p@.subrange(0, i + 1).drop_last() =~= p@.subrange(0, i as int));
            assert(p@.subrange(0, i + 1).last() == p@[i as int]);
        }
        val = val * 10 + d;
        i += 1;
    }
    proof {
        assert(p@.subrange(0, p@.len() as int) =~= p@);
    }
    if val > 255 {
        return None;
    }
    Some(val as u8)
}

/// Decides dotted-quad validity and yields the four octet values.
pub fn parse_ipv4(s: &str) -> (r: Option<(u8, u8, u8, u8)>)
    ensures
        r is Some <==> valid_ipv4(s@),
        r matches Some(q) ==> {
            &&& q.0 as int == dec_val(split_dots(s@)[0])
            &&& q.1 as int == dec_val(split_dots(s@)[1])
            &&& q.2 as int == dec_val(split_dots(s@)[2])
            &&& q.3 as int == dec_val(split_dots(s@)[3])
        },
{
    let groups = split_on_dots(s);
    if groups.len() != 4 {
        return None;
    }
    let a = match check_octet(&groups[0]) {
        Some(v) => v,
        None => {
            proof {
                assert(!octet_ok(split_dots(s@)[0]));
            }
            return None;
        },
    };
    let b = match check_octet(&groups[1]) {
        Some(v) => v,
        None => {
            proof {
                assert(!octet_ok(split_dots(s@)[1]));
            }
            return None;
        },
    };
    let c = match check_octet(&groups[2]) {
        Some(v) => v,
        None => {
            proof {
                assert(!octet_ok(split_dots(s@)[2]));
            }
            return None;
        },
    };
    let d = match check_octet(&groups[3]) {
        Some(v) => v,
        None => {
            proof {
                assert(!octet_ok(split_dots(s@)[3]));
            }
            return None;
        },
    };
    proof {
        assert forall|i: int| 0 <= i < 4 implies octet_ok(#[trigger] split_dots(s@)[i]) by {
            if i == 0 {
                assert(octet_ok(groups@[0]@));
            } else if i == 1 {
                assert(octet_ok(groups@[1]@));
            } else if i == 2 {
                assert(octet_ok(groups@[2]@));
            } else {
                assert(octet_ok(groups@[3]@));
            }
        }
    }
    Some((a, b, c, d))
}

/// Decides whether a string is a syntactically valid dotted-quad address.
pub fn is_valid_ipv4(s: &str) -> (r: bool)
    ensures
        r == valid_ipv4(s@),
{
    parse_ipv4(s).is_some()
}

} // verus!
