//! Record entries as stored: a composite `<name>:<type>` key and an ordered
//! set of typed resource-data items.
use vstd::prelude::*;

use crate::dns_name::valid_name;
use crate::ipv4::valid_ipv4;

verus! {

/// The record types this gateway recognizes in a key's type token.
#[derive(Clone, Copy, PartialEq, Eq, Structural, Debug)]
pub enum RecordType {
    A,
    Ns,
    Cname,
    Soa,
    Mx,
    Txt,
}

/// One resource-data item. The variant is the item's declared payload
/// shape; the fields hold the written payload, decoded by validation.
pub enum RrData {
    A { value: String },
    Ns { value: String },
    Cname { value: String },
    Soa {
        mname: String,
        rname: String,
        serial: u32,
        refresh: i32,
        retry: i32,
        expire: i32,
        minimum: u32,
    },
    Mx { preference: u16, exchange: String },
    Txt { value: String },
}

/// One entry of the record store: the composite key and its RR set.
pub struct RecordEntry {
    pub key: String,
    pub rr_set: Vec<RrData>,
}

/// Index of the first `:` in `s`, or `s.len()` when `s` holds none.
pub open spec fn first_colon(s: Seq<char>) -> int
    decreases s.len(),
{
    if s.len() == 0 {
        0
    } else if s[0] == ':' {
        0
    } else {
        1 + first_colon(s.drop_first())
    }
}

/// `first_colon` is determined by where the colons lie.
pub proof fn lemma_first_colon_is(s: Seq<char>, j: int)
    requires
        0 <= j <= s.len(),
        forall|k: int| 0 <= k < j ==> s[k] != ':',
        j < s.len() ==> s[j] == ':',
    ensures
        first_colon(s) == j,
    decreases j,
{
    if j == 0 {
    } else {
        assert(s[0] != ':');
        lemma_first_colon_is(s.drop_first(), j - 1);
    }
}

/// A well-formed composite key: exactly one separating colon, with a
/// non-empty name part before it and a non-empty type part after it.
pub open spec fn key_valid(k: Seq<char>) -> bool {
    let i = first_colon(k);
    0 < i && i + 1 < k.len() && forall|j: int| i < j < k.len() ==> k[j] != ':'
}

/// The name part of a well-formed key.
pub open spec fn key_name_part(k: Seq<char>) -> Seq<char> {
    k.subrange(0, first_colon(k))
}

/// The type part of a well-formed key.
pub open spec fn key_type_part(k: Seq<char>) -> Seq<char> {
    k.subrange(first_colon(k) + 1, k.len() as int)
}

/// Splits a composite key at its separating colon. Returns the name and
/// type parts exactly when the key is well formed.
pub fn split_key(key: &str) -> (r: Option<(&str, &str)>)
    ensures
        r is Some <==> key_valid(key@),
        r matches Some(p) ==> p.0@ == key_name_part(key@) && p.1@ == key_type_part(key@),
{
    let len = key.unicode_len();
    let mut pos: usize = 0;
    let mut colon: usize = len;
    let mut found = false;
    while pos < len
        invariant
            len == key@.len(),
            pos <= len,
            found <==> colon < len,
            !found ==> colon == len,
            found ==> colon < pos && key@[colon as int] == ':',
            forall|k: int| 0 <= k < pos && k != colon ==> key@[k] != ':',
        decreases len - pos,
    {
        let c = key.get_char(pos);
        if c == ':' {
            if found {
                // a second separator makes the key ambiguous
                proof {
                    lemma_first_colon_is(key@, colon as int);
                    assert(!key_valid(key@));
                }
                return None;
            }
            colon = pos;
            found = true;
        }
        pos += 1;
    }
    if !found {
        proof {
            lemma_first_colon_is(key@, len as int);
            assert(!key_valid(key@));
        }
        return None;
    }
    proof {
        lemma_first_colon_is(key@, colon as int);
    }
    if colon == 0 || colon + 1 >= len {
        // an empty name or type part
        return None;
    }
    let name = key.substring_char(0, colon);
    let typ = key.substring_char(colon + 1, len);
    Some((name, typ))
}

/// The record type a type token denotes, if any.
pub open spec fn spec_type_of_token(t: Seq<char>) -> Option<RecordType> {
    if t == "A"@ {
        Some(RecordType::A)
    } else if t == "NS"@ {
        Some(RecordType::Ns)
    } else if t == "CNAME"@ {
        Some(RecordType::Cname)
    } else if t == "SOA"@ {
        Some(RecordType::Soa)
    } else if t == "MX"@ {
        Some(RecordType::Mx)
    } else if t == "TXT"@ {
        Some(RecordType::Txt)
    } else {
        None
    }
}

/// Compares two strings character by character.
pub fn str_eq(a: &str, b: &str) -> (r: bool)
    ensures
        r == (a@ == b@),
{
    let alen = a.unicode_len();
    let blen = b.unicode_len();
    if alen != blen {
        assert(a@ != b@);
        return false;
    }
    let mut i: usize = 0;
    while i < alen
        invariant
            i <= alen,
            alen == a@.len(),
            alen == b@.len(),
            forall|k: int| 0 <= k < i ==> a@[k] == b@[k],
        decreases alen - i,
    {
        if a.get_char(i) != b.get_char(i) {
            assert(a@ != b@);
            return false;
        }
        i += 1;
    }
    assert(a@ =~= b@);
    true
}

/// Recognizes a type token.
pub fn type_of_token(t: &str) -> (r: Option<RecordType>)
    ensures
        r == spec_type_of_token(t@),
{
    if str_eq(t, "A") {
        Some(RecordType::A)
    } else if str_eq(t, "NS") {
        Some(RecordType::Ns)
    } else if str_eq(t, "CNAME") {
        Some(RecordType::Cname)
    } else if str_eq(t, "SOA") {
        Some(RecordType::Soa)
    } else if str_eq(t, "MX") {
        Some(RecordType::Mx)
    } else if str_eq(t, "TXT") {
        Some(RecordType::Txt)
    } else {
        None
    }
}

/// Whether an item's payload shape matches the entry's declared type.
pub open spec fn data_matches_type(d: RrData, t: RecordType) -> bool {
    match d {
        RrData::A { .. } => t is A,
        RrData::Ns { .. } => t is Ns,
        RrData::Cname { .. } => t is Cname,
        RrData::Soa { .. } => t is Soa,
        RrData::Mx { .. } => t is Mx,
        RrData::Txt { .. } => t is Txt,
    }
}

/// Whether an item's written payload decodes into valid typed data.
pub open spec fn data_decodes(d: RrData) -> bool {
    match d {
        RrData::A { value } => valid_ipv4(value@),
        RrData::Ns { value } => valid_name(value@),
        RrData::Cname { value } => valid_name(value@),
        RrData::Soa { mname, rname, .. } => valid_name(mname@) && valid_name(rname@),
        RrData::Mx { exchange, .. } => valid_name(exchange@),
        RrData::Txt { .. } => true,
    }
}

/// Decides whether an item's payload shape matches the declared type.
pub fn check_data_matches_type(d: &RrData, t: RecordType) -> (r: bool)
    ensures
        r == data_matches_type(*d, t),
{
    match d {
        RrData::A { .. } => matches!(t, RecordType::A),
        RrData::Ns { .. } => matches!(t, RecordType::Ns),
        RrData::Cname { .. } => matches!(t, RecordType::Cname),
        RrData::Soa { .. } => matches!(t, RecordType::Soa),
        RrData::Mx { .. } => matches!(t, RecordType::Mx),
        RrData::Txt { .. } => matches!(t, RecordType::Txt),
    }
}

/// Decides whether an item's written payload decodes.
pub fn check_data_decodes(d: &RrData) -> (r: bool)
    ensures
        r == data_decodes(*d),
{
    match d {
        RrData::A { value } => crate::ipv4::is_valid_ipv4(value.as_str()),
        RrData::Ns { value } => crate::dns_name::parse_dns_name(value.as_str()).is_some(),
        RrData::Cname { value } => crate::dns_name::parse_dns_name(value.as_str()).is_some(),
        RrData::Soa { mname, rname, .. } => crate::dns_name::parse_dns_name(mname.as_str()).is_some()
            && crate::dns_name::parse_dns_name(rname.as_str()).is_some(),
        RrData::Mx { exchange, .. } => crate::dns_name::parse_dns_name(exchange.as_str()).is_some(),
        RrData::Txt { .. } => true,
    }
}

} // verus!
