//! DNS names in canonical form and the name/zone containment relation.
//!
//! A name is modelled as its sequence of labels, written left to right (the
//! label closest to the root comes last), each label lowercased. A zone Z
//! covers a name A when Z's labels, read from the root end, are a suffix of
//! A's labels; this is a label-boundary comparison, so `evilexample.com.` is
//! not covered by `example.com.`.
use vstd::prelude::*;

verus! {

/// A character that may appear in a canonical (lowercased) DNS label.
pub open spec fn canonical_name_char(c: char) -> bool {
    ('a' <= c && c <= 'z') || ('0' <= c && c <= '9') || c == '-' || c == '_'
}

/// A character that may appear in a DNS label as written: canonical
/// characters plus uppercase letters, which canonicalization lowers.
pub open spec fn name_char(c: char) -> bool {
    canonical_name_char(c) || ('A' <= c && c <= 'Z')
}

/// Lowercases an ASCII letter; leaves every other character unchanged.
pub open spec fn lower_char(c: char) -> char {
    if 'A' <= c && c <= 'Z' {
        (((c as u32) + 32) as u8) as char
    } else {
        c
    }
}

/// Index of the first `.` in `s`, or `s.len()` when `s` holds none.
pub open spec fn first_dot(s: Seq<char>) -> int
    decreases s.len(),
{
    if s.len() == 0 {
        0
    } else if s[0] == '.' {
        0
    } else {
        1 + first_dot(s.drop_first())
    }
}

/// Splits `s` at every `.`; a leading, trailing or doubled dot yields an
/// empty part. Splitting the empty sequence yields one empty part.
pub open spec fn split_dots(s: Seq<char>) -> Seq<Seq<char>>
    decreases s.len(),
    via split_dots_decreases
{
    let j = first_dot(s);
    if j == s.len() {
        seq![s]
    } else {
        seq![s.subrange(0, j)] + split_dots(s.subrange(j + 1, s.len() as int))
    }
}

#[via_fn]
proof fn split_dots_decreases(s: Seq<char>) {
    lemma_first_dot_props(s);
}

/// A well-formed written label: non-empty, made of name characters.
pub open spec fn written_label_ok(l: Seq<char>) -> bool {
    l.len() > 0 && forall|i: int| 0 <= i < l.len() ==> name_char(#[trigger] l[i])
}

/// The canonical (lowercased) form of a written label.
pub open spec fn canon_label(l: Seq<char>) -> Seq<char> {
    l.map_values(|c: char| lower_char(c))
}

/// Whether the written form `s` is a syntactically valid DNS name: either
/// the bare root `"."`, or a non-empty dot-separated sequence of non-empty
/// labels of name characters, with an optional trailing root dot.
pub open spec fn valid_name(s: Seq<char>) -> bool {
    if s =~= seq!['.'] {
        true
    } else {
        s.len() > 0 && {
            let t = spec_interior(s);
            t.len() > 0 && (forall|i: int|
                0 <= i < split_dots(t).len() ==> written_label_ok(#[trigger] split_dots(t)[i]))
        }
    }
}

/// Whether the written form carries the trailing root dot.
pub open spec fn spec_is_fqdn(s: Seq<char>) -> bool {
    s.len() > 0 && s.last() == '.'
}

/// The written form with any trailing root dot removed.
pub open spec fn spec_interior(s: Seq<char>) -> Seq<char> {
    if spec_is_fqdn(s) {
        s.drop_last()
    } else {
        s
    }
}

/// The canonical label sequence a valid written name denotes.
pub open spec fn spec_labels_of(s: Seq<char>) -> Seq<Seq<char>> {
    if s =~= seq!['.'] {
        seq![]
    } else {
        split_dots(spec_interior(s)).map_values(|l: Seq<char>| canon_label(l))
    }
}

/// A DNS name in canonical form: lowercased labels plus a flag recording
/// whether the written form was fully qualified (ended in the root dot).
pub struct DnsName {
    pub labels: Vec<Vec<char>>,
    pub fqdn: bool,
}

impl DnsName {
    /// The label sequence as a mathematical value.
    pub open spec fn labels_seq(&self) -> Seq<Seq<char>> {
        self.labels@.map_values(|l: Vec<char>| l@)
    }

    /// Canonical well-formedness: every label non-empty and lowercased.
    pub open spec fn wf(&self) -> bool {
        forall|i: int|
            0 <= i < self.labels_seq().len() ==> {
                let l = #[trigger] self.labels_seq()[i];
                l.len() > 0 && forall|j: int| 0 <= j < l.len() ==> canonical_name_char(#[trigger] l[j])
            }
    }
}

/// Splitting always yields at least one part.
pub proof fn lemma_split_dots_len(s: Seq<char>)
    ensures
        split_dots(s).len() >= 1,
{
    lemma_first_dot_props(s);
}

/// `first_dot` points at a dot, or at the end when there is none, and no dot
/// comes before it.
pub proof fn lemma_first_dot_props(s: Seq<char>)
    ensures
        0 <= first_dot(s) <= s.len(),
        forall|k: int| 0 <= k < first_dot(s) ==> s[k] != '.',
        first_dot(s) < s.len() ==> s[first_dot(s)] == '.',
    decreases s.len(),
{
    if s.len() == 0 {
    } else if s[0] == '.' {
    } else {
        lemma_first_dot_props(s.drop_first());
        assert forall|k: int| 0 <= k < first_dot(s) implies s[k] != '.' by {
            if k > 0 {
                assert(s.drop_first()[k - 1] != '.');
            }
        }
    }
}

/// `first_dot` is determined by where the dots lie: if no dot comes before
/// `j` and `j` is a dot or the end, then `j` is the first dot.
pub proof fn lemma_first_dot_is(s: Seq<char>, j: int)
    requires
        0 <= j <= s.len(),
        forall|k: int| 0 <= k < j ==> s[k] != '.',
        j < s.len() ==> s[j] == '.',
    ensures
        first_dot(s) == j,
    decreases j,
{
    if j == 0 {
    } else {
        assert(s[0] != '.');
        lemma_first_dot_is(s.drop_first(), j - 1);
    }
}

/// Zone containment over canonical label sequences: the zone's labels are a
/// suffix of the name's labels (the name may equal the zone).
pub open spec fn spec_covered(name: Seq<Seq<char>>, zone: Seq<Seq<char>>) -> bool {
    name.len() >= zone.len() && forall|i: int|
        0 <= i < zone.len() ==> name[name.len() - zone.len() + i] == #[trigger] zone[i]
}

/// Compares two labels character by character.
pub fn label_eq(a: &Vec<char>, b: &Vec<char>) -> (r: bool)
    ensures
        r == (a@ == b@),
{
    if a.len() != b.len() {
        assert(a@ != b@);
        return false;
    }
    let mut i: usize = 0;
    while i < a.len()
        invariant
            i <= a.len(),
            a@.len() == b@.len(),
            forall|k: int| 0 <= k < i ==> a@[k] == b@[k],
        decreases a.len() - i,
    {
        if a[i] != b[i] {
            assert(a@ != b@);
            return false;
        }
        i += 1;
    }
    assert(a@ =~= b@);
    true
}

/// Decides whether `name` is covered by `zone`: equal to it, or lying in the
/// naming subtree below it, by label-boundary suffix comparison.
pub fn covered(name: &DnsName, zone: &DnsName) -> (r: bool)
    ensures
        r == spec_covered(name.labels_seq(), zone.labels_seq()),
{
    let n = name.labels.len();
    let z = zone.labels.len();
    if n < z {
        return false;
    }
    let off = n - z;
    let mut i: usize = 0;
    while i < z
        invariant
            i <= z,
            z <= n,
            off == n - z,
            n == name.labels_seq().len(),
            z == zone.labels_seq().len(),
            forall|k: int| 0 <= k < i ==> name.labels_seq()[off + k] == zone.labels_seq()[k],
        decreases z - i,
    {
        if !label_eq(&name.labels[off + i], &zone.labels[i]) {
            assert(name.labels_seq()[off + i] != zone.labels_seq()[i as int]);
            return false;
        }
        i += 1;
    }
    true
}

/// Decides whether a written name is valid and fully qualified.
pub fn name_is_absolute(s: &str) -> (r: bool)
    ensures
        r == (valid_name(s@) && spec_is_fqdn(s@)),
{
    match parse_dns_name(s) {
        Some(d) => d.fqdn,
        None => false,
    }
}

/// Lowercasing a name character yields a canonical name character.
pub proof fn lemma_lower_char_canonical(c: char)
    requires
        name_char(c),
    ensures
        canonical_name_char(lower_char(c)),
{
}

fn lower_char_exec(c: char) -> (r: char)
    ensures
        r == lower_char(c),
{
    if 'A' <= c && c <= 'Z' {
        (((c as u32) + 32) as u8) as char
    } else {
        c
    }
}

fn is_name_char(c: char) -> (r: bool)
    ensures
        r == name_char(c),
{
    ('a' <= c && c <= 'z') || ('0' <= c && c <= '9') || c == '-' || c == '_' || ('A' <= c
        && c <= 'Z')
}

/// Parses a written DNS name into canonical form. Returns a name exactly
/// when the written form is syntactically valid; the result carries the
/// lowercased label sequence the written form denotes.
pub fn parse_dns_name(s: &str) -> (r: Option<DnsName>)
    ensures
        r is Some <==> valid_name(s@),
        r matches Some(d) ==> d.wf() && d.labels_seq() == spec_labels_of(s@) && d.fqdn
            == spec_is_fqdn(s@),
{
    let len = s.unicode_len();
    if len == 0 {
        return None;
    }
    let last = s.get_char(len - 1);
    let fqdn = last == '.';
    if len == 1 && fqdn {
        proof {
            assert(s@ =~= seq!['.']);
        }
        return Some(DnsName { labels: Vec::new(), fqdn: true });
    }
    proof {
        if s@ =~= seq!['.'] {
            assert(s@.len() == 1);
            assert(s@[0] == '.');
            assert(last == s@[len - 1]);
            assert(false);
        }
    }
    let tlen = if fqdn {
        len - 1
    } else {
        len
    };
    let ghost t = spec_interior(s@);
    proof {
        assert(t =~= s@.subrange(0, tlen as int));
    }
    let mut labels: Vec<Vec<char>> = Vec::new();
    let mut cur: Vec<char> = Vec::new();
    let ghost mut parts: Seq<Seq<char>> = seq![];
    let mut start: usize = 0;
    let mut pos: usize = 0;
    proof {
        assert(t.subrange(0, tlen as int) =~= t);
        assert(parts + split_dots(t) =~= split_dots(t));
        assert(cur@ =~= canon_label(t.subrange(0, 0)));
    }
    while pos < tlen
        invariant
            0 < tlen <= len,
            len == s@.len(),
            tlen == t.len(),
            t == s@.subrange(0, tlen as int),
            !(s@ == seq!['.']),
            t == spec_interior(s@),
            start <= pos <= tlen,
            forall|k: int| start <= k < pos ==> t[k] != '.' && name_char(#[trigger] t[k]),
            cur@ == canon_label(t.subrange(start as int, pos as int)),
            split_dots(t) == parts + split_dots(t.subrange(start as int, tlen as int)),
            labels@.len() == parts.len(),
            forall|k: int| 0 <= k < parts.len() ==> labels@[k]@ == canon_label(#[trigger] parts[k]),
            forall|k: int| 0 <= k < parts.len() ==> written_label_ok(#[trigger] parts[k]),
        decreases tlen - pos,
    {
        let c = s.get_char(pos);
        let ghost rest = t.subrange(start as int, tlen as int);
        proof {
            assert(t[pos as int] == s@[pos as int]);
        }
        if c == '.' {
            proof {
                lemma_first_dot_is(rest, pos - start);
            }
            if cur.len() == 0 {
                // an empty label: a leading or doubled dot
                proof {
                    assert(pos == start);
                    assert(split_dots(rest) == seq![rest.subrange(0, 0)] + split_dots(
                        rest.subrange(1, rest.len() as int),
                    ));
                    lemma_split_dots_len(rest.subrange(1, rest.len() as int));
                    let bad = parts.len() as int;
                    assert(split_dots(t)[bad] == rest.subrange(0, 0));
                    assert(split_dots(t)[bad].len() == 0);
                    assert(!written_label_ok(split_dots(t)[bad]));
                    assert(!valid_name(s@));
                }
                return None;
            }
            proof {
                assert(split_dots(rest) == seq![rest.subrange(0, pos - start)] + split_dots(
                    rest.subrange(pos - start + 1, rest.len() as int),
                ));
                assert(rest.subrange(0, pos - start) =~= t.subrange(start as int, pos as int));
                assert(rest.subrange(pos - start + 1, rest.len() as int) =~= t.subrange(
                    pos + 1,
                    tlen as int,
                ));
                assert(cur@.len() > 0);
                assert(t.subrange(start as int, pos as int).len() > 0);
                assert(written_label_ok(t.subrange(start as int, pos as int)));
            }
            let ghost part = t.subrange(start as int, pos as int);
            labels.push(cur);
            cur = Vec::new();
            proof {
                parts = parts + seq![part];
                assert(split_dots(t) =~= parts + split_dots(t.subrange(pos + 1, tlen as int)));
            }
            start = pos + 1;
            pos = pos + 1;
            proof {
                assert(cur@ =~= canon_label(t.subrange(start as int, pos as int)));
            }
        } else if is_name_char(c) {
            let lc = lower_char_exec(c);
            cur.push(lc);
            pos = pos + 1;
            proof {
                assert(cur@ =~= canon_label(t.subrange(start as int, pos as int)));
            }
        } else {
            // a character that may not appear in any label
            proof {
                lemma_first_dot_props(rest);
                let fd = first_dot(rest);
                assert(rest[pos - start] == t[pos as int]);
                assert(rest[pos - start] != '.');
                if fd <= pos - start {
                    assert(fd < rest.len());
                    assert(rest[fd] == '.');
                    assert(fd == pos - start);
                    assert(false);
                }
                let first_part = if fd == rest.len() {
                    rest
                } else {
                    rest.subrange(0, fd)
                };
                assert(split_dots(rest)[0] == first_part);
                if fd == rest.len() {
                    assert(first_part[pos - start] == t[pos as int]);
                } else {
                    assert(first_part[pos - start] == rest[pos - start]);
                }
                assert(!name_char(first_part[pos - start]));
                let bad = parts.len() as int;
                lemma_split_dots_len(rest);
                assert(split_dots(t)[bad] == first_part);
                assert(!written_label_ok(split_dots(t)[bad]));
                assert(!valid_name(s@));
            }
            return None;
        }
    }
    let ghost rest = t.subrange(start as int, tlen as int);
    if cur.len() == 0 {
        // the interior ends right after a dot, leaving an empty final label
        proof {
            assert(pos == start);
            assert(rest =~= Seq::<char>::empty());
            lemma_first_dot_is(rest, 0);
            assert(split_dots(rest) == seq![rest]);
            let bad = parts.len() as int;
            assert(split_dots(t)[bad].len() == 0);
            assert(!written_label_ok(split_dots(t)[bad]));
            assert(!valid_name(s@));
        }
        return None;
    }
    proof {
        lemma_first_dot_is(rest, rest.len() as int);
        assert(split_dots(rest) == seq![rest]);
        assert(rest.len() > 0);
        assert(written_label_ok(rest));
    }
    labels.push(cur);
    proof {
        parts = parts + seq![rest];
        assert(split_dots(t) =~= parts);
    }
    let d = DnsName { labels, fqdn };
    proof {
        assert(valid_name(s@));
        assert(d.labels_seq().len() == parts.len());
        assert(spec_labels_of(s@).len() == parts.len());
        assert forall|i: int| 0 <= i < parts.len() implies d.labels_seq()[i] == spec_labels_of(
            s@,
        )[i] by {
            assert(d.labels_seq()[i] == labels@[i]@);
            assert(spec_labels_of(s@)[i] == canon_label(split_dots(t)[i]));
        }
        assert(d.labels_seq() =~= spec_labels_of(s@));
        assert forall|i: int| 0 <= i < d.labels_seq().len() implies {
            let l = #[trigger] d.labels_seq()[i];
            l.len() > 0 && forall|j: int| 0 <= j < l.len() ==> canonical_name_char(#[trigger] l[j])
        } by {
            let l = d.labels_seq()[i];
            assert(l == canon_label(parts[i]));
            assert(written_label_ok(parts[i]));
            assert forall|j: int| 0 <= j < l.len() implies canonical_name_char(#[trigger] l[j]) by {
                assert(l[j] == lower_char(parts[i][j]));
                lemma_lower_char_canonical(parts[i][j]);
            }
        }
    }
    Some(d)
}

} // verus!
