//! Shared text helpers: whitespace trimming, thousands-separator removal,
//! unsigned-integer parsing, URL resolution and small marker-stripping rules.

use vstd::prelude::*;

verus! {

/// The whitespace characters that trimming recognises.
pub open spec fn is_space_char(c: char) -> bool {
    c == ' ' || c == '\t' || c == '\n' || c == '\r'
}

pub fn is_space(c: char) -> (r: bool)
    ensures
        r == is_space_char(c),
{
    c == ' ' || c == '\t' || c == '\n' || c == '\r'
}

/// What remains of `s` once leading whitespace from position `j` on is passed.
pub open spec fn trim_start_from(s: Seq<char>, j: int) -> Seq<char>
    decreases s.len() - j,
{
    if j < 0 || j >= s.len() {
        Seq::<char>::empty()
    } else if is_space_char(s[j]) {
        trim_start_from(s, j + 1)
    } else {
        s.skip(j)
    }
}

/// The prefix `s.take(j)` with trailing whitespace removed.
pub open spec fn trim_end_upto(s: Seq<char>, j: int) -> Seq<char>
    decreases j,
{
    if j <= 0 || j > s.len() {
        Seq::<char>::empty()
    } else if is_space_char(s[j - 1]) {
        trim_end_upto(s, j - 1)
    } else {
        s.take(j)
    }
}

/// `s` with leading and trailing whitespace removed.
pub open spec fn trimmed(s: Seq<char>) -> Seq<char> {
    let u = trim_start_from(s, 0);
    trim_end_upto(u, u.len() as int)
}

pub fn trim(s: &str) -> (r: String)
    ensures
        r@ == trimmed(s@),
{
    let n = s.unicode_len();
    let mut i: usize = 0;
    while i < n && is_space(s.get_char(i))
        invariant
            i <= n,
            n == s@.len(),
            trim_start_from(s@, 0) == trim_start_from(s@, i as int),
        decreases n - i,
    {
        i = i + 1;
    }
    proof {
        if i == n {
            assert(trim_start_from(s@, i as int) =~= s@.skip(i as int));
        }
    }
    let ghost u: Seq<char> = s@.skip(i as int);
    let mut j: usize = n;
    while j > i && is_space(s.get_char(j - 1))
        invariant
            i <= j <= n,
            n == s@.len(),
            u == s@.skip(i as int),
            u == trim_start_from(s@, 0),
            u.len() == n - i,
            trim_end_upto(u, u.len() as int) == trim_end_upto(u, j - i),
        decreases j,
    {
        proof {
            assert(u[j - i - 1] == s@[j - 1]);
        }
        j = j - 1;
    }
    if j == i {
        String::new()
    } else {
        proof {
            assert(u[j - i - 1] == s@[j - 1]);
            assert(u.take(j - i) =~= s@.subrange(i as int, j as int));
        }
        s.substring_char(i, j).to_owned()
    }
}

/// `s` with every comma removed.
pub open spec fn without_commas(s: Seq<char>) -> Seq<char>
    decreases s.len(),
{
    if s.len() == 0 {
        Seq::<char>::empty()
    } else {
        without_commas(s.drop_last()) + (if s.last() == ',' {
            Seq::<char>::empty()
        } else {
            seq![s.last()]
        })
    }
}

pub fn remove_commas(s: &str) -> (r: String)
    ensures
        r@ == without_commas(s@),
{
    let n = s.unicode_len();
    let mut r = String::new();
    let mut i: usize = 0;
    while i < n
        invariant
            i <= n,
            n == s@.len(),
            r@ == without_commas(s@.take(i as int)),
        decreases n - i,
    {
        let c = s.get_char(i);
        if c != ',' {
            r.append(s.substring_char(i, i + 1));
        }
        proof {
            assert(s@.take(i + 1).drop_last() =~= s@.take(i as int));
            assert(s@.take(i + 1).last() == s@[i as int]);
            if c != ',' {
                assert(s@.subrange(i as int, i + 1) =~= seq![s@[i as int]]);
            } else {
                assert(without_commas(s@.take(i + 1)) =~= without_commas(s@.take(i as int)));
            }
        }
        i = i + 1;
    }
    proof {
        assert(s@.take(n as int) =~= s@);
    }
    r
}

/// The position of the first literal space at or after `j`, if any.
pub open spec fn first_space_from(s: Seq<char>, j: int) -> Option<int>
    decreases s.len() - j,
{
    if j < 0 || j >= s.len() {
        None
    } else if s[j] == ' ' {
        Some(j)
    } else {
        first_space_from(s, j + 1)
    }
}

pub fn first_space(s: &str) -> (r: Option<usize>)
    ensures
        (match r {
            Some(k) => k < s@.len() && first_space_from(s@, 0) == Some(k as int),
            None => first_space_from(s@, 0) is None,
        }),
{
    let n = s.unicode_len();
    let mut r: Option<usize> = None;
    let mut j: usize = n;
    while j > 0
        invariant
            j <= n,
            n == s@.len(),
            (match r {
                Some(k) => k < n && first_space_from(s@, j as int) == Some(k as int),
                None => first_space_from(s@, j as int) is None,
            }),
        decreases j,
    {
        j = j - 1;
        if s.get_char(j) == ' ' {
            r = Some(j);
        }
    }
    r
}

/// The position of the last literal space strictly before `j`, if any.
pub open spec fn last_space_upto(s: Seq<char>, j: int) -> Option<int>
    decreases j,
{
    if j <= 0 || j > s.len() {
        None
    } else if s[j - 1] == ' ' {
        Some(j - 1)
    } else {
        last_space_upto(s, j - 1)
    }
}

pub fn last_space(s: &str) -> (r: Option<usize>)
    ensures
        (match r {
            Some(k) => k < s@.len() && last_space_upto(s@, s@.len() as int) == Some(k as int),
            None => last_space_upto(s@, s@.len() as int) is None,
        }),
{
    let n = s.unicode_len();
    let mut r: Option<usize> = None;
    let mut j: usize = 0;
    while j < n
        invariant
            j <= n,
            n == s@.len(),
            (match r {
                Some(k) => k < n && last_space_upto(s@, j as int) == Some(k as int),
                None => last_space_upto(s@, j as int) is None,
            }),
        decreases n - j,
    {
        if s.get_char(j) == ' ' {
            r = Some(j);
        }
        j = j + 1;
    }
    r
}

/// Removes one leading "@" sigil, returning the remainder verbatim.
pub open spec fn strip_at(s: Seq<char>) -> Seq<char> {
    if s.len() > 0 && s[0] == '@' {
        s.skip(1)
    } else {
        s
    }
}

pub fn strip_at_marker(s: &str) -> (r: String)
    ensures
        r@ == strip_at(s@),
{
    let n = s.unicode_len();
    if n > 0 && s.get_char(0) == '@' {
        proof {
            assert(s@.subrange(1, n as int) =~= s@.skip(1));
        }
        s.substring_char(1, n).to_owned()
    } else {
        s.to_owned()
    }
}

/// What remains of `s` once the leading run of '/' from position `j` is passed.
pub open spec fn strip_slashes_from(s: Seq<char>, j: int) -> Seq<char>
    decreases s.len() - j,
{
    if j < 0 || j >= s.len() {
        Seq::<char>::empty()
    } else if s[j] == '/' {
        strip_slashes_from(s, j + 1)
    } else {
        s.skip(j)
    }
}

/// `s` with any leading "/" prefix removed.
pub open spec fn strip_slashes(s: Seq<char>) -> Seq<char> {
    strip_slashes_from(s, 0)
}

pub fn strip_slash_prefix(s: &str) -> (r: String)
    ensures
        r@ == strip_slashes(s@),
{
    let n = s.unicode_len();
    let mut i: usize = 0;
    while i < n && s.get_char(i) == '/'
        invariant
            i <= n,
            n == s@.len(),
            strip_slashes_from(s@, 0) == strip_slashes_from(s@, i as int),
        decreases n - i,
    {
        i = i + 1;
    }
    if i == n {
        proof {
            assert(strip_slashes_from(s@, i as int) =~= Seq::<char>::empty());
        }
        String::new()
    } else {
        proof {
            assert(s@.subrange(i as int, n as int) =~= s@.skip(i as int));
        }
        s.substring_char(i, n).to_owned()
    }
}

/// The numeric value of one decimal digit character.
pub open spec fn digit_value(c: char) -> Option<u32> {
    if 48 <= c as u32 && c as u32 <= 57 {
        Some((c as u32 - 48) as u32)
    } else {
        None
    }
}

/// The value of a digit string, or None on a non-digit or a value past u32.
pub open spec fn digits_value(s: Seq<char>) -> Option<u32>
    decreases s.len(),
{
    if s.len() == 0 {
        Some(0u32)
    } else {
        match (digits_value(s.drop_last()), digit_value(s.last())) {
            (Some(v), Some(d)) => if v * 10 + d <= u32::MAX {
                Some((v * 10 + d) as u32)
            } else {
                None
            },
            _ => None,
        }
    }
}

/// The numeric token of a grouped-integer text: commas removed, surrounding
/// whitespace trimmed, and the remainder cut at its first space.
pub open spec fn token_of(s: Seq<char>) -> Seq<char> {
    let t0 = trimmed(without_commas(s));
    match first_space_from(t0, 0) {
        Some(k) => t0.take(k),
        None => t0,
    }
}

/// Grouped-integer parsing: commas removed, surrounding whitespace trimmed,
/// the token up to the first space read as an unsigned decimal number.
pub open spec fn parse_grouped_spec(s: Seq<char>) -> Option<u32> {
    let t = token_of(s);
    if t.len() == 0 {
        None
    } else {
        digits_value(t)
    }
}

pub fn parse_grouped_integer(s: &str) -> (r: Option<u32>)
    ensures
        r == parse_grouped_spec(s@),
{
    let no_commas = remove_commas(s);
    let t0 = trim(no_commas.as_str());
    let t: String = match first_space(t0.as_str()) {
        Some(k) => {
            proof {
                assert(t0@.subrange(0, k as int) =~= t0@.take(k as int));
            }
            t0.as_str().substring_char(0, k).to_owned()
        },
        None => t0,
    };
    let tn = t.as_str().unicode_len();
    if tn == 0 {
        return None;
    }
    let mut acc: Option<u32> = Some(0);
    let mut i: usize = 0;
    while i < tn
        invariant
            i <= tn,
            tn == t@.len(),
            acc == digits_value(t@.take(i as int)),
        decreases tn - i,
    {
        let c = t.as_str().get_char(i);
        let u = c as u32;
        acc = match acc {
            Some(v) => {
                if 48 <= u && u <= 57 {
                    let d = u - 48;
                    let w = (v as u64) * 10 + (d as u64);
                    if w <= 4294967295u64 {
                        Some(w as u32)
                    } else {
                        None
                    }
                } else {
                    None
                }
            },
            None => None,
        };
        proof {
            assert(t@.take(i + 1).drop_last() =~= t@.take(i as int));
            assert(t@.take(i + 1).last() == t@[i as int]);
        }
        i = i + 1;
    }
    proof {
        assert(t@.take(tn as int) =~= t@);
    }
    acc
}

pub fn str_eq(a: &str, b: &str) -> (r: bool)
    ensures
        r == (a@ == b@),
{
    let an = a.unicode_len();
    let bn = b.unicode_len();
    if an != bn {
        return false;
    }
    let mut i: usize = 0;
    while i < an
        invariant
            i <= an,
            an == a@.len(),
            an == b@.len(),
            forall|k: int| 0 <= k < i ==> a@[k] == b@[k],
        decreases an - i,
    {
        if a.get_char(i) != b.get_char(i) {
            return false;
        }
        i = i + 1;
    }
    proof {
        assert(a@ =~= b@);
    }
    true
}

/// Joining a base URL with a relative path; a path that already carries the
/// base is returned unchanged, so resolution never stacks the base twice.
pub open spec fn resolved_url(base: Seq<char>, rel: Seq<char>) -> Seq<char> {
    if rel.len() >= base.len() && rel.take(base.len() as int) == base {
        rel
    } else {
        base + rel
    }
}

pub fn resolve_url(base: &str, rel: &str) -> (r: String)
    ensures
        r@ == resolved_url(base@, rel@),
{
    let bn = base.unicode_len();
    let rn = rel.unicode_len();
    if rn >= bn && str_eq(rel.substring_char(0, bn), base) {
        proof {
            assert(rel@.subrange(0, bn as int) =~= rel@.take(bn as int));
        }
        rel.to_owned()
    } else {
        proof {
            assert(rel@.subrange(0, bn as int) =~= rel@.take(bn as int));
        }
        base.to_owned().concat(rel)
    }
}

/// A resolved URL is always absolute: it carries the base as its prefix.
pub proof fn lemma_resolved_url_absolute(base: Seq<char>, rel: Seq<char>)
    ensures
        resolved_url(base, rel).len() >= base.len(),
        resolved_url(base, rel).take(base.len() as int) == base,
{
    if rel.len() >= base.len() && rel.take(base.len() as int) == base {
    } else {
        assert((base + rel).take(base.len() as int) =~= base);
    }
}

/// Resolving an already-resolved URL with the same base changes nothing.
pub proof fn lemma_resolved_url_idempotent(base: Seq<char>, rel: Seq<char>)
    ensures
        resolved_url(base, resolved_url(base, rel)) == resolved_url(base, rel),
{
    if rel.len() >= base.len() && rel.take(base.len() as int) == base {
    } else {
        assert((base + rel).take(base.len() as int) =~= base);
    }
}

} // verus!
