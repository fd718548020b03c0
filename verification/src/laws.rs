//! The engine's cross-cutting guarantees, stated and proved over the spec
//! functions that the executable contracts use.

use vstd::prelude::*;
use crate::dom::{find_tag_attr_from, find_tag_from, texts_upto, DomNode};
use crate::extract::{
    spec_extract_developer, spec_extract_repository, ExtractError, RepositoryV, StructureIssue,
};
use crate::text::{
    digits_value, is_space_char, parse_grouped_spec, token_of, trim_end_upto, trim_start_from,
    trimmed,
};

verus! {

/// Every character of `s` is a decimal digit.
pub open spec fn all_digits(s: Seq<char>) -> bool {
    forall|i: int| 0 <= i < s.len() ==> 48 <= (#[trigger] s[i]) as u32 <= 57
}

/// The number that a digit string denotes, most significant digit first.
pub open spec fn val10(s: Seq<char>) -> int
    decreases s.len(),
{
    if s.len() == 0 {
        0
    } else {
        val10(s.drop_last()) * 10 + (s.last() as u32 - 48)
    }
}

proof fn lemma_digits_value_faithful(s: Seq<char>, v: u32)
    requires
        digits_value(s) == Some(v),
    ensures
        all_digits(s),
        val10(s) == v,
    decreases s.len(),
{
    if s.len() == 0 {
    } else {
        let p = s.drop_last();
        match digits_value(p) {
            Some(pv) => {
                lemma_digits_value_faithful(p, pv);
                assert forall|i: int| 0 <= i < s.len() implies 48 <= (#[trigger] s[i]) as u32
                    <= 57 by {
                    if i < s.len() - 1 {
                        assert(p[i] == s[i]);
                    }
                }
            },
            None => {
                assert(false);
            },
        }
    }
}

/// A successfully parsed count is non-negative, and the digit token that the
/// source text yields once separators and surroundings are stripped denotes
/// exactly that count: the parse neither drops digits nor leaves separators
/// in the value.
pub proof fn lemma_parse_grouped_faithful(s: Seq<char>, v: u32)
    requires
        parse_grouped_spec(s) == Some(v),
    ensures
        v >= 0,
        token_of(s).len() > 0,
        all_digits(token_of(s)),
        val10(token_of(s)) == v,
{
    lemma_digits_value_faithful(token_of(s), v);
}

/// The character of one decimal digit value.
pub open spec fn digit_char(d: int) -> char {
    ((48 + d) as u8) as char
}

/// The decimal rendering of a non-negative number, no leading zeros.
pub open spec fn to_decimal(v: int) -> Seq<char>
    decreases v,
{
    if v < 0 {
        Seq::<char>::empty()
    } else if v < 10 {
        seq![digit_char(v)]
    } else {
        to_decimal(v / 10).push(digit_char(v % 10))
    }
}

/// `s` with its leading zeros removed, keeping at least one character.
pub open spec fn strip_leading_zeros(s: Seq<char>) -> Seq<char>
    decreases s.len(),
{
    if s.len() > 1 && s[0] == '0' {
        strip_leading_zeros(s.drop_first())
    } else {
        s
    }
}

proof fn lemma_char_code_injective(a: char, b: char)
    requires
        a as u32 == b as u32,
    ensures
        a == b,
{
}

proof fn lemma_digit_char_round(c: char)
    requires
        48 <= c as u32 <= 57,
    ensures
        ((48 + (c as u32 - 48)) as u8) as char == c,
{
}

proof fn lemma_val10_single(c: char)
    ensures
        val10(seq![c]) == c as u32 - 48,
{
    assert(seq![c].drop_last() =~= Seq::<char>::empty());
    assert(val10(Seq::<char>::empty()) == 0);
    assert(seq![c].last() == c);
}

proof fn lemma_val10_nonneg(s: Seq<char>)
    requires
        all_digits(s),
    ensures
        val10(s) >= 0,
    decreases s.len(),
{
    if s.len() > 0 {
        let p = s.drop_last();
        assert forall|i: int| 0 <= i < p.len() implies 48 <= (#[trigger] p[i]) as u32 <= 57 by {
            assert(p[i] == s[i]);
        }
        lemma_val10_nonneg(p);
    }
}

proof fn lemma_val10_leading_nonzero(s: Seq<char>)
    requires
        all_digits(s),
        s.len() > 0,
        s[0] != '0',
    ensures
        val10(s) >= 1,
    decreases s.len(),
{
    let p = s.drop_last();
    assert forall|i: int| 0 <= i < p.len() implies 48 <= (#[trigger] p[i]) as u32 <= 57 by {
        assert(p[i] == s[i]);
    }
    if s.len() == 1 {
        assert(s =~= seq![s[0]]);
        lemma_val10_single(s[0]);
        assert('0' as u32 == 48);
        if s[0] as u32 == 48 {
            lemma_char_code_injective(s[0], '0');
            assert(false);
        }
    } else {
        assert(p[0] == s[0]);
        lemma_val10_leading_nonzero(p);
    }
}

proof fn lemma_val10_drop_leading_zero(s: Seq<char>)
    requires
        s.len() > 1,
        s[0] == '0',
    ensures
        val10(s.drop_first()) == val10(s),
    decreases s.len(),
{
    let p = s.drop_last();
    if s.len() == 2 {
        assert(s.drop_first() =~= seq![s[1]]);
        lemma_val10_single(s[1]);
        assert(p =~= seq![s[0]]);
        lemma_val10_single(s[0]);
        assert('0' as u32 == 48);
        assert(val10(p) == 0);
    } else {
        assert(p[0] == s[0]);
        lemma_val10_drop_leading_zero(p);
        assert(s.drop_first().drop_last() =~= p.drop_first());
        assert(s.drop_first().last() == s.last());
    }
}

proof fn lemma_no_leading_zero_decimal(s: Seq<char>)
    requires
        all_digits(s),
        s.len() > 0,
        s.len() > 1 ==> s[0] != '0',
    ensures
        to_decimal(val10(s)) == s,
    decreases s.len(),
{
    let p = s.drop_last();
    let d: int = s.last() as u32 - 48;
    assert(48 <= s[s.len() - 1] as u32 <= 57);
    assert(s.last() == s[s.len() - 1]);
    assert forall|i: int| 0 <= i < p.len() implies 48 <= (#[trigger] p[i]) as u32 <= 57 by {
        assert(p[i] == s[i]);
    }
    lemma_val10_nonneg(s);
    if s.len() == 1 {
        assert(s =~= seq![s.last()]);
        lemma_val10_single(s.last());
        assert(val10(s) == d);
        lemma_digit_char_round(s.last());
        assert(digit_char(d) == s.last());
        assert(seq![s.last()] =~= s);
    } else {
        assert(p[0] == s[0]);
        lemma_val10_leading_nonzero(p);
        let v = val10(s);
        assert(v == val10(p) * 10 + d);
        assert(v >= 10);
        assert(v / 10 == val10(p) && v % 10 == d) by (nonlinear_arith)
            requires
                v == val10(p) * 10 + d,
                0 <= d <= 9,
                val10(p) >= 1,
        ;
        lemma_no_leading_zero_decimal(p);
        lemma_digit_char_round(s.last());
        assert(digit_char(d) == s.last());
        assert(to_decimal(v) == p.push(s.last()));
        assert(p.push(s.last()) =~= s);
    }
}

proof fn lemma_strip_zeros_props(s: Seq<char>)
    requires
        all_digits(s),
        s.len() > 0,
    ensures
        all_digits(strip_leading_zeros(s)),
        strip_leading_zeros(s).len() > 0,
        val10(strip_leading_zeros(s)) == val10(s),
        strip_leading_zeros(s).len() > 1 ==> strip_leading_zeros(s)[0] != '0',
    decreases s.len(),
{
    if s.len() > 1 && s[0] == '0' {
        let q = s.drop_first();
        assert forall|i: int| 0 <= i < q.len() implies 48 <= (#[trigger] q[i]) as u32 <= 57 by {
            assert(q[i] == s[i + 1]);
        }
        lemma_val10_drop_leading_zero(s);
        lemma_strip_zeros_props(q);
    }
}

/// The digit token behind a successfully parsed count, its leading zeros
/// ignored, reads back as exactly the decimal rendering of the count.
pub proof fn lemma_parse_grouped_decimal(s: Seq<char>, v: u32)
    requires
        parse_grouped_spec(s) == Some(v),
    ensures
        strip_leading_zeros(token_of(s)) == to_decimal(v as int),
{
    lemma_parse_grouped_faithful(s, v);
    lemma_strip_zeros_props(token_of(s));
    lemma_no_leading_zero_decimal(strip_leading_zeros(token_of(s)));
}

proof fn lemma_trim_start_first(s: Seq<char>, j: int)
    ensures
        trim_start_from(s, j).len() > 0 ==> !is_space_char(trim_start_from(s, j)[0]),
    decreases s.len() - j,
{
    if j < 0 || j >= s.len() {
    } else if is_space_char(s[j]) {
        lemma_trim_start_first(s, j + 1);
    } else {
        assert(s.skip(j)[0] == s[j]);
    }
}

proof fn lemma_trim_end_edges(s: Seq<char>, j: int)
    ensures
        trim_end_upto(s, j).len() > 0 ==> s.len() > 0 && trim_end_upto(s, j)[0] == s[0]
            && !is_space_char(trim_end_upto(s, j).last()),
    decreases j,
{
    if j <= 0 || j > s.len() {
    } else if is_space_char(s[j - 1]) {
        lemma_trim_end_edges(s, j - 1);
    } else {
        assert(s.take(j)[0] == s[0]);
        assert(s.take(j).last() == s[j - 1]);
    }
}

/// A trimmed text run neither starts nor ends with whitespace.
pub proof fn lemma_trimmed_no_edge_space(s: Seq<char>)
    ensures
        trimmed(s).len() > 0 ==> !is_space_char(trimmed(s)[0]) && !is_space_char(
            trimmed(s).last(),
        ),
{
    let u = trim_start_from(s, 0);
    lemma_trim_start_first(s, 0);
    lemma_trim_end_edges(u, u.len() as int);
}

/// The number of adjacent whitespace pairs in `s`.
pub open spec fn space_pairs(s: Seq<char>) -> nat
    decreases s.len(),
{
    if s.len() < 2 {
        0
    } else {
        space_pairs(s.drop_last()) + (if is_space_char(s[s.len() - 2]) && is_space_char(
            s[s.len() - 1],
        ) {
            1nat
        } else {
            0nat
        })
    }
}

/// The whitespace pair that a concatenation seam would add, if any.
pub open spec fn seam_pair(a: Seq<char>, b: Seq<char>) -> nat {
    if a.len() > 0 && b.len() > 0 && is_space_char(a.last()) && is_space_char(b[0]) {
        1nat
    } else {
        0nat
    }
}

proof fn lemma_space_pairs_concat(a: Seq<char>, b: Seq<char>)
    ensures
        space_pairs(a + b) == space_pairs(a) + space_pairs(b) + seam_pair(a, b),
    decreases b.len(),
{
    if b.len() == 0 {
        assert(a + b =~= a);
    } else if a.len() == 0 {
        assert(a + b =~= b);
    } else {
        let ab = a + b;
        assert(ab.drop_last() =~= a + b.drop_last());
        lemma_space_pairs_concat(a, b.drop_last());
        if b.len() == 1 {
            assert(ab[ab.len() - 2] == a.last());
            assert(ab[ab.len() - 1] == b[0]);
        } else {
            assert(ab[ab.len() - 2] == b[b.len() - 2]);
            assert(ab[ab.len() - 1] == b[b.len() - 1]);
            assert(b.drop_last()[0] == b[0]);
        }
    }
}

/// The whitespace pairs already present inside the trimmed text runs of the
/// range, before any joining.
pub open spec fn texts_pairs(nodes: Seq<DomNode>, lo: int, hi: int) -> nat
    decreases hi - lo,
{
    if lo < 0 || lo >= hi || hi > nodes.len() {
        0
    } else {
        texts_pairs(nodes, lo, hi - 1) + (if nodes[hi - 1].tag@.len() == 0 {
            space_pairs(trimmed(nodes[hi - 1].text@))
        } else {
            0nat
        })
    }
}

/// Normalized text never starts or ends with whitespace, and joining the
/// trimmed runs introduces no new adjacent whitespace pair: every such pair
/// in the output was already inside one trimmed source run, so inter-word
/// single spaces pass through unchanged.
pub proof fn lemma_normalize_text_normalized(nodes: Seq<DomNode>, lo: int, hi: int)
    ensures
        texts_upto(nodes, lo, hi).len() > 0 ==> !is_space_char(texts_upto(nodes, lo, hi)[0])
            && !is_space_char(texts_upto(nodes, lo, hi).last()),
        space_pairs(texts_upto(nodes, lo, hi)) == texts_pairs(nodes, lo, hi),
    decreases hi - lo,
{
    if lo < 0 || lo >= hi || hi > nodes.len() {
    } else {
        lemma_normalize_text_normalized(nodes, lo, hi - 1);
        let t = texts_upto(nodes, lo, hi - 1);
        let piece = (if nodes[hi - 1].tag@.len() == 0 {
            trimmed(nodes[hi - 1].text@)
        } else {
            Seq::<char>::empty()
        });
        lemma_trimmed_no_edge_space(nodes[hi - 1].text@);
        lemma_space_pairs_concat(t, piece);
        if t.len() > 0 {
            assert((t + piece)[0] == t[0]);
        } else if piece.len() > 0 {
            assert((t + piece)[0] == piece[0]);
        }
        if piece.len() > 0 {
            assert((t + piece).last() == piece.last());
        } else {
            assert(t + piece =~= t);
        }
    }
}

/// A successfully extracted repository record carries non-negative counts.
pub proof fn lemma_repository_counts_non_negative(nodes: Seq<DomNode>, c: int, base: Seq<char>)
    ensures
        ({
            let r = spec_extract_repository(nodes, c, base);
            r matches Ok(rep) ==> rep.star_count >= 0 && rep.forks >= 0
        }),
{
}

/// A repository container whose class-tagged title heading is absent fails
/// with a structure error naming the title link — never a panic and never a
/// record with blank author and name.
pub proof fn lemma_missing_title_link_is_structure_error(
    nodes: Seq<DomNode>,
    c: int,
    base: Seq<char>,
)
    requires
        find_tag_attr_from(
            nodes,
            c + 1,
            nodes[c].end as int,
            "h2"@,
            "class"@,
            "h3 lh-condensed"@,
        ) is None,
    ensures
        spec_extract_repository(nodes, c, base) == Err::<RepositoryV, ExtractError>(
            ExtractError::Structure(StructureIssue::TitleLink),
        ),
{
}

/// A developer container with no nested detail article still succeeds, with
/// an empty popular-repository link and an empty description.
pub proof fn lemma_developer_without_detail(nodes: Seq<DomNode>, c: int, base: Seq<char>)
    requires
        find_tag_from(nodes, c + 1, nodes[c].end as int, "article"@) is None,
    ensures
        ({
            let r = spec_extract_developer(nodes, c, base);
            r matches Ok(d) ==> d.popular_repo == Seq::<char>::empty() && d.description
                == Seq::<char>::empty()
        }),
{
}

} // verus!
