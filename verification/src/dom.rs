//! The document model: a parsed HTML document flattened, in document order,
//! into an arena of nodes. Each element node records the arena position just
//! past its subtree, so "the descendants of node `i`" is exactly the index
//! range `(i, nodes[i].end)`, and every structural query is a range scan.

use vstd::prelude::*;
use crate::text::{str_eq, trim, trimmed};

verus! {

/// One node of the flattened document. An element carries a tag name and
/// attributes; a text run carries its raw text and an empty tag name.
#[derive(Debug, Clone)]
pub struct DomNode {
    /// Element tag name, lower case; empty for a text run.
    pub tag: String,
    /// Attribute name/value pairs of an element.
    pub attrs: Vec<(String, String)>,
    /// Raw text of a text run; empty for an element.
    pub text: String,
    /// Arena index one past this node's subtree.
    pub end: usize,
}

/// A fresh element entry; its `end` is settled once its subtree is in place.
pub(crate) fn element_node(tag: &str, attrs: Vec<(String, String)>) -> (n: DomNode)
    ensures
        n.tag@ == tag@,
        n.attrs == attrs,
        n.text@.len() == 0,
{
    DomNode { tag: tag.to_owned(), attrs, text: String::new(), end: 0 }
}

/// A fresh text-run entry whose subtree is only itself.
pub(crate) fn text_run_node(text: &str, end: usize) -> (n: DomNode)
    ensures
        n.tag@.len() == 0,
        n.text@ == text@,
        n.end == end,
{
    DomNode { tag: String::new(), attrs: Vec::new(), text: text.to_owned(), end }
}

/// Every node's subtree range is non-empty and stays inside the arena.
pub open spec fn arena_wf(nodes: Seq<DomNode>) -> bool {
    forall|i: int|
        0 <= i < nodes.len() ==> i < (#[trigger] nodes[i]).end && nodes[i].end <= nodes.len()
}

/// The value of the first attribute named `key`, if any.
pub open spec fn attr_lookup_spec(attrs: Seq<(String, String)>, key: Seq<char>) -> Option<
    Seq<char>,
>
    decreases attrs.len(),
{
    if attrs.len() == 0 {
        None
    } else if attrs[0].0@ == key {
        Some(attrs[0].1@)
    } else {
        attr_lookup_spec(attrs.drop_first(), key)
    }
}

pub fn attr_lookup(attrs: &Vec<(String, String)>, key: &str) -> (r: Option<String>)
    ensures
        (match r {
            Some(v) => attr_lookup_spec(attrs@, key@) == Some(v@),
            None => attr_lookup_spec(attrs@, key@) is None,
        }),
{
    let n = attrs.len();
    let mut r: Option<String> = None;
    let mut j: usize = n;
    while j > 0
        invariant
            j <= n,
            n == attrs@.len(),
            (match r {
                Some(v) => attr_lookup_spec(attrs@.skip(j as int), key@) == Some(v@),
                None => attr_lookup_spec(attrs@.skip(j as int), key@) is None,
            }),
        decreases j,
    {
        j = j - 1;
        proof {
            assert(attrs@.skip(j as int).drop_first() =~= attrs@.skip(j + 1));
            assert(attrs@.skip(j as int)[0] == attrs@[j as int]);
        }
        if str_eq(attrs[j].0.as_str(), key) {
            r = Some(attrs[j].1.clone());
        }
    }
    proof {
        assert(attrs@.skip(0) =~= attrs@);
    }
    r
}

pub open spec fn node_has_tag(n: DomNode, tag: Seq<char>) -> bool {
    n.tag@ == tag
}

pub open spec fn node_attr_is_spec(n: DomNode, key: Seq<char>, val: Seq<char>) -> bool {
    attr_lookup_spec(n.attrs@, key) == Some(val)
}

pub fn node_attr_is(n: &DomNode, key: &str, val: &str) -> (r: bool)
    ensures
        r == node_attr_is_spec(*n, key@, val@),
{
    match attr_lookup(&n.attrs, key) {
        Some(v) => str_eq(v.as_str(), val),
        None => false,
    }
}

/// A span element that carries no `itemprop` attribute.
pub open spec fn plain_span(n: DomNode) -> bool {
    n.tag@ == "span"@ && attr_lookup_spec(n.attrs@, "itemprop"@) is None
}

/// The first node in `[lo, hi)` with the given tag.
pub open spec fn find_tag_from(nodes: Seq<DomNode>, lo: int, hi: int, tag: Seq<char>) -> Option<
    int,
>
    decreases hi - lo,
{
    if lo < 0 || lo >= hi || hi > nodes.len() {
        None
    } else if node_has_tag(nodes[lo], tag) {
        Some(lo)
    } else {
        find_tag_from(nodes, lo + 1, hi, tag)
    }
}

pub fn find_tag(nodes: &Vec<DomNode>, lo: usize, hi: usize, tag: &str) -> (r: Option<usize>)
    requires
        lo <= hi <= nodes@.len(),
    ensures
        (match r {
            Some(k) => lo <= k < hi && find_tag_from(nodes@, lo as int, hi as int, tag@) == Some(
                k as int,
            ),
            None => find_tag_from(nodes@, lo as int, hi as int, tag@) is None,
        }),
{
    let mut r: Option<usize> = None;
    let mut j: usize = hi;
    while j > lo
        invariant
            lo <= j <= hi <= nodes@.len(),
            (match r {
                Some(k) => lo <= k < hi && find_tag_from(nodes@, j as int, hi as int, tag@)
                    == Some(k as int),
                None => find_tag_from(nodes@, j as int, hi as int, tag@) is None,
            }),
        decreases j,
    {
        j = j - 1;
        if str_eq(nodes[j].tag.as_str(), tag) {
            r = Some(j);
        }
    }
    r
}

/// The first node in `[lo, hi)` with the given tag whose attribute `key`
/// equals `val` exactly.
pub open spec fn find_tag_attr_from(
    nodes: Seq<DomNode>,
    lo: int,
    hi: int,
    tag: Seq<char>,
    key: Seq<char>,
    val: Seq<char>,
) -> Option<int>
    decreases hi - lo,
{
    if lo < 0 || lo >= hi || hi > nodes.len() {
        None
    } else if node_has_tag(nodes[lo], tag) && node_attr_is_spec(nodes[lo], key, val) {
        Some(lo)
    } else {
        find_tag_attr_from(nodes, lo + 1, hi, tag, key, val)
    }
}

pub fn find_tag_attr(
    nodes: &Vec<DomNode>,
    lo: usize,
    hi: usize,
    tag: &str,
    key: &str,
    val: &str,
) -> (r: Option<usize>)
    requires
        lo <= hi <= nodes@.len(),
    ensures
        (match r {
            Some(k) => lo <= k < hi && find_tag_attr_from(
                nodes@,
                lo as int,
                hi as int,
                tag@,
                key@,
                val@,
            ) == Some(k as int),
            None => find_tag_attr_from(nodes@, lo as int, hi as int, tag@, key@, val@) is None,
        }),
{
    let mut r: Option<usize> = None;
    let mut j: usize = hi;
    while j > lo
        invariant
            lo <= j <= hi <= nodes@.len(),
            (match r {
                Some(k) => lo <= k < hi && find_tag_attr_from(
                    nodes@,
                    j as int,
                    hi as int,
                    tag@,
                    key@,
                    val@,
                ) == Some(k as int),
                None => find_tag_attr_from(nodes@, j as int, hi as int, tag@, key@, val@) is None,
            }),
        decreases j,
    {
        j = j - 1;
        if str_eq(nodes[j].tag.as_str(), tag) && node_attr_is(&nodes[j], key, val) {
            r = Some(j);
        }
    }
    r
}

/// The indices in `[lo, hi)` of the nodes with the given tag, in document
/// order.
pub open spec fn collect_tag_upto(nodes: Seq<DomNode>, lo: int, hi: int, tag: Seq<char>) -> Seq<
    int,
>
    decreases hi - lo,
{
    if lo < 0 || lo >= hi || hi > nodes.len() {
        Seq::<int>::empty()
    } else {
        collect_tag_upto(nodes, lo, hi - 1, tag) + (if node_has_tag(nodes[hi - 1], tag) {
            seq![hi - 1]
        } else {
            Seq::<int>::empty()
        })
    }
}

pub fn collect_tag(nodes: &Vec<DomNode>, lo: usize, hi: usize, tag: &str) -> (v: Vec<usize>)
    requires
        lo <= hi <= nodes@.len(),
    ensures
        v@.len() == collect_tag_upto(nodes@, lo as int, hi as int, tag@).len(),
        forall|k: int|
            0 <= k < v@.len() ==> lo <= #[trigger] v@[k] < hi && v@[k] as int == collect_tag_upto(
                nodes@,
                lo as int,
                hi as int,
                tag@,
            )[k],
{
    let mut v: Vec<usize> = Vec::new();
    let mut j: usize = lo;
    while j < hi
        invariant
            lo <= j <= hi <= nodes@.len(),
            v@.len() == collect_tag_upto(nodes@, lo as int, j as int, tag@).len(),
            forall|k: int|
                0 <= k < v@.len() ==> lo <= #[trigger] v@[k] < j && v@[k] as int
                    == collect_tag_upto(nodes@, lo as int, j as int, tag@)[k],
        decreases hi - j,
    {
        if str_eq(nodes[j].tag.as_str(), tag) {
            v.push(j);
        } else {
            proof {
                assert(collect_tag_upto(nodes@, lo as int, j + 1, tag@) =~= collect_tag_upto(
                    nodes@,
                    lo as int,
                    j as int,
                    tag@,
                ));
            }
        }
        j = j + 1;
    }
    v
}

/// The indices in `[lo, hi)` of the nodes with the given tag whose attribute
/// `key` equals `val` exactly, in document order.
pub open spec fn collect_tag_attr_upto(
    nodes: Seq<DomNode>,
    lo: int,
    hi: int,
    tag: Seq<char>,
    key: Seq<char>,
    val: Seq<char>,
) -> Seq<int>
    decreases hi - lo,
{
    if lo < 0 || lo >= hi || hi > nodes.len() {
        Seq::<int>::empty()
    } else {
        collect_tag_attr_upto(nodes, lo, hi - 1, tag, key, val) + (if node_has_tag(
            nodes[hi - 1],
            tag,
        ) && node_attr_is_spec(nodes[hi - 1], key, val) {
            seq![hi - 1]
        } else {
            Seq::<int>::empty()
        })
    }
}

pub fn collect_tag_attr(
    nodes: &Vec<DomNode>,
    lo: usize,
    hi: usize,
    tag: &str,
    key: &str,
    val: &str,
) -> (v: Vec<usize>)
    requires
        lo <= hi <= nodes@.len(),
    ensures
        v@.len() == collect_tag_attr_upto(nodes@, lo as int, hi as int, tag@, key@, val@).len(),
        forall|k: int|
            0 <= k < v@.len() ==> lo <= #[trigger] v@[k] < hi && v@[k] as int
                == collect_tag_attr_upto(nodes@, lo as int, hi as int, tag@, key@, val@)[k],
{
    let mut v: Vec<usize> = Vec::new();
    let mut j: usize = lo;
    while j < hi
        invariant
            lo <= j <= hi <= nodes@.len(),
            v@.len() == collect_tag_attr_upto(nodes@, lo as int, j as int, tag@, key@, val@).len(),
            forall|k: int|
                0 <= k < v@.len() ==> lo <= #[trigger] v@[k] < j && v@[k] as int
                    == collect_tag_attr_upto(nodes@, lo as int, j as int, tag@, key@, val@)[k],
        decreases hi - j,
    {
        if str_eq(nodes[j].tag.as_str(), tag) && node_attr_is(&nodes[j], key, val) {
            v.push(j);
        } else {
            proof {
                assert(collect_tag_attr_upto(nodes@, lo as int, j + 1, tag@, key@, val@)
                    =~= collect_tag_attr_upto(nodes@, lo as int, j as int, tag@, key@, val@));
            }
        }
        j = j + 1;
    }
    v
}

/// Collected matches come back in document order: their arena indices sit in
/// `[lo, hi)` and increase strictly.
pub proof fn lemma_collect_tag_document_order(nodes: Seq<DomNode>, lo: int, hi: int, tag: Seq<char>)
    ensures
        forall|k: int|
            0 <= k < collect_tag_upto(nodes, lo, hi, tag).len() ==> lo <= #[trigger] collect_tag_upto(
                nodes,
                lo,
                hi,
                tag,
            )[k] < hi,
        forall|i: int, j: int|
            0 <= i < j < collect_tag_upto(nodes, lo, hi, tag).len() ==> collect_tag_upto(
                nodes,
                lo,
                hi,
                tag,
            )[i] < collect_tag_upto(nodes, lo, hi, tag)[j],
    decreases hi - lo,
{
    if lo < 0 || lo >= hi || hi > nodes.len() {
    } else {
        lemma_collect_tag_document_order(nodes, lo, hi - 1, tag);
        let pre = collect_tag_upto(nodes, lo, hi - 1, tag);
        let cur = collect_tag_upto(nodes, lo, hi, tag);
        assert forall|k: int| 0 <= k < cur.len() implies lo <= #[trigger] cur[k] < hi by {
            if k < pre.len() {
                assert(cur[k] == pre[k]);
            } else {
                assert(cur[k] == hi - 1);
            }
        }
        assert forall|i: int, j: int| 0 <= i < j < cur.len() implies cur[i] < cur[j] by {
            assert(cur[i] == pre[i]);
            if j < pre.len() {
                assert(cur[j] == pre[j]);
            } else {
                assert(cur[j] == hi - 1);
                assert(pre[i] < hi - 1);
            }
        }
    }
}

/// The `n`-th node (zero-based, in document order) in `[lo, hi)` with the
/// given tag. Positional selection encodes a layout assumption of the page;
/// callers document which position they rely on.
pub open spec fn nth_tag_from(nodes: Seq<DomNode>, lo: int, hi: int, tag: Seq<char>, n: int) -> Option<
    int,
> {
    let found = collect_tag_upto(nodes, lo, hi, tag);
    if 0 <= n < found.len() {
        Some(found[n])
    } else {
        None
    }
}

pub fn nth_tag(nodes: &Vec<DomNode>, lo: usize, hi: usize, tag: &str, n: usize) -> (r: Option<
    usize,
>)
    requires
        lo <= hi <= nodes@.len(),
    ensures
        (match r {
            Some(k) => lo <= k < hi && nth_tag_from(nodes@, lo as int, hi as int, tag@, n as int)
                == Some(k as int),
            None => nth_tag_from(nodes@, lo as int, hi as int, tag@, n as int) is None,
        }),
{
    let found = collect_tag(nodes, lo, hi, tag);
    if n < found.len() {
        Some(found[n])
    } else {
        None
    }
}

/// The indices in `[lo, hi)` of the span elements without an `itemprop`
/// attribute, in document order.
pub open spec fn collect_plain_spans_upto(nodes: Seq<DomNode>, lo: int, hi: int) -> Seq<int>
    decreases hi - lo,
{
    if lo < 0 || lo >= hi || hi > nodes.len() {
        Seq::<int>::empty()
    } else {
        collect_plain_spans_upto(nodes, lo, hi - 1) + (if plain_span(nodes[hi - 1]) {
            seq![hi - 1]
        } else {
            Seq::<int>::empty()
        })
    }
}

pub fn collect_plain_spans(nodes: &Vec<DomNode>, lo: usize, hi: usize) -> (v: Vec<usize>)
    requires
        lo <= hi <= nodes@.len(),
    ensures
        v@.len() == collect_plain_spans_upto(nodes@, lo as int, hi as int).len(),
        forall|k: int|
            0 <= k < v@.len() ==> lo <= #[trigger] v@[k] < hi && v@[k] as int
                == collect_plain_spans_upto(nodes@, lo as int, hi as int)[k],
{
    let mut v: Vec<usize> = Vec::new();
    let mut j: usize = lo;
    while j < hi
        invariant
            lo <= j <= hi <= nodes@.len(),
            v@.len() == collect_plain_spans_upto(nodes@, lo as int, j as int).len(),
            forall|k: int|
                0 <= k < v@.len() ==> lo <= #[trigger] v@[k] < j && v@[k] as int
                    == collect_plain_spans_upto(nodes@, lo as int, j as int)[k],
        decreases hi - j,
    {
        let is_plain = str_eq(nodes[j].tag.as_str(), "span") && attr_lookup(
            &nodes[j].attrs,
            "itemprop",
        ).is_none();
        if is_plain {
            v.push(j);
        } else {
            proof {
                assert(collect_plain_spans_upto(nodes@, lo as int, j + 1)
                    =~= collect_plain_spans_upto(nodes@, lo as int, j as int));
            }
        }
        j = j + 1;
    }
    v
}

/// The normalized text of the range `[lo, hi)`: every text run trimmed and
/// the runs joined in document order, with nothing inserted between them.
pub open spec fn texts_upto(nodes: Seq<DomNode>, lo: int, hi: int) -> Seq<char>
    decreases hi - lo,
{
    if lo < 0 || lo >= hi || hi > nodes.len() {
        Seq::<char>::empty()
    } else {
        texts_upto(nodes, lo, hi - 1) + (if nodes[hi - 1].tag@.len() == 0 {
            trimmed(nodes[hi - 1].text@)
        } else {
            Seq::<char>::empty()
        })
    }
}

/// The normalized text under node `i`.
pub open spec fn spec_text_of(nodes: Seq<DomNode>, i: int) -> Seq<char> {
    texts_upto(nodes, i + 1, nodes[i].end as int)
}

pub fn normalize_text_range(nodes: &Vec<DomNode>, lo: usize, hi: usize) -> (r: String)
    requires
        lo <= hi <= nodes@.len(),
    ensures
        r@ == texts_upto(nodes@, lo as int, hi as int),
{
    let mut r = String::new();
    let mut j: usize = lo;
    while j < hi
        invariant
            lo <= j <= hi <= nodes@.len(),
            r@ == texts_upto(nodes@, lo as int, j as int),
        decreases hi - j,
    {
        if nodes[j].tag.as_str().is_empty() {
            let piece = trim(nodes[j].text.as_str());
            r.append(piece.as_str());
        } else {
            proof {
                assert(texts_upto(nodes@, lo as int, j + 1) =~= texts_upto(
                    nodes@,
                    lo as int,
                    j as int,
                ));
            }
        }
        j = j + 1;
    }
    r
}

/// The normalized text under node `i`.
pub fn normalize_text(nodes: &Vec<DomNode>, i: usize) -> (r: String)
    requires
        arena_wf(nodes@),
        i < nodes@.len(),
    ensures
        r@ == spec_text_of(nodes@, i as int),
{
    proof {
        assert((i as int) < nodes@[i as int].end && nodes@[i as int].end <= nodes@.len());
    }
    normalize_text_range(nodes, i + 1, nodes[i].end)
}

} // verus!
