//! The record assemblers: per-container field extraction for repository and
//! developer records, and the batch entry points that walk a whole document
//! under the skip-and-continue policy.

use vstd::prelude::*;
use crate::dom::{
    arena_wf, attr_lookup, attr_lookup_spec, collect_plain_spans, collect_plain_spans_upto,
    collect_tag, collect_tag_attr, collect_tag_attr_upto, collect_tag_upto, find_tag,
    find_tag_attr, find_tag_attr_from, find_tag_from, normalize_text, spec_text_of, DomNode,
};
use crate::html::{dom_of, parse_document};
use crate::text::{
    first_space, first_space_from, last_space, last_space_upto, parse_grouped_integer,
    parse_grouped_spec, resolve_url, resolved_url, strip_at, strip_at_marker, strip_slash_prefix,
    strip_slashes,
};

verus! {

/// One collaborator credited on a repository's avatar strip.
#[derive(Debug, Clone)]
pub struct Collaborator {
    pub name: String,
    pub avatar: String,
}

/// The mathematical value of a `Collaborator`.
pub struct CollaboratorV {
    pub name: Seq<char>,
    pub avatar: Seq<char>,
}

impl View for Collaborator {
    type V = CollaboratorV;

    open spec fn view(&self) -> CollaboratorV {
        CollaboratorV { name: self.name@, avatar: self.avatar@ }
    }
}

/// One trending repository record.
#[derive(Debug, Clone)]
pub struct Repository {
    pub author: String,
    pub name: String,
    pub link: String,
    pub description: String,
    pub star_count: u32,
    pub period_delta: String,
    pub forks: u32,
    pub language: String,
    pub built_by: Vec<Collaborator>,
}

/// The mathematical value of a `Repository`.
pub struct RepositoryV {
    pub author: Seq<char>,
    pub name: Seq<char>,
    pub link: Seq<char>,
    pub description: Seq<char>,
    pub star_count: u32,
    pub period_delta: Seq<char>,
    pub forks: u32,
    pub language: Seq<char>,
    pub built_by: Seq<CollaboratorV>,
}

impl View for Repository {
    type V = RepositoryV;

    open spec fn view(&self) -> RepositoryV {
        RepositoryV {
            author: self.author@,
            name: self.name@,
            link: self.link@,
            description: self.description@,
            star_count: self.star_count,
            period_delta: self.period_delta@,
            forks: self.forks,
            language: self.language@,
            built_by: collab_views(self.built_by@),
        }
    }
}

/// One trending developer record.
#[derive(Debug, Clone)]
pub struct Developer {
    pub name: String,
    pub avatar: String,
    pub popular_repo: String,
    pub description: String,
}

/// The mathematical value of a `Developer`.
pub struct DeveloperV {
    pub name: Seq<char>,
    pub avatar: Seq<char>,
    pub popular_repo: Seq<char>,
    pub description: Seq<char>,
}

impl View for Developer {
    type V = DeveloperV;

    open spec fn view(&self) -> DeveloperV {
        DeveloperV {
            name: self.name@,
            avatar: self.avatar@,
            popular_repo: self.popular_repo@,
            description: self.description@,
        }
    }
}

/// The required structural element that a failed record was missing.
#[derive(Debug, Clone, Copy, PartialEq, Eq, Structural)]
pub enum StructureIssue {
    TitleLink,
    TitleSplit,
    MetadataBlock,
    StarAnchor,
    ForkAnchor,
    PeriodSpan,
    CollaboratorImage,
    Avatar,
    Name,
}

/// Why one record's extraction failed; failures never spread to sibling
/// records.
#[derive(Debug, Clone, Copy, PartialEq, Eq, Structural)]
pub enum ExtractError {
    /// A required structural element is missing or shaped unexpectedly.
    Structure(StructureIssue),
    /// A located text value does not parse into its typed form.
    Format,
}

pub open spec fn collab_views(v: Seq<Collaborator>) -> Seq<CollaboratorV> {
    v.map_values(|x: Collaborator| x@)
}

pub open spec fn repo_views(v: Seq<Repository>) -> Seq<RepositoryV> {
    v.map_values(|x: Repository| x@)
}

pub open spec fn dev_views(v: Seq<Developer>) -> Seq<DeveloperV> {
    v.map_values(|x: Developer| x@)
}

pub open spec fn collab_result_view(r: Result<Collaborator, ExtractError>) -> Result<
    CollaboratorV,
    ExtractError,
> {
    match r {
        Ok(c) => Ok(c@),
        Err(e) => Err(e),
    }
}

pub open spec fn repo_result_view(r: Result<Repository, ExtractError>) -> Result<
    RepositoryV,
    ExtractError,
> {
    match r {
        Ok(c) => Ok(c@),
        Err(e) => Err(e),
    }
}

pub open spec fn dev_result_view(r: Result<Developer, ExtractError>) -> Result<
    DeveloperV,
    ExtractError,
> {
    match r {
        Ok(c) => Ok(c@),
        Err(e) => Err(e),
    }
}

/// One collaborator read from an anchor `a`: its single image descendant is
/// required, as are the image's `alt` (with a leading "@" stripped) and
/// `src` attributes.
pub open spec fn spec_collab(nodes: Seq<DomNode>, a: int) -> Result<CollaboratorV, ExtractError> {
    match find_tag_from(nodes, a + 1, nodes[a].end as int, "img"@) {
        None => Err(ExtractError::Structure(StructureIssue::CollaboratorImage)),
        Some(im) => match (
            attr_lookup_spec(nodes[im].attrs@, "alt"@),
            attr_lookup_spec(nodes[im].attrs@, "src"@),
        ) {
            (Some(alt), Some(src)) => Ok(CollaboratorV { name: strip_at(alt), avatar: src }),
            _ => Err(ExtractError::Structure(StructureIssue::CollaboratorImage)),
        },
    }
}

/// The collaborators of the first `k` anchors, in document order; the first
/// failing anchor fails the whole record.
pub open spec fn spec_collabs_upto(nodes: Seq<DomNode>, links: Seq<int>, k: int) -> Result<
    Seq<CollaboratorV>,
    ExtractError,
>
    decreases k,
{
    if k <= 0 || k > links.len() {
        Ok(Seq::<CollaboratorV>::empty())
    } else {
        match spec_collabs_upto(nodes, links, k - 1) {
            Err(e) => Err(e),
            Ok(s) => match spec_collab(nodes, links[k - 1]) {
                Err(e) => Err(e),
                Ok(cv) => Ok(s.push(cv)),
            },
        }
    }
}

/// The repository record of container `c`, or why it fails. The container's
/// layout is read as: optional description paragraph; required title link
/// (an anchor within the class-tagged h2) whose text splits into author and
/// name; the third div descendant as the metadata block holding the optional
/// language span and the required star and fork anchors; and the container's
/// plain spans, whose last carries the period delta and whose second-to-last
/// holds the collaborator anchors.
pub open spec fn spec_extract_repository(nodes: Seq<DomNode>, c: int, base: Seq<char>) -> Result<
    RepositoryV,
    ExtractError,
> {
    let ce = nodes[c].end as int;
    let description = (match find_tag_from(nodes, c + 1, ce, "p"@) {
        Some(p) => spec_text_of(nodes, p),
        None => Seq::<char>::empty(),
    });
    match find_tag_attr_from(nodes, c + 1, ce, "h2"@, "class"@, "h3 lh-condensed"@) {
        None => Err(ExtractError::Structure(StructureIssue::TitleLink)),
        Some(h2) => match find_tag_from(nodes, h2 + 1, nodes[h2].end as int, "a"@) {
            None => Err(ExtractError::Structure(StructureIssue::TitleLink)),
            Some(a) => match attr_lookup_spec(nodes[a].attrs@, "href"@) {
                None => Err(ExtractError::Structure(StructureIssue::TitleLink)),
                Some(href) => {
                    let link = resolved_url(base, href);
                    let title = spec_text_of(nodes, a);
                    match (first_space_from(title, 0), last_space_upto(title, title.len() as int)) {
                        (Some(fs), Some(ls)) => {
                            let author = title.take(fs);
                            let name = strip_slashes(title.skip(ls + 1));
                            let divs = collect_tag_upto(nodes, c + 1, ce, "div"@);
                            if divs.len() < 3 {
                                Err(ExtractError::Structure(StructureIssue::MetadataBlock))
                            } else {
                                let d = divs[2];
                                let de = nodes[d].end as int;
                                let language = (match find_tag_attr_from(
                                    nodes,
                                    d + 1,
                                    de,
                                    "span"@,
                                    "itemprop"@,
                                    "programmingLanguage"@,
                                ) {
                                    Some(sp) => spec_text_of(nodes, sp),
                                    None => Seq::<char>::empty(),
                                });
                                match find_tag_attr_from(
                                    nodes,
                                    d + 1,
                                    de,
                                    "a"@,
                                    "href"@,
                                    href + "/stargazers"@,
                                ) {
                                    None => Err(ExtractError::Structure(StructureIssue::StarAnchor)),
                                    Some(sa) => match parse_grouped_spec(spec_text_of(nodes, sa)) {
                                        None => Err(ExtractError::Format),
                                        Some(star_count) => match find_tag_attr_from(
                                            nodes,
                                            d + 1,
                                            de,
                                            "a"@,
                                            "href"@,
                                            href + "/forks"@,
                                        ) {
                                            None => Err(
                                                ExtractError::Structure(StructureIssue::ForkAnchor),
                                            ),
                                            Some(fa) => match parse_grouped_spec(
                                                spec_text_of(nodes, fa),
                                            ) {
                                                None => Err(ExtractError::Format),
                                                Some(forks) => {
                                                    let spans = collect_plain_spans_upto(
                                                        nodes,
                                                        c + 1,
                                                        ce,
                                                    );
                                                    if spans.len() == 0 {
                                                        Err(
                                                            ExtractError::Structure(
                                                                StructureIssue::PeriodSpan,
                                                            ),
                                                        )
                                                    } else {
                                                        let period_delta = spec_text_of(
                                                            nodes,
                                                            spans[spans.len() - 1],
                                                        );
                                                        let built = (if spans.len() >= 2 {
                                                            let s2 = spans[spans.len() - 2];
                                                            let links = collect_tag_upto(
                                                                nodes,
                                                                s2 + 1,
                                                                nodes[s2].end as int,
                                                                "a"@,
                                                            );
                                                            spec_collabs_upto(
                                                                nodes,
                                                                links,
                                                                links.len() as int,
                                                            )
                                                        } else {
                                                            Ok(Seq::<CollaboratorV>::empty())
                                                        });
                                                        match built {
                                                            Err(e) => Err(e),
                                                            Ok(built_by) => Ok(
                                                                RepositoryV {
                                                                    author,
                                                                    name,
                                                                    link,
                                                                    description,
                                                                    star_count,
                                                                    period_delta,
                                                                    forks,
                                                                    language,
                                                                    built_by,
                                                                },
                                                            ),
                                                        }
                                                    }
                                                },
                                            },
                                        },
                                    },
                                }
                            }
                        },
                        _ => Err(ExtractError::Structure(StructureIssue::TitleSplit)),
                    }
                },
            },
        },
    }
}

/// The developer record of container `c`, or why it fails. The avatar image
/// and the name heading are required; the nested detail article, its linked
/// popular repository and its second div description are all optional, and
/// their absence yields empty fields.
pub open spec fn spec_extract_developer(nodes: Seq<DomNode>, c: int, base: Seq<char>) -> Result<
    DeveloperV,
    ExtractError,
> {
    let ce = nodes[c].end as int;
    match find_tag_from(nodes, c + 1, ce, "img"@) {
        None => Err(ExtractError::Structure(StructureIssue::Avatar)),
        Some(im) => match attr_lookup_spec(nodes[im].attrs@, "src"@) {
            None => Err(ExtractError::Structure(StructureIssue::Avatar)),
            Some(avatar) => match find_tag_from(nodes, c + 1, ce, "h1"@) {
                None => Err(ExtractError::Structure(StructureIssue::Name)),
                Some(h1) => {
                    let name = spec_text_of(nodes, h1);
                    match find_tag_from(nodes, c + 1, ce, "article"@) {
                        None => Ok(
                            DeveloperV {
                                name,
                                avatar,
                                popular_repo: Seq::<char>::empty(),
                                description: Seq::<char>::empty(),
                            },
                        ),
                        Some(ar) => {
                            let are = nodes[ar].end as int;
                            let popular_repo = (match find_tag_from(nodes, ar + 1, are, "h1"@) {
                                Some(h) => match find_tag_from(
                                    nodes,
                                    h + 1,
                                    nodes[h].end as int,
                                    "a"@,
                                ) {
                                    Some(a) => match attr_lookup_spec(nodes[a].attrs@, "href"@) {
                                        Some(href) => resolved_url(base, href),
                                        None => Seq::<char>::empty(),
                                    },
                                    None => Seq::<char>::empty(),
                                },
                                None => Seq::<char>::empty(),
                            });
                            let divs = collect_tag_upto(nodes, ar + 1, are, "div"@);
                            let description = (if divs.len() >= 2 {
                                spec_text_of(nodes, divs[1])
                            } else {
                                Seq::<char>::empty()
                            });
                            Ok(DeveloperV { name, avatar, popular_repo, description })
                        },
                    }
                },
            },
        },
    }
}

fn extract_collaborator(nodes: &Vec<DomNode>, a: usize) -> (r: Result<Collaborator, ExtractError>)
    requires
        arena_wf(nodes@),
        a < nodes@.len(),
    ensures
        collab_result_view(r) == spec_collab(nodes@, a as int),
{
    proof {
        assert((a as int) < nodes@[a as int].end && nodes@[a as int].end <= nodes@.len());
    }
    let im = match find_tag(nodes, a + 1, nodes[a].end, "img") {
        Some(x) => x,
        None => {
            return Err(ExtractError::Structure(StructureIssue::CollaboratorImage));
        },
    };
    let alt = attr_lookup(&nodes[im].attrs, "alt");
    let src = attr_lookup(&nodes[im].attrs, "src");
    match (alt, src) {
        (Some(al), Some(sr)) => Ok(
            Collaborator { name: strip_at_marker(al.as_str()), avatar: sr },
        ),
        _ => Err(ExtractError::Structure(StructureIssue::CollaboratorImage)),
    }
}

/// Extracts the repository record of the container at arena index `c`,
/// resolving its link against `base`.
pub fn extract_repository(nodes: &Vec<DomNode>, c: usize, base: &str) -> (r: Result<
    Repository,
    ExtractError,
>)
    requires
        arena_wf(nodes@),
        c < nodes@.len(),
    ensures
        repo_result_view(r) == spec_extract_repository(nodes@, c as int, base@),
{
    proof {
        assert((c as int) < nodes@[c as int].end && nodes@[c as int].end <= nodes@.len());
    }
    let ce = nodes[c].end;
    let description = match find_tag(nodes, c + 1, ce, "p") {
        Some(p) => normalize_text(nodes, p),
        None => String::new(),
    };
    let h2 = match find_tag_attr(nodes, c + 1, ce, "h2", "class", "h3 lh-condensed") {
        Some(x) => x,
        None => {
            return Err(ExtractError::Structure(StructureIssue::TitleLink));
        },
    };
    proof {
        assert((h2 as int) < nodes@[h2 as int].end && nodes@[h2 as int].end <= nodes@.len());
    }
    let a = match find_tag(nodes, h2 + 1, nodes[h2].end, "a") {
        Some(x) => x,
        None => {
            return Err(ExtractError::Structure(StructureIssue::TitleLink));
        },
    };
    let href = match attr_lookup(&nodes[a].attrs, "href") {
        Some(x) => x,
        None => {
            return Err(ExtractError::Structure(StructureIssue::TitleLink));
        },
    };
    let link = resolve_url(base, href.as_str());
    let title = normalize_text(nodes, a);
    let (fs, ls) = match (first_space(title.as_str()), last_space(title.as_str())) {
        (Some(x), Some(y)) => (x, y),
        _ => {
            return Err(ExtractError::Structure(StructureIssue::TitleSplit));
        },
    };
    let tn = title.as_str().unicode_len();
    proof {
        assert(title@.subrange(0, fs as int) =~= title@.take(fs as int));
        assert(title@.subrange(fs as int + 1, tn as int) =~= title@.skip(fs as int + 1));
        assert(title@.subrange(ls as int + 1, tn as int) =~= title@.skip(ls as int + 1));
    }
    let author = title.as_str().substring_char(0, fs).to_owned();
    let name = strip_slash_prefix(title.as_str().substring_char(ls + 1, tn));
    let divs = collect_tag(nodes, c + 1, ce, "div");
    if divs.len() < 3 {
        return Err(ExtractError::Structure(StructureIssue::MetadataBlock));
    }
    let d = divs[2];
    proof {
        assert((d as int) < nodes@[d as int].end && nodes@[d as int].end <= nodes@.len());
    }
    let de = nodes[d].end;
    let language = match find_tag_attr(nodes, d + 1, de, "span", "itemprop", "programmingLanguage")
        {
        Some(sp) => normalize_text(nodes, sp),
        None => String::new(),
    };
    let mut star_sel = href.clone();
    star_sel.append("/stargazers");
    let sa = match find_tag_attr(nodes, d + 1, de, "a", "href", star_sel.as_str()) {
        Some(x) => x,
        None => {
            return Err(ExtractError::Structure(StructureIssue::StarAnchor));
        },
    };
    let star_text = normalize_text(nodes, sa);
    let star_count = match parse_grouped_integer(star_text.as_str()) {
        Some(v) => v,
        None => {
            return Err(ExtractError::Format);
        },
    };
    let mut fork_sel = href.clone();
    fork_sel.append("/forks");
    let fa = match find_tag_attr(nodes, d + 1, de, "a", "href", fork_sel.as_str()) {
        Some(x) => x,
        None => {
            return Err(ExtractError::Structure(StructureIssue::ForkAnchor));
        },
    };
    let fork_text = normalize_text(nodes, fa);
    let forks = match parse_grouped_integer(fork_text.as_str()) {
        Some(v) => v,
        None => {
            return Err(ExtractError::Format);
        },
    };
    let spans = collect_plain_spans(nodes, c + 1, ce);
    if spans.len() == 0 {
        return Err(ExtractError::Structure(StructureIssue::PeriodSpan));
    }
    let period_delta = normalize_text(nodes, spans[spans.len() - 1]);
    let mut built_by: Vec<Collaborator> = Vec::new();
    if spans.len() >= 2 {
        let s2 = spans[spans.len() - 2];
        proof {
            assert((s2 as int) < nodes@[s2 as int].end && nodes@[s2 as int].end <= nodes@.len());
        }
        let links = collect_tag(nodes, s2 + 1, nodes[s2].end, "a");
        let ghost links_s = collect_tag_upto(
            nodes@,
            s2 + 1,
            nodes@[s2 as int].end as int,
            "a"@,
        );
        let mut cerr: Option<ExtractError> = None;
        let mut k: usize = 0;
        proof {
            assert(collab_views(built_by@) =~= Seq::<CollaboratorV>::empty());
        }
        while k < links.len()
            invariant
                arena_wf(nodes@),
                k <= links@.len(),
                links@.len() == links_s.len(),
                forall|m: int|
                    0 <= m < links@.len() ==> #[trigger] links@[m] < nodes@.len() && links@[
                        m
                    ] as int == links_s[m],
                (match cerr {
                    None => spec_collabs_upto(nodes@, links_s, k as int) == Ok::<
                        Seq<CollaboratorV>,
                        ExtractError,
                    >(collab_views(built_by@)),
                    Some(e) => spec_collabs_upto(nodes@, links_s, k as int) == Err::<
                        Seq<CollaboratorV>,
                        ExtractError,
                    >(e),
                }),
            decreases links@.len() - k,
        {
            if cerr.is_none() {
                let ghost cprev = collab_views(built_by@);
                match extract_collaborator(nodes, links[k]) {
                    Ok(cv) => {
                        let ghost cvv = cv@;
                        built_by.push(cv);
                        proof {
                            assert(collab_views(built_by@) =~= cprev.push(cvv));
                        }
                    },
                    Err(e) => {
                        cerr = Some(e);
                    },
                }
            }
            k = k + 1;
        }
        match cerr {
            Some(e) => {
                return Err(e);
            },
            None => {},
        }
    } else {
        proof {
            assert(collab_views(built_by@) =~= Seq::<CollaboratorV>::empty());
        }
    }
    Ok(
        Repository {
            author,
            name,
            link,
            description,
            star_count,
            period_delta,
            forks,
            language,
            built_by,
        },
    )
}

/// Extracts the developer record of the container at arena index `c`,
/// resolving its highlighted repository against `base`.
pub fn extract_developer(nodes: &Vec<DomNode>, c: usize, base: &str) -> (r: Result<
    Developer,
    ExtractError,
>)
    requires
        arena_wf(nodes@),
        c < nodes@.len(),
    ensures
        dev_result_view(r) == spec_extract_developer(nodes@, c as int, base@),
{
    proof {
        assert((c as int) < nodes@[c as int].end && nodes@[c as int].end <= nodes@.len());
    }
    let ce = nodes[c].end;
    let im = match find_tag(nodes, c + 1, ce, "img") {
        Some(x) => x,
        None => {
            return Err(ExtractError::Structure(StructureIssue::Avatar));
        },
    };
    let avatar = match attr_lookup(&nodes[im].attrs, "src") {
        Some(x) => x,
        None => {
            return Err(ExtractError::Structure(StructureIssue::Avatar));
        },
    };
    let h1 = match find_tag(nodes, c + 1, ce, "h1") {
        Some(x) => x,
        None => {
            return Err(ExtractError::Structure(StructureIssue::Name));
        },
    };
    let name = normalize_text(nodes, h1);
    let ar = match find_tag(nodes, c + 1, ce, "article") {
        Some(x) => x,
        None => {
            return Ok(
                Developer { name, avatar, popular_repo: String::new(), description: String::new() },
            );
        },
    };
    proof {
        assert((ar as int) < nodes@[ar as int].end && nodes@[ar as int].end <= nodes@.len());
    }
    let are = nodes[ar].end;
    let popular_repo = match find_tag(nodes, ar + 1, are, "h1") {
        Some(h) => {
            proof {
                assert((h as int) < nodes@[h as int].end && nodes@[h as int].end <= nodes@.len());
            }
            match find_tag(nodes, h + 1, nodes[h].end, "a") {
                Some(a) => match attr_lookup(&nodes[a].attrs, "href") {
                    Some(href) => resolve_url(base, href.as_str()),
                    None => String::new(),
                },
                None => String::new(),
            }
        },
        None => String::new(),
    };
    let divs = collect_tag(nodes, ar + 1, are, "div");
    let description = if divs.len() >= 2 {
        normalize_text(nodes, divs[1])
    } else {
        String::new()
    };
    Ok(Developer { name, avatar, popular_repo, description })
}

/// The records and failures of the first `k` containers, under the
/// skip-and-continue policy: a failing container contributes its error and
/// nothing else, and never disturbs its siblings.
pub open spec fn spec_repo_batch_upto(
    nodes: Seq<DomNode>,
    containers: Seq<int>,
    k: int,
    base: Seq<char>,
) -> (Seq<RepositoryV>, Seq<ExtractError>)
    decreases k,
{
    if k <= 0 || k > containers.len() {
        (Seq::<RepositoryV>::empty(), Seq::<ExtractError>::empty())
    } else {
        let prev = spec_repo_batch_upto(nodes, containers, k - 1, base);
        match spec_extract_repository(nodes, containers[k - 1], base) {
            Ok(r) => (prev.0.push(r), prev.1),
            Err(e) => (prev.0, prev.1.push(e)),
        }
    }
}

/// What parsing a whole document for repositories yields: one record or one
/// error per `article` container tagged with the trending-row class, in
/// document order.
pub open spec fn spec_parse_repositories(doc: Seq<DomNode>, base: Seq<char>) -> (
    Seq<RepositoryV>,
    Seq<ExtractError>,
) {
    let cs = collect_tag_attr_upto(doc, 0, doc.len() as int, "article"@, "class"@, "Box-row"@);
    spec_repo_batch_upto(doc, cs, cs.len() as int, base)
}

/// As `spec_repo_batch_upto`, for developer containers.
pub open spec fn spec_dev_batch_upto(
    nodes: Seq<DomNode>,
    containers: Seq<int>,
    k: int,
    base: Seq<char>,
) -> (Seq<DeveloperV>, Seq<ExtractError>)
    decreases k,
{
    if k <= 0 || k > containers.len() {
        (Seq::<DeveloperV>::empty(), Seq::<ExtractError>::empty())
    } else {
        let prev = spec_dev_batch_upto(nodes, containers, k - 1, base);
        match spec_extract_developer(nodes, containers[k - 1], base) {
            Ok(r) => (prev.0.push(r), prev.1),
            Err(e) => (prev.0, prev.1.push(e)),
        }
    }
}

/// What parsing a whole document for developers yields, per `article`
/// container tagged with the trending-developer-row class.
pub open spec fn spec_parse_developers(doc: Seq<DomNode>, base: Seq<char>) -> (
    Seq<DeveloperV>,
    Seq<ExtractError>,
) {
    let cs = collect_tag_attr_upto(
        doc,
        0,
        doc.len() as int,
        "article"@,
        "class"@,
        "Box-row d-flex"@,
    );
    spec_dev_batch_upto(doc, cs, cs.len() as int, base)
}

impl Repository {
    /// Extracts every trending-repository record from the document text,
    /// resolving links against `base`. Failing containers are skipped; their
    /// errors are returned beside the extracted records.
    pub fn parse_html(content: &str, base: &str) -> (r: (Vec<Repository>, Vec<ExtractError>))
        ensures
            ({
                let s = spec_parse_repositories(dom_of(content@), base@);
                repo_views(r.0@) == s.0 && r.1@ == s.1
            }),
    {
        let nodes = parse_document(content);
        let containers = collect_tag_attr(&nodes, 0, nodes.len(), "article", "class", "Box-row");
        let ghost cs = collect_tag_attr_upto(
            nodes@,
            0,
            nodes@.len() as int,
            "article"@,
            "class"@,
            "Box-row"@,
        );
        let mut repos: Vec<Repository> = Vec::new();
        let mut errs: Vec<ExtractError> = Vec::new();
        let mut k: usize = 0;
        proof {
            assert(repo_views(repos@) =~= Seq::<RepositoryV>::empty());
        }
        while k < containers.len()
            invariant
                arena_wf(nodes@),
                nodes@ == dom_of(content@),
                k <= containers@.len(),
                containers@.len() == cs.len(),
                forall|m: int|
                    0 <= m < containers@.len() ==> #[trigger] containers@[m] < nodes@.len()
                        && containers@[m] as int == cs[m],
                spec_repo_batch_upto(nodes@, cs, k as int, base@) == (repo_views(repos@), errs@),
            decreases containers@.len() - k,
        {
            let ghost rprev = repo_views(repos@);
            match extract_repository(&nodes, containers[k], base) {
                Ok(rec) => {
                    let ghost rv = rec@;
                    repos.push(rec);
                    proof {
                        assert(repo_views(repos@) =~= rprev.push(rv));
                    }
                },
                Err(e) => {
                    errs.push(e);
                },
            }
            k = k + 1;
        }
        (repos, errs)
    }
}

impl Developer {
    /// Extracts every trending-developer record from the document text,
    /// resolving highlighted repositories against `base`. Failing containers
    /// are skipped; their errors are returned beside the extracted records.
    pub fn parse_html(content: &str, base: &str) -> (r: (Vec<Developer>, Vec<ExtractError>))
        ensures
            ({
                let s = spec_parse_developers(dom_of(content@), base@);
                dev_views(r.0@) == s.0 && r.1@ == s.1
            }),
    {
        let nodes = parse_document(content);
        let containers = collect_tag_attr(
            &nodes,
            0,
            nodes.len(),
            "article",
            "class",
            "Box-row d-flex",
        );
        let ghost cs = collect_tag_attr_upto(
            nodes@,
            0,
            nodes@.len() as int,
            "article"@,
            "class"@,
            "Box-row d-flex"@,
        );
        let mut devs: Vec<Developer> = Vec::new();
        let mut errs: Vec<ExtractError> = Vec::new();
        let mut k: usize = 0;
        proof {
            assert(dev_views(devs@) =~= Seq::<DeveloperV>::empty());
        }
        while k < containers.len()
            invariant
                arena_wf(nodes@),
                nodes@ == dom_of(content@),
                k <= containers@.len(),
                containers@.len() == cs.len(),
                forall|m: int|
                    0 <= m < containers@.len() ==> #[trigger] containers@[m] < nodes@.len()
                        && containers@[m] as int == cs[m],
                spec_dev_batch_upto(nodes@, cs, k as int, base@) == (dev_views(devs@), errs@),
            decreases containers@.len() - k,
        {
            let ghost dprev = dev_views(devs@);
            match extract_developer(&nodes, containers[k], base) {
                Ok(rec) => {
                    let ghost dv = rec@;
                    devs.push(rec);
                    proof {
                        assert(dev_views(devs@) =~= dprev.push(dv));
                    }
                },
                Err(e) => {
                    errs.push(e);
                },
            }
            k = k + 1;
        }
        (devs, errs)
    }
}

} // verus!
