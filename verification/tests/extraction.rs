use trending::extract::{Developer, ExtractError, Repository, StructureIssue};

const BASE: &str = "https://github.com";

fn repo_page(inner: &str) -> String {
    format!("<html><head></head><body>{}</body></html>", inner)
}

fn minimal_repo_container() -> &'static str {
    r#"<article class="Box-row">
        <h2 class="h3 lh-condensed"><a href="/octocat/Hello-World">octocat / Hello-World</a></h2>
        <div></div>
        <div></div>
        <div>
            <span itemprop="programmingLanguage">Rust</span>
            <a href="/octocat/Hello-World/stargazers">1,234 stars today</a>
            <a href="/octocat/Hello-World/forks">56</a>
        </div>
        <span>99 stars today</span>
    </article>"#
}

#[test]
fn repo_end_to_end_minimal() {
    let html = repo_page(minimal_repo_container());
    let (repos, errs) = Repository::parse_html(&html, BASE);
    assert_eq!(errs.len(), 0);
    assert_eq!(repos.len(), 1);
    let r = &repos[0];
    assert_eq!(r.author, "octocat");
    assert_eq!(r.name, "Hello-World");
    assert_eq!(r.link, "https://github.com/octocat/Hello-World");
    assert_eq!(r.star_count, 1234);
    assert_eq!(r.forks, 56);
    assert_eq!(r.language, "Rust");
    assert_eq!(r.period_delta, "99 stars today");
    assert_eq!(r.description, "");
    assert_eq!(r.built_by.len(), 0);
}

#[test]
fn repo_description_and_split_title_runs() {
    let html = repo_page(
        r#"<article class="Box-row">
            <p> Hello <em>World</em> </p>
            <h2 class="h3 lh-condensed"><a href="/octo/Lib">octo /<span>Lib</span></a></h2>
            <div></div>
            <div></div>
            <div>
                <a href="/octo/Lib/stargazers">7</a>
                <a href="/octo/Lib/forks">3</a>
            </div>
            <span>5 stars today</span>
        </article>"#,
    );
    let (repos, errs) = Repository::parse_html(&html, BASE);
    assert_eq!(errs.len(), 0);
    assert_eq!(repos.len(), 1);
    let r = &repos[0];
    // Text runs are trimmed and joined without inserted whitespace.
    assert_eq!(r.description, "HelloWorld");
    assert_eq!(r.author, "octo");
    assert_eq!(r.name, "Lib");
    assert_eq!(r.language, "");
}

#[test]
fn repo_missing_title_link_is_error() {
    let html = repo_page(
        r#"<article class="Box-row">
            <div></div><div></div><div></div>
            <span>1 star today</span>
        </article>"#,
    );
    let (repos, errs) = Repository::parse_html(&html, BASE);
    assert_eq!(repos.len(), 0);
    assert_eq!(errs.len(), 1);
    assert_eq!(errs[0], ExtractError::Structure(StructureIssue::TitleLink));
}

#[test]
fn repo_without_period_span_fails() {
    let html = repo_page(
        r#"<article class="Box-row">
            <h2 class="h3 lh-condensed"><a href="/a/b">a / b</a></h2>
            <div></div>
            <div></div>
            <div>
                <span itemprop="programmingLanguage">C</span>
                <a href="/a/b/stargazers">10</a>
                <a href="/a/b/forks">2</a>
            </div>
        </article>"#,
    );
    let (repos, errs) = Repository::parse_html(&html, BASE);
    assert_eq!(repos.len(), 0);
    assert_eq!(errs.len(), 1);
    assert_eq!(errs[0], ExtractError::Structure(StructureIssue::PeriodSpan));
}

#[test]
fn repo_title_without_second_token_is_error() {
    let html = repo_page(
        r#"<article class="Box-row">
            <h2 class="h3 lh-condensed"><a href="/a/b">justoneword</a></h2>
            <div></div><div></div><div></div>
            <span>1 star today</span>
        </article>"#,
    );
    let (repos, errs) = Repository::parse_html(&html, BASE);
    assert_eq!(repos.len(), 0);
    assert_eq!(errs[0], ExtractError::Structure(StructureIssue::TitleSplit));
}

#[test]
fn repo_missing_metadata_block_is_error() {
    let html = repo_page(
        r#"<article class="Box-row">
            <h2 class="h3 lh-condensed"><a href="/a/b">a / b</a></h2>
            <div></div><div></div>
            <span>1 star today</span>
        </article>"#,
    );
    let (_, errs) = Repository::parse_html(&html, BASE);
    assert_eq!(errs[0], ExtractError::Structure(StructureIssue::MetadataBlock));
}

#[test]
fn repo_missing_star_anchor_is_error() {
    let html = repo_page(
        r#"<article class="Box-row">
            <h2 class="h3 lh-condensed"><a href="/a/b">a / b</a></h2>
            <div></div><div></div>
            <div><a href="/a/b/forks">2</a></div>
            <span>1 star today</span>
        </article>"#,
    );
    let (_, errs) = Repository::parse_html(&html, BASE);
    assert_eq!(errs[0], ExtractError::Structure(StructureIssue::StarAnchor));
}

#[test]
fn repo_missing_fork_anchor_is_error() {
    let html = repo_page(
        r#"<article class="Box-row">
            <h2 class="h3 lh-condensed"><a href="/a/b">a / b</a></h2>
            <div></div><div></div>
            <div><a href="/a/b/stargazers">10</a></div>
            <span>1 star today</span>
        </article>"#,
    );
    let (_, errs) = Repository::parse_html(&html, BASE);
    assert_eq!(errs[0], ExtractError::Structure(StructureIssue::ForkAnchor));
}

#[test]
fn repo_unparsable_star_count_is_format_error() {
    let html = repo_page(
        r#"<article class="Box-row">
            <h2 class="h3 lh-condensed"><a href="/a/b">a / b</a></h2>
            <div></div><div></div>
            <div>
                <a href="/a/b/stargazers">lots</a>
                <a href="/a/b/forks">2</a>
            </div>
            <span>1 star today</span>
        </article>"#,
    );
    let (repos, errs) = Repository::parse_html(&html, BASE);
    assert_eq!(repos.len(), 0);
    assert_eq!(errs[0], ExtractError::Format);
}

#[test]
fn repo_collaborators_in_document_order() {
    let html = repo_page(
        r#"<article class="Box-row">
            <h2 class="h3 lh-condensed"><a href="/a/b">a / b</a></h2>
            <div></div><div></div>
            <div>
                <a href="/a/b/stargazers">10</a>
                <a href="/a/b/forks">2</a>
            </div>
            <span>
                <a href="/alice"><img alt="@alice" src="https://avatars.example/alice.png"></a>
                <a href="/bob"><img alt="@bob" src="https://avatars.example/bob.png"></a>
            </span>
            <span>7 stars today</span>
        </article>"#,
    );
    let (repos, errs) = Repository::parse_html(&html, BASE);
    assert_eq!(errs.len(), 0);
    assert_eq!(repos.len(), 1);
    let r = &repos[0];
    assert_eq!(r.period_delta, "7 stars today");
    assert_eq!(r.built_by.len(), 2);
    assert_eq!(r.built_by[0].name, "alice");
    assert_eq!(r.built_by[0].avatar, "https://avatars.example/alice.png");
    assert_eq!(r.built_by[1].name, "bob");
    assert_eq!(r.built_by[1].avatar, "https://avatars.example/bob.png");
}

#[test]
fn repo_collaborator_without_image_is_error() {
    let html = repo_page(
        r#"<article class="Box-row">
            <h2 class="h3 lh-condensed"><a href="/a/b">a / b</a></h2>
            <div></div><div></div>
            <div>
                <a href="/a/b/stargazers">10</a>
                <a href="/a/b/forks">2</a>
            </div>
            <span><a href="/alice">no image here</a></span>
            <span>7 stars today</span>
        </article>"#,
    );
    let (repos, errs) = Repository::parse_html(&html, BASE);
    assert_eq!(repos.len(), 0);
    assert_eq!(errs[0], ExtractError::Structure(StructureIssue::CollaboratorImage));
}

#[test]
fn repo_skip_and_continue_keeps_siblings() {
    let broken = r#"<article class="Box-row"><div></div><div></div><div></div><span>x</span></article>"#;
    let html = repo_page(&format!("{}{}", broken, minimal_repo_container()));
    let (repos, errs) = Repository::parse_html(&html, BASE);
    assert_eq!(repos.len(), 1);
    assert_eq!(errs.len(), 1);
    assert_eq!(repos[0].author, "octocat");
    assert_eq!(errs[0], ExtractError::Structure(StructureIssue::TitleLink));
}

#[test]
fn developer_name_trimmed() {
    let html = repo_page(
        r#"<article class="Box-row d-flex">
            <img src="https://avatars.example/ada.png">
            <h1>  Ada Lovelace  </h1>
        </article>"#,
    );
    let (devs, errs) = Developer::parse_html(&html, BASE);
    assert_eq!(errs.len(), 0);
    assert_eq!(devs.len(), 1);
    assert_eq!(devs[0].name, "Ada Lovelace");
    assert_eq!(devs[0].avatar, "https://avatars.example/ada.png");
}

#[test]
fn developer_without_detail_article() {
    let html = repo_page(
        r#"<article class="Box-row d-flex">
            <img src="https://avatars.example/ada.png">
            <h1>Ada</h1>
        </article>"#,
    );
    let (devs, errs) = Developer::parse_html(&html, BASE);
    assert_eq!(errs.len(), 0);
    assert_eq!(devs.len(), 1);
    assert_eq!(devs[0].popular_repo, "");
    assert_eq!(devs[0].description, "");
}

#[test]
fn developer_with_detail_article() {
    let html = repo_page(
        r#"<article class="Box-row d-flex">
            <img src="https://avatars.example/ada.png">
            <h1>Ada</h1>
            <article>
                <h1><a href="/ada/engine">engine</a></h1>
                <div>icon</div>
                <div>  A fine engine  </div>
            </article>
        </article>"#,
    );
    let (devs, errs) = Developer::parse_html(&html, BASE);
    assert_eq!(errs.len(), 0);
    assert_eq!(devs.len(), 1);
    assert_eq!(devs[0].popular_repo, "https://github.com/ada/engine");
    assert_eq!(devs[0].description, "A fine engine");
}

#[test]
fn developer_missing_avatar_is_error() {
    let html = repo_page(r#"<article class="Box-row d-flex"><h1>Ada</h1></article>"#);
    let (devs, errs) = Developer::parse_html(&html, BASE);
    assert_eq!(devs.len(), 0);
    assert_eq!(errs[0], ExtractError::Structure(StructureIssue::Avatar));
}

#[test]
fn developer_missing_name_is_error() {
    let html = repo_page(
        r#"<article class="Box-row d-flex"><img src="https://a.example/x.png"></article>"#,
    );
    let (devs, errs) = Developer::parse_html(&html, BASE);
    assert_eq!(devs.len(), 0);
    assert_eq!(errs[0], ExtractError::Structure(StructureIssue::Name));
}

#[test]
fn developer_detail_without_link_leaves_popular_repo_empty() {
    let html = repo_page(
        r#"<article class="Box-row d-flex">
            <img src="https://avatars.example/ada.png">
            <h1>Ada</h1>
            <article><div>icon</div><div>text</div></article>
        </article>"#,
    );
    let (devs, errs) = Developer::parse_html(&html, BASE);
    assert_eq!(errs.len(), 0);
    assert_eq!(devs[0].popular_repo, "");
    assert_eq!(devs[0].description, "text");
}
