use instant_replay::request::{
    attach_token, get_request_lines, parse_candidates, parse_request_ids_and_user_slugs,
    request_id_from_request_line, url_from_request_line, user_slug_for_request_id,
    user_slug_from_line, AccessTokenLoader, Candidate, ParseError, Request,
};

struct StaticResolver {
    entries: Vec<(String, String)>,
}

impl AccessTokenLoader for StaticResolver {
    fn access_token_from_user_slug(&mut self, user_slug: &String) -> Option<String> {
        for (slug, token) in self.entries.iter() {
            if slug == user_slug {
                return Some(token.clone());
            }
        }
        None
    }
}

struct NoTokens;

impl AccessTokenLoader for NoTokens {
    fn access_token_from_user_slug(&mut self, _user_slug: &String) -> Option<String> {
        None
    }
}

fn resolver(entries: &[(&str, &str)]) -> StaticResolver {
    StaticResolver {
        entries: entries
            .iter()
            .map(|(s, t)| (s.to_string(), t.to_string()))
            .collect(),
    }
}

#[test]
fn it_extracts_the_url_from_a_request_line() {
    let line = "2017-10-10T10:47:53 app[web.3]: [44bb3720] [/26/teams/x] Started GET \"/26/teams/x\" for 80.215.91.225 at 2017-10-10";
    assert_eq!(
        url_from_request_line(line),
        Some("/26/teams/x".to_string())
    );
    assert_eq!(url_from_request_line("nothing to see"), None);
}

#[test]
fn it_extracts_the_request_id() {
    let line = "app[web.3]: [44bb3720-6e34] [/26/teams/x] Started GET \"/26/teams/x\" for 1.2.3.4";
    assert_eq!(
        request_id_from_request_line(line),
        Some("44bb3720-6e34".to_string())
    );
    assert_eq!(request_id_from_request_line("no brackets here"), None);
}

#[test]
fn it_extracts_the_user_slug() {
    let line = "app[web.3]: [req-9] current_user.slug => some-user";
    assert_eq!(user_slug_from_line(line), Some("some-user".to_string()));
    assert_eq!(user_slug_from_line("app[web.3]: [req-9] something else"), None);
}

#[test]
fn it_finds_the_lines_that_are_get_requests() {
    let logs = "noise\n\
                app[web.1]: [a] Started GET \"/one\" for 1.1.1.1\n\
                other noise\n\
                app[web.1]: [b] Started GET \"/two\" for 1.1.1.1\n"
        .to_string();
    let lines = get_request_lines(&logs);
    assert_eq!(lines.len(), 2);
    assert!(lines[0].contains("/one"));
    assert!(lines[1].contains("/two"));
}

#[test]
fn it_parses_request_ids_and_user_slugs() {
    let logs = "x[y]: [id-1] current_user.slug => ann\n\
                noise\n\
                x[y]: [id-2] current_user.slug => bob\n"
        .to_string();
    let pairs = parse_request_ids_and_user_slugs(&logs).unwrap();
    assert_eq!(
        pairs,
        vec![
            ("id-1".to_string(), "ann".to_string()),
            ("id-2".to_string(), "bob".to_string()),
        ]
    );
}

#[test]
fn lookup_takes_the_later_pair_for_the_same_id() {
    let pairs = vec![
        ("id-1".to_string(), "ann".to_string()),
        ("id-1".to_string(), "bob".to_string()),
    ];
    assert_eq!(
        user_slug_for_request_id(&"id-1".to_string(), &pairs),
        Some("bob".to_string())
    );
    assert_eq!(user_slug_for_request_id(&"id-9".to_string(), &pairs), None);
}

#[test]
fn one_request_per_selector_line_in_file_order() {
    let logs = "x[y]: [id-1] current_user.slug => ann\n\
                x[y]: [id-2] current_user.slug => bob\n\
                x[y]: [id-1] Started GET \"/first\" for 1.1.1.1\n\
                x[y]: [id-2] Started GET \"/second\" for 1.1.1.1\n\
                x[y]: [id-1] Started GET \"/third\" for 1.1.1.1\n"
        .to_string();
    let reqs = Request::from_logs_file(
        &logs,
        resolver(&[("ann", "tok-a"), ("bob", "tok-b")]),
    )
    .unwrap();
    assert_eq!(reqs.len(), 3);
    assert_eq!(reqs[0].url, "/first");
    assert_eq!(reqs[1].url, "/second");
    assert_eq!(reqs[2].url, "/third");
    assert_eq!(reqs[0].user_slug, "ann");
    assert_eq!(reqs[1].user_slug, "bob");
    assert_eq!(reqs[2].access_token, "tok-a");
}

#[test]
fn a_request_line_with_no_slug_mapping_is_excluded() {
    let logs = "x[y]: [id-1] current_user.slug => ann\n\
                x[y]: [id-1] Started GET \"/kept\" for 1.1.1.1\n\
                x[y]: [id-9] Started GET \"/dropped\" for 1.1.1.1\n"
        .to_string();
    let reqs = Request::from_logs_file(&logs, resolver(&[("ann", "tok-a")])).unwrap();
    assert_eq!(reqs.len(), 1);
    assert_eq!(reqs[0].url, "/kept");
}

#[test]
fn a_slug_mapping_with_no_request_line_has_no_effect() {
    let with = "x[y]: [id-1] current_user.slug => ann\n\
                x[y]: [id-7] current_user.slug => ghost\n\
                x[y]: [id-1] Started GET \"/kept\" for 1.1.1.1\n"
        .to_string();
    let without = "x[y]: [id-1] current_user.slug => ann\n\
                   x[y]: [id-1] Started GET \"/kept\" for 1.1.1.1\n"
        .to_string();
    let r = resolver(&[("ann", "tok-a"), ("ghost", "tok-g")]);
    let r2 = resolver(&[("ann", "tok-a"), ("ghost", "tok-g")]);
    assert_eq!(
        Request::from_logs_file(&with, r).unwrap(),
        Request::from_logs_file(&without, r2).unwrap()
    );
}

#[test]
fn the_later_slug_mapping_wins() {
    let logs = "x[y]: [id-1] current_user.slug => early\n\
                x[y]: [id-1] current_user.slug => late\n\
                x[y]: [id-1] Started GET \"/page\" for 1.1.1.1\n"
        .to_string();
    let reqs = Request::from_logs_file(
        &logs,
        resolver(&[("early", "tok-e"), ("late", "tok-l")]),
    )
    .unwrap();
    assert_eq!(reqs.len(), 1);
    assert_eq!(reqs[0].user_slug, "late");
    assert_eq!(reqs[0].access_token, "tok-l");
}

#[test]
fn end_to_end_one_authenticated_request() {
    let logs = "app[web.1]: [req-1] current_user.slug => alice\n\
                app[web.1]: [req-1] Started GET \"/things/42\" for 1.2.3.4 at 2017-10-10\n"
        .to_string();
    let reqs = Request::from_logs_file(&logs, resolver(&[("alice", "tok-abc")])).unwrap();
    assert_eq!(
        reqs,
        vec![Request {
            url: "/things/42".to_string(),
            id: "req-1".to_string(),
            user_slug: "alice".to_string(),
            access_token: "tok-abc".to_string(),
        }]
    );
}

#[test]
fn end_to_end_no_token_means_empty_corpus() {
    let logs = "app[web.1]: [req-1] current_user.slug => alice\n\
                app[web.1]: [req-1] Started GET \"/things/42\" for 1.2.3.4 at 2017-10-10\n"
        .to_string();
    let reqs = Request::from_logs_file(&logs, NoTokens).unwrap();
    assert_eq!(reqs.len(), 0);
}

#[test]
fn an_empty_token_is_no_token() {
    let logs = "app[web.1]: [req-1] current_user.slug => alice\n\
                app[web.1]: [req-1] Started GET \"/things/42\" for 1.2.3.4\n"
        .to_string();
    let reqs = Request::from_logs_file(&logs, resolver(&[("alice", "")])).unwrap();
    assert_eq!(reqs.len(), 0);
}

#[test]
fn a_slug_line_without_an_id_is_fatal() {
    let logs = "current_user.slug => orphan\n".to_string();
    let err = Request::from_logs_file(&logs, NoTokens).unwrap_err();
    assert_eq!(err, ParseError::SlugLineWithoutId);
}

#[test]
fn a_request_line_without_an_id_is_fatal() {
    let logs = "x[y]: [id-1] current_user.slug => ann\n\
                Started GET \"/no-id\" for 1.1.1.1\n"
        .to_string();
    let err = Request::from_logs_file(&logs, resolver(&[("ann", "tok-a")])).unwrap_err();
    assert_eq!(err, ParseError::RequestLineWithoutId);
}

#[test]
fn candidates_join_request_lines_with_their_slugs() {
    let logs = "x[y]: [id-1] current_user.slug => ann\n\
                x[y]: [id-1] Started GET \"/kept\" for 1.1.1.1\n\
                x[y]: [id-9] Started GET \"/dropped\" for 1.1.1.1\n"
        .to_string();
    let cands = parse_candidates(&logs).unwrap();
    assert_eq!(cands.len(), 1);
    assert_eq!(cands[0].url, "/kept");
    assert_eq!(cands[0].id, "id-1");
    assert_eq!(cands[0].user_slug, "ann");
}

#[test]
fn attach_token_keeps_only_nonempty_answers() {
    let cand = Candidate {
        url: "/a".to_string(),
        id: "id-1".to_string(),
        user_slug: "ann".to_string(),
    };
    let kept = attach_token(&cand, Some("tok".to_string()));
    assert_eq!(
        kept,
        Some(Request {
            url: "/a".to_string(),
            id: "id-1".to_string(),
            user_slug: "ann".to_string(),
            access_token: "tok".to_string(),
        })
    );
    assert_eq!(attach_token(&cand, Some(String::new())), None);
    assert_eq!(attach_token(&cand, None), None);
}

#[test]
fn empty_logs_yield_an_empty_corpus() {
    let reqs = Request::from_logs_file(&String::new(), NoTokens).unwrap();
    assert_eq!(reqs.len(), 0);
}

#[test]
fn carriage_returns_before_line_feeds_are_stripped() {
    let logs = "app[web.1]: [req-1] current_user.slug => alice\r\n\
                app[web.1]: [req-1] Started GET \"/things/42\" for 1.2.3.4\r\n"
        .to_string();
    let reqs = Request::from_logs_file(&logs, resolver(&[("alice", "tok-abc")])).unwrap();
    assert_eq!(reqs.len(), 1);
    assert_eq!(reqs[0].user_slug, "alice");
}
