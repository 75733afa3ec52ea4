use vstd::prelude::*;

use crate::log_text::{
    capture_between, capture_to_end, extract_between, extract_to_end, spec_lines, split_lines,
};

verus! {

// ---------------------------------------------------------------------------
// The log correlator: join request lines, id-to-slug lines and resolved
// access tokens into a corpus of replayable requests.
// ---------------------------------------------------------------------------

/// One authenticated request reconstructed from the logs, ready to replay.
#[derive(Clone, Debug, PartialEq, Eq)]
pub struct Request {
    pub url: String,
    pub id: String,
    pub user_slug: String,
    pub access_token: String,
}

/// The mathematical value of a `Request`: its four fields as character
/// sequences.
pub struct ReqView {
    pub url: Seq<char>,
    pub id: Seq<char>,
    pub user_slug: Seq<char>,
    pub access_token: Seq<char>,
}

impl View for Request {
    type V = ReqView;

    open spec fn view(&self) -> ReqView {
        ReqView {
            url: self.url@,
            id: self.id@,
            user_slug: self.user_slug@,
            access_token: self.access_token@,
        }
    }
}

/// The values of a sequence of requests.
pub open spec fn views_of(s: Seq<Request>) -> Seq<ReqView> {
    s.map_values(|r: Request| r@)
}

/// A request line joined with its user slug, before token resolution.
pub struct CandView {
    pub url: Seq<char>,
    pub id: Seq<char>,
    pub user_slug: Seq<char>,
}

/// Resolves a user slug to an access token, or reports that none is known.
/// An external collaborator: a static table, a cache, a credential store.
pub trait AccessTokenLoader {
    fn access_token_from_user_slug(&mut self, user_slug: &String) -> Option<String>;
}

/// A line matched a selector pattern but the capture the selector implies
/// was missing: the assumptions about the log format were violated.
#[derive(Clone, Copy, Debug, PartialEq, Eq, Structural)]
pub enum ParseError {
    /// A slug-mapping line carried no bracketed request id.
    SlugLineWithoutId,
    /// A request line carried no bracketed request id.
    RequestLineWithoutId,
}

// ---------------------------------------------------------------------------
// The three line patterns.
// ---------------------------------------------------------------------------

/// The URL a request line carries: the text between `Started GET "` and the
/// closing `" for`.
pub open spec fn spec_url(line: Seq<char>) -> Option<Seq<char>> {
    capture_between(line, "Started GET \""@, "\" for"@)
}

/// The request id a line carries: the text between `]: [` and the closing
/// `] `.
pub open spec fn spec_request_id(line: Seq<char>) -> Option<Seq<char>> {
    capture_between(line, "]: ["@, "] "@)
}

/// The user slug a line carries: everything after `current_user.slug => `.
pub open spec fn spec_user_slug(line: Seq<char>) -> Option<Seq<char>> {
    capture_to_end(line, "current_user.slug => "@)
}

/// A line that starts a request.
pub open spec fn is_request_line(line: Seq<char>) -> bool {
    spec_url(line) is Some
}

/// A line that maps a request id to a user slug.
pub open spec fn is_slug_line(line: Seq<char>) -> bool {
    spec_user_slug(line) is Some
}

/// The URL of a request line.
pub fn url_from_request_line(line: &str) -> (r: Option<String>)
    ensures
        match r {
            Some(u) => spec_url(line@) == Some(u@),
            None => spec_url(line@) is None,
        },
{
    extract_between(line, "Started GET \"", "\" for")
}

/// The request id of a line.
pub fn request_id_from_request_line(line: &str) -> (r: Option<String>)
    ensures
        match r {
            Some(id) => spec_request_id(line@) == Some(id@),
            None => spec_request_id(line@) is None,
        },
{
    extract_between(line, "]: [", "] ")
}

/// The user slug of a line.
pub fn user_slug_from_line(line: &str) -> (r: Option<String>)
    ensures
        match r {
            Some(s) => spec_user_slug(line@) == Some(s@),
            None => spec_user_slug(line@) is None,
        },
{
    extract_to_end(line, "current_user.slug => ")
}

// ---------------------------------------------------------------------------
// Pass one: the id-to-slug mapping.
// ---------------------------------------------------------------------------

/// How one line changes the id-to-slug mapping: a slug-mapping line
/// overwrites the entry for its id, any other line changes nothing.
pub open spec fn slug_step(m: Map<Seq<char>, Seq<char>>, l: Seq<char>) -> Map<Seq<char>, Seq<char>> {
    if is_slug_line(l) && spec_request_id(l) is Some {
        m.insert(spec_request_id(l)->0, spec_user_slug(l)->0)
    } else {
        m
    }
}

/// The id-to-slug mapping after folding `lines` over `m`, in file order.
pub open spec fn slug_map_from(m: Map<Seq<char>, Seq<char>>, lines: Seq<Seq<char>>) -> Map<
    Seq<char>,
    Seq<char>,
>
    decreases lines.len(),
{
    if lines.len() == 0 {
        m
    } else {
        slug_map_from(slug_step(m, lines[0]), lines.drop_first())
    }
}

/// The id-to-slug mapping of a whole log: a later mapping line for the same
/// id overwrites an earlier one.
pub open spec fn slug_map(lines: Seq<Seq<char>>) -> Map<Seq<char>, Seq<char>> {
    slug_map_from(Map::empty(), lines)
}

/// Every slug-mapping line also carries a request id; without that, pass
/// one is a fatal parse error.
pub open spec fn pass1_ok(lines: Seq<Seq<char>>) -> bool {
    forall|i: int|
        0 <= i < lines.len() && is_slug_line(#[trigger] lines[i]) ==> spec_request_id(lines[i]) is Some
}

/// Folding a concatenation folds the two halves in turn.
pub proof fn lemma_slug_map_from_concat(
    m: Map<Seq<char>, Seq<char>>,
    a: Seq<Seq<char>>,
    b: Seq<Seq<char>>,
)
    ensures
        slug_map_from(m, a + b) == slug_map_from(slug_map_from(m, a), b),
    decreases a.len(),
{
    if a.len() == 0 {
        assert(a + b =~= b);
    } else {
        assert((a + b)[0] == a[0]);
        assert((a + b).drop_first() =~= a.drop_first() + b);
        lemma_slug_map_from_concat(slug_step(m, a[0]), a.drop_first(), b);
    }
}

/// Folding one more line applies one more step.
pub proof fn lemma_slug_map_from_push(
    m: Map<Seq<char>, Seq<char>>,
    lines: Seq<Seq<char>>,
    l: Seq<char>,
)
    ensures
        slug_map_from(m, lines.push(l)) == slug_step(slug_map_from(m, lines), l),
{
    assert(lines.push(l) =~= lines + seq![l]);
    lemma_slug_map_from_concat(m, lines, seq![l]);
    assert(seq![l].drop_first() =~= Seq::<Seq<char>>::empty());
    let mid = slug_map_from(m, lines);
    assert(seq![l][0] == l);
    assert(slug_map_from(mid, seq![l]) == slug_map_from(
        slug_step(mid, l),
        Seq::<Seq<char>>::empty(),
    ));
    assert(slug_map_from(slug_step(mid, l), Seq::<Seq<char>>::empty()) == slug_step(mid, l));
}

/// The id-to-slug association pairs, as an insertion-ordered list folds to a
/// map: a later pair for the same id overwrites an earlier one.
pub open spec fn assoc_map(pairs: Seq<(String, String)>) -> Map<Seq<char>, Seq<char>>
    decreases pairs.len(),
{
    if pairs.len() == 0 {
        Map::empty()
    } else {
        assoc_map(pairs.drop_last()).insert(pairs.last().0@, pairs.last().1@)
    }
}

/// Scans every line for the `current_user.slug` pattern and collects the
/// `(request id, user slug)` pairs in file order, so that they fold to the
/// id-to-slug mapping of the log. A slug-mapping line without a request id
/// is a fatal parse error.
pub fn parse_request_ids_and_user_slugs(logs: &String) -> (r: Result<
    Vec<(String, String)>,
    ParseError,
>)
    ensures
        match r {
            Ok(pairs) => pass1_ok(spec_lines(logs@)) && assoc_map(pairs@) == slug_map(
                spec_lines(logs@),
            ),
            Err(e) => e == ParseError::SlugLineWithoutId && !pass1_ok(spec_lines(logs@)),
        },
{
    let lines = split_lines(logs.as_str());
    let ghost ld = spec_lines(logs@);
    let mut pairs: Vec<(String, String)> = Vec::new();
    let mut idx: usize = 0;
    while idx < lines.len()
        invariant
            idx <= lines@.len(),
            lines@.len() == ld.len(),
            forall|i: int| 0 <= i < ld.len() ==> lines@[i]@ == ld[i],
            ld == spec_lines(logs@),
            assoc_map(pairs@) == slug_map_from(Map::empty(), ld.subrange(0, idx as int)),
            forall|i: int|
                0 <= i < idx && is_slug_line(#[trigger] ld[i]) ==> spec_request_id(ld[i]) is Some,
        decreases lines@.len() - idx,
    {
        let line = &lines[idx];
        let ghost prefix = ld.subrange(0, idx as int);
        let ghost old_pairs = pairs@;
        proof {
            lemma_slug_map_from_push(Map::empty(), prefix, ld[idx as int]);
            assert(ld.subrange(0, idx + 1) =~= prefix.push(ld[idx as int]));
        }
        match user_slug_from_line(line.as_str()) {
            Some(slug) => {
                match request_id_from_request_line(line.as_str()) {
                    Some(id) => {
                        pairs.push((id, slug));
                        proof {
                            assert(pairs@.drop_last() =~= old_pairs);
                        }
                    },
                    None => {
                        return Err(ParseError::SlugLineWithoutId);
                    },
                }
            },
            None => {},
        }
        idx += 1;
    }
    proof {
        assert(ld.subrange(0, ld.len() as int) =~= ld);
    }
    Ok(pairs)
}

/// What an id-to-slug map holds for a key, as an option.
pub open spec fn map_get(m: Map<Seq<char>, Seq<char>>, k: Seq<char>) -> Option<Seq<char>> {
    if m.contains_key(k) {
        Some(m[k])
    } else {
        None
    }
}

/// Looks a request id up in the collected pairs; the pair pushed last for
/// that id wins.
pub fn user_slug_for_request_id(id: &String, pairs: &Vec<(String, String)>) -> (r: Option<String>)
    ensures
        match r {
            Some(s) => map_get(assoc_map(pairs@), id@) == Some(s@),
            None => map_get(assoc_map(pairs@), id@) is None,
        },
{
    let mut j = pairs.len();
    proof {
        assert(pairs@.take(pairs@.len() as int) =~= pairs@);
    }
    while j > 0
        invariant
            j <= pairs@.len(),
            map_get(assoc_map(pairs@), id@) == map_get(assoc_map(pairs@.take(j as int)), id@),
        decreases j,
    {
        proof {
            assert(pairs@.take(j as int).drop_last() =~= pairs@.take(j - 1));
            assert(pairs@.take(j as int).last() == pairs@[j - 1]);
        }
        if pairs[j - 1].0.eq(id) {
            return Some(pairs[j - 1].1.clone());
        }
        j = j - 1;
    }
    None
}

// ---------------------------------------------------------------------------
// Pass two: request lines, joined with slugs and tokens.
// ---------------------------------------------------------------------------

/// Every request line also carries a request id; without that, pass two is
/// a fatal parse error.
pub open spec fn pass2_ok(lines: Seq<Seq<char>>) -> bool {
    forall|i: int|
        0 <= i < lines.len() && is_request_line(#[trigger] lines[i]) ==> spec_request_id(
            lines[i],
        ) is Some
}

/// A log whose lines satisfy the format assumptions of both passes.
pub open spec fn log_well_formed(lines: Seq<Seq<char>>) -> bool {
    pass1_ok(lines) && pass2_ok(lines)
}

/// What one line contributes to the candidate list under the id-to-slug
/// mapping `m`: a request line whose id `m` maps yields a candidate, every
/// other line yields nothing.
pub open spec fn cand_of(l: Seq<char>, m: Map<Seq<char>, Seq<char>>) -> Option<CandView> {
    if is_request_line(l) && spec_request_id(l) is Some && m.contains_key(spec_request_id(l)->0) {
        Some(
            CandView {
                url: spec_url(l)->0,
                id: spec_request_id(l)->0,
                user_slug: m[spec_request_id(l)->0],
            },
        )
    } else {
        None
    }
}

/// The candidates of `lines` under the id-to-slug mapping `m`, in file
/// order.
pub open spec fn cands_from(lines: Seq<Seq<char>>, m: Map<Seq<char>, Seq<char>>) -> Seq<CandView>
    decreases lines.len(),
{
    if lines.len() == 0 {
        Seq::empty()
    } else {
        match cand_of(lines[0], m) {
            Some(c) => seq![c] + cands_from(lines.drop_first(), m),
            None => cands_from(lines.drop_first(), m),
        }
    }
}

/// The candidates of a whole log: its request lines, in file order, each
/// joined with the slug its id maps to under the log's own id-to-slug
/// mapping; request lines with unmapped ids contribute nothing.
pub open spec fn spec_candidates(lines: Seq<Seq<char>>) -> Seq<CandView> {
    cands_from(lines, slug_map(lines))
}

/// Candidates of a concatenation are the candidates of the halves in turn.
pub proof fn lemma_cands_from_concat(
    a: Seq<Seq<char>>,
    b: Seq<Seq<char>>,
    m: Map<Seq<char>, Seq<char>>,
)
    ensures
        cands_from(a + b, m) == cands_from(a, m) + cands_from(b, m),
    decreases a.len(),
{
    if a.len() == 0 {
        assert(a + b =~= b);
        assert(cands_from(a, m) + cands_from(b, m) =~= cands_from(b, m));
    } else {
        assert((a + b)[0] == a[0]);
        assert((a + b).drop_first() =~= a.drop_first() + b);
        lemma_cands_from_concat(a.drop_first(), b, m);
        match cand_of(a[0], m) {
            Some(c) => {
                assert(seq![c] + (cands_from(a.drop_first(), m) + cands_from(b, m)) =~= (seq![c]
                    + cands_from(a.drop_first(), m)) + cands_from(b, m));
            },
            None => {},
        }
    }
}

/// One more line contributes its own candidate, if any, at the end.
pub proof fn lemma_cands_from_push(
    lines: Seq<Seq<char>>,
    l: Seq<char>,
    m: Map<Seq<char>, Seq<char>>,
)
    ensures
        cands_from(lines.push(l), m) == match cand_of(l, m) {
            Some(c) => cands_from(lines, m).push(c),
            None => cands_from(lines, m),
        },
{
    assert(lines.push(l) =~= lines + seq![l]);
    lemma_cands_from_concat(lines, seq![l], m);
    assert(seq![l].drop_first() =~= Seq::<Seq<char>>::empty());
    assert(seq![l][0] == l);
    assert(cands_from(Seq::<Seq<char>>::empty(), m) == Seq::<CandView>::empty());
    match cand_of(l, m) {
        Some(c) => {
            assert(cands_from(seq![l], m) == seq![c] + cands_from(
                Seq::<Seq<char>>::empty(),
                m,
            ));
            assert(cands_from(lines, m) + (seq![c] + Seq::<CandView>::empty())
                =~= cands_from(lines, m).push(c));
        },
        None => {
            assert(cands_from(lines, m) + Seq::<CandView>::empty() =~= cands_from(lines, m));
        },
    }
}

/// The requests that come out of a candidate list once the token resolver
/// has answered: candidate `i` yields a request exactly when answer `i` is
/// a non-empty token, and the requests keep the candidates' order.
pub open spec fn attach_all(cands: Seq<CandView>, toks: Seq<Option<Seq<char>>>) -> Seq<ReqView>
    recommends
        cands.len() == toks.len(),
    decreases cands.len(),
{
    if cands.len() == 0 {
        Seq::empty()
    } else {
        let prev = attach_all(cands.drop_last(), toks.drop_last());
        match toks.last() {
            Some(t) => if t.len() > 0 {
                prev.push(
                    ReqView {
                        url: cands.last().url,
                        id: cands.last().id,
                        user_slug: cands.last().user_slug,
                        access_token: t,
                    },
                )
            } else {
                prev
            },
            None => prev,
        }
    }
}

/// A request line joined with its user slug, before token resolution: the
/// deterministic half of the corpus.
pub struct Candidate {
    pub url: String,
    pub id: String,
    pub user_slug: String,
}

impl View for Candidate {
    type V = CandView;

    open spec fn view(&self) -> CandView {
        CandView { url: self.url@, id: self.id@, user_slug: self.user_slug@ }
    }
}

/// The values of a sequence of candidates.
pub open spec fn cand_views_of(s: Seq<Candidate>) -> Seq<CandView> {
    s.map_values(|c: Candidate| c@)
}

/// The deterministic part of the correlation: scans the log twice —
/// id-to-slug lines first, then request lines — and yields exactly the
/// log's candidates, in file order. No token is resolved yet.
pub fn parse_candidates(logs: &String) -> (r: Result<Vec<Candidate>, ParseError>)
    ensures
        match r {
            Ok(v) => log_well_formed(spec_lines(logs@)) && cand_views_of(v@) == spec_candidates(
                spec_lines(logs@),
            ),
            Err(e) => !log_well_formed(spec_lines(logs@)) && (e == ParseError::SlugLineWithoutId
                <==> !pass1_ok(spec_lines(logs@))),
        },
{
    let pairs = match parse_request_ids_and_user_slugs(logs) {
        Ok(p) => p,
        Err(e) => {
            return Err(e);
        },
    };
    let lines = split_lines(logs.as_str());
    let ghost ld = spec_lines(logs@);
    let ghost m = slug_map(ld);
    let mut out: Vec<Candidate> = Vec::new();
    let mut idx: usize = 0;
    while idx < lines.len()
        invariant
            idx <= lines@.len(),
            lines@.len() == ld.len(),
            forall|i: int| 0 <= i < ld.len() ==> lines@[i]@ == ld[i],
            ld == spec_lines(logs@),
            m == slug_map(ld),
            assoc_map(pairs@) == m,
            pass1_ok(ld),
            cand_views_of(out@) == cands_from(ld.subrange(0, idx as int), m),
            forall|i: int|
                0 <= i < idx && is_request_line(#[trigger] ld[i]) ==> spec_request_id(
                    ld[i],
                ) is Some,
        decreases lines@.len() - idx,
    {
        let ghost prefix = ld.subrange(0, idx as int);
        let ghost cur = ld[idx as int];
        proof {
            lemma_cands_from_push(prefix, cur, m);
            assert(ld.subrange(0, idx + 1) =~= prefix.push(cur));
        }
        let line = &lines[idx];
        match url_from_request_line(line.as_str()) {
            None => {},
            Some(url) => {
                match request_id_from_request_line(line.as_str()) {
                    None => {
                        proof {
                            assert(is_request_line(ld[idx as int]) && spec_request_id(
                                ld[idx as int],
                            ) is None);
                        }
                        return Err(ParseError::RequestLineWithoutId);
                    },
                    Some(id) => {
                        match user_slug_for_request_id(&id, &pairs) {
                            None => {},
                            Some(user_slug) => {
                                let ghost old_out = out@;
                                out.push(Candidate { url, id, user_slug });
                                proof {
                                    assert(cand_views_of(out@) =~= cand_views_of(old_out).push(
                                        out@.last()@,
                                    ));
                                }
                            },
                        }
                    },
                }
            },
        }
        idx += 1;
    }
    proof {
        assert(ld.subrange(0, ld.len() as int) =~= ld);
    }
    Ok(out)
}

/// The decision one resolver answer settles: a non-empty token turns the
/// candidate into a request carrying exactly the candidate's fields and
/// that token; no token, or an empty one, drops the candidate.
pub fn attach_token(cand: &Candidate, token: Option<String>) -> (r: Option<Request>)
    ensures
        match token {
            Some(t) => if t@.len() > 0 {
                r matches Some(req) && req@ == (ReqView {
                    url: cand@.url,
                    id: cand@.id,
                    user_slug: cand@.user_slug,
                    access_token: t@,
                })
            } else {
                r is None
            },
            None => r is None,
        },
{
    match token {
        Some(t) => {
            if t.as_str().unicode_len() > 0 {
                Some(
                    Request {
                        url: cand.url.clone(),
                        id: cand.id.clone(),
                        user_slug: cand.user_slug.clone(),
                        access_token: t,
                    },
                )
            } else {
                None
            }
        },
        None => None,
    }
}

/// Scans the log twice — id-to-slug lines first, then request lines — and
/// yields the corpus: one request per request line whose id has a slug and
/// whose slug the resolver answers with a non-empty token, in file order.
/// The candidates are `parse_candidates`' and each keep-or-drop decision is
/// `attach_token`'s; what cannot be pinned down here is only which answers
/// the resolver gave.
pub fn parse_requests<T: AccessTokenLoader>(logs: &String, access_token_loader: T) -> (r: Result<
    Vec<Request>,
    ParseError,
>)
    ensures
        match r {
            Ok(v) => log_well_formed(spec_lines(logs@)) && (exists|toks: Seq<Option<Seq<char>>>|
                toks.len() == spec_candidates(spec_lines(logs@)).len() && views_of(v@)
                    == attach_all(spec_candidates(spec_lines(logs@)), toks)),
            Err(e) => !log_well_formed(spec_lines(logs@)) && (e == ParseError::SlugLineWithoutId
                <==> !pass1_ok(spec_lines(logs@))),
        },
{
    let mut loader = access_token_loader;
    let cands = match parse_candidates(logs) {
        Ok(c) => c,
        Err(e) => {
            return Err(e);
        },
    };
    let ghost cv = cand_views_of(cands@);
    let mut out: Vec<Request> = Vec::new();
    let ghost mut toks: Seq<Option<Seq<char>>> = Seq::empty();
    let mut i: usize = 0;
    proof {
        assert(cv.take(0) =~= Seq::<CandView>::empty());
    }
    while i < cands.len()
        invariant
            i <= cands@.len(),
            toks.len() == i,
            cv == cand_views_of(cands@),
            cv == spec_candidates(spec_lines(logs@)),
            log_well_formed(spec_lines(logs@)),
            views_of(out@) == attach_all(cv.take(i as int), toks),
        decreases cands@.len() - i,
    {
        let token = loader.access_token_from_user_slug(&cands[i].user_slug);
        let ghost tokv: Option<Seq<char>> = if token is Some {
            Some(token->0@)
        } else {
            None
        };
        let ghost old_toks = toks;
        let ghost old_out = out@;
        proof {
            toks = toks.push(tokv);
            assert(cv.take(i + 1).drop_last() =~= cv.take(i as int));
            assert(toks.drop_last() =~= old_toks);
            assert(cv.take(i + 1).last() == cv[i as int]);
            assert(cv[i as int] == cands@[i as int]@);
        }
        match attach_token(&cands[i], token) {
            Some(req) => {
                out.push(req);
                proof {
                    assert(views_of(out@) =~= views_of(old_out).push(out@.last()@));
                }
            },
            None => {},
        }
        i += 1;
    }
    proof {
        assert(cv.take(cands@.len() as int) =~= cv);
    }
    Ok(out)
}

impl Request {
    /// Builds the replay corpus from raw log text and a token resolver.
    pub fn from_logs_file<T: AccessTokenLoader>(logs: &String, access_token_loader: T) -> (r:
        Result<Vec<Request>, ParseError>)
        ensures
            match r {
                Ok(v) => log_well_formed(spec_lines(logs@)) && (exists|
                    toks: Seq<Option<Seq<char>>>,
                |
                    toks.len() == spec_candidates(spec_lines(logs@)).len() && views_of(v@)
                        == attach_all(spec_candidates(spec_lines(logs@)), toks)),
                Err(e) => !log_well_formed(spec_lines(logs@)) && (e
                    == ParseError::SlugLineWithoutId <==> !pass1_ok(spec_lines(logs@))),
            },
    {
        parse_requests(logs, access_token_loader)
    }
}

/// The lines of the log that start a request, in file order.
pub fn get_request_lines(logs: &String) -> (r: Vec<String>)
    ensures
        ({
            let sel = spec_lines(logs@).filter(|l: Seq<char>| is_request_line(l));
            r@.len() == sel.len() && (forall|i: int| 0 <= i < r@.len() ==> r@[i]@ == sel[i])
        }),
{
    let lines = split_lines(logs.as_str());
    let ghost ld = spec_lines(logs@);
    let ghost pred = |l: Seq<char>| is_request_line(l);
    let mut r: Vec<String> = Vec::new();
    let mut idx: usize = 0;
    proof {
        reveal(Seq::filter);
        assert(ld.subrange(0, 0) =~= Seq::<Seq<char>>::empty());
    }
    while idx < lines.len()
        invariant
            idx <= lines@.len(),
            lines@.len() == ld.len(),
            forall|i: int| 0 <= i < ld.len() ==> lines@[i]@ == ld[i],
            ld == spec_lines(logs@),
            ({
                let sel = ld.subrange(0, idx as int).filter(pred);
                r@.len() == sel.len() && (forall|i: int| 0 <= i < r@.len() ==> r@[i]@ == sel[i])
            }),
            pred == (|l: Seq<char>| is_request_line(l)),
        decreases lines@.len() - idx,
    {
        let ghost prefix = ld.subrange(0, idx as int);
        proof {
            reveal(Seq::filter);
            assert(ld.subrange(0, idx + 1) =~= prefix.push(ld[idx as int]));
            assert(prefix.push(ld[idx as int]).drop_last() =~= prefix);
        }
        let line = &lines[idx];
        let is_match = match url_from_request_line(line.as_str()) {
            Some(_) => true,
            None => false,
        };
        if is_match {
            r.push(line.clone());
        }
        idx += 1;
    }
    proof {
        assert(ld.subrange(0, ld.len() as int) =~= ld);
    }
    r
}

// ---------------------------------------------------------------------------
// Laws of the correlator.
// ---------------------------------------------------------------------------

/// Folding lines over maps that agree on a key keeps them agreeing on it.
proof fn lemma_slug_map_from_agree(
    m1: Map<Seq<char>, Seq<char>>,
    m2: Map<Seq<char>, Seq<char>>,
    lines: Seq<Seq<char>>,
    k: Seq<char>,
)
    requires
        map_get(m1, k) == map_get(m2, k),
    ensures
        map_get(slug_map_from(m1, lines), k) == map_get(slug_map_from(m2, lines), k),
    decreases lines.len(),
{
    if lines.len() > 0 {
        lemma_slug_map_from_agree(
            slug_step(m1, lines[0]),
            slug_step(m2, lines[0]),
            lines.drop_first(),
            k,
        );
    }
}

/// Lines none of which maps `k` leave the mapping at `k` alone.
proof fn lemma_slug_map_from_stable(
    m: Map<Seq<char>, Seq<char>>,
    lines: Seq<Seq<char>>,
    k: Seq<char>,
)
    requires
        forall|t: int|
            0 <= t < lines.len() && is_slug_line(#[trigger] lines[t]) && spec_request_id(
                lines[t],
            ) is Some ==> spec_request_id(lines[t])->0 != k,
    ensures
        map_get(slug_map_from(m, lines), k) == map_get(m, k),
    decreases lines.len(),
{
    if lines.len() > 0 {
        assert(forall|t: int|
            0 <= t < lines.drop_first().len() && is_slug_line(#[trigger] lines.drop_first()[t])
                && spec_request_id(lines.drop_first()[t]) is Some ==> spec_request_id(
                lines.drop_first()[t],
            )->0 != k);
        lemma_slug_map_from_stable(slug_step(m, lines[0]), lines.drop_first(), k);
    }
}

/// A key of the folded mapping was a key already, or some slug-mapping line
/// put it there.
proof fn lemma_slug_map_keys(m: Map<Seq<char>, Seq<char>>, lines: Seq<Seq<char>>, k: Seq<char>)
    requires
        slug_map_from(m, lines).contains_key(k),
    ensures
        m.contains_key(k) || exists|j: int|
            0 <= j < lines.len() && is_slug_line(#[trigger] lines[j]) && spec_request_id(
                lines[j],
            ) == Some(k),
    decreases lines.len(),
{
    if lines.len() > 0 {
        lemma_slug_map_keys(slug_step(m, lines[0]), lines.drop_first(), k);
        if !slug_step(m, lines[0]).contains_key(k) {
            let j0 = choose|j: int|
                0 <= j < lines.drop_first().len() && is_slug_line(
                    #[trigger] lines.drop_first()[j],
                ) && spec_request_id(lines.drop_first()[j]) == Some(k);
            assert(lines[j0 + 1] == lines.drop_first()[j0]);
        } else if !m.contains_key(k) {
            assert(is_slug_line(lines[0]) && spec_request_id(lines[0]) == Some(k));
        }
    }
}

/// Candidates consult the mapping only at the ids of request lines, so maps
/// that agree there give the same candidates.
proof fn lemma_cands_from_agree(
    lines: Seq<Seq<char>>,
    m1: Map<Seq<char>, Seq<char>>,
    m2: Map<Seq<char>, Seq<char>>,
)
    requires
        forall|i: int|
            0 <= i < lines.len() && is_request_line(#[trigger] lines[i]) && spec_request_id(
                lines[i],
            ) is Some ==> map_get(m1, spec_request_id(lines[i])->0) == map_get(
                m2,
                spec_request_id(lines[i])->0,
            ),
    ensures
        cands_from(lines, m1) == cands_from(lines, m2),
    decreases lines.len(),
{
    if lines.len() > 0 {
        assert(forall|i: int|
            0 <= i < lines.drop_first().len() && is_request_line(#[trigger] lines.drop_first()[i])
                && spec_request_id(lines.drop_first()[i]) is Some ==> map_get(
                m1,
                spec_request_id(lines.drop_first()[i])->0,
            ) == map_get(m2, spec_request_id(lines.drop_first()[i])->0));
        lemma_cands_from_agree(lines.drop_first(), m1, m2);
        assert(cand_of(lines[0], m1) == cand_of(lines[0], m2));
    }
}

/// Every candidate's id is a key of the mapping used.
proof fn lemma_cands_ids_mapped(lines: Seq<Seq<char>>, m: Map<Seq<char>, Seq<char>>)
    ensures
        forall|i: int|
            0 <= i < cands_from(lines, m).len() ==> m.contains_key(
                #[trigger] cands_from(lines, m)[i].id,
            ),
    decreases lines.len(),
{
    if lines.len() > 0 {
        lemma_cands_ids_mapped(lines.drop_first(), m);
        match cand_of(lines[0], m) {
            Some(c) => {
                assert(forall|i: int|
                    1 <= i < cands_from(lines, m).len() ==> cands_from(lines, m)[i]
                        == cands_from(lines.drop_first(), m)[i - 1]);
            },
            None => {},
        }
    }
}

/// Law: a request line whose id no slug-mapping line carries is excluded
/// from the corpus — no candidate, and so no request, holds that id.
pub proof fn lemma_unmapped_request_id_excluded(lines: Seq<Seq<char>>, id: Seq<char>)
    requires
        forall|j: int|
            0 <= j < lines.len() && is_slug_line(#[trigger] lines[j]) && spec_request_id(
                lines[j],
            ) is Some ==> spec_request_id(lines[j])->0 != id,
    ensures
        forall|i: int|
            0 <= i < spec_candidates(lines).len() ==> (#[trigger] spec_candidates(
                lines,
            )[i]).id != id,
{
    let m = slug_map(lines);
    lemma_cands_ids_mapped(lines, m);
    if m.contains_key(id) {
        lemma_slug_map_keys(Map::empty(), lines, id);
    }
}

/// Law: a slug-mapping line whose id starts no request anywhere in the log
/// has no observable effect: the candidates with it are the candidates
/// without it.
pub proof fn lemma_inert_slug_line(a: Seq<Seq<char>>, l: Seq<char>, b: Seq<Seq<char>>)
    requires
        !is_request_line(l),
        forall|j: int|
            0 <= j < (a + b).len() && is_request_line(#[trigger] (a + b)[j]) && spec_request_id(
                (a + b)[j],
            ) is Some ==> spec_request_id((a + b)[j])->0 != spec_request_id(l)->0,
    ensures
        spec_candidates(a + seq![l] + b) == spec_candidates(a + b),
{
    let with = a + seq![l] + b;
    let without = a + b;
    let m1 = slug_map(with);
    let m2 = slug_map(without);
    let ma = slug_map_from(Map::empty(), a);

    lemma_slug_map_from_concat(Map::empty(), a + seq![l], b);
    assert((a + seq![l]) + b =~= with);
    assert(a + seq![l] =~= a.push(l));
    lemma_slug_map_from_push(Map::empty(), a, l);
    lemma_slug_map_from_concat(Map::empty(), a, b);
    // m1 folds b over `slug_step(ma, l)`, m2 folds b over `ma`; the step
    // touches the mapping, if at all, only at l's own id.
    assert(m1 == slug_map_from(slug_step(ma, l), b));
    assert(m2 == slug_map_from(ma, b));
    assert forall|k: Seq<char>| k != spec_request_id(l)->0 implies map_get(m1, k) == map_get(
        m2,
        k,
    ) by {
        assert(map_get(slug_step(ma, l), k) == map_get(ma, k));
        lemma_slug_map_from_agree(slug_step(ma, l), ma, b, k);
    }
    // Candidates never consult the mapping at l's id.
    assert forall|i: int|
        0 <= i < without.len() && is_request_line(#[trigger] without[i]) && spec_request_id(
            without[i],
        ) is Some implies map_get(m1, spec_request_id(without[i])->0) == map_get(
        m2,
        spec_request_id(without[i])->0,
    ) by {}
    lemma_cands_from_agree(without, m1, m2);
    // With the same mapping, the inserted line itself contributes nothing.
    lemma_cands_from_concat(a + seq![l], b, m1);
    lemma_cands_from_concat(a, seq![l], m1);
    lemma_cands_from_concat(a, b, m1);
    assert(cands_from(seq![l], m1) =~= Seq::<CandView>::empty()) by {
        assert(seq![l] =~= Seq::<Seq<char>>::empty().push(l));
        lemma_cands_from_push(Seq::<Seq<char>>::empty(), l, m1);
        assert(cand_of(l, m1) is None);
        assert(cands_from(Seq::<Seq<char>>::empty(), m1) == Seq::<CandView>::empty());
    };
    assert(cands_from(with, m1) == cands_from(a, m1) + cands_from(b, m1)) by {
        assert((cands_from(a, m1) + Seq::<CandView>::empty()) =~= cands_from(a, m1));
    };
}

/// Law: the slug-mapping line a given id got last is the one that counts:
/// whatever earlier lines mapped the id to, the mapping of the whole log
/// holds the slug of the last mapping line for that id.
pub proof fn lemma_later_slug_mapping_wins(lines: Seq<Seq<char>>, j: int)
    requires
        0 <= j < lines.len(),
        is_slug_line(lines[j]),
        spec_request_id(lines[j]) is Some,
        forall|t: int|
            j < t < lines.len() && is_slug_line(#[trigger] lines[t]) && spec_request_id(
                lines[t],
            ) is Some ==> spec_request_id(lines[t])->0 != spec_request_id(lines[j])->0,
    ensures
        map_get(slug_map(lines), spec_request_id(lines[j])->0) == Some(
            spec_user_slug(lines[j])->0,
        ),
{
    let k = spec_request_id(lines[j])->0;
    let pre = lines.subrange(0, j);
    let post = lines.subrange(j + 1, lines.len() as int);
    assert(lines =~= pre + seq![lines[j]] + post);
    let mpre = slug_map_from(Map::empty(), pre);
    lemma_slug_map_from_concat(Map::empty(), pre + seq![lines[j]], post);
    assert(pre + seq![lines[j]] =~= pre.push(lines[j]));
    lemma_slug_map_from_push(Map::empty(), pre, lines[j]);
    assert((pre + seq![lines[j]]) + post =~= lines);
    assert(map_get(slug_step(mpre, lines[j]), k) == Some(spec_user_slug(lines[j])->0));
    assert(forall|t: int|
        0 <= t < post.len() && is_slug_line(#[trigger] post[t]) && spec_request_id(
            post[t],
        ) is Some ==> spec_request_id(post[t])->0 != k) by {
        assert(forall|t: int| 0 <= t < post.len() ==> post[t] == lines[j + 1 + t]);
    };
    lemma_slug_map_from_stable(slug_step(mpre, lines[j]), post, k);
}

/// Law: every request the corpus ever holds carries a non-empty access
/// token — a request is only built from a candidate joined with a
/// non-empty resolver answer; candidates missing either are dropped.
pub proof fn lemma_corpus_tokens_nonempty(cands: Seq<CandView>, toks: Seq<Option<Seq<char>>>)
    ensures
        forall|i: int|
            0 <= i < attach_all(cands, toks).len() ==> (#[trigger] attach_all(
                cands,
                toks,
            )[i]).access_token.len() > 0,
    decreases cands.len(),
{
    if cands.len() > 0 {
        lemma_corpus_tokens_nonempty(cands.drop_last(), toks.drop_last());
        let prev = attach_all(cands.drop_last(), toks.drop_last());
        let cur = attach_all(cands, toks);
        assert forall|i: int| 0 <= i < cur.len() implies (#[trigger] cur[i]).access_token.len()
            > 0 by {
            if i < prev.len() {
                assert(cur[i] == prev[i]);
            }
        }
    }
}

/// Requests come out one per candidate when every token answer is a
/// non-empty token, keeping order and fields.
pub proof fn lemma_attach_all_resolved(cands: Seq<CandView>, toks: Seq<Option<Seq<char>>>)
    requires
        toks.len() == cands.len(),
        forall|i: int| 0 <= i < toks.len() ==> (#[trigger] toks[i]) is Some && toks[i]->0.len() > 0,
    ensures
        attach_all(cands, toks).len() == cands.len(),
        forall|i: int|
            0 <= i < cands.len() ==> #[trigger] attach_all(cands, toks)[i] == (ReqView {
                url: cands[i].url,
                id: cands[i].id,
                user_slug: cands[i].user_slug,
                access_token: toks[i]->0,
            }),
    decreases cands.len(),
{
    if cands.len() > 0 {
        lemma_attach_all_resolved(cands.drop_last(), toks.drop_last());
    }
}

/// The number of request lines of a log.
pub open spec fn request_line_count(lines: Seq<Seq<char>>) -> nat {
    lines.filter(|l: Seq<char>| is_request_line(l)).len()
}

/// Every element of a filtered sequence is an element of the sequence.
proof fn lemma_filter_elems(s: Seq<Seq<char>>, pred: spec_fn(Seq<char>) -> bool)
    ensures
        forall|i: int|
            0 <= i < s.filter(pred).len() ==> s.contains(#[trigger] s.filter(pred)[i]),
    decreases s.len(),
{
    reveal(Seq::filter);
    if s.len() > 0 {
        let x = s.drop_last();
        lemma_filter_elems(x, pred);
        assert(forall|j: int| 0 <= j < x.len() ==> s[j] == x[j]);
        assert(forall|y: Seq<char>| x.contains(y) ==> s.contains(y));
        assert(s.contains(s.last()));
        assert(forall|i: int|
            0 <= i < x.filter(pred).len() ==> #[trigger] s.filter(pred)[i] == x.filter(pred)[i]);
    }
}

/// Law: in a log whose every request line carries an id that some
/// slug-mapping line maps, every request line becomes a candidate: the
/// candidates are exactly the request lines, in file order, each joined
/// with the slug its id maps to.
pub proof fn lemma_all_mapped_lines_become_candidates(
    lines: Seq<Seq<char>>,
    m: Map<Seq<char>, Seq<char>>,
)
    requires
        forall|i: int|
            0 <= i < lines.len() && is_request_line(#[trigger] lines[i]) ==> spec_request_id(
                lines[i],
            ) is Some && m.contains_key(spec_request_id(lines[i])->0),
    ensures
        cands_from(lines, m) == lines.filter(|l: Seq<char>| is_request_line(l)).map_values(
            |l: Seq<char>| cand_of(l, m)->0,
        ),
    decreases lines.len(),
{
    reveal(Seq::filter);
    let pred = |l: Seq<char>| is_request_line(l);
    let f = |l: Seq<char>| cand_of(l, m)->0;
    if lines.len() == 0 {
        assert(lines.filter(pred) =~= Seq::<Seq<char>>::empty());
        assert(lines.filter(pred).map_values(f) =~= Seq::<CandView>::empty());
        assert(cands_from(lines, m) =~= Seq::<CandView>::empty());
    } else {
        let x = lines.drop_last();
        let l = lines.last();
        assert(lines =~= x.push(l));
        assert(forall|i: int| 0 <= i < x.len() ==> x[i] == lines[i]);
        lemma_all_mapped_lines_become_candidates(x, m);
        lemma_cands_from_push(x, l, m);
        assert(x.push(l).drop_last() =~= x);
        if pred(l) {
            assert(cand_of(l, m) is Some);
            assert(lines.filter(pred) == x.filter(pred).push(l));
            assert(x.filter(pred).push(l).map_values(f) =~= x.filter(pred).map_values(f).push(
                f(l),
            ));
        } else {
            assert(cand_of(l, m) is None);
            assert(lines.filter(pred) == x.filter(pred));
        }
    }
}

/// Law: for a log with `k` request lines, each carrying a mapped id, and a
/// resolver run that answers every candidate with a non-empty token, the
/// corpus holds exactly `k` requests, in file order: request `i` carries
/// the URL and id of the `i`-th request line, the slug its id maps to, and
/// the token the resolver answered for it.
pub proof fn lemma_every_request_line_replayed(lines: Seq<Seq<char>>, toks: Seq<Option<Seq<char>>>)
    requires
        forall|i: int|
            0 <= i < lines.len() && is_request_line(#[trigger] lines[i]) ==> spec_request_id(
                lines[i],
            ) is Some && slug_map(lines).contains_key(spec_request_id(lines[i])->0),
        toks.len() == spec_candidates(lines).len(),
        forall|i: int| 0 <= i < toks.len() ==> (#[trigger] toks[i]) is Some && toks[i]->0.len() > 0,
    ensures
        attach_all(spec_candidates(lines), toks).len() == request_line_count(lines),
        forall|i: int|
            0 <= i < request_line_count(lines) ==> {
                let sel = lines.filter(|l: Seq<char>| is_request_line(l));
                #[trigger] attach_all(spec_candidates(lines), toks)[i] == (ReqView {
                    url: spec_url(sel[i])->0,
                    id: spec_request_id(sel[i])->0,
                    user_slug: slug_map(lines)[spec_request_id(sel[i])->0],
                    access_token: toks[i]->0,
                })
            },
{
    let m = slug_map(lines);
    let pred = |l: Seq<char>| is_request_line(l);
    let f = |l: Seq<char>| cand_of(l, m)->0;
    let sel = lines.filter(pred);
    lemma_all_mapped_lines_become_candidates(lines, m);
    lemma_attach_all_resolved(spec_candidates(lines), toks);
    lemma_filter_elems(lines, pred);
    assert forall|i: int| 0 <= i < request_line_count(lines) implies #[trigger] attach_all(
        spec_candidates(lines),
        toks,
    )[i] == (ReqView {
        url: spec_url(sel[i])->0,
        id: spec_request_id(sel[i])->0,
        user_slug: m[spec_request_id(sel[i])->0],
        access_token: toks[i]->0,
    }) by {
        broadcast use vstd::seq_lib::group_filter_ensures;

        assert(lines.contains(sel[i]));
        let j = choose|j: int| 0 <= j < lines.len() && lines[j] == sel[i];
        assert(is_request_line(lines[j]));
        assert(spec_request_id(sel[i]) is Some && m.contains_key(spec_request_id(sel[i])->0));
        assert(cand_of(sel[i], m) is Some);
        assert(spec_candidates(lines)[i] == sel.map_values(f)[i]);
        assert(sel.map_values(f)[i] == f(sel[i]));
    }
}

} // verus!
