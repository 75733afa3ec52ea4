use instant_replay::repeat::repeat;
use instant_replay::request::Request;
use instant_replay::request_runner::{
    base_plan, classify_exchange, push_header, ExecutionError, PrepareHttpRequest, RequestPlan,
};
use instant_replay::time_iter::repeat_for;
use instant_replay::{run_worker, total_attempts};

#[derive(Clone, Copy)]
struct NoopStep;

impl PrepareHttpRequest for NoopStep {
    fn call(&self, _req_def: &Request, plan: RequestPlan) -> RequestPlan {
        plan
    }
}

#[derive(Clone, Copy)]
struct TagStep;

impl PrepareHttpRequest for TagStep {
    fn call(&self, _req_def: &Request, mut plan: RequestPlan) -> RequestPlan {
        push_header(&mut plan, "X-Extra".to_string(), "yes".to_string());
        plan
    }
}

fn sample_request(url: &str) -> Request {
    Request {
        url: url.to_string(),
        id: "req-1".to_string(),
        user_slug: "alice".to_string(),
        access_token: "tok-abc".to_string(),
    }
}

#[test]
fn repeat_counts_up_to_its_bound() {
    let mut it = repeat(3);
    assert_eq!(it.next(), Some(0));
    assert_eq!(it.next(), Some(1));
    assert_eq!(it.next(), Some(2));
    assert_eq!(it.next(), None);
    assert_eq!(it.next(), None);
}

#[test]
fn repeat_with_no_positive_bound_yields_nothing() {
    assert_eq!(repeat(0).next(), None);
    assert_eq!(repeat(-5).next(), None);
}

#[test]
fn deadline_iterator_yields_at_least_once_for_zero_duration() {
    let mut it = repeat_for(0);
    let first = it.next();
    assert!(first.is_some());
    let mut yields: u32 = 1;
    loop {
        match it.next() {
            Some(_) => yields += 1,
            None => break,
        }
        assert!(yields < 1_000_000_000, "deadline iterator did not finish");
    }
    assert!(yields >= 1);
    assert_eq!(it.next(), None);
    assert_eq!(it.next(), None);
}

#[test]
fn total_attempts_is_the_exact_sum_of_worker_tallies() {
    assert_eq!(total_attempts(&vec![3, 4, 5]), 12);
    assert_eq!(total_attempts(&vec![0, 0, 0, 0]), 0);
    assert_eq!(total_attempts(&Vec::new()), 0);
    assert_eq!(total_attempts(&vec![usize::MAX, 1]), usize::MAX);
}

#[test]
fn more_worker_tallies_never_shrink_the_total() {
    assert!(total_attempts(&vec![3, 4]) <= total_attempts(&vec![3, 4, 5]));
    assert!(total_attempts(&vec![0]) <= total_attempts(&vec![0, 7]));
}

#[test]
fn a_worker_with_an_empty_corpus_makes_zero_attempts() {
    let corpus: Vec<Request> = Vec::new();
    let count = run_worker::<NoopStep>(&corpus, &"http://127.0.0.1:9".to_string(), 0, None);
    assert_eq!(count, Some(0));
}

#[test]
fn four_workers_with_an_empty_corpus_total_zero_attempts() {
    let corpus: Vec<Request> = Vec::new();
    let host = "http://127.0.0.1:9".to_string();
    let mut counts = Vec::new();
    let mut workers = repeat(4);
    loop {
        match workers.next() {
            Some(_) => counts.push(
                run_worker::<NoopStep>(&corpus, &host, 0, None)
                    .expect("worker runtime should build"),
            ),
            None => break,
        }
    }
    assert_eq!(counts.len(), 4);
    assert_eq!(total_attempts(&counts), 0);
}

#[test]
fn a_worker_with_a_corpus_attempts_at_least_once() {
    let corpus = vec![sample_request("/one"), sample_request("/two")];
    // Nothing listens on this port: every attempt fails fast, and failed
    // attempts still count.
    let count = run_worker::<NoopStep>(&corpus, &"http://127.0.0.1:9".to_string(), 0, None)
        .expect("worker runtime should build");
    assert!(count >= 1);
}

#[test]
fn the_base_plan_carries_the_three_builtin_headers() {
    let req = sample_request("/things/42");
    let plan = base_plan(&"http://host.example".to_string(), &req);
    assert_eq!(plan.uri, "http://host.example/things/42");
    assert_eq!(
        plan.headers,
        vec![
            ("Connection".to_string(), "close".to_string()),
            ("X-Benchmark-Request".to_string(), "true".to_string()),
            ("Authorization".to_string(), "Bearer tok-abc".to_string()),
        ]
    );
}

#[test]
fn exchange_outcomes_classify_exactly() {
    assert_eq!(classify_exchange(Ok(true)), Ok(()));
    assert_eq!(
        classify_exchange(Ok(false)),
        Err(ExecutionError::InvalidRequest)
    );
}

#[test]
fn preparation_steps_chain_in_order() {
    let req = sample_request("/x");
    let plan = base_plan(&"http://h".to_string(), &req);
    let steps = vec![TagStep, TagStep];
    let plan = steps.call(&req, plan);
    assert_eq!(plan.headers.len(), 5);
    assert_eq!(plan.headers[3], ("X-Extra".to_string(), "yes".to_string()));
    assert_eq!(plan.headers[4], ("X-Extra".to_string(), "yes".to_string()));

    let none_step: Option<TagStep> = None;
    let plan2 = none_step.call(&req, base_plan(&"http://h".to_string(), &req));
    assert_eq!(plan2.headers.len(), 3);
    let some_step = Some(TagStep);
    let plan3 = some_step.call(&req, base_plan(&"http://h".to_string(), &req));
    assert_eq!(plan3.headers.len(), 4);
}
