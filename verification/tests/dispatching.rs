use peer_review_by_ai::backend::{claude_text_from_response, open_ai_text_from_response};
use peer_review_by_ai::dispatch::{BackendError, Dispatcher, GenerationOutcome, WorkUnit};

fn units(names: &[&str]) -> Vec<WorkUnit> {
    names
        .iter()
        .map(|n| WorkUnit {
            author: n.to_string(),
            prompt: format!("prompt for {}", n),
        })
        .collect()
}

/// Drives a dispatcher to completion: launches whenever the ceiling
/// allows, otherwise settles the oldest launched unit with `respond`.
fn run_to_completion(
    mut d: Dispatcher,
    respond: impl Fn(&WorkUnit) -> Result<String, BackendError>,
) -> (Vec<GenerationOutcome>, usize) {
    let mut in_flight: Vec<WorkUnit> = Vec::new();
    let mut peak: usize = 0;
    while !d.is_done() {
        if d.can_launch() {
            let u = d.launch();
            in_flight.push(u);
        } else {
            assert!(!in_flight.is_empty(), "nothing launched but not done");
            let u = in_flight.remove(0);
            let result = respond(&u);
            d.settle(GenerationOutcome {
                author: u.author,
                result,
            });
        }
        if d.in_flight() > peak {
            peak = d.in_flight();
        }
    }
    (d.into_outcomes(), peak)
}

#[test]
fn dispatch_yields_one_outcome_per_author() {
    let names = ["a", "b", "c", "d", "e"];
    let d = Dispatcher::new(units(&names), 2);
    let (outcomes, _) = run_to_completion(d, |u| Ok(format!("text for {}", u.author)));
    assert_eq!(outcomes.len(), names.len());
    for name in names {
        let matching: Vec<_> = outcomes.iter().filter(|o| o.author == name).collect();
        assert_eq!(matching.len(), 1, "exactly one outcome per author");
        assert_eq!(
            matching[0].result,
            Ok(format!("text for {}", name)),
            "the outcome carries its own backend response"
        );
    }
}

#[test]
fn dispatch_with_empty_input_returns_no_outcomes() {
    let d = Dispatcher::new(Vec::new(), 3);
    assert!(d.is_done());
    let outcomes = d.into_outcomes();
    assert!(outcomes.is_empty());
}

#[test]
fn one_failure_never_touches_sibling_outcomes() {
    let names = ["a", "b", "c", "d"];
    let d = Dispatcher::new(units(&names), 2);
    let (outcomes, _) = run_to_completion(d, |u| {
        if u.author == "b" {
            Err(BackendError::Status(500))
        } else {
            Ok(format!("text for {}", u.author))
        }
    });
    assert_eq!(outcomes.len(), names.len());
    let failures: Vec<_> = outcomes.iter().filter(|o| o.result.is_err()).collect();
    assert_eq!(failures.len(), 1);
    assert_eq!(failures[0].author, "b");
    assert_eq!(failures[0].result, Err(BackendError::Status(500)));
    for o in &outcomes {
        if o.author != "b" {
            assert_eq!(o.result, Ok(format!("text for {}", o.author)));
        }
    }
}

#[test]
fn in_flight_units_never_exceed_the_ceiling() {
    let names = ["a", "b", "c", "d", "e", "f", "g", "h", "i", "j"];
    let d = Dispatcher::new(units(&names), 4);
    // every unit blocks until the ceiling forces a settle, so the pool
    // saturates: the peak reaches the ceiling and never passes it
    let (outcomes, peak) = run_to_completion(d, |u| Ok(u.prompt.clone()));
    assert_eq!(outcomes.len(), 10);
    assert_eq!(peak, 4);
}

#[test]
fn ceiling_larger_than_batch_means_full_parallelism() {
    let names = ["a", "b"];
    let d = Dispatcher::new(units(&names), 8);
    let (outcomes, peak) = run_to_completion(d, |_| Ok("x".to_string()));
    assert_eq!(outcomes.len(), 2);
    assert_eq!(peak, 2);
}

#[test]
fn empty_prompt_is_still_dispatched() {
    let d = Dispatcher::new(
        vec![WorkUnit {
            author: "a".to_string(),
            prompt: String::new(),
        }],
        1,
    );
    let (outcomes, _) = run_to_completion(d, |u| Ok(format!("got: {}", u.prompt)));
    assert_eq!(outcomes.len(), 1);
    assert_eq!(outcomes[0].result, Ok("got: ".to_string()));
}

#[test]
fn message_response_text_is_extracted() {
    let body = "{\"content\":[{\"text\":\"hello review\"}]}";
    assert_eq!(
        claude_text_from_response(200, body),
        Ok("hello review".to_string())
    );
}

#[test]
fn non_success_status_is_reported_with_its_code() {
    assert_eq!(
        claude_text_from_response(404, "{}"),
        Err(BackendError::Status(404))
    );
    assert_eq!(
        open_ai_text_from_response(500, "irrelevant"),
        Err(BackendError::Status(500))
    );
}

#[test]
fn malformed_body_is_distinguished_from_missing_field() {
    assert_eq!(
        claude_text_from_response(200, "not json at all"),
        Err(BackendError::MalformedResponse)
    );
    assert_eq!(
        claude_text_from_response(200, "{\"content\":[]}"),
        Err(BackendError::MissingField)
    );
    assert_eq!(
        claude_text_from_response(200, "{\"content\":[{\"text\":5}]}"),
        Err(BackendError::MissingField)
    );
}

#[test]
fn chat_response_text_is_extracted() {
    let body = "{\"choices\":[{\"message\":{\"content\":\"hi there\"}}]}";
    assert_eq!(
        open_ai_text_from_response(200, body),
        Ok("hi there".to_string())
    );
    assert_eq!(
        open_ai_text_from_response(200, "{\"choices\":[{\"message\":{}}]}"),
        Err(BackendError::MissingField)
    );
}
