use vuelo::machine::{Action, Phase, PhaseEvent, TaskMachine};
use vuelo::orchestrator::{classify_outcome, summarize_outcomes, UnitOutcome};
use vuelo::responses::{
    classify_cart_response, classify_order_response, classify_status, extract_session_uid,
    sum_total_prices, ProductSummaryResponse,
};
use vuelo::task::{parse_product_ids, Task, TaskData};
use vuelo::Error;

#[test]
fn status_classification_follows_the_success_range() {
    assert!(classify_status(200).is_ok());
    assert!(classify_status(299).is_ok());
    assert!(matches!(
        classify_status(404),
        Err(Error::BadStatusError { status: 404, detail: None })
    ));
    assert!(matches!(
        classify_status(199),
        Err(Error::BadStatusError { status: 199, detail: None })
    ));
}

#[test]
fn cart_response_classification_covers_every_error() {
    assert!(classify_cart_response(200, Some(true)).is_ok());
    assert!(matches!(
        classify_cart_response(500, Some(true)),
        Err(Error::BadStatusError { status: 500, detail: None })
    ));
    assert!(matches!(
        classify_cart_response(200, None),
        Err(Error::MalformedResponseError)
    ));
    assert!(matches!(
        classify_cart_response(200, Some(false)),
        Err(Error::BusinessRejectionError)
    ));
}

#[test]
fn order_response_withholds_the_forbidden_body() {
    let r = classify_order_response(500, "diagnostic page".to_string(), false, None);
    match r {
        Err(Error::BadStatusError { status, detail }) => {
            assert_eq!(status, 500);
            assert_eq!(detail, Some("diagnostic page".to_string()));
        }
        other => panic!("unexpected classification: {:?}", other.is_ok()),
    }

    let r = classify_order_response(403, "challenge page".to_string(), false, None);
    match r {
        Err(Error::BadStatusError { status, detail }) => {
            assert_eq!(status, 403);
            assert_eq!(detail, None);
        }
        other => panic!("unexpected classification: {:?}", other.is_ok()),
    }
}

#[test]
fn order_response_checks_body_and_error_field() {
    assert!(matches!(
        classify_order_response(200, "not json".to_string(), false, None),
        Err(Error::MalformedResponseError)
    ));
    assert!(matches!(
        classify_order_response(200, "{}".to_string(), true, Some("rejected".to_string())),
        Err(Error::BusinessRejectionError)
    ));
    assert!(classify_order_response(200, "{}".to_string(), true, Some(String::new())).is_ok());
    assert!(classify_order_response(200, "{}".to_string(), true, None).is_ok());
}

#[test]
fn cart_totals_are_summed_exactly() {
    let items = vec![
        ProductSummaryResponse { id: 1, total_price: 500 },
        ProductSummaryResponse { id: 2, total_price: 250 },
        ProductSummaryResponse { id: 3, total_price: 50 },
    ];
    assert_eq!(sum_total_prices(&items), Some(800));
    assert_eq!(sum_total_prices(&Vec::new()), Some(0));

    let too_much = vec![
        ProductSummaryResponse { id: 1, total_price: u32::MAX },
        ProductSummaryResponse { id: 2, total_price: 1 },
    ];
    assert_eq!(sum_total_prices(&too_much), None);
}

#[test]
fn session_uid_extraction_finds_the_first_marker() {
    let body = b"<html>...session_uid=0a1b-2c3d&tab=0...".to_vec();
    assert_eq!(extract_session_uid(&body), Some(b"0a1b-2c3d".to_vec()));

    assert_eq!(extract_session_uid(b"<html>no marker here</html>"), None);

    // A marker not followed by an identifier byte does not match; the
    // next one does.
    let tricky = b"session_uid=&noise session_uid=ff00".to_vec();
    assert_eq!(extract_session_uid(&tricky), Some(b"ff00".to_vec()));

    // The identifier runs to the first byte outside its alphabet, or to
    // the end of the body.
    let end = b"x session_uid=abc123def";
    assert_eq!(extract_session_uid(end), Some(b"abc123def".to_vec()));
    let cut = b"x session_uid=abc-12&g";
    assert_eq!(extract_session_uid(cut), Some(b"abc-12".to_vec()));
}

#[test]
fn product_id_lists_parse_all_or_nothing() {
    assert_eq!(parse_product_ids(b"221;222;223"), Some(vec![221, 222, 223]));
    assert_eq!(parse_product_ids(b"223822057"), Some(vec![223822057]));
    assert_eq!(parse_product_ids(b"221;;223"), None);
    assert_eq!(parse_product_ids(b"221;abc"), None);
    assert_eq!(parse_product_ids(b""), None);
    // str::parse accepts a leading plus sign.
    assert_eq!(parse_product_ids(b"+7"), Some(vec![7]));
    // A value over the unsigned 32-bit range is rejected.
    assert_eq!(parse_product_ids(b"4294967296"), None);
    assert_eq!(parse_product_ids(b"4294967295"), Some(vec![u32::MAX]));
}

#[test]
fn default_task_data_is_the_documented_placeholder() {
    let d = TaskData::default();
    assert_eq!(d.name, "default");
    assert_eq!(d.product_ids, "221;222;223");
    assert_eq!(d.cookies, "your_cookies_here");
    assert_eq!(d.retry_delay, 2500);
    assert_eq!(d.cart_total_price_limit, 1000);
}

#[test]
fn tasks_are_built_from_records() {
    let t = Task::from_data(TaskData::default()).unwrap();
    assert_eq!(t.name, "default");
    assert_eq!(t.product_ids, vec![221, 222, 223]);
    assert_eq!(t.cart_total_price_limit, 1000);

    let bad = Task::from_data(TaskData { product_ids: "a;b".to_string(), ..TaskData::default() });
    assert!(bad.is_none());

    let t = Task::new("n".to_string(), "c=1", 100, vec![5], 42);
    assert_eq!(t.cookies, "c=1");
    let m = t.machine();
    assert_eq!(m.current_phase(), Phase::CartFill);
    assert_eq!(m.cart_total_price_limit, 42);
}

/// Run one task's machine against a bounded stub: `plan` yields the event
/// for each step; the run stops after `bound` steps or when the machine
/// finishes. Returns whether it finished.
fn run_with_stub(m: &mut TaskMachine, plan: &mut dyn FnMut(Phase, usize) -> PhaseEvent, bound: usize) -> bool {
    for step in 0..bound {
        let phase = m.current_phase();
        if phase == Phase::Done {
            return true;
        }
        let action = m.step(plan(phase, step));
        if action == Action::Finish {
            return true;
        }
    }
    false
}

#[test]
fn orchestrator_reports_each_unit_independently() {
    // Task A: every operation succeeds immediately.
    let mut a = TaskMachine::new(1000);
    let a_done = run_with_stub(
        &mut a,
        &mut |phase, _| match phase {
            Phase::SessionAcquire => PhaseEvent::SessionAcquired("a-uid".to_string()),
            Phase::PriceGate => PhaseEvent::PriceObserved(100),
            _ => PhaseEvent::PhaseSucceeded,
        },
        100,
    );
    assert!(a_done);

    // Task B: its remote stub always fails; the test harness bounds it
    // (a stand-in for the cancellation hook) instead of running forever.
    let mut b = TaskMachine::new(1000);
    let b_done = run_with_stub(&mut b, &mut |_, _| PhaseEvent::PhaseFailed, 50);
    assert!(!b_done);
    assert_eq!(b.current_phase(), Phase::CartFill);

    // Task C: succeeds after one retry in the first phase.
    let mut c = TaskMachine::new(1000);
    let c_done = run_with_stub(
        &mut c,
        &mut |phase, step| match phase {
            Phase::CartFill if step == 0 => PhaseEvent::PhaseFailed,
            Phase::SessionAcquire => PhaseEvent::SessionAcquired("c-uid".to_string()),
            Phase::PriceGate => PhaseEvent::PriceObserved(0),
            _ => PhaseEvent::PhaseSucceeded,
        },
        100,
    );
    assert!(c_done);

    // Completions arrive in any order; B's unit was cut off by the test's
    // bound, which the driver reports as a unit that did not execute to
    // completion. A and C are successes regardless of B.
    let outcomes = vec![
        classify_outcome(true, c_done),
        classify_outcome(false, false),
        classify_outcome(true, a_done),
    ];
    let summary = summarize_outcomes(&outcomes);
    assert_eq!(summary.succeeded, 2);
    assert_eq!(summary.execution_failed, 1);
    assert_eq!(summary.logic_errors, 0);
    assert_eq!(outcomes[0], UnitOutcome::Succeeded);
    assert_eq!(outcomes[1], UnitOutcome::ExecutionFailed);
}
