use mailroom::move_branch::MergeStrategy;
use mailroom::route::{Hop, HopAction, HopError, Route, RouteStatus, Stop, StopRun};

fn stop(id: &str, hops: Vec<Hop>) -> Stop {
    Stop { nest_id: id.to_string(), hops }
}

#[test]
fn a_route_runs_its_stops_in_order_to_completion() {
    let mut r = Route::new("test-dodo", vec![stop("a", vec![]), stop("b", vec![])]);
    assert_eq!(r.status, RouteStatus::NotStarted);
    assert!(r.current_stop().is_none());
    assert_eq!(r.resume(), Some(0));
    assert_eq!(r.current_stop().unwrap().nest_id, "a");
    assert_eq!(r.finish_stop(Ok(())), Some(1));
    assert_eq!(r.finish_stop(Ok(())), None);
    assert_eq!(r.status, RouteStatus::Completed);
    assert_eq!(r.resume(), None);
    assert_eq!(r.status, RouteStatus::Completed);
}

#[test]
fn a_failing_stop_marks_the_route_failed_there() {
    let mut r = Route::new("test-dodo", vec![stop("a", vec![]), stop("b", vec![])]);
    r.resume();
    r.finish_stop(Ok(()));
    assert_eq!(r.finish_stop(Err("boom".into())), None);
    assert_eq!(r.status, RouteStatus::Failed { stop_index: 1, reason: "boom".into() });
    assert_eq!(r.resume(), None);
    assert_eq!(r.status, RouteStatus::Failed { stop_index: 1, reason: "boom".into() });
}

#[test]
fn resuming_skips_completed_stops() {
    let mut r = Route::new("test-dodo", vec![stop("a", vec![]), stop("b", vec![])]);
    r.status = RouteStatus::InProgress { stop_index: 1 };
    assert_eq!(r.resume(), Some(1));
    let mut empty = Route::new("d", vec![]);
    assert_eq!(empty.resume(), None);
    assert_eq!(empty.status, RouteStatus::Completed);
}

#[test]
fn hops_run_script_then_move_then_store() {
    let s = stop(
        "52-B-cccc3333",
        vec![
            Hop::RunScript { command: "echo".into(), args: vec!["663.45".into()] },
            Hop::MoveBranch { merge_strategy: MergeStrategy::Compare },
            Hop::Store,
        ],
    );
    let mut run = StopRun::start(&s);
    match run.next_action(&s, true) {
        HopAction::RunScript { command, args } => {
            assert_eq!(command, "echo");
            assert_eq!(args, vec!["663.45".to_string()]);
        }
        _ => panic!(),
    }
    run.script_succeeded("663.45\n");
    match run.next_action(&s, true) {
        HopAction::MoveBranch { from_id, to_id, merge_strategy } => {
            assert_eq!(from_id, "52-B-cccc3333");
            assert_eq!(to_id, "663.45");
            assert_eq!(merge_strategy, MergeStrategy::Compare);
        }
        _ => panic!(),
    }
    run.moved_to("663.45");
    match run.next_action(&s, true) {
        HopAction::Store { nest_id } => assert_eq!(nest_id, "663.45"),
        _ => panic!(),
    }
    assert!(matches!(run.next_action(&s, true), HopAction::Done));
}

#[test]
fn store_hop_without_an_envelope_fails_clearly() {
    let s = stop("34.2", vec![Hop::Store]);
    let mut run = StopRun::start(&s);
    match run.next_action(&s, false) {
        HopAction::Fail(e) => {
            assert_eq!(e, HopError::NoEnvelope);
            assert_eq!(e.message(), "Store hop needs an envelope to deliver, but this Route was run with envelope: None");
        }
        _ => panic!("Store hop with no envelope must fail, not silently no-op"),
    }
}

#[test]
fn move_without_a_script_output_fails() {
    let s = stop("x", vec![Hop::MoveBranch { merge_strategy: MergeStrategy::TakeSource }]);
    let mut run = StopRun::start(&s);
    assert!(matches!(run.next_action(&s, true), HopAction::Fail(HopError::NoNewId)));
}
