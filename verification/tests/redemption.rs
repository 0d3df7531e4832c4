use keysnipe::outcome::RedeemOutcome;
use keysnipe::redeem::{outcomes_for_response, transport_failure_outcomes};

#[test]
fn batch_demux_preserves_order_and_index() {
    let body = "[\
        {\"error\":{\"json\":{\"message\":\"Invalid key\"}}},\
        {\"result\":{\"data\":{\"json\":{\"status\":\"redeemed\"}}}},\
        {\"error\":{\"json\":{\"message\":\"Invalid key\"}}}]";
    let outcomes = outcomes_for_response(body, 3);
    assert_eq!(outcomes.len(), 3);
    assert_eq!(
        outcomes[0],
        RedeemOutcome::Failure("\"Invalid key\"".to_string())
    );
    assert_eq!(
        outcomes[1],
        RedeemOutcome::Success("\"redeemed\"".to_string())
    );
    assert_eq!(
        outcomes[2],
        RedeemOutcome::Failure("\"Invalid key\"".to_string())
    );
}

#[test]
fn missing_entry_reads_as_invalid_response() {
    let outcomes = outcomes_for_response("[]", 1);
    assert_eq!(outcomes.len(), 1);
    assert_eq!(
        outcomes[0],
        RedeemOutcome::Failure("Invalid Response".to_string())
    );
}

#[test]
fn error_takes_precedence_over_result() {
    let body = "[\
        {\"error\":{\"json\":{\"message\":\"Already redeemed\"}}, \
         \"result\":{\"data\":{\"json\":{\"status\":\"redeemed\"}}}}]";
    let outcomes = outcomes_for_response(body, 1);
    assert_eq!(
        outcomes[0],
        RedeemOutcome::Failure("\"Already redeemed\"".to_string())
    );
}

#[test]
fn non_string_status_is_rendered_as_json_text() {
    let body = "[{\"result\":{\"data\":{\"json\":{\"status\":7}}}}]";
    let outcomes = outcomes_for_response(body, 1);
    assert_eq!(outcomes[0], RedeemOutcome::Success("7".to_string()));
}

#[test]
fn undecodable_body_fans_out_one_transport_error_per_key() {
    let outcomes = outcomes_for_response("not json at all", 3);
    assert_eq!(outcomes.len(), 3);
    for outcome in &outcomes {
        assert!(matches!(outcome, RedeemOutcome::TransportError(_)));
        assert_eq!(outcome, &outcomes[0]);
    }
}

#[test]
fn unsent_batch_fans_out_the_same_error_to_every_key() {
    let outcomes = transport_failure_outcomes(4, "connection refused");
    assert_eq!(outcomes.len(), 4);
    for outcome in &outcomes {
        assert_eq!(
            outcome,
            &RedeemOutcome::TransportError("connection refused".to_string())
        );
    }
}

#[test]
fn empty_batch_gets_no_outcomes() {
    let outcomes = transport_failure_outcomes(0, "unreachable host");
    assert_eq!(outcomes.len(), 0);
}

#[test]
fn outcome_accessors_expose_kind_and_detail() {
    let ok = RedeemOutcome::Success("redeemed".to_string());
    let bad = RedeemOutcome::Failure("no".to_string());
    assert!(ok.is_success());
    assert!(!bad.is_success());
    assert_eq!(ok.detail(), &"redeemed".to_string());
    assert_eq!(bad.detail(), &"no".to_string());
}
