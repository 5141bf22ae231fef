use streamlet::gateway::{
    compose_results, gateway_step, stage_cause, EngineReply, GatewayEvent, GatewayState, Stage,
};

fn expect_failed(s: GatewayState, stage: Stage) {
    match s {
        GatewayState::Failed(st) => assert_eq!(st, stage),
        _ => panic!("expected a failed gateway state"),
    }
}

#[test]
fn happy_path_composes_both_results() {
    let s = GatewayState::NeedConfig;
    let s = gateway_step(s, GatewayEvent::ConfigLoaded);
    assert!(matches!(s, GatewayState::NeedEngine));
    let s = gateway_step(s, GatewayEvent::EngineReady);
    assert!(matches!(s, GatewayState::NeedRoute));
    let s = gateway_step(
        s,
        GatewayEvent::RouteReply(EngineReply::Json(String::from("{\"route\":1}"))),
    );
    match &s {
        GatewayState::NeedMatrix(route) => assert_eq!(route, "{\"route\":1}"),
        _ => panic!("expected the gateway to wait for the matrix"),
    }
    let s = gateway_step(
        s,
        GatewayEvent::MatrixReply(EngineReply::Json(String::from("{\"matrix\":2}"))),
    );
    match s {
        GatewayState::Done(out) => assert_eq!(out, "[{\"route\":1},{\"matrix\":2}]"),
        _ => panic!("expected the gateway to be done"),
    }
}

#[test]
fn each_stage_fails_on_a_failed_step() {
    expect_failed(
        gateway_step(GatewayState::NeedConfig, GatewayEvent::StepFailed),
        Stage::ConfigLoad,
    );
    expect_failed(
        gateway_step(GatewayState::NeedEngine, GatewayEvent::StepFailed),
        Stage::EngineInit,
    );
    expect_failed(
        gateway_step(GatewayState::NeedRoute, GatewayEvent::StepFailed),
        Stage::RouteSubmission,
    );
    expect_failed(
        gateway_step(
            GatewayState::NeedMatrix(String::from("r")),
            GatewayEvent::StepFailed,
        ),
        Stage::MatrixSubmission,
    );
}

#[test]
fn unsupported_reply_shapes_fail_their_stage() {
    expect_failed(
        gateway_step(
            GatewayState::NeedRoute,
            GatewayEvent::RouteReply(EngineReply::Unsupported),
        ),
        Stage::RouteSubmission,
    );
    expect_failed(
        gateway_step(
            GatewayState::NeedMatrix(String::from("r")),
            GatewayEvent::MatrixReply(EngineReply::Unsupported),
        ),
        Stage::MatrixSubmission,
    );
}

#[test]
fn terminal_states_do_not_move() {
    let done = gateway_step(
        GatewayState::Done(String::from("x")),
        GatewayEvent::StepFailed,
    );
    match done {
        GatewayState::Done(out) => assert_eq!(out, "x"),
        _ => panic!("expected the gateway to stay done"),
    }
    expect_failed(
        gateway_step(
            GatewayState::Failed(Stage::EngineInit),
            GatewayEvent::ConfigLoaded,
        ),
        Stage::EngineInit,
    );
}

#[test]
fn compose_results_brackets_and_joins() {
    assert_eq!(compose_results("a", "b"), "[a,b]");
    assert_eq!(compose_results("", ""), "[,]");
}

#[test]
fn stage_causes_name_the_stage() {
    assert_eq!(
        stage_cause(Stage::ConfigLoad),
        "could not load the routing engine configuration"
    );
    assert_eq!(
        stage_cause(Stage::EngineInit),
        "could not create a routing engine instance"
    );
    assert_eq!(stage_cause(Stage::RouteSubmission), "route submission failed");
    assert_eq!(stage_cause(Stage::MatrixSubmission), "matrix submission failed");
}
