use opendut_core::peer_service::{
    apply_outcome, handle_stream_message, next_step, setup_cluster, ApplyOutcome, ApplyPeerConfiguration, ClusterSetup,
    Downstream, LoopStep, Message, Received, StopReason, StreamAction, PING_DELAY_SECS,
};

type Action = StreamAction<u32, u64, String>;

#[test]
fn pong_is_answered_by_a_ping_after_five_seconds() {
    let action: Action = handle_stream_message(Downstream { message: Some(Message::Pong), context: None });
    assert_eq!(action, StreamAction::SendPing { delay_secs: 5 });
    assert_eq!(PING_DELAY_SECS, 5);
}

#[test]
fn complete_configuration_is_applied_with_its_context() {
    let action: Action = handle_stream_message(Downstream {
        message: Some(Message::ApplyPeerConfiguration(ApplyPeerConfiguration {
            configuration: Some(1),
            configuration2: Some(2),
        })),
        context: Some(String::from("trace")),
    });
    assert_eq!(
        action,
        StreamAction::Apply { configuration: 1, configuration2: 2, context: Some(String::from("trace")) }
    );
}

#[test]
fn incomplete_configuration_is_ignored() {
    let request = ApplyPeerConfiguration { configuration: Some(1), configuration2: None };
    let action: Action = handle_stream_message(Downstream {
        message: Some(Message::ApplyPeerConfiguration(request.clone())),
        context: None,
    });
    assert_eq!(action, StreamAction::IgnoreIncomplete(request));
    let request = ApplyPeerConfiguration { configuration: None, configuration2: Some(2) };
    let action: Action = handle_stream_message(Downstream {
        message: Some(Message::ApplyPeerConfiguration(request.clone())),
        context: None,
    });
    assert_eq!(action, StreamAction::IgnoreIncomplete(request));
}

#[test]
fn empty_downstream_is_ignored() {
    let action: Action = handle_stream_message(Downstream { message: None, context: Some(String::from("c")) });
    assert_eq!(action, StreamAction::IgnoreEmpty { context: Some(String::from("c")) });
}

#[test]
fn cluster_setup_follows_assignment_and_setting() {
    assert_eq!(setup_cluster(Some(7u8), true), ClusterSetup::ConfigureNetworkInterfaces(7));
    assert_eq!(setup_cluster(Some(7u8), false), ClusterSetup::SkipDisabled(7));
    assert_eq!(setup_cluster(None::<u8>, true), ClusterSetup::NoAssignment);
    assert_eq!(setup_cluster(None::<u8>, false), ClusterSetup::NoAssignment);
}

#[test]
fn receive_loop_stops_only_on_disconnect_or_timeout() {
    assert_eq!(next_step(Received::<u8, String>::Message(3)), LoopStep::Handle(3));
    assert_eq!(next_step(Received::<u8, String>::Status(String::from("e"))), LoopStep::Report(String::from("e")));
    assert_eq!(next_step(Received::<u8, String>::Disconnected), LoopStep::Stop(StopReason::Disconnected));
    assert_eq!(next_step(Received::<u8, String>::TimedOut), LoopStep::Stop(StopReason::TimedOut));
}

#[test]
fn illegal_first_part_leaves_the_second_unconverted() {
    let outcome: ApplyOutcome<u8, String, u16, String> =
        apply_outcome(Err(String::from("bad")), || -> Result<u16, String> { panic!("must not be converted") });
    assert_eq!(outcome, ApplyOutcome::IllegalConfiguration(String::from("bad")));
}

#[test]
fn illegal_second_part_is_reported() {
    let outcome: ApplyOutcome<u8, String, u16, String> = apply_outcome(Ok(1), || Err(String::from("bad2")));
    assert_eq!(outcome, ApplyOutcome::IllegalConfiguration2(String::from("bad2")));
}

#[test]
fn both_parts_converted_are_set_up() {
    let outcome: ApplyOutcome<u8, String, u16, String> = apply_outcome(Ok(1), || Ok(2));
    assert_eq!(outcome, ApplyOutcome::SetUp { configuration: 1, configuration2: 2 });
}
