use fpm_gateway::error::GatewayError;
use fpm_gateway::gateway::{backend_answer, internal_error, respond};
use fpm_gateway::response::parse_fpm_response;
use fpm_gateway::supervisor::{
    process_group_target, worker_command, worker_started, WorkerProcess,
};
use fpm_gateway::config::FpmConfig;
use fpm_gateway::transport::{transport_error, TransportFailure};

const ERRORS: [GatewayError; 9] = [
    GatewayError::SpawnError,
    GatewayError::BackendUnavailable,
    GatewayError::BackendIOError,
    GatewayError::BackendProtocolError,
    GatewayError::MalformedHeaderLine,
    GatewayError::MissingBodyBoundary,
    GatewayError::InvalidStatus,
    GatewayError::MalformedHeader,
    GatewayError::HeaderMapFull,
];

#[test]
fn every_error_is_answered_alike() {
    for error in ERRORS {
        let reply = respond(Err(error));
        assert_eq!(reply.status, 500);
        assert!(reply.headers.is_empty());
        assert!(reply.body.is_empty());
    }
}

#[test]
fn connection_failure_is_an_internal_error_without_body() {
    let reply = respond(backend_answer(Err(TransportFailure::Connect)));
    assert_eq!(reply.status, 500);
    assert!(reply.headers.is_empty());
    assert!(reply.body.is_empty());
}

#[test]
fn internal_error_is_500_and_empty() {
    let reply = internal_error();
    assert_eq!(reply.status, 500);
    assert_eq!(reply.headers.len(), 0);
    assert_eq!(reply.body, Vec::<u8>::new());
}

#[test]
fn backend_answer_is_passed_on_as_it_was_read() {
    let raw = b"Status: 201 Created\r\nLocation: /things/7\r\n\r\n{\"id\":7}".to_vec();
    let reply = respond(backend_answer(Ok(Some(raw))));
    assert_eq!(reply.status, 201);
    assert_eq!(reply.headers.len(), 1);
    assert_eq!(reply.headers.get("location").unwrap().as_bytes(), b"/things/7");
    assert_eq!(reply.body, b"{\"id\":7}".to_vec());
}

#[test]
fn respond_keeps_a_parsed_answer() {
    let parsed = parse_fpm_response(b"Status: 418\r\nX-A: b\r\n\r\nteapot").ok().unwrap();
    let reply = respond(Ok(parsed));
    assert_eq!(reply.status, 418);
    assert_eq!(reply.headers.get("x-a").unwrap().as_bytes(), b"b");
    assert_eq!(reply.body, b"teapot".to_vec());
}

#[test]
fn malformed_answer_is_an_internal_error() {
    assert_eq!(
        backend_answer(Ok(Some(b"no boundary".to_vec()))).err(),
        Some(GatewayError::MissingBodyBoundary)
    );
    assert_eq!(
        backend_answer(Ok(Some(b"broken\r\n\r\n".to_vec()))).err(),
        Some(GatewayError::MalformedHeaderLine)
    );
    assert_eq!(
        backend_answer(Ok(Some(b"Status: x\r\n\r\n".to_vec()))).err(),
        Some(GatewayError::InvalidStatus)
    );
    let reply = respond(backend_answer(Ok(Some(b"Status: x\r\n\r\nsecret".to_vec()))));
    assert_eq!(reply.status, 500);
    assert!(reply.headers.is_empty());
    assert!(reply.body.is_empty());
}

#[test]
fn exchange_without_output_is_a_protocol_error() {
    assert_eq!(backend_answer(Ok(None)).err(), Some(GatewayError::BackendProtocolError));
    assert_eq!(respond(backend_answer(Ok(None))).status, 500);
}

#[test]
fn empty_output_has_no_body_boundary() {
    assert_eq!(
        backend_answer(Ok(Some(Vec::new()))).err(),
        Some(GatewayError::MissingBodyBoundary)
    );
}

#[test]
fn failed_exchange_gives_its_error() {
    assert_eq!(
        backend_answer(Err(TransportFailure::Connect)).err(),
        Some(GatewayError::BackendUnavailable)
    );
    assert_eq!(
        backend_answer(Err(TransportFailure::Io)).err(),
        Some(GatewayError::BackendIOError)
    );
    assert_eq!(
        backend_answer(Err(TransportFailure::Overloaded)).err(),
        Some(GatewayError::BackendProtocolError)
    );
}

#[test]
fn transport_failures_are_named() {
    assert_eq!(transport_error(TransportFailure::Connect), GatewayError::BackendUnavailable);
    assert_eq!(transport_error(TransportFailure::Io), GatewayError::BackendIOError);
    for failure in [
        TransportFailure::RequestIdNotFound,
        TransportFailure::ResponseNotFound,
        TransportFailure::UnknownRequestType,
        TransportFailure::CannotMultiplex,
        TransportFailure::Overloaded,
        TransportFailure::UnknownRole,
    ] {
        assert_eq!(transport_error(failure), GatewayError::BackendProtocolError);
    }
}

#[test]
fn worker_is_started_with_its_configuration_file() {
    let config = FpmConfig::new(
        String::from("/srv/app/pub/index.php"),
        String::from("/etc/php/php-fpm.conf"),
        "127.0.0.1:9000",
    );
    let command = worker_command(&config);
    assert!(command.leads_group);
    assert_eq!(command.program, "php-fpm");
    assert_eq!(command.args, vec!["-n", "-y", "/etc/php/php-fpm.conf"]);
}

#[test]
fn process_group_is_the_negated_id() {
    assert_eq!(process_group_target(1), Some(-1));
    assert_eq!(process_group_target(4321), Some(-4321));
    assert_eq!(process_group_target(2147483647), Some(-2147483647));
}

#[test]
fn ids_that_name_no_group_have_no_target() {
    assert_eq!(process_group_target(0), None);
    assert_eq!(process_group_target(2147483648), None);
    assert_eq!(process_group_target(u32::MAX), None);
}

#[test]
fn interrupt_signals_the_group_and_exits_with_0() {
    let worker = WorkerProcess::new(4321);
    assert_eq!(worker.pid(), 4321);
    let plan = worker.shutdown();
    assert_eq!(plan.terminate_group, Some(-4321));
    assert_eq!(plan.exit_code, 0);
    let plan = WorkerProcess::new(0).shutdown();
    assert_eq!(plan.terminate_group, None);
    assert_eq!(plan.exit_code, 0);
}

#[test]
fn launched_worker_is_owned_by_its_id() {
    let worker = worker_started(Some(4321)).ok().unwrap();
    assert_eq!(worker.pid(), 4321);
    assert_eq!(worker.shutdown().terminate_group, Some(-4321));
}

#[test]
fn failed_launch_is_a_spawn_error() {
    assert_eq!(worker_started(None).err(), Some(GatewayError::SpawnError));
}
