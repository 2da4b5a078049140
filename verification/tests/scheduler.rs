use llm_gateway::config::config::{Config, FileEstimates, ModelConfig};
use llm_gateway::model::Model;
use llm_gateway::services::backend_server_manager::{
    Acquisition, Action, BackendServerManager, EstimateError, Event, Failure, Lease, Lifecycle,
    Phase,
};

fn model(name: &str, mb: u64) -> Model {
    Config::default().get_model_from_config(
        name,
        &ModelConfig::default(),
        FileEstimates { model: Some(mb), draft: None },
    )
}

fn manager(models: &[(&str, u64)]) -> BackendServerManager {
    BackendServerManager::new(models.iter().map(|(name, mb)| model(name, *mb)).collect())
}

fn begin(m: &mut BackendServerManager, name: &str) -> (Acquisition, Action) {
    m.get_server(name).unwrap()
}

/// Brings a model that does not exist yet to health, with `free` megabytes
/// reported as free, and returns its lease.
fn bring_up(m: &mut BackendServerManager, name: &str, index: usize, free: u64, now: u64) -> Lease {
    let (mut acq, action) = begin(m, name);
    assert_eq!(action, Action::Exists(index));
    assert_eq!(m.advance(&mut acq, Event::Exists(false), now), Action::Create(index));
    assert_eq!(m.advance(&mut acq, Event::Done, now), Action::IsRunning(index));
    assert_eq!(m.advance(&mut acq, Event::Running(false), now), Action::FreeMemory);
    assert_eq!(m.advance(&mut acq, Event::Free(free), now), Action::Start(index));
    assert_eq!(m.advance(&mut acq, Event::Done, now), Action::IsHealthy(index));
    assert_eq!(m.advance(&mut acq, Event::Healthy(true), now), Action::Ready(index));
    acq.into_lease().unwrap()
}

fn active(m: &BackendServerManager, index: usize) -> u64 {
    m.slot(index).unwrap().active_requests
}

fn lifecycle(m: &BackendServerManager, index: usize) -> Lifecycle {
    m.slot(index).unwrap().lifecycle
}

#[test]
fn admission_stops_the_least_recently_used_idle_model() {
    let mut m = manager(&[("A", 40_000), ("B", 40_000), ("C", 40_000)]);
    let a = bring_up(&mut m, "A", 0, 48_000, 100);
    let b = bring_up(&mut m, "B", 1, 48_000, 200);
    assert!(m.release(a));
    assert!(m.release(b));

    let (mut acq, action) = begin(&mut m, "C");
    assert_eq!(action, Action::Exists(2));
    assert_eq!(active(&m, 2), 1);
    assert_eq!(m.advance(&mut acq, Event::Exists(false), 300), Action::Create(2));
    assert_eq!(m.advance(&mut acq, Event::Done, 300), Action::IsRunning(2));
    assert_eq!(m.advance(&mut acq, Event::Running(false), 300), Action::FreeMemory);
    assert_eq!(m.advance(&mut acq, Event::Free(8_000), 300), Action::Exists(0));
    assert_eq!(m.advance(&mut acq, Event::Exists(true), 300), Action::IsRunning(0));
    assert_eq!(m.advance(&mut acq, Event::Running(true), 300), Action::Exists(1));
    assert_eq!(m.advance(&mut acq, Event::Exists(true), 300), Action::IsRunning(1));
    assert_eq!(m.advance(&mut acq, Event::Running(true), 300), Action::Stop(0));
    assert_eq!(lifecycle(&m, 0), Lifecycle::Stopping);
    assert!(m.slot(0).unwrap().gate_held);
    assert_eq!(m.advance(&mut acq, Event::Done, 300), Action::FreeMemory);
    assert_eq!(lifecycle(&m, 0), Lifecycle::Stopped);
    assert!(!m.slot(0).unwrap().gate_held);
    assert_eq!(m.advance(&mut acq, Event::Free(48_000), 300), Action::Start(2));
    assert_eq!(m.advance(&mut acq, Event::Done, 300), Action::IsHealthy(2));
    assert_eq!(m.advance(&mut acq, Event::Healthy(false), 300), Action::Sleep);
    assert_eq!(m.advance(&mut acq, Event::Done, 301), Action::IsHealthy(2));
    assert_eq!(m.advance(&mut acq, Event::Healthy(true), 302), Action::Ready(2));

    assert_eq!(lifecycle(&m, 2), Lifecycle::Healthy);
    assert_eq!(lifecycle(&m, 1), Lifecycle::Healthy);
    assert_eq!(m.slot(2).unwrap().last_used, 302);
    assert_eq!(active(&m, 0), 0);
    assert_eq!(active(&m, 1), 0);
    assert_eq!(active(&m, 2), 1);
    assert_eq!(m.backend_server(2).unwrap().hostname, "llm_C:8080");
    let lease = acq.into_lease().unwrap();
    assert_eq!(lease.model(), 2);
    assert!(m.release(lease));
    assert_eq!(active(&m, 2), 0);
}

#[test]
fn insufficient_memory_when_every_model_is_held() {
    let mut m = manager(&[("A", 40_000), ("B", 40_000), ("C", 40_000)]);
    let _a = bring_up(&mut m, "A", 0, 48_000, 100);
    let _b = bring_up(&mut m, "B", 1, 48_000, 200);
    let (mut acq, _) = begin(&mut m, "C");
    assert_eq!(m.advance(&mut acq, Event::Exists(true), 300), Action::IsRunning(2));
    assert_eq!(m.advance(&mut acq, Event::Running(false), 300), Action::FreeMemory);
    assert_eq!(
        m.advance(&mut acq, Event::Free(8_000), 300),
        Action::Fail(Failure::InsufficientMemory)
    );
    assert_eq!(acq.phase(), Phase::Failed);
    assert_eq!(active(&m, 0), 1);
    assert_eq!(active(&m, 1), 1);
    assert_eq!(active(&m, 2), 0);
    assert_eq!(lifecycle(&m, 0), Lifecycle::Healthy);
    assert_eq!(lifecycle(&m, 1), Lifecycle::Healthy);
    assert!(!m.slot(2).unwrap().gate_held);
    assert!(acq.into_lease().is_none());
    assert_eq!(
        Failure::InsufficientMemory.into_error("C", ""),
        EstimateError::FreeFailed("C".to_string())
    );
}

#[test]
fn several_models_are_stopped_oldest_first_until_the_model_fits() {
    let mut m = manager(&[("A", 10), ("B", 10), ("C", 10), ("D", 30)]);
    let a = bring_up(&mut m, "A", 0, 100, 30);
    let b = bring_up(&mut m, "B", 1, 100, 10);
    let c = bring_up(&mut m, "C", 2, 100, 20);
    assert!(m.release(a) && m.release(b) && m.release(c));
    let (mut acq, _) = begin(&mut m, "D");
    assert_eq!(m.advance(&mut acq, Event::Exists(true), 40), Action::IsRunning(3));
    assert_eq!(m.advance(&mut acq, Event::Running(false), 40), Action::FreeMemory);
    assert_eq!(m.advance(&mut acq, Event::Free(0), 40), Action::Exists(0));
    assert_eq!(m.advance(&mut acq, Event::Exists(true), 40), Action::IsRunning(0));
    assert_eq!(m.advance(&mut acq, Event::Running(true), 40), Action::Exists(1));
    assert_eq!(m.advance(&mut acq, Event::Exists(true), 40), Action::IsRunning(1));
    assert_eq!(m.advance(&mut acq, Event::Running(true), 40), Action::Exists(2));
    assert_eq!(m.advance(&mut acq, Event::Exists(true), 40), Action::IsRunning(2));
    assert_eq!(m.advance(&mut acq, Event::Running(true), 40), Action::Stop(1));
    assert_eq!(m.advance(&mut acq, Event::Done, 40), Action::FreeMemory);
    assert_eq!(m.advance(&mut acq, Event::Free(10), 40), Action::Stop(2));
    assert_eq!(m.advance(&mut acq, Event::Done, 40), Action::FreeMemory);
    assert_eq!(m.advance(&mut acq, Event::Free(20), 40), Action::Stop(0));
    assert_eq!(m.advance(&mut acq, Event::Done, 40), Action::FreeMemory);
    assert_eq!(
        m.advance(&mut acq, Event::Free(29), 40),
        Action::Fail(Failure::InsufficientMemory)
    );
    assert_eq!(active(&m, 3), 0);
}

#[test]
fn never_used_models_are_stopped_first_and_absent_ones_are_passed_over() {
    let mut m = manager(&[("A", 10), ("B", 10), ("C", 10), ("D", 30)]);
    let a = bring_up(&mut m, "A", 0, 100, 30);
    assert!(m.release(a));
    let (mut acq, _) = begin(&mut m, "D");
    assert_eq!(m.advance(&mut acq, Event::Exists(true), 40), Action::IsRunning(3));
    assert_eq!(m.advance(&mut acq, Event::Running(false), 40), Action::FreeMemory);
    assert_eq!(m.advance(&mut acq, Event::Free(0), 40), Action::Exists(0));
    assert_eq!(m.advance(&mut acq, Event::Exists(true), 40), Action::IsRunning(0));
    assert_eq!(m.advance(&mut acq, Event::Running(true), 40), Action::Exists(1));
    assert_eq!(m.advance(&mut acq, Event::Exists(false), 40), Action::Exists(2));
    assert_eq!(m.advance(&mut acq, Event::Exists(true), 40), Action::IsRunning(2));
    assert_eq!(m.advance(&mut acq, Event::Running(true), 40), Action::Stop(2));
    assert_eq!(lifecycle(&m, 1), Lifecycle::Unknown);
    assert_eq!(m.advance(&mut acq, Event::Done, 40), Action::FreeMemory);
    assert_eq!(m.advance(&mut acq, Event::Free(30), 40), Action::Start(3));
}

#[test]
fn a_candidate_that_was_taken_meanwhile_is_not_stopped() {
    let mut m = manager(&[("A", 10), ("B", 10), ("C", 30)]);
    let a = bring_up(&mut m, "A", 0, 100, 10);
    let b = bring_up(&mut m, "B", 1, 100, 20);
    assert!(m.release(a) && m.release(b));
    let (mut acq, _) = begin(&mut m, "C");
    assert_eq!(m.advance(&mut acq, Event::Exists(true), 40), Action::IsRunning(2));
    assert_eq!(m.advance(&mut acq, Event::Running(false), 40), Action::FreeMemory);
    assert_eq!(m.advance(&mut acq, Event::Free(0), 40), Action::Exists(0));
    assert_eq!(m.advance(&mut acq, Event::Exists(true), 40), Action::IsRunning(0));
    assert_eq!(m.advance(&mut acq, Event::Running(true), 40), Action::Exists(1));
    assert_eq!(m.advance(&mut acq, Event::Exists(true), 40), Action::IsRunning(1));
    let (mut other, first) = begin(&mut m, "A");
    assert_eq!(first, Action::Exists(0));
    assert_eq!(m.advance(&mut acq, Event::Running(true), 40), Action::Stop(1));
    assert_eq!(m.advance(&mut acq, Event::Done, 40), Action::FreeMemory);
    assert_eq!(
        m.advance(&mut acq, Event::Free(10), 40),
        Action::Fail(Failure::InsufficientMemory)
    );
    assert_eq!(active(&m, 0), 1);
    assert_eq!(lifecycle(&m, 0), Lifecycle::Healthy);
    assert_eq!(m.advance(&mut other, Event::Exists(true), 41), Action::IsRunning(0));
    assert_eq!(m.advance(&mut other, Event::Running(true), 41), Action::IsHealthy(0));
    assert_eq!(m.advance(&mut other, Event::Healthy(true), 42), Action::Ready(0));
    assert_eq!(m.slot(0).unwrap().last_used, 42);
}

#[test]
fn a_running_model_is_not_probed_for() {
    let mut m = manager(&[("A", 10)]);
    let (mut acq, _) = begin(&mut m, "A");
    assert_eq!(m.advance(&mut acq, Event::Exists(true), 1), Action::IsRunning(0));
    assert_eq!(lifecycle(&m, 0), Lifecycle::Stopped);
    assert_eq!(m.advance(&mut acq, Event::Running(true), 1), Action::IsHealthy(0));
    assert_eq!(lifecycle(&m, 0), Lifecycle::Starting);
    assert_eq!(m.advance(&mut acq, Event::Healthy(true), 5), Action::Ready(0));
    assert_eq!(m.advance(&mut acq, Event::Done, 6), Action::Fail(Failure::Finished));
    assert_eq!(active(&m, 0), 1);
}

#[test]
fn unknown_model_is_refused() {
    let mut m = manager(&[("A", 10)]);
    assert_eq!(
        m.get_server("B").unwrap_err(),
        EstimateError::ModelNotFound("B".to_string())
    );
    assert_eq!(active(&m, 0), 0);
    assert_eq!(m.get_server("").unwrap_err(), EstimateError::ModelNotFound(String::new()));
}

#[test]
fn a_second_acquisition_of_a_model_waits_for_the_first() {
    let mut m = manager(&[("A", 10)]);
    let (mut first, action) = begin(&mut m, "A");
    assert_eq!(action, Action::Exists(0));
    let (mut second, action) = begin(&mut m, "A");
    assert_eq!(action, Action::AwaitGate(0));
    assert_eq!(second.phase(), Phase::AwaitingGate);
    assert_eq!(active(&m, 0), 2);
    assert_eq!(m.advance(&mut second, Event::Resumed, 1), Action::AwaitGate(0));
    assert_eq!(m.advance(&mut first, Event::Exists(true), 1), Action::IsRunning(0));
    assert_eq!(m.advance(&mut first, Event::Running(true), 1), Action::IsHealthy(0));
    assert_eq!(m.advance(&mut first, Event::Healthy(true), 2), Action::Ready(0));
    assert_eq!(m.advance(&mut second, Event::Resumed, 3), Action::Exists(0));
    assert_eq!(m.advance(&mut second, Event::Exists(true), 3), Action::IsRunning(0));
    assert_eq!(m.advance(&mut second, Event::Running(true), 3), Action::IsHealthy(0));
    assert_eq!(m.advance(&mut second, Event::Healthy(true), 4), Action::Ready(0));
    assert!(m.release(first.into_lease().unwrap()));
    assert!(m.release(second.into_lease().unwrap()));
    assert_eq!(active(&m, 0), 0);
}

#[test]
fn host_failures_take_the_request_back() {
    let phases: [&[Event]; 6] = [
        &[],
        &[Event::Exists(false)],
        &[Event::Exists(true)],
        &[Event::Exists(true), Event::Running(false)],
        &[Event::Exists(true), Event::Running(false), Event::Free(10)],
        &[Event::Exists(true), Event::Running(true)],
    ];
    for events in phases {
        let mut m = manager(&[("A", 10)]);
        let (mut acq, _) = begin(&mut m, "A");
        for e in events {
            m.advance(&mut acq, *e, 1);
        }
        assert_eq!(active(&m, 0), 1);
        assert_eq!(m.advance(&mut acq, Event::Failed, 1), Action::Fail(Failure::Host));
        assert_eq!(active(&m, 0), 0);
        assert!(!m.slot(0).unwrap().gate_held);
        assert_eq!(acq.phase(), Phase::Failed);
        assert_eq!(m.advance(&mut acq, Event::Failed, 1), Action::Fail(Failure::Finished));
        assert_eq!(active(&m, 0), 0);
    }
    assert_eq!(
        Failure::Host.into_error("A", "no daemon"),
        EstimateError::Docker("no daemon".to_string())
    );
}

#[test]
fn a_failed_stop_frees_the_victim() {
    let mut m = manager(&[("A", 10), ("B", 30)]);
    let a = bring_up(&mut m, "A", 0, 100, 10);
    assert!(m.release(a));
    let (mut acq, _) = begin(&mut m, "B");
    m.advance(&mut acq, Event::Exists(true), 2);
    m.advance(&mut acq, Event::Running(false), 2);
    m.advance(&mut acq, Event::Free(0), 2);
    m.advance(&mut acq, Event::Exists(true), 2);
    assert_eq!(m.advance(&mut acq, Event::Running(true), 2), Action::Stop(0));
    assert_eq!(m.advance(&mut acq, Event::Failed, 2), Action::Fail(Failure::Host));
    assert!(!m.slot(0).unwrap().gate_held);
    assert_eq!(lifecycle(&m, 0), Lifecycle::Unknown);
    assert_eq!(active(&m, 1), 0);
}

#[test]
fn an_answer_to_another_question_fails_the_acquisition() {
    let mut m = manager(&[("A", 10)]);
    let (mut acq, _) = begin(&mut m, "A");
    assert_eq!(m.advance(&mut acq, Event::Free(5), 1), Action::Fail(Failure::Unexpected));
    assert_eq!(active(&m, 0), 0);
}

#[test]
fn a_lease_is_released_once() {
    let mut m = manager(&[("A", 10)]);
    let lease = bring_up(&mut m, "A", 0, 10, 1);
    assert_eq!(active(&m, 0), 1);
    assert!(m.release(lease));
    assert_eq!(active(&m, 0), 0);
    let (acq, _) = begin(&mut m, "A");
    m.abandon(acq);
    assert_eq!(active(&m, 0), 0);
    assert!(!m.slot(0).unwrap().gate_held);
}

#[test]
fn an_abandoned_wait_for_health_leaves_the_container() {
    let mut m = manager(&[("A", 10)]);
    let (mut acq, _) = begin(&mut m, "A");
    m.advance(&mut acq, Event::Exists(true), 1);
    m.advance(&mut acq, Event::Running(false), 1);
    m.advance(&mut acq, Event::Free(10), 1);
    m.advance(&mut acq, Event::Done, 1);
    assert_eq!(m.advance(&mut acq, Event::Healthy(false), 1), Action::Sleep);
    assert!(m.accepts(&acq));
    m.abandon(acq);
    assert_eq!(active(&m, 0), 0);
    assert_eq!(lifecycle(&m, 0), Lifecycle::Starting);
    assert!(!m.slot(0).unwrap().gate_held);
}

#[test]
fn memory_decides_what_fits() {
    let m = manager(&[("A", 40_000), ("B", u64::MAX)]);
    assert!(m.model_fits(0, 40_000));
    assert!(!m.model_fits(0, 39_999));
    assert!(!m.model_fits(1, u64::MAX - 1));
    assert!(!m.model_fits(2, u64::MAX));
    assert!(!m.exceeds_device(0, 48_000));
    assert!(m.exceeds_device(1, 48_000));
    assert!(!m.exceeds_device(2, 0));
    assert_eq!(m.get_all_models().len(), 2);
    assert!(m.slot(2).is_none());
    assert!(m.backend_server(2).is_none());
    let report = r#"{"card0": {"VRAM Total Memory (B)": "48000000000", "VRAM Total Used Memory (B)": "8000000001"}}"#;
    assert_eq!(m.get_available_memory(Some(report)), 39_999);
    assert_eq!(m.get_available_memory(None), 0);
}

#[test]
fn errors_are_put_in_words() {
    assert_eq!(EstimateError::ModelNotFound("m".to_string()).to_string(), "Model m not found");
    assert_eq!(EstimateError::Docker("x".to_string()).to_string(), "Error from Docker: x");
    assert_eq!(
        EstimateError::FreeFailed("m".to_string()).to_string(),
        "Unable to free enough memory for model: m"
    );
}

#[test]
fn a_lease_on_a_model_that_nobody_holds_is_refused() {
    let mut first = manager(&[("A", 10)]);
    let mut second = manager(&[("A", 10)]);
    let lease = bring_up(&mut first, "A", 0, 10, 1);
    assert!(!second.release(lease));
    assert_eq!(active(&second, 0), 0);
    assert_eq!(active(&first, 0), 1);
    let mut empty = manager(&[]);
    let lease = bring_up(&mut first, "A", 0, 10, 2);
    assert!(!empty.release(lease));
}
