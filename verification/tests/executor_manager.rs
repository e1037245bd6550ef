use opendut_core::executor::{
    ContainerConfiguration, ContainerEnvironmentVariable, Engine, ExecutorDescriptor,
    ExecutorPreconditions, Parameter, ParameterTarget,
};
use opendut_core::executor_manager::ExecutorManager;

fn container(name: &str) -> ExecutorDescriptor {
    ExecutorDescriptor::Container {
        engine: Engine::Podman,
        name: name.to_string(),
        image: String::from("alpine"),
        volumes: vec![String::from("/data")],
        devices: vec![],
        envs: vec![ContainerEnvironmentVariable { name: String::from("A"), value: String::from("1") }],
        ports: vec![String::from("8080:80")],
        command: String::from("sleep"),
        args: vec![String::from("10")],
        preconditions: ExecutorPreconditions { device_preconditions: vec![] },
        results_url: String::from("http://results"),
    }
}

fn present(value: ExecutorDescriptor) -> Parameter<ExecutorDescriptor> {
    Parameter { target: ParameterTarget::Present, value }
}

fn absent(value: ExecutorDescriptor) -> Parameter<ExecutorDescriptor> {
    Parameter { target: ParameterTarget::Absent, value }
}

#[test]
fn only_present_containers_are_launched() {
    let mut manager = ExecutorManager::create();
    let launches = manager.create_new_executors(vec![
        present(container("first")),
        absent(container("skipped")),
        present(ExecutorDescriptor::Executable),
        present(container("second")),
    ]);
    let names: Vec<String> = launches.iter().map(|launch| launch.configuration.name.clone()).collect();
    assert_eq!(names, vec![String::from("first"), String::from("second")]);
}

#[test]
fn launch_carries_the_container_configuration() {
    let mut manager = ExecutorManager::create();
    let launches = manager.create_new_executors(vec![present(container("c"))]);
    assert_eq!(launches.len(), 1);
    assert_eq!(
        launches[0].configuration,
        ContainerConfiguration {
            name: String::from("c"),
            engine: Engine::Podman,
            image: String::from("alpine"),
            command: String::from("sleep"),
            args: vec![String::from("10")],
            envs: vec![ContainerEnvironmentVariable { name: String::from("A"), value: String::from("1") }],
            results_url: String::from("http://results"),
            ports: vec![String::from("8080:80")],
            devices: vec![],
            volumes: vec![String::from("/data")],
        }
    );
}

#[test]
fn launched_containers_start_unterminated() {
    let mut manager = ExecutorManager::create();
    let mut launches = manager.create_new_executors(vec![present(container("c"))]);
    let receiver = launches.remove(0).termination.into_receiver();
    assert!(!*receiver.borrow());
}

#[test]
fn terminate_signals_every_launched_container() {
    let mut manager = ExecutorManager::create();
    let first = manager.create_new_executors(vec![present(container("a"))]);
    let second = manager.create_new_executors(vec![present(container("b")), present(container("c"))]);
    let receivers: Vec<_> = first.into_iter().chain(second).map(|launch| launch.termination.into_receiver()).collect();
    let delivered = manager.terminate_executors();
    assert_eq!(delivered, vec![true, true, true]);
    for receiver in &receivers {
        assert!(*receiver.borrow());
    }
}

#[test]
fn second_termination_signals_nothing() {
    let mut manager = ExecutorManager::create();
    let launches = manager.create_new_executors(vec![present(container("a"))]);
    let receivers: Vec<_> = launches.into_iter().map(|launch| launch.termination.into_receiver()).collect();
    assert_eq!(manager.terminate_executors(), vec![true]);
    assert_eq!(manager.terminate_executors(), Vec::<bool>::new());
    assert!(*receivers[0].borrow());
}

#[test]
fn terminate_forgets_the_channels() {
    let mut manager = ExecutorManager::create();
    let launches = manager.create_new_executors(vec![present(container("a"))]);
    let first: Vec<_> = launches.into_iter().map(|launch| launch.termination.into_receiver()).collect();
    manager.terminate_executors();
    let later = manager.create_new_executors(vec![present(container("b"))]);
    let second: Vec<_> = later.into_iter().map(|launch| launch.termination.into_receiver()).collect();
    assert!(!*second[0].borrow());
    assert_eq!(manager.terminate_executors(), vec![true]);
    assert!(*first[0].borrow());
    assert!(*second[0].borrow());
}

#[test]
fn terminate_goes_on_past_dropped_receivers() {
    let mut manager = ExecutorManager::create();
    let launches = manager.create_new_executors(vec![
        present(container("a")),
        present(ExecutorDescriptor::Executable),
        present(container("b")),
    ]);
    let mut receivers: Vec<_> = launches.into_iter().map(|launch| launch.termination.into_receiver()).collect();
    let kept = receivers.pop().unwrap();
    drop(receivers);
    assert_eq!(manager.terminate_executors(), vec![false, false, true]);
    assert!(*kept.borrow());
}

#[test]
fn channels_after_a_termination_are_new_channels() {
    let mut manager = ExecutorManager::create();
    let first = manager.create_new_executors(vec![present(container("a"))]);
    let first: Vec<_> = first.into_iter().map(|launch| launch.termination.into_receiver()).collect();
    assert_eq!(manager.terminate_executors(), vec![true]);
    let second = manager.create_new_executors(vec![present(container("b"))]);
    let second: Vec<_> = second.into_iter().map(|launch| launch.termination.into_receiver()).collect();
    assert!(!first[0].same_channel(&second[0]));
    assert!(!*second[0].borrow());
}
