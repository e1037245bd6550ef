use opendut_core::container_executor::{
    container_executor, engine_of, environment_assignments, peer_of_descriptor, split_assignment,
    CommandLineArguments, EngineVariants, JsonConfig,
};
use opendut_core::executor::{
    ContainerEnvironmentVariable, DevicePrecondition, Engine, ExecutorDescriptor,
    ExecutorPreconditions,
};

#[test]
fn split_assignment_at_first_equals() {
    assert_eq!(split_assignment("NAME=value"), Some((String::from("NAME"), String::from("value"))));
    assert_eq!(split_assignment("A=b=c"), Some((String::from("A"), String::from("b=c"))));
    assert_eq!(split_assignment("=value"), Some((String::new(), String::from("value"))));
    assert_eq!(split_assignment("NAME="), Some((String::from("NAME"), String::new())));
    assert_eq!(split_assignment("NOVALUE"), None);
    assert_eq!(split_assignment(""), None);
    assert_eq!(split_assignment("Grüße=ä"), Some((String::from("Grüße"), String::from("ä"))));
}

#[test]
fn environment_assignments_drop_entries_without_equals() {
    let envs = Some(vec![String::from("A=1"), String::from("broken"), String::from("B=2=3")]);
    assert_eq!(
        environment_assignments(envs),
        vec![(String::from("A"), String::from("1")), (String::from("B"), String::from("2=3"))]
    );
    assert_eq!(environment_assignments(None), vec![]);
}

#[test]
fn engine_variants_map_to_engines() {
    assert_eq!(engine_of(EngineVariants::Docker), Engine::Docker);
    assert_eq!(engine_of(EngineVariants::Podman), Engine::Podman);
}

#[test]
fn command_line_arguments_describe_a_container() {
    let arguments = CommandLineArguments {
        peer_id: 42,
        engine: EngineVariants::Docker,
        name: None,
        image: String::from("ubuntu"),
        volumes: Some(vec![String::from("/v")]),
        devices: None,
        envs: Some(vec![String::from("X=1")]),
        ports: None,
        command: Some(String::from("bash")),
        args: None,
    };
    let envs = vec![ContainerEnvironmentVariable { name: String::from("X"), value: String::from("1") }];
    let (peer, descriptor) = container_executor(arguments, envs.clone());
    assert_eq!(peer, 42);
    assert_eq!(
        descriptor,
        ExecutorDescriptor::Container {
            engine: Engine::Docker,
            name: String::new(),
            image: String::from("ubuntu"),
            volumes: vec![String::from("/v")],
            devices: vec![],
            envs,
            ports: vec![],
            command: String::from("bash"),
            args: vec![],
            preconditions: ExecutorPreconditions { device_preconditions: vec![] },
            results_url: String::new(),
        }
    );
}

#[test]
fn peer_of_a_container_is_its_first_device() {
    let descriptor = ExecutorDescriptor::Container {
        engine: Engine::Podman,
        name: String::from("n"),
        image: String::from("i"),
        volumes: vec![],
        devices: vec![],
        envs: vec![],
        ports: vec![],
        command: String::new(),
        args: vec![],
        preconditions: ExecutorPreconditions {
            device_preconditions: vec![DevicePrecondition { device_id: 5 }, DevicePrecondition { device_id: 6 }],
        },
        results_url: String::new(),
    };
    assert_eq!(peer_of_descriptor(&descriptor), Ok(5));
}

#[test]
fn peer_of_an_executable_is_refused() {
    assert_eq!(
        peer_of_descriptor(&ExecutorDescriptor::Executable),
        Err(String::from("Expected a Container ExecutorDescriptor, but got Executable"))
    );
}

#[test]
fn json_config_keeps_its_path() {
    let config = JsonConfig::new(String::from("sample_test_config.json"));
    assert_eq!(config.test_executor_json_file_path(), "sample_test_config.json");
}
