use vstd::prelude::*;

verus! {

/// The container engine that runs a container executor.
#[derive(Debug, Clone, Copy, PartialEq, Eq)]
pub enum Engine {
    Docker,
    Podman,
}

/// One environment variable handed to a container.
#[derive(Debug, Clone, PartialEq, Eq)]
pub struct ContainerEnvironmentVariable {
    pub name: String,
    pub value: String,
}

/// A device that has to be present before an executor may run.
#[derive(Debug, Clone, PartialEq, Eq)]
pub struct DevicePrecondition {
    pub device_id: u128,
}

/// What has to hold before an executor may run.
#[derive(Debug, Clone, PartialEq, Eq)]
pub struct ExecutorPreconditions {
    pub device_preconditions: Vec<DevicePrecondition>,
}

/// Describes an executor of a peer.
#[derive(Debug, Clone, PartialEq, Eq)]
pub enum ExecutorDescriptor {
    Executable,
    Container {
        engine: Engine,
        name: String,
        image: String,
        volumes: Vec<String>,
        devices: Vec<String>,
        envs: Vec<ContainerEnvironmentVariable>,
        ports: Vec<String>,
        command: String,
        args: Vec<String>,
        preconditions: ExecutorPreconditions,
        results_url: String,
    },
}

/// Whether a configuration parameter asks for its value to be present or absent.
#[derive(Debug, Clone, PartialEq, Eq)]
pub enum ParameterTarget {
    Present,
    Absent,
}

/// A configuration parameter: a value together with its target.
#[derive(Debug, Clone, PartialEq, Eq)]
pub struct Parameter<V> {
    pub target: ParameterTarget,
    pub value: V,
}

/// Everything needed to run one container.
#[derive(Debug, Clone, PartialEq, Eq)]
pub struct ContainerConfiguration {
    pub name: String,
    pub engine: Engine,
    pub image: String,
    pub command: String,
    pub args: Vec<String>,
    pub envs: Vec<ContainerEnvironmentVariable>,
    pub results_url: String,
    pub ports: Vec<String>,
    pub devices: Vec<String>,
    pub volumes: Vec<String>,
}

/// The values of the parameters whose target is `Present`, in their order.
pub open spec fn present_values<V>(parameters: Seq<Parameter<V>>) -> Seq<V>
    decreases parameters.len(),
{
    if parameters.len() == 0 {
        Seq::empty()
    } else {
        let rest = present_values(parameters.drop_last());
        match parameters.last().target {
            ParameterTarget::Present => rest.push(parameters.last().value),
            ParameterTarget::Absent => rest,
        }
    }
}

/// The container configuration that runs `descriptor`, if it describes a container.
pub open spec fn container_configuration(descriptor: ExecutorDescriptor) -> Option<ContainerConfiguration> {
    match descriptor {
        ExecutorDescriptor::Executable => None,
        ExecutorDescriptor::Container {
            engine,
            name,
            image,
            volumes,
            devices,
            envs,
            ports,
            command,
            args,
            preconditions,
            results_url,
        } => Some(
            ContainerConfiguration {
                name,
                engine,
                image,
                command,
                args,
                envs,
                results_url,
                ports,
                devices,
                volumes,
            },
        ),
    }
}

/// The configurations of the containers among `descriptors`, in their order.
pub open spec fn container_configurations(descriptors: Seq<ExecutorDescriptor>) -> Seq<ContainerConfiguration>
    decreases descriptors.len(),
{
    if descriptors.len() == 0 {
        Seq::empty()
    } else {
        let rest = container_configurations(descriptors.drop_last());
        match container_configuration(descriptors.last()) {
            Some(configuration) => rest.push(configuration),
            None => rest,
        }
    }
}

/// The positions of the containers among `descriptors`, in their order.
pub open spec fn container_positions(descriptors: Seq<ExecutorDescriptor>) -> Seq<int>
    decreases descriptors.len(),
{
    if descriptors.len() == 0 {
        Seq::empty()
    } else {
        let rest = container_positions(descriptors.drop_last());
        match container_configuration(descriptors.last()) {
            Some(_) => rest.push(descriptors.len() - 1),
            None => rest,
        }
    }
}

/// Turns a container descriptor into the configuration that runs it.
pub fn to_container_configuration(descriptor: ExecutorDescriptor) -> (configuration: Option<ContainerConfiguration>)
    ensures
        configuration == container_configuration(descriptor),
{
    match descriptor {
        ExecutorDescriptor::Executable => None,
        ExecutorDescriptor::Container {
            engine,
            name,
            image,
            volumes,
            devices,
            envs,
            ports,
            command,
            args,
            preconditions,
            results_url,
        } => Some(
            ContainerConfiguration {
                name,
                engine,
                image,
                command,
                args,
                envs,
                results_url,
                ports,
                devices,
                volumes,
            },
        ),
    }
}

/// Parameters that ask for absence start nothing.
pub proof fn lemma_absent_starts_nothing<V>(parameters: Seq<Parameter<V>>, value: V)
    ensures
        present_values(parameters.push(Parameter { target: ParameterTarget::Absent, value })) == present_values(parameters),
{
    assert(parameters.push(Parameter { target: ParameterTarget::Absent, value }).drop_last() =~= parameters);
}

/// Executors given in two batches start the same as when given in one.
pub proof fn lemma_present_values_of_batches<V>(first: Seq<Parameter<V>>, second: Seq<Parameter<V>>)
    ensures
        present_values(first + second) == present_values(first) + present_values(second),
    decreases second.len(),
{
    if second.len() == 0 {
        assert(first + second =~= first);
        assert(present_values(first) + present_values(second) =~= present_values(first));
    } else {
        lemma_present_values_of_batches(first, second.drop_last());
        assert((first + second).drop_last() =~= first + second.drop_last());
        assert((first + second).last() == second.last());
        let rest = present_values(first) + present_values(second.drop_last());
        match second.last().target {
            ParameterTarget::Present => {
                assert(rest.push(second.last().value) =~= present_values(first) + present_values(second));
            },
            ParameterTarget::Absent => {},
        }
    }
}

/// Containers among descriptors given in two batches are those of each batch, in order.
pub proof fn lemma_container_configurations_of_batches(first: Seq<ExecutorDescriptor>, second: Seq<ExecutorDescriptor>)
    ensures
        container_configurations(first + second) == container_configurations(first) + container_configurations(second),
    decreases second.len(),
{
    if second.len() == 0 {
        assert(first + second =~= first);
        assert(container_configurations(first) + container_configurations(second) =~= container_configurations(first));
    } else {
        lemma_container_configurations_of_batches(first, second.drop_last());
        assert((first + second).drop_last() =~= first + second.drop_last());
        assert((first + second).last() == second.last());
        let rest = container_configurations(first) + container_configurations(second.drop_last());
        match container_configuration(second.last()) {
            Some(configuration) => {
                assert(rest.push(configuration) =~= container_configurations(first) + container_configurations(second));
            },
            None => {},
        }
    }
}

/// No more executors start than parameters are given, and no more containers
/// than executors.
pub proof fn lemma_starts_are_bounded<V>(parameters: Seq<Parameter<V>>, descriptors: Seq<ExecutorDescriptor>)
    ensures
        present_values(parameters).len() <= parameters.len(),
        container_configurations(descriptors).len() <= descriptors.len(),
    decreases parameters.len() + descriptors.len(),
{
    if parameters.len() > 0 {
        lemma_starts_are_bounded(parameters.drop_last(), descriptors);
    }
    if descriptors.len() > 0 {
        lemma_starts_are_bounded(parameters, descriptors.drop_last());
    }
}

/// Container positions point, in increasing order, at the containers among
/// the descriptors, one per configuration: the k-th configuration is that of
/// the descriptor at the k-th position.
pub proof fn lemma_container_positions_in_range(descriptors: Seq<ExecutorDescriptor>)
    ensures
        container_positions(descriptors).len() == container_configurations(descriptors).len(),
        forall|k: int|
            0 <= k < container_positions(descriptors).len() ==> {
                &&& 0 <= #[trigger] container_positions(descriptors)[k] < descriptors.len()
                &&& is_container(descriptors[container_positions(descriptors)[k]])
                &&& Some(container_configurations(descriptors)[k]) == container_configuration(
                    descriptors[container_positions(descriptors)[k]],
                )
            },
        forall|j: int, k: int|
            0 <= j < k < container_positions(descriptors).len() ==> #[trigger] container_positions(descriptors)[j]
                < #[trigger] container_positions(descriptors)[k],
    decreases descriptors.len(),
{
    if descriptors.len() > 0 {
        let rest = container_positions(descriptors.drop_last());
        let configurations = container_configurations(descriptors.drop_last());
        lemma_container_positions_in_range(descriptors.drop_last());
        lemma_configuration_is_the_container(descriptors.last());
        assert forall|k: int|
            0 <= k < container_positions(descriptors).len() implies {
                &&& 0 <= #[trigger] container_positions(descriptors)[k] < descriptors.len()
                &&& is_container(descriptors[container_positions(descriptors)[k]])
                &&& Some(container_configurations(descriptors)[k]) == container_configuration(
                    descriptors[container_positions(descriptors)[k]],
                )
            } by {
            if k < rest.len() {
                assert(container_positions(descriptors)[k] == rest[k]);
                assert(container_configurations(descriptors)[k] == configurations[k]);
                assert(descriptors[rest[k]] == descriptors.drop_last()[rest[k]]);
            }
        }
        assert forall|j: int, k: int|
            0 <= j < k < container_positions(descriptors).len() implies #[trigger] container_positions(
                descriptors,
            )[j] < #[trigger] container_positions(descriptors)[k] by {
            assert(container_positions(descriptors)[j] == rest[j]);
            if k < rest.len() {
                assert(container_positions(descriptors)[k] == rest[k]);
            }
        }
    }
}

/// A parameter that asks for presence starts its value, after those before it.
pub proof fn lemma_present_starts_its_value<V>(parameters: Seq<Parameter<V>>, value: V)
    ensures
        present_values(parameters.push(Parameter { target: ParameterTarget::Present, value })) == present_values(
            parameters,
        ).push(value),
{
    assert(parameters.push(Parameter { target: ParameterTarget::Present, value }).drop_last() =~= parameters);
}

/// Whether `descriptor` describes a container.
pub open spec fn is_container(descriptor: ExecutorDescriptor) -> bool {
    descriptor is Container
}

/// Every container descriptor, whatever its devices or other fields, has a
/// configuration, and an executable has none. The configuration carries the
/// descriptor's own engine, name, image, command, arguments, environment,
/// results URL, ports, devices and volumes.
pub proof fn lemma_configuration_is_the_container(descriptor: ExecutorDescriptor)
    ensures
        is_container(descriptor) <==> container_configuration(descriptor) is Some,
        (descriptor matches ExecutorDescriptor::Container {
            engine,
            name,
            image,
            volumes,
            devices,
            envs,
            ports,
            command,
            args,
            results_url,
            ..
        } ==> (container_configuration(descriptor) matches Some(configuration) && configuration.engine
            == engine && configuration.name == name && configuration.image == image
            && configuration.volumes == volumes && configuration.devices == devices
            && configuration.envs == envs && configuration.ports == ports && configuration.command
            == command && configuration.args == args && configuration.results_url == results_url)),
{
}

/// There is one configuration for every container among the descriptors, and
/// the k-th configuration is that of the k-th container, with its engine and
/// devices.
pub proof fn lemma_one_configuration_per_container(descriptors: Seq<ExecutorDescriptor>)
    ensures
        container_configurations(descriptors).len() == descriptors.filter(|d: ExecutorDescriptor| is_container(d)).len(),
        forall|k: int|
            #![trigger container_configurations(descriptors)[k]]
            0 <= k < container_configurations(descriptors).len() ==> {
                let d = descriptors.filter(|d: ExecutorDescriptor| is_container(d))[k];
                &&& d matches ExecutorDescriptor::Container { engine, devices, .. }
                &&& container_configurations(descriptors)[k].engine == d->engine
                &&& container_configurations(descriptors)[k].devices == d->devices
                &&& Some(container_configurations(descriptors)[k]) == container_configuration(d)
            },
    decreases descriptors.len(),
{
    reveal_with_fuel(Seq::<_>::filter, 1);
    if descriptors.len() > 0 {
        lemma_one_configuration_per_container(descriptors.drop_last());
        lemma_configuration_is_the_container(descriptors.last());
        let rest = container_configurations(descriptors.drop_last());
        let containers = descriptors.drop_last().filter(|d: ExecutorDescriptor| is_container(d));
        assert forall|k: int|
            #![trigger container_configurations(descriptors)[k]]
            0 <= k < container_configurations(descriptors).len() implies {
                let d = descriptors.filter(|d: ExecutorDescriptor| is_container(d))[k];
                &&& d matches ExecutorDescriptor::Container { engine, devices, .. }
                &&& container_configurations(descriptors)[k].engine == d->engine
                &&& container_configurations(descriptors)[k].devices == d->devices
                &&& Some(container_configurations(descriptors)[k]) == container_configuration(d)
            } by {
            if k < rest.len() {
                assert(container_configurations(descriptors)[k] == rest[k]);
                assert(descriptors.filter(|d: ExecutorDescriptor| is_container(d))[k] == containers[k]);
                assert(rest[k] == container_configurations(descriptors.drop_last())[k]);
            }
        }
    }
}

} // verus!
