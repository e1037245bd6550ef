use crate::executor::{
    ContainerEnvironmentVariable, Engine, ExecutorDescriptor,
    ExecutorPreconditions,
};
use vstd::prelude::*;

verus! {

/// The container engines that can be chosen on the command line.
#[derive(Debug, Clone, Copy, PartialEq, Eq)]
pub enum EngineVariants {
    Docker,
    Podman,
}

/// Creates a container executor, described either by a JSON file or by
/// command line arguments.
#[derive(Debug, Clone, PartialEq, Eq)]
pub struct CreateContainerExecutorCli {
    pub mode: Mode,
}

/// Where the description of the new container executor comes from.
#[derive(Debug, Clone, PartialEq, Eq)]
pub enum Mode {
    JsonConfig(JsonConfig),
    CommandLineArguments(CommandLineArguments),
}

/// The path of a JSON file that holds an executor description.
#[derive(Debug, Clone, PartialEq, Eq)]
pub struct JsonConfig {
    test_executor_json_file_path: String,
}

impl JsonConfig {
    pub fn new(test_executor_json_file_path: String) -> (config: Self)
        ensures
            config.path()@ == test_executor_json_file_path@,
    {
        JsonConfig { test_executor_json_file_path }
    }

    pub closed spec fn path(&self) -> String {
        self.test_executor_json_file_path
    }

    /// The path of the JSON file.
    pub fn test_executor_json_file_path(&self) -> (path: &String)
        ensures
            path@ == self.path()@,
    {
        &self.test_executor_json_file_path
    }
}

/// A container executor given piece by piece on the command line.
#[derive(Debug, Clone, PartialEq, Eq)]
pub struct CommandLineArguments {
    /// The peer to add the container executor to.
    pub peer_id: u128,
    pub engine: EngineVariants,
    pub name: Option<String>,
    pub image: String,
    pub volumes: Option<Vec<String>>,
    pub devices: Option<Vec<String>>,
    /// Environment variables, each written `NAME=VALUE`.
    pub envs: Option<Vec<String>>,
    pub ports: Option<Vec<String>>,
    pub command: Option<String>,
    pub args: Option<Vec<String>>,
}

/// The name and value of `text` split at its first `=`, if it has one.
pub open spec fn assignment(text: Seq<char>) -> Option<(Seq<char>, Seq<char>)> {
    match text.index_of_first('=') {
        Some(i) => Some((text.take(i), text.skip(i + 1))),
        None => None,
    }
}

/// The assignments among `texts`, split by [`assignment`], in their order;
/// texts without `=` are left out.
pub open spec fn assignments(texts: Seq<Seq<char>>) -> Seq<(Seq<char>, Seq<char>)>
    decreases texts.len(),
{
    if texts.len() == 0 {
        Seq::empty()
    } else {
        let rest = assignments(texts.drop_last());
        match assignment(texts.last()) {
            Some(pair) => rest.push(pair),
            None => rest,
        }
    }
}

/// The engine that an engine choice of the command line stands for.
pub open spec fn engine_spec(variant: EngineVariants) -> Engine {
    match variant {
        EngineVariants::Docker => Engine::Docker,
        EngineVariants::Podman => Engine::Podman,
    }
}

/// The view of an optional list of strings, empty where it is absent.
pub open spec fn strings_or_empty(strings: Option<Vec<String>>) -> Seq<String> {
    match strings {
        Some(v) => v@,
        None => Seq::empty(),
    }
}

/// The view of an optional string, empty where it is absent.
pub open spec fn text_or_empty(text: Option<String>) -> Seq<char> {
    match text {
        Some(s) => s@,
        None => Seq::empty(),
    }
}

/// Splits `text` at its first `=` into a name and a value.
pub fn split_assignment(text: &str) -> (pair: Option<(String, String)>)
    ensures
        match pair {
            Some((name, value)) => assignment(text@) == Some((name@, value@)),
            None => assignment(text@) is None,
        },
{
    let length = text.unicode_len();
    let mut i: usize = 0;
    while i < length
        invariant
            length == text@.len(),
            i <= length,
            forall|j: int| 0 <= j < i ==> text@[j] != '=',
        decreases length - i,
    {
        if text.get_char(i) == '=' {
            proof {
                text@.index_of_first_ensures('=');
                assert(text@.contains('='));
            }
            let name = text.substring_char(0, i).to_owned();
            let value = text.substring_char(i + 1, length).to_owned();
            proof {
                assert(name@ =~= text@.take(i as int));
                assert(value@ =~= text@.skip(i + 1));
            }
            return Some((name, value));
        }
        i = i + 1;
    }
    proof {
        text@.index_of_first_ensures('=');
    }
    None
}

/// The environment variable assignments among `envs`, split at their first
/// `=`; entries without `=` are left out.
pub fn environment_assignments(envs: Option<Vec<String>>) -> (pairs: Vec<(String, String)>)
    ensures
        pairs@.map_values(|pair: (String, String)| (pair.0@, pair.1@)) == assignments(
            strings_or_empty(envs).map_values(|s: String| s@),
        ),
        envs matches Some(texts) ==> pairs@.map_values(|pair: (String, String)| (pair.0@, pair.1@))
            == assignments(texts@.map_values(|s: String| s@)),
        envs is None ==> pairs@.len() == 0,
{
    let envs = match envs {
        Some(envs) => envs,
        None => Vec::new(),
    };
    let ghost texts = envs@.map_values(|s: String| s@);
    let mut pairs: Vec<(String, String)> = Vec::new();
    let mut i: usize = 0;
    while i < envs.len()
        invariant
            i <= envs.len(),
            texts == envs@.map_values(|s: String| s@),
            pairs@.map_values(|pair: (String, String)| (pair.0@, pair.1@)) == assignments(
                texts.take(i as int),
            ),
        decreases envs.len() - i,
    {
        proof {
            assert(texts.take(i + 1).drop_last() =~= texts.take(i as int));
            assert(texts.take(i + 1).last() == envs@[i as int]@);
        }
        match split_assignment(envs[i].as_str()) {
            Some(pair) => {
                pairs.push(pair);
            },
            None => {},
        }
        proof {
            assert(pairs@.map_values(|pair: (String, String)| (pair.0@, pair.1@)) =~= assignments(
                texts.take(i + 1),
            ));
        }
        i = i + 1;
    }
    proof {
        assert(texts.take(envs.len() as int) =~= texts);
    }
    pairs
}

/// The engine that an engine choice of the command line stands for.
pub fn engine_of(variant: EngineVariants) -> (engine: Engine)
    ensures
        engine == engine_spec(variant),
{
    match variant {
        EngineVariants::Docker => Engine::Docker,
        EngineVariants::Podman => Engine::Podman,
    }
}

fn strings_or_new(strings: Option<Vec<String>>) -> (v: Vec<String>)
    ensures
        v@ == strings_or_empty(strings),
{
    match strings {
        Some(v) => v,
        None => Vec::new(),
    }
}

fn text_or_new(text: Option<String>) -> (s: String)
    ensures
        s@ == text_or_empty(text),
{
    match text {
        Some(s) => s,
        None => String::new(),
    }
}

/// The peer and the container executor that command line arguments describe,
/// with the environment variables already checked.
pub fn container_executor(
    arguments: CommandLineArguments,
    envs: Vec<ContainerEnvironmentVariable>,
) -> (result: (u128, ExecutorDescriptor))
    ensures
        result.0 == arguments.peer_id,
        match result.1 {
            ExecutorDescriptor::Container {
                engine,
                name,
                image,
                volumes,
                devices,
                envs: descriptor_envs,
                ports,
                command,
                args,
                preconditions,
                results_url,
            } => {
                &&& engine == engine_spec(arguments.engine)
                &&& name@ == text_or_empty(arguments.name)
                &&& image == arguments.image
                &&& volumes@ == strings_or_empty(arguments.volumes)
                &&& devices@ == strings_or_empty(arguments.devices)
                &&& descriptor_envs == envs
                &&& ports@ == strings_or_empty(arguments.ports)
                &&& command@ == text_or_empty(arguments.command)
                &&& args@ == strings_or_empty(arguments.args)
                &&& preconditions.device_preconditions@.len() == 0
                &&& results_url@.len() == 0
                &&& (arguments.volumes matches Some(v) ==> volumes@ == v@)
                &&& (arguments.volumes is None ==> volumes@.len() == 0)
                &&& (arguments.devices matches Some(v) ==> devices@ == v@)
                &&& (arguments.devices is None ==> devices@.len() == 0)
                &&& (arguments.ports matches Some(v) ==> ports@ == v@)
                &&& (arguments.ports is None ==> ports@.len() == 0)
                &&& (arguments.args matches Some(v) ==> args@ == v@)
                &&& (arguments.args is None ==> args@.len() == 0)
                &&& (arguments.name matches Some(n) ==> name@ == n@)
                &&& (arguments.name is None ==> name@.len() == 0)
                &&& (arguments.command matches Some(c) ==> command@ == c@)
                &&& (arguments.command is None ==> command@.len() == 0)
            },
            ExecutorDescriptor::Executable => false,
        },
{
    let descriptor = ExecutorDescriptor::Container {
        engine: engine_of(arguments.engine),
        name: text_or_new(arguments.name),
        image: arguments.image,
        volumes: strings_or_new(arguments.volumes),
        devices: strings_or_new(arguments.devices),
        envs,
        ports: strings_or_new(arguments.ports),
        command: text_or_new(arguments.command),
        args: strings_or_new(arguments.args),
        preconditions: ExecutorPreconditions { device_preconditions: Vec::new() },
        results_url: String::new(),
    };
    (arguments.peer_id, descriptor)
}

/// Whether `descriptor` names a peer: a container with at least one device precondition.
pub open spec fn names_peer(descriptor: ExecutorDescriptor) -> bool {
    match descriptor {
        ExecutorDescriptor::Container { preconditions, .. } => preconditions.device_preconditions@.len() > 0,
        ExecutorDescriptor::Executable => false,
    }
}

/// The peer that an executor read from a JSON file belongs to: the device of
/// its first device precondition. An executable is refused.
pub fn peer_of_descriptor(descriptor: &ExecutorDescriptor) -> (peer: Result<u128, String>)
    requires
        descriptor is Container ==> names_peer(*descriptor),
    ensures
        match *descriptor {
            ExecutorDescriptor::Container { preconditions, .. } => peer == Ok::<u128, String>(
                preconditions.device_preconditions@[0].device_id,
            ),
            ExecutorDescriptor::Executable => peer matches Err(message)
                && message@ == "Expected a Container ExecutorDescriptor, but got Executable"@,
        },
{
    match descriptor {
        ExecutorDescriptor::Container { preconditions, .. } => {
            Ok(preconditions.device_preconditions[0].device_id)
        },
        ExecutorDescriptor::Executable => {
            Err("Expected a Container ExecutorDescriptor, but got Executable".to_owned())
        },
    }
}

/// An assignment written `NAME=VALUE`, with no `=` in its name, splits into
/// exactly that name and value; the value may hold further `=`.
pub proof fn lemma_assignment_of_name_and_value(name: Seq<char>, value: Seq<char>)
    requires
        !name.contains('='),
    ensures
        assignment(name + seq!['='] + value) == Some((name, value)),
{
    let text = name + seq!['='] + value;
    text.index_of_first_ensures('=');
    assert(text[name.len() as int] == '=');
    assert(text.contains('='));
    let i = text.index_of_first('=').unwrap();
    if i < name.len() {
        assert(name[i] == text[i]);
        assert(name.contains('='));
    }
    assert(i == name.len());
    assert(text.take(i) =~= name);
    assert(text.skip(i + 1) =~= value);
}

/// A text without `=` is no assignment.
pub proof fn lemma_no_equals_no_assignment(text: Seq<char>)
    requires
        !text.contains('='),
    ensures
        assignment(text) is None,
{
    text.index_of_first_ensures('=');
}

/// Splitting loses nothing: name, `=` and value make up the text again, and
/// the name holds no `=`.
pub proof fn lemma_assignment_rebuilds_text(text: Seq<char>)
    ensures
        assignment(text) matches Some((name, value)) ==> text == name + seq!['='] + value && !name.contains('='),
{
    text.index_of_first_ensures('=');
    if let Some(i) = text.index_of_first('=') {
        assert(text =~= text.take(i) + seq!['='] + text.skip(i + 1));
        if text.take(i).contains('=') {
            let j = choose|j: int| 0 <= j < text.take(i).len() && text.take(i)[j] == '=';
            assert(text[j] == '=');
        }
    }
}

/// Environment lists split piecewise: the assignments of two lists are those
/// of each, in order.
pub proof fn lemma_assignments_of_concatenation(first: Seq<Seq<char>>, second: Seq<Seq<char>>)
    ensures
        assignments(first + second) == assignments(first) + assignments(second),
    decreases second.len(),
{
    if second.len() == 0 {
        assert(first + second =~= first);
        assert(assignments(first) + assignments(second) =~= assignments(first));
    } else {
        lemma_assignments_of_concatenation(first, second.drop_last());
        assert((first + second).drop_last() =~= first + second.drop_last());
        assert((first + second).last() == second.last());
        let rest = assignments(first) + assignments(second.drop_last());
        match assignment(second.last()) {
            Some(pair) => {
                assert(rest.push(pair) =~= assignments(first) + assignments(second));
            },
            None => {},
        }
    }
}

/// A single `NAME=VALUE` text, with no `=` in its name, gives exactly the
/// one assignment of `VALUE` to `NAME`, whatever the value, the empty one
/// included.
pub proof fn lemma_single_assignment(name: Seq<char>, value: Seq<char>)
    ensures
        !name.contains('=') ==> assignments(seq![name + seq!['='] + value]) == seq![(name, value)],
{
    let texts = seq![name + seq!['='] + value];
    assert(texts.drop_last() =~= Seq::<Seq<char>>::empty());
    if !name.contains('=') {
        lemma_assignment_of_name_and_value(name, value);
        assert(assignments(texts.drop_last()).len() == 0);
        assert(texts.last() == name + seq!['='] + value);
        assert(assignments(texts) =~= seq![(name, value)]);
    }
}

/// A text without `=` gives no assignment.
pub proof fn lemma_text_without_equals_is_dropped(text: Seq<char>)
    ensures
        !text.contains('=') ==> assignments(seq![text]).len() == 0,
{
    assert(seq![text].drop_last() =~= Seq::<Seq<char>>::empty());
    if !text.contains('=') {
        lemma_no_equals_no_assignment(text);
        assert(assignments(seq![text].drop_last()).len() == 0);
        assert(seq![text].last() == text);
    }
}

/// There is one assignment per text that contains `=`, in the order of the
/// texts, and each is that text split at its first `=`.
pub proof fn lemma_one_assignment_per_text_with_equals(texts: Seq<Seq<char>>)
    ensures
        assignments(texts).len() == texts.filter(|t: Seq<char>| t.contains('=')).len(),
        forall|k: int|
            #![trigger assignments(texts)[k]]
            0 <= k < assignments(texts).len() ==> {
                let text = texts.filter(|t: Seq<char>| t.contains('='))[k];
                &&& text == assignments(texts)[k].0 + seq!['='] + assignments(texts)[k].1
                &&& !assignments(texts)[k].0.contains('=')
            },
    decreases texts.len(),
{
    reveal_with_fuel(Seq::<_>::filter, 1);
    if texts.len() > 0 {
        lemma_one_assignment_per_text_with_equals(texts.drop_last());
        let last = texts.last();
        last.index_of_first_ensures('=');
        lemma_assignment_rebuilds_text(last);
        let rest = assignments(texts.drop_last());
        let with_equals = texts.drop_last().filter(|t: Seq<char>| t.contains('='));
        assert forall|k: int|
            #![trigger assignments(texts)[k]]
            0 <= k < assignments(texts).len() implies {
                let text = texts.filter(|t: Seq<char>| t.contains('='))[k];
                &&& text == assignments(texts)[k].0 + seq!['='] + assignments(texts)[k].1
                &&& !assignments(texts)[k].0.contains('=')
            } by {
            if k < rest.len() {
                assert(assignments(texts)[k] == rest[k]);
                assert(texts.filter(|t: Seq<char>| t.contains('='))[k] == with_equals[k]);
                assert(rest[k] == assignments(texts.drop_last())[k]);
            }
        }
    }
}

/// A list given on the command line reaches the descriptor unchanged, every
/// entry in its place; an absent list is the empty one. So is an optional text.
pub proof fn lemma_optional_values_pass_unchanged(strings: Option<Vec<String>>, text: Option<String>)
    ensures
        strings matches Some(v) ==> strings_or_empty(strings) == v@,
        strings is None ==> strings_or_empty(strings).len() == 0,
        text matches Some(t) ==> text_or_empty(text) == t@,
        text is None ==> text_or_empty(text).len() == 0,
{
}

/// The engine chosen on the command line is the engine the container runs
/// under: Docker for Docker, Podman for Podman.
pub proof fn lemma_engine_choice_is_kept(variant: EngineVariants)
    ensures
        (variant is Docker) <==> (engine_spec(variant) is Docker),
        (variant is Podman) <==> (engine_spec(variant) is Podman),
{
}

} // verus!
