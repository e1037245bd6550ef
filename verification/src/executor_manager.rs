use crate::executor::{
    container_configurations, container_positions, lemma_container_positions_in_range, present_values, to_container_configuration,
    ContainerConfiguration, ExecutorDescriptor, Parameter, ParameterTarget,
};
use crate::termination::{send, termination_channel, TerminationReceiver, TerminationSender};
use vstd::prelude::*;
use vstd::std_specs::iter::IteratorSpec;

verus! {

/// A container that is to be started, with the receiving end of the channel
/// on which it learns that it shall terminate.
pub struct ContainerLaunch {
    pub configuration: ContainerConfiguration,
    pub termination: TerminationReceiver,
}

/// Keeps the termination channels of the executors that were started.
pub struct ExecutorManager {
    tx_termination_channels: Vec<TerminationSender>,
    retired: Ghost<Seq<TerminationSender>>,
}

impl View for ExecutorManager {
    type V = Seq<TerminationSender>;

    /// The senders of the executors started since the last termination.
    closed spec fn view(&self) -> Seq<TerminationSender> {
        self.tx_termination_channels@
    }
}

/// Whether `after` is `before` once it has been sent the termination signal,
/// with `delivered` telling whether a receiver was still there to get it.
pub open spec fn signalled(before: TerminationSender, after: TerminationSender, delivered: bool) -> bool {
    &&& after.channel() == before.channel()
    &&& after.sent() == before.sent().push(true)
    &&& after.value() == if delivered {
        true
    } else {
        before.value()
    }
}

impl ExecutorManager {
    /// Every sender that a termination let go of, in the state it was left in,
    /// oldest first.
    pub closed spec fn retired(&self) -> Seq<TerminationSender> {
        self.retired@
    }

    /// A manager that has not started any executor yet.
    pub fn create() -> (manager: Self)
        ensures
            manager@.len() == 0,
            manager.retired().len() == 0,
    {
        ExecutorManager { tx_termination_channels: Vec::new(), retired: Ghost(Seq::empty()) }
    }

    /// Starts an executor for every parameter whose target is `Present`: each
    /// gets a new termination channel holding `false`, whose sender is kept,
    /// and each container among them is handed back, in order, with the
    /// receiver of its channel.
    pub fn create_new_executors(&mut self, executors: Vec<Parameter<ExecutorDescriptor>>) -> (launches: Vec<ContainerLaunch>)
        ensures
            final(self)@.len() == old(self)@.len() + present_values(executors@).len(),
            final(self)@.subrange(0, old(self)@.len() as int) == old(self)@,
            final(self).retired() == old(self).retired(),
            forall|i: int|
                #![trigger final(self)@[i]]
                old(self)@.len() <= i < final(self)@.len() ==> {
                    &&& final(self)@[i].sent() == Seq::<bool>::empty()
                    &&& final(self)@[i].value() == false
                },
            launches@.map_values(|launch: ContainerLaunch| launch.configuration)
                == container_configurations(present_values(executors@)),
            launches@.len() == container_positions(present_values(executors@)).len(),
            forall|k: int|
                #![trigger launches@[k]]
                0 <= k < launches@.len() ==> launches@[k].termination.channel() == final(self)@[old(self)@.len()
                    + container_positions(present_values(executors@))[k]].channel(),
    {
        let ghost old_channels = self@;
        let ghost all = executors@;
        let mut launches: Vec<ContainerLaunch> = Vec::new();
        let mut present: Ghost<Seq<ExecutorDescriptor>> = Ghost(Seq::empty());
        for executor in it: executors.into_iter()
            invariant
                all == it.seq(),
                present@ == present_values(all.take(it.index() as int)),
                self@.len() == old_channels.len() + present@.len(),
                self@.subrange(0, old_channels.len() as int) == old_channels,
                self.retired() == old(self).retired(),
                forall|i: int|
                    #![trigger self@[i]]
                    old_channels.len() <= i < self@.len() ==> {
                        &&& self@[i].sent() == Seq::<bool>::empty()
                        &&& self@[i].value() == false
                    },
                launches@.map_values(|launch: ContainerLaunch| launch.configuration)
                    == container_configurations(present@),
                launches@.len() == container_positions(present@).len(),
                forall|k: int|
                    #![trigger launches@[k]]
                    0 <= k < launches@.len() ==> launches@[k].termination.channel() == self@[old_channels.len()
                        + container_positions(present@)[k]].channel(),
        {
            proof {
                assert(all.take(it.index() + 1).drop_last() == all.take(it.index() as int));
                assert(all.take(it.index() + 1).last() == executor);
            }
            match executor.target {
                ParameterTarget::Present => {
                    let (tx, rx) = termination_channel(false);
                    let ghost descriptor = executor.value;
                    let ghost held_before = self@;
                    let ghost launches_before = launches@;
                    let ghost positions_before = container_positions(present@);
                    match to_container_configuration(executor.value) {
                        Some(configuration) => {
                            launches.push(ContainerLaunch { configuration, termination: rx });
                        },
                        None => {},
                    }
                    self.tx_termination_channels.push(tx);
                    proof {
                        assert(present@.push(descriptor).drop_last() =~= present@);
                        assert(self@ == held_before.push(tx));
                        lemma_container_positions_in_range(present@);
                        assert(held_before.len() == old_channels.len() + present@.len());
                        present@ = present@.push(descriptor);
                        assert forall|k: int|
                            #![trigger launches@[k]]
                            0 <= k < launches@.len() implies launches@[k].termination.channel()
                                == self@[old_channels.len() + container_positions(present@)[k]].channel() by {
                            if k < launches_before.len() {
                                assert(launches@[k] == launches_before[k]);
                                assert(container_positions(present@)[k] == positions_before[k]);
                                assert(launches_before[k].termination.channel() == held_before[old_channels.len()
                                    + positions_before[k]].channel());
                            } else {
                                assert(container_positions(present@)[k] == present@.len() - 1);
                            }
                        }
                    }
                },
                ParameterTarget::Absent => {},
            }
            proof {
                assert(launches@.map_values(|launch: ContainerLaunch| launch.configuration)
                    =~= container_configurations(present@));
                assert(self@.subrange(0, old_channels.len() as int) =~= old_channels);
            }
        }
        proof {
            assert(all.take(all.len() as int) == all);
        }
        launches
    }

    /// Sends the termination signal `true` once on every sender held, in
    /// order, also past senders whose receivers are gone, then lets go of them
    /// all. Reports, per sender, whether a receiver was still there to get it.
    pub fn terminate_executors(&mut self) -> (delivered: Vec<bool>)
        ensures
            final(self)@.len() == 0,
            delivered@.len() == old(self)@.len(),
            final(self).retired().len() == old(self).retired().len() + old(self)@.len(),
            final(self).retired().subrange(0, old(self).retired().len() as int) == old(self).retired(),
            forall|i: int|
                #![trigger old(self)@[i]]
                0 <= i < old(self)@.len() ==> signalled(
                    old(self)@[i],
                    final(self).retired()[old(self).retired().len() + i],
                    delivered@[i],
                ),
            old(self)@.len() == 0 ==> final(self).retired() == old(self).retired(),
    {
        let ghost before = self@;
        let ghost old_retired = self.retired@;
        let mut held: Vec<TerminationSender> = Vec::new();
        std::mem::swap(&mut held, &mut self.tx_termination_channels);
        let mut done: Vec<TerminationSender> = Vec::new();
        let mut delivered: Vec<bool> = Vec::new();
        for sender in it: held.into_iter()
            invariant
                before == it.seq(),
                done@.len() == it.index(),
                delivered@.len() == it.index(),
                self.tx_termination_channels@.len() == 0,
                self.retired@ == old_retired,
                forall|i: int|
                    #![trigger before[i]]
                    0 <= i < it.index() ==> signalled(before[i], done@[i], delivered@[i]),
        {
            let mut sender = sender;
            let result = send(&mut sender, true);
            let ok = match result {
                Ok(()) => true,
                Err(_) => false,
            };
            done.push(sender);
            delivered.push(ok);
        }
        self.retired = Ghost(old_retired + done@);
        proof {
            assert(self.retired@.subrange(0, old_retired.len() as int) =~= old_retired);
            assert forall|i: int|
                #![trigger before[i]]
                0 <= i < before.len() implies signalled(
                    before[i],
                    self.retired@[old_retired.len() + i],
                    delivered@[i],
                ) by {
                assert(self.retired@[old_retired.len() + i] == done@[i]);
            }
            if before.len() == 0 {
                assert(self.retired@ =~= old_retired);
            }
        }
        delivered
    }
}

} // verus!
