//! The control plane: commands that reconfigure a running pipeline.
//!
//! A command goes to every element, or to the elements of one plugin. For sources and
//! outputs it is fanned out to the command channel of each element that it targets; for
//! transforms it becomes a mask that is or-ed into, or and-not-ed out of, the shared
//! word of flags.

use crate::pipeline::output::OutputCmd;
use crate::pipeline::source::{SourceCmd, SourceError, SourceType};
use crate::pipeline::transform::{
    is_active, mask_of, transform_mask, TransformCmd, TransformError, ALL_ACTIVE, MAX_TRANSFORMS,
};
use crate::pipeline::output::WriteError;
use crate::pipeline::trigger::Trigger;
use vstd::prelude::*;

verus! {

/// A message for an element of the pipeline. The first field is the plugin whose
/// elements are meant; `None` means all.
#[derive(Debug)]
pub enum ControlMessage {
    Source(Option<String>, SourceCmd),
    Output(Option<String>, OutputCmd),
    Transform(Option<String>, TransformCmd),
}

/// A handle on the control plane with its scope chosen: all plugins, or one.
#[derive(Debug)]
pub struct ScopedControlHandle {
    pub plugin_name: Option<String>,
}

impl ScopedControlHandle {
    /// The scope of every plugin.
    pub fn all() -> (h: Self)
        ensures
            h.plugin_name is None,
    {
        ScopedControlHandle { plugin_name: None }
    }

    /// The scope of the plugin `plugin_name`.
    pub fn plugin(plugin_name: String) -> (h: Self)
        ensures
            h.plugin_name == Some(plugin_name),
    {
        ScopedControlHandle { plugin_name: Some(plugin_name) }
    }

    /// The message that sends `command` to the sources of the scope.
    pub fn control_sources(self, command: SourceCmd) -> (m: ControlMessage)
        ensures
            m == ControlMessage::Source(self.plugin_name, command),
    {
        ControlMessage::Source(self.plugin_name, command)
    }

    /// The message that sends `command` to the transforms of the scope.
    pub fn control_transforms(self, command: TransformCmd) -> (m: ControlMessage)
        ensures
            m == ControlMessage::Transform(self.plugin_name, command),
    {
        ControlMessage::Transform(self.plugin_name, command)
    }

    /// The message that sends `command` to the outputs of the scope.
    pub fn control_outputs(self, command: OutputCmd) -> (m: ControlMessage)
        ensures
            m == ControlMessage::Output(self.plugin_name, command),
    {
        ControlMessage::Output(self.plugin_name, command)
    }
}

/// What the control task does with a message.
#[derive(Debug)]
#[allow(inconsistent_fields)]
pub enum ControlEffect {
    /// Send `command` to the sources at the positions `targets`, in that order.
    Sources { targets: Vec<usize>, command: SourceCmd },
    /// Send `command` to the outputs at the positions `targets`, in that order.
    Outputs { targets: Vec<usize>, command: OutputCmd },
    /// Or `mask` into the flags (`Enable`), or and them with its complement (`Disable`).
    Transforms { mask: u64, command: TransformCmd },
}

/// The positions of the elements that a command for `scope` targets, in ascending
/// order: all of them, or those of the plugin named.
pub open spec fn targets(plugins: Seq<Seq<char>>, scope: Option<Seq<char>>) -> Seq<usize>
    decreases plugins.len(),
{
    if plugins.len() == 0 {
        Seq::empty()
    } else {
        let rest = targets(plugins.drop_last(), scope);
        if scope is None || scope == Some(plugins.last()) {
            rest.push((plugins.len() - 1) as usize)
        } else {
            rest
        }
    }
}

/// The mask of the transforms of the plugin `name`.
pub open spec fn plugin_mask(plugins: Seq<Seq<char>>, name: Seq<char>) -> u64
    decreases plugins.len(),
{
    if plugins.len() == 0 {
        0
    } else {
        let rest = plugin_mask(plugins.drop_last(), name);
        if plugins.last() == name {
            rest | mask_of((plugins.len() - 1) as usize)
        } else {
            rest
        }
    }
}

/// The mask that a command for `scope` works on: all ones, or the mask of the plugin.
pub open spec fn scope_mask(plugins: Seq<Seq<char>>, scope: Option<Seq<char>>) -> u64 {
    match scope {
        None => ALL_ACTIVE,
        Some(name) => plugin_mask(plugins, name),
    }
}

/// Whether the plugin `name` has an element among `plugins`.
pub open spec fn has_plugin(plugins: Seq<Seq<char>>, name: Seq<char>) -> bool {
    exists|i: int| 0 <= i < plugins.len() && plugins[i] == name
}

/// A position is targeted iff its element belongs to the scope. The positions come in
/// ascending order, each once.
pub proof fn lemma_targets(plugins: Seq<Seq<char>>, scope: Option<Seq<char>>)
    requires
        plugins.len() <= usize::MAX,
    ensures
        forall|i: usize|
            i < plugins.len() ==> (#[trigger] targets(plugins, scope).contains(i) <==> (scope
                is None || scope == Some(plugins[i as int]))),
        forall|k: int|
            0 <= k < targets(plugins, scope).len() ==> #[trigger] targets(plugins, scope)[k]
                < plugins.len(),
        forall|k: int, l: int|
            0 <= k < l < targets(plugins, scope).len() ==> targets(plugins, scope)[k] < targets(
                plugins,
                scope,
            )[l],
    decreases plugins.len(),
{
    if plugins.len() > 0 {
        let init = plugins.drop_last();
        lemma_targets(init, scope);
        let rest = targets(init, scope);
        let all = targets(plugins, scope);
        let n = (plugins.len() - 1) as usize;
        let hit = scope is None || scope == Some(plugins.last());
        assert forall|i: usize| i < plugins.len() implies (#[trigger] all.contains(i) <==> (scope
            is None || scope == Some(plugins[i as int]))) by {
            if i < n {
                assert(init[i as int] == plugins[i as int]);
                assert(rest.contains(i) <==> (scope is None || scope == Some(init[i as int])));
                if rest.contains(i) {
                    let k = choose|k: int| 0 <= k < rest.len() && rest[k] == i;
                    assert(all[k] == i);
                }
                if all.contains(i) {
                    let k = choose|k: int| 0 <= k < all.len() && all[k] == i;
                    if k < rest.len() {
                        assert(rest[k] == i);
                    }
                }
            } else {
                if hit {
                    assert(all[all.len() - 1] == n);
                } else {
                    if all.contains(n) {
                        let k = choose|k: int| 0 <= k < all.len() && all[k] == n;
                        assert(rest[k] < init.len());
                    }
                }
            }
        }
        assert forall|k: int| 0 <= k < all.len() implies #[trigger] all[k] < plugins.len() by {
            if k < rest.len() {
                assert(rest[k] < init.len());
            }
        }
        assert forall|k: int, l: int| 0 <= k < l < all.len() implies all[k] < all[l] by {
            if l < rest.len() {
                assert(rest[k] < rest[l]);
            } else {
                assert(rest[k] < init.len());
            }
        }
    }
}

/// The mask of a plugin covers the transforms of that plugin and no other.
pub proof fn lemma_plugin_mask(plugins: Seq<Seq<char>>, name: Seq<char>, index: usize)
    requires
        plugins.len() <= MAX_TRANSFORMS,
        index < MAX_TRANSFORMS,
    ensures
        is_active(plugin_mask(plugins, name), index) <==> (index < plugins.len()
            && plugins[index as int] == name),
    decreases plugins.len(),
{
    if plugins.len() == 0 {
        let i = index as u64;
        assert(0u64 & (1u64 << i) == 0) by (bit_vector);
    } else {
        let init = plugins.drop_last();
        lemma_plugin_mask(init, name, index);
        let rest = plugin_mask(init, name);
        let n = (plugins.len() - 1) as usize;
        let i = index as u64;
        let j = n as u64;
        if index < n {
            assert(init[index as int] == plugins[index as int]);
        }
        assert(((rest | (1u64 << j)) & (1u64 << i) != 0) == ((rest & (1u64 << i) != 0) || i == j))
            by (bit_vector)
            requires
                i < 64,
                j < 64,
        ;
    }
}

/// The command senders and the masks of a running pipeline, as the control task holds
/// them: for each source, each output and each transform, the plugin that owns it.
#[derive(Debug)]
pub struct PipelineControllerState {
    sources: Vec<String>,
    outputs: Vec<String>,
    transforms: Vec<String>,
}

impl PipelineControllerState {
    /// The plugin of each source, by position.
    pub closed spec fn source_plugins(&self) -> Seq<Seq<char>> {
        self.sources.deep_view()
    }

    /// The plugin of each output, by position.
    pub closed spec fn output_plugins(&self) -> Seq<Seq<char>> {
        self.outputs.deep_view()
    }

    /// The plugin of each transform, by position in the chain.
    pub closed spec fn transform_plugins(&self) -> Seq<Seq<char>> {
        self.transforms.deep_view()
    }

    /// The invariant of the type: one word of flags can control the transforms.
    pub open spec fn wf(&self) -> bool {
        self.transform_plugins().len() <= MAX_TRANSFORMS
    }

    /// Whether the message targets what exists: all elements, or a plugin that has an
    /// element of the kind that the message is for.
    pub open spec fn handles(&self, message: &ControlMessage) -> bool {
        match message {
            ControlMessage::Source(Some(name), _) => has_plugin(self.source_plugins(), name@),
            ControlMessage::Output(Some(name), _) => has_plugin(self.output_plugins(), name@),
            ControlMessage::Transform(Some(name), _) => has_plugin(
                self.transform_plugins(),
                name@,
            ),
            _ => true,
        }
    }

    /// A state without elements.
    pub fn new() -> (s: Self)
        ensures
            s.wf(),
            s.source_plugins().len() == 0,
            s.output_plugins().len() == 0,
            s.transform_plugins().len() == 0,
    {
        PipelineControllerState { sources: Vec::new(), outputs: Vec::new(), transforms: Vec::new() }
    }

    /// Adds a source of `plugin` and gives its position.
    pub fn add_source(&mut self, plugin: String) -> (index: usize)
        ensures
            index == old(self).source_plugins().len(),
            final(self).source_plugins() == old(self).source_plugins().push(plugin@),
            final(self).output_plugins() == old(self).output_plugins(),
            final(self).transform_plugins() == old(self).transform_plugins(),
    {
        let index = self.sources.len();
        self.sources.push(plugin);
        assert(self.sources.deep_view() =~= old(self).sources.deep_view().push(plugin@));
        index
    }

    /// Adds an output of `plugin` and gives its position.
    pub fn add_output(&mut self, plugin: String) -> (index: usize)
        ensures
            index == old(self).output_plugins().len(),
            final(self).output_plugins() == old(self).output_plugins().push(plugin@),
            final(self).source_plugins() == old(self).source_plugins(),
            final(self).transform_plugins() == old(self).transform_plugins(),
    {
        let index = self.outputs.len();
        self.outputs.push(plugin);
        assert(self.outputs.deep_view() =~= old(self).outputs.deep_view().push(plugin@));
        index
    }

    /// Adds a transform of `plugin` at the end of the chain and gives its position;
    /// `None`, and nothing changes, if the chain is full.
    pub fn add_transform(&mut self, plugin: String) -> (index: Option<usize>)
        requires
            old(self).wf(),
        ensures
            final(self).wf(),
            final(self).source_plugins() == old(self).source_plugins(),
            final(self).output_plugins() == old(self).output_plugins(),
            match index {
                Some(i) => i == old(self).transform_plugins().len()
                    && final(self).transform_plugins() == old(self).transform_plugins().push(
                    plugin@,
                ),
                None => old(self).transform_plugins().len() == MAX_TRANSFORMS
                    && final(self).transform_plugins() == old(self).transform_plugins(),
            },
    {
        let index = self.transforms.len();
        if index >= MAX_TRANSFORMS {
            return None;
        }
        self.transforms.push(plugin);
        assert(self.transforms.deep_view() =~= old(self).transforms.deep_view().push(plugin@));
        Some(index)
    }

    /// Whether `message` can be handed to `handle_message`.
    pub fn can_handle(&self, message: &ControlMessage) -> (b: bool)
        ensures
            b == self.handles(message),
    {
        match message {
            ControlMessage::Source(Some(name), _) => owns_element(&self.sources, name),
            ControlMessage::Output(Some(name), _) => owns_element(&self.outputs, name),
            ControlMessage::Transform(Some(name), _) => owns_element(&self.transforms, name),
            _ => true,
        }
    }

    /// Decides what a control message does.
    pub fn handle_message(&self, message: ControlMessage) -> (effect: ControlEffect)
        requires
            self.wf(),
            self.handles(&message),
        ensures
            match message {
                ControlMessage::Source(scope, command) => {
                    &&& effect matches ControlEffect::Sources { targets: t, command: c }
                    &&& c == command
                    &&& t@ == targets(self.source_plugins(), scope.deep_view())
                },
                ControlMessage::Output(scope, command) => {
                    &&& effect matches ControlEffect::Outputs { targets: t, command: c }
                    &&& c == command
                    &&& t@ == targets(self.output_plugins(), scope.deep_view())
                },
                ControlMessage::Transform(scope, command) => {
                    &&& effect matches ControlEffect::Transforms { mask, command: c }
                    &&& c == command
                    &&& mask == scope_mask(self.transform_plugins(), scope.deep_view())
                },
            },
    {
        match message {
            ControlMessage::Source(scope, command) => ControlEffect::Sources {
                targets: targets_in(&self.sources, &scope),
                command,
            },
            ControlMessage::Output(scope, command) => ControlEffect::Outputs {
                targets: targets_in(&self.outputs, &scope),
                command,
            },
            ControlMessage::Transform(scope, command) => {
                let mask = match &scope {
                    None => ALL_ACTIVE,
                    Some(name) => mask_in(&self.transforms, name),
                };
                ControlEffect::Transforms { mask, command }
            },
        }
    }
}

fn owns_element(plugins: &Vec<String>, name: &String) -> (b: bool)
    ensures
        b == has_plugin(plugins.deep_view(), name@),
{
    let mut i: usize = 0;
    while i < plugins.len()
        invariant
            i <= plugins.len(),
            forall|j: int| 0 <= j < i ==> plugins.deep_view()[j] != name@,
        decreases plugins.len() - i,
    {
        if plugins[i] == *name {
            assert(plugins.deep_view()[i as int] == name@);
            return true;
        }
        i = i + 1;
    }
    false
}

fn targets_in(plugins: &Vec<String>, scope: &Option<String>) -> (t: Vec<usize>)
    ensures
        t@ == targets(plugins.deep_view(), scope.deep_view()),
{
    let ghost all = plugins.deep_view();
    let ghost sc = scope.deep_view();
    let mut t: Vec<usize> = Vec::new();
    let mut i: usize = 0;
    while i < plugins.len()
        invariant
            i <= plugins.len(),
            all == plugins.deep_view(),
            sc == scope.deep_view(),
            t@ == targets(all.take(i as int), sc),
        decreases plugins.len() - i,
    {
        let hit = match scope {
            None => true,
            Some(name) => plugins[i] == *name,
        };
        proof {
            assert(all.take(i + 1).drop_last() =~= all.take(i as int));
            assert(all.take(i + 1).last() == all[i as int]);
        }
        if hit {
            t.push(i);
        }
        i = i + 1;
    }
    assert(all.take(plugins.len() as int) =~= all);
    t
}

fn mask_in(plugins: &Vec<String>, name: &String) -> (mask: u64)
    requires
        plugins.len() <= MAX_TRANSFORMS,
    ensures
        mask == plugin_mask(plugins.deep_view(), name@),
{
    let ghost all = plugins.deep_view();
    let mut mask: u64 = 0;
    let mut i: usize = 0;
    while i < plugins.len()
        invariant
            i <= plugins.len(),
            plugins.len() <= MAX_TRANSFORMS,
            all == plugins.deep_view(),
            mask == plugin_mask(all.take(i as int), name@),
        decreases plugins.len() - i,
    {
        proof {
            assert(all.take(i + 1).drop_last() =~= all.take(i as int));
            assert(all.take(i + 1).last() == all[i as int]);
        }
        if plugins[i] == *name {
            mask = mask | transform_mask(i);
        }
        i = i + 1;
    }
    assert(all.take(plugins.len() as int) =~= all);
    mask
}

/// A source as the pipeline is given it.
#[derive(Debug)]
pub struct ConfiguredSource {
    pub plugin_name: String,
    pub source_type: SourceType,
    pub trigger: Trigger,
}

/// The pool of workers that a task runs on.
#[derive(Clone, Copy, Debug, PartialEq, Eq, Structural)]
pub enum Pool {
    /// The shared pool.
    Normal,
    /// The pool of high scheduling priority.
    Priority,
}

/// Why a pipeline cannot start.
#[derive(Clone, Copy, Debug, PartialEq, Eq, Structural)]
pub enum StartError {
    /// There are more transforms than one word of flags can control.
    TooManyTransforms,
    /// A source asks for the priority pool, which is not there.
    NoPriorityPool,
}

/// How to start the sources of a pipeline, and the state of its control plane.
#[derive(Debug)]
pub struct StartPlan {
    pub state: PipelineControllerState,
    /// The flags at the start: every transform is active.
    pub active_transforms: u64,
    /// For each source, the pool that runs it.
    pub pools: Vec<Pool>,
    /// For each source, its first command, which sets its trigger.
    pub first_commands: Vec<SourceCmd>,
}

/// Whether a source asks for the priority pool.
pub open spec fn wants_priority(sources: Seq<ConfiguredSource>) -> bool {
    exists|i: int|
        0 <= i < sources.len() && (#[trigger] sources[i]).source_type
            == SourceType::RealtimePriority
}

/// Prepares the start of a pipeline. `outputs` and `transforms` name the plugin of each
/// output and of each transform of the chain. The tasks are to be started from the end
/// of the pipeline: outputs, then the transform task, then the sources.
pub fn plan_start(
    outputs: Vec<String>,
    transforms: Vec<String>,
    sources: Vec<ConfiguredSource>,
    has_priority_pool: bool,
) -> (r: Result<StartPlan, StartError>)
    ensures
        match r {
            Err(StartError::TooManyTransforms) => transforms.len() > MAX_TRANSFORMS,
            Err(StartError::NoPriorityPool) => transforms.len() <= MAX_TRANSFORMS
                && !has_priority_pool && wants_priority(sources@),
            Ok(plan) => {
                &&& transforms.len() <= MAX_TRANSFORMS
                &&& has_priority_pool || !wants_priority(sources@)
                &&& plan.state.wf()
                &&& plan.state.output_plugins() == outputs.deep_view()
                &&& plan.state.transform_plugins() == transforms.deep_view()
                &&& plan.state.source_plugins().len() == sources.len()
                &&& plan.active_transforms == ALL_ACTIVE
                &&& plan.pools.len() == sources.len()
                &&& plan.first_commands.len() == sources.len()
                &&& forall|i: int|
                    0 <= i < sources.len() ==> {
                        &&& plan.state.source_plugins()[i] == (#[trigger] sources[i]).plugin_name@
                        &&& plan.pools[i] == (if sources[i].source_type
                            == SourceType::RealtimePriority {
                            Pool::Priority
                        } else {
                            Pool::Normal
                        })
                        &&& plan.first_commands[i] == SourceCmd::SetTrigger(Some(sources[i].trigger))
                    }
            },
        },
{
    if transforms.len() > MAX_TRANSFORMS {
        return Err(StartError::TooManyTransforms);
    }
    let mut names: Vec<String> = Vec::new();
    let mut pools: Vec<Pool> = Vec::new();
    let mut first_commands: Vec<SourceCmd> = Vec::new();
    let mut i: usize = 0;
    while i < sources.len()
        invariant
            i <= sources.len(),
            transforms.len() <= MAX_TRANSFORMS,
            names.len() == i,
            pools.len() == i,
            first_commands.len() == i,
            has_priority_pool || forall|j: int|
                0 <= j < i ==> (#[trigger] sources[j]).source_type != SourceType::RealtimePriority,
            forall|j: int|
                0 <= j < i ==> {
                    &&& names[j]@ == (#[trigger] sources[j]).plugin_name@
                    &&& pools[j] == (if sources[j].source_type == SourceType::RealtimePriority {
                        Pool::Priority
                    } else {
                        Pool::Normal
                    })
                    &&& first_commands[j] == SourceCmd::SetTrigger(Some(sources[j].trigger))
                },
        decreases sources.len() - i,
    {
        let source = &sources[i];
        let pool = match source.source_type {
            SourceType::Normal => Pool::Normal,
            SourceType::RealtimePriority => {
                if !has_priority_pool {
                    assert(sources[i as int].source_type == SourceType::RealtimePriority);
                    return Err(StartError::NoPriorityPool);
                }
                Pool::Priority
            },
        };
        names.push(source.plugin_name.clone());
        pools.push(pool);
        first_commands.push(SourceCmd::SetTrigger(Some(source.trigger)));
        i = i + 1;
    }
    let state = PipelineControllerState { sources: names, outputs, transforms };
    assert(state.source_plugins().len() == sources.len());
    Ok(StartPlan { state, active_transforms: ALL_ACTIVE, pools, first_commands })
}

/// Why a pipeline ended with an error.
#[derive(Clone, Copy, Debug, PartialEq, Eq, Structural)]
pub enum PipelineError {
    Source(SourceError),
    Transform(TransformError),
    Output(WriteError),
}

/// The first failure of the tasks in the order in which they are waited for: the
/// sources by position, then the transform task, then the outputs by position.
pub open spec fn first_failure_of(
    sources: Seq<Result<(), SourceError>>,
    transform: Result<(), TransformError>,
    outputs: Seq<Result<(), WriteError>>,
) -> Option<PipelineError> {
    if exists|i: int| 0 <= i < sources.len() && sources[i] is Err {
        let i = choose|i: int|
            0 <= i < sources.len() && sources[i] is Err && forall|j: int|
                0 <= j < i ==> sources[j] is Ok;
        Some(PipelineError::Source(sources[i]->Err_0))
    } else if transform is Err {
        Some(PipelineError::Transform(transform->Err_0))
    } else if exists|i: int| 0 <= i < outputs.len() && outputs[i] is Err {
        let i = choose|i: int|
            0 <= i < outputs.len() && outputs[i] is Err && forall|j: int|
                0 <= j < i ==> outputs[j] is Ok;
        Some(PipelineError::Output(outputs[i]->Err_0))
    } else {
        None
    }
}

/// What waiting for all the tasks of a pipeline gives: the error of the first task that
/// failed, if one did.
pub fn wait_for_all(
    sources: &Vec<Result<(), SourceError>>,
    transform: &Result<(), TransformError>,
    outputs: &Vec<Result<(), WriteError>>,
) -> (r: Result<(), PipelineError>)
    ensures
        match first_failure_of(sources@, *transform, outputs@) {
            Some(e) => r == Err::<(), PipelineError>(e),
            None => r.is_ok(),
        },
{
    let mut i: usize = 0;
    while i < sources.len()
        invariant
            i <= sources.len(),
            forall|j: int| 0 <= j < i ==> sources[j] is Ok,
        decreases sources.len() - i,
    {
        if let Err(e) = &sources[i] {
            proof {
                let c = choose|c: int|
                    0 <= c < sources.len() && sources[c] is Err && forall|j: int|
                        0 <= j < c ==> sources[j] is Ok;
                assert(sources[i as int] is Err && forall|j: int|
                    0 <= j < i ==> sources[j] is Ok);
                if c < i {
                    assert(sources[c] is Ok);
                } else if i < c {
                    assert(sources[i as int] is Ok);
                }
            }
            return Err(PipelineError::Source(*e));
        }
        i = i + 1;
    }
    if let Err(e) = transform {
        return Err(PipelineError::Transform(*e));
    }
    let mut k: usize = 0;
    while k < outputs.len()
        invariant
            k <= outputs.len(),
            forall|j: int| 0 <= j < sources.len() ==> sources[j] is Ok,
            transform is Ok,
            forall|j: int| 0 <= j < k ==> outputs[j] is Ok,
        decreases outputs.len() - k,
    {
        if let Err(e) = &outputs[k] {
            proof {
                let c = choose|c: int|
                    0 <= c < outputs.len() && outputs[c] is Err && forall|j: int|
                        0 <= j < c ==> outputs[j] is Ok;
                assert(outputs[k as int] is Err && forall|j: int|
                    0 <= j < k ==> outputs[j] is Ok);
                if c < k {
                    assert(outputs[c] is Ok);
                } else if k < c {
                    assert(outputs[k as int] is Ok);
                }
            }
            return Err(PipelineError::Output(*e));
        }
        k = k + 1;
    }
    Ok(())
}

} // verus!
