//! The order of a patch-application transaction: each operation checks the
//! current state and moves to the next one only when it succeeds.

use vstd::prelude::*;

verus! {

/// Where a build stands.
#[derive(Clone, Copy, Debug, PartialEq, Eq, Structural)]
pub enum BuildState {
    Created,
    ConfigLoaded,
    SourceMounted,
    Linked,
    Patched,
    Serialized,
    Done,
}

/// The operations of a build, one per transition.
#[derive(Clone, Copy, Debug, PartialEq, Eq, Structural)]
pub enum BuildStep {
    LoadConfig,
    MountSource,
    Link,
    Patch,
    Serialize,
    Finish,
}

/// Why a build operation was refused.
#[derive(Clone, Copy, Debug, PartialEq, Eq, Structural)]
pub enum BuildError {
    /// The operation does not follow the current state.
    InvalidBuilderState,
    /// The configuration names no source image.
    MissingSource,
    /// The configuration names neither an output image nor a symbol map.
    MissingOutput,
    /// Patch code is configured but no link base address is.
    MissingLinkBase,
}

/// The fields of a configuration that the build order depends on.
#[derive(Clone, Copy, Debug, PartialEq, Eq, Structural)]
pub struct ConfigSummary {
    pub has_source: bool,
    pub has_output_image: bool,
    pub has_output_map: bool,
    pub has_patch_code: bool,
    pub has_link_base: bool,
}

/// The state after `step` from `state`, or `None` when `step` is out of
/// order. Linking is required before patching only when there is patch code.
pub open spec fn transition(state: BuildState, step: BuildStep, has_patch_code: bool) -> Option<
    BuildState,
> {
    match (state, step) {
        (BuildState::Created, BuildStep::LoadConfig) => Some(BuildState::ConfigLoaded),
        (BuildState::ConfigLoaded, BuildStep::MountSource) => Some(BuildState::SourceMounted),
        (BuildState::SourceMounted, BuildStep::Link) => Some(BuildState::Linked),
        (BuildState::SourceMounted, BuildStep::Patch) => if has_patch_code {
            None
        } else {
            Some(BuildState::Patched)
        },
        (BuildState::Linked, BuildStep::Patch) => Some(BuildState::Patched),
        (BuildState::Patched, BuildStep::Serialize) => Some(BuildState::Serialized),
        (BuildState::Serialized, BuildStep::Finish) => Some(BuildState::Done),
        _ => None,
    }
}

/// The first missing required field of a configuration, if any.
pub open spec fn config_problem(c: ConfigSummary) -> Option<BuildError> {
    if !c.has_source {
        Some(BuildError::MissingSource)
    } else if !c.has_output_image && !c.has_output_map {
        Some(BuildError::MissingOutput)
    } else if c.has_patch_code && !c.has_link_base {
        Some(BuildError::MissingLinkBase)
    } else {
        None
    }
}

/// The next state of a build, or `InvalidBuilderState`.
pub fn next_state(state: BuildState, step: BuildStep, has_patch_code: bool) -> (r: Result<
    BuildState,
    BuildError,
>)
    ensures
        r matches Ok(s) ==> transition(state, step, has_patch_code) == Some(s),
        r matches Err(e) ==> transition(state, step, has_patch_code) is None && e
            == BuildError::InvalidBuilderState,
{
    match (state, step) {
        (BuildState::Created, BuildStep::LoadConfig) => Ok(BuildState::ConfigLoaded),
        (BuildState::ConfigLoaded, BuildStep::MountSource) => Ok(BuildState::SourceMounted),
        (BuildState::SourceMounted, BuildStep::Link) => Ok(BuildState::Linked),
        (BuildState::SourceMounted, BuildStep::Patch) => if has_patch_code {
            Err(BuildError::InvalidBuilderState)
        } else {
            Ok(BuildState::Patched)
        },
        (BuildState::Linked, BuildStep::Patch) => Ok(BuildState::Patched),
        (BuildState::Patched, BuildStep::Serialize) => Ok(BuildState::Serialized),
        (BuildState::Serialized, BuildStep::Finish) => Ok(BuildState::Done),
        _ => Err(BuildError::InvalidBuilderState),
    }
}

/// The first missing required field of a configuration, if any.
pub fn validate_config(c: &ConfigSummary) -> (r: Option<BuildError>)
    ensures
        r == config_problem(*c),
{
    if !c.has_source {
        Some(BuildError::MissingSource)
    } else if !c.has_output_image && !c.has_output_map {
        Some(BuildError::MissingOutput)
    } else if c.has_patch_code && !c.has_link_base {
        Some(BuildError::MissingLinkBase)
    } else {
        None
    }
}

/// A build transaction's progress.
pub struct Builder {
    state: BuildState,
    has_patch_code: bool,
}

impl Builder {
    /// The current state.
    pub closed spec fn state_spec(&self) -> BuildState {
        self.state
    }

    /// Whether the loaded configuration holds patch code.
    pub closed spec fn patch_code_spec(&self) -> bool {
        self.has_patch_code
    }

    /// A build that has done nothing yet.
    pub fn new() -> (r: Builder)
        ensures
            r.state_spec() == BuildState::Created,
            !r.patch_code_spec(),
    {
        Builder { state: BuildState::Created, has_patch_code: false }
    }

    /// The current state.
    pub fn state(&self) -> (r: BuildState)
        ensures
            r == self.state_spec(),
    {
        self.state
    }

    /// Loads a configuration: refused out of order, or when a required field
    /// is missing; otherwise the build is `ConfigLoaded`.
    pub fn load_config(&mut self, config: &ConfigSummary) -> (r: Result<(), BuildError>)
        ensures
            old(self).state_spec() != BuildState::Created ==> r == Err::<(), BuildError>(
                BuildError::InvalidBuilderState,
            ),
            old(self).state_spec() == BuildState::Created ==> match config_problem(*config) {
                Some(e) => r == Err::<(), BuildError>(e),
                None => r is Ok,
            },
            r is Ok ==> final(self).state_spec() == BuildState::ConfigLoaded
                && final(self).patch_code_spec() == config.has_patch_code,
            r is Err ==> *final(self) == *old(self),
    {
        if self.state != BuildState::Created {
            return Err(BuildError::InvalidBuilderState);
        }
        match validate_config(config) {
            Some(e) => Err(e),
            None => {
                self.state = BuildState::ConfigLoaded;
                self.has_patch_code = config.has_patch_code;
                Ok(())
            },
        }
    }

    /// Takes one step of the build; the state changes only on success.
    pub fn advance(&mut self, step: BuildStep) -> (r: Result<BuildState, BuildError>)
        ensures
            final(self).patch_code_spec() == old(self).patch_code_spec(),
            step == BuildStep::LoadConfig ==> r == Err::<BuildState, BuildError>(
                BuildError::InvalidBuilderState,
            ) && *final(self) == *old(self),
            step != BuildStep::LoadConfig ==> match transition(
                old(self).state_spec(),
                step,
                old(self).patch_code_spec(),
            ) {
                Some(s) => r == Ok::<BuildState, BuildError>(s) && final(self).state_spec() == s,
                None => r == Err::<BuildState, BuildError>(BuildError::InvalidBuilderState)
                    && *final(self) == *old(self),
            },
    {
        if step == BuildStep::LoadConfig {
            return Err(BuildError::InvalidBuilderState);
        }
        match next_state(self.state, step, self.has_patch_code) {
            Ok(s) => {
                self.state = s;
                Ok(s)
            },
            Err(e) => Err(e),
        }
    }
}

/// With patch code configured, patching straight after mounting the source
/// (before linking) is refused.
pub proof fn lemma_patch_requires_link()
    ensures
        transition(BuildState::SourceMounted, BuildStep::Patch, true) is None,
        forall|s: BuildState|
            #[trigger] transition(s, BuildStep::Patch, true) is Some ==> s == BuildState::Linked,
{
}

/// Every accepted step moves the build strictly forward, so no state is
/// entered twice.
pub proof fn lemma_transitions_advance(s: BuildState, step: BuildStep, p: bool)
    requires
        transition(s, step, p) is Some,
    ensures
        rank(transition(s, step, p)->0) > rank(s),
{
}

/// The position of a state in the build order.
pub open spec fn rank(s: BuildState) -> int {
    match s {
        BuildState::Created => 0,
        BuildState::ConfigLoaded => 1,
        BuildState::SourceMounted => 2,
        BuildState::Linked => 3,
        BuildState::Patched => 4,
        BuildState::Serialized => 5,
        BuildState::Done => 6,
    }
}

} // verus!
