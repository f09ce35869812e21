//! Named chains of stages: a profile bundles a chain under a name, and
//! reports failures under that name.
use vstd::prelude::*;
use std::borrow::Cow;
use crate::context::Context;
use crate::process::{ChainedProcess, EmptyProcess, Process};
use crate::stage::Stage;

pub mod preset;

verus! {

/// Why a profile could not normalize a text.
#[derive(Debug)]
pub enum ProfileError {
    /// The profile's chain failed: profile name, then the stage's message.
    Failed(&'static str, String),
}

impl ProfileError {
    /// The human-readable message of the error.
    pub fn message(&self) -> (r: String)
        ensures
            r@ == self.spec_message(),
    {
        let mut out = String::new();
        match self {
            ProfileError::Failed(name, reason) => {
                out.append("Normalization failed at profile `");
                out.append(name);
                out.append("`: ");
                out.append(reason.as_str());
            },
        }
        out
    }

    pub open spec fn spec_message(&self) -> Seq<char> {
        match self {
            ProfileError::Failed(name, reason) => "Normalization failed at profile `"@ + name@
                + "`: "@ + reason@,
        }
    }
}

/// A named chain of stages.
pub struct Profile<P: Process> {
    name: &'static str,
    pipeline: P,
}

impl<P: Process> Profile<P> {
    pub closed spec fn name(&self) -> &'static str {
        self.name
    }

    pub closed spec fn pipeline(&self) -> P {
        self.pipeline
    }

    /// Runs the chain on `text`; a stage's failure is reported under the
    /// profile's name.
    pub fn run<'a>(&self, text: Cow<'a, str>, ctx: &Context) -> (r: Result<
        Cow<'a, str>,
        ProfileError,
    >)
        ensures
            r matches Ok(out) && out@ == self.pipeline().spec_process(text@, ctx),
            self.pipeline().spec_untouched(text@, ctx) ==> r == Ok::<Cow<'a, str>, ProfileError>(
                text,
            ),
    {
        match self.pipeline.process(text, ctx) {
            Ok(out) => Ok(out),
            Err(e) => Err(ProfileError::Failed(self.name, e.message())),
        }
    }
}

impl Profile<EmptyProcess> {
    /// A builder for a profile named `name`, with no stage yet.
    pub fn builder(name: &'static str) -> (r: ProfileBuilder<EmptyProcess>)
        ensures
            r.name() == name,
            r.pipeline() == EmptyProcess,
    {
        ProfileBuilder::new(name)
    }
}

/// Builds a `Profile`, one stage at a time.
pub struct ProfileBuilder<P: Process> {
    name: &'static str,
    current: P,
}

impl ProfileBuilder<EmptyProcess> {
    pub fn new(name: &'static str) -> (r: Self)
        ensures
            r.name() == name,
            r.pipeline() == EmptyProcess,
    {
        ProfileBuilder { name, current: EmptyProcess }
    }
}

impl<P: Process> ProfileBuilder<P> {
    pub closed spec fn name(&self) -> &'static str {
        self.name
    }

    pub closed spec fn pipeline(&self) -> P {
        self.current
    }

    /// Appends `stage` to the chain.
    pub fn add_stage<S: Stage>(self, stage: S) -> (r: ProfileBuilder<ChainedProcess<S, P>>)
        ensures
            r.name() == self.name(),
            r.pipeline() == (ChainedProcess { stage, previous: self.pipeline() }),
    {
        ProfileBuilder { name: self.name, current: ChainedProcess { stage, previous: self.current } }
    }

    /// The profile.
    pub fn build(self) -> (r: Profile<P>)
        ensures
            r.name() == self.name(),
            r.pipeline() == self.pipeline(),
    {
        Profile { name: self.name, pipeline: self.current }
    }
}

} // verus!
