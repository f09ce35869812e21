//! Stage-by-stage fusion: each fusable stage runs as its adapter over the
//! text the earlier stages produced, and a stage whose adapter changed
//! nothing hands that text on as it came.
use vstd::prelude::*;
use std::borrow::Cow;
use crate::context::Context;
use crate::process::{BuildIter, ChainedProcess, EmptyProcess, cow_str};
use crate::stage::{Stage, StageError, StaticFusableStage};
use crate::text::str_eq;

verus! {

/// A chain whose fusable stages run as adapters, one stage at a time.
pub trait FusedProcess: BuildIter {
    /// What the stage-by-stage fused run makes of `text`.
    spec fn spec_fused_process(&self, text: Seq<char>, ctx: &Context) -> Seq<char>;

    /// Whether no stage changes `text` in the stage-by-stage run, so that
    /// the input is handed back as it came.
    spec fn spec_fused_untouched(&self, text: Seq<char>, ctx: &Context) -> bool;

    /// The texts on which the stage-by-stage run computes what the chain
    /// computes.
    spec fn spec_stagewise_sound(&self, text: Seq<char>, ctx: &Context) -> bool;

    fn process_fused<'a>(&self, text: &'a str, ctx: &Context) -> (r: Result<
        Cow<'a, str>,
        StageError,
    >)
        ensures
            r matches Ok(out) && out@ == self.spec_fused_process(text@, ctx),
            self.spec_fused_untouched(text@, ctx) ==> r == Ok::<Cow<'a, str>, StageError>(
                Cow::Borrowed(text),
            ),
    ;

    /// On a text where each stage's adapter agrees with its `apply`, and each
    /// quick check is sound, the stage-by-stage run computes what the chain
    /// computes.
    proof fn lemma_fused_process_is_process(&self, text: Seq<char>, ctx: &Context)
        requires
            self.spec_stagewise_sound(text, ctx),
        ensures
            self.spec_fused_process(text, ctx) == self.spec_process(text, ctx),
    ;
}

impl FusedProcess for EmptyProcess {
    open spec fn spec_fused_process(&self, text: Seq<char>, ctx: &Context) -> Seq<char> {
        text
    }

    open spec fn spec_fused_untouched(&self, text: Seq<char>, ctx: &Context) -> bool {
        true
    }

    open spec fn spec_stagewise_sound(&self, text: Seq<char>, ctx: &Context) -> bool {
        true
    }

    fn process_fused<'a>(&self, text: &'a str, ctx: &Context) -> (r: Result<
        Cow<'a, str>,
        StageError,
    >) {
        Ok(Cow::Borrowed(text))
    }

    proof fn lemma_fused_process_is_process(&self, text: Seq<char>, ctx: &Context) {
    }
}

impl<S: Stage + StaticFusableStage, P: FusedProcess> FusedProcess for ChainedProcess<S, P> {
    open spec fn spec_fused_process(&self, text: Seq<char>, ctx: &Context) -> Seq<char> {
        let before = self.previous.spec_fused_process(text, ctx);
        if !self.stage.spec_supports_static_fusion() {
            if self.stage.spec_needs_apply(before, ctx) {
                self.stage.spec_apply(before, ctx)
            } else {
                before
            }
        } else {
            self.stage.spec_fused(before, ctx)
        }
    }

    open spec fn spec_fused_untouched(&self, text: Seq<char>, ctx: &Context) -> bool {
        let before = self.previous.spec_fused_process(text, ctx);
        &&& self.previous.spec_fused_untouched(text, ctx)
        &&& if !self.stage.spec_supports_static_fusion() {
            !self.stage.spec_needs_apply(before, ctx)
        } else {
            self.stage.spec_fused(before, ctx) == before
        }
    }

    open spec fn spec_stagewise_sound(&self, text: Seq<char>, ctx: &Context) -> bool {
        let current = self.previous.spec_process(text, ctx);
        &&& self.previous.spec_stagewise_sound(text, ctx)
        &&& self.stage.spec_supports_static_fusion() ==> {
            &&& self.stage.spec_fused_sound(current, ctx)
            &&& self.stage.spec_skip_sound(current, ctx)
        }
    }

    fn process_fused<'a>(&self, text: &'a str, ctx: &Context) -> (r: Result<
        Cow<'a, str>,
        StageError,
    >) {
        let before = match FusedProcess::process_fused(&self.previous, text, ctx) {
            Ok(c) => c,
            Err(e) => return Err(e),
        };
        if !self.stage.supports_static_fusion() {
            let needs = match self.stage.needs_apply(cow_str(&before), ctx) {
                Ok(b) => b,
                Err(e) => return Err(e),
            };
            if !needs {
                return Ok(before);
            }
            return self.stage.apply(before, ctx);
        }
        let result = self.stage.fused_apply(cow_str(&before), ctx);
        if str_eq(result.as_str(), cow_str(&before)) {
            return Ok(before);
        }
        Ok(Cow::Owned(result))
    }

    proof fn lemma_fused_process_is_process(&self, text: Seq<char>, ctx: &Context) {
        self.previous.lemma_fused_process_is_process(text, ctx);
        let current = self.previous.spec_process(text, ctx);
        if self.stage.spec_supports_static_fusion() {
            self.stage.lemma_fused_is_apply(current, ctx);
            if !self.stage.spec_needs_apply(current, ctx) {
                self.stage.lemma_apply_when_not_needed(current, ctx);
            }
        }
    }
}

} // verus!
