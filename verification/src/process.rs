//! Chains of stages, built at compile time: a chain runs its stages one
//! after the other, skipping each stage whose quick check says it has
//! nothing to do, and hands the input back untouched when no stage ran.
use vstd::prelude::*;
use std::borrow::Cow;
use std::sync::Arc;
use crate::context::Context;
use crate::stage::{Stage, StageError, StaticFusableStage};

verus! {

/// The borrowed text of a `Cow`.
pub fn cow_str<'b, 'a>(text: &'b Cow<'a, str>) -> (r: &'b str)
    ensures
        r@ == text@,
{
    match text {
        Cow::Borrowed(b) => b,
        Cow::Owned(o) => o.as_str(),
    }
}

/// A sequence of stages that turns a text into its normalized form.
pub trait Process {
    /// What the chain makes of `text`.
    spec fn spec_process(&self, text: Seq<char>, ctx: &Context) -> Seq<char>;

    /// Whether every stage of the chain skips `text`, so that the chain
    /// hands it back as it came.
    spec fn spec_untouched(&self, text: Seq<char>, ctx: &Context) -> bool;

    /// The number of stages in the chain.
    spec fn spec_len(&self) -> nat;

    fn process<'a>(&self, text: Cow<'a, str>, ctx: &Context) -> (r: Result<
        Cow<'a, str>,
        StageError,
    >)
        ensures
            r matches Ok(out) && out@ == self.spec_process(text@, ctx),
            self.spec_untouched(text@, ctx) ==> r == Ok::<Cow<'a, str>, StageError>(text),
    ;

    /// A text that no stage touches comes out unchanged.
    proof fn lemma_untouched_is_identity(&self, text: Seq<char>, ctx: &Context)
        requires
            self.spec_untouched(text, ctx),
        ensures
            self.spec_process(text, ctx) == text,
    ;
}

/// A chain that can also run as one pass of fused adapters.
pub trait BuildIter: Process {
    /// Whether some stage of the chain has work to do on the original text.
    spec fn spec_any_needs_apply(&self, text: Seq<char>, ctx: &Context) -> bool;

    /// What the adapters of all stages, stacked, yield over `text`.
    spec fn spec_build(&self, text: Seq<char>, ctx: &Context) -> Seq<char>;

    /// Whether every stage supports fusion.
    spec fn spec_all_fusable(&self) -> bool;

    /// The texts on which the fused pass computes what the chain computes:
    /// each stage's adapter agrees with its `apply` on the text that reaches
    /// it, and each stage's quick check is sound there.
    spec fn spec_fusion_sound(&self, text: Seq<char>, ctx: &Context) -> bool;

    fn any_needs_apply(&self, text: &str, ctx: &Context) -> (r: Result<bool, StageError>)
        ensures
            r == Ok::<bool, StageError>(self.spec_any_needs_apply(text@, ctx)),
    ;

    /// Runs the adapters of all stages over the characters of `text`.
    fn build_iter(&self, text: &str, ctx: &Context) -> (r: String)
        ensures
            r@ == self.spec_build(text@, ctx),
    ;

    /// Runs the chain as one fused pass; when no stage has work to do on
    /// the original text, the text comes back as it came.
    fn process_fused<'a>(&self, text: Cow<'a, str>, ctx: &Context) -> (r: Result<
        Cow<'a, str>,
        StageError,
    >)
        ensures
            r matches Ok(out) && out@ == (if self.spec_any_needs_apply(text@, ctx) {
                self.spec_build(text@, ctx)
            } else {
                text@
            }),
            !self.spec_any_needs_apply(text@, ctx) ==> r == Ok::<Cow<'a, str>, StageError>(text),
    {
        let needs = match self.any_needs_apply(cow_str(&text), ctx) {
            Ok(b) => b,
            Err(e) => return Err(e),
        };
        if !needs {
            return Ok(text);
        }
        let result = self.build_iter(cow_str(&text), ctx);
        Ok(Cow::Owned(result))
    }

    /// Where no stage has work to do on the original text, no stage has
    /// work to do on what reaches it either, and the chain leaves the text
    /// as it is.
    proof fn lemma_no_need_is_untouched(&self, text: Seq<char>, ctx: &Context)
        requires
            !self.spec_any_needs_apply(text, ctx),
        ensures
            self.spec_untouched(text, ctx),
            self.spec_process(text, ctx) == text,
    ;

    /// Whether every stage is sound everywhere under the rules of `ctx`.
    spec fn spec_sound_everywhere(&self, ctx: &Context) -> bool;

    /// A chain whose stages are all sound everywhere is fusion-sound on
    /// every text.
    proof fn lemma_fusion_sound_everywhere(&self, text: Seq<char>, ctx: &Context)
        requires
            self.spec_sound_everywhere(ctx),
        ensures
            self.spec_fusion_sound(text, ctx),
    ;

    /// On a text where fusion is sound and some stage has work to do, the
    /// fused pass computes what the chain computes.
    proof fn lemma_build_is_process(&self, text: Seq<char>, ctx: &Context)
        requires
            self.spec_all_fusable(),
            self.spec_fusion_sound(text, ctx),
        ensures
            self.spec_build(text, ctx) == self.spec_process(text, ctx),
    ;
}

/// The chain with no stage.
pub struct EmptyProcess;

impl Process for EmptyProcess {
    open spec fn spec_process(&self, text: Seq<char>, ctx: &Context) -> Seq<char> {
        text
    }

    open spec fn spec_untouched(&self, text: Seq<char>, ctx: &Context) -> bool {
        true
    }

    open spec fn spec_len(&self) -> nat {
        0
    }

    fn process<'a>(&self, text: Cow<'a, str>, ctx: &Context) -> (r: Result<
        Cow<'a, str>,
        StageError,
    >) {
        Ok(text)
    }

    proof fn lemma_untouched_is_identity(&self, text: Seq<char>, ctx: &Context) {
    }
}

impl BuildIter for EmptyProcess {
    open spec fn spec_sound_everywhere(&self, ctx: &Context) -> bool {
        true
    }

    proof fn lemma_fusion_sound_everywhere(&self, text: Seq<char>, ctx: &Context) {
    }

    open spec fn spec_any_needs_apply(&self, text: Seq<char>, ctx: &Context) -> bool {
        false
    }

    open spec fn spec_build(&self, text: Seq<char>, ctx: &Context) -> Seq<char> {
        text
    }

    open spec fn spec_all_fusable(&self) -> bool {
        true
    }

    open spec fn spec_fusion_sound(&self, text: Seq<char>, ctx: &Context) -> bool {
        true
    }

    fn any_needs_apply(&self, text: &str, ctx: &Context) -> (r: Result<bool, StageError>) {
        Ok(false)
    }

    fn build_iter(&self, text: &str, ctx: &Context) -> (r: String) {
        text.to_owned()
    }

    proof fn lemma_no_need_is_untouched(&self, text: Seq<char>, ctx: &Context) {
    }

    proof fn lemma_build_is_process(&self, text: Seq<char>, ctx: &Context) {
    }
}

/// A chain: the stages of `previous`, then `stage`.
pub struct ChainedProcess<S, P> {
    pub stage: S,
    pub previous: P,
}

impl<S: Stage, P: Process> Process for ChainedProcess<S, P> {
    open spec fn spec_process(&self, text: Seq<char>, ctx: &Context) -> Seq<char> {
        let current = self.previous.spec_process(text, ctx);
        if self.stage.spec_needs_apply(current, ctx) {
            self.stage.spec_apply(current, ctx)
        } else {
            current
        }
    }

    open spec fn spec_untouched(&self, text: Seq<char>, ctx: &Context) -> bool {
        &&& self.previous.spec_untouched(text, ctx)
        &&& !self.stage.spec_needs_apply(self.previous.spec_process(text, ctx), ctx)
    }

    open spec fn spec_len(&self) -> nat {
        self.previous.spec_len() + 1
    }

    fn process<'a>(&self, text: Cow<'a, str>, ctx: &Context) -> (r: Result<
        Cow<'a, str>,
        StageError,
    >) {
        let current = match self.previous.process(text, ctx) {
            Ok(c) => c,
            Err(e) => return Err(e),
        };
        let needs = match self.stage.needs_apply(cow_str(&current), ctx) {
            Ok(b) => b,
            Err(e) => return Err(e),
        };
        if !needs {
            return Ok(current);
        }
        self.stage.apply(current, ctx)
    }

    proof fn lemma_untouched_is_identity(&self, text: Seq<char>, ctx: &Context) {
        self.previous.lemma_untouched_is_identity(text, ctx);
    }
}

impl<S: Stage + StaticFusableStage, P: BuildIter> BuildIter for ChainedProcess<S, P> {
    open spec fn spec_sound_everywhere(&self, ctx: &Context) -> bool {
        self.previous.spec_sound_everywhere(ctx) && self.stage.spec_sound_everywhere(ctx)
    }

    proof fn lemma_fusion_sound_everywhere(&self, text: Seq<char>, ctx: &Context) {
        self.previous.lemma_fusion_sound_everywhere(text, ctx);
        self.stage.lemma_sound_everywhere(self.previous.spec_process(text, ctx), ctx);
    }

    open spec fn spec_any_needs_apply(&self, text: Seq<char>, ctx: &Context) -> bool {
        self.previous.spec_any_needs_apply(text, ctx) || self.stage.spec_needs_apply(text, ctx)
    }

    open spec fn spec_build(&self, text: Seq<char>, ctx: &Context) -> Seq<char> {
        let before = self.previous.spec_build(text, ctx);
        if self.stage.spec_supports_static_fusion() {
            self.stage.spec_fused(before, ctx)
        } else {
            before
        }
    }

    open spec fn spec_all_fusable(&self) -> bool {
        self.previous.spec_all_fusable() && self.stage.spec_supports_static_fusion()
    }

    open spec fn spec_fusion_sound(&self, text: Seq<char>, ctx: &Context) -> bool {
        let current = self.previous.spec_process(text, ctx);
        &&& self.previous.spec_fusion_sound(text, ctx)
        &&& self.stage.spec_fused_sound(current, ctx)
        &&& self.stage.spec_skip_sound(current, ctx)
    }

    fn any_needs_apply(&self, text: &str, ctx: &Context) -> (r: Result<bool, StageError>) {
        let prev = match self.previous.any_needs_apply(text, ctx) {
            Ok(b) => b,
            Err(e) => return Err(e),
        };
        if prev {
            return Ok(true);
        }
        self.stage.needs_apply(text, ctx)
    }

    fn build_iter(&self, text: &str, ctx: &Context) -> (r: String) {
        let before = self.previous.build_iter(text, ctx);
        self.stage.fused_apply(before.as_str(), ctx)
    }

    proof fn lemma_no_need_is_untouched(&self, text: Seq<char>, ctx: &Context) {
        self.previous.lemma_no_need_is_untouched(text, ctx);
    }

    proof fn lemma_build_is_process(&self, text: Seq<char>, ctx: &Context) {
        self.previous.lemma_build_is_process(text, ctx);
        let current = self.previous.spec_process(text, ctx);
        self.stage.lemma_fused_is_apply(current, ctx);
        if !self.stage.spec_needs_apply(current, ctx) {
            self.stage.lemma_apply_when_not_needed(current, ctx);
        }
    }
}

/// What running `stages` in order makes of `text`, each stage skipped when
/// its quick check on what reaches it says it has nothing to do.
pub open spec fn spec_run_stages(stages: Seq<Arc<dyn Stage>>, text: Seq<char>, ctx: &Context) -> Seq<
    char,
>
    decreases stages.len(),
{
    if stages.len() == 0 {
        text
    } else {
        let before = spec_run_stages(stages.drop_last(), text, ctx);
        if stages.last().spec_needs_apply(before, ctx) {
            stages.last().spec_apply(before, ctx)
        } else {
            before
        }
    }
}

/// Whether every stage of `stages` skips what reaches it.
pub open spec fn spec_skips_all(stages: Seq<Arc<dyn Stage>>, text: Seq<char>, ctx: &Context) -> bool
    decreases stages.len(),
{
    stages.len() == 0 || (spec_skips_all(stages.drop_last(), text, ctx) && !stages.last().spec_needs_apply(
        spec_run_stages(stages.drop_last(), text, ctx),
        ctx,
    ))
}

proof fn lemma_skips_all_is_identity(stages: Seq<Arc<dyn Stage>>, text: Seq<char>, ctx: &Context)
    requires
        spec_skips_all(stages, text, ctx),
    ensures
        spec_run_stages(stages, text, ctx) == text,
    decreases stages.len(),
{
    if stages.len() > 0 {
        lemma_skips_all_is_identity(stages.drop_last(), text, ctx);
    }
}

/// `std::slice::from_ref`: the one-element slice that holds `stage`.
#[verifier::external_body]
pub(crate) fn stage_slice(stage: &Arc<dyn Stage>) -> (r: &[Arc<dyn Stage>])
    ensures
        r@.len() == 1,
        r@[0] == *stage,
{
    std::slice::from_ref(stage)
}

/// Stages chosen at run time, run in order; each one is skipped when its
/// quick check says it has nothing to do.
pub struct DynamicProcess {
    stages: Vec<Arc<dyn Stage>>,
}

impl DynamicProcess {
    /// The stages, in the order they run.
    pub closed spec fn stages(&self) -> Seq<Arc<dyn Stage>> {
        self.stages@
    }

    /// The process with no stage.
    pub fn new() -> (r: DynamicProcess)
        ensures
            r.stages().len() == 0,
    {
        DynamicProcess { stages: Vec::new() }
    }

    /// The process that runs `stages` in order.
    pub(crate) fn from_stages(stages: Vec<Arc<dyn Stage>>) -> (r: DynamicProcess)
        ensures
            r.stages() == stages@,
    {
        DynamicProcess { stages }
    }
}

impl Default for DynamicProcess {
    fn default() -> (r: DynamicProcess)
        ensures
            r.stages().len() == 0,
    {
        DynamicProcess::new()
    }
}

impl Process for DynamicProcess {
    open spec fn spec_process(&self, text: Seq<char>, ctx: &Context) -> Seq<char> {
        spec_run_stages(self.stages(), text, ctx)
    }

    open spec fn spec_untouched(&self, text: Seq<char>, ctx: &Context) -> bool {
        spec_skips_all(self.stages(), text, ctx)
    }

    open spec fn spec_len(&self) -> nat {
        self.stages().len()
    }

    fn process<'a>(&self, text: Cow<'a, str>, ctx: &Context) -> (r: Result<
        Cow<'a, str>,
        StageError,
    >) {
        let mut current = text;
        let n = self.stages.len();
        let mut i: usize = 0;
        while i < n
            invariant
                n == self.stages@.len(),
                i <= n,
                current@ == spec_run_stages(self.stages@.take(i as int), text@, ctx),
                spec_skips_all(self.stages@.take(i as int), text@, ctx) ==> current == text,
            decreases n - i,
        {
            let stage = &self.stages[i];
            assert(self.stages@.take(i + 1).drop_last() =~= self.stages@.take(i as int));
            assert(self.stages@.take(i + 1).last() == self.stages@[i as int]);
            let needs = match stage.needs_apply(cow_str(&current), ctx) {
                Ok(b) => b,
                Err(e) => return Err(e),
            };
            if needs {
                current = match stage.apply(current, ctx) {
                    Ok(c) => c,
                    Err(e) => return Err(e),
                };
            }
            i = i + 1;
        }
        assert(self.stages@.take(n as int) =~= self.stages@);
        Ok(current)
    }

    proof fn lemma_untouched_is_identity(&self, text: Seq<char>, ctx: &Context) {
        lemma_skips_all_is_identity(self.stages(), text, ctx);
    }
}

} // verus!
