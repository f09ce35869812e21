//! The entry point: a language context and a chain of stages, built once
//! and then run on any number of texts.
use vstd::prelude::*;
use std::borrow::Cow;
use std::sync::Arc;
use crate::context::Context;
use crate::lang::{Lang, LangEntry};
use crate::lang::data::{DEFAULT_LANG, spec_lang_entry};
use crate::process::{BuildIter, ChainedProcess, DynamicProcess, EmptyProcess, Process, stage_slice};
use crate::stage::{Stage, StageError, StaticFusableStage};

verus! {

/// Why normalization failed.
#[derive(Debug)]
pub enum NormyError {
    /// A stage failed.
    Stage(StageError),
}

impl NormyError {
    /// The human-readable message of the error: that of the stage error.
    pub fn message(&self) -> (r: String)
        ensures
            r@ == self.spec_message(),
    {
        match self {
            NormyError::Stage(e) => e.message(),
        }
    }

    pub open spec fn spec_message(&self) -> Seq<char> {
        match self {
            NormyError::Stage(e) => e.spec_message(),
        }
    }
}

impl From<StageError> for NormyError {
    fn from(e: StageError) -> (r: NormyError) {
        NormyError::Stage(e)
    }
}

impl vstd::std_specs::convert::FromSpecImpl<StageError> for NormyError {
    open spec fn obeys_from_spec() -> bool {
        true
    }

    open spec fn from_spec(v: StageError) -> NormyError {
        NormyError::Stage(v)
    }
}

/// A built normalizer: a context, a chain of stages, and what the builder
/// learned of the chain.
pub struct Normy<P: Process> {
    ctx: Context,
    pipeline: P,
    all_fusable: bool,
    stage_count: usize,
}

impl<P: Process> Normy<P> {
    /// The context every stage is run with.
    pub closed spec fn ctx(&self) -> Context {
        self.ctx
    }

    /// The chain of stages.
    pub closed spec fn pipeline(&self) -> P {
        self.pipeline
    }

    /// Whether every stage added supports fusion.
    pub closed spec fn all_fusable(&self) -> bool {
        self.all_fusable
    }

    /// How many stages were added.
    pub closed spec fn stage_count(&self) -> nat {
        self.stage_count as nat
    }

    /// Whether `normalize` runs the chain as one fused pass: every stage
    /// supports fusion, and there is more than one.
    pub fn uses_fusion(&self) -> (r: bool)
        ensures
            r == (self.all_fusable() && self.stage_count() > 1),
    {
        self.all_fusable && self.stage_count > 1
    }
}

impl<P: BuildIter> Normy<P> {
    /// The builder's record of fusability matches the chain.
    pub open spec fn wf(&self) -> bool {
        self.all_fusable() == self.pipeline().spec_all_fusable()
    }

    /// What `normalize` makes of `text`.
    pub open spec fn spec_normalize(&self, text: Seq<char>) -> Seq<char> {
        if self.all_fusable() && self.stage_count() > 1 {
            if self.pipeline().spec_any_needs_apply(text, &self.ctx()) {
                self.pipeline().spec_build(text, &self.ctx())
            } else {
                text
            }
        } else {
            self.pipeline().spec_process(text, &self.ctx())
        }
    }

    /// Normalizes `text` by the fastest way the chain allows: as one fused
    /// pass when every stage supports fusion and there is more than one,
    /// stage by stage otherwise. A text that needs no work comes back
    /// borrowed.
    pub fn normalize<'a>(&'a self, text: &'a str) -> (r: Result<Cow<'a, str>, NormyError>)
        ensures
            r matches Ok(out) && out@ == self.spec_normalize(text@),
            (self.all_fusable() && self.stage_count() > 1) ==> (!self.pipeline().spec_any_needs_apply(
                text@,
                &self.ctx(),
            ) ==> r == Ok::<Cow<'a, str>, NormyError>(Cow::Borrowed(text))),
            !(self.all_fusable() && self.stage_count() > 1) ==> (self.pipeline().spec_untouched(
                text@,
                &self.ctx(),
            ) ==> r == Ok::<Cow<'a, str>, NormyError>(Cow::Borrowed(text))),
    {
        let out = if self.uses_fusion() {
            self.pipeline.process_fused(Cow::Borrowed(text), &self.ctx)
        } else {
            self.pipeline.process(Cow::Borrowed(text), &self.ctx)
        };
        match out {
            Ok(c) => Ok(c),
            Err(e) => Err(NormyError::Stage(e)),
        }
    }

    /// Normalizes `text` stage by stage, building each stage's output in
    /// full, even where the chain could run fused.
    pub fn normalize_no_fusion<'a>(&'a self, text: &'a str) -> (r: Result<
        Cow<'a, str>,
        NormyError,
    >)
        ensures
            r matches Ok(out) && out@ == self.pipeline().spec_process(text@, &self.ctx()),
            self.pipeline().spec_untouched(text@, &self.ctx()) ==> r == Ok::<
                Cow<'a, str>,
                NormyError,
            >(Cow::Borrowed(text)),
    {
        match self.pipeline.process(Cow::Borrowed(text), &self.ctx) {
            Ok(c) => Ok(c),
            Err(e) => Err(NormyError::Stage(e)),
        }
    }

    /// Fusion changes nothing: `normalize` gives what `normalize_no_fusion`
    /// gives on a text where, if the chain runs fused, each stage's adapter
    /// agrees with its `apply` and each quick check is sound.
    pub proof fn lemma_fusion_is_transparent(&self, text: Seq<char>)
        requires
            self.wf(),
            self.all_fusable() && self.stage_count() > 1 ==> self.pipeline().spec_fusion_sound(
                text,
                &self.ctx(),
            ),
        ensures
            self.spec_normalize(text) == self.pipeline().spec_process(text, &self.ctx()),
    {
        if self.all_fusable() && self.stage_count() > 1 {
            if self.pipeline().spec_any_needs_apply(text, &self.ctx()) {
                self.pipeline().lemma_build_is_process(text, &self.ctx());
            } else {
                self.pipeline().lemma_no_need_is_untouched(text, &self.ctx());
            }
        }
    }
}

impl<P: BuildIter> Normy<P> {
    /// Fusion changes nothing, on every text, when the chain does not run
    /// fused or every stage's adapter and quick check are sound everywhere
    /// under the normalizer's rules, as they are for every built-in stage
    /// under rules without peek-ahead (which no built-in language asks for).
    pub proof fn lemma_fusion_is_transparent_everywhere(&self, text: Seq<char>)
        requires
            self.wf(),
            self.all_fusable() && self.stage_count() > 1 ==> self.pipeline().spec_sound_everywhere(
                &self.ctx(),
            ),
        ensures
            self.spec_normalize(text) == self.pipeline().spec_process(text, &self.ctx()),
    {
        if self.all_fusable() && self.stage_count() > 1 {
            self.pipeline().lemma_fusion_sound_everywhere(text, &self.ctx());
        }
        self.lemma_fusion_is_transparent(text);
    }
}

/// Builds a `Normy`, recording as stages are added whether all of them
/// support fusion.
pub struct NormyBuilder<P: Process> {
    ctx: Context,
    current: P,
    all_fusable: bool,
    stage_count: usize,
}

impl Default for NormyBuilder<EmptyProcess> {
    fn default() -> (r: Self)
        ensures
            r.ctx().lang == DEFAULT_LANG,
            r.ctx().lang_entry@ == spec_lang_entry(DEFAULT_LANG),
            r.all_fusable(),
            r.stage_count() == 0,
    {
        NormyBuilder {
            ctx: Context::new(DEFAULT_LANG),
            current: EmptyProcess,
            all_fusable: true,
            stage_count: 0,
        }
    }
}

impl<P: Process> NormyBuilder<P> {
    pub closed spec fn ctx(&self) -> Context {
        self.ctx
    }

    pub closed spec fn pipeline(&self) -> P {
        self.current
    }

    pub closed spec fn all_fusable(&self) -> bool {
        self.all_fusable
    }

    pub closed spec fn stage_count(&self) -> nat {
        self.stage_count as nat
    }

    /// Switches to the built-in rules of `lang`.
    pub fn lang(self, lang: Lang) -> (r: Self)
        ensures
            r.ctx().lang == lang,
            r.ctx().lang_entry@ == spec_lang_entry(lang),
            r.pipeline() == self.pipeline(),
            r.all_fusable() == self.all_fusable(),
            r.stage_count() == self.stage_count(),
    {
        NormyBuilder {
            ctx: Context::new(lang),
            current: self.current,
            all_fusable: self.all_fusable,
            stage_count: self.stage_count,
        }
    }

    /// Lets `f` change the built-in rules of the current language.
    pub fn modify_lang<F: FnOnce(&mut LangEntry)>(self, f: F) -> (r: Self)
        requires
            forall|e: &mut LangEntry| #[trigger] f.requires((e,)),
        ensures
            r.ctx().lang == self.ctx().lang,
            exists|e: &mut LangEntry|
                #[trigger] f.ensures((e,), ()) && (*e)@ == spec_lang_entry(self.ctx().lang)
                    && *final(e) == r.ctx().lang_entry,
            r.pipeline() == self.pipeline(),
            r.all_fusable() == self.all_fusable(),
            r.stage_count() == self.stage_count(),
    {
        NormyBuilder {
            ctx: Context::with_modified(self.ctx.lang, f),
            current: self.current,
            all_fusable: self.all_fusable,
            stage_count: self.stage_count,
        }
    }

    /// Appends `stage` to the chain.
    pub fn add_stage<S: Stage + StaticFusableStage>(self, stage: S) -> (r: NormyBuilder<
        ChainedProcess<S, P>,
    >)
        requires
            self.stage_count() < usize::MAX,
        ensures
            r.ctx() == self.ctx(),
            r.pipeline() == (ChainedProcess { stage, previous: self.pipeline() }),
            r.all_fusable() == (self.all_fusable() && stage.spec_supports_static_fusion()),
            r.stage_count() == self.stage_count() + 1,
    {
        let fusable = stage.supports_static_fusion();
        NormyBuilder {
            ctx: self.ctx,
            current: ChainedProcess { stage, previous: self.current },
            all_fusable: self.all_fusable && fusable,
            stage_count: self.stage_count + 1,
        }
    }

    /// The normalizer.
    pub fn build(self) -> (r: Normy<P>)
        ensures
            r.ctx() == self.ctx(),
            r.pipeline() == self.pipeline(),
            r.all_fusable() == self.all_fusable(),
            r.stage_count() == self.stage_count(),
    {
        Normy {
            ctx: self.ctx,
            pipeline: self.current,
            all_fusable: self.all_fusable,
            stage_count: self.stage_count,
        }
    }
}

impl<P: Process> NormyBuilder<P> {
    /// A stage added to a builder runs last, under the builder's rules, on
    /// what the stages before it made of the text; where its quick check
    /// finds nothing to do, that result stands.
    pub proof fn lemma_added_stage_runs_last<S: Stage + StaticFusableStage>(
        &self,
        stage: S,
        text: Seq<char>,
    )
        ensures
            (ChainedProcess { stage, previous: self.pipeline() }).spec_process(text, &self.ctx()) == ({
                let before = self.pipeline().spec_process(text, &self.ctx());
                if stage.spec_needs_apply(before, &self.ctx()) {
                    stage.spec_apply(before, &self.ctx())
                } else {
                    before
                }
            }),
    {
    }
}

impl Normy<EmptyProcess> {
    /// A builder with the default language and no stage.
    pub fn builder() -> (r: NormyBuilder<EmptyProcess>)
        ensures
            r.ctx().lang == DEFAULT_LANG,
            r.ctx().lang_entry@ == spec_lang_entry(DEFAULT_LANG),
            r.pipeline() == EmptyProcess,
            r.all_fusable(),
            r.stage_count() == 0,
    {
        NormyBuilder::default()
    }
}

impl Normy<DynamicProcess> {
    /// Normalizes `text` stage by stage; a stage runs only where its quick
    /// check asks for it, and a text that no stage touches comes back
    /// borrowed.
    pub fn normalize<'a>(&'a self, text: &'a str) -> (r: Result<Cow<'a, str>, NormyError>)
        ensures
            r matches Ok(out) && out@ == self.pipeline().spec_process(text@, &self.ctx()),
            self.pipeline().spec_untouched(text@, &self.ctx()) ==> r == Ok::<
                Cow<'a, str>,
                NormyError,
            >(Cow::Borrowed(text)),
    {
        match self.pipeline.process(Cow::Borrowed(text), &self.ctx) {
            Ok(c) => Ok(c),
            Err(e) => Err(NormyError::Stage(e)),
        }
    }

    /// A builder for stages chosen at run time, with the default language.
    pub fn dynamic_builder() -> (r: DynamicNormyBuilder)
        ensures
            r.ctx().lang == DEFAULT_LANG,
            r.ctx().lang_entry@ == spec_lang_entry(DEFAULT_LANG),
            r.stages().len() == 0,
            r.all_fusable(),
    {
        DynamicNormyBuilder::default()
    }
}

/// Builds a `Normy` whose stages are chosen at run time.
pub struct DynamicNormyBuilder {
    ctx: Context,
    stages: Vec<Arc<dyn Stage>>,
    all_fusable: bool,
}

impl Default for DynamicNormyBuilder {
    fn default() -> (r: DynamicNormyBuilder)
        ensures
            r.ctx().lang == DEFAULT_LANG,
            r.ctx().lang_entry@ == spec_lang_entry(DEFAULT_LANG),
            r.stages().len() == 0,
            r.all_fusable(),
    {
        DynamicNormyBuilder { ctx: Context::new(DEFAULT_LANG), stages: Vec::new(), all_fusable: true }
    }
}

impl DynamicNormyBuilder {
    pub closed spec fn ctx(&self) -> Context {
        self.ctx
    }

    /// The stages added so far, in the order they run.
    pub closed spec fn stages(&self) -> Seq<Arc<dyn Stage>> {
        self.stages@
    }

    /// The fusability recorded for the normalizer; no stage changes it.
    pub closed spec fn all_fusable(&self) -> bool {
        self.all_fusable
    }

    /// Switches to the built-in rules of `lang`.
    pub fn lang(self, lang: Lang) -> (r: Self)
        ensures
            r.ctx().lang == lang,
            r.ctx().lang_entry@ == spec_lang_entry(lang),
            r.stages() == self.stages(),
            r.all_fusable() == self.all_fusable(),
    {
        DynamicNormyBuilder { ctx: Context::new(lang), stages: self.stages, all_fusable: self.all_fusable }
    }

    /// Lets `f` change the built-in rules of the current language.
    pub fn modify_lang<F: FnOnce(&mut LangEntry)>(self, f: F) -> (r: Self)
        requires
            forall|e: &mut LangEntry| #[trigger] f.requires((e,)),
        ensures
            r.ctx().lang == self.ctx().lang,
            exists|e: &mut LangEntry|
                #[trigger] f.ensures((e,), ()) && (*e)@ == spec_lang_entry(self.ctx().lang)
                    && *final(e) == r.ctx().lang_entry,
            r.stages() == self.stages(),
            r.all_fusable() == self.all_fusable(),
    {
        DynamicNormyBuilder {
            ctx: Context::with_modified(self.ctx.lang, f),
            stages: self.stages,
            all_fusable: self.all_fusable,
        }
    }

    /// Appends a shared stage; the stages before stay as they were.
    pub fn add_arc_stage(self, stage: Arc<dyn Stage>) -> (r: Self)
        ensures
            r.ctx() == self.ctx(),
            r.stages().len() == self.stages().len() + 1,
            r.stages().drop_last() == self.stages(),
            r.all_fusable() == self.all_fusable(),
    {
        let mut stages = self.stages;
        stages.extend_from_slice(stage_slice(&stage));
        assert(stages@.drop_last() =~= self.stages@);
        DynamicNormyBuilder { ctx: self.ctx, stages, all_fusable: self.all_fusable }
    }

    /// The normalizer, with the stages added, in order.
    pub fn build(self) -> (r: Normy<DynamicProcess>)
        ensures
            r.ctx() == self.ctx(),
            r.pipeline().stages() == self.stages(),
            r.all_fusable() == self.all_fusable(),
            r.stage_count() == self.stages().len(),
    {
        let count = self.stages.len();
        Normy {
            ctx: self.ctx,
            pipeline: DynamicProcess::from_stages(self.stages),
            all_fusable: self.all_fusable,
            stage_count: count,
        }
    }
}

} // verus!
