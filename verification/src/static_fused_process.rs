//! Island-wise fusion: the fusable stages at the end of a chain form an
//! island. Everything before the island runs stage by stage; the island's
//! stages are checked on the island's input, none or one of them is
//! applied directly, and two or more are run as one fused pass.
use vstd::prelude::*;
use std::borrow::Cow;
use crate::context::Context;
use crate::process::{BuildIter, ChainedProcess, EmptyProcess, Process, cow_str};
use crate::stage::{Stage, StageError, StaticFusableStage};
use crate::text::str_eq;

verus! {

/// How many entries of `s` are `true`.
pub open spec fn spec_count_true(s: Seq<bool>) -> nat
    decreases s.len(),
{
    if s.len() == 0 {
        0
    } else {
        spec_count_true(s.drop_last()) + if s.last() {
            1nat
        } else {
            0nat
        }
    }
}

/// No entry is `true` exactly when the count of `true` entries is zero.
pub proof fn lemma_count_true_zero(s: Seq<bool>)
    ensures
        (spec_count_true(s) == 0) == (forall|i: int| 0 <= i < s.len() ==> !#[trigger] s[i]),
    decreases s.len(),
{
    if s.len() > 0 {
        lemma_count_true_zero(s.drop_last());
        if spec_count_true(s) == 0 {
            assert forall|i: int| 0 <= i < s.len() implies !#[trigger] s[i] by {
                if i < s.len() - 1 {
                    assert(s.drop_last()[i] == s[i]);
                }
            }
        } else if spec_count_true(s.drop_last()) > 0 {
            let j = choose|j: int| 0 <= j < s.drop_last().len() && #[trigger] s.drop_last()[j];
            assert(s[j]);
        } else {
            assert(s[s.len() - 1]);
        }
    }
}

/// A chain that processes its final island of fusable stages as a unit.
pub trait StaticFusedProcess: BuildIter {
    /// How many consecutive fusable stages end the chain (at most
    /// `usize::MAX`).
    spec fn spec_chain_len(&self) -> usize;

    /// What the adapters of all stages, stacked, yield over `text`.
    spec fn spec_island_build(&self, text: Seq<char>, ctx: &Context) -> Seq<char>;

    /// What reaches the first stage of an island of `k` stages ending here.
    spec fn spec_before_island(&self, text: Seq<char>, ctx: &Context, k: usize) -> Seq<char>;

    /// Whether some stage of the island of `k` stages ending here needs to
    /// run, judged on the island's input.
    spec fn spec_island_needs(&self, text: Seq<char>, ctx: &Context, k: usize) -> bool;

    /// Which stages of the island of `k` stages ending here will run, first
    /// stage first, judged on the island's input: a stage after one that
    /// runs is counted as running unless it claims its quick check on the
    /// island's input is safe.
    spec fn spec_collect_needs(&self, text: Seq<char>, ctx: &Context, k: usize) -> Seq<bool>;

    /// The island of `k` stages ending here run one stage at a time, each
    /// only where `needs`, read from `index` on, says so.
    spec fn spec_apply_seq(
        &self,
        text: Seq<char>,
        ctx: &Context,
        k: usize,
        needs: Seq<bool>,
        index: int,
    ) -> Seq<char>;

    /// What the chain makes of `text`.
    spec fn spec_process_static(&self, text: Seq<char>, ctx: &Context) -> Seq<char>;

    /// Whether no stage claims that its quick check on the original input
    /// is safe after earlier stages.
    spec fn spec_no_safe_skip(&self) -> bool;

    /// Whether island-wise processing runs no stage on `text`, so that it
    /// hands the text back as it came.
    spec fn spec_static_untouched(&self, text: Seq<char>, ctx: &Context) -> bool;

    /// Whether nothing before an island of `k` stages ending here runs.
    spec fn spec_before_untouched(&self, text: Seq<char>, ctx: &Context, k: usize) -> bool;

    /// Runs the adapters of all stages over the characters of `text`.
    fn build_island_iter(&self, text: &str, ctx: &Context) -> (r: String)
        ensures
            r@ == self.spec_island_build(text@, ctx),
    ;

    fn fusable_chain_len(&self) -> (r: usize)
        ensures
            r == self.spec_chain_len(),
    ;

    fn process_before_island<'a>(&self, text: &'a str, ctx: &Context, island_size: usize) -> (r:
        Result<Cow<'a, str>, StageError>)
        ensures
            r matches Ok(out) && out@ == self.spec_before_island(text@, ctx, island_size),
            self.spec_before_untouched(text@, ctx, island_size) ==> r == Ok::<
                Cow<'a, str>,
                StageError,
            >(Cow::Borrowed(text)),
    ;

    fn island_needs_apply(&self, text: &str, ctx: &Context, island_size: usize) -> (r: Result<
        bool,
        StageError,
    >)
        ensures
            r == Ok::<bool, StageError>(self.spec_island_needs(text@, ctx, island_size)),
    ;

    fn collect_island_needs(&self, text: &str, ctx: &Context, island_size: usize) -> (r: Result<
        Vec<bool>,
        StageError,
    >)
        ensures
            r matches Ok(v) && v@ == self.spec_collect_needs(text@, ctx, island_size),
    ;

    fn apply_island_sequentially<'a>(
        &self,
        text: Cow<'a, str>,
        ctx: &Context,
        island_size: usize,
        needs: &[bool],
        current_index: usize,
    ) -> (r: Result<Cow<'a, str>, StageError>)
        requires
            current_index + (if island_size == 0 {
                1
            } else {
                island_size as int
            }) <= needs@.len(),
        ensures
            r matches Ok(out) && out@ == self.spec_apply_seq(
                text@,
                ctx,
                island_size,
                needs@,
                current_index as int,
            ),
    ;

    fn process_static<'a>(&self, text: &'a str, ctx: &Context) -> (r: Result<
        Cow<'a, str>,
        StageError,
    >)
        ensures
            r matches Ok(out) && out@ == self.spec_process_static(text@, ctx),
            self.spec_static_untouched(text@, ctx) ==> r == Ok::<Cow<'a, str>, StageError>(
                Cow::Borrowed(text),
            ),
    ;

    /// An island of `k` stages ending here yields one entry per stage.
    proof fn lemma_collect_len(&self, text: Seq<char>, ctx: &Context, k: usize)
        ensures
            1 <= k <= self.spec_len() ==> self.spec_collect_needs(text, ctx, k).len() == k,
    ;

    /// The final island is no longer than the chain.
    proof fn lemma_chain_len_bounded(&self)
        ensures
            self.spec_chain_len() <= self.spec_len(),
    ;

    /// A chain of no stage processes a text into itself, by either path.
    proof fn lemma_empty_chain(&self, text: Seq<char>, ctx: &Context)
        ensures
            self.spec_len() == 0 ==> {
                &&& self.spec_process_static(text, ctx) == text
                &&& self.spec_process(text, ctx) == text
                &&& !self.spec_any_needs_apply(text, ctx)
            },
    ;

    /// The island's adapters are the chain's adapters.
    proof fn lemma_island_build_is_build(&self, text: Seq<char>, ctx: &Context)
        ensures
            self.spec_island_build(text, ctx) == self.spec_build(text, ctx),
    ;

    /// In a chain of fusable stages the island is the whole chain.
    proof fn lemma_chain_len_whole(&self)
        requires
            self.spec_all_fusable(),
            self.spec_len() < usize::MAX,
        ensures
            self.spec_chain_len() == self.spec_len(),
    ;

    /// Nothing comes before an island that is the whole chain.
    proof fn lemma_before_island_whole(&self, text: Seq<char>, ctx: &Context)
        ensures
            1 <= self.spec_len() < usize::MAX ==> self.spec_before_island(
                text,
                ctx,
                self.spec_len() as usize,
            ) == text,
    ;

    /// Running none of `k` stages leaves the text alone.
    proof fn lemma_apply_seq_identity(
        &self,
        text: Seq<char>,
        ctx: &Context,
        k: usize,
        needs: Seq<bool>,
        index: int,
    )
        requires
            0 <= index,
            index + (if k == 0 {
                1
            } else {
                k as int
            }) <= needs.len(),
            forall|i: int|
                index <= i < index + (if k == 0 {
                    1
                } else {
                    k as int
                }) ==> !#[trigger] needs[i],
        ensures
            self.spec_apply_seq(text, ctx, k, needs, index) == text,
    ;

    /// Over a whole chain whose stages claim no safe skip: no stage is
    /// counted exactly when none needs to run, and where one is counted,
    /// running it alone computes what the chain computes.
    proof fn lemma_collect_counts(&self, text: Seq<char>, ctx: &Context)
        ensures
            (1 <= self.spec_len() < usize::MAX && self.spec_no_safe_skip()) ==> {
                &&& (spec_count_true(self.spec_collect_needs(text, ctx, self.spec_len() as usize))
                    == 0) == !self.spec_any_needs_apply(text, ctx)
                &&& spec_count_true(self.spec_collect_needs(text, ctx, self.spec_len() as usize))
                    == 1 ==> self.spec_apply_seq(
                    text,
                    ctx,
                    self.spec_len() as usize,
                    self.spec_collect_needs(text, ctx, self.spec_len() as usize),
                    0,
                ) == self.spec_process(text, ctx)
            },
    ;

    /// On a chain of fusable stages that claim no safe skip, on a text where
    /// fusion is sound, island-wise processing computes what the chain
    /// computes stage by stage.
    proof fn lemma_process_static_is_process(&self, text: Seq<char>, ctx: &Context)
        requires
            self.spec_all_fusable(),
            self.spec_no_safe_skip(),
            self.spec_len() < usize::MAX,
            self.spec_fusion_sound(text, ctx),
        ensures
            self.spec_process_static(text, ctx) == self.spec_process(text, ctx),
    ;
}

impl StaticFusedProcess for EmptyProcess {
    open spec fn spec_chain_len(&self) -> usize {
        0
    }

    open spec fn spec_island_build(&self, text: Seq<char>, ctx: &Context) -> Seq<char> {
        text
    }

    open spec fn spec_before_island(&self, text: Seq<char>, ctx: &Context, k: usize) -> Seq<char> {
        text
    }

    open spec fn spec_island_needs(&self, text: Seq<char>, ctx: &Context, k: usize) -> bool {
        false
    }

    open spec fn spec_collect_needs(&self, text: Seq<char>, ctx: &Context, k: usize) -> Seq<bool> {
        Seq::empty()
    }

    open spec fn spec_apply_seq(
        &self,
        text: Seq<char>,
        ctx: &Context,
        k: usize,
        needs: Seq<bool>,
        index: int,
    ) -> Seq<char> {
        text
    }

    open spec fn spec_process_static(&self, text: Seq<char>, ctx: &Context) -> Seq<char> {
        text
    }

    open spec fn spec_static_untouched(&self, text: Seq<char>, ctx: &Context) -> bool {
        true
    }

    open spec fn spec_before_untouched(&self, text: Seq<char>, ctx: &Context, k: usize) -> bool {
        true
    }

    fn build_island_iter(&self, text: &str, ctx: &Context) -> (r: String) {
        text.to_owned()
    }

    fn fusable_chain_len(&self) -> (r: usize) {
        0
    }

    fn process_before_island<'a>(&self, text: &'a str, ctx: &Context, island_size: usize) -> (r:
        Result<Cow<'a, str>, StageError>) {
        Ok(Cow::Borrowed(text))
    }

    fn island_needs_apply(&self, text: &str, ctx: &Context, island_size: usize) -> (r: Result<
        bool,
        StageError,
    >) {
        Ok(false)
    }

    fn collect_island_needs(&self, text: &str, ctx: &Context, island_size: usize) -> (r: Result<
        Vec<bool>,
        StageError,
    >) {
        Ok(Vec::new())
    }

    fn apply_island_sequentially<'a>(
        &self,
        text: Cow<'a, str>,
        ctx: &Context,
        island_size: usize,
        needs: &[bool],
        current_index: usize,
    ) -> (r: Result<Cow<'a, str>, StageError>) {
        Ok(text)
    }

    fn process_static<'a>(&self, text: &'a str, ctx: &Context) -> (r: Result<
        Cow<'a, str>,
        StageError,
    >) {
        Ok(Cow::Borrowed(text))
    }

    proof fn lemma_collect_len(&self, text: Seq<char>, ctx: &Context, k: usize) {
    }

    open spec fn spec_no_safe_skip(&self) -> bool {
        true
    }

    proof fn lemma_chain_len_bounded(&self) {
    }

    proof fn lemma_empty_chain(&self, text: Seq<char>, ctx: &Context) {
    }

    proof fn lemma_island_build_is_build(&self, text: Seq<char>, ctx: &Context) {
    }

    proof fn lemma_chain_len_whole(&self) {
    }

    proof fn lemma_before_island_whole(&self, text: Seq<char>, ctx: &Context) {
    }

    proof fn lemma_apply_seq_identity(
        &self,
        text: Seq<char>,
        ctx: &Context,
        k: usize,
        needs: Seq<bool>,
        index: int,
    ) {
    }

    proof fn lemma_collect_counts(&self, text: Seq<char>, ctx: &Context) {
    }

    proof fn lemma_process_static_is_process(&self, text: Seq<char>, ctx: &Context) {
    }
}

impl<S: Stage + StaticFusableStage, P: StaticFusedProcess> StaticFusedProcess for ChainedProcess<
    S,
    P,
> {
    open spec fn spec_chain_len(&self) -> usize {
        if self.stage.spec_supports_static_fusion() {
            if self.previous.spec_chain_len() < usize::MAX {
                (self.previous.spec_chain_len() + 1) as usize
            } else {
                usize::MAX
            }
        } else {
            0
        }
    }

    open spec fn spec_island_build(&self, text: Seq<char>, ctx: &Context) -> Seq<char> {
        let before = self.previous.spec_island_build(text, ctx);
        if self.stage.spec_supports_static_fusion() {
            self.stage.spec_fused(before, ctx)
        } else {
            before
        }
    }

    open spec fn spec_before_island(&self, text: Seq<char>, ctx: &Context, k: usize) -> Seq<char> {
        if k <= 1 {
            self.previous.spec_process_static(text, ctx)
        } else {
            self.previous.spec_before_island(text, ctx, (k - 1) as usize)
        }
    }

    open spec fn spec_island_needs(&self, text: Seq<char>, ctx: &Context, k: usize) -> bool {
        if k <= 1 {
            self.stage.spec_needs_apply(text, ctx)
        } else if self.previous.spec_island_needs(text, ctx, (k - 1) as usize) {
            true
        } else {
            self.stage.spec_needs_apply(text, ctx)
        }
    }

    open spec fn spec_collect_needs(&self, text: Seq<char>, ctx: &Context, k: usize) -> Seq<bool> {
        if k <= 1 {
            seq![self.stage.spec_needs_apply(text, ctx)]
        } else {
            let needs = self.previous.spec_collect_needs(text, ctx, (k - 1) as usize);
            let this_needs = if spec_count_true(needs) > 0 {
                if self.stage.spec_safe_skip() {
                    self.stage.spec_needs_apply(text, ctx)
                } else {
                    true
                }
            } else {
                self.stage.spec_needs_apply(text, ctx)
            };
            needs.push(this_needs)
        }
    }

    open spec fn spec_apply_seq(
        &self,
        text: Seq<char>,
        ctx: &Context,
        k: usize,
        needs: Seq<bool>,
        index: int,
    ) -> Seq<char> {
        if k <= 1 {
            if needs[index] {
                self.stage.spec_apply(text, ctx)
            } else {
                text
            }
        } else {
            let before = self.previous.spec_apply_seq(text, ctx, (k - 1) as usize, needs, index);
            if needs[index + k - 1] {
                self.stage.spec_apply(before, ctx)
            } else {
                before
            }
        }
    }

    open spec fn spec_process_static(&self, text: Seq<char>, ctx: &Context) -> Seq<char> {
        let n = self.spec_chain_len();
        if n >= 2 {
            let base = self.spec_before_island(text, ctx, n);
            let needs = self.spec_collect_needs(base, ctx, n);
            let active = spec_count_true(needs);
            if active == 0 {
                base
            } else if active == 1 {
                self.spec_apply_seq(base, ctx, n, needs, 0)
            } else {
                self.spec_island_build(base, ctx)
            }
        } else {
            let before = self.previous.spec_process_static(text, ctx);
            if self.stage.spec_needs_apply(before, ctx) {
                self.stage.spec_apply(before, ctx)
            } else {
                before
            }
        }
    }

    open spec fn spec_static_untouched(&self, text: Seq<char>, ctx: &Context) -> bool {
        let n = self.spec_chain_len();
        if n >= 2 {
            &&& self.spec_before_untouched(text, ctx, n)
            &&& spec_count_true(
                self.spec_collect_needs(self.spec_before_island(text, ctx, n), ctx, n),
            ) == 0
        } else {
            &&& self.previous.spec_static_untouched(text, ctx)
            &&& !self.stage.spec_needs_apply(self.previous.spec_process_static(text, ctx), ctx)
        }
    }

    open spec fn spec_before_untouched(&self, text: Seq<char>, ctx: &Context, k: usize) -> bool {
        if k <= 1 {
            self.previous.spec_static_untouched(text, ctx)
        } else {
            self.previous.spec_before_untouched(text, ctx, (k - 1) as usize)
        }
    }

    fn build_island_iter(&self, text: &str, ctx: &Context) -> (r: String) {
        let before = self.previous.build_island_iter(text, ctx);
        self.stage.fused_apply(before.as_str(), ctx)
    }

    fn fusable_chain_len(&self) -> (r: usize) {
        if self.stage.supports_static_fusion() {
            self.previous.fusable_chain_len().saturating_add(1)
        } else {
            0
        }
    }

    fn process_before_island<'a>(&self, text: &'a str, ctx: &Context, island_size: usize) -> (r:
        Result<Cow<'a, str>, StageError>) {
        if island_size <= 1 {
            return self.previous.process_static(text, ctx);
        }
        self.previous.process_before_island(text, ctx, island_size - 1)
    }

    fn island_needs_apply(&self, text: &str, ctx: &Context, island_size: usize) -> (r: Result<
        bool,
        StageError,
    >) {
        if island_size <= 1 {
            return self.stage.needs_apply(text, ctx);
        }
        let prev_needs = match self.previous.island_needs_apply(text, ctx, island_size - 1) {
            Ok(b) => b,
            Err(e) => return Err(e),
        };
        if prev_needs {
            if self.stage.safe_skip_approximation() {
                let this_needs = match self.stage.needs_apply(text, ctx) {
                    Ok(b) => b,
                    Err(e) => return Err(e),
                };
                Ok(prev_needs || this_needs)
            } else {
                Ok(true)
            }
        } else {
            self.stage.needs_apply(text, ctx)
        }
    }

    fn collect_island_needs(&self, text: &str, ctx: &Context, island_size: usize) -> (r: Result<
        Vec<bool>,
        StageError,
    >) {
        if island_size <= 1 {
            let needs = match self.stage.needs_apply(text, ctx) {
                Ok(b) => b,
                Err(e) => return Err(e),
            };
            let mut v: Vec<bool> = Vec::new();
            v.push(needs);
            assert(v@ =~= seq![needs]);
            return Ok(v);
        }
        let mut needs = match self.previous.collect_island_needs(text, ctx, island_size - 1) {
            Ok(v) => v,
            Err(e) => return Err(e),
        };
        let mut any = false;
        let n = needs.len();
        for i in 0..n
            invariant
                n == needs@.len(),
                any == (spec_count_true(needs@.take(i as int)) > 0),
        {
            assert(needs@.take(i + 1).drop_last() =~= needs@.take(i as int));
            if needs[i] {
                any = true;
            }
        }
        assert(needs@.take(n as int) =~= needs@);
        let this_needs = if any {
            if self.stage.safe_skip_approximation() {
                match self.stage.needs_apply(text, ctx) {
                    Ok(b) => b,
                    Err(e) => return Err(e),
                }
            } else {
                true
            }
        } else {
            match self.stage.needs_apply(text, ctx) {
                Ok(b) => b,
                Err(e) => return Err(e),
            }
        };
        needs.push(this_needs);
        Ok(needs)
    }

    fn apply_island_sequentially<'a>(
        &self,
        text: Cow<'a, str>,
        ctx: &Context,
        island_size: usize,
        needs: &[bool],
        current_index: usize,
    ) -> (r: Result<Cow<'a, str>, StageError>) {
        if island_size <= 1 {
            if needs[current_index] {
                return self.stage.apply(text, ctx);
            } else {
                return Ok(text);
            }
        }
        let before = match self.previous.apply_island_sequentially(
            text,
            ctx,
            island_size - 1,
            needs,
            current_index,
        ) {
            Ok(c) => c,
            Err(e) => return Err(e),
        };
        let len = needs.len();
        assert(current_index + (island_size - 1) < len);
        let last = current_index + (island_size - 1);
        if needs[last] {
            return self.stage.apply(before, ctx);
        }
        Ok(before)
    }

    fn process_static<'a>(&self, text: &'a str, ctx: &Context) -> (r: Result<
        Cow<'a, str>,
        StageError,
    >) {
        let chain_len = self.fusable_chain_len();
        if chain_len >= 2 {
            let base = match self.process_before_island(text, ctx, chain_len) {
                Ok(c) => c,
                Err(e) => return Err(e),
            };
            let needs = match self.collect_island_needs(cow_str(&base), ctx, chain_len) {
                Ok(v) => v,
                Err(e) => return Err(e),
            };
            proof {
                self.lemma_chain_len_bounded();
                self.lemma_collect_len(base@, ctx, chain_len);
            }
            let mut active: usize = 0;
            let n = needs.len();
            for i in 0..n
                invariant
                    n == needs@.len(),
                    active <= i,
                    active == spec_count_true(needs@.take(i as int)),
            {
                assert(needs@.take(i + 1).drop_last() =~= needs@.take(i as int));
                if needs[i] {
                    active = active + 1;
                }
            }
            assert(needs@.take(n as int) =~= needs@);
            if active == 0 {
                return Ok(base);
            }
            if active == 1 {
                return self.apply_island_sequentially(base, ctx, chain_len, needs.as_slice(), 0);
            }
            let result = self.build_island_iter(cow_str(&base), ctx);
            if str_eq(result.as_str(), cow_str(&base)) {
                return Ok(base);
            }
            return Ok(Cow::Owned(result));
        }
        let before = match self.previous.process_static(text, ctx) {
            Ok(c) => c,
            Err(e) => return Err(e),
        };
        let needs = match self.stage.needs_apply(cow_str(&before), ctx) {
            Ok(b) => b,
            Err(e) => return Err(e),
        };
        if !needs {
            return Ok(before);
        }
        self.stage.apply(before, ctx)
    }

    proof fn lemma_collect_len(&self, text: Seq<char>, ctx: &Context, k: usize) {
        if k > 1 {
            self.previous.lemma_collect_len(text, ctx, (k - 1) as usize);
        }
    }

    open spec fn spec_no_safe_skip(&self) -> bool {
        self.previous.spec_no_safe_skip() && !self.stage.spec_safe_skip()
    }

    proof fn lemma_chain_len_bounded(&self) {
        self.previous.lemma_chain_len_bounded();
    }

    proof fn lemma_empty_chain(&self, text: Seq<char>, ctx: &Context) {
    }

    proof fn lemma_island_build_is_build(&self, text: Seq<char>, ctx: &Context) {
        self.previous.lemma_island_build_is_build(text, ctx);
    }

    proof fn lemma_chain_len_whole(&self) {
        self.previous.lemma_chain_len_whole();
    }

    proof fn lemma_before_island_whole(&self, text: Seq<char>, ctx: &Context) {
        self.previous.lemma_empty_chain(text, ctx);
        self.previous.lemma_before_island_whole(text, ctx);
    }

    proof fn lemma_apply_seq_identity(
        &self,
        text: Seq<char>,
        ctx: &Context,
        k: usize,
        needs: Seq<bool>,
        index: int,
    ) {
        if k > 1 {
            self.previous.lemma_apply_seq_identity(text, ctx, (k - 1) as usize, needs, index);
            assert(!needs[index + k - 1]);
        } else {
            assert(!needs[index]);
        }
    }

    proof fn lemma_collect_counts(&self, text: Seq<char>, ctx: &Context) {
        if 1 <= self.spec_len() < usize::MAX && self.spec_no_safe_skip() {
            let k = self.spec_len() as usize;
            let needs = self.spec_collect_needs(text, ctx, k);
            if self.previous.spec_len() == 0 {
                self.previous.lemma_empty_chain(text, ctx);
                assert(needs =~= seq![self.stage.spec_needs_apply(text, ctx)]);
                assert(needs.drop_last() =~= Seq::<bool>::empty());
                assert(spec_count_true(Seq::<bool>::empty()) == 0);
                assert(spec_count_true(needs) == spec_count_true(needs.drop_last()) + (if needs.last() {
                    1nat
                } else {
                    0nat
                }));
            } else {
                let kp = self.previous.spec_len() as usize;
                assert(kp == k - 1);
                let np = self.previous.spec_collect_needs(text, ctx, kp);
                self.previous.lemma_collect_counts(text, ctx);
                assert(needs == np.push(needs.last()));
                assert(needs.drop_last() =~= np);
                assert(spec_count_true(needs) == spec_count_true(np) + (if needs.last() {
                    1nat
                } else {
                    0nat
                }));
                if spec_count_true(needs) == 1 {
                    assert(spec_count_true(np) == 0);
                    lemma_count_true_zero(np);
                    self.previous.lemma_collect_len(text, ctx, kp);
                    assert forall|i: int| 0 <= i < kp implies !#[trigger] needs[i] by {
                        assert(needs[i] == np[i]);
                    }
                    self.previous.lemma_apply_seq_identity(text, ctx, kp, needs, 0);
                    self.previous.lemma_no_need_is_untouched(text, ctx);
                }
            }
        }
    }

    proof fn lemma_process_static_is_process(&self, text: Seq<char>, ctx: &Context) {
        self.lemma_chain_len_whole();
        let n = self.spec_chain_len();
        if n >= 2 {
            self.lemma_before_island_whole(text, ctx);
            let needs = self.spec_collect_needs(text, ctx, n);
            self.lemma_collect_counts(text, ctx);
            let active = spec_count_true(needs);
            if active == 0 {
                self.lemma_no_need_is_untouched(text, ctx);
            } else if active >= 2 {
                self.lemma_island_build_is_build(text, ctx);
                self.lemma_build_is_process(text, ctx);
            }
        } else {
            self.previous.lemma_empty_chain(text, ctx);
        }
    }
}

/// Island-wise processing computes what the chain computes stage by stage,
/// on every text, for a chain of fusable stages that claim no safe skip and
/// whose adapters and quick checks are sound everywhere under the rules of
/// `ctx`.
pub proof fn lemma_process_static_is_process_everywhere<P: StaticFusedProcess>(
    p: &P,
    text: Seq<char>,
    ctx: &Context,
)
    requires
        p.spec_all_fusable(),
        p.spec_no_safe_skip(),
        p.spec_len() < usize::MAX,
        p.spec_sound_everywhere(ctx),
    ensures
        p.spec_process_static(text, ctx) == p.spec_process(text, ctx),
{
    p.lemma_fusion_sound_everywhere(text, ctx);
    p.lemma_process_static_is_process(text, ctx);
}

} // verus!
