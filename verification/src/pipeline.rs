//! A list of stages chosen at run time, each applied in turn.
use vstd::prelude::*;
use std::borrow::Cow;
use std::sync::Arc;
use crate::context::Context;
use crate::stage::{Stage, StageError};

verus! {

/// What applying every stage of `stages`, in order, makes of `text`.
pub open spec fn spec_apply_all(stages: Seq<Arc<dyn Stage>>, text: Seq<char>, ctx: &Context) -> Seq<
    char,
>
    decreases stages.len(),
{
    if stages.len() == 0 {
        text
    } else {
        stages.last().spec_apply(spec_apply_all(stages.drop_last(), text, ctx), ctx)
    }
}

/// Stages chosen at run time; each one is applied, whether or not its
/// quick check asks for it.
pub struct Pipeline {
    stages: Vec<Arc<dyn Stage>>,
}

impl Pipeline {
    pub closed spec fn stages(&self) -> Seq<Arc<dyn Stage>> {
        self.stages@
    }

    pub fn new(stages: Vec<Arc<dyn Stage>>) -> (r: Pipeline)
        ensures
            r.stages() == stages@,
    {
        Pipeline { stages }
    }

    /// Applies every stage in order.
    pub fn process<'a>(&self, text: Cow<'a, str>, ctx: &Context) -> (r: Result<
        Cow<'a, str>,
        StageError,
    >)
        ensures
            r matches Ok(out) && out@ == spec_apply_all(self.stages(), text@, ctx),
    {
        let mut current = text;
        let n = self.stages.len();
        let mut i: usize = 0;
        while i < n
            invariant
                n == self.stages@.len(),
                i <= n,
                current@ == spec_apply_all(self.stages@.take(i as int), text@, ctx),
            decreases n - i,
        {
            let stage = &self.stages[i];
            current = match stage.apply(current, ctx) {
                Ok(c) => c,
                Err(e) => return Err(e),
            };
            assert(self.stages@.take(i + 1).drop_last() =~= self.stages@.take(i as int));
            i = i + 1;
        }
        assert(self.stages@.take(n as int) =~= self.stages@);
        Ok(current)
    }
}

} // verus!
