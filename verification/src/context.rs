//! The runtime context handed to every stage: the language and its rules.
use vstd::prelude::*;
use crate::lang::{Lang, LangEntry};
use crate::lang::data::{DEFAULT_LANG, spec_lang_entry, lang_entry};

verus! {

/// Runtime context passed to every normalization stage.
pub struct Context {
    /// The language, as a human identifier.
    pub lang: Lang,
    /// The rules the stages consult.
    pub lang_entry: LangEntry,
}

impl Context {
    /// A context with the built-in rules of `lang`.
    pub fn new(lang: Lang) -> (r: Context)
        ensures
            r.lang == lang,
            r.lang_entry@ == spec_lang_entry(lang),
    {
        Context { lang, lang_entry: lang_entry(lang) }
    }

    /// A context whose rules are the built-in rules of `lang` after `f` has
    /// changed them.
    pub fn with_modified<F: FnOnce(&mut LangEntry)>(lang: Lang, f: F) -> (r: Context)
        requires
            forall|e: &mut LangEntry| #[trigger] f.requires((e,)),
        ensures
            r.lang == lang,
            exists|e: &mut LangEntry|
                #[trigger] f.ensures((e,), ()) && (*e)@ == spec_lang_entry(lang) && *final(e)
                    == r.lang_entry,
    {
        let mut entry = lang_entry(lang);
        f(&mut entry);
        Context { lang, lang_entry: entry }
    }
}

impl Default for Context {
    fn default() -> (r: Context)
        ensures
            r.lang == DEFAULT_LANG,
            r.lang_entry@ == spec_lang_entry(DEFAULT_LANG),
    {
        Context::new(DEFAULT_LANG)
    }
}

} // verus!
