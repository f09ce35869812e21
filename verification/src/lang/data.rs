//! The built-in language table: one entry per supported language.
use vstd::prelude::*;
use crate::lang::{
    CaseMap, FoldMap, Lang, LangEntry, LangEntryView, PeekPair, PreComposedToBaseMap, SegmentRule,
    opt_chars_view, spec_all_one_char,
};
use crate::text::{str_eq, spec_to_uppercase, to_uppercase, spec_lowercase_full};

verus! {

/// Turkish.
pub const TUR: Lang = Lang::Tur;

/// German.
pub const DEU: Lang = Lang::Deu;

/// Dutch.
pub const NLD: Lang = Lang::Nld;

/// Danish.
pub const DAN: Lang = Lang::Dan;

/// Norwegian.
pub const NOR: Lang = Lang::Nor;

/// Swedish.
pub const SWE: Lang = Lang::Swe;

/// Icelandic.
pub const ISL: Lang = Lang::Isl;

/// Arabic.
pub const ARA: Lang = Lang::Ara;

/// Hebrew.
pub const HEB: Lang = Lang::Heb;

/// Vietnamese.
pub const VIE: Lang = Lang::Vie;

/// French.
pub const FRA: Lang = Lang::Fra;

/// Czech.
pub const CES: Lang = Lang::Ces;

/// Slovak.
pub const SLK: Lang = Lang::Slk;

/// Polish.
pub const POL: Lang = Lang::Pol;

/// Catalan.
pub const CAT: Lang = Lang::Cat;

/// Spanish.
pub const SPA: Lang = Lang::Spa;

/// Portuguese.
pub const POR: Lang = Lang::Por;

/// Italian.
pub const ITA: Lang = Lang::Ita;

/// Croatian.
pub const HRV: Lang = Lang::Hrv;

/// Serbian.
pub const SRP: Lang = Lang::Srp;

/// Lithuanian.
pub const LIT: Lang = Lang::Lit;

/// Greek.
pub const ELL: Lang = Lang::Ell;

/// Hindi.
pub const HIN: Lang = Lang::Hin;

/// Bengali.
pub const BEN: Lang = Lang::Ben;

/// Tamil.
pub const TAM: Lang = Lang::Tam;

/// Russian.
pub const RUS: Lang = Lang::Rus;

/// Japanese.
pub const JPN: Lang = Lang::Jpn;

/// Chinese (Simplified).
pub const ZHO: Lang = Lang::Zho;

/// Korean.
pub const KOR: Lang = Lang::Kor;

/// Thai.
pub const THA: Lang = Lang::Tha;

/// Lao.
pub const LAO: Lang = Lang::Lao;

/// Myanmar.
pub const MYA: Lang = Lang::Mya;

/// Khmer.
pub const KHM: Lang = Lang::Khm;

/// English.
pub const ENG: Lang = Lang::Eng;

/// The language used when none is chosen.
pub const DEFAULT_LANG: Lang = Lang::Eng;

impl Lang {
    /// The upper-case language code.
    pub open spec fn spec_code(self) -> &'static str {
        match self {
            Lang::Tur => "TUR",
            Lang::Deu => "DEU",
            Lang::Nld => "NLD",
            Lang::Dan => "DAN",
            Lang::Nor => "NOR",
            Lang::Swe => "SWE",
            Lang::Isl => "ISL",
            Lang::Ara => "ARA",
            Lang::Heb => "HEB",
            Lang::Vie => "VIE",
            Lang::Fra => "FRA",
            Lang::Ces => "CES",
            Lang::Slk => "SLK",
            Lang::Pol => "POL",
            Lang::Cat => "CAT",
            Lang::Spa => "SPA",
            Lang::Por => "POR",
            Lang::Ita => "ITA",
            Lang::Hrv => "HRV",
            Lang::Srp => "SRP",
            Lang::Lit => "LIT",
            Lang::Ell => "ELL",
            Lang::Hin => "HIN",
            Lang::Ben => "BEN",
            Lang::Tam => "TAM",
            Lang::Rus => "RUS",
            Lang::Jpn => "JPN",
            Lang::Zho => "ZHO",
            Lang::Kor => "KOR",
            Lang::Tha => "THA",
            Lang::Lao => "LAO",
            Lang::Mya => "MYA",
            Lang::Khm => "KHM",
            Lang::Eng => "ENG",
        }
    }

    /// The English name of the language.
    pub open spec fn spec_name(self) -> &'static str {
        match self {
            Lang::Tur => "Turkish",
            Lang::Deu => "German",
            Lang::Nld => "Dutch",
            Lang::Dan => "Danish",
            Lang::Nor => "Norwegian",
            Lang::Swe => "Swedish",
            Lang::Isl => "Icelandic",
            Lang::Ara => "Arabic",
            Lang::Heb => "Hebrew",
            Lang::Vie => "Vietnamese",
            Lang::Fra => "French",
            Lang::Ces => "Czech",
            Lang::Slk => "Slovak",
            Lang::Pol => "Polish",
            Lang::Cat => "Catalan",
            Lang::Spa => "Spanish",
            Lang::Por => "Portuguese",
            Lang::Ita => "Italian",
            Lang::Hrv => "Croatian",
            Lang::Srp => "Serbian",
            Lang::Lit => "Lithuanian",
            Lang::Ell => "Greek",
            Lang::Hin => "Hindi",
            Lang::Ben => "Bengali",
            Lang::Tam => "Tamil",
            Lang::Rus => "Russian",
            Lang::Jpn => "Japanese",
            Lang::Zho => "Chinese (Simplified)",
            Lang::Kor => "Korean",
            Lang::Tha => "Thai",
            Lang::Lao => "Lao",
            Lang::Mya => "Myanmar",
            Lang::Khm => "Khmer",
            Lang::Eng => "English",
        }
    }

    pub fn code(&self) -> (r: &'static str)
        ensures
            r == self.spec_code(),
    {
        match self {
            Lang::Tur => "TUR",
            Lang::Deu => "DEU",
            Lang::Nld => "NLD",
            Lang::Dan => "DAN",
            Lang::Nor => "NOR",
            Lang::Swe => "SWE",
            Lang::Isl => "ISL",
            Lang::Ara => "ARA",
            Lang::Heb => "HEB",
            Lang::Vie => "VIE",
            Lang::Fra => "FRA",
            Lang::Ces => "CES",
            Lang::Slk => "SLK",
            Lang::Pol => "POL",
            Lang::Cat => "CAT",
            Lang::Spa => "SPA",
            Lang::Por => "POR",
            Lang::Ita => "ITA",
            Lang::Hrv => "HRV",
            Lang::Srp => "SRP",
            Lang::Lit => "LIT",
            Lang::Ell => "ELL",
            Lang::Hin => "HIN",
            Lang::Ben => "BEN",
            Lang::Tam => "TAM",
            Lang::Rus => "RUS",
            Lang::Jpn => "JPN",
            Lang::Zho => "ZHO",
            Lang::Kor => "KOR",
            Lang::Tha => "THA",
            Lang::Lao => "LAO",
            Lang::Mya => "MYA",
            Lang::Khm => "KHM",
            Lang::Eng => "ENG",
        }
    }

    pub fn name(&self) -> (r: &'static str)
        ensures
            r == self.spec_name(),
    {
        match self {
            Lang::Tur => "Turkish",
            Lang::Deu => "German",
            Lang::Nld => "Dutch",
            Lang::Dan => "Danish",
            Lang::Nor => "Norwegian",
            Lang::Swe => "Swedish",
            Lang::Isl => "Icelandic",
            Lang::Ara => "Arabic",
            Lang::Heb => "Hebrew",
            Lang::Vie => "Vietnamese",
            Lang::Fra => "French",
            Lang::Ces => "Czech",
            Lang::Slk => "Slovak",
            Lang::Pol => "Polish",
            Lang::Cat => "Catalan",
            Lang::Spa => "Spanish",
            Lang::Por => "Portuguese",
            Lang::Ita => "Italian",
            Lang::Hrv => "Croatian",
            Lang::Srp => "Serbian",
            Lang::Lit => "Lithuanian",
            Lang::Ell => "Greek",
            Lang::Hin => "Hindi",
            Lang::Ben => "Bengali",
            Lang::Tam => "Tamil",
            Lang::Rus => "Russian",
            Lang::Jpn => "Japanese",
            Lang::Zho => "Chinese (Simplified)",
            Lang::Kor => "Korean",
            Lang::Tha => "Thai",
            Lang::Lao => "Lao",
            Lang::Mya => "Myanmar",
            Lang::Khm => "Khmer",
            Lang::Eng => "English",
        }
    }
}

/// Every supported language, in table order.
pub open spec fn spec_all_langs() -> Seq<Lang> {
    seq![
        Lang::Tur, Lang::Deu, Lang::Nld, Lang::Dan, Lang::Nor, Lang::Swe,
        Lang::Isl, Lang::Ara, Lang::Heb, Lang::Vie, Lang::Fra, Lang::Ces,
        Lang::Slk, Lang::Pol, Lang::Cat, Lang::Spa, Lang::Por, Lang::Ita,
        Lang::Hrv, Lang::Srp, Lang::Lit, Lang::Ell, Lang::Hin, Lang::Ben,
        Lang::Tam, Lang::Rus, Lang::Jpn, Lang::Zho, Lang::Kor, Lang::Tha,
        Lang::Lao, Lang::Mya, Lang::Khm, Lang::Eng,
    ]
}

/// Every supported language, in table order.
pub fn all_langs() -> (r: Vec<Lang>)
    ensures
        r@ == spec_all_langs(),
{
    vec![
        TUR, DEU, NLD, DAN, NOR, SWE, ISL, ARA, HEB, VIE,
        FRA, CES, SLK, POL, CAT, SPA, POR, ITA, HRV, SRP,
        LIT, ELL, HIN, BEN, TAM, RUS, JPN, ZHO, KOR, THA,
        LAO, MYA, KHM, ENG,
    ]
}

/// The language whose code is exactly `code`, searching in table order.
pub open spec fn spec_lang_of_code(code: Seq<char>) -> Option<Lang> {
    if code == "TUR"@ {
        Some(Lang::Tur)
    } else if code == "DEU"@ {
        Some(Lang::Deu)
    } else if code == "NLD"@ {
        Some(Lang::Nld)
    } else if code == "DAN"@ {
        Some(Lang::Dan)
    } else if code == "NOR"@ {
        Some(Lang::Nor)
    } else if code == "SWE"@ {
        Some(Lang::Swe)
    } else if code == "ISL"@ {
        Some(Lang::Isl)
    } else if code == "ARA"@ {
        Some(Lang::Ara)
    } else if code == "HEB"@ {
        Some(Lang::Heb)
    } else if code == "VIE"@ {
        Some(Lang::Vie)
    } else if code == "FRA"@ {
        Some(Lang::Fra)
    } else if code == "CES"@ {
        Some(Lang::Ces)
    } else if code == "SLK"@ {
        Some(Lang::Slk)
    } else if code == "POL"@ {
        Some(Lang::Pol)
    } else if code == "CAT"@ {
        Some(Lang::Cat)
    } else if code == "SPA"@ {
        Some(Lang::Spa)
    } else if code == "POR"@ {
        Some(Lang::Por)
    } else if code == "ITA"@ {
        Some(Lang::Ita)
    } else if code == "HRV"@ {
        Some(Lang::Hrv)
    } else if code == "SRP"@ {
        Some(Lang::Srp)
    } else if code == "LIT"@ {
        Some(Lang::Lit)
    } else if code == "ELL"@ {
        Some(Lang::Ell)
    } else if code == "HIN"@ {
        Some(Lang::Hin)
    } else if code == "BEN"@ {
        Some(Lang::Ben)
    } else if code == "TAM"@ {
        Some(Lang::Tam)
    } else if code == "RUS"@ {
        Some(Lang::Rus)
    } else if code == "JPN"@ {
        Some(Lang::Jpn)
    } else if code == "ZHO"@ {
        Some(Lang::Zho)
    } else if code == "KOR"@ {
        Some(Lang::Kor)
    } else if code == "THA"@ {
        Some(Lang::Tha)
    } else if code == "LAO"@ {
        Some(Lang::Lao)
    } else if code == "MYA"@ {
        Some(Lang::Mya)
    } else if code == "KHM"@ {
        Some(Lang::Khm)
    } else if code == "ENG"@ {
        Some(Lang::Eng)
    } else {
        None
    }
}

pub(crate) fn lang_of_code(code: &str) -> (r: Option<Lang>)
    ensures
        r == spec_lang_of_code(code@),
{
    if str_eq(code, "TUR") {
        Some(TUR)
    } else if str_eq(code, "DEU") {
        Some(DEU)
    } else if str_eq(code, "NLD") {
        Some(NLD)
    } else if str_eq(code, "DAN") {
        Some(DAN)
    } else if str_eq(code, "NOR") {
        Some(NOR)
    } else if str_eq(code, "SWE") {
        Some(SWE)
    } else if str_eq(code, "ISL") {
        Some(ISL)
    } else if str_eq(code, "ARA") {
        Some(ARA)
    } else if str_eq(code, "HEB") {
        Some(HEB)
    } else if str_eq(code, "VIE") {
        Some(VIE)
    } else if str_eq(code, "FRA") {
        Some(FRA)
    } else if str_eq(code, "CES") {
        Some(CES)
    } else if str_eq(code, "SLK") {
        Some(SLK)
    } else if str_eq(code, "POL") {
        Some(POL)
    } else if str_eq(code, "CAT") {
        Some(CAT)
    } else if str_eq(code, "SPA") {
        Some(SPA)
    } else if str_eq(code, "POR") {
        Some(POR)
    } else if str_eq(code, "ITA") {
        Some(ITA)
    } else if str_eq(code, "HRV") {
        Some(HRV)
    } else if str_eq(code, "SRP") {
        Some(SRP)
    } else if str_eq(code, "LIT") {
        Some(LIT)
    } else if str_eq(code, "ELL") {
        Some(ELL)
    } else if str_eq(code, "HIN") {
        Some(HIN)
    } else if str_eq(code, "BEN") {
        Some(BEN)
    } else if str_eq(code, "TAM") {
        Some(TAM)
    } else if str_eq(code, "RUS") {
        Some(RUS)
    } else if str_eq(code, "JPN") {
        Some(JPN)
    } else if str_eq(code, "ZHO") {
        Some(ZHO)
    } else if str_eq(code, "KOR") {
        Some(KOR)
    } else if str_eq(code, "THA") {
        Some(THA)
    } else if str_eq(code, "LAO") {
        Some(LAO)
    } else if str_eq(code, "MYA") {
        Some(MYA)
    } else if str_eq(code, "KHM") {
        Some(KHM)
    } else if str_eq(code, "ENG") {
        Some(ENG)
    } else {
        None
    }
}

/// The table entry of a language.
pub open spec fn spec_lang_entry(lang: Lang) -> LangEntryView {
    match lang {
        Lang::Tur => spec_entry_tur(),
        Lang::Deu => spec_entry_deu(),
        Lang::Nld => spec_entry_nld(),
        Lang::Dan => spec_entry_dan(),
        Lang::Nor => spec_entry_nor(),
        Lang::Swe => spec_entry_swe(),
        Lang::Isl => spec_entry_isl(),
        Lang::Ara => spec_entry_ara(),
        Lang::Heb => spec_entry_heb(),
        Lang::Vie => spec_entry_vie(),
        Lang::Fra => spec_entry_fra(),
        Lang::Ces => spec_entry_ces(),
        Lang::Slk => spec_entry_slk(),
        Lang::Pol => spec_entry_pol(),
        Lang::Cat => spec_entry_cat(),
        Lang::Spa => spec_entry_spa(),
        Lang::Por => spec_entry_por(),
        Lang::Ita => spec_entry_ita(),
        Lang::Hrv => spec_entry_hrv(),
        Lang::Srp => spec_entry_srp(),
        Lang::Lit => spec_entry_lit(),
        Lang::Ell => spec_entry_ell(),
        Lang::Hin => spec_entry_hin(),
        Lang::Ben => spec_entry_ben(),
        Lang::Tam => spec_entry_tam(),
        Lang::Rus => spec_entry_rus(),
        Lang::Jpn => spec_entry_jpn(),
        Lang::Zho => spec_entry_zho(),
        Lang::Kor => spec_entry_kor(),
        Lang::Tha => spec_entry_tha(),
        Lang::Lao => spec_entry_lao(),
        Lang::Mya => spec_entry_mya(),
        Lang::Khm => spec_entry_khm(),
        Lang::Eng => spec_entry_eng(),
    }
}

pub open spec fn spec_entry_tur() -> LangEntryView {
    LangEntryView {
        has_case_map: true,
        has_fold_map: false,
        has_transliterate_map: false,
        has_pre_composed_to_base_map: false,
        has_spacing_diacritics: false,
        has_peek_pairs: false,
        has_segment_rules: false,
        has_one_to_one_folds: true,
        has_one_to_one_transliterate: true,
        needs_segmentation: false,
        requires_peek_ahead: false,
        unigram_cjk: false,
        code: "TUR",
        case_map: seq![
            CaseMap { from: 'İ', to: 'i' }, CaseMap { from: 'I', to: 'ı' },
        ],
        fold_map: Seq::empty(),
        pre_composed_to_base_map: Seq::empty(),
        pre_composed_to_base_char_slice: Seq::empty(),
        spacing_diacritics: None,
        spacing_diacritics_slice: None,
        transliterate_map: Seq::empty(),
        transliterate_char_slice: Seq::empty(),
        peek_pairs: Seq::empty(),
        segment_rules: Seq::empty(),
    }
}

fn entry_tur() -> (e: LangEntry)
    ensures
        e@ == spec_entry_tur(),
{
    let e = LangEntry::from_parts(
        [true, false, false, false, false, false, false, true, true, false, false, false],
        "TUR",
        vec![
            CaseMap { from: 'İ', to: 'i' }, CaseMap { from: 'I', to: 'ı' },
        ],
        Vec::new(),
        Vec::new(),
        Vec::new(),
        None,
        Vec::new(),
        Vec::new(),
        Vec::new(),
        Vec::new(),
    );
    assert(e@ =~= spec_entry_tur());
    e
}

pub open spec fn spec_entry_deu() -> LangEntryView {
    LangEntryView {
        has_case_map: false,
        has_fold_map: true,
        has_transliterate_map: true,
        has_pre_composed_to_base_map: false,
        has_spacing_diacritics: false,
        has_peek_pairs: false,
        has_segment_rules: false,
        has_one_to_one_folds: false,
        has_one_to_one_transliterate: false,
        needs_segmentation: false,
        requires_peek_ahead: false,
        unigram_cjk: false,
        code: "DEU",
        case_map: Seq::empty(),
        fold_map: seq![
            FoldMap { from: 'ß', to: "ss" }, FoldMap { from: 'ẞ', to: "ss" },
        ],
        pre_composed_to_base_map: Seq::empty(),
        pre_composed_to_base_char_slice: Seq::empty(),
        spacing_diacritics: None,
        spacing_diacritics_slice: None,
        transliterate_map: seq![
            FoldMap { from: 'Ä', to: "ae" }, FoldMap { from: 'ä', to: "ae" }, FoldMap { from: 'Ö', to: "oe" }, FoldMap { from: 'ö', to: "oe" },
            FoldMap { from: 'Ü', to: "ue" }, FoldMap { from: 'ü', to: "ue" },
        ],
        transliterate_char_slice: seq![
            'Ä', 'ä', 'Ö', 'ö',
            'Ü', 'ü',
        ],
        peek_pairs: Seq::empty(),
        segment_rules: Seq::empty(),
    }
}

fn entry_deu() -> (e: LangEntry)
    ensures
        e@ == spec_entry_deu(),
{
    let e = LangEntry::from_parts(
        [false, true, true, false, false, false, false, false, false, false, false, false],
        "DEU",
        Vec::new(),
        vec![
            FoldMap { from: 'ß', to: "ss" }, FoldMap { from: 'ẞ', to: "ss" },
        ],
        Vec::new(),
        Vec::new(),
        None,
        vec![
            FoldMap { from: 'Ä', to: "ae" }, FoldMap { from: 'ä', to: "ae" }, FoldMap { from: 'Ö', to: "oe" }, FoldMap { from: 'ö', to: "oe" },
            FoldMap { from: 'Ü', to: "ue" }, FoldMap { from: 'ü', to: "ue" },
        ],
        vec![
            'Ä', 'ä', 'Ö', 'ö',
            'Ü', 'ü',
        ],
        Vec::new(),
        Vec::new(),
    );
    assert(e@ =~= spec_entry_deu());
    e
}

pub open spec fn spec_entry_nld() -> LangEntryView {
    LangEntryView {
        has_case_map: false,
        has_fold_map: true,
        has_transliterate_map: false,
        has_pre_composed_to_base_map: false,
        has_spacing_diacritics: false,
        has_peek_pairs: false,
        has_segment_rules: false,
        has_one_to_one_folds: false,
        has_one_to_one_transliterate: true,
        needs_segmentation: false,
        requires_peek_ahead: false,
        unigram_cjk: false,
        code: "NLD",
        case_map: Seq::empty(),
        fold_map: seq![
            FoldMap { from: 'Ĳ', to: "ij" }, FoldMap { from: 'ĳ', to: "ij" },
        ],
        pre_composed_to_base_map: Seq::empty(),
        pre_composed_to_base_char_slice: Seq::empty(),
        spacing_diacritics: None,
        spacing_diacritics_slice: None,
        transliterate_map: Seq::empty(),
        transliterate_char_slice: Seq::empty(),
        peek_pairs: Seq::empty(),
        segment_rules: Seq::empty(),
    }
}

fn entry_nld() -> (e: LangEntry)
    ensures
        e@ == spec_entry_nld(),
{
    let e = LangEntry::from_parts(
        [false, true, false, false, false, false, false, false, true, false, false, false],
        "NLD",
        Vec::new(),
        vec![
            FoldMap { from: 'Ĳ', to: "ij" }, FoldMap { from: 'ĳ', to: "ij" },
        ],
        Vec::new(),
        Vec::new(),
        None,
        Vec::new(),
        Vec::new(),
        Vec::new(),
        Vec::new(),
    );
    assert(e@ =~= spec_entry_nld());
    e
}

pub open spec fn spec_entry_dan() -> LangEntryView {
    LangEntryView {
        has_case_map: false,
        has_fold_map: false,
        has_transliterate_map: true,
        has_pre_composed_to_base_map: false,
        has_spacing_diacritics: false,
        has_peek_pairs: false,
        has_segment_rules: false,
        has_one_to_one_folds: true,
        has_one_to_one_transliterate: false,
        needs_segmentation: false,
        requires_peek_ahead: false,
        unigram_cjk: false,
        code: "DAN",
        case_map: Seq::empty(),
        fold_map: Seq::empty(),
        pre_composed_to_base_map: Seq::empty(),
        pre_composed_to_base_char_slice: Seq::empty(),
        spacing_diacritics: None,
        spacing_diacritics_slice: None,
        transliterate_map: seq![
            FoldMap { from: 'Å', to: "aa" }, FoldMap { from: 'å', to: "aa" }, FoldMap { from: 'Æ', to: "ae" }, FoldMap { from: 'æ', to: "ae" },
            FoldMap { from: 'Ø', to: "oe" }, FoldMap { from: 'ø', to: "oe" },
        ],
        transliterate_char_slice: seq![
            'Å', 'å', 'Æ', 'æ',
            'Ø', 'ø',
        ],
        peek_pairs: Seq::empty(),
        segment_rules: Seq::empty(),
    }
}

fn entry_dan() -> (e: LangEntry)
    ensures
        e@ == spec_entry_dan(),
{
    let e = LangEntry::from_parts(
        [false, false, true, false, false, false, false, true, false, false, false, false],
        "DAN",
        Vec::new(),
        Vec::new(),
        Vec::new(),
        Vec::new(),
        None,
        vec![
            FoldMap { from: 'Å', to: "aa" }, FoldMap { from: 'å', to: "aa" }, FoldMap { from: 'Æ', to: "ae" }, FoldMap { from: 'æ', to: "ae" },
            FoldMap { from: 'Ø', to: "oe" }, FoldMap { from: 'ø', to: "oe" },
        ],
        vec![
            'Å', 'å', 'Æ', 'æ',
            'Ø', 'ø',
        ],
        Vec::new(),
        Vec::new(),
    );
    assert(e@ =~= spec_entry_dan());
    e
}

pub open spec fn spec_entry_nor() -> LangEntryView {
    LangEntryView {
        has_case_map: false,
        has_fold_map: false,
        has_transliterate_map: true,
        has_pre_composed_to_base_map: false,
        has_spacing_diacritics: false,
        has_peek_pairs: false,
        has_segment_rules: false,
        has_one_to_one_folds: true,
        has_one_to_one_transliterate: false,
        needs_segmentation: false,
        requires_peek_ahead: false,
        unigram_cjk: false,
        code: "NOR",
        case_map: Seq::empty(),
        fold_map: Seq::empty(),
        pre_composed_to_base_map: Seq::empty(),
        pre_composed_to_base_char_slice: Seq::empty(),
        spacing_diacritics: None,
        spacing_diacritics_slice: None,
        transliterate_map: seq![
            FoldMap { from: 'Æ', to: "ae" }, FoldMap { from: 'æ', to: "ae" }, FoldMap { from: 'Ø', to: "oe" }, FoldMap { from: 'ø', to: "oe" },
            FoldMap { from: 'Å', to: "aa" }, FoldMap { from: 'å', to: "aa" },
        ],
        transliterate_char_slice: seq![
            'Æ', 'æ', 'Ø', 'ø',
            'Å', 'å',
        ],
        peek_pairs: Seq::empty(),
        segment_rules: Seq::empty(),
    }
}

fn entry_nor() -> (e: LangEntry)
    ensures
        e@ == spec_entry_nor(),
{
    let e = LangEntry::from_parts(
        [false, false, true, false, false, false, false, true, false, false, false, false],
        "NOR",
        Vec::new(),
        Vec::new(),
        Vec::new(),
        Vec::new(),
        None,
        vec![
            FoldMap { from: 'Æ', to: "ae" }, FoldMap { from: 'æ', to: "ae" }, FoldMap { from: 'Ø', to: "oe" }, FoldMap { from: 'ø', to: "oe" },
            FoldMap { from: 'Å', to: "aa" }, FoldMap { from: 'å', to: "aa" },
        ],
        vec![
            'Æ', 'æ', 'Ø', 'ø',
            'Å', 'å',
        ],
        Vec::new(),
        Vec::new(),
    );
    assert(e@ =~= spec_entry_nor());
    e
}

pub open spec fn spec_entry_swe() -> LangEntryView {
    LangEntryView {
        has_case_map: false,
        has_fold_map: false,
        has_transliterate_map: true,
        has_pre_composed_to_base_map: false,
        has_spacing_diacritics: false,
        has_peek_pairs: false,
        has_segment_rules: false,
        has_one_to_one_folds: true,
        has_one_to_one_transliterate: false,
        needs_segmentation: false,
        requires_peek_ahead: false,
        unigram_cjk: false,
        code: "SWE",
        case_map: Seq::empty(),
        fold_map: Seq::empty(),
        pre_composed_to_base_map: Seq::empty(),
        pre_composed_to_base_char_slice: Seq::empty(),
        spacing_diacritics: None,
        spacing_diacritics_slice: None,
        transliterate_map: seq![
            FoldMap { from: 'Å', to: "aa" }, FoldMap { from: 'å', to: "aa" }, FoldMap { from: 'Ä', to: "ae" }, FoldMap { from: 'ä', to: "ae" },
            FoldMap { from: 'Ö', to: "oe" }, FoldMap { from: 'ö', to: "oe" },
        ],
        transliterate_char_slice: seq![
            'Å', 'å', 'Ä', 'ä',
            'Ö', 'ö',
        ],
        peek_pairs: Seq::empty(),
        segment_rules: Seq::empty(),
    }
}

fn entry_swe() -> (e: LangEntry)
    ensures
        e@ == spec_entry_swe(),
{
    let e = LangEntry::from_parts(
        [false, false, true, false, false, false, false, true, false, false, false, false],
        "SWE",
        Vec::new(),
        Vec::new(),
        Vec::new(),
        Vec::new(),
        None,
        vec![
            FoldMap { from: 'Å', to: "aa" }, FoldMap { from: 'å', to: "aa" }, FoldMap { from: 'Ä', to: "ae" }, FoldMap { from: 'ä', to: "ae" },
            FoldMap { from: 'Ö', to: "oe" }, FoldMap { from: 'ö', to: "oe" },
        ],
        vec![
            'Å', 'å', 'Ä', 'ä',
            'Ö', 'ö',
        ],
        Vec::new(),
        Vec::new(),
    );
    assert(e@ =~= spec_entry_swe());
    e
}

pub open spec fn spec_entry_isl() -> LangEntryView {
    LangEntryView {
        has_case_map: false,
        has_fold_map: false,
        has_transliterate_map: true,
        has_pre_composed_to_base_map: false,
        has_spacing_diacritics: false,
        has_peek_pairs: false,
        has_segment_rules: false,
        has_one_to_one_folds: true,
        has_one_to_one_transliterate: false,
        needs_segmentation: false,
        requires_peek_ahead: false,
        unigram_cjk: false,
        code: "ISL",
        case_map: Seq::empty(),
        fold_map: Seq::empty(),
        pre_composed_to_base_map: Seq::empty(),
        pre_composed_to_base_char_slice: Seq::empty(),
        spacing_diacritics: None,
        spacing_diacritics_slice: None,
        transliterate_map: seq![
            FoldMap { from: 'Þ', to: "th" }, FoldMap { from: 'þ', to: "th" }, FoldMap { from: 'Ð', to: "d" }, FoldMap { from: 'ð', to: "d" },
            FoldMap { from: 'Æ', to: "ae" }, FoldMap { from: 'æ', to: "ae" },
        ],
        transliterate_char_slice: seq![
            'Þ', 'þ', 'Ð', 'ð',
            'Æ', 'æ',
        ],
        peek_pairs: Seq::empty(),
        segment_rules: Seq::empty(),
    }
}

fn entry_isl() -> (e: LangEntry)
    ensures
        e@ == spec_entry_isl(),
{
    let e = LangEntry::from_parts(
        [false, false, true, false, false, false, false, true, false, false, false, false],
        "ISL",
        Vec::new(),
        Vec::new(),
        Vec::new(),
        Vec::new(),
        None,
        vec![
            FoldMap { from: 'Þ', to: "th" }, FoldMap { from: 'þ', to: "th" }, FoldMap { from: 'Ð', to: "d" }, FoldMap { from: 'ð', to: "d" },
            FoldMap { from: 'Æ', to: "ae" }, FoldMap { from: 'æ', to: "ae" },
        ],
        vec![
            'Þ', 'þ', 'Ð', 'ð',
            'Æ', 'æ',
        ],
        Vec::new(),
        Vec::new(),
    );
    assert(e@ =~= spec_entry_isl());
    e
}

pub open spec fn spec_entry_ara() -> LangEntryView {
    LangEntryView {
        has_case_map: false,
        has_fold_map: false,
        has_transliterate_map: false,
        has_pre_composed_to_base_map: false,
        has_spacing_diacritics: true,
        has_peek_pairs: false,
        has_segment_rules: false,
        has_one_to_one_folds: true,
        has_one_to_one_transliterate: true,
        needs_segmentation: false,
        requires_peek_ahead: false,
        unigram_cjk: false,
        code: "ARA",
        case_map: Seq::empty(),
        fold_map: Seq::empty(),
        pre_composed_to_base_map: Seq::empty(),
        pre_composed_to_base_char_slice: Seq::empty(),
        spacing_diacritics: Some(seq![
            '\u{064E}', '\u{0650}', '\u{064F}', '\u{0652}',
            '\u{0651}', '\u{064B}', '\u{064D}', '\u{064C}',
            '\u{0653}', '\u{0654}', '\u{0655}', '\u{0656}',
            '\u{0657}', '\u{0658}', '\u{0670}',
        ]),
        spacing_diacritics_slice: Some(seq![
            '\u{064E}', '\u{0650}', '\u{064F}', '\u{0652}',
            '\u{0651}', '\u{064B}', '\u{064D}', '\u{064C}',
            '\u{0653}', '\u{0654}', '\u{0655}', '\u{0656}',
            '\u{0657}', '\u{0658}', '\u{0670}',
        ]),
        transliterate_map: Seq::empty(),
        transliterate_char_slice: Seq::empty(),
        peek_pairs: Seq::empty(),
        segment_rules: Seq::empty(),
    }
}

fn entry_ara() -> (e: LangEntry)
    ensures
        e@ == spec_entry_ara(),
{
    let e = LangEntry::from_parts(
        [false, false, false, false, true, false, false, true, true, false, false, false],
        "ARA",
        Vec::new(),
        Vec::new(),
        Vec::new(),
        Vec::new(),
        Some(vec![
            '\u{064E}', '\u{0650}', '\u{064F}', '\u{0652}',
            '\u{0651}', '\u{064B}', '\u{064D}', '\u{064C}',
            '\u{0653}', '\u{0654}', '\u{0655}', '\u{0656}',
            '\u{0657}', '\u{0658}', '\u{0670}',
        ]),
        Vec::new(),
        Vec::new(),
        Vec::new(),
        Vec::new(),
    );
    assert(e@ =~= spec_entry_ara());
    e
}

pub open spec fn spec_entry_heb() -> LangEntryView {
    LangEntryView {
        has_case_map: false,
        has_fold_map: false,
        has_transliterate_map: false,
        has_pre_composed_to_base_map: false,
        has_spacing_diacritics: true,
        has_peek_pairs: false,
        has_segment_rules: false,
        has_one_to_one_folds: true,
        has_one_to_one_transliterate: true,
        needs_segmentation: false,
        requires_peek_ahead: false,
        unigram_cjk: false,
        code: "HEB",
        case_map: Seq::empty(),
        fold_map: Seq::empty(),
        pre_composed_to_base_map: Seq::empty(),
        pre_composed_to_base_char_slice: Seq::empty(),
        spacing_diacritics: Some(seq![
            '\u{05B0}', '\u{05B7}', '\u{05B8}', '\u{05B4}',
            '\u{05B6}', '\u{05B5}', '\u{05B9}', '\u{05BB}',
            '\u{05BC}', '\u{05C1}', '\u{05C2}', '\u{05BD}',
            '\u{05BF}', '\u{05B1}', '\u{05B2}', '\u{05B3}',
            '\u{05BA}', '\u{05C4}', '\u{05C5}', '\u{05C7}',
        ]),
        spacing_diacritics_slice: Some(seq![
            '\u{05B0}', '\u{05B7}', '\u{05B8}', '\u{05B4}',
            '\u{05B6}', '\u{05B5}', '\u{05B9}', '\u{05BB}',
            '\u{05BC}', '\u{05C1}', '\u{05C2}', '\u{05BD}',
            '\u{05BF}', '\u{05B1}', '\u{05B2}', '\u{05B3}',
            '\u{05BA}', '\u{05C4}', '\u{05C5}', '\u{05C7}',
        ]),
        transliterate_map: Seq::empty(),
        transliterate_char_slice: Seq::empty(),
        peek_pairs: Seq::empty(),
        segment_rules: Seq::empty(),
    }
}

fn entry_heb() -> (e: LangEntry)
    ensures
        e@ == spec_entry_heb(),
{
    let e = LangEntry::from_parts(
        [false, false, false, false, true, false, false, true, true, false, false, false],
        "HEB",
        Vec::new(),
        Vec::new(),
        Vec::new(),
        Vec::new(),
        Some(vec![
            '\u{05B0}', '\u{05B7}', '\u{05B8}', '\u{05B4}',
            '\u{05B6}', '\u{05B5}', '\u{05B9}', '\u{05BB}',
            '\u{05BC}', '\u{05C1}', '\u{05C2}', '\u{05BD}',
            '\u{05BF}', '\u{05B1}', '\u{05B2}', '\u{05B3}',
            '\u{05BA}', '\u{05C4}', '\u{05C5}', '\u{05C7}',
        ]),
        Vec::new(),
        Vec::new(),
        Vec::new(),
        Vec::new(),
    );
    assert(e@ =~= spec_entry_heb());
    e
}

pub open spec fn spec_entry_vie() -> LangEntryView {
    LangEntryView {
        has_case_map: false,
        has_fold_map: false,
        has_transliterate_map: false,
        has_pre_composed_to_base_map: true,
        has_spacing_diacritics: true,
        has_peek_pairs: false,
        has_segment_rules: false,
        has_one_to_one_folds: true,
        has_one_to_one_transliterate: true,
        needs_segmentation: false,
        requires_peek_ahead: false,
        unigram_cjk: false,
        code: "VIE",
        case_map: Seq::empty(),
        fold_map: Seq::empty(),
        pre_composed_to_base_map: seq![
            PreComposedToBaseMap { from: 'a', to: 'a' }, PreComposedToBaseMap { from: 'à', to: 'a' }, PreComposedToBaseMap { from: 'á', to: 'a' }, PreComposedToBaseMap { from: 'ả', to: 'a' },
            PreComposedToBaseMap { from: 'ã', to: 'a' }, PreComposedToBaseMap { from: 'ạ', to: 'a' }, PreComposedToBaseMap { from: 'ă', to: 'a' }, PreComposedToBaseMap { from: 'ằ', to: 'a' },
            PreComposedToBaseMap { from: 'ắ', to: 'a' }, PreComposedToBaseMap { from: 'ẳ', to: 'a' }, PreComposedToBaseMap { from: 'ẵ', to: 'a' }, PreComposedToBaseMap { from: 'ặ', to: 'a' },
            PreComposedToBaseMap { from: 'â', to: 'a' }, PreComposedToBaseMap { from: 'ầ', to: 'a' }, PreComposedToBaseMap { from: 'ấ', to: 'a' }, PreComposedToBaseMap { from: 'ẩ', to: 'a' },
            PreComposedToBaseMap { from: 'ẫ', to: 'a' }, PreComposedToBaseMap { from: 'ậ', to: 'a' }, PreComposedToBaseMap { from: 'o', to: 'o' }, PreComposedToBaseMap { from: 'ò', to: 'o' },
            PreComposedToBaseMap { from: 'ó', to: 'o' }, PreComposedToBaseMap { from: 'ỏ', to: 'o' }, PreComposedToBaseMap { from: 'õ', to: 'o' }, PreComposedToBaseMap { from: 'ọ', to: 'o' },
            PreComposedToBaseMap { from: 'ô', to: 'o' }, PreComposedToBaseMap { from: 'ồ', to: 'o' }, PreComposedToBaseMap { from: 'ố', to: 'o' }, PreComposedToBaseMap { from: 'ổ', to: 'o' },
            PreComposedToBaseMap { from: 'ỗ', to: 'o' }, PreComposedToBaseMap { from: 'ộ', to: 'o' }, PreComposedToBaseMap { from: 'ơ', to: 'o' }, PreComposedToBaseMap { from: 'ờ', to: 'o' },
            PreComposedToBaseMap { from: 'ớ', to: 'o' }, PreComposedToBaseMap { from: 'ở', to: 'o' }, PreComposedToBaseMap { from: 'ỡ', to: 'o' }, PreComposedToBaseMap { from: 'ợ', to: 'o' },
            PreComposedToBaseMap { from: 'e', to: 'e' }, PreComposedToBaseMap { from: 'è', to: 'e' }, PreComposedToBaseMap { from: 'é', to: 'e' }, PreComposedToBaseMap { from: 'ẻ', to: 'e' },
            PreComposedToBaseMap { from: 'ẽ', to: 'e' }, PreComposedToBaseMap { from: 'ẹ', to: 'e' }, PreComposedToBaseMap { from: 'ê', to: 'e' }, PreComposedToBaseMap { from: 'ề', to: 'e' },
            PreComposedToBaseMap { from: 'ế', to: 'e' }, PreComposedToBaseMap { from: 'ể', to: 'e' }, PreComposedToBaseMap { from: 'ễ', to: 'e' }, PreComposedToBaseMap { from: 'ệ', to: 'e' },
            PreComposedToBaseMap { from: 'u', to: 'u' }, PreComposedToBaseMap { from: 'ù', to: 'u' }, PreComposedToBaseMap { from: 'ú', to: 'u' }, PreComposedToBaseMap { from: 'ủ', to: 'u' },
            PreComposedToBaseMap { from: 'ũ', to: 'u' }, PreComposedToBaseMap { from: 'ụ', to: 'u' }, PreComposedToBaseMap { from: 'ư', to: 'u' }, PreComposedToBaseMap { from: 'ừ', to: 'u' },
            PreComposedToBaseMap { from: 'ứ', to: 'u' }, PreComposedToBaseMap { from: 'ử', to: 'u' }, PreComposedToBaseMap { from: 'ữ', to: 'u' }, PreComposedToBaseMap { from: 'ự', to: 'u' },
            PreComposedToBaseMap { from: 'i', to: 'i' }, PreComposedToBaseMap { from: 'ì', to: 'i' }, PreComposedToBaseMap { from: 'í', to: 'i' }, PreComposedToBaseMap { from: 'ỉ', to: 'i' },
            PreComposedToBaseMap { from: 'ĩ', to: 'i' }, PreComposedToBaseMap { from: 'ị', to: 'i' }, PreComposedToBaseMap { from: 'y', to: 'y' }, PreComposedToBaseMap { from: 'ỳ', to: 'y' },
            PreComposedToBaseMap { from: 'ý', to: 'y' }, PreComposedToBaseMap { from: 'ỷ', to: 'y' }, PreComposedToBaseMap { from: 'ỹ', to: 'y' }, PreComposedToBaseMap { from: 'ỵ', to: 'y' },
            PreComposedToBaseMap { from: 'đ', to: 'd' }, PreComposedToBaseMap { from: 'A', to: 'A' }, PreComposedToBaseMap { from: 'À', to: 'A' }, PreComposedToBaseMap { from: 'Á', to: 'A' },
            PreComposedToBaseMap { from: 'Ả', to: 'A' }, PreComposedToBaseMap { from: 'Ã', to: 'A' }, PreComposedToBaseMap { from: 'Ạ', to: 'A' }, PreComposedToBaseMap { from: 'Ă', to: 'A' },
            PreComposedToBaseMap { from: 'Ằ', to: 'A' }, PreComposedToBaseMap { from: 'Ắ', to: 'A' }, PreComposedToBaseMap { from: 'Ẳ', to: 'A' }, PreComposedToBaseMap { from: 'Ẵ', to: 'A' },
            PreComposedToBaseMap { from: 'Ặ', to: 'A' }, PreComposedToBaseMap { from: 'Â', to: 'A' }, PreComposedToBaseMap { from: 'Ầ', to: 'A' }, PreComposedToBaseMap { from: 'Ấ', to: 'A' },
            PreComposedToBaseMap { from: 'Ẩ', to: 'A' }, PreComposedToBaseMap { from: 'Ẫ', to: 'A' }, PreComposedToBaseMap { from: 'Ậ', to: 'A' }, PreComposedToBaseMap { from: 'O', to: 'O' },
            PreComposedToBaseMap { from: 'Ò', to: 'O' }, PreComposedToBaseMap { from: 'Ó', to: 'O' }, PreComposedToBaseMap { from: 'Ỏ', to: 'O' }, PreComposedToBaseMap { from: 'Õ', to: 'O' },
            PreComposedToBaseMap { from: 'Ọ', to: 'O' }, PreComposedToBaseMap { from: 'Ô', to: 'O' }, PreComposedToBaseMap { from: 'Ồ', to: 'O' }, PreComposedToBaseMap { from: 'Ố', to: 'O' },
            PreComposedToBaseMap { from: 'Ổ', to: 'O' }, PreComposedToBaseMap { from: 'Ỗ', to: 'O' }, PreComposedToBaseMap { from: 'Ộ', to: 'O' }, PreComposedToBaseMap { from: 'Ơ', to: 'O' },
            PreComposedToBaseMap { from: 'Ờ', to: 'O' }, PreComposedToBaseMap { from: 'Ớ', to: 'O' }, PreComposedToBaseMap { from: 'Ở', to: 'O' }, PreComposedToBaseMap { from: 'Ỡ', to: 'O' },
            PreComposedToBaseMap { from: 'Ợ', to: 'O' }, PreComposedToBaseMap { from: 'E', to: 'E' }, PreComposedToBaseMap { from: 'È', to: 'E' }, PreComposedToBaseMap { from: 'É', to: 'E' },
            PreComposedToBaseMap { from: 'Ẻ', to: 'E' }, PreComposedToBaseMap { from: 'Ẽ', to: 'E' }, PreComposedToBaseMap { from: 'Ẹ', to: 'E' }, PreComposedToBaseMap { from: 'Ê', to: 'E' },
            PreComposedToBaseMap { from: 'Ề', to: 'E' }, PreComposedToBaseMap { from: 'Ế', to: 'E' }, PreComposedToBaseMap { from: 'Ể', to: 'E' }, PreComposedToBaseMap { from: 'Ễ', to: 'E' },
            PreComposedToBaseMap { from: 'Ệ', to: 'E' }, PreComposedToBaseMap { from: 'U', to: 'U' }, PreComposedToBaseMap { from: 'Ù', to: 'U' }, PreComposedToBaseMap { from: 'Ú', to: 'U' },
            PreComposedToBaseMap { from: 'Ủ', to: 'U' }, PreComposedToBaseMap { from: 'Ũ', to: 'U' }, PreComposedToBaseMap { from: 'Ụ', to: 'U' }, PreComposedToBaseMap { from: 'Ư', to: 'U' },
            PreComposedToBaseMap { from: 'Ừ', to: 'U' }, PreComposedToBaseMap { from: 'Ứ', to: 'U' }, PreComposedToBaseMap { from: 'Ử', to: 'U' }, PreComposedToBaseMap { from: 'Ữ', to: 'U' },
            PreComposedToBaseMap { from: 'Ự', to: 'U' }, PreComposedToBaseMap { from: 'I', to: 'I' }, PreComposedToBaseMap { from: 'Ì', to: 'I' }, PreComposedToBaseMap { from: 'Í', to: 'I' },
            PreComposedToBaseMap { from: 'Ỉ', to: 'I' }, PreComposedToBaseMap { from: 'Ĩ', to: 'I' }, PreComposedToBaseMap { from: 'Ị', to: 'I' }, PreComposedToBaseMap { from: 'Y', to: 'Y' },
            PreComposedToBaseMap { from: 'Ỳ', to: 'Y' }, PreComposedToBaseMap { from: 'Ý', to: 'Y' }, PreComposedToBaseMap { from: 'Ỷ', to: 'Y' }, PreComposedToBaseMap { from: 'Ỹ', to: 'Y' },
            PreComposedToBaseMap { from: 'Ỵ', to: 'Y' }, PreComposedToBaseMap { from: 'Đ', to: 'D' },
        ],
        pre_composed_to_base_char_slice: seq![
            'a', 'à', 'á', 'ả',
            'ã', 'ạ', 'ă', 'ằ',
            'ắ', 'ẳ', 'ẵ', 'ặ',
            'â', 'ầ', 'ấ', 'ẩ',
            'ẫ', 'ậ', 'o', 'ò',
            'ó', 'ỏ', 'õ', 'ọ',
            'ô', 'ồ', 'ố', 'ổ',
            'ỗ', 'ộ', 'ơ', 'ờ',
            'ớ', 'ở', 'ỡ', 'ợ',
            'e', 'è', 'é', 'ẻ',
            'ẽ', 'ẹ', 'ê', 'ề',
            'ế', 'ể', 'ễ', 'ệ',
            'u', 'ù', 'ú', 'ủ',
            'ũ', 'ụ', 'ư', 'ừ',
            'ứ', 'ử', 'ữ', 'ự',
            'i', 'ì', 'í', 'ỉ',
            'ĩ', 'ị', 'y', 'ỳ',
            'ý', 'ỷ', 'ỹ', 'ỵ',
            'đ', 'A', 'À', 'Á',
            'Ả', 'Ã', 'Ạ', 'Ă',
            'Ằ', 'Ắ', 'Ẳ', 'Ẵ',
            'Ặ', 'Â', 'Ầ', 'Ấ',
            'Ẩ', 'Ẫ', 'Ậ', 'O',
            'Ò', 'Ó', 'Ỏ', 'Õ',
            'Ọ', 'Ô', 'Ồ', 'Ố',
            'Ổ', 'Ỗ', 'Ộ', 'Ơ',
            'Ờ', 'Ớ', 'Ở', 'Ỡ',
            'Ợ', 'E', 'È', 'É',
            'Ẻ', 'Ẽ', 'Ẹ', 'Ê',
            'Ề', 'Ế', 'Ể', 'Ễ',
            'Ệ', 'U', 'Ù', 'Ú',
            'Ủ', 'Ũ', 'Ụ', 'Ư',
            'Ừ', 'Ứ', 'Ử', 'Ữ',
            'Ự', 'I', 'Ì', 'Í',
            'Ỉ', 'Ĩ', 'Ị', 'Y',
            'Ỳ', 'Ý', 'Ỷ', 'Ỹ',
            'Ỵ', 'Đ',
        ],
        spacing_diacritics: Some(seq![
            '\u{0300}', '\u{0301}', '\u{0303}', '\u{0309}',
            '\u{0323}',
        ]),
        spacing_diacritics_slice: Some(seq![
            '\u{0300}', '\u{0301}', '\u{0303}', '\u{0309}',
            '\u{0323}',
        ]),
        transliterate_map: Seq::empty(),
        transliterate_char_slice: Seq::empty(),
        peek_pairs: Seq::empty(),
        segment_rules: Seq::empty(),
    }
}

fn entry_vie() -> (e: LangEntry)
    ensures
        e@ == spec_entry_vie(),
{
    let e = LangEntry::from_parts(
        [false, false, false, true, true, false, false, true, true, false, false, false],
        "VIE",
        Vec::new(),
        Vec::new(),
        vec![
            PreComposedToBaseMap { from: 'a', to: 'a' }, PreComposedToBaseMap { from: 'à', to: 'a' }, PreComposedToBaseMap { from: 'á', to: 'a' }, PreComposedToBaseMap { from: 'ả', to: 'a' },
            PreComposedToBaseMap { from: 'ã', to: 'a' }, PreComposedToBaseMap { from: 'ạ', to: 'a' }, PreComposedToBaseMap { from: 'ă', to: 'a' }, PreComposedToBaseMap { from: 'ằ', to: 'a' },
            PreComposedToBaseMap { from: 'ắ', to: 'a' }, PreComposedToBaseMap { from: 'ẳ', to: 'a' }, PreComposedToBaseMap { from: 'ẵ', to: 'a' }, PreComposedToBaseMap { from: 'ặ', to: 'a' },
            PreComposedToBaseMap { from: 'â', to: 'a' }, PreComposedToBaseMap { from: 'ầ', to: 'a' }, PreComposedToBaseMap { from: 'ấ', to: 'a' }, PreComposedToBaseMap { from: 'ẩ', to: 'a' },
            PreComposedToBaseMap { from: 'ẫ', to: 'a' }, PreComposedToBaseMap { from: 'ậ', to: 'a' }, PreComposedToBaseMap { from: 'o', to: 'o' }, PreComposedToBaseMap { from: 'ò', to: 'o' },
            PreComposedToBaseMap { from: 'ó', to: 'o' }, PreComposedToBaseMap { from: 'ỏ', to: 'o' }, PreComposedToBaseMap { from: 'õ', to: 'o' }, PreComposedToBaseMap { from: 'ọ', to: 'o' },
            PreComposedToBaseMap { from: 'ô', to: 'o' }, PreComposedToBaseMap { from: 'ồ', to: 'o' }, PreComposedToBaseMap { from: 'ố', to: 'o' }, PreComposedToBaseMap { from: 'ổ', to: 'o' },
            PreComposedToBaseMap { from: 'ỗ', to: 'o' }, PreComposedToBaseMap { from: 'ộ', to: 'o' }, PreComposedToBaseMap { from: 'ơ', to: 'o' }, PreComposedToBaseMap { from: 'ờ', to: 'o' },
            PreComposedToBaseMap { from: 'ớ', to: 'o' }, PreComposedToBaseMap { from: 'ở', to: 'o' }, PreComposedToBaseMap { from: 'ỡ', to: 'o' }, PreComposedToBaseMap { from: 'ợ', to: 'o' },
            PreComposedToBaseMap { from: 'e', to: 'e' }, PreComposedToBaseMap { from: 'è', to: 'e' }, PreComposedToBaseMap { from: 'é', to: 'e' }, PreComposedToBaseMap { from: 'ẻ', to: 'e' },
            PreComposedToBaseMap { from: 'ẽ', to: 'e' }, PreComposedToBaseMap { from: 'ẹ', to: 'e' }, PreComposedToBaseMap { from: 'ê', to: 'e' }, PreComposedToBaseMap { from: 'ề', to: 'e' },
            PreComposedToBaseMap { from: 'ế', to: 'e' }, PreComposedToBaseMap { from: 'ể', to: 'e' }, PreComposedToBaseMap { from: 'ễ', to: 'e' }, PreComposedToBaseMap { from: 'ệ', to: 'e' },
            PreComposedToBaseMap { from: 'u', to: 'u' }, PreComposedToBaseMap { from: 'ù', to: 'u' }, PreComposedToBaseMap { from: 'ú', to: 'u' }, PreComposedToBaseMap { from: 'ủ', to: 'u' },
            PreComposedToBaseMap { from: 'ũ', to: 'u' }, PreComposedToBaseMap { from: 'ụ', to: 'u' }, PreComposedToBaseMap { from: 'ư', to: 'u' }, PreComposedToBaseMap { from: 'ừ', to: 'u' },
            PreComposedToBaseMap { from: 'ứ', to: 'u' }, PreComposedToBaseMap { from: 'ử', to: 'u' }, PreComposedToBaseMap { from: 'ữ', to: 'u' }, PreComposedToBaseMap { from: 'ự', to: 'u' },
            PreComposedToBaseMap { from: 'i', to: 'i' }, PreComposedToBaseMap { from: 'ì', to: 'i' }, PreComposedToBaseMap { from: 'í', to: 'i' }, PreComposedToBaseMap { from: 'ỉ', to: 'i' },
            PreComposedToBaseMap { from: 'ĩ', to: 'i' }, PreComposedToBaseMap { from: 'ị', to: 'i' }, PreComposedToBaseMap { from: 'y', to: 'y' }, PreComposedToBaseMap { from: 'ỳ', to: 'y' },
            PreComposedToBaseMap { from: 'ý', to: 'y' }, PreComposedToBaseMap { from: 'ỷ', to: 'y' }, PreComposedToBaseMap { from: 'ỹ', to: 'y' }, PreComposedToBaseMap { from: 'ỵ', to: 'y' },
            PreComposedToBaseMap { from: 'đ', to: 'd' }, PreComposedToBaseMap { from: 'A', to: 'A' }, PreComposedToBaseMap { from: 'À', to: 'A' }, PreComposedToBaseMap { from: 'Á', to: 'A' },
            PreComposedToBaseMap { from: 'Ả', to: 'A' }, PreComposedToBaseMap { from: 'Ã', to: 'A' }, PreComposedToBaseMap { from: 'Ạ', to: 'A' }, PreComposedToBaseMap { from: 'Ă', to: 'A' },
            PreComposedToBaseMap { from: 'Ằ', to: 'A' }, PreComposedToBaseMap { from: 'Ắ', to: 'A' }, PreComposedToBaseMap { from: 'Ẳ', to: 'A' }, PreComposedToBaseMap { from: 'Ẵ', to: 'A' },
            PreComposedToBaseMap { from: 'Ặ', to: 'A' }, PreComposedToBaseMap { from: 'Â', to: 'A' }, PreComposedToBaseMap { from: 'Ầ', to: 'A' }, PreComposedToBaseMap { from: 'Ấ', to: 'A' },
            PreComposedToBaseMap { from: 'Ẩ', to: 'A' }, PreComposedToBaseMap { from: 'Ẫ', to: 'A' }, PreComposedToBaseMap { from: 'Ậ', to: 'A' }, PreComposedToBaseMap { from: 'O', to: 'O' },
            PreComposedToBaseMap { from: 'Ò', to: 'O' }, PreComposedToBaseMap { from: 'Ó', to: 'O' }, PreComposedToBaseMap { from: 'Ỏ', to: 'O' }, PreComposedToBaseMap { from: 'Õ', to: 'O' },
            PreComposedToBaseMap { from: 'Ọ', to: 'O' }, PreComposedToBaseMap { from: 'Ô', to: 'O' }, PreComposedToBaseMap { from: 'Ồ', to: 'O' }, PreComposedToBaseMap { from: 'Ố', to: 'O' },
            PreComposedToBaseMap { from: 'Ổ', to: 'O' }, PreComposedToBaseMap { from: 'Ỗ', to: 'O' }, PreComposedToBaseMap { from: 'Ộ', to: 'O' }, PreComposedToBaseMap { from: 'Ơ', to: 'O' },
            PreComposedToBaseMap { from: 'Ờ', to: 'O' }, PreComposedToBaseMap { from: 'Ớ', to: 'O' }, PreComposedToBaseMap { from: 'Ở', to: 'O' }, PreComposedToBaseMap { from: 'Ỡ', to: 'O' },
            PreComposedToBaseMap { from: 'Ợ', to: 'O' }, PreComposedToBaseMap { from: 'E', to: 'E' }, PreComposedToBaseMap { from: 'È', to: 'E' }, PreComposedToBaseMap { from: 'É', to: 'E' },
            PreComposedToBaseMap { from: 'Ẻ', to: 'E' }, PreComposedToBaseMap { from: 'Ẽ', to: 'E' }, PreComposedToBaseMap { from: 'Ẹ', to: 'E' }, PreComposedToBaseMap { from: 'Ê', to: 'E' },
            PreComposedToBaseMap { from: 'Ề', to: 'E' }, PreComposedToBaseMap { from: 'Ế', to: 'E' }, PreComposedToBaseMap { from: 'Ể', to: 'E' }, PreComposedToBaseMap { from: 'Ễ', to: 'E' },
            PreComposedToBaseMap { from: 'Ệ', to: 'E' }, PreComposedToBaseMap { from: 'U', to: 'U' }, PreComposedToBaseMap { from: 'Ù', to: 'U' }, PreComposedToBaseMap { from: 'Ú', to: 'U' },
            PreComposedToBaseMap { from: 'Ủ', to: 'U' }, PreComposedToBaseMap { from: 'Ũ', to: 'U' }, PreComposedToBaseMap { from: 'Ụ', to: 'U' }, PreComposedToBaseMap { from: 'Ư', to: 'U' },
            PreComposedToBaseMap { from: 'Ừ', to: 'U' }, PreComposedToBaseMap { from: 'Ứ', to: 'U' }, PreComposedToBaseMap { from: 'Ử', to: 'U' }, PreComposedToBaseMap { from: 'Ữ', to: 'U' },
            PreComposedToBaseMap { from: 'Ự', to: 'U' }, PreComposedToBaseMap { from: 'I', to: 'I' }, PreComposedToBaseMap { from: 'Ì', to: 'I' }, PreComposedToBaseMap { from: 'Í', to: 'I' },
            PreComposedToBaseMap { from: 'Ỉ', to: 'I' }, PreComposedToBaseMap { from: 'Ĩ', to: 'I' }, PreComposedToBaseMap { from: 'Ị', to: 'I' }, PreComposedToBaseMap { from: 'Y', to: 'Y' },
            PreComposedToBaseMap { from: 'Ỳ', to: 'Y' }, PreComposedToBaseMap { from: 'Ý', to: 'Y' }, PreComposedToBaseMap { from: 'Ỷ', to: 'Y' }, PreComposedToBaseMap { from: 'Ỹ', to: 'Y' },
            PreComposedToBaseMap { from: 'Ỵ', to: 'Y' }, PreComposedToBaseMap { from: 'Đ', to: 'D' },
        ],
        vec![
            'a', 'à', 'á', 'ả',
            'ã', 'ạ', 'ă', 'ằ',
            'ắ', 'ẳ', 'ẵ', 'ặ',
            'â', 'ầ', 'ấ', 'ẩ',
            'ẫ', 'ậ', 'o', 'ò',
            'ó', 'ỏ', 'õ', 'ọ',
            'ô', 'ồ', 'ố', 'ổ',
            'ỗ', 'ộ', 'ơ', 'ờ',
            'ớ', 'ở', 'ỡ', 'ợ',
            'e', 'è', 'é', 'ẻ',
            'ẽ', 'ẹ', 'ê', 'ề',
            'ế', 'ể', 'ễ', 'ệ',
            'u', 'ù', 'ú', 'ủ',
            'ũ', 'ụ', 'ư', 'ừ',
            'ứ', 'ử', 'ữ', 'ự',
            'i', 'ì', 'í', 'ỉ',
            'ĩ', 'ị', 'y', 'ỳ',
            'ý', 'ỷ', 'ỹ', 'ỵ',
            'đ', 'A', 'À', 'Á',
            'Ả', 'Ã', 'Ạ', 'Ă',
            'Ằ', 'Ắ', 'Ẳ', 'Ẵ',
            'Ặ', 'Â', 'Ầ', 'Ấ',
            'Ẩ', 'Ẫ', 'Ậ', 'O',
            'Ò', 'Ó', 'Ỏ', 'Õ',
            'Ọ', 'Ô', 'Ồ', 'Ố',
            'Ổ', 'Ỗ', 'Ộ', 'Ơ',
            'Ờ', 'Ớ', 'Ở', 'Ỡ',
            'Ợ', 'E', 'È', 'É',
            'Ẻ', 'Ẽ', 'Ẹ', 'Ê',
            'Ề', 'Ế', 'Ể', 'Ễ',
            'Ệ', 'U', 'Ù', 'Ú',
            'Ủ', 'Ũ', 'Ụ', 'Ư',
            'Ừ', 'Ứ', 'Ử', 'Ữ',
            'Ự', 'I', 'Ì', 'Í',
            'Ỉ', 'Ĩ', 'Ị', 'Y',
            'Ỳ', 'Ý', 'Ỷ', 'Ỹ',
            'Ỵ', 'Đ',
        ],
        Some(vec![
            '\u{0300}', '\u{0301}', '\u{0303}', '\u{0309}',
            '\u{0323}',
        ]),
        Vec::new(),
        Vec::new(),
        Vec::new(),
        Vec::new(),
    );
    assert(e@ =~= spec_entry_vie());
    e
}

pub open spec fn spec_entry_fra() -> LangEntryView {
    LangEntryView {
        has_case_map: false,
        has_fold_map: false,
        has_transliterate_map: true,
        has_pre_composed_to_base_map: true,
        has_spacing_diacritics: false,
        has_peek_pairs: false,
        has_segment_rules: false,
        has_one_to_one_folds: true,
        has_one_to_one_transliterate: false,
        needs_segmentation: false,
        requires_peek_ahead: false,
        unigram_cjk: false,
        code: "FRA",
        case_map: Seq::empty(),
        fold_map: Seq::empty(),
        pre_composed_to_base_map: seq![
            PreComposedToBaseMap { from: 'À', to: 'A' }, PreComposedToBaseMap { from: 'à', to: 'a' }, PreComposedToBaseMap { from: 'Â', to: 'A' }, PreComposedToBaseMap { from: 'â', to: 'a' },
            PreComposedToBaseMap { from: 'È', to: 'E' }, PreComposedToBaseMap { from: 'è', to: 'e' }, PreComposedToBaseMap { from: 'É', to: 'E' }, PreComposedToBaseMap { from: 'é', to: 'e' },
            PreComposedToBaseMap { from: 'Ê', to: 'E' }, PreComposedToBaseMap { from: 'ê', to: 'e' }, PreComposedToBaseMap { from: 'Ë', to: 'E' }, PreComposedToBaseMap { from: 'ë', to: 'e' },
            PreComposedToBaseMap { from: 'Î', to: 'I' }, PreComposedToBaseMap { from: 'î', to: 'i' }, PreComposedToBaseMap { from: 'Ï', to: 'I' }, PreComposedToBaseMap { from: 'ï', to: 'i' },
            PreComposedToBaseMap { from: 'Ô', to: 'O' }, PreComposedToBaseMap { from: 'ô', to: 'o' }, PreComposedToBaseMap { from: 'Ù', to: 'U' }, PreComposedToBaseMap { from: 'ù', to: 'u' },
            PreComposedToBaseMap { from: 'Û', to: 'U' }, PreComposedToBaseMap { from: 'û', to: 'u' }, PreComposedToBaseMap { from: 'Ü', to: 'U' }, PreComposedToBaseMap { from: 'ü', to: 'u' },
            PreComposedToBaseMap { from: 'Ÿ', to: 'Y' }, PreComposedToBaseMap { from: 'ÿ', to: 'y' },
        ],
        pre_composed_to_base_char_slice: seq![
            'À', 'à', 'Â', 'â',
            'È', 'è', 'É', 'é',
            'Ê', 'ê', 'Ë', 'ë',
            'Î', 'î', 'Ï', 'ï',
            'Ô', 'ô', 'Ù', 'ù',
            'Û', 'û', 'Ü', 'ü',
            'Ÿ', 'ÿ',
        ],
        spacing_diacritics: None,
        spacing_diacritics_slice: None,
        transliterate_map: seq![
            FoldMap { from: 'Œ', to: "oe" }, FoldMap { from: 'œ', to: "oe" }, FoldMap { from: 'Æ', to: "ae" }, FoldMap { from: 'æ', to: "ae" },
            FoldMap { from: 'Ç', to: "c" }, FoldMap { from: 'ç', to: "c" },
        ],
        transliterate_char_slice: seq![
            'Œ', 'œ', 'Æ', 'æ',
            'Ç', 'ç',
        ],
        peek_pairs: Seq::empty(),
        segment_rules: Seq::empty(),
    }
}

fn entry_fra() -> (e: LangEntry)
    ensures
        e@ == spec_entry_fra(),
{
    let e = LangEntry::from_parts(
        [false, false, true, true, false, false, false, true, false, false, false, false],
        "FRA",
        Vec::new(),
        Vec::new(),
        vec![
            PreComposedToBaseMap { from: 'À', to: 'A' }, PreComposedToBaseMap { from: 'à', to: 'a' }, PreComposedToBaseMap { from: 'Â', to: 'A' }, PreComposedToBaseMap { from: 'â', to: 'a' },
            PreComposedToBaseMap { from: 'È', to: 'E' }, PreComposedToBaseMap { from: 'è', to: 'e' }, PreComposedToBaseMap { from: 'É', to: 'E' }, PreComposedToBaseMap { from: 'é', to: 'e' },
            PreComposedToBaseMap { from: 'Ê', to: 'E' }, PreComposedToBaseMap { from: 'ê', to: 'e' }, PreComposedToBaseMap { from: 'Ë', to: 'E' }, PreComposedToBaseMap { from: 'ë', to: 'e' },
            PreComposedToBaseMap { from: 'Î', to: 'I' }, PreComposedToBaseMap { from: 'î', to: 'i' }, PreComposedToBaseMap { from: 'Ï', to: 'I' }, PreComposedToBaseMap { from: 'ï', to: 'i' },
            PreComposedToBaseMap { from: 'Ô', to: 'O' }, PreComposedToBaseMap { from: 'ô', to: 'o' }, PreComposedToBaseMap { from: 'Ù', to: 'U' }, PreComposedToBaseMap { from: 'ù', to: 'u' },
            PreComposedToBaseMap { from: 'Û', to: 'U' }, PreComposedToBaseMap { from: 'û', to: 'u' }, PreComposedToBaseMap { from: 'Ü', to: 'U' }, PreComposedToBaseMap { from: 'ü', to: 'u' },
            PreComposedToBaseMap { from: 'Ÿ', to: 'Y' }, PreComposedToBaseMap { from: 'ÿ', to: 'y' },
        ],
        vec![
            'À', 'à', 'Â', 'â',
            'È', 'è', 'É', 'é',
            'Ê', 'ê', 'Ë', 'ë',
            'Î', 'î', 'Ï', 'ï',
            'Ô', 'ô', 'Ù', 'ù',
            'Û', 'û', 'Ü', 'ü',
            'Ÿ', 'ÿ',
        ],
        None,
        vec![
            FoldMap { from: 'Œ', to: "oe" }, FoldMap { from: 'œ', to: "oe" }, FoldMap { from: 'Æ', to: "ae" }, FoldMap { from: 'æ', to: "ae" },
            FoldMap { from: 'Ç', to: "c" }, FoldMap { from: 'ç', to: "c" },
        ],
        vec![
            'Œ', 'œ', 'Æ', 'æ',
            'Ç', 'ç',
        ],
        Vec::new(),
        Vec::new(),
    );
    assert(e@ =~= spec_entry_fra());
    e
}

pub open spec fn spec_entry_ces() -> LangEntryView {
    LangEntryView {
        has_case_map: false,
        has_fold_map: false,
        has_transliterate_map: false,
        has_pre_composed_to_base_map: true,
        has_spacing_diacritics: false,
        has_peek_pairs: false,
        has_segment_rules: false,
        has_one_to_one_folds: true,
        has_one_to_one_transliterate: true,
        needs_segmentation: false,
        requires_peek_ahead: false,
        unigram_cjk: false,
        code: "CES",
        case_map: Seq::empty(),
        fold_map: Seq::empty(),
        pre_composed_to_base_map: seq![
            PreComposedToBaseMap { from: 'Č', to: 'C' }, PreComposedToBaseMap { from: 'č', to: 'c' }, PreComposedToBaseMap { from: 'Ď', to: 'D' }, PreComposedToBaseMap { from: 'ď', to: 'd' },
            PreComposedToBaseMap { from: 'Ě', to: 'E' }, PreComposedToBaseMap { from: 'ě', to: 'e' }, PreComposedToBaseMap { from: 'Ň', to: 'N' }, PreComposedToBaseMap { from: 'ň', to: 'n' },
            PreComposedToBaseMap { from: 'Ř', to: 'R' }, PreComposedToBaseMap { from: 'ř', to: 'r' }, PreComposedToBaseMap { from: 'Š', to: 'S' }, PreComposedToBaseMap { from: 'š', to: 's' },
            PreComposedToBaseMap { from: 'Ť', to: 'T' }, PreComposedToBaseMap { from: 'ť', to: 't' }, PreComposedToBaseMap { from: 'Ž', to: 'Z' }, PreComposedToBaseMap { from: 'ž', to: 'z' },
            PreComposedToBaseMap { from: 'Ů', to: 'U' }, PreComposedToBaseMap { from: 'ů', to: 'u' },
        ],
        pre_composed_to_base_char_slice: seq![
            'Č', 'č', 'Ď', 'ď',
            'Ě', 'ě', 'Ň', 'ň',
            'Ř', 'ř', 'Š', 'š',
            'Ť', 'ť', 'Ž', 'ž',
            'Ů', 'ů',
        ],
        spacing_diacritics: None,
        spacing_diacritics_slice: None,
        transliterate_map: Seq::empty(),
        transliterate_char_slice: Seq::empty(),
        peek_pairs: Seq::empty(),
        segment_rules: Seq::empty(),
    }
}

fn entry_ces() -> (e: LangEntry)
    ensures
        e@ == spec_entry_ces(),
{
    let e = LangEntry::from_parts(
        [false, false, false, true, false, false, false, true, true, false, false, false],
        "CES",
        Vec::new(),
        Vec::new(),
        vec![
            PreComposedToBaseMap { from: 'Č', to: 'C' }, PreComposedToBaseMap { from: 'č', to: 'c' }, PreComposedToBaseMap { from: 'Ď', to: 'D' }, PreComposedToBaseMap { from: 'ď', to: 'd' },
            PreComposedToBaseMap { from: 'Ě', to: 'E' }, PreComposedToBaseMap { from: 'ě', to: 'e' }, PreComposedToBaseMap { from: 'Ň', to: 'N' }, PreComposedToBaseMap { from: 'ň', to: 'n' },
            PreComposedToBaseMap { from: 'Ř', to: 'R' }, PreComposedToBaseMap { from: 'ř', to: 'r' }, PreComposedToBaseMap { from: 'Š', to: 'S' }, PreComposedToBaseMap { from: 'š', to: 's' },
            PreComposedToBaseMap { from: 'Ť', to: 'T' }, PreComposedToBaseMap { from: 'ť', to: 't' }, PreComposedToBaseMap { from: 'Ž', to: 'Z' }, PreComposedToBaseMap { from: 'ž', to: 'z' },
            PreComposedToBaseMap { from: 'Ů', to: 'U' }, PreComposedToBaseMap { from: 'ů', to: 'u' },
        ],
        vec![
            'Č', 'č', 'Ď', 'ď',
            'Ě', 'ě', 'Ň', 'ň',
            'Ř', 'ř', 'Š', 'š',
            'Ť', 'ť', 'Ž', 'ž',
            'Ů', 'ů',
        ],
        None,
        Vec::new(),
        Vec::new(),
        Vec::new(),
        Vec::new(),
    );
    assert(e@ =~= spec_entry_ces());
    e
}

pub open spec fn spec_entry_slk() -> LangEntryView {
    LangEntryView {
        has_case_map: false,
        has_fold_map: false,
        has_transliterate_map: false,
        has_pre_composed_to_base_map: true,
        has_spacing_diacritics: false,
        has_peek_pairs: false,
        has_segment_rules: false,
        has_one_to_one_folds: true,
        has_one_to_one_transliterate: true,
        needs_segmentation: false,
        requires_peek_ahead: false,
        unigram_cjk: false,
        code: "SLK",
        case_map: Seq::empty(),
        fold_map: Seq::empty(),
        pre_composed_to_base_map: seq![
            PreComposedToBaseMap { from: 'Č', to: 'C' }, PreComposedToBaseMap { from: 'č', to: 'c' }, PreComposedToBaseMap { from: 'Ď', to: 'D' }, PreComposedToBaseMap { from: 'ď', to: 'd' },
            PreComposedToBaseMap { from: 'Ľ', to: 'L' }, PreComposedToBaseMap { from: 'ľ', to: 'l' }, PreComposedToBaseMap { from: 'Ň', to: 'N' }, PreComposedToBaseMap { from: 'ň', to: 'n' },
            PreComposedToBaseMap { from: 'Š', to: 'S' }, PreComposedToBaseMap { from: 'š', to: 's' }, PreComposedToBaseMap { from: 'Ť', to: 'T' }, PreComposedToBaseMap { from: 'ť', to: 't' },
            PreComposedToBaseMap { from: 'Ž', to: 'Z' }, PreComposedToBaseMap { from: 'ž', to: 'z' }, PreComposedToBaseMap { from: 'Ĺ', to: 'L' }, PreComposedToBaseMap { from: 'ĺ', to: 'l' },
            PreComposedToBaseMap { from: 'Ŕ', to: 'R' }, PreComposedToBaseMap { from: 'ŕ', to: 'r' }, PreComposedToBaseMap { from: 'Ô', to: 'O' }, PreComposedToBaseMap { from: 'ô', to: 'o' },
        ],
        pre_composed_to_base_char_slice: seq![
            'Č', 'č', 'Ď', 'ď',
            'Ľ', 'ľ', 'Ň', 'ň',
            'Š', 'š', 'Ť', 'ť',
            'Ž', 'ž', 'Ĺ', 'ĺ',
            'Ŕ', 'ŕ', 'Ô', 'ô',
        ],
        spacing_diacritics: None,
        spacing_diacritics_slice: None,
        transliterate_map: Seq::empty(),
        transliterate_char_slice: Seq::empty(),
        peek_pairs: Seq::empty(),
        segment_rules: Seq::empty(),
    }
}

fn entry_slk() -> (e: LangEntry)
    ensures
        e@ == spec_entry_slk(),
{
    let e = LangEntry::from_parts(
        [false, false, false, true, false, false, false, true, true, false, false, false],
        "SLK",
        Vec::new(),
        Vec::new(),
        vec![
            PreComposedToBaseMap { from: 'Č', to: 'C' }, PreComposedToBaseMap { from: 'č', to: 'c' }, PreComposedToBaseMap { from: 'Ď', to: 'D' }, PreComposedToBaseMap { from: 'ď', to: 'd' },
            PreComposedToBaseMap { from: 'Ľ', to: 'L' }, PreComposedToBaseMap { from: 'ľ', to: 'l' }, PreComposedToBaseMap { from: 'Ň', to: 'N' }, PreComposedToBaseMap { from: 'ň', to: 'n' },
            PreComposedToBaseMap { from: 'Š', to: 'S' }, PreComposedToBaseMap { from: 'š', to: 's' }, PreComposedToBaseMap { from: 'Ť', to: 'T' }, PreComposedToBaseMap { from: 'ť', to: 't' },
            PreComposedToBaseMap { from: 'Ž', to: 'Z' }, PreComposedToBaseMap { from: 'ž', to: 'z' }, PreComposedToBaseMap { from: 'Ĺ', to: 'L' }, PreComposedToBaseMap { from: 'ĺ', to: 'l' },
            PreComposedToBaseMap { from: 'Ŕ', to: 'R' }, PreComposedToBaseMap { from: 'ŕ', to: 'r' }, PreComposedToBaseMap { from: 'Ô', to: 'O' }, PreComposedToBaseMap { from: 'ô', to: 'o' },
        ],
        vec![
            'Č', 'č', 'Ď', 'ď',
            'Ľ', 'ľ', 'Ň', 'ň',
            'Š', 'š', 'Ť', 'ť',
            'Ž', 'ž', 'Ĺ', 'ĺ',
            'Ŕ', 'ŕ', 'Ô', 'ô',
        ],
        None,
        Vec::new(),
        Vec::new(),
        Vec::new(),
        Vec::new(),
    );
    assert(e@ =~= spec_entry_slk());
    e
}

pub open spec fn spec_entry_pol() -> LangEntryView {
    LangEntryView {
        has_case_map: false,
        has_fold_map: false,
        has_transliterate_map: false,
        has_pre_composed_to_base_map: true,
        has_spacing_diacritics: false,
        has_peek_pairs: false,
        has_segment_rules: false,
        has_one_to_one_folds: true,
        has_one_to_one_transliterate: true,
        needs_segmentation: false,
        requires_peek_ahead: false,
        unigram_cjk: false,
        code: "POL",
        case_map: Seq::empty(),
        fold_map: Seq::empty(),
        pre_composed_to_base_map: seq![
            PreComposedToBaseMap { from: 'ą', to: 'a' }, PreComposedToBaseMap { from: 'Ą', to: 'A' }, PreComposedToBaseMap { from: 'ę', to: 'e' }, PreComposedToBaseMap { from: 'Ę', to: 'E' },
            PreComposedToBaseMap { from: 'ó', to: 'o' }, PreComposedToBaseMap { from: 'Ó', to: 'O' }, PreComposedToBaseMap { from: 'ż', to: 'z' }, PreComposedToBaseMap { from: 'Ż', to: 'Z' },
            PreComposedToBaseMap { from: 'ź', to: 'z' }, PreComposedToBaseMap { from: 'Ź', to: 'Z' }, PreComposedToBaseMap { from: 'ś', to: 's' }, PreComposedToBaseMap { from: 'Ś', to: 'S' },
            PreComposedToBaseMap { from: 'ć', to: 'c' }, PreComposedToBaseMap { from: 'Ć', to: 'C' }, PreComposedToBaseMap { from: 'ń', to: 'n' }, PreComposedToBaseMap { from: 'Ń', to: 'N' },
            PreComposedToBaseMap { from: 'ł', to: 'l' }, PreComposedToBaseMap { from: 'Ł', to: 'L' },
        ],
        pre_composed_to_base_char_slice: seq![
            'ą', 'Ą', 'ę', 'Ę',
            'ó', 'Ó', 'ż', 'Ż',
            'ź', 'Ź', 'ś', 'Ś',
            'ć', 'Ć', 'ń', 'Ń',
            'ł', 'Ł',
        ],
        spacing_diacritics: None,
        spacing_diacritics_slice: None,
        transliterate_map: Seq::empty(),
        transliterate_char_slice: Seq::empty(),
        peek_pairs: Seq::empty(),
        segment_rules: Seq::empty(),
    }
}

fn entry_pol() -> (e: LangEntry)
    ensures
        e@ == spec_entry_pol(),
{
    let e = LangEntry::from_parts(
        [false, false, false, true, false, false, false, true, true, false, false, false],
        "POL",
        Vec::new(),
        Vec::new(),
        vec![
            PreComposedToBaseMap { from: 'ą', to: 'a' }, PreComposedToBaseMap { from: 'Ą', to: 'A' }, PreComposedToBaseMap { from: 'ę', to: 'e' }, PreComposedToBaseMap { from: 'Ę', to: 'E' },
            PreComposedToBaseMap { from: 'ó', to: 'o' }, PreComposedToBaseMap { from: 'Ó', to: 'O' }, PreComposedToBaseMap { from: 'ż', to: 'z' }, PreComposedToBaseMap { from: 'Ż', to: 'Z' },
            PreComposedToBaseMap { from: 'ź', to: 'z' }, PreComposedToBaseMap { from: 'Ź', to: 'Z' }, PreComposedToBaseMap { from: 'ś', to: 's' }, PreComposedToBaseMap { from: 'Ś', to: 'S' },
            PreComposedToBaseMap { from: 'ć', to: 'c' }, PreComposedToBaseMap { from: 'Ć', to: 'C' }, PreComposedToBaseMap { from: 'ń', to: 'n' }, PreComposedToBaseMap { from: 'Ń', to: 'N' },
            PreComposedToBaseMap { from: 'ł', to: 'l' }, PreComposedToBaseMap { from: 'Ł', to: 'L' },
        ],
        vec![
            'ą', 'Ą', 'ę', 'Ę',
            'ó', 'Ó', 'ż', 'Ż',
            'ź', 'Ź', 'ś', 'Ś',
            'ć', 'Ć', 'ń', 'Ń',
            'ł', 'Ł',
        ],
        None,
        Vec::new(),
        Vec::new(),
        Vec::new(),
        Vec::new(),
    );
    assert(e@ =~= spec_entry_pol());
    e
}

pub open spec fn spec_entry_cat() -> LangEntryView {
    LangEntryView {
        has_case_map: false,
        has_fold_map: false,
        has_transliterate_map: true,
        has_pre_composed_to_base_map: true,
        has_spacing_diacritics: false,
        has_peek_pairs: false,
        has_segment_rules: false,
        has_one_to_one_folds: true,
        has_one_to_one_transliterate: true,
        needs_segmentation: false,
        requires_peek_ahead: false,
        unigram_cjk: false,
        code: "CAT",
        case_map: Seq::empty(),
        fold_map: Seq::empty(),
        pre_composed_to_base_map: seq![
            PreComposedToBaseMap { from: 'À', to: 'A' }, PreComposedToBaseMap { from: 'à', to: 'a' }, PreComposedToBaseMap { from: 'Á', to: 'A' }, PreComposedToBaseMap { from: 'á', to: 'a' },
            PreComposedToBaseMap { from: 'È', to: 'E' }, PreComposedToBaseMap { from: 'è', to: 'e' }, PreComposedToBaseMap { from: 'É', to: 'E' }, PreComposedToBaseMap { from: 'é', to: 'e' },
            PreComposedToBaseMap { from: 'Í', to: 'I' }, PreComposedToBaseMap { from: 'í', to: 'i' }, PreComposedToBaseMap { from: 'Ï', to: 'I' }, PreComposedToBaseMap { from: 'ï', to: 'i' },
            PreComposedToBaseMap { from: 'Ú', to: 'U' }, PreComposedToBaseMap { from: 'ú', to: 'u' }, PreComposedToBaseMap { from: 'Ü', to: 'U' }, PreComposedToBaseMap { from: 'ü', to: 'u' },
        ],
        pre_composed_to_base_char_slice: seq![
            'À', 'à', 'Á', 'á',
            'È', 'è', 'É', 'é',
            'Í', 'í', 'Ï', 'ï',
            'Ú', 'ú', 'Ü', 'ü',
        ],
        spacing_diacritics: None,
        spacing_diacritics_slice: None,
        transliterate_map: seq![
            FoldMap { from: 'Ç', to: "c" }, FoldMap { from: 'ç', to: "c" },
        ],
        transliterate_char_slice: seq![
            'Ç', 'ç',
        ],
        peek_pairs: Seq::empty(),
        segment_rules: Seq::empty(),
    }
}

fn entry_cat() -> (e: LangEntry)
    ensures
        e@ == spec_entry_cat(),
{
    let e = LangEntry::from_parts(
        [false, false, true, true, false, false, false, true, true, false, false, false],
        "CAT",
        Vec::new(),
        Vec::new(),
        vec![
            PreComposedToBaseMap { from: 'À', to: 'A' }, PreComposedToBaseMap { from: 'à', to: 'a' }, PreComposedToBaseMap { from: 'Á', to: 'A' }, PreComposedToBaseMap { from: 'á', to: 'a' },
            PreComposedToBaseMap { from: 'È', to: 'E' }, PreComposedToBaseMap { from: 'è', to: 'e' }, PreComposedToBaseMap { from: 'É', to: 'E' }, PreComposedToBaseMap { from: 'é', to: 'e' },
            PreComposedToBaseMap { from: 'Í', to: 'I' }, PreComposedToBaseMap { from: 'í', to: 'i' }, PreComposedToBaseMap { from: 'Ï', to: 'I' }, PreComposedToBaseMap { from: 'ï', to: 'i' },
            PreComposedToBaseMap { from: 'Ú', to: 'U' }, PreComposedToBaseMap { from: 'ú', to: 'u' }, PreComposedToBaseMap { from: 'Ü', to: 'U' }, PreComposedToBaseMap { from: 'ü', to: 'u' },
        ],
        vec![
            'À', 'à', 'Á', 'á',
            'È', 'è', 'É', 'é',
            'Í', 'í', 'Ï', 'ï',
            'Ú', 'ú', 'Ü', 'ü',
        ],
        None,
        vec![
            FoldMap { from: 'Ç', to: "c" }, FoldMap { from: 'ç', to: "c" },
        ],
        vec![
            'Ç', 'ç',
        ],
        Vec::new(),
        Vec::new(),
    );
    assert(e@ =~= spec_entry_cat());
    e
}

pub open spec fn spec_entry_spa() -> LangEntryView {
    LangEntryView {
        has_case_map: false,
        has_fold_map: false,
        has_transliterate_map: false,
        has_pre_composed_to_base_map: true,
        has_spacing_diacritics: false,
        has_peek_pairs: false,
        has_segment_rules: false,
        has_one_to_one_folds: true,
        has_one_to_one_transliterate: true,
        needs_segmentation: false,
        requires_peek_ahead: false,
        unigram_cjk: false,
        code: "SPA",
        case_map: Seq::empty(),
        fold_map: Seq::empty(),
        pre_composed_to_base_map: seq![
            PreComposedToBaseMap { from: 'Á', to: 'A' }, PreComposedToBaseMap { from: 'á', to: 'a' }, PreComposedToBaseMap { from: 'É', to: 'E' }, PreComposedToBaseMap { from: 'é', to: 'e' },
            PreComposedToBaseMap { from: 'Í', to: 'I' }, PreComposedToBaseMap { from: 'í', to: 'i' }, PreComposedToBaseMap { from: 'Ó', to: 'O' }, PreComposedToBaseMap { from: 'ó', to: 'o' },
            PreComposedToBaseMap { from: 'Ú', to: 'U' }, PreComposedToBaseMap { from: 'ú', to: 'u' }, PreComposedToBaseMap { from: 'Ü', to: 'U' }, PreComposedToBaseMap { from: 'ü', to: 'u' },
        ],
        pre_composed_to_base_char_slice: seq![
            'Á', 'á', 'É', 'é',
            'Í', 'í', 'Ó', 'ó',
            'Ú', 'ú', 'Ü', 'ü',
        ],
        spacing_diacritics: None,
        spacing_diacritics_slice: None,
        transliterate_map: Seq::empty(),
        transliterate_char_slice: Seq::empty(),
        peek_pairs: Seq::empty(),
        segment_rules: Seq::empty(),
    }
}

fn entry_spa() -> (e: LangEntry)
    ensures
        e@ == spec_entry_spa(),
{
    let e = LangEntry::from_parts(
        [false, false, false, true, false, false, false, true, true, false, false, false],
        "SPA",
        Vec::new(),
        Vec::new(),
        vec![
            PreComposedToBaseMap { from: 'Á', to: 'A' }, PreComposedToBaseMap { from: 'á', to: 'a' }, PreComposedToBaseMap { from: 'É', to: 'E' }, PreComposedToBaseMap { from: 'é', to: 'e' },
            PreComposedToBaseMap { from: 'Í', to: 'I' }, PreComposedToBaseMap { from: 'í', to: 'i' }, PreComposedToBaseMap { from: 'Ó', to: 'O' }, PreComposedToBaseMap { from: 'ó', to: 'o' },
            PreComposedToBaseMap { from: 'Ú', to: 'U' }, PreComposedToBaseMap { from: 'ú', to: 'u' }, PreComposedToBaseMap { from: 'Ü', to: 'U' }, PreComposedToBaseMap { from: 'ü', to: 'u' },
        ],
        vec![
            'Á', 'á', 'É', 'é',
            'Í', 'í', 'Ó', 'ó',
            'Ú', 'ú', 'Ü', 'ü',
        ],
        None,
        Vec::new(),
        Vec::new(),
        Vec::new(),
        Vec::new(),
    );
    assert(e@ =~= spec_entry_spa());
    e
}

pub open spec fn spec_entry_por() -> LangEntryView {
    LangEntryView {
        has_case_map: false,
        has_fold_map: false,
        has_transliterate_map: false,
        has_pre_composed_to_base_map: true,
        has_spacing_diacritics: false,
        has_peek_pairs: false,
        has_segment_rules: false,
        has_one_to_one_folds: true,
        has_one_to_one_transliterate: true,
        needs_segmentation: false,
        requires_peek_ahead: false,
        unigram_cjk: false,
        code: "POR",
        case_map: Seq::empty(),
        fold_map: Seq::empty(),
        pre_composed_to_base_map: seq![
            PreComposedToBaseMap { from: 'À', to: 'A' }, PreComposedToBaseMap { from: 'à', to: 'a' }, PreComposedToBaseMap { from: 'Á', to: 'A' }, PreComposedToBaseMap { from: 'á', to: 'a' },
            PreComposedToBaseMap { from: 'Â', to: 'A' }, PreComposedToBaseMap { from: 'â', to: 'a' }, PreComposedToBaseMap { from: 'Ã', to: 'A' }, PreComposedToBaseMap { from: 'ã', to: 'a' },
            PreComposedToBaseMap { from: 'Ç', to: 'C' }, PreComposedToBaseMap { from: 'ç', to: 'c' }, PreComposedToBaseMap { from: 'É', to: 'E' }, PreComposedToBaseMap { from: 'é', to: 'e' },
            PreComposedToBaseMap { from: 'Ê', to: 'E' }, PreComposedToBaseMap { from: 'ê', to: 'e' }, PreComposedToBaseMap { from: 'Í', to: 'I' }, PreComposedToBaseMap { from: 'í', to: 'i' },
            PreComposedToBaseMap { from: 'Ó', to: 'O' }, PreComposedToBaseMap { from: 'ó', to: 'o' }, PreComposedToBaseMap { from: 'Ô', to: 'O' }, PreComposedToBaseMap { from: 'ô', to: 'o' },
            PreComposedToBaseMap { from: 'Õ', to: 'O' }, PreComposedToBaseMap { from: 'õ', to: 'o' }, PreComposedToBaseMap { from: 'Ú', to: 'U' }, PreComposedToBaseMap { from: 'ú', to: 'u' },
            PreComposedToBaseMap { from: 'Ü', to: 'U' }, PreComposedToBaseMap { from: 'ü', to: 'u' },
        ],
        pre_composed_to_base_char_slice: seq![
            'À', 'à', 'Á', 'á',
            'Â', 'â', 'Ã', 'ã',
            'Ç', 'ç', 'É', 'é',
            'Ê', 'ê', 'Í', 'í',
            'Ó', 'ó', 'Ô', 'ô',
            'Õ', 'õ', 'Ú', 'ú',
            'Ü', 'ü',
        ],
        spacing_diacritics: None,
        spacing_diacritics_slice: None,
        transliterate_map: Seq::empty(),
        transliterate_char_slice: Seq::empty(),
        peek_pairs: Seq::empty(),
        segment_rules: Seq::empty(),
    }
}

fn entry_por() -> (e: LangEntry)
    ensures
        e@ == spec_entry_por(),
{
    let e = LangEntry::from_parts(
        [false, false, false, true, false, false, false, true, true, false, false, false],
        "POR",
        Vec::new(),
        Vec::new(),
        vec![
            PreComposedToBaseMap { from: 'À', to: 'A' }, PreComposedToBaseMap { from: 'à', to: 'a' }, PreComposedToBaseMap { from: 'Á', to: 'A' }, PreComposedToBaseMap { from: 'á', to: 'a' },
            PreComposedToBaseMap { from: 'Â', to: 'A' }, PreComposedToBaseMap { from: 'â', to: 'a' }, PreComposedToBaseMap { from: 'Ã', to: 'A' }, PreComposedToBaseMap { from: 'ã', to: 'a' },
            PreComposedToBaseMap { from: 'Ç', to: 'C' }, PreComposedToBaseMap { from: 'ç', to: 'c' }, PreComposedToBaseMap { from: 'É', to: 'E' }, PreComposedToBaseMap { from: 'é', to: 'e' },
            PreComposedToBaseMap { from: 'Ê', to: 'E' }, PreComposedToBaseMap { from: 'ê', to: 'e' }, PreComposedToBaseMap { from: 'Í', to: 'I' }, PreComposedToBaseMap { from: 'í', to: 'i' },
            PreComposedToBaseMap { from: 'Ó', to: 'O' }, PreComposedToBaseMap { from: 'ó', to: 'o' }, PreComposedToBaseMap { from: 'Ô', to: 'O' }, PreComposedToBaseMap { from: 'ô', to: 'o' },
            PreComposedToBaseMap { from: 'Õ', to: 'O' }, PreComposedToBaseMap { from: 'õ', to: 'o' }, PreComposedToBaseMap { from: 'Ú', to: 'U' }, PreComposedToBaseMap { from: 'ú', to: 'u' },
            PreComposedToBaseMap { from: 'Ü', to: 'U' }, PreComposedToBaseMap { from: 'ü', to: 'u' },
        ],
        vec![
            'À', 'à', 'Á', 'á',
            'Â', 'â', 'Ã', 'ã',
            'Ç', 'ç', 'É', 'é',
            'Ê', 'ê', 'Í', 'í',
            'Ó', 'ó', 'Ô', 'ô',
            'Õ', 'õ', 'Ú', 'ú',
            'Ü', 'ü',
        ],
        None,
        Vec::new(),
        Vec::new(),
        Vec::new(),
        Vec::new(),
    );
    assert(e@ =~= spec_entry_por());
    e
}

pub open spec fn spec_entry_ita() -> LangEntryView {
    LangEntryView {
        has_case_map: false,
        has_fold_map: false,
        has_transliterate_map: false,
        has_pre_composed_to_base_map: true,
        has_spacing_diacritics: false,
        has_peek_pairs: false,
        has_segment_rules: false,
        has_one_to_one_folds: true,
        has_one_to_one_transliterate: true,
        needs_segmentation: false,
        requires_peek_ahead: false,
        unigram_cjk: false,
        code: "ITA",
        case_map: Seq::empty(),
        fold_map: Seq::empty(),
        pre_composed_to_base_map: seq![
            PreComposedToBaseMap { from: 'À', to: 'A' }, PreComposedToBaseMap { from: 'à', to: 'a' }, PreComposedToBaseMap { from: 'È', to: 'E' }, PreComposedToBaseMap { from: 'è', to: 'e' },
            PreComposedToBaseMap { from: 'É', to: 'E' }, PreComposedToBaseMap { from: 'é', to: 'e' }, PreComposedToBaseMap { from: 'Ì', to: 'I' }, PreComposedToBaseMap { from: 'ì', to: 'i' },
            PreComposedToBaseMap { from: 'Ò', to: 'O' }, PreComposedToBaseMap { from: 'ò', to: 'o' }, PreComposedToBaseMap { from: 'Ù', to: 'U' }, PreComposedToBaseMap { from: 'ù', to: 'u' },
        ],
        pre_composed_to_base_char_slice: seq![
            'À', 'à', 'È', 'è',
            'É', 'é', 'Ì', 'ì',
            'Ò', 'ò', 'Ù', 'ù',
        ],
        spacing_diacritics: None,
        spacing_diacritics_slice: None,
        transliterate_map: Seq::empty(),
        transliterate_char_slice: Seq::empty(),
        peek_pairs: Seq::empty(),
        segment_rules: Seq::empty(),
    }
}

fn entry_ita() -> (e: LangEntry)
    ensures
        e@ == spec_entry_ita(),
{
    let e = LangEntry::from_parts(
        [false, false, false, true, false, false, false, true, true, false, false, false],
        "ITA",
        Vec::new(),
        Vec::new(),
        vec![
            PreComposedToBaseMap { from: 'À', to: 'A' }, PreComposedToBaseMap { from: 'à', to: 'a' }, PreComposedToBaseMap { from: 'È', to: 'E' }, PreComposedToBaseMap { from: 'è', to: 'e' },
            PreComposedToBaseMap { from: 'É', to: 'E' }, PreComposedToBaseMap { from: 'é', to: 'e' }, PreComposedToBaseMap { from: 'Ì', to: 'I' }, PreComposedToBaseMap { from: 'ì', to: 'i' },
            PreComposedToBaseMap { from: 'Ò', to: 'O' }, PreComposedToBaseMap { from: 'ò', to: 'o' }, PreComposedToBaseMap { from: 'Ù', to: 'U' }, PreComposedToBaseMap { from: 'ù', to: 'u' },
        ],
        vec![
            'À', 'à', 'È', 'è',
            'É', 'é', 'Ì', 'ì',
            'Ò', 'ò', 'Ù', 'ù',
        ],
        None,
        Vec::new(),
        Vec::new(),
        Vec::new(),
        Vec::new(),
    );
    assert(e@ =~= spec_entry_ita());
    e
}

pub open spec fn spec_entry_hrv() -> LangEntryView {
    LangEntryView {
        has_case_map: false,
        has_fold_map: false,
        has_transliterate_map: false,
        has_pre_composed_to_base_map: true,
        has_spacing_diacritics: false,
        has_peek_pairs: false,
        has_segment_rules: false,
        has_one_to_one_folds: true,
        has_one_to_one_transliterate: true,
        needs_segmentation: false,
        requires_peek_ahead: false,
        unigram_cjk: false,
        code: "HRV",
        case_map: Seq::empty(),
        fold_map: Seq::empty(),
        pre_composed_to_base_map: seq![
            PreComposedToBaseMap { from: 'Č', to: 'C' }, PreComposedToBaseMap { from: 'č', to: 'c' }, PreComposedToBaseMap { from: 'Ć', to: 'C' }, PreComposedToBaseMap { from: 'ć', to: 'c' },
            PreComposedToBaseMap { from: 'Đ', to: 'D' }, PreComposedToBaseMap { from: 'đ', to: 'd' }, PreComposedToBaseMap { from: 'Š', to: 'S' }, PreComposedToBaseMap { from: 'š', to: 's' },
            PreComposedToBaseMap { from: 'Ž', to: 'Z' }, PreComposedToBaseMap { from: 'ž', to: 'z' }, PreComposedToBaseMap { from: 'ǈ', to: 'L' }, PreComposedToBaseMap { from: 'ǉ', to: 'l' },
            PreComposedToBaseMap { from: 'ǋ', to: 'N' }, PreComposedToBaseMap { from: 'ǌ', to: 'n' },
        ],
        pre_composed_to_base_char_slice: seq![
            'Č', 'č', 'Ć', 'ć',
            'Đ', 'đ', 'Š', 'š',
            'Ž', 'ž', 'ǈ', 'ǉ',
            'ǋ', 'ǌ',
        ],
        spacing_diacritics: None,
        spacing_diacritics_slice: None,
        transliterate_map: Seq::empty(),
        transliterate_char_slice: Seq::empty(),
        peek_pairs: Seq::empty(),
        segment_rules: Seq::empty(),
    }
}

fn entry_hrv() -> (e: LangEntry)
    ensures
        e@ == spec_entry_hrv(),
{
    let e = LangEntry::from_parts(
        [false, false, false, true, false, false, false, true, true, false, false, false],
        "HRV",
        Vec::new(),
        Vec::new(),
        vec![
            PreComposedToBaseMap { from: 'Č', to: 'C' }, PreComposedToBaseMap { from: 'č', to: 'c' }, PreComposedToBaseMap { from: 'Ć', to: 'C' }, PreComposedToBaseMap { from: 'ć', to: 'c' },
            PreComposedToBaseMap { from: 'Đ', to: 'D' }, PreComposedToBaseMap { from: 'đ', to: 'd' }, PreComposedToBaseMap { from: 'Š', to: 'S' }, PreComposedToBaseMap { from: 'š', to: 's' },
            PreComposedToBaseMap { from: 'Ž', to: 'Z' }, PreComposedToBaseMap { from: 'ž', to: 'z' }, PreComposedToBaseMap { from: 'ǈ', to: 'L' }, PreComposedToBaseMap { from: 'ǉ', to: 'l' },
            PreComposedToBaseMap { from: 'ǋ', to: 'N' }, PreComposedToBaseMap { from: 'ǌ', to: 'n' },
        ],
        vec![
            'Č', 'č', 'Ć', 'ć',
            'Đ', 'đ', 'Š', 'š',
            'Ž', 'ž', 'ǈ', 'ǉ',
            'ǋ', 'ǌ',
        ],
        None,
        Vec::new(),
        Vec::new(),
        Vec::new(),
        Vec::new(),
    );
    assert(e@ =~= spec_entry_hrv());
    e
}

pub open spec fn spec_entry_srp() -> LangEntryView {
    LangEntryView {
        has_case_map: false,
        has_fold_map: false,
        has_transliterate_map: false,
        has_pre_composed_to_base_map: true,
        has_spacing_diacritics: false,
        has_peek_pairs: false,
        has_segment_rules: false,
        has_one_to_one_folds: true,
        has_one_to_one_transliterate: true,
        needs_segmentation: false,
        requires_peek_ahead: false,
        unigram_cjk: false,
        code: "SRP",
        case_map: Seq::empty(),
        fold_map: Seq::empty(),
        pre_composed_to_base_map: seq![
            PreComposedToBaseMap { from: 'Ђ', to: 'D' }, PreComposedToBaseMap { from: 'ђ', to: 'd' }, PreComposedToBaseMap { from: 'Ј', to: 'J' }, PreComposedToBaseMap { from: 'ј', to: 'j' },
            PreComposedToBaseMap { from: 'Љ', to: 'L' }, PreComposedToBaseMap { from: 'љ', to: 'l' }, PreComposedToBaseMap { from: 'Њ', to: 'N' }, PreComposedToBaseMap { from: 'њ', to: 'n' },
            PreComposedToBaseMap { from: 'Ћ', to: 'C' }, PreComposedToBaseMap { from: 'ћ', to: 'c' }, PreComposedToBaseMap { from: 'Џ', to: 'D' }, PreComposedToBaseMap { from: 'џ', to: 'd' },
            PreComposedToBaseMap { from: 'Ž', to: 'Z' }, PreComposedToBaseMap { from: 'ž', to: 'z' },
        ],
        pre_composed_to_base_char_slice: seq![
            'Ђ', 'ђ', 'Ј', 'ј',
            'Љ', 'љ', 'Њ', 'њ',
            'Ћ', 'ћ', 'Џ', 'џ',
            'Ž', 'ž',
        ],
        spacing_diacritics: None,
        spacing_diacritics_slice: None,
        transliterate_map: Seq::empty(),
        transliterate_char_slice: Seq::empty(),
        peek_pairs: Seq::empty(),
        segment_rules: Seq::empty(),
    }
}

fn entry_srp() -> (e: LangEntry)
    ensures
        e@ == spec_entry_srp(),
{
    let e = LangEntry::from_parts(
        [false, false, false, true, false, false, false, true, true, false, false, false],
        "SRP",
        Vec::new(),
        Vec::new(),
        vec![
            PreComposedToBaseMap { from: 'Ђ', to: 'D' }, PreComposedToBaseMap { from: 'ђ', to: 'd' }, PreComposedToBaseMap { from: 'Ј', to: 'J' }, PreComposedToBaseMap { from: 'ј', to: 'j' },
            PreComposedToBaseMap { from: 'Љ', to: 'L' }, PreComposedToBaseMap { from: 'љ', to: 'l' }, PreComposedToBaseMap { from: 'Њ', to: 'N' }, PreComposedToBaseMap { from: 'њ', to: 'n' },
            PreComposedToBaseMap { from: 'Ћ', to: 'C' }, PreComposedToBaseMap { from: 'ћ', to: 'c' }, PreComposedToBaseMap { from: 'Џ', to: 'D' }, PreComposedToBaseMap { from: 'џ', to: 'd' },
            PreComposedToBaseMap { from: 'Ž', to: 'Z' }, PreComposedToBaseMap { from: 'ž', to: 'z' },
        ],
        vec![
            'Ђ', 'ђ', 'Ј', 'ј',
            'Љ', 'љ', 'Њ', 'њ',
            'Ћ', 'ћ', 'Џ', 'џ',
            'Ž', 'ž',
        ],
        None,
        Vec::new(),
        Vec::new(),
        Vec::new(),
        Vec::new(),
    );
    assert(e@ =~= spec_entry_srp());
    e
}

pub open spec fn spec_entry_lit() -> LangEntryView {
    LangEntryView {
        has_case_map: true,
        has_fold_map: false,
        has_transliterate_map: false,
        has_pre_composed_to_base_map: false,
        has_spacing_diacritics: false,
        has_peek_pairs: false,
        has_segment_rules: false,
        has_one_to_one_folds: true,
        has_one_to_one_transliterate: true,
        needs_segmentation: false,
        requires_peek_ahead: false,
        unigram_cjk: false,
        code: "LIT",
        case_map: seq![
            CaseMap { from: 'Ė', to: 'ė' }, CaseMap { from: 'Į', to: 'į' }, CaseMap { from: 'Ų', to: 'ų' },
        ],
        fold_map: Seq::empty(),
        pre_composed_to_base_map: Seq::empty(),
        pre_composed_to_base_char_slice: Seq::empty(),
        spacing_diacritics: None,
        spacing_diacritics_slice: None,
        transliterate_map: Seq::empty(),
        transliterate_char_slice: Seq::empty(),
        peek_pairs: Seq::empty(),
        segment_rules: Seq::empty(),
    }
}

fn entry_lit() -> (e: LangEntry)
    ensures
        e@ == spec_entry_lit(),
{
    let e = LangEntry::from_parts(
        [true, false, false, false, false, false, false, true, true, false, false, false],
        "LIT",
        vec![
            CaseMap { from: 'Ė', to: 'ė' }, CaseMap { from: 'Į', to: 'į' }, CaseMap { from: 'Ų', to: 'ų' },
        ],
        Vec::new(),
        Vec::new(),
        Vec::new(),
        None,
        Vec::new(),
        Vec::new(),
        Vec::new(),
        Vec::new(),
    );
    assert(e@ =~= spec_entry_lit());
    e
}

pub open spec fn spec_entry_ell() -> LangEntryView {
    LangEntryView {
        has_case_map: false,
        has_fold_map: false,
        has_transliterate_map: false,
        has_pre_composed_to_base_map: false,
        has_spacing_diacritics: true,
        has_peek_pairs: false,
        has_segment_rules: false,
        has_one_to_one_folds: true,
        has_one_to_one_transliterate: true,
        needs_segmentation: false,
        requires_peek_ahead: false,
        unigram_cjk: false,
        code: "ELL",
        case_map: Seq::empty(),
        fold_map: Seq::empty(),
        pre_composed_to_base_map: Seq::empty(),
        pre_composed_to_base_char_slice: Seq::empty(),
        spacing_diacritics: Some(seq![
            '\u{0301}', '\u{0308}', '\u{0342}', '\u{0313}',
            '\u{0314}', '\u{0345}',
        ]),
        spacing_diacritics_slice: Some(seq![
            '\u{0301}', '\u{0308}', '\u{0342}', '\u{0313}',
            '\u{0314}', '\u{0345}',
        ]),
        transliterate_map: Seq::empty(),
        transliterate_char_slice: Seq::empty(),
        peek_pairs: Seq::empty(),
        segment_rules: Seq::empty(),
    }
}

fn entry_ell() -> (e: LangEntry)
    ensures
        e@ == spec_entry_ell(),
{
    let e = LangEntry::from_parts(
        [false, false, false, false, true, false, false, true, true, false, false, false],
        "ELL",
        Vec::new(),
        Vec::new(),
        Vec::new(),
        Vec::new(),
        Some(vec![
            '\u{0301}', '\u{0308}', '\u{0342}', '\u{0313}',
            '\u{0314}', '\u{0345}',
        ]),
        Vec::new(),
        Vec::new(),
        Vec::new(),
        Vec::new(),
    );
    assert(e@ =~= spec_entry_ell());
    e
}

pub open spec fn spec_entry_hin() -> LangEntryView {
    LangEntryView {
        has_case_map: false,
        has_fold_map: false,
        has_transliterate_map: false,
        has_pre_composed_to_base_map: false,
        has_spacing_diacritics: true,
        has_peek_pairs: false,
        has_segment_rules: true,
        has_one_to_one_folds: true,
        has_one_to_one_transliterate: true,
        needs_segmentation: true,
        requires_peek_ahead: false,
        unigram_cjk: false,
        code: "HIN",
        case_map: Seq::empty(),
        fold_map: Seq::empty(),
        pre_composed_to_base_map: Seq::empty(),
        pre_composed_to_base_char_slice: Seq::empty(),
        spacing_diacritics: Some(seq![
            '\u{093C}', '\u{0901}', '\u{0902}', '\u{0903}',
            '\u{094D}',
        ]),
        spacing_diacritics_slice: Some(seq![
            '\u{093C}', '\u{0901}', '\u{0902}', '\u{0903}',
            '\u{094D}',
        ]),
        transliterate_map: Seq::empty(),
        transliterate_char_slice: Seq::empty(),
        peek_pairs: Seq::empty(),
        segment_rules: seq![
            SegmentRule::WesternToScript, SegmentRule::ScriptToWestern,
        ],
    }
}

fn entry_hin() -> (e: LangEntry)
    ensures
        e@ == spec_entry_hin(),
{
    let e = LangEntry::from_parts(
        [false, false, false, false, true, false, true, true, true, true, false, false],
        "HIN",
        Vec::new(),
        Vec::new(),
        Vec::new(),
        Vec::new(),
        Some(vec![
            '\u{093C}', '\u{0901}', '\u{0902}', '\u{0903}',
            '\u{094D}',
        ]),
        Vec::new(),
        Vec::new(),
        Vec::new(),
        vec![
            SegmentRule::WesternToScript, SegmentRule::ScriptToWestern,
        ],
    );
    assert(e@ =~= spec_entry_hin());
    e
}

pub open spec fn spec_entry_ben() -> LangEntryView {
    LangEntryView {
        has_case_map: false,
        has_fold_map: false,
        has_transliterate_map: false,
        has_pre_composed_to_base_map: false,
        has_spacing_diacritics: true,
        has_peek_pairs: false,
        has_segment_rules: true,
        has_one_to_one_folds: true,
        has_one_to_one_transliterate: true,
        needs_segmentation: true,
        requires_peek_ahead: false,
        unigram_cjk: false,
        code: "BEN",
        case_map: Seq::empty(),
        fold_map: Seq::empty(),
        pre_composed_to_base_map: Seq::empty(),
        pre_composed_to_base_char_slice: Seq::empty(),
        spacing_diacritics: Some(seq![
            '\u{09BC}', '\u{0981}', '\u{0982}', '\u{0983}',
            '\u{09CD}',
        ]),
        spacing_diacritics_slice: Some(seq![
            '\u{09BC}', '\u{0981}', '\u{0982}', '\u{0983}',
            '\u{09CD}',
        ]),
        transliterate_map: Seq::empty(),
        transliterate_char_slice: Seq::empty(),
        peek_pairs: Seq::empty(),
        segment_rules: seq![
            SegmentRule::WesternToScript, SegmentRule::ScriptToWestern,
        ],
    }
}

fn entry_ben() -> (e: LangEntry)
    ensures
        e@ == spec_entry_ben(),
{
    let e = LangEntry::from_parts(
        [false, false, false, false, true, false, true, true, true, true, false, false],
        "BEN",
        Vec::new(),
        Vec::new(),
        Vec::new(),
        Vec::new(),
        Some(vec![
            '\u{09BC}', '\u{0981}', '\u{0982}', '\u{0983}',
            '\u{09CD}',
        ]),
        Vec::new(),
        Vec::new(),
        Vec::new(),
        vec![
            SegmentRule::WesternToScript, SegmentRule::ScriptToWestern,
        ],
    );
    assert(e@ =~= spec_entry_ben());
    e
}

pub open spec fn spec_entry_tam() -> LangEntryView {
    LangEntryView {
        has_case_map: false,
        has_fold_map: false,
        has_transliterate_map: false,
        has_pre_composed_to_base_map: false,
        has_spacing_diacritics: true,
        has_peek_pairs: false,
        has_segment_rules: true,
        has_one_to_one_folds: true,
        has_one_to_one_transliterate: true,
        needs_segmentation: true,
        requires_peek_ahead: false,
        unigram_cjk: false,
        code: "TAM",
        case_map: Seq::empty(),
        fold_map: Seq::empty(),
        pre_composed_to_base_map: Seq::empty(),
        pre_composed_to_base_char_slice: Seq::empty(),
        spacing_diacritics: Some(seq![
            '\u{0BCD}',
        ]),
        spacing_diacritics_slice: Some(seq![
            '\u{0BCD}',
        ]),
        transliterate_map: Seq::empty(),
        transliterate_char_slice: Seq::empty(),
        peek_pairs: Seq::empty(),
        segment_rules: seq![
            SegmentRule::WesternToScript, SegmentRule::ScriptToWestern,
        ],
    }
}

fn entry_tam() -> (e: LangEntry)
    ensures
        e@ == spec_entry_tam(),
{
    let e = LangEntry::from_parts(
        [false, false, false, false, true, false, true, true, true, true, false, false],
        "TAM",
        Vec::new(),
        Vec::new(),
        Vec::new(),
        Vec::new(),
        Some(vec![
            '\u{0BCD}',
        ]),
        Vec::new(),
        Vec::new(),
        Vec::new(),
        vec![
            SegmentRule::WesternToScript, SegmentRule::ScriptToWestern,
        ],
    );
    assert(e@ =~= spec_entry_tam());
    e
}

pub open spec fn spec_entry_rus() -> LangEntryView {
    LangEntryView {
        has_case_map: false,
        has_fold_map: false,
        has_transliterate_map: true,
        has_pre_composed_to_base_map: false,
        has_spacing_diacritics: false,
        has_peek_pairs: false,
        has_segment_rules: false,
        has_one_to_one_folds: true,
        has_one_to_one_transliterate: false,
        needs_segmentation: false,
        requires_peek_ahead: false,
        unigram_cjk: false,
        code: "RUS",
        case_map: Seq::empty(),
        fold_map: Seq::empty(),
        pre_composed_to_base_map: Seq::empty(),
        pre_composed_to_base_char_slice: Seq::empty(),
        spacing_diacritics: None,
        spacing_diacritics_slice: None,
        transliterate_map: seq![
            FoldMap { from: 'о', to: "o" }, FoldMap { from: 'О', to: "O" }, FoldMap { from: 'е', to: "e" }, FoldMap { from: 'Е', to: "E" },
            FoldMap { from: 'а', to: "a" }, FoldMap { from: 'А', to: "A" }, FoldMap { from: 'и', to: "i" }, FoldMap { from: 'И', to: "I" },
            FoldMap { from: 'н', to: "n" }, FoldMap { from: 'Н', to: "N" }, FoldMap { from: 'т', to: "t" }, FoldMap { from: 'Т', to: "T" },
            FoldMap { from: 'с', to: "s" }, FoldMap { from: 'С', to: "S" }, FoldMap { from: 'р', to: "r" }, FoldMap { from: 'Р', to: "R" },
            FoldMap { from: 'в', to: "v" }, FoldMap { from: 'В', to: "V" }, FoldMap { from: 'л', to: "l" }, FoldMap { from: 'Л', to: "L" },
            FoldMap { from: 'к', to: "k" }, FoldMap { from: 'К', to: "K" }, FoldMap { from: 'м', to: "m" }, FoldMap { from: 'М', to: "M" },
            FoldMap { from: 'д', to: "d" }, FoldMap { from: 'Д', to: "D" }, FoldMap { from: 'п', to: "p" }, FoldMap { from: 'П', to: "P" },
            FoldMap { from: 'у', to: "u" }, FoldMap { from: 'У', to: "U" }, FoldMap { from: 'я', to: "ja" }, FoldMap { from: 'Я', to: "Ja" },
            FoldMap { from: 'ы', to: "y" }, FoldMap { from: 'Ы', to: "Y" }, FoldMap { from: 'ь', to: "ʹ" }, FoldMap { from: 'Ь', to: "ʹ" },
            FoldMap { from: 'г', to: "g" }, FoldMap { from: 'Г', to: "G" }, FoldMap { from: 'з', to: "z" }, FoldMap { from: 'З', to: "Z" },
            FoldMap { from: 'б', to: "b" }, FoldMap { from: 'Б', to: "B" }, FoldMap { from: 'ч', to: "č" }, FoldMap { from: 'Ч', to: "Č" },
            FoldMap { from: 'й', to: "j" }, FoldMap { from: 'Й', to: "J" }, FoldMap { from: 'х', to: "h" }, FoldMap { from: 'Х', to: "H" },
            FoldMap { from: 'ж', to: "ž" }, FoldMap { from: 'Ж', to: "Ž" }, FoldMap { from: 'ш', to: "š" }, FoldMap { from: 'Ш', to: "Š" },
            FoldMap { from: 'ю', to: "ju" }, FoldMap { from: 'Ю', to: "Ju" }, FoldMap { from: 'ц', to: "c" }, FoldMap { from: 'Ц', to: "C" },
            FoldMap { from: 'щ', to: "šč" }, FoldMap { from: 'Щ', to: "Šč" }, FoldMap { from: 'э', to: "è" }, FoldMap { from: 'Э', to: "È" },
            FoldMap { from: 'ф', to: "f" }, FoldMap { from: 'Ф', to: "F" }, FoldMap { from: 'ъ', to: "ʺ" }, FoldMap { from: 'Ъ', to: "ʺ" },
            FoldMap { from: 'ё', to: "ë" }, FoldMap { from: 'Ё', to: "Ë" },
        ],
        transliterate_char_slice: seq![
            'о', 'О', 'е', 'Е',
            'а', 'А', 'и', 'И',
            'н', 'Н', 'т', 'Т',
            'с', 'С', 'р', 'Р',
            'в', 'В', 'л', 'Л',
            'к', 'К', 'м', 'М',
            'д', 'Д', 'п', 'П',
            'у', 'У', 'я', 'Я',
            'ы', 'Ы', 'ь', 'Ь',
            'г', 'Г', 'з', 'З',
            'б', 'Б', 'ч', 'Ч',
            'й', 'Й', 'х', 'Х',
            'ж', 'Ж', 'ш', 'Ш',
            'ю', 'Ю', 'ц', 'Ц',
            'щ', 'Щ', 'э', 'Э',
            'ф', 'Ф', 'ъ', 'Ъ',
            'ё', 'Ё',
        ],
        peek_pairs: Seq::empty(),
        segment_rules: Seq::empty(),
    }
}

fn entry_rus() -> (e: LangEntry)
    ensures
        e@ == spec_entry_rus(),
{
    let e = LangEntry::from_parts(
        [false, false, true, false, false, false, false, true, false, false, false, false],
        "RUS",
        Vec::new(),
        Vec::new(),
        Vec::new(),
        Vec::new(),
        None,
        vec![
            FoldMap { from: 'о', to: "o" }, FoldMap { from: 'О', to: "O" }, FoldMap { from: 'е', to: "e" }, FoldMap { from: 'Е', to: "E" },
            FoldMap { from: 'а', to: "a" }, FoldMap { from: 'А', to: "A" }, FoldMap { from: 'и', to: "i" }, FoldMap { from: 'И', to: "I" },
            FoldMap { from: 'н', to: "n" }, FoldMap { from: 'Н', to: "N" }, FoldMap { from: 'т', to: "t" }, FoldMap { from: 'Т', to: "T" },
            FoldMap { from: 'с', to: "s" }, FoldMap { from: 'С', to: "S" }, FoldMap { from: 'р', to: "r" }, FoldMap { from: 'Р', to: "R" },
            FoldMap { from: 'в', to: "v" }, FoldMap { from: 'В', to: "V" }, FoldMap { from: 'л', to: "l" }, FoldMap { from: 'Л', to: "L" },
            FoldMap { from: 'к', to: "k" }, FoldMap { from: 'К', to: "K" }, FoldMap { from: 'м', to: "m" }, FoldMap { from: 'М', to: "M" },
            FoldMap { from: 'д', to: "d" }, FoldMap { from: 'Д', to: "D" }, FoldMap { from: 'п', to: "p" }, FoldMap { from: 'П', to: "P" },
            FoldMap { from: 'у', to: "u" }, FoldMap { from: 'У', to: "U" }, FoldMap { from: 'я', to: "ja" }, FoldMap { from: 'Я', to: "Ja" },
            FoldMap { from: 'ы', to: "y" }, FoldMap { from: 'Ы', to: "Y" }, FoldMap { from: 'ь', to: "ʹ" }, FoldMap { from: 'Ь', to: "ʹ" },
            FoldMap { from: 'г', to: "g" }, FoldMap { from: 'Г', to: "G" }, FoldMap { from: 'з', to: "z" }, FoldMap { from: 'З', to: "Z" },
            FoldMap { from: 'б', to: "b" }, FoldMap { from: 'Б', to: "B" }, FoldMap { from: 'ч', to: "č" }, FoldMap { from: 'Ч', to: "Č" },
            FoldMap { from: 'й', to: "j" }, FoldMap { from: 'Й', to: "J" }, FoldMap { from: 'х', to: "h" }, FoldMap { from: 'Х', to: "H" },
            FoldMap { from: 'ж', to: "ž" }, FoldMap { from: 'Ж', to: "Ž" }, FoldMap { from: 'ш', to: "š" }, FoldMap { from: 'Ш', to: "Š" },
            FoldMap { from: 'ю', to: "ju" }, FoldMap { from: 'Ю', to: "Ju" }, FoldMap { from: 'ц', to: "c" }, FoldMap { from: 'Ц', to: "C" },
            FoldMap { from: 'щ', to: "šč" }, FoldMap { from: 'Щ', to: "Šč" }, FoldMap { from: 'э', to: "è" }, FoldMap { from: 'Э', to: "È" },
            FoldMap { from: 'ф', to: "f" }, FoldMap { from: 'Ф', to: "F" }, FoldMap { from: 'ъ', to: "ʺ" }, FoldMap { from: 'Ъ', to: "ʺ" },
            FoldMap { from: 'ё', to: "ë" }, FoldMap { from: 'Ё', to: "Ë" },
        ],
        vec![
            'о', 'О', 'е', 'Е',
            'а', 'А', 'и', 'И',
            'н', 'Н', 'т', 'Т',
            'с', 'С', 'р', 'Р',
            'в', 'В', 'л', 'Л',
            'к', 'К', 'м', 'М',
            'д', 'Д', 'п', 'П',
            'у', 'У', 'я', 'Я',
            'ы', 'Ы', 'ь', 'Ь',
            'г', 'Г', 'з', 'З',
            'б', 'Б', 'ч', 'Ч',
            'й', 'Й', 'х', 'Х',
            'ж', 'Ж', 'ш', 'Ш',
            'ю', 'Ю', 'ц', 'Ц',
            'щ', 'Щ', 'э', 'Э',
            'ф', 'Ф', 'ъ', 'Ъ',
            'ё', 'Ё',
        ],
        Vec::new(),
        Vec::new(),
    );
    assert(e@ =~= spec_entry_rus());
    e
}

pub open spec fn spec_entry_jpn() -> LangEntryView {
    LangEntryView {
        has_case_map: false,
        has_fold_map: false,
        has_transliterate_map: false,
        has_pre_composed_to_base_map: false,
        has_spacing_diacritics: false,
        has_peek_pairs: false,
        has_segment_rules: true,
        has_one_to_one_folds: true,
        has_one_to_one_transliterate: true,
        needs_segmentation: true,
        requires_peek_ahead: false,
        unigram_cjk: false,
        code: "JPN",
        case_map: Seq::empty(),
        fold_map: Seq::empty(),
        pre_composed_to_base_map: Seq::empty(),
        pre_composed_to_base_char_slice: Seq::empty(),
        spacing_diacritics: None,
        spacing_diacritics_slice: None,
        transliterate_map: Seq::empty(),
        transliterate_char_slice: Seq::empty(),
        peek_pairs: Seq::empty(),
        segment_rules: seq![
            SegmentRule::WesternToScript, SegmentRule::ScriptToWestern,
        ],
    }
}

fn entry_jpn() -> (e: LangEntry)
    ensures
        e@ == spec_entry_jpn(),
{
    let e = LangEntry::from_parts(
        [false, false, false, false, false, false, true, true, true, true, false, false],
        "JPN",
        Vec::new(),
        Vec::new(),
        Vec::new(),
        Vec::new(),
        None,
        Vec::new(),
        Vec::new(),
        Vec::new(),
        vec![
            SegmentRule::WesternToScript, SegmentRule::ScriptToWestern,
        ],
    );
    assert(e@ =~= spec_entry_jpn());
    e
}

pub open spec fn spec_entry_zho() -> LangEntryView {
    LangEntryView {
        has_case_map: false,
        has_fold_map: false,
        has_transliterate_map: false,
        has_pre_composed_to_base_map: false,
        has_spacing_diacritics: false,
        has_peek_pairs: false,
        has_segment_rules: true,
        has_one_to_one_folds: true,
        has_one_to_one_transliterate: true,
        needs_segmentation: true,
        requires_peek_ahead: false,
        unigram_cjk: true,
        code: "ZHO",
        case_map: Seq::empty(),
        fold_map: Seq::empty(),
        pre_composed_to_base_map: Seq::empty(),
        pre_composed_to_base_char_slice: Seq::empty(),
        spacing_diacritics: None,
        spacing_diacritics_slice: None,
        transliterate_map: Seq::empty(),
        transliterate_char_slice: Seq::empty(),
        peek_pairs: Seq::empty(),
        segment_rules: seq![
            SegmentRule::WesternToScript, SegmentRule::CJKIdeographUnigram, SegmentRule::ScriptToWestern,
        ],
    }
}

fn entry_zho() -> (e: LangEntry)
    ensures
        e@ == spec_entry_zho(),
{
    let e = LangEntry::from_parts(
        [false, false, false, false, false, false, true, true, true, true, false, true],
        "ZHO",
        Vec::new(),
        Vec::new(),
        Vec::new(),
        Vec::new(),
        None,
        Vec::new(),
        Vec::new(),
        Vec::new(),
        vec![
            SegmentRule::WesternToScript, SegmentRule::CJKIdeographUnigram, SegmentRule::ScriptToWestern,
        ],
    );
    assert(e@ =~= spec_entry_zho());
    e
}

pub open spec fn spec_entry_kor() -> LangEntryView {
    LangEntryView {
        has_case_map: false,
        has_fold_map: false,
        has_transliterate_map: false,
        has_pre_composed_to_base_map: false,
        has_spacing_diacritics: false,
        has_peek_pairs: false,
        has_segment_rules: true,
        has_one_to_one_folds: true,
        has_one_to_one_transliterate: true,
        needs_segmentation: true,
        requires_peek_ahead: false,
        unigram_cjk: false,
        code: "KOR",
        case_map: Seq::empty(),
        fold_map: Seq::empty(),
        pre_composed_to_base_map: Seq::empty(),
        pre_composed_to_base_char_slice: Seq::empty(),
        spacing_diacritics: None,
        spacing_diacritics_slice: None,
        transliterate_map: Seq::empty(),
        transliterate_char_slice: Seq::empty(),
        peek_pairs: Seq::empty(),
        segment_rules: seq![
            SegmentRule::WesternToScript, SegmentRule::ScriptToWestern,
        ],
    }
}

fn entry_kor() -> (e: LangEntry)
    ensures
        e@ == spec_entry_kor(),
{
    let e = LangEntry::from_parts(
        [false, false, false, false, false, false, true, true, true, true, false, false],
        "KOR",
        Vec::new(),
        Vec::new(),
        Vec::new(),
        Vec::new(),
        None,
        Vec::new(),
        Vec::new(),
        Vec::new(),
        vec![
            SegmentRule::WesternToScript, SegmentRule::ScriptToWestern,
        ],
    );
    assert(e@ =~= spec_entry_kor());
    e
}

pub open spec fn spec_entry_tha() -> LangEntryView {
    LangEntryView {
        has_case_map: false,
        has_fold_map: false,
        has_transliterate_map: false,
        has_pre_composed_to_base_map: false,
        has_spacing_diacritics: true,
        has_peek_pairs: false,
        has_segment_rules: true,
        has_one_to_one_folds: true,
        has_one_to_one_transliterate: true,
        needs_segmentation: true,
        requires_peek_ahead: false,
        unigram_cjk: false,
        code: "THA",
        case_map: Seq::empty(),
        fold_map: Seq::empty(),
        pre_composed_to_base_map: Seq::empty(),
        pre_composed_to_base_char_slice: Seq::empty(),
        spacing_diacritics: Some(seq![
            '\u{0E34}', '\u{0E35}', '\u{0E38}', '\u{0E39}',
            '\u{0E31}', '\u{0E36}', '\u{0E37}', '\u{0E48}',
            '\u{0E49}', '\u{0E4A}', '\u{0E4B}', '\u{0E47}',
            '\u{0E4C}', '\u{0E3A}', '\u{0E4D}', '\u{0E4E}',
        ]),
        spacing_diacritics_slice: Some(seq![
            '\u{0E34}', '\u{0E35}', '\u{0E38}', '\u{0E39}',
            '\u{0E31}', '\u{0E36}', '\u{0E37}', '\u{0E48}',
            '\u{0E49}', '\u{0E4A}', '\u{0E4B}', '\u{0E47}',
            '\u{0E4C}', '\u{0E3A}', '\u{0E4D}', '\u{0E4E}',
        ]),
        transliterate_map: Seq::empty(),
        transliterate_char_slice: Seq::empty(),
        peek_pairs: Seq::empty(),
        segment_rules: seq![
            SegmentRule::WesternToScript, SegmentRule::ScriptToWestern,
        ],
    }
}

fn entry_tha() -> (e: LangEntry)
    ensures
        e@ == spec_entry_tha(),
{
    let e = LangEntry::from_parts(
        [false, false, false, false, true, false, true, true, true, true, false, false],
        "THA",
        Vec::new(),
        Vec::new(),
        Vec::new(),
        Vec::new(),
        Some(vec![
            '\u{0E34}', '\u{0E35}', '\u{0E38}', '\u{0E39}',
            '\u{0E31}', '\u{0E36}', '\u{0E37}', '\u{0E48}',
            '\u{0E49}', '\u{0E4A}', '\u{0E4B}', '\u{0E47}',
            '\u{0E4C}', '\u{0E3A}', '\u{0E4D}', '\u{0E4E}',
        ]),
        Vec::new(),
        Vec::new(),
        Vec::new(),
        vec![
            SegmentRule::WesternToScript, SegmentRule::ScriptToWestern,
        ],
    );
    assert(e@ =~= spec_entry_tha());
    e
}

pub open spec fn spec_entry_lao() -> LangEntryView {
    LangEntryView {
        has_case_map: false,
        has_fold_map: false,
        has_transliterate_map: false,
        has_pre_composed_to_base_map: false,
        has_spacing_diacritics: true,
        has_peek_pairs: false,
        has_segment_rules: true,
        has_one_to_one_folds: true,
        has_one_to_one_transliterate: true,
        needs_segmentation: true,
        requires_peek_ahead: false,
        unigram_cjk: false,
        code: "LAO",
        case_map: Seq::empty(),
        fold_map: Seq::empty(),
        pre_composed_to_base_map: Seq::empty(),
        pre_composed_to_base_char_slice: Seq::empty(),
        spacing_diacritics: Some(seq![
            '\u{0EB1}', '\u{0EB4}', '\u{0EB5}', '\u{0EB6}',
            '\u{0EB7}', '\u{0EB8}', '\u{0EB9}', '\u{0EBB}',
            '\u{0EBC}', '\u{0EC8}', '\u{0EC9}', '\u{0ECA}',
            '\u{0ECB}', '\u{0ECC}', '\u{0ECD}',
        ]),
        spacing_diacritics_slice: Some(seq![
            '\u{0EB1}', '\u{0EB4}', '\u{0EB5}', '\u{0EB6}',
            '\u{0EB7}', '\u{0EB8}', '\u{0EB9}', '\u{0EBB}',
            '\u{0EBC}', '\u{0EC8}', '\u{0EC9}', '\u{0ECA}',
            '\u{0ECB}', '\u{0ECC}', '\u{0ECD}',
        ]),
        transliterate_map: Seq::empty(),
        transliterate_char_slice: Seq::empty(),
        peek_pairs: Seq::empty(),
        segment_rules: seq![
            SegmentRule::WesternToScript, SegmentRule::ScriptToWestern,
        ],
    }
}

fn entry_lao() -> (e: LangEntry)
    ensures
        e@ == spec_entry_lao(),
{
    let e = LangEntry::from_parts(
        [false, false, false, false, true, false, true, true, true, true, false, false],
        "LAO",
        Vec::new(),
        Vec::new(),
        Vec::new(),
        Vec::new(),
        Some(vec![
            '\u{0EB1}', '\u{0EB4}', '\u{0EB5}', '\u{0EB6}',
            '\u{0EB7}', '\u{0EB8}', '\u{0EB9}', '\u{0EBB}',
            '\u{0EBC}', '\u{0EC8}', '\u{0EC9}', '\u{0ECA}',
            '\u{0ECB}', '\u{0ECC}', '\u{0ECD}',
        ]),
        Vec::new(),
        Vec::new(),
        Vec::new(),
        vec![
            SegmentRule::WesternToScript, SegmentRule::ScriptToWestern,
        ],
    );
    assert(e@ =~= spec_entry_lao());
    e
}

pub open spec fn spec_entry_mya() -> LangEntryView {
    LangEntryView {
        has_case_map: false,
        has_fold_map: false,
        has_transliterate_map: false,
        has_pre_composed_to_base_map: false,
        has_spacing_diacritics: true,
        has_peek_pairs: false,
        has_segment_rules: true,
        has_one_to_one_folds: true,
        has_one_to_one_transliterate: true,
        needs_segmentation: true,
        requires_peek_ahead: false,
        unigram_cjk: false,
        code: "MYA",
        case_map: Seq::empty(),
        fold_map: Seq::empty(),
        pre_composed_to_base_map: Seq::empty(),
        pre_composed_to_base_char_slice: Seq::empty(),
        spacing_diacritics: Some(seq![
            '\u{102B}', '\u{102C}', '\u{102D}', '\u{102E}',
            '\u{102F}', '\u{1030}', '\u{1031}', '\u{1032}',
            '\u{1036}', '\u{1037}', '\u{1038}', '\u{1039}',
            '\u{103A}', '\u{103B}', '\u{103C}', '\u{103D}',
            '\u{103E}',
        ]),
        spacing_diacritics_slice: Some(seq![
            '\u{102B}', '\u{102C}', '\u{102D}', '\u{102E}',
            '\u{102F}', '\u{1030}', '\u{1031}', '\u{1032}',
            '\u{1036}', '\u{1037}', '\u{1038}', '\u{1039}',
            '\u{103A}', '\u{103B}', '\u{103C}', '\u{103D}',
            '\u{103E}',
        ]),
        transliterate_map: Seq::empty(),
        transliterate_char_slice: Seq::empty(),
        peek_pairs: Seq::empty(),
        segment_rules: seq![
            SegmentRule::WesternToScript, SegmentRule::ScriptToWestern,
        ],
    }
}

fn entry_mya() -> (e: LangEntry)
    ensures
        e@ == spec_entry_mya(),
{
    let e = LangEntry::from_parts(
        [false, false, false, false, true, false, true, true, true, true, false, false],
        "MYA",
        Vec::new(),
        Vec::new(),
        Vec::new(),
        Vec::new(),
        Some(vec![
            '\u{102B}', '\u{102C}', '\u{102D}', '\u{102E}',
            '\u{102F}', '\u{1030}', '\u{1031}', '\u{1032}',
            '\u{1036}', '\u{1037}', '\u{1038}', '\u{1039}',
            '\u{103A}', '\u{103B}', '\u{103C}', '\u{103D}',
            '\u{103E}',
        ]),
        Vec::new(),
        Vec::new(),
        Vec::new(),
        vec![
            SegmentRule::WesternToScript, SegmentRule::ScriptToWestern,
        ],
    );
    assert(e@ =~= spec_entry_mya());
    e
}

pub open spec fn spec_entry_khm() -> LangEntryView {
    LangEntryView {
        has_case_map: false,
        has_fold_map: false,
        has_transliterate_map: false,
        has_pre_composed_to_base_map: false,
        has_spacing_diacritics: true,
        has_peek_pairs: false,
        has_segment_rules: true,
        has_one_to_one_folds: true,
        has_one_to_one_transliterate: true,
        needs_segmentation: true,
        requires_peek_ahead: false,
        unigram_cjk: false,
        code: "KHM",
        case_map: Seq::empty(),
        fold_map: Seq::empty(),
        pre_composed_to_base_map: Seq::empty(),
        pre_composed_to_base_char_slice: Seq::empty(),
        spacing_diacritics: Some(seq![
            '\u{17B6}', '\u{17C1}', '\u{17B8}', '\u{17BB}',
            '\u{17BC}', '\u{17C4}', '\u{17B7}', '\u{17B9}',
            '\u{17BA}', '\u{17BD}', '\u{17BE}', '\u{17BF}',
            '\u{17C0}', '\u{17C2}', '\u{17C3}', '\u{17C5}',
            '\u{17D2}', '\u{17C6}', '\u{17C7}', '\u{17C8}',
            '\u{17C9}', '\u{17CA}', '\u{17CB}', '\u{17CC}',
            '\u{17CD}', '\u{17CE}', '\u{17CF}', '\u{17D0}',
            '\u{17D1}', '\u{17D3}', '\u{17DD}',
        ]),
        spacing_diacritics_slice: Some(seq![
            '\u{17B6}', '\u{17C1}', '\u{17B8}', '\u{17BB}',
            '\u{17BC}', '\u{17C4}', '\u{17B7}', '\u{17B9}',
            '\u{17BA}', '\u{17BD}', '\u{17BE}', '\u{17BF}',
            '\u{17C0}', '\u{17C2}', '\u{17C3}', '\u{17C5}',
            '\u{17D2}', '\u{17C6}', '\u{17C7}', '\u{17C8}',
            '\u{17C9}', '\u{17CA}', '\u{17CB}', '\u{17CC}',
            '\u{17CD}', '\u{17CE}', '\u{17CF}', '\u{17D0}',
            '\u{17D1}', '\u{17D3}', '\u{17DD}',
        ]),
        transliterate_map: Seq::empty(),
        transliterate_char_slice: Seq::empty(),
        peek_pairs: Seq::empty(),
        segment_rules: seq![
            SegmentRule::WesternToScript, SegmentRule::ScriptToWestern,
        ],
    }
}

fn entry_khm() -> (e: LangEntry)
    ensures
        e@ == spec_entry_khm(),
{
    let e = LangEntry::from_parts(
        [false, false, false, false, true, false, true, true, true, true, false, false],
        "KHM",
        Vec::new(),
        Vec::new(),
        Vec::new(),
        Vec::new(),
        Some(vec![
            '\u{17B6}', '\u{17C1}', '\u{17B8}', '\u{17BB}',
            '\u{17BC}', '\u{17C4}', '\u{17B7}', '\u{17B9}',
            '\u{17BA}', '\u{17BD}', '\u{17BE}', '\u{17BF}',
            '\u{17C0}', '\u{17C2}', '\u{17C3}', '\u{17C5}',
            '\u{17D2}', '\u{17C6}', '\u{17C7}', '\u{17C8}',
            '\u{17C9}', '\u{17CA}', '\u{17CB}', '\u{17CC}',
            '\u{17CD}', '\u{17CE}', '\u{17CF}', '\u{17D0}',
            '\u{17D1}', '\u{17D3}', '\u{17DD}',
        ]),
        Vec::new(),
        Vec::new(),
        Vec::new(),
        vec![
            SegmentRule::WesternToScript, SegmentRule::ScriptToWestern,
        ],
    );
    assert(e@ =~= spec_entry_khm());
    e
}

pub open spec fn spec_entry_eng() -> LangEntryView {
    LangEntryView {
        has_case_map: false,
        has_fold_map: false,
        has_transliterate_map: false,
        has_pre_composed_to_base_map: false,
        has_spacing_diacritics: false,
        has_peek_pairs: false,
        has_segment_rules: false,
        has_one_to_one_folds: true,
        has_one_to_one_transliterate: true,
        needs_segmentation: false,
        requires_peek_ahead: false,
        unigram_cjk: false,
        code: "ENG",
        case_map: Seq::empty(),
        fold_map: Seq::empty(),
        pre_composed_to_base_map: Seq::empty(),
        pre_composed_to_base_char_slice: Seq::empty(),
        spacing_diacritics: None,
        spacing_diacritics_slice: None,
        transliterate_map: Seq::empty(),
        transliterate_char_slice: Seq::empty(),
        peek_pairs: Seq::empty(),
        segment_rules: Seq::empty(),
    }
}

fn entry_eng() -> (e: LangEntry)
    ensures
        e@ == spec_entry_eng(),
{
    let e = LangEntry::from_parts(
        [false, false, false, false, false, false, false, true, true, false, false, false],
        "ENG",
        Vec::new(),
        Vec::new(),
        Vec::new(),
        Vec::new(),
        None,
        Vec::new(),
        Vec::new(),
        Vec::new(),
        Vec::new(),
    );
    assert(e@ =~= spec_entry_eng());
    e
}

/// A fresh copy of the table entry of a language.
pub fn lang_entry(lang: Lang) -> (e: LangEntry)
    ensures
        e@ == spec_lang_entry(lang),
{
    match lang {
        Lang::Tur => entry_tur(),
        Lang::Deu => entry_deu(),
        Lang::Nld => entry_nld(),
        Lang::Dan => entry_dan(),
        Lang::Nor => entry_nor(),
        Lang::Swe => entry_swe(),
        Lang::Isl => entry_isl(),
        Lang::Ara => entry_ara(),
        Lang::Heb => entry_heb(),
        Lang::Vie => entry_vie(),
        Lang::Fra => entry_fra(),
        Lang::Ces => entry_ces(),
        Lang::Slk => entry_slk(),
        Lang::Pol => entry_pol(),
        Lang::Cat => entry_cat(),
        Lang::Spa => entry_spa(),
        Lang::Por => entry_por(),
        Lang::Ita => entry_ita(),
        Lang::Hrv => entry_hrv(),
        Lang::Srp => entry_srp(),
        Lang::Lit => entry_lit(),
        Lang::Ell => entry_ell(),
        Lang::Hin => entry_hin(),
        Lang::Ben => entry_ben(),
        Lang::Tam => entry_tam(),
        Lang::Rus => entry_rus(),
        Lang::Jpn => entry_jpn(),
        Lang::Zho => entry_zho(),
        Lang::Kor => entry_kor(),
        Lang::Tha => entry_tha(),
        Lang::Lao => entry_lao(),
        Lang::Mya => entry_mya(),
        Lang::Khm => entry_khm(),
        Lang::Eng => entry_eng(),
    }
}

/// The language whose code matches `code` after Unicode upper-casing.
pub fn from_code(code: &str) -> (r: Option<Lang>)
    ensures
        r == spec_lang_of_code(spec_to_uppercase(code@)),
{
    let upper = to_uppercase(code);
    lang_of_code(upper.as_str())
}


/// Every fold target is already lowercase.
pub open spec fn spec_fold_targets_lowercase(m: Seq<FoldMap>) -> bool {
    forall|i: int, k: int|
        0 <= i < m.len() && 0 <= k < m[i].to@.len() ==> spec_lowercase_full(
            #[trigger] m[i].to@[k],
        ) == seq![m[i].to@[k]]
}

/// Every fold and every case mapping changes its character: a fold target
/// starts with another character, a case target is another character.
pub open spec fn spec_maps_change(e: LangEntryView) -> bool {
    &&& forall|i: int|
        0 <= i < e.fold_map.len() ==> (#[trigger] e.fold_map[i]).to@.len() > 0
            && e.fold_map[i].to@[0] != e.fold_map[i].from
    &&& forall|i: int| 0 <= i < e.case_map.len() ==> (#[trigger] e.case_map[i]).to != e.case_map[i].from
}

/// Every case mapping of an ASCII character is for an upper-case letter.
pub open spec fn spec_case_sources_ok(e: LangEntryView) -> bool {
    forall|i: int|
        0 <= i < e.case_map.len() ==> ((#[trigger] e.case_map[i]).from as u32) >= 0x80 || ('A'
            <= e.case_map[i].from && e.case_map[i].from <= 'Z')
}

/// The built-in tables of `lang` agree with their flags and with the
/// folding they feed.
pub open spec fn spec_tables_consistent(e: LangEntryView) -> bool {
    &&& e.has_one_to_one_folds == spec_all_one_char(e.fold_map)
    &&& e.has_one_to_one_transliterate == spec_all_one_char(e.transliterate_map)
    &&& e.requires_peek_ahead ==> e.peek_pairs.len() > 0
    &&& spec_fold_targets_lowercase(e.fold_map)
    &&& spec_maps_change(e)
    &&& spec_case_sources_ok(e)
    &&& !e.requires_peek_ahead
}

proof fn lemma_two_ascii_lower(a: char, b: char, m: Seq<FoldMap>, t: &'static str)
    requires
        m.len() == 2,
        m[0].to == t,
        m[1].to == t,
        t@ == seq![a, b],
        spec_lowercase_full(a) == seq![a],
        spec_lowercase_full(b) == seq![b],
    ensures
        !spec_all_one_char(m),
        spec_fold_targets_lowercase(m),
{
    assert(m[0].to@.len() == 2);
}

/// The precomputed flags of every built-in language agree with its tables:
/// a one-to-one flag holds exactly when every mapping gives one character,
/// peek-ahead is asked only where peek pairs exist (and no built-in language
/// asks for it), every fold target is already lowercase, every fold and
/// case mapping changes its character, and an ASCII character has a case
/// mapping only as an upper-case letter.
#[verifier::rlimit(40)]
pub proof fn lemma_builtin_tables_consistent(lang: Lang)
    ensures
        spec_tables_consistent(spec_lang_entry(lang)),
{
    let e = spec_lang_entry(lang);
    match lang {
        Lang::Deu => {
            reveal_strlit("ss");
            reveal_strlit("ae");
            assert("ss"@ =~= seq!['s', 's']);
            lemma_two_ascii_lower('s', 's', e.fold_map, "ss");
            assert(e.transliterate_map[0].to@.len() == 2);
            assert(e.fold_map[0].to@[0] == 's' && e.fold_map[1].to@[0] == 's');
        },
        Lang::Nld => {
            reveal_strlit("ij");
            assert("ij"@ =~= seq!['i', 'j']);
            lemma_two_ascii_lower('i', 'j', e.fold_map, "ij");
            assert(e.fold_map[0].to@[0] == 'i' && e.fold_map[1].to@[0] == 'i');
        },
        Lang::Dan | Lang::Swe => {
            reveal_strlit("aa");
            assert(e.transliterate_map[0].to@.len() == 2);
        },
        Lang::Nor => {
            reveal_strlit("ae");
            assert(e.transliterate_map[0].to@.len() == 2);
        },
        Lang::Isl => {
            reveal_strlit("th");
            assert(e.transliterate_map[0].to@.len() == 2);
        },
        Lang::Fra => {
            reveal_strlit("oe");
            assert(e.transliterate_map[0].to@.len() == 2);
        },
        Lang::Rus => {
            reveal_strlit("ja");
            assert(e.transliterate_map[30].to@.len() == 2);
        },
        Lang::Cat => {
            reveal_strlit("c");
            assert forall|i: int| 0 <= i < e.transliterate_map.len() implies (
            #[trigger] e.transliterate_map[i]).to@.len() == 1 by {
                assert(e.transliterate_map[i].to == "c");
            }
        },
        _ => {},
    }
}

} // verus!
