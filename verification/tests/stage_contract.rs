use normy::context::Context;
use normy::lang::data::{
    all_langs, ARA, CAT, CES, DAN, DEU, ELL, ENG, FRA, HIN, ISL, ITA, JPN, KOR, LIT, NLD, NOR,
    POL, POR, SLK, SPA, SWE, TUR, VIE, ZHO,
};
use normy::lang::Lang;
use normy::stage::case_fold::CaseFold;
use normy::stage::lower_case::LowerCase;
use normy::stage::normalization::{NfcStage, NfdStage, NfkcStage, NfkdStage, NFC, NFD, NFKC, NFKD};
use normy::stage::normalize_punctuation::NormalizePunctuation;
use normy::stage::normalize_whitespace::{
    collapse_whitespace, collapse_whitespace_unicode, normalize_whitespace_full, trim_whitespace,
    trim_whitespace_unicode, NormalizeWhitespace,
};
use normy::stage::remove_diacritics::RemoveDiacritics;
use normy::stage::segment_words::SegmentWords;
use normy::stage::strip_control_chars::StripControlChars;
use normy::stage::strip_format_controls::StripFormatControls;
use normy::stage::strip_html::StripHtml;
use normy::stage::strip_markdown::StripMarkdown;
use normy::stage::transliterate::Transliterate;
use normy::stage::unify_width::UnifyWidth;
use normy::stage::{Stage, StaticFusableStage};
use std::borrow::Cow;

/// What a stage supplies to the universal contract checks.
trait StageTestConfig: Stage + StaticFusableStage + Sized {
    fn one_to_one_languages() -> Vec<Lang>;

    fn samples(_lang: Lang) -> &'static [&'static str] {
        &["Hello World 123", " déjà-vu ", "TEST", ""]
    }

    fn should_pass_through(_lang: Lang) -> &'static [&'static str] {
        &["hello", "world", "test123", "abc def", ""]
    }

    fn should_transform(_lang: Lang) -> &'static [(&'static str, &'static str)] {
        &[]
    }

    fn skip_needs_apply_test() -> bool {
        false
    }
}

fn addr(text: &Cow<'_, str>) -> usize {
    text.as_ptr() as usize
}

fn zero_copy_when_no_changes<S: StageTestConfig>(stage: &S) {
    for lang in all_langs() {
        let ctx = Context::new(lang);
        for &input in S::samples(lang) {
            let mut text = Cow::Borrowed(input);
            if stage.needs_apply(&text, &ctx).unwrap() {
                text = stage.apply(text, &ctx).unwrap();
                assert!(matches!(text, Cow::Owned(_)), "apply must allocate (lang {lang:?}, `{input}`)");
            } else {
                assert!(matches!(text, Cow::Borrowed(s) if s.as_ptr() == input.as_ptr()));
            }
            let old_ptr = addr(&text);
            if stage.needs_apply(&text, &ctx).unwrap() {
                text = stage.apply(text, &ctx).unwrap();
            }
            assert_eq!(
                old_ptr,
                addr(&text),
                "zero-copy violated on second idempotent pass (lang: {lang:?}, input: `{input}`)"
            );
        }
        for &pass_through in S::should_pass_through(lang) {
            let mut text = Cow::Borrowed(pass_through);
            if stage.needs_apply(&text, &ctx).unwrap() {
                text = stage.apply(text, &ctx).unwrap();
            }
            assert_eq!(text.as_ref(), pass_through);
            assert!(
                matches!(text, Cow::Borrowed(s) if s.as_ptr() == pass_through.as_ptr()),
                "zero-copy violated on pass-through sample (lang: {lang:?}, input: `{pass_through}`)"
            );
        }
        for &(input, expected) in S::should_transform(lang) {
            let mut text = Cow::Borrowed(input);
            if stage.needs_apply(&text, &ctx).unwrap() {
                text = stage.apply(text, &ctx).unwrap();
            }
            assert_eq!(text.as_ref(), expected, "lang {lang:?}, input `{input}`");
        }
    }
}

fn fused_path_equivalent_to_apply<S: StageTestConfig>(stage: &S) {
    for lang in S::one_to_one_languages() {
        let ctx = Context::new(lang);
        let input = "AbCdEfGhIjKlMnOpQrStUvWxYz ÀÉÎÖÜñç 123!@# テスト";
        let via_apply = stage.apply(Cow::Borrowed(input), &ctx).unwrap();
        if stage.supports_static_fusion() {
            let via_fused = stage.fused_apply(input, &ctx);
            assert_eq!(
                via_apply.as_ref(),
                via_fused,
                "static fused adapter path ≠ apply() in {lang:?}"
            );
        }
    }
}

fn stage_is_idempotent<S: StageTestConfig>(stage: &S) {
    for lang in all_langs() {
        let ctx = Context::new(lang);
        for &input in S::samples(lang) {
            let once = stage.apply(Cow::Borrowed(input), &ctx).unwrap();
            let twice = stage.apply(once.clone(), &ctx).unwrap();
            assert_eq!(once, twice, "apply() not idempotent in {lang:?} on `{input}`");
            if stage.supports_static_fusion() {
                let once = stage.fused_apply(input, &ctx);
                let twice = stage.fused_apply(input, &ctx);
                assert_eq!(once, twice, "fused adapter not idempotent in {lang:?} on `{input}`");
            }
        }
    }
}

fn check_accuracy<S: Stage>(stage: &S, input: &str, ctx: &Context) {
    let predicted = stage.needs_apply(input, ctx).expect("needs_apply errored");
    let output = stage.apply(Cow::Owned(input.to_owned()), ctx).expect("apply errored");
    let actually_changes = output != input;
    assert_eq!(
        predicted,
        actually_changes,
        "needs_apply() mismatch for stage `{}` in {:?} on `{}` (output = {:?})",
        stage.name(),
        ctx.lang,
        input,
        output
    );
}

fn needs_apply_is_accurate<S: StageTestConfig>(stage: &S) {
    if S::skip_needs_apply_test() {
        return;
    }
    let languages = if S::one_to_one_languages().is_empty() {
        all_langs()
    } else {
        S::one_to_one_languages()
    };
    for lang in languages {
        let ctx = Context::new(lang);
        for &sample in S::samples(lang) {
            check_accuracy(stage, sample, &ctx);
        }
        for clean in ["", "hello", "world123", " !@#"] {
            check_accuracy(stage, clean, &ctx);
        }
    }
}

fn handles_empty_string_and_ascii<S: StageTestConfig>(stage: &S) {
    let ctx = Context::new(ENG);
    let empty: &str = "";
    let result_empty = if stage.needs_apply(empty, &ctx).unwrap() {
        stage.apply(Cow::Borrowed(empty), &ctx).unwrap()
    } else {
        Cow::Borrowed(empty)
    };
    assert_eq!(result_empty.as_ref(), "");
    let ascii = "hello world 123 !@#";
    let result_ascii = stage.apply(Cow::Borrowed(ascii), &ctx).unwrap();
    assert_eq!(result_ascii.as_ref(), ascii);
}

fn no_panic_on_mixed_scripts<S: StageTestConfig>(stage: &S) {
    let ctx = Context::new(ENG);
    let _ = stage.apply(Cow::Borrowed("Hello 世界 русский Türkçe العربية 简体中文"), &ctx);
}

fn assert_stage_contract<S: StageTestConfig>(stage: S) {
    zero_copy_when_no_changes(&stage);
    fused_path_equivalent_to_apply(&stage);
    stage_is_idempotent(&stage);
    needs_apply_is_accurate(&stage);
    handles_empty_string_and_ascii(&stage);
    no_panic_on_mixed_scripts(&stage);
}

impl StageTestConfig for CaseFold {
    fn one_to_one_languages() -> Vec<Lang> {
        vec![ENG, FRA, SPA, ITA, POR, DAN, NOR, SWE, ISL, CAT, TUR, LIT, ELL]
    }
    fn samples(lang: Lang) -> &'static [&'static str] {
        match lang {
            TUR => &["İSTANBUL", "I", "İ", "ısı", "i"],
            DEU => &["Straße", "GROẞ", "Fuß"],
            NLD => &["IJssel", "Ĳssel", "ijssel", "Ij"],
            ELL => &["ΣΟΦΟΣ", "ΟΔΟΣ", "Σ"],
            LIT => &["JIS", "Jį", "ĄČĘĖ"],
            _ => &["Hello WORLD", "Test 123", " café ", "NAÏVE"],
        }
    }
    fn should_pass_through(lang: Lang) -> &'static [&'static str] {
        match lang {
            TUR => &["ısı", "i", "istanbul", "hello"],
            DEU => &["strasse", "gross", "hello", "test"],
            NLD => &["ijssel", "hello", "world"],
            ELL => &["σοφοσ", "οδοσ", "hello"],
            LIT => &["jis", "jį", "hello"],
            _ => &["hello", "world", "test123", ""],
        }
    }
    fn should_transform(lang: Lang) -> &'static [(&'static str, &'static str)] {
        match lang {
            TUR => &[("İ", "i"), ("I", "ı"), ("İSTANBUL", "istanbul"), ("ISI", "ısı")],
            DEU => &[("ß", "ss"), ("ẞ", "ss"), ("Straße", "strasse"), ("GROẞ", "gross")],
            NLD => &[("IJ", "ij"), ("Ĳ", "ij"), ("ĳ", "ij"), ("IJssel", "ijssel"), ("Ij", "ij")],
            ELL => &[("Σ", "σ"), ("ΣΟΦΟΣ", "σοφοσ"), ("ΟΔΟΣ", "οδοσ")],
            LIT => &[("JIS", "jis"), ("JĮ", "jį"), ("Ė", "ė")],
            _ => &[("HELLO", "hello"), ("World", "world"), ("NAÏVE", "naïve"), ("ABC", "abc")],
        }
    }
}

impl StageTestConfig for LowerCase {
    fn one_to_one_languages() -> Vec<Lang> {
        vec![ENG, FRA, SPA, ITA, POR, DAN, NOR, SWE, ISL, CAT, TUR, DEU, NLD, ELL, LIT]
    }
    fn samples(lang: Lang) -> &'static [&'static str] {
        match lang {
            TUR => &["İSTANBUL", "ISPARTA", "İ", "I"],
            DEU => &["GROẞ", "STRAẞE", "Fuß"],
            NLD => &["IJssel", "Ĳssel"],
            ELL => &["ΣΟΦΟΣ", "ΟΔΟΣ"],
            LIT => &["JIS", "JĮ"],
            _ => &["HELLO", "World 123", " café ", "NAÏVE"],
        }
    }
    fn should_pass_through(lang: Lang) -> &'static [&'static str] {
        match lang {
            TUR => &["istanbul", "ısparta", "i", "ı"],
            DEU => &["groß", "straße", "fuß"],
            NLD => &["ijssel", "ĳssel"],
            ELL => &["σοφοσ", "οδοσ"],
            LIT => &["jis", "jį"],
            _ => &["hello", "world", "test123", ""],
        }
    }
    fn should_transform(lang: Lang) -> &'static [(&'static str, &'static str)] {
        match lang {
            TUR => &[("İ", "i"), ("I", "ı"), ("İSTANBUL", "istanbul"), ("ISPARTA", "ısparta")],
            DEU => &[("ẞ", "ß"), ("GROẞ", "groß"), ("STRAẞE", "straße")],
            NLD => &[("IJssel", "ijssel"), ("Ĳssel", "ĳssel")],
            ELL => &[("ΣΟΦΟΣ", "σοφοσ"), ("ΟΔΟΣ", "οδοσ")],
            LIT => &[("JIS", "jis")],
            _ => &[("HELLO", "hello")],
        }
    }
}

const NORMALIZATION_SAMPLES: &[&str] = &[
    "café", "naïve", "e\u{0301}", "ﬃﬃ", "ﬁle", "½", "Ⅻ", "①②③", "㍿", "ﬀ", "日本語", "El Niño",
    "Résumé", "", "hello", "𝕳𝖊𝖑𝖑𝖔", "ℌℨℓℓℴ", ";",
];

impl StageTestConfig for NfcStage {
    fn one_to_one_languages() -> Vec<Lang> {
        all_langs()
    }
    fn samples(_lang: Lang) -> &'static [&'static str] {
        NORMALIZATION_SAMPLES
    }
    fn should_pass_through(_lang: Lang) -> &'static [&'static str] {
        &["hello", "world123", "test", ""]
    }
}

impl StageTestConfig for NfdStage {
    fn one_to_one_languages() -> Vec<Lang> {
        all_langs()
    }
    fn samples(_lang: Lang) -> &'static [&'static str] {
        NORMALIZATION_SAMPLES
    }
    fn should_pass_through(_lang: Lang) -> &'static [&'static str] {
        &["hello", "world123", "test", ""]
    }
}

impl StageTestConfig for NfkcStage {
    fn one_to_one_languages() -> Vec<Lang> {
        all_langs()
    }
    fn samples(_lang: Lang) -> &'static [&'static str] {
        NORMALIZATION_SAMPLES
    }
    fn should_pass_through(_lang: Lang) -> &'static [&'static str] {
        &["hello", "world123", "test", ""]
    }
}

impl StageTestConfig for NfkdStage {
    fn one_to_one_languages() -> Vec<Lang> {
        all_langs()
    }
    fn samples(_lang: Lang) -> &'static [&'static str] {
        NORMALIZATION_SAMPLES
    }
    fn should_pass_through(_lang: Lang) -> &'static [&'static str] {
        &["hello", "world123", "test", ""]
    }
}

impl StageTestConfig for NormalizePunctuation {
    fn one_to_one_languages() -> Vec<Lang> {
        all_langs()
    }
    fn samples(_lang: Lang) -> &'static [&'static str] {
        &["Hello \"World\" 123", " déjà-vu… ", "TEST—", "", "\"'–…•‹›"]
    }
    fn should_pass_through(_lang: Lang) -> &'static [&'static str] {
        &["hello world", "test-123", "it's okay", ""]
    }
    fn should_transform(_lang: Lang) -> &'static [(&'static str, &'static str)] {
        &[
            ("“Hello”", "\"Hello\""),
            ("‘world’", "'world'"),
            ("—dash—", "-dash-"),
            ("…", "."),
            ("• bullet", "* bullet"),
            ("‹angle›", "<angle>"),
        ]
    }
}

impl StageTestConfig for NormalizeWhitespace {
    fn one_to_one_languages() -> Vec<Lang> {
        vec![]
    }
    fn samples(_lang: Lang) -> &'static [&'static str] {
        &[
            "Hello World 123",
            " déjà-vu ",
            "TEST",
            "",
            "hello \t\n world \u{00A0}\u{3000}",
            "¡\u{00A0}¡\u{205F}\u{202F}\u{1680}",
            "clean text—no changes here",
            "“smart quotes” … ellipsis — dash",
            "a   b\t\tc\n\nd",
            "\u{2003}\u{2004}\u{2005}spaces",
        ]
    }
    fn should_pass_through(_lang: Lang) -> &'static [&'static str] {
        &[
            "hello world",
            "test",
            "abc def",
            "",
            "clean text—no changes here",
            "“smart quotes” … ellipsis — dash",
        ]
    }
}

impl StageTestConfig for RemoveDiacritics {
    fn one_to_one_languages() -> Vec<Lang> {
        vec![]
    }
    fn samples(lang: Lang) -> &'static [&'static str] {
        match lang {
            FRA => &["café", "naïve", "résumé", "Crème brûlée"],
            VIE => &["Hà Nội", "Đạt", "đẹp quá", "tôi tên là"],
            ARA => &["مَرْحَبًا", "كتاب", "الْعَرَبِيَّةُ"],
            POL => &["Łódź", "żółć", "gęślą jaźń"],
            CES => &["Příliš žluťoučký", "děvče"],
            SLK => &["Ľúbica", "Ťahanovce"],
            _ => &["hello", "test 123", "café", ""],
        }
    }
    fn should_pass_through(lang: Lang) -> &'static [&'static str] {
        match lang {
            FRA | VIE | POL => &["hello", "world", "test123", ""],
            ARA => &["كتاب", "hello", ""],
            CES | SLK => &["hello", "world", "café", ""],
            _ => &["hello", "world", ""],
        }
    }
    fn should_transform(lang: Lang) -> &'static [(&'static str, &'static str)] {
        match lang {
            FRA => &[
                ("café", "cafe"),
                ("naïve", "naive"),
                ("résumé", "resume"),
                ("Crème brûlée", "Creme brulee"),
            ],
            VIE => &[("Hà Nội", "Ha Noi"), ("Đạt", "Dat"), ("đẹp quá", "dep qua")],
            ARA => &[("مَرْحَبًا", "مرحبا"), ("الْكِتَابُ", "الكتاب"), ("قُرْآنٌ", "قرآن")],
            POL => &[("Łódź", "Lodz"), ("żółć", "zolc"), ("gęślą jaźń", "gesla jazn")],
            CES => &[("děvče", "devce"), ("Příliš", "Prílis"), ("žluťoučký", "zlutoucký")],
            SLK => &[("Ľúbica", "Lúbica"), ("Ťahanovce", "Tahanovce")],
            _ => &[],
        }
    }
}

impl StageTestConfig for SegmentWords {
    fn one_to_one_languages() -> Vec<Lang> {
        vec![]
    }
    fn samples(lang: Lang) -> &'static [&'static str] {
        match lang {
            ENG => &["Hello world", "123 !@#", "", " "],
            ZHO => &["你好世界", "Hello世界", "AI+区块链"],
            JPN => &["こんにちは世界", "Rustは最高", "東京2025年"],
            HIN => &["पत्नी", "विद्वत्", "Helloपत्नी"],
            _ => &["Hello World 123", " déjà-vu ", "TEST", ""],
        }
    }
    fn should_pass_through(lang: Lang) -> &'static [&'static str] {
        match lang {
            ENG | FRA | SPA | DEU => &["hello world", "test 123", ""],
            ZHO | JPN | KOR | HIN => &[],
            _ => &["hello world", ""],
        }
    }
    fn should_transform(lang: Lang) -> &'static [(&'static str, &'static str)] {
        match lang {
            ZHO => &[("你好", "你 好"), ("世界", "世 界"), ("Hello世界", "Hello 世 界")],
            JPN => &[("Hello世界", "Hello 世界"), ("東京2025年", "東京 2025 年")],
            HIN => &[("पत्नी", "पत्\u{200B}नी"), ("Helloपत्नी", "Hello पत्\u{200B}नी")],
            _ => &[],
        }
    }
    fn skip_needs_apply_test() -> bool {
        true
    }
}

impl StageTestConfig for StripControlChars {
    fn one_to_one_languages() -> Vec<Lang> {
        vec![]
    }
    fn samples(_lang: Lang) -> &'static [&'static str] {
        &["hello\u{0001}world\u{007F}", "clean text only", "\u{001F}start\u{0085}middle\u{009F}end", ""]
    }
    fn should_pass_through(_lang: Lang) -> &'static [&'static str] {
        &["clean text only", "hello world", "test123", ""]
    }
    fn should_transform(_lang: Lang) -> &'static [(&'static str, &'static str)] {
        &[
            ("hello\u{0001}world", "helloworld"),
            ("\u{001F}start", "start"),
            ("end\u{009F}", "end"),
            ("a\u{007F}b\u{0085}c", "abc"),
        ]
    }
}

impl StageTestConfig for StripFormatControls {
    fn one_to_one_languages() -> Vec<Lang> {
        vec![]
    }
    fn samples(_lang: Lang) -> &'static [&'static str] {
        &[
            "hello\u{200B}world",
            "\u{FEFF}bommed",
            "Arabic\u{200F}text",
            "a\u{2066}b\u{2069}c",
            "text\u{200D}join\u{200C}",
            "word\u{2060}joiner",
            "clean text",
        ]
    }
    fn should_pass_through(_lang: Lang) -> &'static [&'static str] {
        &["clean text", "hello world", "test123", ""]
    }
    fn should_transform(_lang: Lang) -> &'static [(&'static str, &'static str)] {
        &[
            ("hello\u{200B}world", "helloworld"),
            ("\u{FEFF}text", "text"),
            ("a\u{200E}b", "ab"),
            ("join\u{200D}me", "joinme"),
            ("no\u{2060}break", "nobreak"),
        ]
    }
}

impl StageTestConfig for StripHtml {
    fn one_to_one_languages() -> Vec<Lang> {
        vec![]
    }
    fn samples(_lang: Lang) -> &'static [&'static str] {
        &[
            "<p>Hello &amp; world</p>",
            "Price: &euro;99",
            "<script>alert(1)</script>",
            "Normal text with > and & in prose &amp; such",
            "<div class=\"test\">content</div>",
            "&lt;escaped&gt;",
            "<noscript>fallback</noscript>",
            "<svg><circle/></svg>",
            "<!DOCTYPE html>",
        ]
    }
    fn should_pass_through(_lang: Lang) -> &'static [&'static str] {
        &["plain text", "hello world", "test123", ""]
    }
    fn should_transform(_lang: Lang) -> &'static [(&'static str, &'static str)] {
        &[
            ("<p>Hello</p>", "Hello"),
            ("&amp;", "&"),
            ("&lt;test&gt;", ""),
            ("<b>bold</b>", "bold"),
            ("Price: &euro;99", "Price: €99"),
            ("<noscript>fallback</noscript>text", "text"),
            ("<svg><text>icon</text></svg>text", "text"),
            ("<!DOCTYPE html><p>text</p>", "text"),
            ("<h1>Title</h1><p>Text</p>", "Title Text"),
        ]
    }
}

impl StageTestConfig for StripMarkdown {
    fn one_to_one_languages() -> Vec<Lang> {
        vec![]
    }
    fn samples(_lang: Lang) -> &'static [&'static str] {
        &[
            "# Title\n\n**bold** _italic_ ~~strike~~",
            "- [x] Done\n- [ ] Todo",
            "| A | B |\n| - | - |\n| 1 | 2 |",
            "[link](url) ![img](x.png)",
            "> Quote\n\n`code` $E=mc^2$ $$\\frac{1}{2}$$",
            "```rust\nfn main() {}\n```",
            "---Horizontal rule",
            "1. Ordered\n2. List",
            "---\nHorizontal rule\n---",
            "10. Multi-digit\n11. List",
        ]
    }
    fn should_pass_through(_lang: Lang) -> &'static [&'static str] {
        &[
            "plain text",
            "hello world",
            "test123",
            "",
            "[x] Done",
            "[ ] Todo",
            "pre-processing",
            "I ate 2. pizzas",
            "array[0]",
        ]
    }
    fn should_transform(_lang: Lang) -> &'static [(&'static str, &'static str)] {
        &[
            ("**bold**", "bold"),
            ("_italic_", "italic"),
            ("~~strike~~", "strike"),
            ("# Header", "Header"),
            ("`code`", "code"),
            ("`*text*`", "*text*"),
            ("[link](url)", "link"),
            ("- [x] Task", "[x] Task"),
            ("| A | B |\n| --- | --- |", "A B"),
            ("$E=mc^2$", "$E=mc^2$"),
            ("```rust\ncode\n```", "code"),
            (
                "| Header A | Header B |\n|----------|----------|\n| Cell 1 | Cell 2 |\n| Cell 3 | Cell 4 |",
                "Header A Header B\nCell 1 Cell 2\nCell 3 Cell 4",
            ),
        ]
    }
}

impl StageTestConfig for Transliterate {
    fn one_to_one_languages() -> Vec<Lang> {
        vec![]
    }
    fn samples(lang: Lang) -> &'static [&'static str] {
        match lang {
            FRA => &["œuvre", "ŒUVRE", "Cœur", "Æon"],
            DAN => &["Århus", "århus", "Øresund", "København"],
            DEU => &["Straße", "Fußgänger", "Weißwurst", "Äpfel"],
            CAT => &["Façade", "plaça", "Barça"],
            _ => &["hello", "İstanbul", "café", ""],
        }
    }
    fn should_pass_through(lang: Lang) -> &'static [&'static str] {
        match lang {
            DEU | DAN | FRA | CAT | NOR | SWE | ISL => &["hello", "world", "test", "123"],
            _ => &["hello", "world", "test123", ""],
        }
    }
    fn should_transform(lang: Lang) -> &'static [(&'static str, &'static str)] {
        match lang {
            DEU => &[("Ä", "ae"), ("ä", "ae"), ("Ö", "oe"), ("ö", "oe"), ("Ü", "ue"), ("ü", "ue")],
            DAN => &[("Å", "aa"), ("å", "aa"), ("Æ", "ae"), ("æ", "ae"), ("Ø", "oe"), ("ø", "oe")],
            NOR => &[("Æ", "ae"), ("æ", "ae"), ("Ø", "oe"), ("ø", "oe"), ("Å", "aa"), ("å", "aa")],
            SWE => &[("Å", "aa"), ("å", "aa"), ("Ä", "ae"), ("ä", "ae"), ("Ö", "oe"), ("ö", "oe")],
            FRA => &[("Œ", "oe"), ("œ", "oe"), ("Æ", "ae"), ("æ", "ae"), ("Ç", "c"), ("ç", "c")],
            ISL => &[("Þ", "th"), ("þ", "th"), ("Ð", "d"), ("ð", "d"), ("Æ", "ae"), ("æ", "ae")],
            CAT => &[("Ç", "c"), ("ç", "c")],
            _ => &[],
        }
    }
}

impl StageTestConfig for UnifyWidth {
    fn one_to_one_languages() -> Vec<Lang> {
        vec![JPN, ZHO, KOR]
    }
    fn samples(lang: Lang) -> &'static [&'static str] {
        match lang {
            JPN => &["Ｈｅｌｌｏ　Ｗｏｒｌｄ！", "１２３４５円"],
            ZHO => &["你好　Ｗｏｒｌｄ", "全角１２３"],
            KOR => &["안녕　Ｗｏｒｌｄ", "１２３"],
            _ => &["Full-width ABC１２３！　", "Normal text"],
        }
    }
    fn should_pass_through(_lang: Lang) -> &'static [&'static str] {
        &["hello world", "test123", ""]
    }
    fn should_transform(_lang: Lang) -> &'static [(&'static str, &'static str)] {
        &[
            ("ＡＢＣ", "ABC"),
            ("１２３", "123"),
            ("！＠＃", "!@#"),
            ("　", " "),
            ("Ｈｅｌｌｏ　Ｗｏｒｌｄ！", "Hello World!"),
        ]
    }
}

#[test]
fn case_fold_universal_contract_compliance() {
    assert_stage_contract(CaseFold);
}

#[test]
fn lower_case_universal_contract_compliance() {
    assert_stage_contract(LowerCase);
}

#[test]
fn normalization_universal_contract_compliance() {
    assert_stage_contract(NFC);
    assert_stage_contract(NFD);
    assert_stage_contract(NFKC);
    assert_stage_contract(NFKD);
}

#[test]
fn normalize_punctuation_universal_contract_compliance() {
    assert_stage_contract(NormalizePunctuation);
}

#[test]
fn normalize_whitespace_universal_contract_compliance() {
    assert_stage_contract(normalize_whitespace_full());
    assert_stage_contract(collapse_whitespace());
    assert_stage_contract(collapse_whitespace_unicode());
    assert_stage_contract(trim_whitespace());
    assert_stage_contract(trim_whitespace_unicode());
}

#[test]
fn remove_diacritics_universal_contract_compliance() {
    assert_stage_contract(RemoveDiacritics);
}

#[test]
fn segment_words_universal_contract_compliance() {
    assert_stage_contract(SegmentWords);
}

#[test]
fn strip_control_chars_universal_contract_compliance() {
    assert_stage_contract(StripControlChars);
}

#[test]
fn strip_format_controls_universal_contract_compliance() {
    assert_stage_contract(StripFormatControls);
}

#[test]
fn strip_html_universal_contract_compliance() {
    assert_stage_contract(StripHtml);
}

#[test]
fn strip_markdown_universal_contract_compliance() {
    assert_stage_contract(StripMarkdown);
}

#[test]
fn transliterate_universal_contract_compliance() {
    assert_stage_contract(Transliterate);
}

#[test]
fn unify_width_universal_contract_compliance() {
    assert_stage_contract(UnifyWidth);
}
