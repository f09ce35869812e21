use normy::context::Context;
use normy::lang::data::{ENG, HIN, JPN, KHM, KOR, LAO, MYA, TAM, THA, ZHO};
use normy::lang::Lang;
use normy::stage::segment_words::SegmentWords;
use normy::stage::{CharMapper, Stage};
use std::borrow::Cow;

fn run_cases(lang: Lang, cases: &[(&str, &str)]) {
    let stage = SegmentWords;
    let ctx = Context::new(lang);
    for &(input, expected) in cases {
        let out = stage.apply(Cow::Borrowed(input), &ctx).unwrap();
        assert_eq!(out, expected, "Failed: {} → {}", input, expected);
    }
}

#[test]
fn test_english_no_segmentation() {
    let stage = SegmentWords;
    let ctx = Context::new(ENG);
    assert!(!stage.needs_apply("Hello world", &ctx).unwrap());
    let result = stage.apply(Cow::Borrowed("Hello world"), &ctx).unwrap();
    assert_eq!(result, "Hello world");
    assert!(matches!(result, Cow::Borrowed(_)));
}

#[test]
fn test_japanese() {
    run_cases(
        JPN,
        &[
            ("こんにちは", "こんにちは"),
            ("は最高", "は最高"),
            ("Rustは", "Rust は"),
            ("Hello世界", "Hello 世界"),
            ("25年", "25 年"),
            ("東京2025年", "東京 2025 年"),
            ("", ""),
            ("A", "A"),
            ("世", "世"),
            ("Rustは世界2025年", "Rust は世界 2025 年"),
            ("\u{3000}こんにちは\u{3000}", "\u{3000}こんにちは\u{3000}"),
            ("こんにちは世界", "こんにちは世界"),
            ("Rustは最高", "Rust は最高"),
            ("人工知能", "人工知能"),
            ("私は学生です", "私は学生です"),
        ],
    );
}

#[test]
fn test_chinese() {
    run_cases(
        ZHO,
        &[
            ("Hello世界", "Hello 世 界"),
            ("世界Hello", "世 界 Hello"),
            ("你好世界", "你 好 世 界"),
            ("", ""),
            ("A", "A"),
            ("中", "中"),
            ("Hello你好World世界", "Hello 你 好 World 世 界"),
            ("中华人民共和国", "中 华 人 民 共 和 国"),
            ("人工智能是未来", "人 工 智 能 是 未 来"),
            ("我爱你", "我 爱 你"),
            ("今天天气很好", "今 天 天 气 很 好"),
            ("Rust编程语言", "Rust 编 程 语 言"),
            ("2025年北京奥运", "2025 年 北 京 奥 运"),
            ("你好，世界！", "你 好 ， 世 界 ！"),
            ("「你好」他说道", "「 你 好 」 他 说 道"),
            ("中中中", "中 中 中"),
            ("  你好  世界  ", "  你 好  世 界  "),
            ("AI+区块链=未来", "AI+ 区 块 链 = 未 来"),
            ("2025年，你好！", "2025 年 ， 你 好 ！"),
            ("Rust×中文＝强大", "Rust× 中 文 ＝ 强 大"),
            ("「人工智能」2025", "「 人 工 智 能 」 2025"),
            ("Hello,世界!", "Hello, 世 界 !"),
        ],
    );
}

#[test]
fn test_korean() {
    run_cases(
        KOR,
        &[
            ("Hello안녕하세요", "Hello 안녕하세요"),
            ("안녕하세요World", "안녕하세요 World"),
            ("안녕하세요", "안녕하세요"),
            ("", ""),
            ("가", "가"),
            ("Hello가World", "Hello 가 World"),
            ("안녕Hello세상World", "안녕 Hello 세상 World"),
            ("안녕하세요세계", "안녕하세요세계"),
            ("서울2025년", "서울 2025 년"),
            ("인공지능", "인공지능"),
            ("저는학생입니다", "저는학생입니다"),
        ],
    );
}

#[test]
fn test_thai() {
    run_cases(
        THA,
        &[
            ("Helloสวัสดี", "Hello สวัสดี"),
            ("สวัสดีWorld", "สวัสดี World"),
            ("สวัสดีชาวโลก", "สวัสดีชาวโลก"),
            ("", ""),
            ("ก", "ก"),
            ("HelloกWorld", "Hello ก World"),
            ("สวัสดีHelloชาวโลกWorld", "สวัสดี Hello ชาวโลก World"),
        ],
    );
}

#[test]
fn test_lao() {
    run_cases(
        LAO,
        &[
            ("Helloສະບາຍດີ", "Hello ສະບາຍດີ"),
            ("ສະບາຍດີWorld", "ສະບາຍດີ World"),
            ("ສະບາຍດີທຸກຄົນ", "ສະບາຍດີທຸກຄົນ"),
        ],
    );
}

#[test]
fn test_myanmar() {
    run_cases(MYA, &[("Helloမင်္ဂလာပါ", "Hello မင်္ဂလာပါ"), ("မင်္ဂလာပါWorld", "မင်္ဂလာပါ World")]);
}

#[test]
fn test_khmer() {
    run_cases(KHM, &[("Helloសួស្តី", "Hello សួស្តី"), ("សួស្តីWorld", "សួស្តី World")]);
}

#[test]
fn test_hindi() {
    run_cases(
        HIN,
        &[
            ("पत्नी", "पत्\u{200B}नी"),
            ("प\u{094D}त\u{094D}नी", "प\u{094D}\u{200B}त\u{094D}\u{200B}नी"),
            ("सन्तोष", "सन्\u{200B}तोष"),
            ("विद्वत्", "विद्वत्"),
            ("विद्वत्त्व", "विद्वत्\u{200B}त्व"),
            ("रामायण", "रामायण"),
            ("Helloपत्नी", "Hello पत्\u{200B}नी"),
            ("पत्नीHello", "पत्\u{200B}नी Hello"),
        ],
    );
}

#[test]
fn test_tamil() {
    run_cases(
        TAM,
        &[
            ("பற்றி", "பற்\u{200B}றி"),
            ("தமிழ்", "தமிழ்"),
            ("அக்கா", "அக்\u{200B}கா"),
            ("Helloதமிழ்", "Hello தமிழ்"),
            ("தமிழ்World", "தமிழ் World"),
        ],
    );
}

#[test]
fn test_precomputed_flags() {
    let ctx = Context::new(ENG);
    assert!(!ctx.lang_entry.needs_segmentation());
    assert!(!ctx.lang_entry.has_segment_rules());
    let ctx = Context::new(ZHO);
    assert!(ctx.lang_entry.needs_segmentation());
    assert!(ctx.lang_entry.has_segment_rules());
    assert!(ctx.lang_entry.needs_unigram_cjk());
    let ctx = Context::new(JPN);
    assert!(ctx.lang_entry.needs_segmentation());
    assert!(ctx.lang_entry.has_segment_rules());
    assert!(!ctx.lang_entry.needs_unigram_cjk());
}

#[test]
fn segment_words_test_ascii_fast_path() {
    let stage = SegmentWords;
    let ctx = Context::new(ENG);
    let input = "hello world 123";
    assert!(!stage.needs_apply(input, &ctx).unwrap());
    let result = stage.apply(Cow::Borrowed(input), &ctx).unwrap();
    assert!(matches!(result, Cow::Borrowed(_)));
    let ctx = Context::new(ZHO);
    let input = "Hello";
    assert!(!stage.needs_apply(input, &ctx).unwrap());
}

#[test]
fn segment_words_as_char_mapper() {
    let zho = Context::new(ZHO);
    let mapper = SegmentWords.as_char_mapper(&zho).expect("Chinese segments");
    assert_eq!(mapper.map('世', &zho), Some('世'));
    assert_eq!(mapper.bind("你好世界", &zho), "你 好 世 界");
    assert_eq!(mapper.bind("Hello世界", &zho), "Hello 世 界");
    let eng = Context::new(ENG);
    assert!(SegmentWords.as_char_mapper(&eng).is_none());
    assert_eq!(SegmentWords.bind("Hello世界", &eng), "Hello世界");
    let jpn = Context::new(JPN);
    let applied = SegmentWords.apply(Cow::Borrowed("Rustは最高"), &jpn).unwrap();
    assert_eq!(SegmentWords.bind("Rustは最高", &jpn), applied);
}

#[test]
fn segment_words_keeps_joiners() {
    let ctx = Context::new(ZHO);
    let out = SegmentWords.apply(Cow::Borrowed("a\u{200D}"), &ctx).unwrap();
    assert_eq!(out, "a\u{200D}");
    let out = SegmentWords.apply(Cow::Borrowed("世\u{200C}界"), &ctx).unwrap();
    assert_eq!(out, "世\u{200C}界");
    let out = SegmentWords.apply(Cow::Borrowed("世界\u{200D}abc"), &ctx).unwrap();
    assert_eq!(out, "世 界\u{200D}abc");
    let out = SegmentWords.apply(Cow::Borrowed("\u{200D}世界"), &ctx).unwrap();
    assert_eq!(out, "\u{200D}世 界");
}
