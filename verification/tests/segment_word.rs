use normy::context::Context;
use normy::lang::data::{JPN, KHM, KOR, LAO, MYA, THA, ZHO};
use normy::stage::segment_word::SegmentWord;
use normy::stage::Stage;
use std::borrow::Cow;



// --------------------------- Japanese ---------------------------
#[test]
fn test_japanese_segmentation() {
    let stage = SegmentWord;
    let ctx = Context::new(JPN);

    let cases = &[
        // Hiragana → Hiragana: no break
        ("こんにちは", "こんにちは"),
        // Hiragana → Kanji: no break
        ("は最高", "は最高"),
        // Western → Hiragana: break
        ("Rustは", "Rust は"),
        // Western → Kanji: break
        ("Hello世界", "Hello 世界"),
        // ASCII digits → Kanji: break
        ("25年", "25 年"),
        // Mixed Western + Kanji + Hiragana
        ("東京2025年", "東京 2025 年"),
    ];

    for &(input, expected) in cases {
        let output = stage.apply(Cow::Borrowed(input), &ctx).unwrap();
        assert_eq!(output, expected, "Failed on input: {}", input);
    }

    // Extreme/edge cases
    let extremes = &[
        ("", ""),                                         // empty string
        ("A", "A"),                                       // single Western char
        ("世", "世"),                                     // single CJK char
        ("Rustは世界2025年", "Rust は世界 2025 年"),      // long mixed sequence
        ("　こんにちは　", "\u{3000}こんにちは\u{3000}"), // full-width spaces.
    ];
    for &(input, expected) in extremes {
        let output = stage.apply(Cow::Borrowed(input), &ctx).unwrap();
        assert_eq!(output, expected, "Extreme case failed on input: {}", input);
    }
}

// --------------------------- Chinese ---------------------------
#[test]
fn test_chinese_segmentation() {
    let stage = SegmentWord;
    let ctx = Context::new(ZHO);

    let cases = &[
        ("Hello世界", "Hello 世界"), // Western → CJK
        ("世界Hello", "世界 Hello"), // CJK → Western
        ("你好世界", "你好世界"),    // consecutive CJK: no break
    ];

    for &(input, expected) in cases {
        let output = stage.apply(Cow::Borrowed(input), &ctx).unwrap();
        assert_eq!(output, expected, "Failed on input: {}", input);
    }

    // Edge cases
    let extremes = &[
        ("", ""),
        ("A", "A"),
        ("中", "中"),
        ("Hello你好World世界", "Hello 你好 World 世界"),
    ];
    for &(input, expected) in extremes {
        let output = stage.apply(Cow::Borrowed(input), &ctx).unwrap();
        assert_eq!(output, expected, "Extreme case failed on input: {}", input);
    }
}

// --------------------------- Korean ---------------------------
#[test]
fn test_korean_segmentation() {
    let stage = SegmentWord;
    let ctx = Context::new(KOR);

    let cases = &[
        ("Hello안녕하세요", "Hello 안녕하세요"), // Western → Hangul
        ("안녕하세요World", "안녕하세요 World"), // Hangul → Western
        ("안녕하세요", "안녕하세요"),            // Hangul cluster
    ];

    for &(input, expected) in cases {
        let output = stage.apply(Cow::Borrowed(input), &ctx).unwrap();
        assert_eq!(output, expected);
    }

    let extremes = &[
        ("", ""),
        ("가", "가"),                                    // single Hangul
        ("Hello가World", "Hello 가 World"),              // mixed short
        ("안녕Hello세상World", "안녕 Hello 세상 World"), // longer mixed
    ];
    for &(input, expected) in extremes {
        let output = stage.apply(Cow::Borrowed(input), &ctx).unwrap();
        assert_eq!(output, expected);
    }
}

// --------------------------- Thai ---------------------------
#[test]
fn test_thai_segmentation() {
    let stage = SegmentWord;
    let ctx = Context::new(THA);

    let cases = &[
        ("Helloสวัสดี", "Hello สวัสดี"),  // Western → Thai
        ("สวัสดีWorld", "สวัสดี World"),  // Thai → Western
        ("สวัสดีชาวโลก", "สวัสดีชาวโลก"), // Thai cluster
    ];

    for &(input, expected) in cases {
        let output = stage.apply(Cow::Borrowed(input), &ctx).unwrap();
        assert_eq!(output, expected);
    }

    let extremes = &[
        ("", ""),
        ("ก", "ก"),
        ("HelloกWorld", "Hello ก World"),
        ("สวัสดีHelloชาวโลกWorld", "สวัสดี Hello ชาวโลก World"),
    ];
    for &(input, expected) in extremes {
        let output = stage.apply(Cow::Borrowed(input), &ctx).unwrap();
        assert_eq!(output, expected);
    }
}

// --------------------------- Lao ---------------------------
#[test]
fn test_lao_segmentation() {
    let stage = SegmentWord;
    let ctx = Context::new(LAO);

    let cases = &[
        ("Helloສະບາຍດີ", "Hello ສະບາຍດີ"),
        ("ສະບາຍດີWorld", "ສະບາຍດີ World"),
        ("ສະບາຍດີທຸກຄົນ", "ສະບາຍດີທຸກຄົນ"),
    ];

    for &(input, expected) in cases {
        let output = stage.apply(Cow::Borrowed(input), &ctx).unwrap();
        assert_eq!(output, expected);
    }

    let extremes = &[
        ("", ""),
        ("ກ", "ກ"),
        ("HelloກWorld", "Hello ກ World"),
        ("ສະບາຍHelloດີWorld", "ສະບາຍ Hello ດີ World"),
    ];
    for &(input, expected) in extremes {
        let output = stage.apply(Cow::Borrowed(input), &ctx).unwrap();
        assert_eq!(output, expected);
    }
}

// --------------------------- Myanmar ---------------------------
#[test]
fn test_myanmar_segmentation() {
    let stage = SegmentWord;
    let ctx = Context::new(MYA);

    let cases = &[
        ("Helloမင်္ဂလာပါ", "Hello မင်္ဂလာပါ"),
        ("မင်္ဂလာပါWorld", "မင်္ဂလာပါ World"),
        ("မင်္ဂလာပါ", "မင်္ဂလာပါ"),
    ];

    for &(input, expected) in cases {
        let output = stage.apply(Cow::Borrowed(input), &ctx).unwrap();
        assert_eq!(output, expected);
    }

    let extremes = &[
        ("", ""),
        ("မ", "မ"),
        ("HelloမWorld", "Hello မ World"),
        ("မင်္ဂလာHelloပါWorld", "မင်္ဂလာ Hello ပါ World"),
    ];
    for &(input, expected) in extremes {
        let output = stage.apply(Cow::Borrowed(input), &ctx).unwrap();
        assert_eq!(output, expected);
    }
}

// --------------------------- Khmer ---------------------------
#[test]
fn test_khmer_segmentation() {
    let stage = SegmentWord;
    let ctx = Context::new(KHM);

    let cases = &[
        ("Helloសួស្តី", "Hello សួស្តី"),
        ("សួស្តីWorld", "សួស្តី World"),
        ("សួស្តីជាកម្ពុជា", "សួស្តីជាកម្ពុជា"),
    ];

    for &(input, expected) in cases {
        let output = stage.apply(Cow::Borrowed(input), &ctx).unwrap();
        assert_eq!(output, expected);
    }

    let extremes = &[
        ("", ""),
        ("ក", "ក"),
        ("HelloកWorld", "Hello ក World"),
        ("សួស្តីHelloជាកម្ពុជាWorld", "សួស្តី Hello ជាកម្ពុជា World"),
    ];
    for &(input, expected) in extremes {
        let output = stage.apply(Cow::Borrowed(input), &ctx).unwrap();
        assert_eq!(output, expected);
    }
}
