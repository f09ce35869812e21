use normy::lang::data::{DEU, FRA, JPN, TUR, ZHO};
use normy::normy::Normy;
use normy::stage::case_fold::CaseFold;
use normy::stage::lower_case::LowerCase;
use normy::stage::normalize_whitespace::collapse_whitespace_unicode;
use normy::stage::remove_diacritics::RemoveDiacritics;
use normy::stage::segment_words::SegmentWords;
use normy::stage::transliterate::Transliterate;
use normy::stage::unify_width::UnifyWidth;
use std::borrow::Cow;

#[test]
fn readme_turkish_lowercase() {
    let tur = Normy::builder().lang(TUR).add_stage(LowerCase).build();
    assert_eq!(
        tur.normalize("KIZILIRMAK NEHRİ TÜRKİYE'NİN EN UZUN NEHRİDİR.").unwrap(),
        "kızılırmak nehri türkiye'nin en uzun nehridir."
    );
}

#[test]
fn readme_german_fold_and_transliterate() {
    let deu = Normy::builder().lang(DEU).add_stage(CaseFold).add_stage(Transliterate).build();
    assert_eq!(
        deu.normalize("Grüße aus München! Die Straße ist sehr schön.").unwrap(),
        "gruesse aus muenchen! die strasse ist sehr schoen."
    );
}

#[test]
fn readme_french_fold_and_diacritics() {
    let fra = Normy::builder().lang(FRA).add_stage(CaseFold).add_stage(RemoveDiacritics).build();
    assert_eq!(
        fra.normalize("Bonjour ! J'adore le café et les croissants à Paris.").unwrap(),
        "bonjour ! j'adore le cafe et les croissants a paris."
    );
}

#[test]
fn readme_chinese_segmentation() {
    let zho = Normy::builder()
        .lang(ZHO)
        .add_stage(UnifyWidth)
        .add_stage(collapse_whitespace_unicode())
        .add_stage(SegmentWords)
        .build();
    assert_eq!(
        zho.normalize("北京的秋天特别美丽，长城非常壮观！").unwrap(),
        "北 京 的 秋 天 特 别 美 丽 , 长 城 非 常 壮 观 !"
    );
}

#[test]
fn readme_japanese_segmentation() {
    let jpn = Normy::builder()
        .lang(JPN)
        .add_stage(UnifyWidth)
        .add_stage(collapse_whitespace_unicode())
        .add_stage(SegmentWords)
        .build();
    assert_eq!(
        jpn.normalize("東京は本当に素晴らしい街です！桜がとてもきれい。").unwrap(),
        "東京は本当に素晴らしい街です ! 桜がとてもきれい 。"
    );
}

#[test]
fn readme_clean_text_is_borrowed() {
    let tur = Normy::builder().lang(TUR).add_stage(LowerCase).build();
    let input = "zaten küçük harf";
    let out = tur.normalize(input).unwrap();
    assert!(matches!(out, Cow::Borrowed(s) if s.as_ptr() == input.as_ptr()));
}
