use speech_stream::zh::{ZHTransformer, ZhConversion};

fn chosen(code: &str) -> Result<ZhConversion, &'static str> {
    ZHTransformer::from(code).map(|t| t.conversion())
}

#[test]
fn taiwan() {
    assert_eq!(chosen("zh_tw"), Ok(ZhConversion::S2TW));
    assert_eq!(chosen("zh-tw"), Ok(ZhConversion::S2TW));
}

#[test]
fn hong_kong() {
    assert_eq!(chosen("zh_hk"), Ok(ZhConversion::S2HK));
    assert_eq!(chosen("zh-hk"), Ok(ZhConversion::S2HK));
}

#[test]
fn other_chinese_codes_are_simplified() {
    assert_eq!(chosen("zh_cn"), Ok(ZhConversion::T2S));
    assert_eq!(chosen("zh-sg"), Ok(ZhConversion::T2S));
    assert_eq!(chosen("zhx"), Ok(ZhConversion::T2S));
    assert_eq!(chosen("zh_tw_x"), Ok(ZhConversion::T2S));
    assert_eq!(chosen("zh tw"), Ok(ZhConversion::T2S));
}

#[test]
fn case_does_not_matter() {
    assert_eq!(chosen("ZH_TW"), Ok(ZhConversion::S2TW));
    assert_eq!(chosen("Zh-Hk"), Ok(ZhConversion::S2HK));
    assert_eq!(chosen("ZH"), Err("auto detection chinese language code"));
}

#[test]
fn lower_case_is_expected_where_it_is_asked_for() {
    assert_eq!(
        ZHTransformer::from_lowercase("zh_tw").map(|t| t.conversion()),
        Ok(ZhConversion::S2TW)
    );
    assert_eq!(
        ZHTransformer::from_lowercase("ZH_TW").map(|t| t.conversion()),
        Err("is not chinese language code")
    );
}

#[test]
fn bare_code_leaves_the_script_open() {
    assert_eq!(chosen("zh"), Err("auto detection chinese language code"));
}

#[test]
fn other_languages() {
    assert_eq!(chosen("en"), Err("is not chinese language code"));
    assert_eq!(chosen(""), Err("is not chinese language code"));
    assert_eq!(chosen("z"), Err("is not chinese language code"));
    assert_eq!(chosen("tw_zh"), Err("is not chinese language code"));
}
