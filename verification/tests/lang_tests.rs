use mdex_dl::lang::{narrow_langcodes, nullify_langcodes, parse_langcode, parse_langcode_map, Lang};

#[test]
fn narrow_maps_vendor_extensions() {
    assert_eq!(narrow_langcodes("zh-ro"), "en");
    assert_eq!(narrow_langcodes("ja-ro"), "en");
    assert_eq!(narrow_langcodes("ko-ro"), "en");
    assert_eq!(narrow_langcodes("zh-hk"), "zh");
    assert_eq!(narrow_langcodes("pt-br"), "pt");
    assert_eq!(narrow_langcodes("es-la"), "es");
    assert_eq!(narrow_langcodes("fr"), "fr");
}

#[test]
fn nullify_maps_null_codes() {
    assert_eq!(nullify_langcodes("NULL"), "UNKNOWN");
    assert_eq!(nullify_langcodes("Null"), "UNKNOWN");
    assert_eq!(nullify_langcodes("null"), "UNKNOWN");
    assert_eq!(nullify_langcodes(""), "UNKNOWN");
    assert_eq!(nullify_langcodes("en"), "en");
}

#[test]
fn parse_langcode_accepts_table_codes() {
    assert_eq!(parse_langcode("en").unwrap().code, "en");
    assert_eq!(parse_langcode("pt-br").unwrap().code, "pt");
    // the table decides: "zz" is not an assigned ISO 639-1 code
    assert!(parse_langcode("zz").is_err());
    assert!(parse_langcode("english").is_err());
}

#[test]
fn parse_langcode_null_becomes_unknown() {
    let l = parse_langcode("null").unwrap();
    assert_eq!(l.code, "");
    assert!(l.iso639_1().is_none());
}

#[test]
fn langs_compare_by_code() {
    let a = Lang { code: "en".to_string() };
    let b = parse_langcode("en").unwrap();
    assert!(a == b);
}

#[test]
fn parse_langcode_map_keeps_values_in_order() {
    let entries = vec![
        ("en".to_string(), "Title".to_string()),
        ("pt-br".to_string(), "Titulo".to_string()),
    ];
    let m = parse_langcode_map(&entries).unwrap();
    assert_eq!(m.len(), 2);
    assert_eq!(m[0].0.code, "en");
    assert_eq!(m[0].1, "Title");
    assert_eq!(m[1].0.code, "pt");
    assert_eq!(m[1].1, "Titulo");

    let bad = vec![("qq".to_string(), "x".to_string())];
    assert!(parse_langcode_map(&bad).is_err());
}
