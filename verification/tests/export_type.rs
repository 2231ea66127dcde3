use swf_packer::export_type::{type_names, ExportType};

#[test]
fn every_word_resolves() {
    for word in ["script", "", "nonsense", "Image", "  ", "ÄÖÜ", "xfl"] {
        assert!(ExportType::from_str(word).is_ok());
    }
}

#[test]
fn resolution_gives_the_same_result_each_time() {
    for word in ["image", "BinaryData", "unknown-kind", ""] {
        assert_eq!(ExportType::from_str(word), ExportType::from_str(word));
    }
}

#[test]
fn builtin_keywords_resolve_to_their_categories() {
    assert_eq!(ExportType::from_str("script"), Ok(ExportType::Script));
    assert_eq!(ExportType::from_str("image"), Ok(ExportType::Image));
    assert_eq!(ExportType::from_str("shape"), Ok(ExportType::Shape));
    assert_eq!(ExportType::from_str("morphshape"), Ok(ExportType::MorphShape));
    assert_eq!(ExportType::from_str("movie"), Ok(ExportType::Movie));
    assert_eq!(ExportType::from_str("font"), Ok(ExportType::Font));
    assert_eq!(ExportType::from_str("font4"), Ok(ExportType::Font4));
    assert_eq!(ExportType::from_str("frame"), Ok(ExportType::Frame));
    assert_eq!(ExportType::from_str("sprite"), Ok(ExportType::Sprite));
    assert_eq!(ExportType::from_str("button"), Ok(ExportType::Button));
    assert_eq!(ExportType::from_str("sound"), Ok(ExportType::Sound));
    assert_eq!(ExportType::from_str("binarydata"), Ok(ExportType::BinaryData));
    assert_eq!(ExportType::from_str("symbolclass"), Ok(ExportType::SymbolClass));
    assert_eq!(ExportType::from_str("text"), Ok(ExportType::Text));
    assert_eq!(ExportType::from_str("all"), Ok(ExportType::All));
    assert_eq!(ExportType::from_str("fla"), Ok(ExportType::Fla));
    assert_eq!(ExportType::from_str("xfl"), Ok(ExportType::Xfl));
}

#[test]
fn resolution_ignores_case() {
    assert_eq!(ExportType::from_str("SCRIPT"), Ok(ExportType::Script));
    assert_eq!(ExportType::from_str("MorphShape"), Ok(ExportType::MorphShape));
    assert_eq!(ExportType::from_str("bInArYdAtA"), Ok(ExportType::BinaryData));
}

#[test]
fn unknown_word_is_kept_in_lower_case() {
    assert_eq!(
        ExportType::from_str("Custom-Kind"),
        Ok(ExportType::Other("custom-kind".to_string()))
    );
    assert_eq!(ExportType::from_str(""), Ok(ExportType::Other(String::new())));
    assert_eq!(
        ExportType::from_str("images"),
        Ok(ExportType::Other("images".to_string()))
    );
    assert_eq!(
        ExportType::from_str(" image"),
        Ok(ExportType::Other(" image".to_string()))
    );
}

#[test]
fn lower_casing_is_done_by_the_resolver() {
    // A wrapper that handed its argument back unchanged would keep the capitals.
    let resolved = ExportType::from_str("ÀB").unwrap();
    assert_eq!(resolved.as_str(), "àb");
}

#[test]
fn from_lowered_matches_exactly() {
    assert_eq!(ExportType::from_lowered("sound".to_string()), ExportType::Sound);
    assert_eq!(
        ExportType::from_lowered("Sound".to_string()),
        ExportType::Other("Sound".to_string())
    );
}

#[test]
fn builtin_categories_render_in_the_expected_spelling() {
    let expected = [
        ("script", "script"),
        ("image", "image"),
        ("shape", "shape"),
        ("morphshape", "morphshape"),
        ("movie", "movie"),
        ("font", "font"),
        ("font4", "font4"),
        ("frame", "frame"),
        ("sprite", "sprite"),
        ("button", "button"),
        ("sound", "sound"),
        ("binarydata", "binaryData"),
        ("symbolclass", "symbolClass"),
        ("text", "text"),
        ("all", "all"),
        ("fla", "fla"),
        ("xfl", "xfl"),
    ];
    for (word, spelling) in expected {
        assert_eq!(ExportType::from_str(word).unwrap().as_str(), spelling);
        assert_eq!(
            ExportType::from_str(&word.to_uppercase()).unwrap().as_str(),
            spelling
        );
    }
}

#[test]
fn binarydata_renders_with_inner_capital() {
    assert_eq!(ExportType::from_str("binarydata").unwrap().as_str(), "binaryData");
    assert_eq!(ExportType::from_str("SYMBOLCLASS").unwrap().as_str(), "symbolClass");
}

#[test]
fn unknown_word_renders_as_its_lower_case_form() {
    for word in ["Custom", "PNG", "x", "", "Binary Data", "ScriptS"] {
        assert_eq!(
            ExportType::from_str(word).unwrap().as_str(),
            word.to_lowercase()
        );
    }
}

#[test]
fn other_renders_its_word_unchanged() {
    assert_eq!(ExportType::Other("MiXed".to_string()).as_str(), "MiXed");
}

#[test]
fn type_names_lists_the_builtin_keywords_in_order() {
    assert_eq!(
        type_names(),
        vec![
            "script",
            "image",
            "shape",
            "morphshape",
            "movie",
            "font",
            "font4",
            "frame",
            "sprite",
            "button",
            "sound",
            "binarydata",
            "symbolclass",
            "text",
            "all",
            "fla",
            "xfl"
        ]
    );
}

#[test]
fn every_listed_name_resolves_to_a_builtin_category() {
    for name in type_names() {
        let resolved = ExportType::from_str(name).unwrap();
        assert!(!matches!(resolved, ExportType::Other(_)));
    }
}
