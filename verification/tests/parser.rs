use hantracker::schema::XmlFailure;
use hantracker::Dict2;

const HEADER: &str = "<header><file_version>4</file_version>\
<database_version>2024-123</database_version>\
<date_of_creation>2024-05-02</date_of_creation></header>";

const FULL_CHARACTER: &str = "<character>
<literal>亜</literal>
<codepoint><cp_value cp_type=\"ucs\">4e9c</cp_value><cp_value cp_type=\"jis208\">1-16-01</cp_value></codepoint>
<radical><rad_value rad_type=\"classical\">7</rad_value><rad_value rad_type=\"nelson_c\">1</rad_value></radical>
<misc><grade>8</grade><stroke_count>7</stroke_count><stroke_count>8</stroke_count>
<variant var_type=\"jis208\">1-48-19</variant><freq>1509</freq><rad_name>に</rad_name><jlpt>1</jlpt></misc>
<dic_number><dic_ref dr_type=\"nelson_c\">43</dic_ref>
<dic_ref dr_type=\"moro\" m_vol=\"1\" m_page=\"0525\">272</dic_ref></dic_number>
<query_code><q_code qc_type=\"skip\">4-7-1</q_code>
<q_code qc_type=\"skip\" skip_misclass=\"posn\">1-3-4</q_code></query_code>
<reading_meaning><rmgroup><reading r_type=\"ja_on\">ア</reading><reading r_type=\"ja_kun\">つ.ぐ</reading>
<meaning>Asia</meaning><meaning m_lang=\"fr\">Asie</meaning></rmgroup>
<nanori>や</nanori><nanori>つぎ</nanori></reading_meaning>
</character>";

fn document(characters: &str) -> String {
    format!("<kanjidic2>{HEADER}{characters}</kanjidic2>")
}

fn minimal(literal: &str, misc: &str) -> String {
    format!(
        "<character><literal>{literal}</literal><codepoint/><radical/><misc>{misc}</misc><query_code/></character>"
    )
}

fn rejected(text: &str) -> XmlFailure {
    match Dict2::from_str(text) {
        Ok(d) => panic!("accepted: {d:?}"),
        Err(e) => e,
    }
}

#[test]
fn the_header_is_read() {
    let dict = Dict2::from_str(&document("")).unwrap();
    assert_eq!(dict.header.file_version, 4);
    assert_eq!(dict.header.database_version, "2024-123");
    assert_eq!(dict.header.date_of_creation, "2024-05-02");
    assert!(dict.character.is_empty());
}

#[test]
fn a_full_character_is_read_field_by_field() {
    let dict = Dict2::from_str(&document(FULL_CHARACTER)).unwrap();
    assert_eq!(dict.character.len(), 1);
    let c = &dict.character[0];
    assert_eq!(c.literal, "亜");
    assert_eq!(c.codepoint.cp_value.len(), 2);
    assert_eq!(c.codepoint.cp_value[0].cp_type, "ucs");
    assert_eq!(c.codepoint.cp_value[0].value, "4e9c");
    assert_eq!(c.codepoint.cp_value[1].cp_type, "jis208");
    assert_eq!(c.radical.rad_value.len(), 2);
    assert_eq!(c.radical.rad_value[0].rad_type, "classical");
    assert_eq!(c.radical.rad_value[0].rad_value, 7);
    assert_eq!(c.radical.rad_value[1].rad_value, 1);
    assert_eq!(c.misc.grade, Some(8));
    assert_eq!(c.misc.stroke_count, vec![7, 8]);
    let variant = c.misc.variant.as_ref().unwrap();
    assert_eq!(variant.var_type, "jis208");
    assert_eq!(variant.var_value, "1-48-19");
    assert_eq!(c.misc.freq, Some(1509));
    assert_eq!(c.misc.jlpt, Some(1));
    assert_eq!(c.misc.rad_name.as_deref(), Some("に"));
    let refs = &c.dic_number.as_ref().unwrap().dic_ref;
    assert_eq!(refs.len(), 2);
    assert_eq!(refs[0].dr_type, "nelson_c");
    assert_eq!(refs[0].dr_value, "43");
    assert_eq!(refs[0].m_vol, None);
    assert_eq!(refs[0].m_page, None);
    assert_eq!(refs[1].dr_type, "moro");
    assert_eq!(refs[1].dr_value, "272");
    assert_eq!(refs[1].m_vol, Some(1));
    assert_eq!(refs[1].m_page, Some(525));
    let codes = &c.query_code.q_code;
    assert_eq!(codes.len(), 2);
    assert_eq!(codes[0].qc_type, "skip");
    assert_eq!(codes[0].qc_value, "4-7-1");
    assert_eq!(codes[0].skip_misclass, None);
    assert_eq!(codes[1].skip_misclass.as_deref(), Some("posn"));
    let rm = c.reading_meaning.as_ref().unwrap();
    assert_eq!(rm.rmgroup.len(), 1);
    assert_eq!(rm.rmgroup[0].reading.len(), 2);
    assert_eq!(rm.rmgroup[0].reading[0].r_type, "ja_on");
    assert_eq!(rm.rmgroup[0].reading[0].r_value, "ア");
    assert_eq!(rm.rmgroup[0].reading[1].r_value, "つ.ぐ");
    assert_eq!(rm.rmgroup[0].meaning.len(), 2);
    assert_eq!(rm.rmgroup[0].meaning[0].m_lang, None);
    assert_eq!(rm.rmgroup[0].meaning[0].meaning, "Asia");
    assert_eq!(rm.rmgroup[0].meaning[1].m_lang.as_deref(), Some("fr"));
    assert_eq!(rm.rmgroup[0].meaning[1].meaning, "Asie");
    assert_eq!(rm.nanori, vec!["や", "つぎ"]);
}

#[test]
fn optional_children_may_be_absent() {
    let dict = Dict2::from_str(&document(&minimal("一", ""))).unwrap();
    let c = &dict.character[0];
    assert_eq!(c.literal, "一");
    assert!(c.codepoint.cp_value.is_empty());
    assert!(c.radical.rad_value.is_empty());
    assert!(c.query_code.q_code.is_empty());
    assert!(c.dic_number.is_none());
    assert!(c.reading_meaning.is_none());
    assert_eq!(c.misc.grade, None);
    assert_eq!(c.misc.jlpt, None);
    assert_eq!(c.misc.freq, None);
    assert!(c.misc.stroke_count.is_empty());
    assert!(c.misc.variant.is_none());
    assert!(c.misc.rad_name.is_none());
}

#[test]
fn characters_keep_document_order() {
    let text = document(&format!("{}{}{}", minimal("三", ""), minimal("一", ""), minimal("二", "")));
    let dict = Dict2::from_str(&text).unwrap();
    let literals: Vec<&str> = dict.character.iter().map(|c| c.literal.as_str()).collect();
    assert_eq!(literals, vec!["三", "一", "二"]);
}

#[test]
fn children_may_come_in_any_order() {
    let text = format!(
        "<kanjidic2><character><query_code/><misc><jlpt>2</jlpt><grade>3</grade></misc><radical/>\
<codepoint/><literal>悪</literal></character>{HEADER}</kanjidic2>"
    );
    let dict = Dict2::from_str(&text).unwrap();
    assert_eq!(dict.header.file_version, 4);
    assert_eq!(dict.character[0].literal, "悪");
    assert_eq!(dict.character[0].misc.grade, Some(3));
    assert_eq!(dict.character[0].misc.jlpt, Some(2));
}

#[test]
fn a_prolog_a_doctype_and_comments_are_passed_over() {
    let text = format!(
        "<?xml version=\"1.0\" encoding=\"UTF-8\"?>\n<!DOCTYPE kanjidic2 [\n<!ELEMENT kanjidic2 (header,character*)>\n]>\n\
<!-- a comment -->\n<kanjidic2>\n<!-- another -->\n{HEADER}\n{}\n</kanjidic2>\n",
        minimal("一", "<grade>1</grade>")
    );
    let dict = Dict2::from_str(&text).unwrap();
    assert_eq!(dict.character.len(), 1);
    assert_eq!(dict.character[0].misc.grade, Some(1));
}

#[test]
fn entities_are_unescaped_in_text_and_attributes() {
    let text = document(
        "<character><literal>&#x4e9c;</literal><codepoint><cp_value cp_type=\"a&amp;b\">&lt;x&gt;</cp_value></codepoint>\
<radical/><misc><rad_name>&quot;q&apos;</rad_name></misc><query_code/></character>",
    );
    let dict = Dict2::from_str(&text).unwrap();
    let c = &dict.character[0];
    assert_eq!(c.literal, "亜");
    assert_eq!(c.codepoint.cp_value[0].cp_type, "a&b");
    assert_eq!(c.codepoint.cp_value[0].value, "<x>");
    assert_eq!(c.misc.rad_name.as_deref(), Some("\"q'"));
}

#[test]
fn cdata_is_read_as_text() {
    let text = document(
        "<character><literal><![CDATA[亜]]></literal><codepoint/><radical/><misc/><query_code/></character>",
    );
    let dict = Dict2::from_str(&text).unwrap();
    assert_eq!(dict.character[0].literal, "亜");
}

#[test]
fn an_empty_misc_element_is_accepted() {
    let text = document(
        "<character><literal>亜</literal><codepoint></codepoint><radical></radical><misc/><query_code></query_code></character>",
    );
    let dict = Dict2::from_str(&text).unwrap();
    assert_eq!(dict.character[0].misc.grade, None);
}

#[test]
fn what_follows_the_root_is_not_read() {
    let text = format!("{}<trailing attr=\"1\"/>", document(""));
    assert!(Dict2::from_str(&text).is_ok());
}

#[test]
fn an_undeclared_attribute_on_a_text_element_is_rejected() {
    let with = |element: &str| {
        document(&format!(
            "<character><literal>亜</literal><codepoint>{}</codepoint><radical>{}</radical>\
<misc>{}</misc><dic_number>{}</dic_number><query_code>{}</query_code>\
<reading_meaning><rmgroup>{}{}</rmgroup></reading_meaning></character>",
            if element == "cp_value" { "<cp_value cp_type=\"ucs\" extra=\"1\">4e9c</cp_value>" } else { "" },
            if element == "rad_value" { "<rad_value rad_type=\"classical\" extra=\"1\">7</rad_value>" } else { "" },
            if element == "variant" { "<variant var_type=\"jis208\" extra=\"1\">1-48-19</variant>" } else { "" },
            if element == "dic_ref" { "<dic_ref dr_type=\"moro\" extra=\"1\">272</dic_ref>" } else { "" },
            if element == "q_code" { "<q_code qc_type=\"skip\" extra=\"1\">4-7-1</q_code>" } else { "" },
            if element == "reading" { "<reading r_type=\"ja_on\" extra=\"1\">ア</reading>" } else { "" },
            if element == "meaning" { "<meaning m_lang=\"fr\" extra=\"1\">Asie</meaning>" } else { "" },
        ))
    };
    assert!(Dict2::from_str(&with("none")).is_ok());
    for element in ["cp_value", "rad_value", "variant", "dic_ref", "q_code", "reading", "meaning"] {
        match rejected(&with(element)) {
            XmlFailure::UnknownField { field, .. } => assert_eq!(field, "extra", "{element}"),
            other => panic!("{element}: {other:?}"),
        }
    }
}

#[test]
fn an_undeclared_attribute_before_the_declared_one_is_rejected() {
    let text = document(
        "<character><literal>亜</literal><codepoint><cp_value extra=\"1\" cp_type=\"ucs\">4e9c</cp_value></codepoint>\
<radical/><misc/><query_code/></character>",
    );
    assert!(matches!(rejected(&text), XmlFailure::UnknownField { .. }));
}

#[test]
fn an_undeclared_attribute_on_an_element_with_children_is_rejected() {
    let base = format!("<kanjidic2>{HEADER}{FULL_CHARACTER}</kanjidic2>");
    assert!(Dict2::from_str(&base).is_ok());
    for tag in [
        "kanjidic2",
        "header",
        "character",
        "codepoint",
        "radical",
        "misc",
        "dic_number",
        "query_code",
        "reading_meaning",
        "rmgroup",
    ] {
        let text = base.replacen(&format!("<{tag}>"), &format!("<{tag} extra=\"1\">"), 1);
        assert_ne!(text, base, "{tag}");
        match rejected(&text) {
            XmlFailure::UnknownField { field, .. } => assert_eq!(field, "extra", "{tag}"),
            other => panic!("{tag}: {other:?}"),
        }
    }
}

#[test]
fn an_undeclared_attribute_on_a_text_child_is_rejected() {
    let base = format!("<kanjidic2>{HEADER}{FULL_CHARACTER}</kanjidic2>");
    for tag in [
        "file_version",
        "database_version",
        "date_of_creation",
        "literal",
        "grade",
        "stroke_count",
        "freq",
        "rad_name",
        "jlpt",
        "nanori",
    ] {
        let text = base.replacen(&format!("<{tag}>"), &format!("<{tag} extra=\"1\">"), 1);
        assert_ne!(text, base, "{tag}");
        match rejected(&text) {
            XmlFailure::UnknownField { field, .. } => assert_eq!(field, "extra", "{tag}"),
            other => panic!("{tag}: {other:?}"),
        }
    }
}

#[test]
fn an_undeclared_element_is_rejected() {
    let base = format!("<kanjidic2>{HEADER}{FULL_CHARACTER}</kanjidic2>");
    for tag in [
        "kanjidic2",
        "header",
        "character",
        "codepoint",
        "radical",
        "misc",
        "dic_number",
        "query_code",
        "reading_meaning",
        "rmgroup",
    ] {
        let text = base.replacen(&format!("<{tag}>"), &format!("<{tag}><extra>1</extra>"), 1);
        match rejected(&text) {
            XmlFailure::UnknownField { field, .. } => assert_eq!(field, "extra", "{tag}"),
            other => panic!("{tag}: {other:?}"),
        }
    }
}

#[test]
fn an_element_inside_a_text_is_rejected() {
    let text = document(
        "<character><literal>亜<b/></literal><codepoint/><radical/><misc/><query_code/></character>",
    );
    assert!(matches!(rejected(&text), XmlFailure::Reader(_)));
}

#[test]
fn a_missing_required_child_is_rejected() {
    for tag in ["literal", "codepoint", "radical", "misc", "query_code"] {
        let full = minimal("亜", "");
        let text = document(
            &full
                .replace(&format!("<{tag}/>"), "")
                .replace(&format!("<{tag}></{tag}>"), "")
                .replace(&format!("<{tag}>亜</{tag}>"), ""),
        );
        assert_ne!(text, document(&full), "{tag}");
        match rejected(&text) {
            XmlFailure::MissingField { name, field } => {
                assert_eq!(name, "Character");
                assert_eq!(field, tag);
            }
            other => panic!("{tag}: {other:?}"),
        }
    }
}

#[test]
fn a_missing_header_is_rejected() {
    let text = format!("<kanjidic2>{}</kanjidic2>", minimal("亜", ""));
    assert!(matches!(rejected(&text), XmlFailure::MissingField { .. }));
    assert!(matches!(rejected("<kanjidic2/>"), XmlFailure::MissingField { .. }));
}

#[test]
fn a_missing_header_field_is_rejected() {
    let text = "<kanjidic2><header><file_version>4</file_version>\
<database_version>x</database_version></header></kanjidic2>";
    match rejected(text) {
        XmlFailure::MissingField { field, .. } => assert_eq!(field, "date_of_creation"),
        other => panic!("{other:?}"),
    }
}

#[test]
fn a_missing_required_attribute_is_rejected() {
    let text = document(
        "<character><literal>亜</literal><codepoint><cp_value>4e9c</cp_value></codepoint>\
<radical/><misc/><query_code/></character>",
    );
    match rejected(&text) {
        XmlFailure::MissingField { field, .. } => assert_eq!(field, "cp_type"),
        other => panic!("{other:?}"),
    }
}

#[test]
fn a_second_single_child_is_rejected() {
    let text = document(
        "<character><literal>亜</literal><literal>唖</literal><codepoint/><radical/><misc/><query_code/></character>",
    );
    assert!(matches!(rejected(&text), XmlFailure::DuplicateElement(_)));
    let text = document(&minimal("亜", "<grade>1</grade><grade>2</grade>"));
    assert!(matches!(rejected(&text), XmlFailure::DuplicateElement(_)));
    let text = format!("<kanjidic2>{HEADER}{HEADER}</kanjidic2>");
    assert!(matches!(rejected(&text), XmlFailure::DuplicateElement(_)));
}

#[test]
fn a_repeated_attribute_is_rejected() {
    let text = document(
        "<character><literal>亜</literal><codepoint><cp_value cp_type=\"a\" cp_type=\"b\">4e9c</cp_value></codepoint>\
<radical/><misc/><query_code/></character>",
    );
    assert!(Dict2::from_str(&text).is_err());
}

#[test]
fn a_number_that_is_none_is_rejected() {
    for misc in ["<grade>one</grade>", "<grade></grade>", "<jlpt>-1</jlpt>", "<freq>1.5</freq>",
        "<stroke_count> 7</stroke_count>", "<grade>18446744073709551616</grade>"]
    {
        match rejected(&document(&minimal("亜", misc))) {
            XmlFailure::InvalidNumber(_) => {}
            other => panic!("{misc}: {other:?}"),
        }
    }
    let text = document(
        "<character><literal>亜</literal><codepoint/><radical><rad_value rad_type=\"c\">x</rad_value></radical>\
<misc/><query_code/></character>",
    );
    assert!(matches!(rejected(&text), XmlFailure::InvalidNumber(_)));
    let text = document(
        "<character><literal>亜</literal><codepoint/><radical/><misc/>\
<dic_number><dic_ref dr_type=\"moro\" m_vol=\"x\">272</dic_ref></dic_number><query_code/></character>",
    );
    assert!(matches!(rejected(&text), XmlFailure::InvalidNumber(_)));
}

#[test]
fn the_largest_number_is_read() {
    let dict =
        Dict2::from_str(&document(&minimal("亜", "<freq>18446744073709551615</freq>"))).unwrap();
    assert_eq!(dict.character[0].misc.freq, Some(u64::MAX));
}

#[test]
fn malformed_input_is_rejected() {
    assert!(matches!(rejected(""), XmlFailure::Reader(_) | XmlFailure::MissingField { .. }));
    assert!(Dict2::from_str("not xml at all").is_err());
    assert!(Dict2::from_str("<kanjidic2>").is_err());
    assert!(Dict2::from_str(&format!("<kanjidic2>{HEADER}")).is_err());
    assert!(Dict2::from_str(&format!("<kanjidic2>{HEADER}</other>")).is_err());
    assert!(Dict2::from_str(&format!("<kanjidic2>{HEADER}<character></kanjidic2>")).is_err());
    assert!(Dict2::from_str(&document(&minimal("&bogus;", ""))).is_err());
    assert!(Dict2::from_str(&document(&minimal("&amp", ""))).is_err());
}

#[test]
fn another_root_is_not_a_dictionary() {
    assert!(Dict2::from_str(&format!("<dictionary>{HEADER}</dictionary>")).is_err());
}

#[test]
fn a_number_may_carry_a_plus_sign_and_leading_zeros() {
    let dict = Dict2::from_str(&document(&minimal(
        "亜",
        "<grade>+8</grade><stroke_count>007</stroke_count><freq>0</freq>",
    )))
    .unwrap();
    assert_eq!(dict.character[0].misc.grade, Some(8));
    assert_eq!(dict.character[0].misc.stroke_count, vec![7]);
    assert_eq!(dict.character[0].misc.freq, Some(0));
}

#[test]
fn a_sign_alone_or_a_foreign_digit_is_no_number() {
    for misc in [
        "<grade>+</grade>",
        "<grade>++8</grade>",
        "<grade>-8</grade>",
        "<grade>8 </grade>",
        "<grade>8_0</grade>",
        "<grade>٣</grade>",
        "<grade>８</grade>",
        "<grade>0x8</grade>",
    ] {
        match rejected(&document(&minimal("亜", misc))) {
            XmlFailure::InvalidNumber(_) => {}
            other => panic!("{misc}: {other:?}"),
        }
    }
}

#[test]
fn text_and_cdata_are_joined_in_order() {
    let dict = Dict2::from_str(&document(&minimal(
        "亜",
        "<rad_name>a<![CDATA[<b>]]>&amp;c<![CDATA[]]>d</rad_name>",
    )))
    .unwrap();
    assert_eq!(dict.character[0].misc.rad_name.as_deref(), Some("a<b>&cd"));
}

#[test]
fn an_empty_text_child_holds_the_empty_text() {
    let dict =
        Dict2::from_str(&document(&minimal("亜", "<rad_name/><stroke_count>1</stroke_count>")))
            .unwrap();
    assert_eq!(dict.character[0].misc.rad_name.as_deref(), Some(""));
    assert_eq!(dict.character[0].misc.stroke_count, vec![1]);
    let dict = Dict2::from_str(&document(&minimal("亜", "<rad_name></rad_name>"))).unwrap();
    assert_eq!(dict.character[0].misc.rad_name.as_deref(), Some(""));
}

#[test]
fn a_text_closed_by_another_tag_is_rejected() {
    let text = document(&minimal("亜", "<rad_name>a</grade>"));
    assert!(Dict2::from_str(&text).is_err());
}
