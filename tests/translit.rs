use electricity::translit::{translit, Translit};

#[test]
fn test_translit_empty_string() {
    let output = "".translit();
    assert_eq!(&output, "");
}

#[test]
fn test_translit_cyrillic() {
    let output = "У служби грађана - Званична презентација Владе Републике Србије".translit();
    assert_eq!(&output, "u službi građana - zvanična prezentacija vlade republike srbije");
}

#[test]
fn digraph_letters_become_two_letters() {
    assert_eq!(translit("Џак Љиљана Њива"), "džak ljiljana njiva");
}

#[test]
fn latin_and_other_text_is_lowercased() {
    assert_eq!(translit("AUTOPUT Za Novi Sad: BB,12A"), "autoput za novi sad: bb,12a");
    assert_eq!(String::from("ÄÖ").translit(), "äö");
}

#[test]
fn cyrillic_output_holds_no_cyrillic_key() {
    let out = translit("АБЦЧЋДЏЂЕФГХИЈКЛЉМНЊОПРСШТУВЗЖабцчћдџђефгхијклљмнњопрстшувзж");
    assert!(out.chars().all(|c| !('\u{0400}'..='\u{04FF}').contains(&c)));
    assert_eq!(out.to_lowercase(), out);
}

#[test]
fn output_is_already_lowercase() {
    for s in ["Београд ЈУГ", "MiXeD Ћирилица", "123 - Ш"] {
        let out = translit(s);
        assert_eq!(out.to_lowercase(), out);
    }
}
