use rust_demangle::corpus::{header, variant_ranges, SKIPPED_FIELDS};
use rust_demangle::crosscheck::{check_variant, holds_question_mark, judge, Verdict};

fn s(text: &str) -> String {
    text.to_string()
}

#[test]
fn a_mangled_name_agrees() {
    assert_eq!(check_variant("_RNvC6_123foo3bar"), Verdict::Agree);
    assert_eq!(check_variant("_ZN3foo17h05af221e174051e9E"), Verdict::Agree);
    assert_eq!(
        check_variant("_RNCNCNgCs6DXkGYLi8lr_2cc5spawn00B5_"),
        Verdict::Agree
    );
}

#[test]
fn a_string_that_is_not_mangled_is_reported() {
    assert_eq!(check_variant(""), Verdict::NotMangled);
    assert_eq!(check_variant("main"), Verdict::NotMangled);
    assert_eq!(check_variant("_ZNfooE"), Verdict::NotMangled);
}

#[test]
fn a_question_mark_is_reported_before_a_difference() {
    // The lifetime refers to a binder that is not there: the walk gives up
    // and goes on with `?`.
    assert_eq!(check_variant("_RMC0RL0_RL1_l"), Verdict::TerseUnprintable);
    // `$u3f$` stands for `?` itself.
    assert_eq!(check_variant("_ZN5$u3f$E"), Verdict::TerseUnprintable);
}

#[test]
fn judge_takes_the_terse_style_first() {
    let none: Option<String> = None;
    assert_eq!(judge(&s("a"), &s("b"), &none, &none), Verdict::NotMangled);
    assert_eq!(
        judge(&s("a"), &s("b"), &Some(s("a")), &none),
        Verdict::NotMangled
    );
    assert_eq!(
        judge(&s("a"), &s("b"), &none, &Some(s("b"))),
        Verdict::NotMangled
    );
    assert_eq!(
        judge(&s("a"), &s("b"), &Some(s("a")), &Some(s("b"))),
        Verdict::Agree
    );
    assert_eq!(
        judge(&s("a"), &s("b"), &Some(s("x")), &Some(s("y"))),
        Verdict::TerseDiffers
    );
    assert_eq!(
        judge(&s("a"), &s("b"), &Some(s("a")), &Some(s("y"))),
        Verdict::VerboseDiffers
    );
    assert_eq!(
        judge(&s("a?"), &s("b"), &Some(s("a?")), &Some(s("b"))),
        Verdict::TerseUnprintable
    );
    assert_eq!(
        judge(&s("a"), &s("b?"), &Some(s("a")), &Some(s("b?"))),
        Verdict::VerboseUnprintable
    );
    assert_eq!(
        judge(&s("a"), &s("b"), &Some(s("x")), &Some(s("b?"))),
        Verdict::TerseDiffers
    );
    assert_eq!(
        judge(&s(""), &s(""), &Some(s("a")), &Some(s("b"))),
        Verdict::TerseDiffers
    );
}

#[test]
fn question_marks_are_found_among_other_characters() {
    assert!(!holds_question_mark(""));
    assert!(!holds_question_mark("საჭმელად"));
    assert!(holds_question_mark("?"));
    assert!(holds_question_mark("სა?ჭ"));
    assert!(holds_question_mark("Vec<[(A, ?); ?]>"));
}

#[test]
fn the_header_names_six_fields() {
    assert_eq!(
        header(),
        "legacy+generics,legacy,mw,mw+compression,v0,v0+compression"
    );
    assert_eq!(header().split(',').count(), 6);
    assert_eq!(SKIPPED_FIELDS, 4);
}

fn variants_of(line: &str) -> Vec<&str> {
    variant_ranges(line.as_bytes())
        .into_iter()
        .map(|(a, b)| &line[a..b])
        .collect()
}

#[test]
fn the_first_four_fields_are_left_out() {
    assert_eq!(variants_of("a,b,c,d,e,f"), vec!["e", "f"]);
    assert_eq!(variants_of("a,b,c,d,e"), vec!["e"]);
    assert_eq!(variants_of("a,b,c,d"), Vec::<&str>::new());
    assert_eq!(variants_of(""), Vec::<&str>::new());
    assert_eq!(variants_of(",,,,"), vec![""]);
    assert_eq!(variants_of(",,,,,"), vec!["", ""]);
    assert_eq!(variants_of("a,b,c,d,,f,"), vec!["", "f", ""]);
    assert_eq!(
        variants_of("1,2,3,4,_RNvC6_123foo3bar,_ZN3fooE"),
        vec!["_RNvC6_123foo3bar", "_ZN3fooE"]
    );
}

#[test]
fn the_fields_are_those_of_split() {
    for line in ["", ",", "a", "a,b,c,d,e,f,g", ",,,,,,", "x,,y,,z,,w,,"] {
        let expected: Vec<&str> = line.split(',').skip(4).collect();
        assert_eq!(variants_of(line), expected, "{:?}", line);
    }
}

#[test]
fn every_variant_of_a_record_is_checked() {
    let line = "x,x,x,x,_RNvC6_123foo3bar,_ZN3foo3barE,plain";
    let verdicts: Vec<Verdict> = variants_of(line).into_iter().map(check_variant).collect();
    assert_eq!(
        verdicts,
        vec![Verdict::Agree, Verdict::Agree, Verdict::NotMangled]
    );
}
