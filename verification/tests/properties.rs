use rust_demangle::sink::MAX_SIZE;
use rust_demangle::{demangle, demangle_with_flags, try_demangle, NotMangled};

#[test]
fn a_string_that_is_not_mangled_comes_back_unchanged() {
    for x in [
        "",
        "main",
        "_ZNfooE",
        "_ZN",
        "_ZNE",
        "__ZNE",
        "foo.llvm.1234",
        "_ZN3foo.llvm.ABCD",
        "_ZN3fooE.llvm moocow",
        "_R",
        "_RNvC6_123foo3ba",
        "საჭმელად",
        "a\0b",
        "_ZN3fooE\u{fffd}",
    ] {
        assert!(try_demangle(x).is_err(), "{:?}", x);
        assert!(!demangle(x).is_mangled(), "{:?}", x);
        assert_eq!(demangle(x).to_string(), x);
        assert_eq!(demangle(x).to_string_alternate(), x);
        assert_eq!(demangle(x).as_str(), x);
    }
}

#[test]
fn the_error_is_the_same_for_every_rejection() {
    assert_eq!(try_demangle("main").err(), Some(NotMangled));
    assert_eq!(try_demangle("_ZN4test").err(), Some(NotMangled));
    assert_eq!(try_demangle("_RNvB0_").err(), Some(NotMangled));
}

#[test]
fn a_legacy_name_needs_an_element() {
    assert!(try_demangle("_ZNE").is_err());
    assert!(try_demangle("ZNE").is_err());
    assert!(try_demangle("_ZN0E").is_ok());
    assert_eq!(demangle("_ZN0E").to_string(), "");
    assert_eq!(demangle("_ZN1aE").to_string(), "a");
}

#[test]
fn rendering_twice_gives_the_same_text() {
    for x in [
        "_ZN3foo17h05af221e174051e9E",
        "_RNvC6_123foo3bar",
        "_RNvB_1a",
        "main",
    ] {
        let d = demangle(x);
        assert_eq!(d.to_string(), d.to_string());
        assert_eq!(d.to_string_alternate(), demangle(x).to_string_alternate());
        assert_eq!(d.render(false), d.to_string());
        assert_eq!(d.render(true), d.to_string_alternate());
    }
}

#[test]
fn the_styles_differ_in_hashes_and_type_suffixes() {
    let d = demangle("_ZN3foo17h05af221e174051e9E");
    assert_eq!(d.to_string(), "foo::h05af221e174051e9");
    assert_eq!(d.to_string_alternate(), "foo");
    let d = demangle("_RNvCs4fqI2P2rA04_11utf8_idents3foo");
    assert_eq!(d.to_string(), "utf8_idents[317d481089b8c8fe]::foo");
    assert_eq!(d.to_string_alternate(), "utf8_idents::foo");
    let d = demangle("_RIC0Kj7b_E");
    assert_eq!(d.to_string(), "::<123usize>");
    assert_eq!(d.to_string_alternate(), "::<123>");
}

#[test]
fn the_flag_selects_the_style() {
    let sym = "_ZN3foo17h05af221e174051e9E";
    assert_eq!(demangle_with_flags(sym, 0), Some("foo".to_string()));
    assert_eq!(
        demangle_with_flags(sym, 1),
        Some("foo::h05af221e174051e9".to_string())
    );
    assert_eq!(
        demangle_with_flags(sym, -7),
        Some("foo::h05af221e174051e9".to_string())
    );
    assert_eq!(demangle_with_flags("", 0), None);
    assert_eq!(demangle_with_flags("", 1), None);
    assert_eq!(demangle_with_flags("main", 0), Some("main".to_string()));
}

#[test]
fn the_text_of_a_name_ends_at_the_size_limit() {
    let note = "{size limit reached}";
    for sym in [
        "RYFG_FGyyEvRYFF_EvRYFFEvERLB_B_B_ERLRjB_B_B_",
        "_RMC0FGZZZ_Eu",
    ] {
        for text in [demangle(sym).to_string(), demangle(sym).to_string_alternate()] {
            assert!(text.ends_with(note));
            assert!(text.len() <= MAX_SIZE + note.len() + sym.len());
            assert!(text.len() > MAX_SIZE - 8);
        }
    }
}

#[test]
fn a_long_legacy_name_is_cut_off_too() {
    let element = format!("{}{}", 9, "a".repeat(9));
    let mut sym = String::from("_ZN");
    for _ in 0..100_000 {
        sym.push_str(&element);
    }
    sym.push('E');
    let text = demangle(&sym).to_string();
    assert!(text.ends_with("{size limit reached}"));
    assert!(text.len() <= MAX_SIZE + 20);
    assert_eq!(text, format!("{}", rustc_demangle::demangle(&sym)));
}

#[test]
fn a_suffix_is_kept_behind_the_name() {
    assert_eq!(demangle("_ZN3fooE.exit.i.i").to_string(), "foo.exit.i.i");
    assert_eq!(demangle("_RC3foo.0.0").to_string(), "foo.0.0");
    assert_eq!(demangle("_ZN3fooE.exit.llvm.A0").to_string(), "foo.exit");
    assert!(try_demangle("_ZN3fooEexit").is_err());
    assert!(try_demangle("_ZN3fooE.ex it").is_err());
    // A tag in lower case is no marker; it is a suffix like any other.
    assert_eq!(demangle("_ZN3fooE.llvm.a0").to_string(), "foo.llvm.a0");
}

#[test]
fn identifiers_that_cannot_be_decoded_are_marked() {
    assert_eq!(
        demangle("_RNvC1au3a_9").to_string_alternate(),
        "a::punycode{a-9}"
    );
    assert_eq!(
        demangle("_RNvC1au2aa").to_string_alternate(),
        format!("{:#}", rustc_demangle::demangle("_RNvC1au2aa"))
    );
}

#[test]
fn lifetimes_are_named_by_their_binders() {
    assert_eq!(
        demangle("_RMC0FG_RL0_lEu").to_string_alternate(),
        "<for<'a> fn(&'a i32)>"
    );
    assert_eq!(
        demangle("_RMC0FG0_RL1_RL0_lEu").to_string_alternate(),
        "<for<'a, 'b> fn(&'a &'b i32)>"
    );
    assert_eq!(demangle("_RMC0RL_l").to_string_alternate(), "<&i32>");
}

#[test]
fn the_terse_text_of_a_legacy_name_begins_the_verbose_text() {
    for sym in [
        "_ZN3fooE",
        "_ZN3foo17h05af221e174051e9E",
        "_ZN3foo3bar1hE",
        "_ZN17h05af221e174051e93fooE",
        "_ZN1h1hE",
        "_ZN1hE",
        "_ZN13_$LT$test$GT$5h05afE",
        "__ZN4a..b7$u20$xy17hg5af221e174051e9E",
    ] {
        let d = demangle(sym);
        assert!(d.is_mangled(), "{:?}", sym);
        let verbose = d.to_string();
        let terse = d.to_string_alternate();
        assert!(verbose.starts_with(&terse), "{:?}", sym);
    }
    assert_eq!(demangle("_ZN1hE").to_string_alternate(), "");
    assert_eq!(demangle("_ZN1hE").to_string(), "h");
    assert_eq!(demangle("_ZN1h1hE").to_string_alternate(), "h");
    assert_eq!(demangle("_ZN1h1hE").to_string(), "h::h");
}

#[test]
fn a_mangled_name_is_ascii() {
    for sym in [
        "_ZN3fooé",
        "_ZN3féoE",
        "_ZN3fooE.é",
        "_ZN3fooE.llvm.é",
        "é_ZN3fooE",
        "_RNvC1a1bé",
        "_RNvC1aé1b",
    ] {
        assert!(try_demangle(sym).is_err(), "{:?}", sym);
        assert_eq!(demangle(sym).to_string(), sym);
    }
}
