//! The renderings of this crate, held against those of `rustc-demangle`.

use rust_demangle::{demangle, try_demangle};

const MANGLED: &[&str] = &[
    "_ZN4testE",
    "_ZN4test1a2bcE",
    "_ZN4$RP$E",
    "_ZN8$RF$testE",
    "_ZN8$BP$test4foobE",
    "_ZN9$u20$test4foobE",
    "_ZN35Bar$LT$$u5b$u32$u3b$$u20$4$u5d$$GT$E",
    "_ZN13test$u20$test4foobE",
    "_ZN12test$BP$test4foobE",
    "__ZN5alloc9allocator6Layout9for_value17h02a996811f781011E",
    "__ZN38_$LT$core..option..Option$LT$T$GT$$GT$6unwrap18_MSG_FILE_LINE_COL17haf7cb8d5824ee659E",
    "ZN4testE",
    "ZN13test$u20$test4foobE",
    "_ZN13_$LT$test$GT$E",
    "_ZN28_$u7b$$u7b$closure$u7d$$u7d$E",
    "_ZN15__STATIC_FMTSTRE",
    "_ZN71_$LT$Test$u20$$u2b$$u20$$u27$static$u20$as$u20$foo..Bar$LT$Test$GT$$GT$3barE",
    "_ZN3foo17h05af221e174051e9E",
    "_ZN3foo20h05af221e174051e9abcE",
    "_ZN3foo5h05afE",
    "_ZN3foo1hE",
    "_ZN3foo17h05AF221E174051E9E",
    "_ZN17h05af221e174051e93fooE",
    "_ZN3foo16ffaf221e174051e9E",
    "_ZN3foo17hg5af221e174051e9E",
    "_ZN3fooE.llvm.9D1C9369",
    "_ZN3fooE.llvm.9D1C9369@@16",
    "_ZN9backtrace3foo17hbb467fcdaea5d79bE.llvm.A5310EB9",
    "_ZN4core5slice77_$LT$impl$u20$core..ops..index..IndexMut$LT$I$GT$$u20$for$u20$$u5b$T$u5d$$GT$9index_mut17haf9727c2edfbc47bE.exit.i.i",
    "_ZN3a.b3c.dE",
    "_ZN4a..b1.E",
    "_ZN6a$XX$b5$SP$xE",
    "_ZN5$u0a$3fooE",
    "_ZN6$u7f$a3fooE",
    "_ZN9$ud800$ab3fooE",
    "_ZN7$u41$ab3fooE",
    "_ZN8$u0041$x3fooE",
    "_ZN12$u110000$abc3fooE",
    "_ZN16$uffffffffff$abc3fooE",
    "_ZN4$u$a3fooE",
    "_ZN5$uAB$3fooE",
    "_ZN3$C$3fooE",
    "_ZN2$a3fooE",
    "_ZN03foo0E",
    "_ZN003fooE",
    "_ZN1E1EE",
    "_ZN2_$3fooE",
    "_ZN10_$LT$a$GT$3fooE",
    "_ZN3fooE.foo.bar",
    "_RNvC6_123foo3bar",
    "_RC4f128",
    "_RNvCs4fqI2P2rA04_11utf8_idents3foo",
    "_RNqCs4fqI2P2rA04_11utf8_identsu30____7hkackfecea1cbdathfdh9hlq6y",
    "_RNCNCNgCs6DXkGYLi8lr_2cc5spawn00B5_",
    "_RNCINkXs25_NgCsbmNqQUJIY6D_4core5sliceINyB9_4IterhENuNgNoBb_4iter8iterator8Iterator9rpositionNCNgNpB9_6memchr7memrchrs_0E0Bb_",
    "_RINbNbCskIICzLVDPPb_5alloc5alloc8box_freeDINbNiB4_5boxed5FnBoxuEp6OutputuEL_ECs1iopQbuBiw2_3std",
    "_RMC0DNtC5krate5Traitp1NKj0_EL_",
    "_RMC0WmRm1_m9_",
    "_RMC0WmORm1_m2_Rm5_m6_E",
    "_RMC0WmN",
    "_RNvMNtCs5CcWRJzwAYz_4core6optionINtB2_6OptionFwTlEEuE6unwrapCsiksvdpJ6Jnj_14splat_mangling",
    "_RMC0INtC8arrayvec8ArrayVechKj7b_E",
    "_RIC0Kj7b_E",
    "_RIC0KpE",
    "_RIC0Koff00ff00ff00ff00ff_E",
    "_RIC0Kanb_E",
    "_RIC0Kb0_E",
    "_RIC0Kb1_E",
    "_RIC0Kc76_E",
    "_RIC0Kc22_E",
    "_RIC0Kc27_E",
    "_RIC0Kca_E",
    "_RIC0Kc0_E",
    "_RIC0Kc7f_E",
    "_RIC0Kc300_E",
    "_RIC0Kc2202_E",
    "_RIC0Ke616263_E",
    "_RIC0Ke27_E",
    "_RIC0Ke22_E",
    "_RIC0Ke090a_E",
    "_RIC0Kee28882c3bc_E",
    "_RIC0KRe616263_E",
    "_RIC0KRpE",
    "_RIC0KRRRh0_E",
    "_RIC0KQAEE",
    "_RIC0KAh1_h2_h3_EE",
    "_RIC0KTj0_EE",
    "_RIC0KTh1_b0_EE",
    "_RIC0KVNvINtNtC4core6option6OptionjE4NoneUE",
    "_RIC0KVNvINtNtC4core6option6OptionjE4SomeTj0_EE",
    "_RIC0KVNtC3foo3BarS1sRe616263_2chc78_5sliceRAh1_h2_h3_EEE",
    "_RMC0TTTTTTpB8_EB7_EB6_EB5_EB4_EB3_E",
    "_RC3foo.llvm.9D1C9369",
    "_RNvC9backtrace3foo.llvm.A5310EB9",
    "_RNvNtNtNtNtCs92dm3009vxr_4rand4rngs7adapter9reseeding4fork23FORK_HANDLER_REGISTERED.0.0",
    "_RNvB_1a",
    "_RNvB0_1a",
    "_RMC0RB2_",
    "RYFG_FGyyEvRYFF_EvRYFFEvERLB_B_B_ERLRjB_B_B_",
    "_RMC0FGZZZ_Eu",
    "_RMC0FG_RL0_lEu",
    "_RMC0FG0_RL1_RL0_lEu",
    "_RMC0FUKCEu",
    "_RMC0FUK21C_cmse_nonsecure_callEu",
    "_RMC0RL_l",
    "_RMC0QL_l",
    "_RMC0RL0_l",
    "_RMC0Pl",
    "_RMC0Ol",
    "_RMC0Sl",
    "_RMC0TE",
    "_RMC0TlE",
    "_RMC0TlmE",
    "_RMC0DEL_",
    "_RMC0DG_NtC1a1bEL0_",
    "_RMC0DNtC1a1bNtC1c1dEL_",
    "_RMC0DINtC1a1blEp1XmEL_",
    "_RMC0DNtC1a1bp1Xmp1YKj0_EL_",
    "_RXC0lNtC1a1b",
    "_RYlNtC1a1b",
    "_RNSC1a1b",
    "_RNZC1a0",
    "_RNaC1a0",
    "_RNCNvC1a1bs_0",
    "_RNvC0u1a",
    "_RC1aC1b",
    "__RC1a",
    "RC1a",
    "_RNvC1a1b.exit.i",
    "_RNvC1a0",
    "_RMC0Alj3_",
    "_RMC0FK9thumb_abiEl",
    "_RNvC1au1a",
    "_RNvC1au3a_9",
    "_RNvC1au2aa",
];

const NOT_MANGLED: &[&str] = &[
    "_RNvC1au29",
    "_ZN5*70527a54.ll34_$b.1E",
    "_RIC0Kb2_E",
    "_RIC0Kcd800_E",
    "_RIC0Kc110000_E",
    "_RIC0Kec0_E",
    "_RIC0Ke6_E",
    "_RIC0Keff_E",
    "_RIC0Kee288_E",
    "_RMC0FK5thumb_abiEl",
    "_RMC0FKu3abcEu",
    "_RMC0AlKj3_",
    "_RNvC1aua",
    "_RNvC1au8a_a",
    "_RNvC1au3a_0aa",
    "_RNvC1au00",
    "",
    "test",
    "_ZN4test",
    "_ZNfooE",
    "_ZN3fooE.llvm moocow",
    "_ZN5*70527e27.ll34csaғE",
    "_ZN3fooEbar",
    "_ZN3fooE ",
    "_ZN3fooE.a b",
    "_ZN3foo",
    "_ZN4fooE",
    "_ZN99999999999999999999999999993fooE",
    "_ZN2222222222222222222222EE",
    "_R",
    "R",
    "__R",
    "_Rc1a",
    "_RC",
    "_RC1",
    "_RC2a",
    "_RNvC1a",
    "_RMC0",
    "_RMC0WmORm1_m2_Rm5_m6_",
    "_RNvC1a1bé",
    "_RC1a!",
    "_RIC0KcE",
    "_RB_",
    "_RNvC1a1bs",
    "_RMC0R",
    "la la la",
    "_ZN",
    "ZN",
];

#[test]
fn mangled_names_render_as_in_rustc_demangle() {
    let wrong: Vec<&&str> = MANGLED
        .iter()
        .filter(|s| rustc_demangle::try_demangle(s).is_err())
        .collect();
    assert!(wrong.is_empty(), "not mangled for rustc-demangle: {:?}", wrong);
    for sym in MANGLED {
        let theirs = rustc_demangle::try_demangle(sym).unwrap();
        let ours = try_demangle(sym);
        assert!(ours.is_ok(), "{:?} was not recognised", sym);
        let ours = ours.unwrap();
        assert_eq!(ours.to_string(), format!("{}", theirs), "verbose, {:?}", sym);
        assert_eq!(
            ours.to_string_alternate(),
            format!("{:#}", theirs),
            "terse, {:?}",
            sym
        );
    }
}

#[test]
fn other_strings_are_rejected_as_in_rustc_demangle() {
    let wrong: Vec<&&str> = NOT_MANGLED
        .iter()
        .filter(|s| rustc_demangle::try_demangle(s).is_ok())
        .collect();
    assert!(wrong.is_empty(), "mangled for rustc-demangle: {:?}", wrong);
    for sym in NOT_MANGLED {
        assert!(try_demangle(sym).is_err(), "{:?} was recognised", sym);
        assert_eq!(demangle(sym).to_string(), *sym);
        assert_eq!(demangle(sym).to_string_alternate(), *sym);
        assert_eq!(format!("{}", rustc_demangle::demangle(sym)), *sym);
    }
}

#[test]
fn every_prefix_of_a_mangled_name_is_handled_alike() {
    for sym in MANGLED {
        for (end, _) in sym.char_indices() {
            let part = &sym[..end];
            let theirs = rustc_demangle::try_demangle(part);
            // A legacy name without elements is not accepted here.
            if part.ends_with("ZNE") {
                continue;
            }
            match (try_demangle(part), theirs) {
                (Ok(ours), Ok(theirs)) => {
                    assert_eq!(ours.to_string(), format!("{}", theirs), "verbose, {:?}", part);
                    assert_eq!(
                        ours.to_string_alternate(),
                        format!("{:#}", theirs),
                        "terse, {:?}",
                        part
                    );
                }
                (Err(_), Err(_)) => assert_eq!(demangle(part).to_string(), part),
                (ours, theirs) => panic!(
                    "{:?}: recognised here: {}, by rustc-demangle: {}",
                    part,
                    ours.is_ok(),
                    theirs.is_ok()
                ),
            }
        }
    }
}

fn with_one_byte_changed(legacy: bool) {
    let swaps: &[u8] = b"E_0s9BIKLNpRuCG$.h";
    for sym in MANGLED {
        if sym.len() > 100 || sym.contains("ZN") != legacy {
            continue;
        }
        if demangle(sym).to_string().len() > 1000 {
            continue;
        }
        let bytes = sym.as_bytes();
        for i in 0..bytes.len() {
            for &b in swaps {
                let mut changed = bytes.to_vec();
                changed[i] = b;
                let changed = String::from_utf8(changed).unwrap();
                if changed.contains(".llvm.") || changed.contains("ZNE") {
                    continue;
                }
                let theirs = rustc_demangle::demangle(&changed);
                let ours = demangle(&changed);
                assert_eq!(ours.to_string(), format!("{}", theirs), "verbose, {:?}", changed);
                assert_eq!(
                    ours.to_string_alternate(),
                    format!("{:#}", theirs),
                    "terse, {:?}",
                    changed
                );
                assert_eq!(
                    try_demangle(&changed).is_ok(),
                    rustc_demangle::try_demangle(&changed).is_ok(),
                    "{:?}",
                    changed
                );
            }
        }
    }
}

#[test]
fn a_legacy_name_with_one_byte_changed_is_handled_alike() {
    with_one_byte_changed(true);
}

#[test]
fn a_v0_name_with_one_byte_changed_is_handled_alike() {
    with_one_byte_changed(false);
}
