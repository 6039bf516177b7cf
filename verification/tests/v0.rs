use rust_demangle::{demangle, try_demangle};

fn t(a: &str, b: &str) {
    assert_eq!(demangle(a).to_string(), b);
}

fn t_nohash(a: &str, b: &str) {
    assert_eq!(demangle(a).to_string_alternate(), b);
}

fn t_nohash_type(a: &str, b: &str) {
    t_nohash(&format!("_RMC0{}", a), &format!("<{}>", b));
}

fn t_const(mangled: &str, value: &str) {
    t_nohash(&format!("_RIC0K{}E", mangled), &format!("::<{}>", value));
}

fn t_const_suffixed(mangled: &str, value: &str, suffix: &str) {
    t_const(mangled, value);
    t(
        &format!("_RIC0K{}E", mangled),
        &format!("::<{}{}>", value, suffix),
    );
}

#[test]
fn demangle_crate_with_leading_digit() {
    t_nohash("_RNvC6_123foo3bar", "123foo::bar");
}

#[test]
fn demangle_crate_with_zero_disambiguator() {
    t("_RC4f128", "f128");
    t_nohash("_RC4f128", "f128");
}

#[test]
fn demangle_crate_with_disambiguator() {
    t("_RNvCs4fqI2P2rA04_11utf8_idents3foo", "utf8_idents[317d481089b8c8fe]::foo");
    t_nohash("_RNvCs4fqI2P2rA04_11utf8_idents3foo", "utf8_idents::foo");
}

#[test]
fn demangle_utf8_idents() {
    t_nohash(
        "_RNqCs4fqI2P2rA04_11utf8_identsu30____7hkackfecea1cbdathfdh9hlq6y",
        "utf8_idents::საჭმელად_გემრიელი_სადილი",
    );
}

#[test]
fn demangle_closure() {
    t_nohash(
        "_RNCNCNgCs6DXkGYLi8lr_2cc5spawn00B5_",
        "cc::spawn::{closure#0}::{closure#0}",
    );
    t_nohash(
        "_RNCINkXs25_NgCsbmNqQUJIY6D_4core5sliceINyB9_4IterhENuNgNoBb_4iter8iterator8Iterator9rpositionNCNgNpB9_6memchr7memrchrs_0E0Bb_",
        "<core::slice::Iter<u8> as core::iter::iterator::Iterator>::rposition::<core::slice::memchr::memrchr::{closure#1}>::{closure#0}",
    );
}

#[test]
fn demangle_dyn_trait() {
    t_nohash(
        "_RINbNbCskIICzLVDPPb_5alloc5alloc8box_freeDINbNiB4_5boxed5FnBoxuEp6OutputuEL_ECs1iopQbuBiw2_3std",
        "alloc::alloc::box_free::<dyn alloc::boxed::FnBox<(), Output = ()>>",
    );
}

#[test]
fn demangle_dyn_trait_assoc_const_binding() {
    t_nohash_type("DNtC5krate5Traitp1NKj0_EL_", "dyn krate::Trait<N = 0>");
}

#[test]
fn demangle_pat_ty() {
    t_nohash_type("WmRm1_m9_", "u32 is 1..=9");
    t_nohash_type("WmORm1_m2_Rm5_m6_E", "u32 is 1..=2 | 5..=6");
    assert!(try_demangle("_RMC0WmORm1_m2_Rm5_m6_").is_err());
}

#[test]
fn demangle_splat() {
    t_nohash(
        "_RNvMNtCs5CcWRJzwAYz_4core6optionINtB2_6OptionFwTlEEuE6unwrapCsiksvdpJ6Jnj_14splat_mangling",
        "<core::option::Option<fn(#[splat] (i32,))>>::unwrap",
    );
    t_nohash(
        "_RMNvCsiksvdpJ6Jnj_14splat_mangling4mainINtB0_4TypeFwThmEEuE",
        "<splat_mangling::main::Type<fn(#[splat] (u8, u32))>>",
    );
    t_nohash(
        "_RMs0_NvCsiksvdpJ6Jnj_14splat_mangling4mainINtB3_4TypeFwTThmEEEuE",
        "<splat_mangling::main::Type<fn(#[splat] ((u8, u32),))>>",
    );
    t_nohash(
        "_RMs2_NvCsiksvdpJ6Jnj_14splat_mangling4mainINtB3_4TypePFwTmaEEuE",
        "<splat_mangling::main::Type<*const fn(#[splat] (u32, i8))>>",
    );
    t_nohash(
        "_RMs4_NvCsiksvdpJ6Jnj_14splat_mangling4mainINtB3_4TypeFwTmaEdEuE",
        "<splat_mangling::main::Type<fn(#[splat] (u32, i8), f64)>>",
    );
}

#[test]
fn demangle_const_generics_preview() {
    t_nohash_type("INtC8arrayvec8ArrayVechKj7b_E", "arrayvec::ArrayVec<u8, 123>");
    t_const_suffixed("j7b_", "123", "usize");
}

#[test]
fn demangle_min_const_generics() {
    t_const("p", "_");
    t_const_suffixed("hb_", "11", "u8");
    t_const_suffixed("off00ff00ff00ff00ff_", "0xff00ff00ff00ff00ff", "u128");
    t_const_suffixed("s98_", "152", "i16");
    t_const_suffixed("anb_", "-11", "i8");
    t_const("b0_", "false");
    t_const("b1_", "true");
    t_const("c76_", "'v'");
    t_const("c22_", r#"'"'"#);
    t_const("ca_", "'\\n'");
    t_const("c2202_", "'∂'");
}

#[test]
fn demangle_const_str() {
    t_const("e616263_", "{*\"abc\"}");
    t_const("e27_", r#"{*"'"}"#);
    t_const("e090a_", "{*\"\\t\\n\"}");
    t_const("ee28882c3bc_", "{*\"∂ü\"}");
    t_const(
        "ee183a1e18390e183ade1839be18394e1839ae18390e183935fe18392e18394e1839b\
         e183a0e18398e18394e1839ae183985fe183a1e18390e18393e18398e1839ae18398_",
        "{*\"საჭმელად_გემრიელი_სადილი\"}",
    );
    t_const(
        "ef09f908af09fa688f09fa686f09f90ae20c2a720f09f90b6f09f9192e298\
         95f09f94a520c2a720f09fa7a1f09f929bf09f929af09f9299f09f929c_",
        "{*\"🐊🦈🦆🐮 § 🐶👒☕🔥 § 🧡💛💚💙💜\"}",
    );
}

#[test]
fn demangle_const_ref_str() {
    t_const("Re616263_", "\"abc\"");
    t_const("Re27_", r#""'""#);
    t_const("Re090a_", "\"\\t\\n\"");
    t_const("Ree28882c3bc_", "\"∂ü\"");
    t_const(
        "Ree183a1e18390e183ade1839be18394e1839ae18390e183935fe18392e18394e1839b\
         e183a0e18398e18394e1839ae183985fe183a1e18390e18393e18398e1839ae18398_",
        "\"საჭმელად_გემრიელი_სადილი\"",
    );
    t_const(
        "Ref09f908af09fa688f09fa686f09f90ae20c2a720f09f90b6f09f9192e298\
         95f09f94a520c2a720f09fa7a1f09f929bf09f929af09f9299f09f929c_",
        "\"🐊🦈🦆🐮 § 🐶👒☕🔥 § 🧡💛💚💙💜\"",
    );
}

#[test]
fn demangle_const_ref() {
    t_const("Rp", "{&_}");
    t_const("Rh7b_", "{&123}");
    t_const("Rb0_", "{&false}");
    t_const("Rc58_", "{&'X'}");
    t_const("RRRh0_", "{&&&0}");
    t_const("RRRe_", "{&&\"\"}");
    t_const("QAE", "{&mut []}");
}

#[test]
fn demangle_const_array() {
    t_const("AE", "{[]}");
    t_const("Aj0_E", "{[0]}");
    t_const("Ah1_h2_h3_E", "{[1, 2, 3]}");
    t_const("ARe61_Re62_Re63_E", "{[\"a\", \"b\", \"c\"]}");
    t_const("AAh1_h2_EAh3_h4_EE", "{[[1, 2], [3, 4]]}");
}

#[test]
fn demangle_const_tuple() {
    t_const("TE", "{()}");
    t_const("Tj0_E", "{(0,)}");
    t_const("Th1_b0_E", "{(1, false)}");
    t_const("TRe616263_c78_RAh1_h2_h3_EE", "{(\"abc\", 'x', &[1, 2, 3])}");
}

#[test]
fn demangle_const_adt() {
    t_const(
        "VNvINtNtC4core6option6OptionjE4NoneU",
        "{core::option::Option::<usize>::None}",
    );
    t_const(
        "VNvINtNtC4core6option6OptionjE4SomeTj0_E",
        "{core::option::Option::<usize>::Some(0)}",
    );
    t_const(
        "VNtC3foo3BarS1sRe616263_2chc78_5sliceRAh1_h2_h3_EE",
        "{foo::Bar { s: \"abc\", ch: 'x', slice: &[1, 2, 3] }}",
    );
}

#[test]
fn demangle_exponential_explosion() {
    t_nohash_type(
        "TTTTTTpB8_EB7_EB6_EB5_EB4_EB3_E",
        "((((((_, _), (_, _)), ((_, _), (_, _))), (((_, _), (_, _)), ((_, _), (_, _)))), \
         ((((_, _), (_, _)), ((_, _), (_, _))), (((_, _), (_, _)), ((_, _), (_, _))))), \
         (((((_, _), (_, _)), ((_, _), (_, _))), (((_, _), (_, _)), ((_, _), (_, _)))), \
         ((((_, _), (_, _)), ((_, _), (_, _))), (((_, _), (_, _)), ((_, _), (_, _))))))",
    );
}

#[test]
fn demangle_v0_thinlto() {
    t_nohash("_RC3foo.llvm.9D1C9369", "foo");
    t_nohash("_RC3foo.llvm.9D1C9369@@16", "foo");
    t_nohash("_RNvC9backtrace3foo.llvm.A5310EB9", "backtrace::foo");
}

#[test]
fn demangle_extra_suffix() {
    t_nohash(
        "_RNvNtNtNtNtCs92dm3009vxr_4rand4rngs7adapter9reseeding4fork23FORK_HANDLER_REGISTERED.0.0",
        "rand::rngs::adapter::reseeding::fork::FORK_HANDLER_REGISTERED.0.0",
    );
}

#[test]
fn demangling_limits() {
    assert!(demangle(
        "RIC20tRYIMYNRYFG05_EB5_B_B6_RRRRRRRRRRRRRRRRRRRRRRRRRRRRRRRRRR\
         RRRRRRRRRRRRRRRRRRRRRRRRRRRRRRRRRRRRRRRRRRRRRRRRRRRRRRRRRRRRRRRRRRRB_E",
    )
    .to_string()
    .contains("{recursion limit reached}"));
}

#[test]
fn recursion_limit_leaks() {
    for &(sym_leaf, expected_leaf) in &[("p", "_"), ("Rp", "&_"), ("C1x", "x")] {
        let mut sym = format!("_RIC0p");
        let mut expected = format!("::<_");
        for _ in 0..1000 {
            sym.push_str(sym_leaf);
            expected.push_str(", ");
            expected.push_str(expected_leaf);
        }
        sym.push('E');
        expected.push('>');
        t_nohash(&sym, &expected);
    }
}

#[test]
fn recursion_limit_backref_free_bypass() {
    let depth = 100_000;
    let mut sym = format!("_RIC{}", depth);
    let backref_start = sym.len() - 2;
    for _ in 0..depth {
        sym.push('R');
    }
    sym.push('B');
    sym.push(char::from_digit((backref_start - 1) as u32, 36).unwrap());
    sym.push('_');
    sym.push('E');
    assert!(demangle(&sym)
        .to_string()
        .contains("{recursion limit reached}"));
}

#[test]
fn nested_depth_is_cut_at_the_limit() {
    // 499 references around a placeholder are walked, 500 are not.
    let within = format!("_RMC0{}p", "R".repeat(499));
    assert!(try_demangle(&within).is_ok());
    assert_eq!(
        demangle(&within).to_string(),
        format!("<{}_>", "&".repeat(499))
    );
    let beyond = format!("_RMC0{}p", "R".repeat(500));
    assert!(try_demangle(&beyond).is_err());
    assert_eq!(demangle(&beyond).to_string(), beyond);
}

fn nested_trait_objects(levels: usize) -> String {
    let mut sym = String::from("_RMC0");
    for _ in 0..levels {
        sym.push_str("DIC1a");
    }
    sym.push('u');
    for _ in 0..levels {
        sym.push_str("EEL_");
    }
    sym
}

#[test]
fn deep_nesting_of_trait_objects_is_walked() {
    let sym = nested_trait_objects(400);
    let theirs = rustc_demangle::demangle(&sym);
    assert_eq!(demangle(&sym).to_string(), format!("{}", theirs));
    let text = demangle(&sym).to_string();
    assert!(text.starts_with("<dyn a<dyn a<dyn a<"), "{}", &text[..40]);
    assert!(text.contains("<dyn a<()>>>>"));
    assert_eq!(text.len(), 1 + 400 * 6 + 2 + 400 + 1);
    assert!(try_demangle(&sym).is_ok());
}

#[test]
fn nesting_of_trait_objects_beyond_the_limit_is_rejected() {
    let sym = nested_trait_objects(600);
    assert!(try_demangle(&sym).is_err());
    assert!(rustc_demangle::try_demangle(&sym).is_err());
    assert_eq!(demangle(&sym).to_string(), sym);
}

#[test]
fn nesting_behind_a_back_reference_ends_with_the_limit() {
    // The nesting hides in the name of the crate and is reached through a
    // back reference only when the name is written.
    let hidden = nested_trait_objects(600);
    let hidden = &hidden[5..];
    let start = 2 + hidden.len().to_string().len();
    let sym = format!("_RIC{}{}B{}_E", hidden.len(), hidden, start - 1);
    assert!(sym.len() > 1000);
    let theirs = rustc_demangle::demangle(&sym);
    let ours = demangle(&sym);
    assert!(ours.is_mangled());
    assert_eq!(ours.to_string(), format!("{}", theirs));
    assert_eq!(ours.to_string_alternate(), format!("{:#}", theirs));
    assert!(ours.to_string().contains("{recursion limit reached}"));
}
