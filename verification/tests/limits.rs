//! Renderings that reach the size limit, held against `rustc-demangle`:
//! both have to stop behind the same chunk of text.

use rust_demangle::demangle;
use rust_demangle::sink::MAX_SIZE;

const BASE_62: &[u8] = b"0123456789abcdefghijklmnopqrstuvwxyzABCDEFGHIJKLMNOPQRSTUVWXYZ";

fn backref(target: usize) -> String {
    if target == 0 {
        return "B_".to_string();
    }
    let mut n = target - 1;
    let mut digits = Vec::new();
    loop {
        digits.push(BASE_62[n % 62] as char);
        n /= 62;
        if n == 0 {
            break;
        }
    }
    let digits: String = digits.iter().rev().collect();
    format!("B{}_", digits)
}

/// `levels` tuples in each other, each of a type and a reference back to
/// that type, around `leaf`: two to the power of `levels` copies of it.
fn doubling(leaf: &str, levels: usize) -> String {
    let mut sym = String::from("_RMC0");
    for _ in 0..levels {
        sym.push('T');
    }
    sym.push_str(leaf);
    for level in 0..levels {
        sym.push_str(&backref(3 + levels - level));
        sym.push('E');
    }
    sym
}

fn compare(sym: &str) -> String {
    let theirs = rustc_demangle::demangle(sym);
    let ours = demangle(sym);
    let verbose = ours.to_string();
    assert!(verbose == format!("{}", theirs), "verbose, {:?}", &sym[..sym.len().min(80)]);
    assert!(
        ours.to_string_alternate() == format!("{:#}", theirs),
        "terse, {:?}",
        &sym[..sym.len().min(80)]
    );
    verbose
}

fn cut_off(leaves: &[&str]) {
    for leaf in leaves {
        let mut levels = 18;
        loop {
            let text = compare(&doubling(leaf, levels));
            if text.len() > MAX_SIZE {
                assert!(text.ends_with("{size limit reached}"), "{:?}", leaf);
                assert!(text.len() <= MAX_SIZE + 20, "{:?}", leaf);
                break;
            }
            levels += 1;
            assert!(levels < 22, "{:?}", leaf);
        }
    }
}

#[test]
fn doubled_paths_are_cut_off_where_rustc_demangle_cuts_them_off() {
    cut_off(&[
        "C7abcdefg",
        "NvC1a1b",
        "NCNvC1a1bs_0",
        "Cs1a_1b",
        "Cu3a_9",
        "Cu5a_tda",
        "INtC1a1bL_E",
        "B_",
    ]);
}

#[test]
fn doubled_types_are_cut_off_where_rustc_demangle_cuts_them_off() {
    cut_off(&[
        "p",
        "RL_p",
        "QNtC1a1b",
        "Pu",
        "TpE",
        "FEu",
        "FUKCpEp",
        "FK5a_b_cEu",
        "wTpE",
    ]);
}

#[test]
fn doubled_binders_are_cut_off_where_rustc_demangle_cuts_them_off() {
    cut_off(&[
        "FG_RL0_pEu",
        "DNtC1a1bEL_",
        "DG_INtC1a1bRL0_pEp1XuEL_",
        "WmRm1_m9_",
        "WuN",
    ]);
}

#[test]
fn doubled_constants_are_cut_off_where_rustc_demangle_cuts_them_off() {
    cut_off(&[
        "Ahj5_",
        "Aho10000000000000000_",
        "Alanb_",
        "INtC1a1bKc2202_E",
        "INtC1a1bKca_E",
        "INtC1a1bKee28882c3bc0a_E",
        "INtC1a1bKRe616263_E",
        "INtC1a1bKTb0_b1_EE",
        "INtC1a1bKVNtC1a1cS1xh1_EE",
    ]);
}

#[test]
fn the_limit_is_reached_exactly_or_not_at_all() {
    // Each copy of the leaf is one chunk of five bytes behind a separator.
    let text = compare(&doubling("C5abcde", 18));
    assert!(text.ends_with("{size limit reached}"));
    let written = text.len() - 20;
    assert!(written <= MAX_SIZE && written > MAX_SIZE - 8);
}

struct Rng(u64);

impl Rng {
    fn below(&mut self, n: usize) -> usize {
        self.0 ^= self.0 << 13;
        self.0 ^= self.0 >> 7;
        self.0 ^= self.0 << 17;
        (self.0 % n as u64) as usize
    }
}

fn long_legacy_name(seed: u64, elements: usize) -> String {
    let pieces = [
        "a", "bc", "def", "$SP$", "$LT$", "$GT$", "$u20$", "$u2202$", "$u1f40a$", "..", ".",
        "$C$", "_", "h", "x0", "$RF$", "$u7b$", "xyz",
    ];
    let mut rng = Rng(seed);
    let mut sym = String::from("_ZN");
    for _ in 0..elements {
        let mut element = String::new();
        for _ in 0..1 + rng.below(6) {
            element.push_str(pieces[rng.below(pieces.len())]);
        }
        sym.push_str(&element.len().to_string());
        sym.push_str(&element);
    }
    sym.push_str("17h05af221e174051e9E");
    sym
}

#[test]
fn long_legacy_names_are_cut_off_where_rustc_demangle_cuts_them_off() {
    for seed in 1..=6 {
        let text = compare(&long_legacy_name(seed * 0x9E3779B97F4A7C15, 200_000));
        assert!(text.ends_with("{size limit reached}"));
        assert!(text.len() <= MAX_SIZE + 20);
    }
    // A name just below the limit is written whole, hash and suffix too.
    let text = compare(&long_legacy_name(7, 1000));
    assert!(text.ends_with("::h05af221e174051e9"));
}

#[test]
fn a_suffix_comes_behind_the_note() {
    let sym = format!("{}.exit.i", doubling("C5abcde", 18));
    let text = compare(&sym);
    assert!(text.ends_with("{size limit reached}.exit.i"));
    let sym = format!("{}.x.llvm.123", long_legacy_name(3, 200_000));
    let text = compare(&sym);
    assert!(text.ends_with("{size limit reached}.x"));
}
