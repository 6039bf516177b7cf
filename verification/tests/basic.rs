use rust_demangle::try_demangle;

fn ok(sym: &str, expected: &str) -> bool {
    match try_demangle(sym) {
        Ok(s) => {
            if s.to_string() == expected {
                true
            } else {
                println!("\n{}\n!=\n{}\n", s.to_string(), expected);
                false
            }
        }
        Err(_) => {
            println!("error demangling");
            false
        }
    }
}

fn ok_err(sym: &str) -> bool {
    match try_demangle(sym) {
        Ok(_) => {
            println!("succeeded in demangling");
            false
        }
        Err(_) => rust_demangle::demangle(sym).to_string() == sym,
    }
}

#[test]
fn demangle() {
    assert!(ok_err("test"));
    assert!(ok("_ZN4testE", "test"));
    assert!(ok_err("_ZN4test"));
    assert!(ok("_ZN4test1a2bcE", "test::a::bc"));
}
