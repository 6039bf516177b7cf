//! What a walk over a v0 symbol reads and writes, as mathematical functions
//! from state to state.
//!
//! A symbol is a path; paths, types and constants nest in each other and may
//! refer back to an earlier position of the symbol. Every function here takes
//! the state before a piece of the symbol and gives the state behind it. The
//! nesting depth is handed down, so that a symbol that refers to itself is
//! given up at a fixed depth.

use crate::cursor::{at, ident, integer_62, namespace, opt_integer_62, peek, is_upper, IdentSpan};
use crate::literal::{hex_value, print_chars, print_quoted, str_chars};
use crate::printer::{hex_nibbles, next_byte, Input, State, MAX_DEPTH};
use crate::punycode::{is_scalar_value, puny_decode};
use vstd::prelude::*;

verus! {

/// The kinds of element that a list between a tag and `E` may hold.
#[derive(Clone, Copy, PartialEq, Eq, Debug)]
pub enum Item {
    /// A lifetime, a type or a constant, as an argument of a generic path.
    GenericArg,
    /// A type.
    Type,
    /// A constant inside a value.
    Value,
    /// A trait of a trait object, with its bindings.
    DynTrait,
    /// A named field of a struct constant.
    Field,
}

/// What follows a `for<…>` binder.
#[derive(Clone, Copy, PartialEq, Eq, Debug)]
pub enum Binder {
    /// The signature of a function pointer.
    FnSig,
    /// The traits of a trait object.
    Dyn,
}

/// What a back reference stands for.
#[derive(Clone, Copy, PartialEq, Eq, Debug)]
pub enum Target {
    /// A path; the flag says whether it stands inside a value.
    Path(bool),
    /// A type.
    Type,
    /// A constant; the flag says whether it stands inside a value.
    Value(bool),
}

/// Levels that may still be entered below `depth`.
pub open spec fn fuel(depth: nat) -> nat {
    if depth <= MAX_DEPTH {
        (MAX_DEPTH - depth) as nat
    } else {
        0
    }
}

/// The name of a basic type.
pub open spec fn basic_type(tag: u8) -> Option<Seq<char>> {
    if tag == 'b' as u8 {
        Some("bool"@)
    } else if tag == 'c' as u8 {
        Some("char"@)
    } else if tag == 'e' as u8 {
        Some("str"@)
    } else if tag == 'u' as u8 {
        Some("()"@)
    } else if tag == 'a' as u8 {
        Some("i8"@)
    } else if tag == 's' as u8 {
        Some("i16"@)
    } else if tag == 'l' as u8 {
        Some("i32"@)
    } else if tag == 'x' as u8 {
        Some("i64"@)
    } else if tag == 'n' as u8 {
        Some("i128"@)
    } else if tag == 'i' as u8 {
        Some("isize"@)
    } else if tag == 'h' as u8 {
        Some("u8"@)
    } else if tag == 't' as u8 {
        Some("u16"@)
    } else if tag == 'm' as u8 {
        Some("u32"@)
    } else if tag == 'y' as u8 {
        Some("u64"@)
    } else if tag == 'o' as u8 {
        Some("u128"@)
    } else if tag == 'j' as u8 {
        Some("usize"@)
    } else if tag == 'f' as u8 {
        Some("f32"@)
    } else if tag == 'd' as u8 {
        Some("f64"@)
    } else if tag == 'z' as u8 {
        Some("!"@)
    } else if tag == 'p' as u8 {
        Some("_"@)
    } else if tag == 'v' as u8 {
        Some("..."@)
    } else {
        None
    }
}

/// Whether `tag` names an unsigned integer type.
pub open spec fn is_uint_tag(tag: u8) -> bool {
    tag == 'h' as u8 || tag == 't' as u8 || tag == 'm' as u8 || tag == 'y' as u8 || tag
        == 'o' as u8 || tag == 'j' as u8
}

/// Whether `tag` names a signed integer type.
pub open spec fn is_int_tag(tag: u8) -> bool {
    tag == 'a' as u8 || tag == 's' as u8 || tag == 'l' as u8 || tag == 'x' as u8 || tag
        == 'n' as u8 || tag == 'i' as u8
}

/// The ASCII part of an identifier.
pub open spec fn ascii_of(g: Input, id: IdentSpan) -> Seq<u8> {
    g.sym.subrange(id.ascii_start as int, id.ascii_end as int)
}

/// The Punycode part of an identifier.
pub open spec fn puny_of(g: Input, id: IdentSpan) -> Seq<u8> {
    g.sym.subrange(id.puny_start as int, id.puny_end as int)
}

/// Writes an identifier: decoded where it can be, and otherwise as it
/// stands in the symbol, a Punycode part marked as such.
pub open spec fn print_ident(g: Input, s: State, id: IdentSpan) -> State {
    if !s.printing {
        s
    } else {
        match puny_decode(ascii_of(g, id), puny_of(g, id)) {
            Some(cs) => print_chars(s, cs),
            None => if puny_of(g, id).len() > 0 {
                let a = s.print("punycode{"@);
                let b = if ascii_of(g, id).len() > 0 {
                    a.print_ascii(ascii_of(g, id)).print("-"@)
                } else {
                    a
                };
                b.print_ascii(puny_of(g, id)).print("}"@)
            } else {
                s.print_ascii(ascii_of(g, id))
            },
        }
    }
}

/// Writes the lifetime with the index `lt`: `'_` for zero, otherwise the
/// name of the bound lifetime that lies `lt` binders back, a letter for the
/// first 26 and a number after that.
pub open spec fn print_lifetime(s: State, lt: nat) -> State {
    if !s.printing {
        s
    } else {
        let a = s.print_char('\'');
        if lt == 0 {
            a.print("_"@)
        } else if lt > a.bound {
            a.invalid()
        } else {
            let depth = (a.bound - lt) as nat;
            if depth < 26 {
                a.print_char((('a' as u8) + depth) as char)
            } else {
                a.print("_"@).print_decimal(depth)
            }
        }
    }
}

/// Writes the names of the lifetimes that a binder binds, from the `i`-th
/// of `n` on, each bound before it is named.
pub open spec fn binder_names(s: State, n: nat, i: nat) -> State
    decreases n - i,
{
    if i >= n || s.out.failed {
        s
    } else {
        let a = if i > 0 {
            s.print(", "@)
        } else {
            s
        };
        binder_names(print_lifetime(State { bound: a.bound + 1, ..a }, 1), n, i + 1)
    }
}

/// Writes an ABI name from `pos` on: the parts between `_`, joined by `-`.
pub open spec fn print_abi(g: Input, s: State, pos: nat, end: nat) -> State
    decreases end - pos,
{
    let stop = abi_part_end(g.sym, pos, end);
    let a = s.print_ascii(g.sym.subrange(pos as int, stop as int));
    if pos <= stop < end {
        print_abi(g, a.print("-"@), stop + 1, end)
    } else {
        a
    }
}

/// The first position in `pos..end` that holds `_`, or `end`.
pub open spec fn abi_part_end(sym: Seq<u8>, pos: nat, end: nat) -> nat
    decreases end - pos,
{
    if pos < end && !at(sym, pos, '_') {
        abi_part_end(sym, pos + 1, end)
    } else {
        pos
    }
}

/// The separator between the elements of a list.
pub open spec fn separator(kind: Item) -> Seq<char> {
    match kind {
        Item::DynTrait => " + "@,
        _ => ", "@,
    }
}

/// Order among the functions that work at one depth: each only calls
/// functions of a lower rank there.
pub open spec fn item_rank(kind: Item) -> nat {
    match kind {
        Item::DynTrait => 7,
        _ => 2,
    }
}

/// A path. `C` is a crate root, `N` a nested path, `M`, `X` and `Y` are
/// impls, `I` is a path with generic arguments, `B` a back reference.
pub open spec fn print_path(g: Input, s: State, depth: nat, in_value: bool) -> State
    decreases fuel(depth), 0nat, 0nat,
{
    let (s0, ok) = s.enter(depth);
    if !ok {
        s0
    } else {
        match s0.settle(next_byte(g.sym, s0.next)) {
            (s1, None) => s1,
            (s1, Some(tag)) => if tag == 'C' as u8 {
                path_crate(g, s1)
            } else if tag == 'N' as u8 {
                path_nested(g, s1, depth + 1, in_value)
            } else if tag == 'M' as u8 || tag == 'X' as u8 || tag == 'Y' as u8 {
                path_impl(g, s1, depth + 1, tag)
            } else if tag == 'I' as u8 {
                path_generic(g, s1, depth + 1, in_value)
            } else if tag == 'B' as u8 {
                backref(g, s1, depth + 1, Target::Path(in_value))
            } else {
                s1.invalid()
            },
        }
    }
}

/// A crate root: an optional disambiguator and a name. The disambiguator is
/// written in hexadecimal between brackets, in the verbose style only.
pub open spec fn path_crate(g: Input, s: State) -> State {
    match s.settle(opt_integer_62(g.sym, s.next, 's')) {
        (s1, None) => s1,
        (s1, Some(dis)) => match s1.settle(ident(g.sym, s1.next)) {
            (s2, None) => s2,
            (s2, Some(name)) => {
                let s3 = print_ident(g, s2, name);
                if s3.printing && !g.alt && dis != 0 {
                    s3.print("["@).print_hexadecimal(dis).print("]"@)
                } else {
                    s3
                }
            },
        },
    }
}

/// A nested path: a namespace, the path around it, a disambiguator and a
/// name. A special namespace is written as `::{kind:name#index}`.
pub open spec fn path_nested(g: Input, s: State, d: nat, in_value: bool) -> State
    decreases fuel(d), 12nat, 0nat,
{
    match s.settle(namespace(g.sym, s.next)) {
        (s1, None) => s1,
        (s1, Some(ns)) => {
            let s2 = print_path(g, s1, d, in_value);
            let s3 = if s2.err {
                s2.print("::"@)
            } else {
                s2
            };
            match s3.settle(opt_integer_62(g.sym, s3.next, 's')) {
                (s4, None) => s4,
                (s4, Some(dis)) => match s4.settle(ident(g.sym, s4.next)) {
                    (s5, None) => s5,
                    (s5, Some(name)) => match ns {
                        Some(c) => {
                            let a = s5.print("::{"@);
                            let b = if c == 'C' as u8 {
                                a.print("closure"@)
                            } else if c == 'S' as u8 {
                                a.print("shim"@)
                            } else {
                                a.print_char(c as char)
                            };
                            let e = if !name.is_empty() {
                                print_ident(g, b.print(":"@), name)
                            } else {
                                b
                            };
                            e.print("#"@).print_decimal(dis).print("}"@)
                        },
                        None => if !name.is_empty() {
                            print_ident(g, s5.print("::"@), name)
                        } else {
                            s5
                        },
                    },
                },
            }
        },
    }
}

/// Walks a path without writing it.
pub open spec fn skip_path(g: Input, s: State, d: nat) -> State
    decreases fuel(d), 11nat, 0nat,
{
    let a = print_path(g, State { printing: false, ..s }, d, false);
    State { printing: s.printing, ..a }
}

/// An impl: `<type>` for an inherent one, `<type as trait>` for a trait
/// impl. The path of the impl itself, where there is one, is not written.
pub open spec fn path_impl(g: Input, s: State, d: nat, tag: u8) -> State
    decreases fuel(d), 12nat, 0nat,
{
    if tag != 'Y' as u8 {
        match s.settle(opt_integer_62(g.sym, s.next, 's')) {
            (a, None) => a,
            (a, Some(_)) => path_impl_rest(g, skip_path(g, a, d), d, tag),
        }
    } else {
        path_impl_rest(g, s, d, tag)
    }
}

/// The written part of an impl.
pub open spec fn path_impl_rest(g: Input, s: State, d: nat, tag: u8) -> State
    decreases fuel(d), 11nat, 0nat,
{
    let a = print_type(g, s.print("<"@), d);
    let b = if tag != 'M' as u8 {
        print_path(g, a.print(" as "@), d, false)
    } else {
        a
    };
    b.print(">"@)
}

/// A path with generic arguments; inside a value `::` comes before `<`.
pub open spec fn path_generic(g: Input, s: State, d: nat, in_value: bool) -> State
    decreases fuel(d), 12nat, 0nat,
{
    let a = print_path(g, s, d, in_value);
    let b = if in_value {
        a.print("::"@)
    } else {
        a
    };
    sep_list(g, b.print("<"@), d, Item::GenericArg, 0).0.print(">"@)
}

/// What a back reference stands for, walked from where it points to.
pub open spec fn run_target(g: Input, s: State, d: nat, target: Target) -> State
    decreases fuel(d), 1nat, 0nat,
{
    match target {
        Target::Path(in_value) => print_path(g, s, d, in_value),
        Target::Type => print_type(g, s, d),
        Target::Value(in_value) => print_const(g, s, d, in_value),
    }
}

/// A back reference, behind its `B`: a base-62 position that lies before
/// the `B`. While writing, what stands at that position is walked one level
/// deeper, and reading goes on behind the reference whatever came of it.
pub open spec fn backref(g: Input, s: State, d: nat, target: Target) -> State
    decreases fuel(d), 2nat, 0nat,
{
    if s.out.failed {
        s
    } else if s.err {
        s.print("?"@)
    } else {
        match integer_62(g.sym, s.next) {
            None => s.invalid(),
            Some((i, p)) => if i + 1 >= s.next {
                s.invalid()
            } else if d + 1 > MAX_DEPTH {
                s.too_deep()
            } else if !s.printing {
                State { next: p, ..s }
            } else {
                let t = run_target(g, State { next: i, ..s }, d + 1, target);
                State { next: p, err: false, ..t }
            },
        }
    }
}

/// An argument of a generic path: `L` and a lifetime, `K` and a constant, or
/// a type.
pub open spec fn generic_arg(g: Input, s: State, d: nat) -> State
    decreases fuel(d), 1nat, 0nat,
{
    let (a, is_lifetime) = s.eat(g.sym, 'L');
    if is_lifetime {
        match a.settle(integer_62(g.sym, a.next)) {
            (b, None) => b,
            (b, Some(lt)) => print_lifetime(b, lt),
        }
    } else {
        let (b, is_const) = a.eat(g.sym, 'K');
        if is_const {
            print_const(g, b, d, false)
        } else {
            print_type(g, b, d)
        }
    }
}

/// One element of a list.
pub open spec fn item(g: Input, s: State, d: nat, kind: Item) -> State
    decreases fuel(d), item_rank(kind), 0nat,
{
    match kind {
        Item::GenericArg => generic_arg(g, s, d),
        Item::Type => print_type(g, s, d),
        Item::Value => print_const(g, s, d, true),
        Item::DynTrait => dyn_trait(g, s, d),
        Item::Field => struct_field(g, s, d),
    }
}

/// The elements of a list up to its closing `E`, separated, from the `i`-th
/// on: the state behind the list and the number of its elements. The list
/// ends early where the symbol is found malformed or the text is full.
pub open spec fn sep_list(g: Input, s: State, d: nat, kind: Item, i: nat) -> (State, nat)
    decreases fuel(d), item_rank(kind) + 1, s.remaining(g.sym),
{
    if s.out.failed || s.err {
        (s, i)
    } else if at(g.sym, s.next, 'E') {
        (State { next: s.next + 1, ..s }, i)
    } else {
        let a = if i > 0 {
            s.print(separator(kind))
        } else {
            s
        };
        let b = item(g, a, d, kind);
        if !b.out.failed && !b.err && b.remaining(g.sym) < s.remaining(g.sym) {
            sep_list(g, b, d, kind, i + 1)
        } else {
            (b, i + 1)
        }
    }
}

/// A type. A basic type is one letter; `R` and `Q` are references, `P` and
/// `O` raw pointers, `A` is an array, `S` a slice, `T` a tuple, `F` a
/// function pointer, `D` a trait object, `W` a pattern type, `B` a back
/// reference; anything else is a path.
pub open spec fn print_type(g: Input, s: State, depth: nat) -> State
    decreases fuel(depth), 0nat, 0nat,
{
    let (e, splat) = s.eat(g.sym, 'w');
    let s0 = if splat {
        e.print("#[splat] "@)
    } else {
        e
    };
    match s0.settle(next_byte(g.sym, s0.next)) {
        (s1, None) => s1,
        (s1, Some(tag)) => if basic_type(tag) is Some {
            s1.print(basic_type(tag).unwrap())
        } else {
            let (s2, ok) = s1.enter(depth);
            if !ok {
                s2
            } else {
                type_body(g, s2, depth + 1, tag)
            }
        },
    }
}

/// A type that is no basic type, behind its tag.
pub open spec fn type_body(g: Input, s: State, d: nat, tag: u8) -> State
    decreases fuel(d), 13nat, 0nat,
{
    if tag == 'R' as u8 || tag == 'Q' as u8 {
        type_ref(g, s, d, tag)
    } else if tag == 'P' as u8 || tag == 'O' as u8 {
        type_pointer(g, s, d, tag)
    } else if tag == 'A' as u8 || tag == 'S' as u8 {
        type_array(g, s, d, tag)
    } else if tag == 'T' as u8 {
        type_tuple(g, s, d)
    } else if tag == 'F' as u8 {
        in_binder(g, s, d, Binder::FnSig)
    } else if tag == 'D' as u8 {
        type_dyn(g, s, d)
    } else if tag == 'B' as u8 {
        backref(g, s, d, Target::Type)
    } else if tag == 'W' as u8 {
        print_pat(g, print_type(g, s, d).print(" is "@), d)
    } else {
        print_path(g, State { next: (s.next - 1) as nat, ..s }, d, false)
    }
}

/// A reference: `&`, a lifetime where one is given and is not the erased
/// one, `mut` for `Q`, and the type.
pub open spec fn type_ref(g: Input, s: State, d: nat, tag: u8) -> State
    decreases fuel(d), 12nat, 0nat,
{
    let a = s.print("&"@);
    let (b, has_lifetime) = a.eat(g.sym, 'L');
    if has_lifetime {
        match b.settle(integer_62(g.sym, b.next)) {
            (c, None) => c,
            (c, Some(lt)) => {
                let e = if lt != 0 {
                    print_lifetime(c, lt).print(" "@)
                } else {
                    c
                };
                type_ref_rest(g, e, d, tag)
            },
        }
    } else {
        type_ref_rest(g, b, d, tag)
    }
}

/// A raw pointer: `*const` for `P`, `*mut` for `O`, and the type.
pub open spec fn type_pointer(g: Input, s: State, d: nat, tag: u8) -> State
    decreases fuel(d), 12nat, 0nat,
{
    let a = s.print("*"@);
    let b = if tag != 'P' as u8 {
        a.print("mut "@)
    } else {
        a.print("const "@)
    };
    print_type(g, b, d)
}

/// An array `[type; length]` for `A`, a slice `[type]` for `S`.
pub open spec fn type_array(g: Input, s: State, d: nat, tag: u8) -> State
    decreases fuel(d), 12nat, 0nat,
{
    let a = print_type(g, s.print("["@), d);
    let b = if tag == 'A' as u8 {
        print_const(g, a.print("; "@), d, true)
    } else {
        a
    };
    b.print("]"@)
}

/// A tuple: its types up to `E`, a single one followed by a comma.
pub open spec fn type_tuple(g: Input, s: State, d: nat) -> State
    decreases fuel(d), 12nat, 0nat,
{
    let (a, count) = sep_list(g, s.print("("@), d, Item::Type, 0);
    let b = if count == 1 {
        a.print(","@)
    } else {
        a
    };
    b.print(")"@)
}

/// A trait object: `dyn`, its traits under a binder, joined by ` + `, and
/// behind them `L` and a lifetime, which is written unless it is the erased
/// one.
pub open spec fn type_dyn(g: Input, s: State, d: nat) -> State
    decreases fuel(d), 12nat, 0nat,
{
    let a = in_binder(g, s.print("dyn "@), d, Binder::Dyn);
    let (b, has_lifetime) = a.eat(g.sym, 'L');
    if !has_lifetime {
        b.invalid()
    } else {
        match b.settle(integer_62(g.sym, b.next)) {
            (c, None) => c,
            (c, Some(lt)) => if lt != 0 {
                print_lifetime(c.print(" + "@), lt)
            } else {
                c
            },
        }
    }
}

/// A reference behind its lifetime: `mut` where it is one, and the type.
pub open spec fn type_ref_rest(g: Input, s: State, d: nat, tag: u8) -> State
    decreases fuel(d), 11nat, 0nat,
{
    let a = if tag != 'R' as u8 {
        s.print("mut "@)
    } else {
        s
    };
    print_type(g, a, d)
}

/// An optional binder `G` with its number of lifetimes, written as
/// `for<'a, 'b> `, and what it binds them in.
pub open spec fn in_binder(g: Input, s: State, d: nat, kind: Binder) -> State
    decreases fuel(d), 11nat, 0nat,
{
    match s.settle(opt_integer_62(g.sym, s.next, 'G')) {
        (a, None) => a,
        (a, Some(n)) => if !a.printing {
            binder_body(g, a, d, kind)
        } else {
            let b = if n > 0 {
                binder_names(a.print("for<"@), n, 0).print("> "@)
            } else {
                a
            };
            let c = binder_body(g, b, d, kind);
            if c.out.failed {
                c
            } else {
                State { bound: (c.bound - n) as nat, ..c }
            }
        },
    }
}

/// What stands under a binder.
pub open spec fn binder_body(g: Input, s: State, d: nat, kind: Binder) -> State
    decreases fuel(d), 10nat, 0nat,
{
    match kind {
        Binder::FnSig => fn_sig(g, s, d),
        Binder::Dyn => sep_list(g, s, d, Item::DynTrait, 0).0,
    }
}

/// The ABI of a function pointer.
pub enum Abi {
    /// None is named: the Rust ABI.
    Rust,
    /// The C ABI, spelled `KC`.
    C,
    /// Another ABI, spelled as an identifier.
    Named(IdentSpan),
}

/// The signature of a function pointer: `U` for unsafe, `K` and an ABI, the
/// parameters up to `E`, and the return type, where `u` stands for none.
pub open spec fn fn_sig(g: Input, s: State, d: nat) -> State
    decreases fuel(d), 9nat, 1nat,
{
    let (a, is_unsafe) = s.eat(g.sym, 'U');
    let (b, has_abi) = a.eat(g.sym, 'K');
    if has_abi {
        let (c, is_c) = b.eat(g.sym, 'C');
        if is_c {
            fn_sig_rest(g, c, d, is_unsafe, Abi::C)
        } else {
            match c.settle(ident(g.sym, c.next)) {
                (e, None) => e,
                (e, Some(abi)) => if abi.ascii_start == abi.ascii_end || abi.puny_start
                    != abi.puny_end {
                    e.invalid()
                } else {
                    fn_sig_rest(g, e, d, is_unsafe, Abi::Named(abi))
                },
            }
        }
    } else {
        fn_sig_rest(g, b, d, is_unsafe, Abi::Rust)
    }
}

/// The written part of a function pointer's signature.
pub open spec fn fn_sig_rest(g: Input, s: State, d: nat, is_unsafe: bool, abi: Abi) -> State
    decreases fuel(d), 9nat, 0nat,
{
    let a = if is_unsafe {
        s.print("unsafe "@)
    } else {
        s
    };
    let b = match abi {
        Abi::Rust => a,
        Abi::C => a.print("extern \""@).print("C"@).print("\" "@),
        Abi::Named(id) => print_abi(g, a.print("extern \""@), id.ascii_start, id.ascii_end).print(
            "\" "@,
        ),
    };
    let c = sep_list(g, b.print("fn("@), d, Item::Type, 0).0.print(")"@);
    let (e, no_return) = c.eat(g.sym, 'u');
    if no_return {
        e
    } else {
        print_type(g, e.print(" -> "@), d)
    }
}

/// The path of a trait in a trait object. The state comes with a flag that
/// says whether `<` was written and is still open, so that bindings can
/// follow the generic arguments.
pub open spec fn open_path(g: Input, s: State, d: nat) -> (State, bool)
    decreases fuel(d), 4nat, 0nat,
{
    let (a, is_backref) = s.eat(g.sym, 'B');
    if is_backref {
        open_backref(g, a, d)
    } else {
        let (b, is_generic) = a.eat(g.sym, 'I');
        if is_generic {
            let c = print_path(g, b, d, false);
            (sep_list(g, c.print("<"@), d, Item::GenericArg, 0).0, true)
        } else {
            (print_path(g, b, d, false), false)
        }
    }
}

/// A back reference to the path of a trait, behind its `B`.
pub open spec fn open_backref(g: Input, s: State, d: nat) -> (State, bool)
    decreases fuel(d), 2nat, 0nat,
{
    if s.out.failed {
        (s, false)
    } else if s.err {
        (s.print("?"@), false)
    } else {
        match integer_62(g.sym, s.next) {
            None => (s.invalid(), false),
            Some((i, p)) => if i + 1 >= s.next {
                (s.invalid(), false)
            } else if d + 1 > MAX_DEPTH {
                (s.too_deep(), false)
            } else if !s.printing {
                (State { next: p, ..s }, false)
            } else {
                let (t, open) = open_path(g, State { next: i, ..s }, d + 1);
                (State { next: p, err: false, ..t }, open)
            },
        }
    }
}

/// A trait of a trait object: its path, and the bindings `name = value` of
/// its associated items inside the angle brackets.
pub open spec fn dyn_trait(g: Input, s: State, d: nat) -> State
    decreases fuel(d), 6nat, 0nat,
{
    let (a, open) = open_path(g, s, d);
    dyn_bindings(g, a, d, open)
}

/// The bindings of a trait from the current position on, each introduced
/// by `p`, and the closing `>` where one is due.
pub open spec fn dyn_bindings(g: Input, s: State, d: nat, open: bool) -> State
    decreases fuel(d), 5nat, s.remaining(g.sym),
{
    let (a, more) = s.eat(g.sym, 'p');
    if !more {
        if open {
            a.print(">"@)
        } else {
            a
        }
    } else {
        let b = if !open {
            a.print("<"@)
        } else {
            a.print(", "@)
        };
        match b.settle(ident(g.sym, b.next)) {
            (c, None) => c,
            (c, Some(name)) => {
                let e = print_ident(g, c, name).print(" = "@);
                let (f, is_const) = e.eat(g.sym, 'K');
                let h = if is_const {
                    print_const(g, f, d, false)
                } else {
                    print_type(g, f, d)
                };
                if !h.out.failed && !h.err && h.remaining(g.sym) < s.remaining(g.sym) {
                    dyn_bindings(g, h, d, true)
                } else {
                    h.print(">"@)
                }
            },
        }
    }
}

/// A pattern: `R` is a range of two constants, `O` a choice of patterns up
/// to `E`, `N` stands for not null.
pub open spec fn print_pat(g: Input, s: State, depth: nat) -> State
    decreases fuel(depth), 1nat, 0nat,
{
    match s.settle(next_byte(g.sym, s.next)) {
        (a, None) => a,
        (a, Some(tag)) => if tag == 'R' as u8 {
            print_const(g, print_const(g, a, depth, false).print("..="@), depth, false)
        } else if tag == 'O' as u8 {
            let (b, ok) = a.enter(depth);
            if !ok {
                b
            } else {
                pat_alternatives(g, print_pat(g, b, depth + 1), depth + 1)
            }
        } else if tag == 'N' as u8 {
            a.print("!null"@)
        } else {
            a.invalid()
        },
    }
}

/// The further patterns of a choice, each behind ` | `, up to `E`.
pub open spec fn pat_alternatives(g: Input, s: State, d: nat) -> State
    decreases fuel(d), 2nat, s.remaining(g.sym),
{
    if s.out.failed {
        s
    } else if s.err {
        s.invalid()
    } else if at(g.sym, s.next, 'E') {
        State { next: s.next + 1, ..s }
    } else {
        let b = print_pat(g, s.print(" | "@), d);
        if b.out.failed {
            b
        } else if b.err {
            b.invalid()
        } else if b.remaining(g.sym) < s.remaining(g.sym) {
            pat_alternatives(g, b, d)
        } else {
            b
        }
    }
}

/// A constant. A placeholder is `p`; an integer is the tag of its type and
/// hex digits; `b` is a boolean, `c` a character, `e` a string; `R` and `Q`
/// are references, `A` is an array, `T` a tuple, `V` a value of a named
/// type, `B` a back reference. Outside a value, what is no literal stands in
/// braces.
pub open spec fn print_const(g: Input, s: State, depth: nat, in_value: bool) -> State
    decreases fuel(depth), 0nat, 0nat,
{
    match s.settle(next_byte(g.sym, s.next)) {
        (a, None) => a,
        (a, Some(tag)) => {
            let (b, ok) = a.enter(depth);
            if !ok {
                b
            } else {
                const_body(g, b, depth + 1, tag, in_value)
            }
        },
    }
}

/// Opens a brace around an expression that stands outside a value.
pub open spec fn open_brace(s: State, in_value: bool) -> State {
    if in_value {
        s
    } else {
        s.print("{"@)
    }
}

/// Closes the brace that `open_brace` opened.
pub open spec fn close_brace(s: State, in_value: bool) -> State {
    if in_value {
        s
    } else {
        s.print("}"@)
    }
}

/// A constant behind its tag.
pub open spec fn const_body(g: Input, s: State, d: nat, tag: u8, in_value: bool) -> State
    decreases fuel(d), 12nat, 0nat,
{
    if tag == 'p' as u8 {
        s.print("_"@)
    } else if is_uint_tag(tag) {
        const_uint(g, s, tag)
    } else if is_int_tag(tag) {
        let (a, negative) = s.eat(g.sym, 'n');
        let b = if negative {
            a.print("-"@)
        } else {
            a
        };
        const_uint(g, b, tag)
    } else if tag == 'b' as u8 {
        const_bool(g, s)
    } else if tag == 'c' as u8 {
        const_char(g, s)
    } else if tag == 'e' as u8 {
        close_brace(const_str(g, open_brace(s, in_value).print("*"@)), in_value)
    } else if tag == 'R' as u8 || tag == 'Q' as u8 {
        const_ref(g, s, d, tag, in_value)
    } else if tag == 'A' as u8 {
        const_array(g, s, d, in_value)
    } else if tag == 'T' as u8 {
        const_tuple(g, s, d, in_value)
    } else if tag == 'V' as u8 {
        const_adt(g, s, d, in_value)
    } else if tag == 'B' as u8 {
        backref(g, s, d, Target::Value(in_value))
    } else {
        s.invalid()
    }
}

/// A boolean constant: hex digits that spell zero or one.
pub open spec fn const_bool(g: Input, s: State) -> State {
    match s.settle(hex_nibbles(g.sym, s.next)) {
        (a, None) => a,
        (a, Some(hex)) => {
            let v = hex_value(g.sym, hex.0, hex.1);
            if v == Some(0nat) {
                a.print("false"@)
            } else if v == Some(1nat) {
                a.print("true"@)
            } else {
                a.invalid()
            }
        },
    }
}

/// A character constant: hex digits that spell a scalar value, written
/// between single quotes.
pub open spec fn const_char(g: Input, s: State) -> State {
    match s.settle(hex_nibbles(g.sym, s.next)) {
        (a, None) => a,
        (a, Some(hex)) => match hex_value(g.sym, hex.0, hex.1) {
            Some(v) => if is_scalar_value(v as int) {
                print_quoted(a, '\'', seq![v as char])
            } else {
                a.invalid()
            },
            None => a.invalid(),
        },
    }
}

/// A reference to a constant. A shared reference to a string is written as
/// the string alone.
pub open spec fn const_ref(g: Input, s: State, d: nat, tag: u8, in_value: bool) -> State
    decreases fuel(d), 11nat, 0nat,
{
    let (a, is_str) = if tag == 'R' as u8 {
        s.eat(g.sym, 'e')
    } else {
        (s, false)
    };
    if is_str {
        const_str(g, a)
    } else {
        let b = open_brace(a, in_value).print("&"@);
        let c = if tag != 'R' as u8 {
            b.print("mut "@)
        } else {
            b
        };
        close_brace(print_const(g, c, d, true), in_value)
    }
}

/// An array constant: its elements up to `E`, between square brackets.
pub open spec fn const_array(g: Input, s: State, d: nat, in_value: bool) -> State
    decreases fuel(d), 11nat, 0nat,
{
    let a = sep_list(g, open_brace(s, in_value).print("["@), d, Item::Value, 0).0;
    close_brace(a.print("]"@), in_value)
}

/// A tuple constant: its elements up to `E`, between round brackets, a
/// single one followed by a comma.
pub open spec fn const_tuple(g: Input, s: State, d: nat, in_value: bool) -> State
    decreases fuel(d), 11nat, 0nat,
{
    let (a, count) = sep_list(g, open_brace(s, in_value).print("("@), d, Item::Value, 0);
    let b = if count == 1 {
        a.print(","@)
    } else {
        a
    };
    close_brace(b.print(")"@), in_value)
}

/// A value of a named type: its path and `U` for a unit, `T` for a tuple of
/// values or `S` for named fields.
pub open spec fn const_adt(g: Input, s: State, d: nat, in_value: bool) -> State
    decreases fuel(d), 11nat, 0nat,
{
    let a = print_path(g, open_brace(s, in_value), d, true);
    match a.settle(next_byte(g.sym, a.next)) {
        (b, None) => b,
        (b, Some(shape)) => if shape == 'U' as u8 {
            close_brace(b, in_value)
        } else if shape == 'T' as u8 {
            let c = sep_list(g, b.print("("@), d, Item::Value, 0).0;
            close_brace(c.print(")"@), in_value)
        } else if shape == 'S' as u8 {
            let c = sep_list(g, b.print(" { "@), d, Item::Field, 0).0;
            close_brace(c.print(" }"@), in_value)
        } else {
            b.invalid()
        },
    }
}

/// An integer constant: hex digits, written in decimal where they fit in 64
/// bits and as they stand otherwise; in the verbose style the name of the
/// type follows.
pub open spec fn const_uint(g: Input, s: State, tag: u8) -> State {
    match s.settle(hex_nibbles(g.sym, s.next)) {
        (a, None) => a,
        (a, Some(hex)) => {
            let b = match hex_value(g.sym, hex.0, hex.1) {
                Some(v) => a.print_decimal(v),
                None => a.print("0x"@).print_ascii(g.sym.subrange(hex.0 as int, hex.1 as int)),
            };
            if b.printing && !g.alt && basic_type(tag) is Some {
                b.print(basic_type(tag).unwrap())
            } else {
                b
            }
        },
    }
}

/// A string constant: hex digits that spell UTF-8, written between double
/// quotes.
pub open spec fn const_str(g: Input, s: State) -> State {
    match s.settle(hex_nibbles(g.sym, s.next)) {
        (a, None) => a,
        (a, Some(hex)) => match str_chars(g.sym, hex.0, hex.1) {
            Some(cs) => print_quoted(a, '"', cs),
            None => a.invalid(),
        },
    }
}

/// A field of a struct constant: a disambiguator, the name and the value.
pub open spec fn struct_field(g: Input, s: State, d: nat) -> State
    decreases fuel(d), 1nat, 0nat,
{
    match s.settle(opt_integer_62(g.sym, s.next, 's')) {
        (a, None) => a,
        (a, Some(_)) => match a.settle(ident(g.sym, a.next)) {
            (b, None) => b,
            (b, Some(name)) => print_const(g, print_ident(g, b, name).print(": "@), d, true),
        },
    }
}

/// Whether the bytes of a symbol, behind its prefix, are a v0 name: they
/// begin with an upper-case letter, are ASCII, and hold a well-formed path,
/// which a second path, that of the instantiating crate, may follow. The
/// result is the position behind the paths.
pub open spec fn recognise(sym: Seq<u8>) -> Option<nat> {
    let g = Input { sym, alt: false };
    if sym.len() == 0 || !is_upper(sym[0]) || !crate::sink::all_ascii(sym) {
        None
    } else {
        let a = print_path(g, State::start(false), 0, false);
        if a.err {
            None
        } else if peek(sym, a.next) is Some && is_upper(peek(sym, a.next).unwrap()) {
            let b = print_path(g, a, 0, false);
            if b.err {
                None
            } else {
                Some(b.next)
            }
        } else {
            Some(a.next)
        }
    }
}

/// The text of a v0 name: its first path, written inside a value.
pub open spec fn rendering(g: Input) -> crate::sink::Text {
    print_path(g, State::start(true), 0, true).out
}

} // verus!
