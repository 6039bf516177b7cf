//! The walk over a v0 symbol: reads the symbol and writes its text, step by
//! step as the grammar says.

use crate::cursor::{integer_62, is_at, read_integer_62, Ident};
use crate::grammar::{
    abi_part_end, backref, basic_type, binder_body, binder_names, const_adt, const_array,
    const_body, const_bool, const_char, const_ref, const_str, const_tuple,
    const_uint, dyn_bindings, dyn_trait, fn_sig, fn_sig_rest, fuel, generic_arg, in_binder,
    is_int_tag, is_uint_tag, item, item_rank, open_backref, open_path, pat_alternatives,
    path_crate, path_generic, path_impl, path_impl_rest, path_nested, print_abi, print_const,
    print_ident, print_lifetime, print_pat, print_path, print_type, run_target, sep_list,
    skip_path, struct_field, type_array, type_body, type_dyn, type_pointer, type_ref,
    type_ref_rest, type_tuple, Abi, Binder, Item, Target,
};
use crate::literal::{hex_value_of, str_chars_of};
use crate::printer::{Printer, Source, MAX_DEPTH};
use crate::punycode::{char_from_u32, punycode_decode};
use vstd::prelude::*;

verus! {

/// The ABI of a function pointer, as found in the symbol.
#[derive(Clone, Copy)]
pub enum AbiName {
    /// None is named: the Rust ABI.
    Rust,
    /// The C ABI.
    C,
    /// Another ABI, spelled as an identifier.
    Named(Ident),
}

impl View for AbiName {
    type V = Abi;

    open spec fn view(&self) -> Abi {
        match self {
            AbiName::Rust => Abi::Rust,
            AbiName::C => Abi::C,
            AbiName::Named(id) => Abi::Named(id@),
        }
    }
}

/// The name of the basic type that `tag` stands for.
pub fn basic_type_name(tag: u8) -> (r: Option<&'static str>)
    ensures
        match r {
            Some(name) => basic_type(tag) == Some(name@),
            None => basic_type(tag) is None,
        },
{
    let c: char = tag as char;
    match c {
        'b' => Some("bool"),
        'c' => Some("char"),
        'e' => Some("str"),
        'u' => Some("()"),
        'a' => Some("i8"),
        's' => Some("i16"),
        'l' => Some("i32"),
        'x' => Some("i64"),
        'n' => Some("i128"),
        'i' => Some("isize"),
        'h' => Some("u8"),
        't' => Some("u16"),
        'm' => Some("u32"),
        'y' => Some("u64"),
        'o' => Some("u128"),
        'j' => Some("usize"),
        'f' => Some("f32"),
        'd' => Some("f64"),
        'z' => Some("!"),
        'p' => Some("_"),
        'v' => Some("..."),
        _ => None,
    }
}

/// Whether `tag` names an unsigned integer type.
pub fn uint_tag(tag: u8) -> (r: bool)
    ensures
        r == is_uint_tag(tag),
{
    tag == 'h' as u8 || tag == 't' as u8 || tag == 'm' as u8 || tag == 'y' as u8 || tag
        == 'o' as u8 || tag == 'j' as u8
}

/// Whether `tag` names a signed integer type.
pub fn int_tag(tag: u8) -> (r: bool)
    ensures
        r == is_int_tag(tag),
{
    tag == 'a' as u8 || tag == 's' as u8 || tag == 'l' as u8 || tag == 'x' as u8 || tag
        == 'n' as u8 || tag == 'i' as u8
}

impl Printer {
    /// Writes an identifier, decoded where it can be.
    pub fn print_ident(&mut self, src: &Source, id: Ident)
        requires
            old(self).wf(src),
            id@.within(src@.sym.len()),
        ensures
            final(self).stepped(src, *old(self), print_ident(src@, old(self)@, id@)),
            final(self).next == old(self).next,
            final(self).err == old(self).err,
    {
        if !self.printing {
            return ;
        }
        match punycode_decode(src.bytes, id.ascii_start, id.ascii_end, id.puny_start, id.puny_end) {
            Some(cs) => {
                self.print_chars(&cs);
            },
            None => {
                if id.puny_end > id.puny_start {
                    self.print("punycode{");
                    if id.ascii_end > id.ascii_start {
                        self.print_ascii(src.bytes, id.ascii_start, id.ascii_end);
                        self.print("-");
                    }
                    self.print_ascii(src.bytes, id.puny_start, id.puny_end);
                    self.print("}");
                } else {
                    self.print_ascii(src.bytes, id.ascii_start, id.ascii_end);
                }
            },
        }
    }

    /// Writes the lifetime with the index `lt`.
    pub fn print_lifetime(&mut self, lt: u64)
        requires
            old(self).out.wf(),
        ensures
            final(self)@ == print_lifetime(old(self)@, lt as nat),
            final(self).out.wf(),
            final(self).next == old(self).next,
            final(self).bound == old(self).bound,
            final(self).printing == old(self).printing,
            final(self).out.used >= old(self).out.used,
            old(self).out.failed ==> final(self).out@ == old(self).out@,
            old(self).err ==> final(self).err,
            old(self).printing && !final(self).out.failed ==> final(self).out.used > old(self).out.used,
    {
        if !self.printing {
            return ;
        }
        self.print_char('\'');
        if lt == 0 {
            self.print("_");
        } else if lt > self.bound as u64 {
            self.invalid();
        } else {
            let depth: u64 = self.bound as u64 - lt;
            if depth < 26 {
                self.print_char(('a' as u8 + depth as u8) as char);
            } else {
                self.print("_");
                self.print_decimal(depth);
            }
        }
    }

    /// Writes the ABI name `sym[start..end]`, its `_` turned into `-`.
    pub fn print_abi(&mut self, src: &Source, start: usize, end: usize)
        requires
            old(self).wf(src),
            start <= end <= src@.sym.len(),
        ensures
            final(self).stepped(
                src,
                *old(self),
                print_abi(src@, old(self)@, start as nat, end as nat),
            ),
            final(self).next == old(self).next,
            final(self).err == old(self).err,
    {
        let mut pos: usize = start;
        loop
            invariant
                self.wf(src),
                old(self)@.leads_to(self@),
                self.next == old(self).next,
                self.err == old(self).err,
                start <= pos <= end <= src@.sym.len(),
                print_abi(src@, self@, pos as nat, end as nat) == print_abi(
                    src@,
                    old(self)@,
                    start as nat,
                    end as nat,
                ),
            decreases end - pos,
        {
            let mut stop: usize = pos;
            while stop < end && !is_at(src.bytes, stop, '_')
                invariant
                    pos <= stop <= end <= src@.sym.len(),
                    abi_part_end(src@.sym, stop as nat, end as nat) == abi_part_end(
                        src@.sym,
                        pos as nat,
                        end as nat,
                    ),
                decreases end - stop,
            {
                stop = stop + 1;
            }
            self.print_ascii(src.bytes, pos, stop);
            if stop < end {
                self.print("-");
                pos = stop + 1;
            } else {
                return ;
            }
        }
    }

    /// Walks a path.
    pub fn print_path(&mut self, src: &Source, depth: u32, in_value: bool)
        requires
            old(self).wf(src),
            depth <= MAX_DEPTH,
        ensures
            final(self).stepped(
                src,
                *old(self),
                print_path(src@, old(self)@, depth as nat, in_value),
            ),
            old(self)@.moved(final(self)@),
        decreases fuel(depth as nat), 0nat, 0nat,
    {
        if !self.enter(depth) {
            return ;
        }
        let tag: u8 = match self.take_byte(src) {
            Some(t) => t,
            None => {
                return ;
            },
        };
        if tag == 'C' as u8 {
            self.path_crate(src);
        } else if tag == 'N' as u8 {
            self.path_nested(src, depth + 1, in_value);
        } else if tag == 'M' as u8 || tag == 'X' as u8 || tag == 'Y' as u8 {
            self.path_impl(src, depth + 1, tag);
        } else if tag == 'I' as u8 {
            self.path_generic(src, depth + 1, in_value);
        } else if tag == 'B' as u8 {
            self.backref(src, depth + 1, Target::Path(in_value));
        } else {
            self.invalid();
        }
    }

    /// Walks a crate root, behind its `C`.
    pub fn path_crate(&mut self, src: &Source)
        requires
            old(self).wf(src),
        ensures
            final(self).stepped(src, *old(self), path_crate(src@, old(self)@)),
            old(self)@.moved(final(self)@),
    {
        let dis: u64 = match self.take_opt_integer_62(src, 's') {
            Some(v) => v,
            None => {
                return ;
            },
        };
        let name: Ident = match self.take_ident(src) {
            Some(v) => v,
            None => {
                return ;
            },
        };
        self.print_ident(src, name);
        if self.printing && !src.alternate && dis != 0 {
            self.print("[");
            self.print_hexadecimal(dis);
            self.print("]");
        }
    }

    /// Walks a nested path, behind its `N`.
    pub fn path_nested(&mut self, src: &Source, d: u32, in_value: bool)
        requires
            old(self).wf(src),
            d <= MAX_DEPTH,
        ensures
            final(self).stepped(
                src,
                *old(self),
                path_nested(src@, old(self)@, d as nat, in_value),
            ),
            old(self)@.moved(final(self)@),
        decreases fuel(d as nat), 12nat, 0nat,
    {
        let ns: Option<u8> = match self.take_namespace(src) {
            Some(v) => v,
            None => {
                return ;
            },
        };
        self.print_path(src, d, in_value);
        if self.err {
            self.print("::");
        }
        let dis: u64 = match self.take_opt_integer_62(src, 's') {
            Some(v) => v,
            None => {
                return ;
            },
        };
        let name: Ident = match self.take_ident(src) {
            Some(v) => v,
            None => {
                return ;
            },
        };
        match ns {
            Some(c) => {
                self.print("::{");
                if c == 'C' as u8 {
                    self.print("closure");
                } else if c == 'S' as u8 {
                    self.print("shim");
                } else {
                    self.print_char(c as char);
                }
                if !name.is_empty() {
                    self.print(":");
                    self.print_ident(src, name);
                }
                self.print("#");
                self.print_decimal(dis);
                self.print("}");
            },
            None => {
                if !name.is_empty() {
                    self.print("::");
                    self.print_ident(src, name);
                }
            },
        }
    }

    /// Walks a path without writing it.
    pub fn skip_path(&mut self, src: &Source, d: u32)
        requires
            old(self).wf(src),
            d <= MAX_DEPTH,
        ensures
            final(self).stepped(src, *old(self), skip_path(src@, old(self)@, d as nat)),
            old(self)@.moved(final(self)@),
        decreases fuel(d as nat), 11nat, 0nat,
    {
        let printing: bool = self.printing;
        self.printing = false;
        self.print_path(src, d, false);
        self.printing = printing;
    }

    /// Walks an impl, behind its `M`, `X` or `Y`.
    pub fn path_impl(&mut self, src: &Source, d: u32, tag: u8)
        requires
            old(self).wf(src),
            d <= MAX_DEPTH,
        ensures
            final(self).stepped(src, *old(self), path_impl(src@, old(self)@, d as nat, tag)),
            old(self)@.not_back(final(self)@),
        decreases fuel(d as nat), 12nat, 0nat,
    {
        if tag != 'Y' as u8 {
            match self.take_opt_integer_62(src, 's') {
                Some(_) => {},
                None => {
                    return ;
                },
            }
            self.skip_path(src, d);
        }
        self.path_impl_rest(src, d, tag);
    }

    /// Walks the written part of an impl.
    pub fn path_impl_rest(&mut self, src: &Source, d: u32, tag: u8)
        requires
            old(self).wf(src),
            d <= MAX_DEPTH,
        ensures
            final(self).stepped(
                src,
                *old(self),
                path_impl_rest(src@, old(self)@, d as nat, tag),
            ),
            old(self)@.moved(final(self)@),
        decreases fuel(d as nat), 11nat, 0nat,
    {
        self.print("<");
        self.print_type(src, d);
        if tag != 'M' as u8 {
            self.print(" as ");
            self.print_path(src, d, false);
        }
        self.print(">");
    }

    /// Walks a path with generic arguments, behind its `I`.
    pub fn path_generic(&mut self, src: &Source, d: u32, in_value: bool)
        requires
            old(self).wf(src),
            d <= MAX_DEPTH,
        ensures
            final(self).stepped(
                src,
                *old(self),
                path_generic(src@, old(self)@, d as nat, in_value),
            ),
            old(self)@.moved(final(self)@),
        decreases fuel(d as nat), 12nat, 0nat,
    {
        self.print_path(src, d, in_value);
        if in_value {
            self.print("::");
        }
        self.print("<");
        self.sep_list(src, d, Item::GenericArg);
        self.print(">");
    }

    /// Walks what a back reference stands for.
    pub fn run_target(&mut self, src: &Source, d: u32, target: Target)
        requires
            old(self).wf(src),
            d <= MAX_DEPTH,
        ensures
            final(self).stepped(
                src,
                *old(self),
                run_target(src@, old(self)@, d as nat, target),
            ),
        decreases fuel(d as nat), 1nat, 0nat,
    {
        match target {
            Target::Path(in_value) => self.print_path(src, d, in_value),
            Target::Type => self.print_type(src, d),
            Target::Value(in_value) => self.print_const(src, d, in_value),
        }
    }

    /// Reads the position that a back reference names, behind its `B`, and
    /// checks it and the depth. Yields the position referred to and leaves
    /// the printer behind the reference.
    pub fn take_backref(&mut self, src: &Source, d: u32) -> (r: Option<usize>)
        requires
            old(self).wf(src),
            d <= MAX_DEPTH,
        ensures
            final(self).wf(src),
            old(self)@.leads_to(final(self)@),
            old(self).out.failed ==> r is None && final(self)@ == old(self)@,
            !old(self).out.failed && old(self).err ==> r is None && final(self)@ == old(self)@.print("?"@),
            !old(self).out.failed && !old(self).err ==> match integer_62(
                src@.sym,
                old(self)@.next,
            ) {
                None => r is None && final(self)@ == old(self)@.invalid(),
                Some((i, p)) => if i + 1 >= old(self)@.next {
                    r is None && final(self)@ == old(self)@.invalid()
                } else if d + 1 > MAX_DEPTH {
                    r is None && final(self)@ == old(self)@.too_deep()
                } else {
                    r == Some(i as usize) && final(self)@ == (crate::printer::State {
                        next: p,
                        ..old(self)@
                    }) && old(self).next < p && i < src@.sym.len()
                },
            },
    {
        if !self.ready() {
            return None;
        }
        match read_integer_62(src.bytes, self.next) {
            None => {
                self.invalid();
                None
            },
            Some((i, p)) => {
                if self.next == 0 || i >= (self.next - 1) as u64 {
                    self.invalid();
                    None
                } else if d >= MAX_DEPTH {
                    self.too_deep();
                    None
                } else {
                    self.next = p;
                    Some(i as usize)
                }
            },
        }
    }

    /// Walks a back reference, behind its `B`.
    pub fn backref(&mut self, src: &Source, d: u32, target: Target)
        requires
            old(self).wf(src),
            d <= MAX_DEPTH,
        ensures
            final(self).stepped(
                src,
                *old(self),
                backref(src@, old(self)@, d as nat, target),
            ),
            old(self)@.moved(final(self)@),
        decreases fuel(d as nat), 2nat, 0nat,
    {
        let i: usize = match self.take_backref(src, d) {
            Some(i) => i,
            None => {
                return ;
            },
        };
        if !self.printing {
            return ;
        }
        let behind: usize = self.next;
        self.next = i;
        self.run_target(src, d + 1, target);
        self.next = behind;
        self.err = false;
    }

    /// Walks an argument of a generic path.
    pub fn generic_arg(&mut self, src: &Source, d: u32)
        requires
            old(self).wf(src),
            d <= MAX_DEPTH,
        ensures
            final(self).stepped(src, *old(self), generic_arg(src@, old(self)@, d as nat)),
            old(self)@.moved(final(self)@),
        decreases fuel(d as nat), 1nat, 0nat,
    {
        if self.eat(src, 'L') {
            let lt: u64 = match self.take_integer_62(src) {
                Some(v) => v,
                None => {
                    return ;
                },
            };
            self.print_lifetime(lt);
        } else if self.eat(src, 'K') {
            self.print_const(src, d, false);
        } else {
            self.print_type(src, d);
        }
    }

    /// Walks one element of a list.
    pub fn item(&mut self, src: &Source, d: u32, kind: Item)
        requires
            old(self).wf(src),
            d <= MAX_DEPTH,
        ensures
            final(self).stepped(src, *old(self), item(src@, old(self)@, d as nat, kind)),
            old(self)@.moved(final(self)@),
        decreases fuel(d as nat), item_rank(kind), 0nat,
    {
        match kind {
            Item::GenericArg => self.generic_arg(src, d),
            Item::Type => self.print_type(src, d),
            Item::Value => self.print_const(src, d, true),
            Item::DynTrait => self.dyn_trait(src, d),
            Item::Field => self.struct_field(src, d),
        }
    }

    /// Walks the elements of a list up to its `E`; says whether there was
    /// exactly one.
    pub fn sep_list(&mut self, src: &Source, d: u32, kind: Item) -> (single: bool)
        requires
            old(self).wf(src),
            d <= MAX_DEPTH,
        ensures
            final(self).stepped(
                src,
                *old(self),
                sep_list(src@, old(self)@, d as nat, kind, 0).0,
            ),
            single == (sep_list(src@, old(self)@, d as nat, kind, 0).1 == 1),
            old(self)@.not_back(final(self)@),
        decreases fuel(d as nat), item_rank(kind) + 1, 0nat,
    {
        let mut i: usize = 0;
        loop
            invariant
                self.wf(src),
                d <= MAX_DEPTH,
                old(self)@.leads_to(self@),
                old(self)@.not_back(self@),
                i <= self.next,
                sep_list(src@, self@, d as nat, kind, i as nat) == sep_list(
                    src@,
                    old(self)@,
                    d as nat,
                    kind,
                    0,
                ),
            decreases src@.sym.len() - self.next,
        {
            if self.out.failed || self.err {
                return i == 1;
            }
            if self.eat(src, 'E') {
                return i == 1;
            }
            if i > 0 {
                match kind {
                    Item::DynTrait => self.print(" + "),
                    _ => self.print(", "),
                }
            }
            self.item(src, d, kind);
            if self.out.failed || self.err {
                return i == 0;
            }
            i = i + 1;
        }
    }

    /// Walks a type.
    pub fn print_type(&mut self, src: &Source, depth: u32)
        requires
            old(self).wf(src),
            depth <= MAX_DEPTH,
        ensures
            final(self).stepped(src, *old(self), print_type(src@, old(self)@, depth as nat)),
            old(self)@.moved(final(self)@),
        decreases fuel(depth as nat), 0nat, 0nat,
    {
        if self.eat(src, 'w') {
            self.print("#[splat] ");
        }
        let tag: u8 = match self.take_byte(src) {
            Some(t) => t,
            None => {
                return ;
            },
        };
        match basic_type_name(tag) {
            Some(name) => {
                self.print(name);
                return ;
            },
            None => {},
        }
        if !self.enter(depth) {
            return ;
        }
        self.type_body(src, depth + 1, tag);
    }

    /// Walks a type that is no basic type, behind its tag.
    pub fn type_body(&mut self, src: &Source, d: u32, tag: u8)
        requires
            old(self).wf(src),
            d <= MAX_DEPTH,
            old(self).next >= 1,
        ensures
            final(self).stepped(src, *old(self), type_body(src@, old(self)@, d as nat, tag)),
            old(self)@.not_back(final(self)@),
        decreases fuel(d as nat), 13nat, 0nat,
    {
        if tag == 'R' as u8 || tag == 'Q' as u8 {
            self.type_ref(src, d, tag);
        } else if tag == 'P' as u8 || tag == 'O' as u8 {
            self.type_pointer(src, d, tag);
        } else if tag == 'A' as u8 || tag == 'S' as u8 {
            self.type_array(src, d, tag);
        } else if tag == 'T' as u8 {
            self.type_tuple(src, d);
        } else if tag == 'F' as u8 {
            self.in_binder(src, d, Binder::FnSig);
        } else if tag == 'D' as u8 {
            self.type_dyn(src, d);
        } else if tag == 'B' as u8 {
            self.backref(src, d, Target::Type);
        } else if tag == 'W' as u8 {
            self.print_type(src, d);
            self.print(" is ");
            self.print_pat(src, d);
        } else {
            self.next = self.next - 1;
            self.print_path(src, d, false);
        }
    }

    /// Walks a reference, behind its `R` or `Q`.
    pub fn type_ref(&mut self, src: &Source, d: u32, tag: u8)
        requires
            old(self).wf(src),
            d <= MAX_DEPTH,
        ensures
            final(self).stepped(src, *old(self), type_ref(src@, old(self)@, d as nat, tag)),
            old(self)@.moved(final(self)@),
        decreases fuel(d as nat), 12nat, 0nat,
    {
        self.print("&");
        if self.eat(src, 'L') {
            let lt: u64 = match self.take_integer_62(src) {
                Some(v) => v,
                None => {
                    return ;
                },
            };
            if lt != 0 {
                self.print_lifetime(lt);
                self.print(" ");
            }
        }
        self.type_ref_rest(src, d, tag);
    }

    /// Walks a raw pointer, behind its `P` or `O`.
    pub fn type_pointer(&mut self, src: &Source, d: u32, tag: u8)
        requires
            old(self).wf(src),
            d <= MAX_DEPTH,
        ensures
            final(self).stepped(src, *old(self), type_pointer(src@, old(self)@, d as nat, tag)),
            old(self)@.moved(final(self)@),
        decreases fuel(d as nat), 12nat, 0nat,
    {
        self.print("*");
        if tag != 'P' as u8 {
            self.print("mut ");
        } else {
            self.print("const ");
        }
        self.print_type(src, d);
    }

    /// Walks an array or a slice, behind its `A` or `S`.
    pub fn type_array(&mut self, src: &Source, d: u32, tag: u8)
        requires
            old(self).wf(src),
            d <= MAX_DEPTH,
        ensures
            final(self).stepped(src, *old(self), type_array(src@, old(self)@, d as nat, tag)),
            old(self)@.moved(final(self)@),
        decreases fuel(d as nat), 12nat, 0nat,
    {
        self.print("[");
        self.print_type(src, d);
        if tag == 'A' as u8 {
            self.print("; ");
            self.print_const(src, d, true);
        }
        self.print("]");
    }

    /// Walks a tuple, behind its `T`.
    pub fn type_tuple(&mut self, src: &Source, d: u32)
        requires
            old(self).wf(src),
            d <= MAX_DEPTH,
        ensures
            final(self).stepped(src, *old(self), type_tuple(src@, old(self)@, d as nat)),
            old(self)@.not_back(final(self)@),
        decreases fuel(d as nat), 12nat, 0nat,
    {
        self.print("(");
        let single: bool = self.sep_list(src, d, Item::Type);
        if single {
            self.print(",");
        }
        self.print(")");
    }

    /// Walks a trait object, behind its `D`.
    pub fn type_dyn(&mut self, src: &Source, d: u32)
        requires
            old(self).wf(src),
            d <= MAX_DEPTH,
        ensures
            final(self).stepped(src, *old(self), type_dyn(src@, old(self)@, d as nat)),
            old(self)@.not_back(final(self)@),
        decreases fuel(d as nat), 12nat, 0nat,
    {
        self.print("dyn ");
        self.in_binder(src, d, Binder::Dyn);
        if !self.eat(src, 'L') {
            self.invalid();
            return ;
        }
        let lt: u64 = match self.take_integer_62(src) {
            Some(v) => v,
            None => {
                return ;
            },
        };
        if lt != 0 {
            self.print(" + ");
            self.print_lifetime(lt);
        }
    }

    /// Walks a reference behind its lifetime.
    pub fn type_ref_rest(&mut self, src: &Source, d: u32, tag: u8)
        requires
            old(self).wf(src),
            d <= MAX_DEPTH,
        ensures
            final(self).stepped(
                src,
                *old(self),
                type_ref_rest(src@, old(self)@, d as nat, tag),
            ),
            old(self)@.moved(final(self)@),
        decreases fuel(d as nat), 11nat, 0nat,
    {
        if tag != 'R' as u8 {
            self.print("mut ");
        }
        self.print_type(src, d);
    }

    /// Walks an optional binder and what it binds lifetimes in.
    pub fn in_binder(&mut self, src: &Source, d: u32, kind: Binder)
        requires
            old(self).wf(src),
            d <= MAX_DEPTH,
        ensures
            final(self).stepped(src, *old(self), in_binder(src@, old(self)@, d as nat, kind)),
            old(self)@.not_back(final(self)@),
        decreases fuel(d as nat), 11nat, 0nat,
    {
        let n: u64 = match self.take_opt_integer_62(src, 'G') {
            Some(v) => v,
            None => {
                return ;
            },
        };
        if !self.printing {
            self.binder_body(src, d, kind);
            return ;
        }
        let ghost taken = *self;
        if n > 0 {
            self.print("for<");
            let ghost opened = self@;
            let mut i: u64 = 0;
            while i < n && !self.out.failed
                invariant
                    self.out.wf(),
                    src.wf(),
                    self.printing,
                    i <= n,
                    self.next == taken.next,
                    self.err == taken.err,
                    self.out.used >= taken.out.used,
                    !taken.out.failed,
                    taken.wf(src),
                    !self.out.failed ==> self.bound == taken.bound + i && self.bound
                        <= self.out.used,
                    binder_names(self@, n as nat, i as nat) == binder_names(opened, n as nat, 0),
                decreases n - i,
            {
                if i > 0 {
                    self.print(", ");
                }
                self.bound = self.bound + 1;
                self.print_lifetime(1);
                i = i + 1;
            }
            self.print("> ");
        }
        self.binder_body(src, d, kind);
        if !self.out.failed {
            self.bound = self.bound - n as u32;
        }
    }

    /// Walks what stands under a binder.
    pub fn binder_body(&mut self, src: &Source, d: u32, kind: Binder)
        requires
            old(self).wf(src),
            d <= MAX_DEPTH,
        ensures
            final(self).stepped(
                src,
                *old(self),
                binder_body(src@, old(self)@, d as nat, kind),
            ),
            old(self)@.not_back(final(self)@),
        decreases fuel(d as nat), 10nat, 0nat,
    {
        match kind {
            Binder::FnSig => self.fn_sig(src, d),
            Binder::Dyn => {
                self.sep_list(src, d, Item::DynTrait);
            },
        }
    }

    /// Walks the signature of a function pointer.
    pub fn fn_sig(&mut self, src: &Source, d: u32)
        requires
            old(self).wf(src),
            d <= MAX_DEPTH,
        ensures
            final(self).stepped(src, *old(self), fn_sig(src@, old(self)@, d as nat)),
            old(self)@.not_back(final(self)@),
        decreases fuel(d as nat), 9nat, 1nat,
    {
        let is_unsafe: bool = self.eat(src, 'U');
        let mut abi: AbiName = AbiName::Rust;
        if self.eat(src, 'K') {
            if self.eat(src, 'C') {
                abi = AbiName::C;
            } else {
                let name: Ident = match self.take_ident(src) {
                    Some(v) => v,
                    None => {
                        return ;
                    },
                };
                if name.ascii_start == name.ascii_end || name.puny_start != name.puny_end {
                    self.invalid();
                    return ;
                }
                abi = AbiName::Named(name);
            }
        }
        self.fn_sig_rest(src, d, is_unsafe, abi);
    }

    /// Walks the written part of a function pointer's signature.
    pub fn fn_sig_rest(&mut self, src: &Source, d: u32, is_unsafe: bool, abi: AbiName)
        requires
            old(self).wf(src),
            d <= MAX_DEPTH,
            abi matches AbiName::Named(id) ==> id@.within(src@.sym.len()),
        ensures
            final(self).stepped(
                src,
                *old(self),
                fn_sig_rest(src@, old(self)@, d as nat, is_unsafe, abi@),
            ),
            old(self)@.not_back(final(self)@),
        decreases fuel(d as nat), 9nat, 0nat,
    {
        if is_unsafe {
            self.print("unsafe ");
        }
        match abi {
            AbiName::Rust => {},
            AbiName::C => {
                self.print("extern \"");
                self.print("C");
                self.print("\" ");
            },
            AbiName::Named(id) => {
                self.print("extern \"");
                self.print_abi(src, id.ascii_start, id.ascii_end);
                self.print("\" ");
            },
        }
        self.print("fn(");
        self.sep_list(src, d, Item::Type);
        self.print(")");
        if !self.eat(src, 'u') {
            self.print(" -> ");
            self.print_type(src, d);
        }
    }

    /// Walks the path of a trait; says whether `<` is left open behind it.
    pub fn open_path(&mut self, src: &Source, d: u32) -> (open: bool)
        requires
            old(self).wf(src),
            d <= MAX_DEPTH,
        ensures
            final(self).stepped(src, *old(self), open_path(src@, old(self)@, d as nat).0),
            open == open_path(src@, old(self)@, d as nat).1,
            old(self)@.moved(final(self)@),
        decreases fuel(d as nat), 4nat, 0nat,
    {
        if self.eat(src, 'B') {
            self.open_backref(src, d)
        } else if self.eat(src, 'I') {
            self.print_path(src, d, false);
            self.print("<");
            self.sep_list(src, d, Item::GenericArg);
            true
        } else {
            self.print_path(src, d, false);
            false
        }
    }

    /// Walks a back reference to the path of a trait, behind its `B`.
    pub fn open_backref(&mut self, src: &Source, d: u32) -> (open: bool)
        requires
            old(self).wf(src),
            d <= MAX_DEPTH,
        ensures
            final(self).stepped(src, *old(self), open_backref(src@, old(self)@, d as nat).0),
            open == open_backref(src@, old(self)@, d as nat).1,
            old(self)@.moved(final(self)@),
        decreases fuel(d as nat), 2nat, 0nat,
    {
        let i: usize = match self.take_backref(src, d) {
            Some(i) => i,
            None => {
                return false;
            },
        };
        if !self.printing {
            return false;
        }
        let behind: usize = self.next;
        self.next = i;
        let open: bool = self.open_path(src, d + 1);
        self.next = behind;
        self.err = false;
        open
    }

    /// Walks a trait of a trait object.
    pub fn dyn_trait(&mut self, src: &Source, d: u32)
        requires
            old(self).wf(src),
            d <= MAX_DEPTH,
        ensures
            final(self).stepped(src, *old(self), dyn_trait(src@, old(self)@, d as nat)),
            old(self)@.moved(final(self)@),
        decreases fuel(d as nat), 6nat, 0nat,
    {
        let open: bool = self.open_path(src, d);
        self.dyn_bindings(src, d, open);
    }

    /// Walks the bindings of a trait and closes its angle brackets.
    pub fn dyn_bindings(&mut self, src: &Source, d: u32, is_open: bool)
        requires
            old(self).wf(src),
            d <= MAX_DEPTH,
        ensures
            final(self).stepped(
                src,
                *old(self),
                dyn_bindings(src@, old(self)@, d as nat, is_open),
            ),
            old(self)@.not_back(final(self)@),
        decreases fuel(d as nat), 5nat, 0nat,
    {
        let mut open: bool = is_open;
        loop
            invariant
                self.wf(src),
                d <= MAX_DEPTH,
                old(self)@.leads_to(self@),
                old(self)@.not_back(self@),
                dyn_bindings(src@, self@, d as nat, open) == dyn_bindings(
                    src@,
                    old(self)@,
                    d as nat,
                    is_open,
                ),
            decreases src@.sym.len() - self.next,
        {
            if !self.eat(src, 'p') {
                if open {
                    self.print(">");
                }
                return ;
            }
            if !open {
                self.print("<");
            } else {
                self.print(", ");
            }
            let name: Ident = match self.take_ident(src) {
                Some(v) => v,
                None => {
                    return ;
                },
            };
            self.print_ident(src, name);
            self.print(" = ");
            if self.eat(src, 'K') {
                self.print_const(src, d, false);
            } else {
                self.print_type(src, d);
            }
            if self.out.failed || self.err {
                self.print(">");
                return ;
            }
            open = true;
        }
    }

    /// Walks a pattern.
    pub fn print_pat(&mut self, src: &Source, depth: u32)
        requires
            old(self).wf(src),
            depth <= MAX_DEPTH,
        ensures
            final(self).stepped(src, *old(self), print_pat(src@, old(self)@, depth as nat)),
            old(self)@.moved(final(self)@),
        decreases fuel(depth as nat), 1nat, 0nat,
    {
        let tag: u8 = match self.take_byte(src) {
            Some(t) => t,
            None => {
                return ;
            },
        };
        if tag == 'R' as u8 {
            self.print_const(src, depth, false);
            self.print("..=");
            self.print_const(src, depth, false);
        } else if tag == 'O' as u8 {
            if !self.enter(depth) {
                return ;
            }
            self.print_pat(src, depth + 1);
            self.pat_alternatives(src, depth + 1);
        } else if tag == 'N' as u8 {
            self.print("!null");
        } else {
            self.invalid();
        }
    }

    /// Walks the further patterns of a choice.
    pub fn pat_alternatives(&mut self, src: &Source, d: u32)
        requires
            old(self).wf(src),
            d <= MAX_DEPTH,
        ensures
            final(self).stepped(
                src,
                *old(self),
                pat_alternatives(src@, old(self)@, d as nat),
            ),
            old(self)@.not_back(final(self)@),
        decreases fuel(d as nat), 2nat, 0nat,
    {
        loop
            invariant
                self.wf(src),
                d <= MAX_DEPTH,
                old(self)@.leads_to(self@),
                old(self)@.not_back(self@),
                pat_alternatives(src@, self@, d as nat) == pat_alternatives(
                    src@,
                    old(self)@,
                    d as nat,
                ),
            decreases src@.sym.len() - self.next,
        {
            if self.out.failed {
                return ;
            }
            if self.err {
                self.invalid();
                return ;
            }
            if self.eat(src, 'E') {
                return ;
            }
            self.print(" | ");
            self.print_pat(src, d);
            if self.out.failed {
                return ;
            }
            if self.err {
                self.invalid();
                return ;
            }
        }
    }

    /// Walks a constant.
    pub fn print_const(&mut self, src: &Source, depth: u32, in_value: bool)
        requires
            old(self).wf(src),
            depth <= MAX_DEPTH,
        ensures
            final(self).stepped(
                src,
                *old(self),
                print_const(src@, old(self)@, depth as nat, in_value),
            ),
            old(self)@.moved(final(self)@),
        decreases fuel(depth as nat), 0nat, 0nat,
    {
        let tag: u8 = match self.take_byte(src) {
            Some(t) => t,
            None => {
                return ;
            },
        };
        if !self.enter(depth) {
            return ;
        }
        self.const_body(src, depth + 1, tag, in_value);
    }

    /// Opens a brace around an expression that stands outside a value.
    pub fn open_brace(&mut self, in_value: bool)
        requires
            old(self).out.wf(),
        ensures
            final(self)@ == crate::grammar::open_brace(old(self)@, in_value),
            final(self).out.wf(),
            old(self)@.leads_to(final(self)@),
            final(self).next == old(self).next,
            final(self).err == old(self).err,
            final(self).bound == old(self).bound,
    {
        if !in_value {
            self.print("{");
        }
    }

    /// Closes the brace around an expression that stands outside a value.
    pub fn close_brace(&mut self, in_value: bool)
        requires
            old(self).out.wf(),
        ensures
            final(self)@ == crate::grammar::close_brace(old(self)@, in_value),
            final(self).out.wf(),
            old(self)@.leads_to(final(self)@),
            final(self).next == old(self).next,
            final(self).err == old(self).err,
            final(self).bound == old(self).bound,
    {
        if !in_value {
            self.print("}");
        }
    }

    /// Walks a constant, behind its tag.
    pub fn const_body(&mut self, src: &Source, d: u32, tag: u8, in_value: bool)
        requires
            old(self).wf(src),
            d <= MAX_DEPTH,
        ensures
            final(self).stepped(
                src,
                *old(self),
                const_body(src@, old(self)@, d as nat, tag, in_value),
            ),
            old(self)@.not_back(final(self)@),
        decreases fuel(d as nat), 12nat, 0nat,
    {
        if tag == 'p' as u8 {
            self.print("_");
        } else if uint_tag(tag) {
            self.const_uint(src, tag);
        } else if int_tag(tag) {
            if self.eat(src, 'n') {
                self.print("-");
            }
            self.const_uint(src, tag);
        } else if tag == 'b' as u8 {
            self.const_bool(src);
        } else if tag == 'c' as u8 {
            self.const_char(src);
        } else if tag == 'e' as u8 {
            self.open_brace(in_value);
            self.print("*");
            self.const_str(src);
            self.close_brace(in_value);
        } else if tag == 'R' as u8 || tag == 'Q' as u8 {
            self.const_ref(src, d, tag, in_value);
        } else if tag == 'A' as u8 {
            self.const_array(src, d, in_value);
        } else if tag == 'T' as u8 {
            self.const_tuple(src, d, in_value);
        } else if tag == 'V' as u8 {
            self.const_adt(src, d, in_value);
        } else if tag == 'B' as u8 {
            self.backref(src, d, Target::Value(in_value));
        } else {
            self.invalid();
        }
    }

    /// Walks a boolean constant.
    pub fn const_bool(&mut self, src: &Source)
        requires
            old(self).wf(src),
        ensures
            final(self).stepped(src, *old(self), const_bool(src@, old(self)@)),
            old(self)@.moved(final(self)@),
    {
        let hex: (usize, usize) = match self.take_hex(src) {
            Some(v) => v,
            None => {
                return ;
            },
        };
        match hex_value_of(src.bytes, hex.0, hex.1) {
            Some(0) => self.print("false"),
            Some(1) => self.print("true"),
            _ => self.invalid(),
        }
    }

    /// Walks a character constant.
    pub fn const_char(&mut self, src: &Source)
        requires
            old(self).wf(src),
        ensures
            final(self).stepped(src, *old(self), const_char(src@, old(self)@)),
            old(self)@.moved(final(self)@),
    {
        let hex: (usize, usize) = match self.take_hex(src) {
            Some(v) => v,
            None => {
                return ;
            },
        };
        let c: Option<char> = match hex_value_of(src.bytes, hex.0, hex.1) {
            Some(v) => if v <= u32::MAX as u64 {
                char_from_u32(v as u32)
            } else {
                None
            },
            None => None,
        };
        match c {
            Some(c) => {
                let mut cs: Vec<char> = Vec::new();
                cs.push(c);
                assert(cs@ =~= seq![c]);
                self.print_quoted('\'', &cs);
            },
            None => self.invalid(),
        }
    }

    /// Walks a reference to a constant.
    pub fn const_ref(&mut self, src: &Source, d: u32, tag: u8, in_value: bool)
        requires
            old(self).wf(src),
            d <= MAX_DEPTH,
        ensures
            final(self).stepped(
                src,
                *old(self),
                const_ref(src@, old(self)@, d as nat, tag, in_value),
            ),
            old(self)@.not_back(final(self)@),
        decreases fuel(d as nat), 11nat, 0nat,
    {
        if tag == 'R' as u8 && self.eat(src, 'e') {
            self.const_str(src);
        } else {
            self.open_brace(in_value);
            self.print("&");
            if tag != 'R' as u8 {
                self.print("mut ");
            }
            self.print_const(src, d, true);
            self.close_brace(in_value);
        }
    }

    /// Walks an array constant.
    pub fn const_array(&mut self, src: &Source, d: u32, in_value: bool)
        requires
            old(self).wf(src),
            d <= MAX_DEPTH,
        ensures
            final(self).stepped(
                src,
                *old(self),
                const_array(src@, old(self)@, d as nat, in_value),
            ),
            old(self)@.not_back(final(self)@),
        decreases fuel(d as nat), 11nat, 0nat,
    {
        self.open_brace(in_value);
        self.print("[");
        self.sep_list(src, d, Item::Value);
        self.print("]");
        self.close_brace(in_value);
    }

    /// Walks a tuple constant.
    pub fn const_tuple(&mut self, src: &Source, d: u32, in_value: bool)
        requires
            old(self).wf(src),
            d <= MAX_DEPTH,
        ensures
            final(self).stepped(
                src,
                *old(self),
                const_tuple(src@, old(self)@, d as nat, in_value),
            ),
            old(self)@.not_back(final(self)@),
        decreases fuel(d as nat), 11nat, 0nat,
    {
        self.open_brace(in_value);
        self.print("(");
        let single: bool = self.sep_list(src, d, Item::Value);
        if single {
            self.print(",");
        }
        self.print(")");
        self.close_brace(in_value);
    }

    /// Walks a value of a named type.
    pub fn const_adt(&mut self, src: &Source, d: u32, in_value: bool)
        requires
            old(self).wf(src),
            d <= MAX_DEPTH,
        ensures
            final(self).stepped(
                src,
                *old(self),
                const_adt(src@, old(self)@, d as nat, in_value),
            ),
            old(self)@.moved(final(self)@),
        decreases fuel(d as nat), 11nat, 0nat,
    {
        self.open_brace(in_value);
        self.print_path(src, d, true);
        let shape: u8 = match self.take_byte(src) {
            Some(t) => t,
            None => {
                return ;
            },
        };
        if shape == 'U' as u8 {
            self.close_brace(in_value);
        } else if shape == 'T' as u8 {
            self.print("(");
            self.sep_list(src, d, Item::Value);
            self.print(")");
            self.close_brace(in_value);
        } else if shape == 'S' as u8 {
            self.print(" { ");
            self.sep_list(src, d, Item::Field);
            self.print(" }");
            self.close_brace(in_value);
        } else {
            self.invalid();
        }
    }

    /// Walks an integer constant.
    pub fn const_uint(&mut self, src: &Source, tag: u8)
        requires
            old(self).wf(src),
        ensures
            final(self).stepped(src, *old(self), const_uint(src@, old(self)@, tag)),
            old(self)@.moved(final(self)@),
    {
        let hex: (usize, usize) = match self.take_hex(src) {
            Some(v) => v,
            None => {
                return ;
            },
        };
        match hex_value_of(src.bytes, hex.0, hex.1) {
            Some(v) => self.print_decimal(v),
            None => {
                self.print("0x");
                self.print_ascii(src.bytes, hex.0, hex.1);
            },
        }
        if self.printing && !src.alternate {
            match basic_type_name(tag) {
                Some(name) => self.print(name),
                None => {},
            }
        }
    }

    /// Walks a string constant.
    pub fn const_str(&mut self, src: &Source)
        requires
            old(self).wf(src),
        ensures
            final(self).stepped(src, *old(self), const_str(src@, old(self)@)),
            old(self)@.not_back(final(self)@),
    {
        let hex: (usize, usize) = match self.take_hex(src) {
            Some(v) => v,
            None => {
                return ;
            },
        };
        match str_chars_of(src.bytes, hex.0, hex.1) {
            Some(cs) => self.print_quoted('"', &cs),
            None => self.invalid(),
        }
    }

    /// Walks a field of a struct constant.
    pub fn struct_field(&mut self, src: &Source, d: u32)
        requires
            old(self).wf(src),
            d <= MAX_DEPTH,
        ensures
            final(self).stepped(src, *old(self), struct_field(src@, old(self)@, d as nat)),
            old(self)@.moved(final(self)@),
        decreases fuel(d as nat), 1nat, 0nat,
    {
        match self.take_opt_integer_62(src, 's') {
            Some(_) => {},
            None => {
                return ;
            },
        }
        let name: Ident = match self.take_ident(src) {
            Some(v) => v,
            None => {
                return ;
            },
        };
        self.print_ident(src, name);
        self.print(": ");
        self.print_const(src, d, true);
    }
}

} // verus!
