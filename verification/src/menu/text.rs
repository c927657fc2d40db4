//! Names, trees and schemas written out as text.

use crate::menu::{
    arms_model, fields_model, opt_arm_model, slots_model, trees_model, types_model, Label,
    MenuTree, MenuType,
};
use crate::menu::model::{Arm, PrimType, Schema, Slot, Tree};
use crate::types::lang::{Atom, AtomView, Name, NameView};
use vstd::prelude::*;
use vstd::string::StringExecFns;

verus! {

// ---------------------------------------------------------------------------
// Numbers

/// The decimal digit for `d`, a number below ten.
pub open spec fn digit_char(d: nat) -> char {
    if d == 0 {
        '0'
    } else if d == 1 {
        '1'
    } else if d == 2 {
        '2'
    } else if d == 3 {
        '3'
    } else if d == 4 {
        '4'
    } else if d == 5 {
        '5'
    } else if d == 6 {
        '6'
    } else if d == 7 {
        '7'
    } else if d == 8 {
        '8'
    } else {
        '9'
    }
}

/// `n` in decimal, without leading zeros.
pub open spec fn nat_text(n: nat) -> Seq<char>
    decreases n,
{
    if n < 10 {
        seq![digit_char(n)]
    } else {
        nat_text(n / 10).push(digit_char(n % 10))
    }
}

/// `i` in decimal, with a minus sign where it is negative.
pub open spec fn int_text(i: int) -> Seq<char> {
    if i < 0 {
        seq!['-'] + nat_text((-i) as nat)
    } else {
        nat_text(i as nat)
    }
}

/// `b` as `true` or `false`.
pub open spec fn bool_text(b: bool) -> Seq<char> {
    if b {
        "true"@
    } else {
        "false"@
    }
}

fn digit_str(d: usize) -> (s: &'static str)
    requires
        d < 10,
    ensures
        s@ == seq![digit_char(d as nat)],
{
    proof {
        reveal_strlit("0");
        reveal_strlit("1");
        reveal_strlit("2");
        reveal_strlit("3");
        reveal_strlit("4");
        reveal_strlit("5");
        reveal_strlit("6");
        reveal_strlit("7");
        reveal_strlit("8");
        reveal_strlit("9");
    }
    let s = if d == 0 {
        "0"
    } else if d == 1 {
        "1"
    } else if d == 2 {
        "2"
    } else if d == 3 {
        "3"
    } else if d == 4 {
        "4"
    } else if d == 5 {
        "5"
    } else if d == 6 {
        "6"
    } else if d == 7 {
        "7"
    } else if d == 8 {
        "8"
    } else {
        "9"
    };
    assert(s@ =~= seq![digit_char(d as nat)]);
    s
}

/// Appends `n` in decimal to `out`.
pub fn push_nat(out: &mut String, n: usize)
    ensures
        final(out)@ == old(out)@ + nat_text(n as nat),
    decreases n,
{
    if n < 10 {
        out.append(digit_str(n));
    } else {
        push_nat(out, n / 10);
        out.append(digit_str(n % 10));
        assert(out@ =~= old(out)@ + nat_text(n as nat));
    }
}

/// Appends `i` in decimal to `out`.
pub fn push_int(out: &mut String, i: isize)
    ensures
        final(out)@ == old(out)@ + int_text(i as int),
{
    if i < 0 {
        proof {
            reveal_strlit("-");
        }
        out.append("-");
        // The magnitude of the least number does not fit its own type.
        let m: usize = ((-(i + 1)) as usize) + 1;
        push_nat(out, m);
        assert(out@ =~= old(out)@ + int_text(i as int));
    } else {
        push_nat(out, i as usize);
    }
}

/// Appends `true` or `false` to `out`.
pub fn push_bool(out: &mut String, b: bool)
    ensures
        final(out)@ == old(out)@ + bool_text(b),
{
    if b {
        out.append("true");
    } else {
        out.append("false");
    }
}

// ---------------------------------------------------------------------------
// Quoted text

/// What `std`'s `Debug` writes for the text `s`: the text between double
/// quotes, with the characters escaped that `Debug` escapes.
pub uninterp spec fn debug_text(s: Seq<char>) -> Seq<char>;

/// Calls `format!` with `{:?}` on a `String`: the result is that text as
/// `std`'s `Debug` writes it, a function of the text alone.
#[verifier::external_body]
fn quoted(s: &String) -> (r: String)
    ensures
        r@ == debug_text(s@),
{
    format!("{:?}", s)
}

/// Appends `s`, quoted, to `out`.
pub fn push_quoted(out: &mut String, s: &String)
    ensures
        final(out)@ == old(out)@ + debug_text(s@),
{
    let q = quoted(s);
    out.append(q.as_str());
}

// ---------------------------------------------------------------------------
// Names

/// The name can be written out: no part of it stands for a digest.
pub open spec fn printable(n: NameView) -> bool
    decreases n,
{
    match n {
        NameView::Void => true,
        NameView::Atom(_) => true,
        NameView::TaggedTuple(tag, parts) => printable(*tag) && forall|i: int|
            0 <= i < parts.len() ==> printable(#[trigger] parts[i]),
        NameView::Merkle(_) => false,
    }
}

/// The name written out. A tagged tuple is its tag followed, where it has
/// parts, by the parts between round brackets, one after the other.
pub open spec fn name_text(n: NameView) -> Seq<char>
    decreases n,
{
    match n {
        NameView::Void => "<void>"@,
        NameView::Atom(AtomView::Bool(b)) => bool_text(b),
        NameView::Atom(AtomView::Usize(u)) => nat_text(u as nat),
        NameView::Atom(AtomView::String(s)) => s,
        NameView::TaggedTuple(tag, parts) => name_text(*tag) + (if parts.len() > 0 {
            "("@ + names_text(parts, parts.len()) + ")"@
        } else {
            Seq::empty()
        }),
        NameView::Merkle(_) => Seq::empty(),
    }
}

/// The first `n` names of `parts` written out one after the other.
pub open spec fn names_text(parts: Seq<NameView>, n: nat) -> Seq<char>
    decreases parts, n,
{
    if n == 0 || n > parts.len() {
        Seq::empty()
    } else {
        names_text(parts, (n - 1) as nat) + name_text(parts[n - 1])
    }
}

/// Whether the name can be written out.
pub fn is_printable(n: &Name) -> (r: bool)
    ensures
        r == printable(n@),
    decreases n,
{
    match n {
        Name::Void => true,
        Name::Atom(_) => true,
        Name::TaggedTuple(tag, parts) => {
            if !is_printable(tag) {
                return false;
            }
            let ghost ps = n@->TaggedTuple_1;
            assert(ps.len() == parts@.len());
            let mut i: usize = 0;
            while i < parts.len()
                invariant
                    *n matches Name::TaggedTuple(_, v) && v == *parts,
                    ps == n@->TaggedTuple_1,
                    ps.len() == parts@.len(),
                    forall|k: int| 0 <= k < ps.len() ==> ps[k] == parts@[k]@,
                    i <= parts.len(),
                    forall|k: int| 0 <= k < i ==> printable(#[trigger] ps[k]),
                decreases parts.len() - i,
            {
                if !is_printable(&parts[i]) {
                    assert(!printable(ps[i as int]));
                    return false;
                }
                i += 1;
            }
            true
        },
        Name::Merkle(_, _) => false,
    }
}

/// Appends the name to `out`.
pub fn push_name(out: &mut String, n: &Name)
    requires
        printable(n@),
    ensures
        final(out)@ == old(out)@ + name_text(n@),
    decreases n,
{
    match n {
        Name::Void => {
            out.append("<void>");
        },
        Name::Atom(Atom::Bool(b)) => {
            push_bool(out, *b);
        },
        Name::Atom(Atom::Usize(u)) => {
            push_nat(out, *u);
        },
        Name::Atom(Atom::String(s)) => {
            out.append(s.as_str());
        },
        Name::TaggedTuple(tag, parts) => {
            push_name(out, tag);
            let ghost ps = n@->TaggedTuple_1;
            assert(ps.len() == parts@.len());
            if parts.len() > 0 {
                out.append("(");
                let ghost base = out@;
                let mut i: usize = 0;
                while i < parts.len()
                    invariant
                        *n matches Name::TaggedTuple(_, v) && v == *parts,
                        ps == n@->TaggedTuple_1,
                        ps.len() == parts@.len(),
                        forall|k: int| 0 <= k < ps.len() ==> printable(#[trigger] ps[k]),
                        forall|k: int| 0 <= k < ps.len() ==> ps[k] == parts@[k]@,
                        i <= parts.len(),
                        out@ == base + names_text(ps, i as nat),
                    decreases parts.len() - i,
                {
                    assert(printable(ps[i as int]));
                    push_name(out, &parts[i]);
                    i += 1;
                    assert(out@ =~= base + names_text(ps, i as nat));
                }
                out.append(")");
                assert(out@ =~= old(out)@ + name_text(n@));
            } else {
                assert(out@ =~= old(out)@ + name_text(n@));
            }
        },
        Name::Merkle(_, _) => {},
    }
}

impl Name {
    /// The name written out.
    pub fn to_text(&self) -> (s: String)
        requires
            printable(self@),
        ensures
            s@ == name_text(self@),
    {
        let mut out = String::new();
        push_name(&mut out, self);
        assert(out@ =~= name_text(self@));
        out
    }
}

// ---------------------------------------------------------------------------
// Trees

/// The text `sep` before every item but the first.
pub open spec fn sep_before(n: nat, sep: Seq<char>) -> Seq<char> {
    if n > 1 {
        sep
    } else {
        Seq::empty()
    }
}

/// The tree can be written out: every label that is written can.
pub open spec fn tree_printable(t: Tree) -> bool
    decreases t,
{
    match t {
        Tree::Product(arms) => forall|i: int|
            0 <= i < arms.len() ==> printable((#[trigger] arms[i]).0) && tree_printable(arms[i].1),
        Tree::Variant(c) => match c.choice {
            Some(a) => printable(a.0) && tree_printable(a.1),
            None => true,
        },
        Tree::Option(present, inner, _) => present ==> tree_printable(*inner),
        Tree::Vec(ts, _) => forall|i: int| 0 <= i < ts.len() ==> tree_printable(#[trigger] ts[i]),
        Tree::Tup(slots) => forall|i: int|
            0 <= i < slots.len() ==> tree_printable((#[trigger] slots[i]).0),
        _ => true,
    }
}

/// The tree written out as an argument value.
///
/// A record is `record {l=t; ...}`; a union is `variant {l=t}` with its chosen
/// arm, or `variant {}` with none; an option is `opt t` where present and
/// `opt null` where absent; a sequence is `vec{t; ...}`; a tuple is `(t, ...)`;
/// a blank is `variant {BLANK=()}`; unit is `()`, null is `null`, a text is
/// quoted, and numbers and booleans are written as usual.
pub open spec fn tree_text(t: Tree) -> Seq<char>
    decreases t,
{
    match t {
        Tree::Product(arms) => "record {"@ + arms_text(arms, arms.len()) + "}"@,
        Tree::Variant(c) => "variant {"@ + (match c.choice {
            Some(a) => name_text(a.0) + "="@ + tree_text(a.1),
            None => Seq::empty(),
        }) + "}"@,
        Tree::Option(present, inner, _) => if present {
            "opt "@ + tree_text(*inner)
        } else {
            "opt null"@
        },
        Tree::Vec(ts, _) => "vec{"@ + trees_text(ts, ts.len()) + "}"@,
        Tree::Tup(slots) => "("@ + slots_text(slots, slots.len()) + ")"@,
        Tree::Blank(_) => "variant {BLANK=()}"@,
        Tree::Nat(n) => nat_text(n as nat),
        Tree::Int(i) => int_text(i as int),
        Tree::Text(s) => debug_text(s),
        Tree::Bool(b) => bool_text(b),
        Tree::Unit => "()"@,
        Tree::Null => "null"@,
    }
}

/// The first `n` fields of a record, each as `label=tree`, with `; ` between.
pub open spec fn arms_text(arms: Seq<Arm>, n: nat) -> Seq<char>
    decreases arms, n,
{
    if n == 0 || n > arms.len() {
        Seq::empty()
    } else {
        arms_text(arms, (n - 1) as nat) + sep_before(n, "; "@) + name_text(arms[n - 1].0) + "="@
            + tree_text(arms[n - 1].1)
    }
}

/// The first `n` elements of a sequence, with `; ` between.
pub open spec fn trees_text(ts: Seq<Tree>, n: nat) -> Seq<char>
    decreases ts, n,
{
    if n == 0 || n > ts.len() {
        Seq::empty()
    } else {
        trees_text(ts, (n - 1) as nat) + sep_before(n, "; "@) + tree_text(ts[n - 1])
    }
}

/// The first `n` components of a tuple, with `, ` between.
pub open spec fn slots_text(slots: Seq<Slot>, n: nat) -> Seq<char>
    decreases slots, n,
{
    if n == 0 || n > slots.len() {
        Seq::empty()
    } else {
        slots_text(slots, (n - 1) as nat) + sep_before(n, ", "@) + tree_text(slots[n - 1].0)
    }
}

/// Whether the tree can be written out.
pub fn tree_is_printable(tree: &MenuTree) -> (r: bool)
    ensures
        r == tree_printable(tree@),
    decreases tree,
{
    match tree {
        MenuTree::Product(fields) => {
            let ghost arms = arms_model(fields@);
            assert(tree@->Product_0 == arms);
            let mut i: usize = 0;
            while i < fields.len()
                invariant
                    *tree matches MenuTree::Product(v) && v == *fields,
                    tree@ is Product && tree@->Product_0 == arms,
                    arms == arms_model(fields@),
                    arms.len() == fields@.len(),
                    i <= fields.len(),
                    forall|k: int|
                        0 <= k < i ==> printable((#[trigger] arms[k]).0) && tree_printable(
                            arms[k].1,
                        ),
                decreases fields.len() - i,
            {
                if !is_printable(&fields[i].0) || !tree_is_printable(&fields[i].1) {
                    assert(!(printable(arms[i as int].0) && tree_printable(arms[i as int].1)));
                    return false;
                }
                i += 1;
            }
            true
        },
        MenuTree::Variant(choice) => {
            assert(tree@->Variant_0.choice == opt_arm_model(choice.choice));
            match &choice.choice {
                Some(a) => is_printable(&a.0) && tree_is_printable(&a.1),
                None => true,
            }
        },
        MenuTree::Option(present, inner, _) => !*present || tree_is_printable(inner),
        MenuTree::Vec(trees, _) => {
            let ghost ts = trees_model(trees@);
            assert(tree@->Vec_0 == ts);
            let mut i: usize = 0;
            while i < trees.len()
                invariant
                    *tree matches MenuTree::Vec(v, _) && v == *trees,
                    tree@ is Vec && tree@->Vec_0 == ts,
                    ts == trees_model(trees@),
                    ts.len() == trees@.len(),
                    i <= trees.len(),
                    forall|k: int| 0 <= k < i ==> tree_printable(#[trigger] ts[k]),
                decreases trees.len() - i,
            {
                if !tree_is_printable(&trees[i]) {
                    assert(!tree_printable(ts[i as int]));
                    return false;
                }
                i += 1;
            }
            true
        },
        MenuTree::Tup(items) => {
            let ghost slots = slots_model(items@);
            assert(tree@->Tup_0 == slots);
            let mut i: usize = 0;
            while i < items.len()
                invariant
                    *tree matches MenuTree::Tup(v) && v == *items,
                    tree@ is Tup && tree@->Tup_0 == slots,
                    slots == slots_model(items@),
                    slots.len() == items@.len(),
                    i <= items.len(),
                    forall|k: int| 0 <= k < i ==> tree_printable((#[trigger] slots[k]).0),
                decreases items.len() - i,
            {
                if !tree_is_printable(&items[i].0) {
                    assert(!tree_printable(slots[i as int].0));
                    return false;
                }
                i += 1;
            }
            true
        },
        _ => true,
    }
}

fn push_sep(out: &mut String, n: usize, sep: &str)
    ensures
        final(out)@ == old(out)@ + sep_before(n as nat, sep@),
{
    if n > 1 {
        out.append(sep);
    } else {
        assert(out@ =~= old(out)@ + Seq::<char>::empty());
    }
}

/// Appends the tree to `out`.
pub fn push_tree(out: &mut String, tree: &MenuTree)
    requires
        tree_printable(tree@),
    ensures
        final(out)@ == old(out)@ + tree_text(tree@),
    decreases tree,
{
    match tree {
        MenuTree::Product(fields) => {
            out.append("record {");
            let ghost base = out@;
            let ghost arms = arms_model(fields@);
            assert(tree@->Product_0 == arms);
            let mut i: usize = 0;
            while i < fields.len()
                invariant
                    *tree matches MenuTree::Product(v) && v == *fields,
                    arms == arms_model(fields@),
                    arms.len() == fields@.len(),
                    forall|k: int|
                        0 <= k < arms.len() ==> printable((#[trigger] arms[k]).0) && tree_printable(
                            arms[k].1,
                        ),
                    i <= fields.len(),
                    out@ == base + arms_text(arms, i as nat),
                decreases fields.len() - i,
            {
                let ghost before = out@;
                assert(printable(arms[i as int].0) && tree_printable(arms[i as int].1));
                push_sep(out, i + 1, "; ");
                push_name(out, &fields[i].0);
                out.append("=");
                push_tree(out, &fields[i].1);
                i += 1;
                assert(out@ =~= base + arms_text(arms, i as nat));
            }
            out.append("}");
            assert(out@ =~= old(out)@ + tree_text(tree@));
        },
        MenuTree::Variant(choice) => {
            out.append("variant {");
            assert(tree@->Variant_0.choice == opt_arm_model(choice.choice));
            match &choice.choice {
                Some(a) => {
                    push_name(out, &a.0);
                    out.append("=");
                    push_tree(out, &a.1);
                },
                None => {},
            }
            out.append("}");
            assert(out@ =~= old(out)@ + tree_text(tree@));
        },
        MenuTree::Option(present, inner, _) => {
            if *present {
                out.append("opt ");
                push_tree(out, inner);
                assert(out@ =~= old(out)@ + tree_text(tree@));
            } else {
                out.append("opt null");
            }
        },
        MenuTree::Vec(trees, _) => {
            out.append("vec{");
            let ghost base = out@;
            let ghost ts = trees_model(trees@);
            assert(tree@->Vec_0 == ts);
            let mut i: usize = 0;
            while i < trees.len()
                invariant
                    *tree matches MenuTree::Vec(v, _) && v == *trees,
                    ts == trees_model(trees@),
                    ts.len() == trees@.len(),
                    forall|k: int| 0 <= k < ts.len() ==> tree_printable(#[trigger] ts[k]),
                    i <= trees.len(),
                    out@ == base + trees_text(ts, i as nat),
                decreases trees.len() - i,
            {
                assert(tree_printable(ts[i as int]));
                push_sep(out, i + 1, "; ");
                push_tree(out, &trees[i]);
                i += 1;
                assert(out@ =~= base + trees_text(ts, i as nat));
            }
            out.append("}");
            assert(out@ =~= old(out)@ + tree_text(tree@));
        },
        MenuTree::Tup(items) => {
            out.append("(");
            let ghost base = out@;
            let ghost slots = slots_model(items@);
            assert(tree@->Tup_0 == slots);
            let mut i: usize = 0;
            while i < items.len()
                invariant
                    *tree matches MenuTree::Tup(v) && v == *items,
                    slots == slots_model(items@),
                    slots.len() == items@.len(),
                    forall|k: int| 0 <= k < slots.len() ==> tree_printable((#[trigger] slots[k]).0),
                    i <= items.len(),
                    out@ == base + slots_text(slots, i as nat),
                decreases items.len() - i,
            {
                assert(tree_printable(slots[i as int].0));
                push_sep(out, i + 1, ", ");
                push_tree(out, &items[i].0);
                i += 1;
                assert(out@ =~= base + slots_text(slots, i as nat));
            }
            out.append(")");
            assert(out@ =~= old(out)@ + tree_text(tree@));
        },
        MenuTree::Blank(_) => {
            out.append("variant {BLANK=()}");
        },
        MenuTree::Nat(n) => {
            push_nat(out, *n);
        },
        MenuTree::Int(i) => {
            push_int(out, *i);
        },
        MenuTree::Text(t) => {
            push_quoted(out, t);
        },
        MenuTree::Bool(b) => {
            push_bool(out, *b);
        },
        MenuTree::Unit => {
            out.append("()");
        },
        MenuTree::Null => {
            out.append("null");
        },
    }
}

impl MenuTree {
    /// The tree written out as an argument value.
    pub fn to_text(&self) -> (s: String)
        requires
            tree_printable(self@),
        ensures
            s@ == tree_text(self@),
    {
        let mut out = String::new();
        push_tree(&mut out, self);
        assert(out@ =~= tree_text(self@));
        out
    }
}

// ---------------------------------------------------------------------------
// Names in full

/// The name spelled out with its constructors, as a derived `Debug` writes
/// it: `Void`, `Atom(Bool(true))`, `Atom(Usize(5))`, `Atom(String("a"))`,
/// `TaggedTuple(tag, [part, ...])`.
pub open spec fn name_debug_text(n: NameView) -> Seq<char>
    decreases n,
{
    match n {
        NameView::Void => "Void"@,
        NameView::Atom(AtomView::Bool(b)) => "Atom(Bool("@ + bool_text(b) + "))"@,
        NameView::Atom(AtomView::Usize(u)) => "Atom(Usize("@ + nat_text(u as nat) + "))"@,
        NameView::Atom(AtomView::String(s)) => "Atom(String("@ + debug_text(s) + "))"@,
        NameView::TaggedTuple(tag, parts) => "TaggedTuple("@ + name_debug_text(*tag) + ", ["@
            + names_debug_text(parts, parts.len()) + "])"@,
        NameView::Merkle(_) => Seq::empty(),
    }
}

/// The first `n` names of `parts` spelled out, with `, ` between.
pub open spec fn names_debug_text(parts: Seq<NameView>, n: nat) -> Seq<char>
    decreases parts, n,
{
    if n == 0 || n > parts.len() {
        Seq::empty()
    } else {
        names_debug_text(parts, (n - 1) as nat) + sep_before(n, ", "@) + name_debug_text(
            parts[n - 1],
        )
    }
}

/// Appends the name, spelled out with its constructors, to `out`.
pub fn push_name_debug(out: &mut String, n: &Name)
    requires
        printable(n@),
    ensures
        final(out)@ == old(out)@ + name_debug_text(n@),
    decreases n,
{
    match n {
        Name::Void => {
            out.append("Void");
        },
        Name::Atom(Atom::Bool(b)) => {
            out.append("Atom(Bool(");
            push_bool(out, *b);
            out.append("))");
            assert(out@ =~= old(out)@ + name_debug_text(n@));
        },
        Name::Atom(Atom::Usize(u)) => {
            out.append("Atom(Usize(");
            push_nat(out, *u);
            out.append("))");
            assert(out@ =~= old(out)@ + name_debug_text(n@));
        },
        Name::Atom(Atom::String(s)) => {
            out.append("Atom(String(");
            push_quoted(out, s);
            out.append("))");
            assert(out@ =~= old(out)@ + name_debug_text(n@));
        },
        Name::TaggedTuple(tag, parts) => {
            out.append("TaggedTuple(");
            push_name_debug(out, tag);
            out.append(", [");
            let ghost base = out@;
            let ghost ps = n@->TaggedTuple_1;
            assert(ps.len() == parts@.len());
            let mut i: usize = 0;
            while i < parts.len()
                invariant
                    *n matches Name::TaggedTuple(_, v) && v == *parts,
                    ps == n@->TaggedTuple_1,
                    ps.len() == parts@.len(),
                    forall|k: int| 0 <= k < ps.len() ==> printable(#[trigger] ps[k]),
                    forall|k: int| 0 <= k < ps.len() ==> ps[k] == parts@[k]@,
                    i <= parts.len(),
                    out@ == base + names_debug_text(ps, i as nat),
                decreases parts.len() - i,
            {
                assert(printable(ps[i as int]));
                push_sep(out, i + 1, ", ");
                push_name_debug(out, &parts[i]);
                i += 1;
                assert(out@ =~= base + names_debug_text(ps, i as nat));
            }
            out.append("])");
            assert(out@ =~= old(out)@ + name_debug_text(n@));
        },
        Name::Merkle(_, _) => {},
    }
}

// ---------------------------------------------------------------------------
// Schemas

/// The schema can be written out: every label and every name in it can.
pub open spec fn type_printable(s: Schema) -> bool
    decreases s,
{
    match s {
        Schema::Prim(_) => true,
        Schema::Variant(fs) => forall|i: int|
            0 <= i < fs.len() ==> printable((#[trigger] fs[i]).0) && type_printable(fs[i].1),
        Schema::Product(fs) => forall|i: int|
            0 <= i < fs.len() ==> printable((#[trigger] fs[i]).0) && type_printable(fs[i].1),
        Schema::Option(t) => type_printable(*t),
        Schema::Vec(t) => type_printable(*t),
        Schema::Tup(ts) => forall|i: int| 0 <= i < ts.len() ==> type_printable(#[trigger] ts[i]),
        Schema::Var(n) => printable(n),
        Schema::Func(args, rets) => (forall|i: int|
            0 <= i < args.len() ==> type_printable(#[trigger] args[i])) && (forall|i: int|
            0 <= i < rets.len() ==> type_printable(#[trigger] rets[i])),
    }
}

/// The text of a primitive kind.
pub open spec fn prim_text(p: PrimType) -> Seq<char> {
    match p {
        PrimType::Unit => "()"@,
        PrimType::Null => "null"@,
        PrimType::Nat => "nat"@,
        PrimType::Int => "int"@,
        PrimType::Text => "text"@,
        PrimType::Bool => "bool"@,
    }
}

/// The schema written out.
///
/// A union is `{#l: t; ...}` and a record `{l: t; ...}`; an option is `?t`, a
/// sequence `[t]`, a tuple `(t, ...)`; a name is spelled out with its
/// constructors; a procedure is `(args) -> (results)`, where a `, ` stands
/// before every result but the first of a procedure without arguments.
pub open spec fn type_text(s: Schema) -> Seq<char>
    decreases s,
{
    match s {
        Schema::Var(n) => name_debug_text(n),
        Schema::Prim(p) => prim_text(p),
        Schema::Variant(fs) => "{"@ + fields_text(fs, fs.len(), "#"@, ": "@) + "}"@,
        Schema::Product(fs) => "{"@ + fields_text(fs, fs.len(), Seq::empty(), ": "@) + "}"@,
        Schema::Option(t) => "?"@ + type_text(*t),
        Schema::Vec(t) => "["@ + type_text(*t) + "]"@,
        Schema::Tup(ts) => "("@ + types_text(ts, ts.len(), 0) + ")"@,
        Schema::Func(args, rets) => "("@ + types_text(args, args.len(), 0) + ") -> ("@
            + types_text(rets, rets.len(), args.len()) + ")"@,
    }
}

/// The first `n` fields, each as `mark label colon schema`, with `; `
/// between.
pub open spec fn fields_text(
    fs: Seq<(NameView, Schema)>,
    n: nat,
    mark: Seq<char>,
    colon: Seq<char>,
) -> Seq<char>
    decreases fs, n,
{
    if n == 0 || n > fs.len() {
        Seq::empty()
    } else {
        fields_text(fs, (n - 1) as nat, mark, colon) + sep_before(n, "; "@) + mark + name_text(
            fs[n - 1].0,
        ) + colon + type_text(fs[n - 1].1)
    }
}

/// The first `n` schemas with `, ` between, as the items that follow
/// `earlier` others: where `earlier` is not zero, a `, ` stands before the
/// first too.
pub open spec fn types_text(ts: Seq<Schema>, n: nat, earlier: nat) -> Seq<char>
    decreases ts, n,
{
    if n == 0 || n > ts.len() {
        Seq::empty()
    } else {
        types_text(ts, (n - 1) as nat, earlier) + sep_before(n + earlier, ", "@) + type_text(
            ts[n - 1],
        )
    }
}

/// Whether every schema of the list can be written out.
pub fn types_are_printable(types: &Vec<MenuType>) -> (r: bool)
    ensures
        r == (forall|k: int|
            0 <= k < types_model(types@).len() ==> type_printable(
                #[trigger] types_model(types@)[k],
            )),
    decreases types,
{
    let mut i: usize = 0;
    while i < types.len()
        invariant
            i <= types.len(),
            forall|k: int| 0 <= k < i ==> type_printable(types@[k]@),
        decreases types.len() - i,
    {
        if !type_is_printable(&types[i]) {
            assert(!type_printable(types_model(types@)[i as int]));
            return false;
        }
        i += 1;
    }
    assert forall|k: int| 0 <= k < types_model(types@).len() implies type_printable(
        #[trigger] types_model(types@)[k],
    ) by {
        assert(type_printable(types@[k]@));
    }
    true
}

/// Whether every label and every schema of the fields can be written out.
pub fn fields_are_printable(fields: &Vec<(Label, MenuType)>) -> (r: bool)
    ensures
        r == (forall|k: int|
            0 <= k < fields_model(fields@).len() ==> printable(
                (#[trigger] fields_model(fields@)[k]).0,
            ) && type_printable(fields_model(fields@)[k].1)),
    decreases fields,
{
    let mut i: usize = 0;
    while i < fields.len()
        invariant
            i <= fields.len(),
            forall|k: int|
                0 <= k < i ==> printable(fields@[k].0@) && type_printable(fields@[k].1@),
        decreases fields.len() - i,
    {
        if !is_printable(&fields[i].0) || !type_is_printable(&fields[i].1) {
            assert(!(printable(fields_model(fields@)[i as int].0) && type_printable(
                fields_model(fields@)[i as int].1,
            )));
            return false;
        }
        i += 1;
    }
    assert forall|k: int| 0 <= k < fields_model(fields@).len() implies printable(
        (#[trigger] fields_model(fields@)[k]).0,
    ) && type_printable(fields_model(fields@)[k].1) by {
        assert(printable(fields@[k].0@) && type_printable(fields@[k].1@));
    }
    true
}

/// Whether the schema can be written out.
pub fn type_is_printable(typ: &MenuType) -> (r: bool)
    ensures
        r == type_printable(typ@),
    decreases typ,
{
    match typ {
        MenuType::Prim(_) => true,
        MenuType::Variant(fields) => {
            assert(typ@->Variant_0 == fields_model(fields@));
            fields_are_printable(fields)
        },
        MenuType::Product(fields) => {
            assert(typ@->Product_0 == fields_model(fields@));
            fields_are_printable(fields)
        },
        MenuType::Option(t) => type_is_printable(t),
        MenuType::Vec(t) => type_is_printable(t),
        MenuType::Tup(types) => {
            assert(typ@->Tup_0 == types_model(types@));
            types_are_printable(types)
        },
        MenuType::Var(n) => is_printable(n),
        MenuType::Func(ft) => {
            assert(typ@->Func_0 == types_model(ft.args@));
            assert(typ@->Func_1 == types_model(ft.rets@));
            types_are_printable(&ft.args) && types_are_printable(&ft.rets)
        },
    }
}

fn prim_str(p: &PrimType) -> (s: &'static str)
    ensures
        s@ == prim_text(*p),
{
    match p {
        PrimType::Unit => "()",
        PrimType::Null => "null",
        PrimType::Nat => "nat",
        PrimType::Int => "int",
        PrimType::Text => "text",
        PrimType::Bool => "bool",
    }
}

fn push_fields(out: &mut String, fields: &Vec<(Label, MenuType)>, mark: &str, colon: &str)
    requires
        forall|k: int|
            0 <= k < fields_model(fields@).len() ==> printable(
                (#[trigger] fields_model(fields@)[k]).0,
            ) && type_printable(fields_model(fields@)[k].1),
    ensures
        final(out)@ == old(out)@ + fields_text(
            fields_model(fields@),
            fields@.len() as nat,
            mark@,
            colon@,
        ),
    decreases fields,
{
    let ghost base = out@;
    let ghost fs = fields_model(fields@);
    assert(out@ =~= base + fields_text(fs, 0, mark@, colon@));
    let mut i: usize = 0;
    while i < fields.len()
        invariant
            fs == fields_model(fields@),
            fs.len() == fields@.len(),
            forall|k: int|
                0 <= k < fs.len() ==> printable((#[trigger] fs[k]).0) && type_printable(fs[k].1),
            i <= fields.len(),
            out@ == base + fields_text(fs, i as nat, mark@, colon@),
        decreases fields.len() - i,
    {
        assert(printable(fs[i as int].0) && type_printable(fs[i as int].1));
        push_sep(out, i + 1, "; ");
        out.append(mark);
        push_name(out, &fields[i].0);
        out.append(colon);
        push_type(out, &fields[i].1);
        i += 1;
        assert(out@ =~= base + fields_text(fs, i as nat, mark@, colon@));
    }
}

fn push_types(out: &mut String, types: &Vec<MenuType>, earlier: usize)
    requires
        forall|k: int|
            0 <= k < types_model(types@).len() ==> type_printable(
                #[trigger] types_model(types@)[k],
            ),
    ensures
        final(out)@ == old(out)@ + types_text(
            types_model(types@),
            types@.len() as nat,
            earlier as nat,
        ),
    decreases types,
{
    let ghost base = out@;
    let ghost ts = types_model(types@);
    assert(out@ =~= base + types_text(ts, 0, earlier as nat));
    let mut i: usize = 0;
    while i < types.len()
        invariant
            ts == types_model(types@),
            ts.len() == types@.len(),
            forall|k: int| 0 <= k < ts.len() ==> type_printable(#[trigger] ts[k]),
            i <= types.len(),
            out@ == base + types_text(ts, i as nat, earlier as nat),
        decreases types.len() - i,
    {
        assert(type_printable(ts[i as int]));
        if i > 0 || earlier > 0 {
            out.append(", ");
        }
        push_type(out, &types[i]);
        i += 1;
        assert(out@ =~= base + types_text(ts, i as nat, earlier as nat));
    }
}

/// Appends the schema to `out`.
pub fn push_type(out: &mut String, typ: &MenuType)
    requires
        type_printable(typ@),
    ensures
        final(out)@ == old(out)@ + type_text(typ@),
    decreases typ,
{
    match typ {
        MenuType::Var(n) => {
            push_name_debug(out, n);
        },
        MenuType::Prim(p) => {
            out.append(prim_str(p));
        },
        MenuType::Variant(fields) => {
            out.append("{");
            assert(typ@->Variant_0 == fields_model(fields@));
            proof {
                reveal_strlit("#");
            }
            push_fields(out, fields, "#", ": ");
            out.append("}");
            assert(out@ =~= old(out)@ + type_text(typ@));
        },
        MenuType::Product(fields) => {
            out.append("{");
            assert(typ@->Product_0 == fields_model(fields@));
            proof {
                reveal_strlit("");
            }
            push_fields(out, fields, "", ": ");
            out.append("}");
            assert(""@ =~= Seq::<char>::empty());
            assert(out@ =~= old(out)@ + type_text(typ@));
        },
        MenuType::Option(t) => {
            out.append("?");
            push_type(out, t);
            assert(out@ =~= old(out)@ + type_text(typ@));
        },
        MenuType::Vec(t) => {
            out.append("[");
            push_type(out, t);
            out.append("]");
            assert(out@ =~= old(out)@ + type_text(typ@));
        },
        MenuType::Tup(types) => {
            out.append("(");
            assert(typ@->Tup_0 == types_model(types@));
            push_types(out, types, 0);
            out.append(")");
            assert(out@ =~= old(out)@ + type_text(typ@));
        },
        MenuType::Func(ft) => {
            out.append("(");
            assert(typ@->Func_0 == types_model(ft.args@));
            assert(typ@->Func_1 == types_model(ft.rets@));
            push_types(out, &ft.args, 0);
            out.append(") -> (");
            push_types(out, &ft.rets, ft.args.len());
            out.append(")");
            assert(types_model(ft.args@).len() == ft.args@.len());
            assert(out@ =~= old(out)@ + type_text(typ@));
        },
    }
}

impl MenuType {
    /// The schema written out.
    pub fn to_text(&self) -> (s: String)
        requires
            type_printable(self@),
        ensures
            s@ == type_text(self@),
    {
        let mut out = String::new();
        push_type(&mut out, self);
        assert(out@ =~= type_text(self@));
        out
    }
}

} // verus!
