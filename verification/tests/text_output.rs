use zqm_engine::candid::{idlargs_of_menutree, string_of_field_id, tuple_of_product};
use zqm_engine::menu::text::{is_printable, type_is_printable};
use zqm_engine::menu::{FuncType, LabelChoice, MenuTree, MenuType, PrimType};
use zqm_engine::types::lang::{Atom, Name};
use zqm_engine::types::util::{name_of_str, name_of_usize};

fn prim(p: PrimType) -> MenuType {
    MenuType::Prim(p)
}

#[test]
fn names_written_out() {
    assert_eq!(Name::Void.to_text(), "<void>");
    assert_eq!(Name::Atom(Atom::Bool(true)).to_text(), "true");
    assert_eq!(Name::Atom(Atom::Bool(false)).to_text(), "false");
    assert_eq!(name_of_usize(0).to_text(), "0");
    assert_eq!(name_of_usize(9).to_text(), "9");
    assert_eq!(name_of_usize(10).to_text(), "10");
    assert_eq!(name_of_usize(3050).to_text(), "3050");
    assert_eq!(name_of_usize(usize::MAX).to_text(), format!("{}", usize::MAX));
    assert_eq!(name_of_str("text-zoom").to_text(), "text-zoom");
    assert_eq!(name_of_str("").to_text(), "");
    let tagged = Name::TaggedTuple(
        Box::new(name_of_str("t")),
        vec![name_of_usize(12), name_of_str("x"), Name::Void],
    );
    assert_eq!(tagged.to_text(), "t(12x<void>)");
    let bare = Name::TaggedTuple(Box::new(name_of_str("t")), vec![]);
    assert_eq!(bare.to_text(), "t");
}

#[test]
fn names_of_digests_cannot_be_written() {
    assert!(is_printable(&name_of_str("a")));
    assert!(is_printable(&Name::Void));
    assert!(!is_printable(&Name::Merkle(1, Box::new(Name::Void))));
    assert!(!is_printable(&Name::TaggedTuple(
        Box::new(Name::Void),
        vec![name_of_usize(1), Name::Merkle(1, Box::new(Name::Void))]
    )));
    assert!(!is_printable(&Name::TaggedTuple(
        Box::new(Name::Merkle(1, Box::new(Name::Void))),
        vec![]
    )));
}

#[test]
fn leaves_written_out() {
    assert_eq!(MenuTree::Nat(42).to_text(), "42");
    assert_eq!(MenuTree::Int(0).to_text(), "0");
    assert_eq!(MenuTree::Int(-5).to_text(), "-5");
    assert_eq!(MenuTree::Int(isize::MAX).to_text(), format!("{}", isize::MAX));
    assert_eq!(MenuTree::Int(isize::MIN).to_text(), format!("{}", isize::MIN));
    assert_eq!(MenuTree::Bool(true).to_text(), "true");
    assert_eq!(MenuTree::Unit.to_text(), "()");
    assert_eq!(MenuTree::Null.to_text(), "null");
    assert_eq!(MenuTree::Text("hi".to_string()).to_text(), "\"hi\"");
    assert_eq!(MenuTree::Text("a\"b\\c\n".to_string()).to_text(), "\"a\\\"b\\\\c\\n\"");
    assert_eq!(MenuTree::Blank(prim(PrimType::Nat)).to_text(), "variant {BLANK=()}");
}

#[test]
fn structures_written_out() {
    let nat_t = prim(PrimType::Nat);
    let text = prim(PrimType::Text);
    let record = MenuTree::Product(vec![
        (name_of_str("a"), MenuTree::Nat(1), nat_t.clone()),
        (name_of_str("b"), MenuTree::Text("hi".to_string()), text.clone()),
        (name_of_usize(7), MenuTree::Blank(nat_t.clone()), nat_t.clone()),
    ]);
    assert_eq!(record.to_text(), "record {a=1; b=\"hi\"; 7=variant {BLANK=()}}");
    assert_eq!(MenuTree::Product(vec![]).to_text(), "record {}");
    let none = MenuTree::Variant(Box::new(LabelChoice {
        before: vec![(name_of_str("l"), MenuTree::Nat(0), nat_t.clone())],
        choice: None,
        after: vec![],
    }));
    assert_eq!(none.to_text(), "variant {}");
    let chosen = MenuTree::Variant(Box::new(LabelChoice {
        before: vec![(name_of_str("l"), MenuTree::Nat(0), nat_t.clone())],
        choice: Some((name_of_str("r"), record.clone(), nat_t.clone())),
        after: vec![],
    }));
    assert_eq!(
        chosen.to_text(),
        "variant {r=record {a=1; b=\"hi\"; 7=variant {BLANK=()}}}"
    );
    assert_eq!(
        MenuTree::Option(true, Box::new(MenuTree::Nat(5)), nat_t.clone()).to_text(),
        "opt 5"
    );
    assert_eq!(
        MenuTree::Option(false, Box::new(MenuTree::Nat(5)), nat_t.clone()).to_text(),
        "opt null"
    );
    assert_eq!(
        MenuTree::Vec(vec![MenuTree::Nat(1), MenuTree::Nat(2), MenuTree::Nat(3)], nat_t.clone())
            .to_text(),
        "vec{1; 2; 3}"
    );
    assert_eq!(MenuTree::Vec(vec![], nat_t.clone()).to_text(), "vec{}");
    assert_eq!(
        MenuTree::Tup(vec![
            (MenuTree::Nat(1), nat_t.clone()),
            (MenuTree::Bool(true), prim(PrimType::Bool))
        ])
        .to_text(),
        "(1, true)"
    );
    assert_eq!(MenuTree::Tup(vec![]).to_text(), "()");
    assert_eq!(idlargs_of_menutree(&record), record.to_text());
    assert_eq!(tuple_of_product(&record), record);
}

#[test]
fn schemas_written_out() {
    let nat_t = prim(PrimType::Nat);
    assert_eq!(prim(PrimType::Unit).to_text(), "()");
    assert_eq!(prim(PrimType::Null).to_text(), "null");
    assert_eq!(nat_t.to_text(), "nat");
    assert_eq!(prim(PrimType::Int).to_text(), "int");
    assert_eq!(prim(PrimType::Text).to_text(), "text");
    assert_eq!(prim(PrimType::Bool).to_text(), "bool");
    let record = MenuType::Product(vec![
        (name_of_str("a"), nat_t.clone()),
        (name_of_str("b"), prim(PrimType::Text)),
    ]);
    assert_eq!(record.to_text(), "{a: nat; b: text}");
    assert_eq!(MenuType::Product(vec![]).to_text(), "{}");
    let union = MenuType::Variant(vec![
        (name_of_str("l"), nat_t.clone()),
        (name_of_str("r"), prim(PrimType::Unit)),
    ]);
    assert_eq!(union.to_text(), "{#l: nat; #r: ()}");
    assert_eq!(MenuType::Option(Box::new(record.clone())).to_text(), "?{a: nat; b: text}");
    assert_eq!(MenuType::Vec(Box::new(prim(PrimType::Bool))).to_text(), "[bool]");
    assert_eq!(
        MenuType::Tup(vec![nat_t.clone(), prim(PrimType::Int), union.clone()]).to_text(),
        "(nat, int, {#l: nat; #r: ()})"
    );
    assert_eq!(MenuType::Tup(vec![]).to_text(), "()");
}

#[test]
fn procedures_written_out() {
    let nat_t = prim(PrimType::Nat);
    let text = prim(PrimType::Text);
    let f = |args: Vec<MenuType>, rets: Vec<MenuType>| MenuType::Func(FuncType { args, rets });
    assert_eq!(f(vec![], vec![]).to_text(), "() -> ()");
    assert_eq!(f(vec![nat_t.clone(), text.clone()], vec![]).to_text(), "(nat, text) -> ()");
    assert_eq!(f(vec![], vec![text.clone(), nat_t.clone()]).to_text(), "() -> (text, nat)");
    // After arguments, every result is preceded by a comma.
    assert_eq!(
        f(vec![nat_t.clone()], vec![text.clone(), nat_t.clone()]).to_text(),
        "(nat) -> (, text, nat)"
    );
}

#[test]
fn names_in_schemas_are_spelled_out() {
    let names = vec![
        Name::Void,
        Name::Atom(Atom::Bool(true)),
        name_of_usize(5),
        name_of_str("a \"q\""),
        Name::TaggedTuple(Box::new(name_of_str("t")), vec![]),
        Name::TaggedTuple(
            Box::new(Name::Void),
            vec![name_of_usize(1), name_of_str("x"), Name::Void],
        ),
    ];
    assert_eq!(MenuType::Var(name_of_str("v")).to_text(), "Atom(String(\"v\"))");
    assert_eq!(MenuType::Var(name_of_usize(5)).to_text(), "Atom(Usize(5))");
    assert_eq!(
        MenuType::Var(names[5].clone()).to_text(),
        "TaggedTuple(Void, [Atom(Usize(1)), Atom(String(\"x\")), Void])"
    );
    for n in names {
        assert_eq!(MenuType::Var(n.clone()).to_text(), format!("{:?}", n));
    }
}

#[test]
fn fields_known_by_their_number() {
    assert_eq!(string_of_field_id(24860), Some("ok".to_string()));
    assert_eq!(string_of_field_id(1269255460), Some("rect".to_string()));
    assert_eq!(string_of_field_id(4996424), Some("dim".to_string()));
    assert_eq!(string_of_field_id(5594516), Some("pos".to_string()));
    assert_eq!(string_of_field_id(38537191), Some("height".to_string()));
    assert_eq!(string_of_field_id(3395466758), Some("width".to_string()));
    assert_eq!(string_of_field_id(120), Some("x".to_string()));
    assert_eq!(string_of_field_id(121), Some("y".to_string()));
    assert_eq!(string_of_field_id(240232876), Some("closed".to_string()));
    assert_eq!(string_of_field_id(0), None);
    assert_eq!(string_of_field_id(122), None);
}

#[test]
fn schemas_with_names_of_digests_cannot_be_written() {
    let digest = || Name::Merkle(1, Box::new(Name::Void));
    let unit = prim(PrimType::Unit);
    assert!(type_is_printable(&unit));
    assert!(type_is_printable(&MenuType::Var(name_of_str("v"))));
    assert!(!type_is_printable(&MenuType::Var(digest())));
    assert!(!type_is_printable(&MenuType::Product(vec![(digest(), unit.clone())])));
    assert!(!type_is_printable(&MenuType::Variant(vec![(
        name_of_str("a"),
        MenuType::Var(digest())
    )])));
    assert!(!type_is_printable(&MenuType::Option(Box::new(MenuType::Var(digest())))));
    assert!(!type_is_printable(&MenuType::Vec(Box::new(MenuType::Var(digest())))));
    assert!(!type_is_printable(&MenuType::Tup(vec![unit.clone(), MenuType::Var(digest())])));
    assert!(!type_is_printable(&MenuType::Func(FuncType {
        args: vec![],
        rets: vec![MenuType::Var(digest())]
    })));
    assert!(type_is_printable(&MenuType::Func(FuncType {
        args: vec![unit.clone()],
        rets: vec![unit.clone()]
    })));
}
