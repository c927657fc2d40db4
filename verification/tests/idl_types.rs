use zqm_engine::candid::types::{
    env_get, env_is_ok, menutype_of_idlprog, menutype_of_idltype, menutype_resolve_var, name_of_idllabel, Env,
    IdlBinding, IdlDec, IdlFunc, IdlLabel, IdlPrim, IdlProg, IdlType, IdlTypeField,
};
use zqm_engine::menu::{FuncType, MenuType, PrimType};
use zqm_engine::types::lang::Name;
use zqm_engine::types::util::{name_of_str, name_of_usize};

fn prim(p: IdlPrim) -> IdlType {
    IdlType::PrimT(p)
}

fn nat_type() -> MenuType {
    MenuType::Prim(PrimType::Nat)
}

fn field(label: IdlLabel, typ: IdlType) -> IdlTypeField {
    IdlTypeField { label, typ }
}

fn method(id: &str, args: Vec<IdlType>) -> IdlBinding {
    IdlBinding {
        id: id.to_string(),
        typ: IdlType::FuncT(IdlFunc { args, rets: vec![] }),
    }
}

fn var(v: &str) -> MenuType {
    MenuType::Var(name_of_str(v))
}

/// A service of three methods, the last of which takes a record of unnamed
/// and numbered fields that nests a record and a variant.
fn server() -> IdlProg {
    let inner = IdlType::RecordT(vec![
        field(IdlLabel::Unnamed(0), prim(IdlPrim::Nat)),
        field(IdlLabel::Id(0x2a), prim(IdlPrim::Nat)),
        field(IdlLabel::Unnamed(43), prim(IdlPrim::Nat8)),
    ]);
    let choice = IdlType::VariantT(vec![
        field(IdlLabel::Named("A".to_string()), prim(IdlPrim::Null)),
        field(IdlLabel::Id(0x2a), prim(IdlPrim::Null)),
        field(IdlLabel::Named("B".to_string()), prim(IdlPrim::Null)),
        field(IdlLabel::Named("C".to_string()), prim(IdlPrim::Null)),
    ]);
    let b = IdlType::RecordT(vec![
        field(IdlLabel::Unnamed(0), prim(IdlPrim::Nat)),
        field(IdlLabel::Unnamed(1), prim(IdlPrim::Nat)),
        field(IdlLabel::Unnamed(2), inner),
        field(IdlLabel::Id(42), prim(IdlPrim::Nat)),
        field(IdlLabel::Id(40), prim(IdlPrim::Nat)),
        field(IdlLabel::Unnamed(41), choice),
    ]);
    IdlProg {
        decs: vec![],
        actor: Some(IdlType::ServT(vec![
            method("f", vec![prim(IdlPrim::Nat), prim(IdlPrim::Nat)]),
            method("g", vec![prim(IdlPrim::Text), prim(IdlPrim::Nat)]),
            method("h", vec![prim(IdlPrim::Nat), b]),
        ])),
    }
}

#[test]
fn doit() {
    let ast = server();
    let menu = menutype_of_idlprog(&ast);
    drop(menu);
}

#[test]
fn the_service_becomes_a_union_of_its_methods() {
    let null = MenuType::Prim(PrimType::Null);
    let expected = MenuType::Variant(vec![
        (name_of_str("f"), MenuType::Tup(vec![nat_type(), nat_type()])),
        (
            name_of_str("g"),
            MenuType::Tup(vec![MenuType::Prim(PrimType::Text), nat_type()]),
        ),
        (
            name_of_str("h"),
            MenuType::Tup(vec![
                nat_type(),
                MenuType::Product(vec![
                    (Name::Void, nat_type()),
                    (Name::Void, nat_type()),
                    (
                        Name::Void,
                        MenuType::Product(vec![
                            (Name::Void, nat_type()),
                            (name_of_usize(42), nat_type()),
                            (Name::Void, nat_type()),
                        ]),
                    ),
                    (name_of_usize(42), nat_type()),
                    (name_of_usize(40), nat_type()),
                    (
                        Name::Void,
                        MenuType::Variant(vec![
                            (name_of_str("A"), null.clone()),
                            (name_of_usize(42), null.clone()),
                            (name_of_str("B"), null.clone()),
                            (name_of_str("C"), null.clone()),
                        ]),
                    ),
                ]),
            ]),
        ),
    ]);
    assert_eq!(menutype_of_idlprog(&server()), expected);
}

#[test]
fn a_method_without_arguments_takes_unit() {
    let p = IdlProg {
        decs: vec![],
        actor: Some(IdlType::ServT(vec![method("ping", vec![])])),
    };
    assert_eq!(
        menutype_of_idlprog(&p),
        MenuType::Variant(vec![(name_of_str("ping"), MenuType::Prim(PrimType::Unit))])
    );
    let empty = IdlProg { decs: vec![], actor: Some(IdlType::ServT(vec![])) };
    assert_eq!(menutype_of_idlprog(&empty), MenuType::Variant(vec![]));
}

#[test]
fn labels_become_names() {
    assert_eq!(name_of_idllabel(&IdlLabel::Id(7)), name_of_usize(7));
    assert_eq!(name_of_idllabel(&IdlLabel::Named("n".to_string())), name_of_str("n"));
    assert_eq!(name_of_idllabel(&IdlLabel::Unnamed(7)), Name::Void);
}

#[test]
fn every_kind_of_type_is_translated() {
    let env: Env = vec![];
    assert_eq!(menutype_of_idltype(&env, &prim(IdlPrim::Nat)), nat_type());
    assert_eq!(menutype_of_idltype(&env, &prim(IdlPrim::Nat8)), nat_type());
    assert_eq!(
        menutype_of_idltype(&env, &prim(IdlPrim::Int)),
        MenuType::Prim(PrimType::Int)
    );
    assert_eq!(
        menutype_of_idltype(&env, &prim(IdlPrim::Text)),
        MenuType::Prim(PrimType::Text)
    );
    assert_eq!(
        menutype_of_idltype(&env, &prim(IdlPrim::Bool)),
        MenuType::Prim(PrimType::Bool)
    );
    assert_eq!(
        menutype_of_idltype(&env, &prim(IdlPrim::Null)),
        MenuType::Prim(PrimType::Null)
    );
    assert_eq!(
        menutype_of_idltype(&env, &IdlType::ServT(vec![method("m", vec![])])),
        MenuType::Prim(PrimType::Null)
    );
    assert_eq!(
        menutype_of_idltype(&env, &IdlType::OptT(Box::new(prim(IdlPrim::Nat)))),
        MenuType::Option(Box::new(nat_type()))
    );
    assert_eq!(
        menutype_of_idltype(&env, &IdlType::VecT(Box::new(prim(IdlPrim::Nat)))),
        MenuType::Vec(Box::new(nat_type()))
    );
    assert_eq!(
        menutype_of_idltype(
            &env,
            &IdlType::FuncT(IdlFunc {
                args: vec![prim(IdlPrim::Nat)],
                rets: vec![prim(IdlPrim::Bool), IdlType::VarT("t".to_string())]
            })
        ),
        MenuType::Func(FuncType {
            args: vec![nat_type()],
            rets: vec![MenuType::Prim(PrimType::Bool), var("t")]
        })
    );
    assert_eq!(menutype_of_idltype(&env, &IdlType::VarT("t".to_string())), var("t"));
}

#[test]
fn names_are_resolved_through_the_environment() {
    let env: Env = vec![
        ("a".to_string(), var("b")),
        ("b".to_string(), var("c")),
        ("c".to_string(), nat_type()),
        ("loop".to_string(), var("loop")),
        ("c".to_string(), MenuType::Prim(PrimType::Text)),
        ("open".to_string(), var("nowhere")),
    ];
    let text = MenuType::Prim(PrimType::Text);
    // The binding made last counts.
    assert_eq!(env_get(&env, &"c".to_string()), Some(&text));
    assert_eq!(env_get(&env, &"a".to_string()), Some(&var("b")));
    assert_eq!(env_get(&env, &"z".to_string()), None);
    assert_eq!(menutype_resolve_var(&env, &"c".to_string(), 0), text);
    assert_eq!(menutype_resolve_var(&env, &"a".to_string(), 0), text);
    assert_eq!(menutype_resolve_var(&env, &"z".to_string(), 0), var("z"));
    assert_eq!(menutype_resolve_var(&env, &"open".to_string(), 0), var("nowhere"));
    // A chain that does not end is given up, and the name is left.
    assert_eq!(menutype_resolve_var(&env, &"loop".to_string(), 0), var("loop"));
    // Past the depth bound nothing is looked up.
    assert_eq!(menutype_resolve_var(&env, &"a".to_string(), 101), var("a"));
    assert_eq!(menutype_resolve_var(&env, &"a".to_string(), 100), var("b"));
    assert_eq!(menutype_resolve_var(&env, &"a".to_string(), 99), var("c"));
    assert_eq!(menutype_resolve_var(&env, &"a".to_string(), 98), text);
    assert_eq!(
        menutype_of_idltype(&env, &IdlType::VecT(Box::new(IdlType::VarT("b".to_string())))),
        MenuType::Vec(Box::new(text.clone()))
    );
}

#[test]
fn declarations_are_translated_with_nothing_bound() {
    let p = IdlProg {
        decs: vec![
            IdlDec::TypD(IdlBinding { id: "t".to_string(), typ: prim(IdlPrim::Nat) }),
            IdlDec::TypD(IdlBinding {
                id: "pair".to_string(),
                typ: IdlType::RecordT(vec![
                    field(IdlLabel::Named("fst".to_string()), IdlType::VarT("t".to_string())),
                    field(IdlLabel::Named("snd".to_string()), prim(IdlPrim::Bool)),
                ]),
            }),
            IdlDec::TypD(IdlBinding { id: "alias".to_string(), typ: IdlType::VarT("t".to_string()) }),
        ],
        actor: Some(IdlType::ServT(vec![method(
            "m",
            vec![
                IdlType::VarT("t".to_string()),
                IdlType::VarT("pair".to_string()),
                IdlType::VarT("alias".to_string()),
                IdlType::VarT("unknown".to_string()),
            ],
        )])),
    };
    assert_eq!(
        menutype_of_idlprog(&p),
        MenuType::Variant(vec![(
            name_of_str("m"),
            MenuType::Tup(vec![
                nat_type(),
                // Inside a declaration the name `t` was not yet resolved.
                MenuType::Product(vec![
                    (name_of_str("fst"), var("t")),
                    (name_of_str("snd"), MenuType::Prim(PrimType::Bool)),
                ]),
                nat_type(),
                var("unknown"),
            ])
        )])
    );
}

#[test]
fn environments_that_bind_to_other_names_than_texts_are_told_apart() {
    assert!(env_is_ok(&vec![]));
    assert!(env_is_ok(&vec![("a".to_string(), var("b")), ("b".to_string(), nat_type())]));
    assert!(!env_is_ok(&vec![
        ("a".to_string(), var("b")),
        ("b".to_string(), MenuType::Var(name_of_usize(1)))
    ]));
    assert!(!env_is_ok(&vec![("a".to_string(), MenuType::Var(Name::Void))]));
}
