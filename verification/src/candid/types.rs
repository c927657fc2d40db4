//! From the types of an interface description to the schemas of the editor.

use crate::menu::model::{PrimType, Schema};
use crate::menu::{fields_model, types_model, FuncType, Label, MenuType};
use crate::types::lang::{Atom, AtomView, Name, NameView};
use vstd::prelude::*;

verus! {

/// The label of a field in an interface description.
#[derive(Debug)]
pub enum IdlLabel {
    Id(u32),
    Named(String),
    Unnamed(u32),
}

/// The primitive types of an interface description that stand for a
/// primitive of the editor, and one variant for all the others.
#[derive(Clone, Copy, Debug, PartialEq, Eq, Structural, Hash)]
pub enum IdlPrim {
    Nat,
    Int,
    Nat8,
    Text,
    Bool,
    Null,
    Other,
}

/// A type of an interface description.
#[derive(Debug)]
pub enum IdlType {
    PrimT(IdlPrim),
    VarT(String),
    FuncT(IdlFunc),
    OptT(Box<IdlType>),
    VecT(Box<IdlType>),
    RecordT(Vec<IdlTypeField>),
    VariantT(Vec<IdlTypeField>),
    ServT(Vec<IdlBinding>),
}

#[derive(Debug)]
pub struct IdlTypeField {
    pub label: IdlLabel,
    pub typ: IdlType,
}

#[derive(Debug)]
pub struct IdlFunc {
    pub args: Vec<IdlType>,
    pub rets: Vec<IdlType>,
}

/// A name bound to a type: a declaration, or a method of a service.
#[derive(Debug)]
pub struct IdlBinding {
    pub id: String,
    pub typ: IdlType,
}

#[derive(Debug)]
pub enum IdlDec {
    TypD(IdlBinding),
    ImportD(String),
}

/// A whole interface description: declarations and, maybe, a service.
#[derive(Debug)]
pub struct IdlProg {
    pub decs: Vec<IdlDec>,
    pub actor: Option<IdlType>,
}

/// The types bound so far: the binding made last counts.
pub type Env = Vec<(String, MenuType)>;

// ---------------------------------------------------------------------------
// What the data stands for

pub enum IdlLabelView {
    Id(u32),
    Named(Seq<char>),
    Unnamed(u32),
}

pub enum IdlTypeView {
    PrimT(IdlPrim),
    VarT(Seq<char>),
    FuncT(Seq<IdlTypeView>, Seq<IdlTypeView>),
    OptT(Box<IdlTypeView>),
    VecT(Box<IdlTypeView>),
    RecordT(Seq<(IdlLabelView, IdlTypeView)>),
    VariantT(Seq<(IdlLabelView, IdlTypeView)>),
    ServT(Seq<(Seq<char>, IdlTypeView)>),
}

impl View for IdlLabel {
    type V = IdlLabelView;

    open spec fn view(&self) -> IdlLabelView {
        match self {
            IdlLabel::Id(n) => IdlLabelView::Id(*n),
            IdlLabel::Named(s) => IdlLabelView::Named(s@),
            IdlLabel::Unnamed(n) => IdlLabelView::Unnamed(*n),
        }
    }
}

pub open spec fn idl_types_model(v: Seq<IdlType>) -> Seq<IdlTypeView>
    decreases v,
{
    Seq::new(v.len(), |i: int| if 0 <= i < v.len() { v[i].model() } else { arbitrary() })
}

pub open spec fn idl_fields_model(v: Seq<IdlTypeField>) -> Seq<(IdlLabelView, IdlTypeView)>
    decreases v,
{
    Seq::new(
        v.len(),
        |i: int| if 0 <= i < v.len() { (v[i].label@, v[i].typ.model()) } else { arbitrary() },
    )
}

pub open spec fn idl_bindings_model(v: Seq<IdlBinding>) -> Seq<(Seq<char>, IdlTypeView)>
    decreases v,
{
    Seq::new(
        v.len(),
        |i: int| if 0 <= i < v.len() { (v[i].id@, v[i].typ.model()) } else { arbitrary() },
    )
}

impl IdlType {
    pub open spec fn model(self) -> IdlTypeView
        decreases self,
    {
        match self {
            IdlType::PrimT(p) => IdlTypeView::PrimT(p),
            IdlType::VarT(v) => IdlTypeView::VarT(v@),
            IdlType::FuncT(f) => IdlTypeView::FuncT(idl_types_model(f.args@), idl_types_model(f.rets@)),
            IdlType::OptT(t) => IdlTypeView::OptT(Box::new(t.model())),
            IdlType::VecT(t) => IdlTypeView::VecT(Box::new(t.model())),
            IdlType::RecordT(fs) => IdlTypeView::RecordT(idl_fields_model(fs@)),
            IdlType::VariantT(fs) => IdlTypeView::VariantT(idl_fields_model(fs@)),
            IdlType::ServT(ms) => IdlTypeView::ServT(idl_bindings_model(ms@)),
        }
    }
}

impl View for IdlType {
    type V = IdlTypeView;

    open spec fn view(&self) -> IdlTypeView {
        self.model()
    }
}

/// What an environment stands for.
pub open spec fn env_model(env: Seq<(String, MenuType)>) -> Seq<(Seq<char>, Schema)> {
    Seq::new(env.len(), |i: int| (env[i].0@, env[i].1@))
}

// ---------------------------------------------------------------------------
// The translation

/// The name that a label stands for: its number, its text, or nothing.
pub open spec fn label_name(l: IdlLabelView) -> NameView {
    match l {
        IdlLabelView::Id(n) => NameView::Atom(AtomView::Usize(n as usize)),
        IdlLabelView::Named(s) => NameView::Atom(AtomView::String(s)),
        IdlLabelView::Unnamed(_) => NameView::Void,
    }
}

/// The schema that is just the name `v`.
pub open spec fn var_of(v: Seq<char>) -> Schema {
    Schema::Var(NameView::Atom(AtomView::String(v)))
}

/// What `key` is bound to among the first `n` bindings, the last one first.
pub open spec fn lookup(env: Seq<(Seq<char>, Schema)>, key: Seq<char>, n: nat) -> Option<Schema>
    decreases n,
{
    if n == 0 || n > env.len() {
        None
    } else if env[n - 1].0 == key {
        Some(env[n - 1].1)
    } else {
        lookup(env, key, (n - 1) as nat)
    }
}

/// Every name that the environment binds a name to is a text.
pub open spec fn env_ok(env: Seq<(Seq<char>, Schema)>) -> bool {
    forall|i: int|
        0 <= i < env.len() ==> ((#[trigger] env[i]).1 matches Schema::Var(n) ==> n matches NameView::Atom(
            AtomView::String(_),
        ))
}

/// The schema that the name `v` stands for: what it is bound to, followed
/// through bindings to further names, at most a hundred and one of them; the
/// name itself where it is not bound or the chain is longer.
pub open spec fn resolve(env: Seq<(Seq<char>, Schema)>, v: Seq<char>, depth: nat) -> Schema
    decreases 101 - depth,
{
    if depth > 100 {
        var_of(v)
    } else {
        match lookup(env, v, env.len()) {
            None => var_of(v),
            Some(Schema::Var(NameView::Atom(AtomView::String(w)))) => resolve(env, w, depth + 1),
            Some(t) => t,
        }
    }
}

/// The type can be translated: it holds none of the primitive types that
/// have no counterpart.
pub open spec fn translatable(t: IdlTypeView) -> bool
    decreases t,
{
    match t {
        IdlTypeView::PrimT(p) => p != IdlPrim::Other,
        IdlTypeView::VarT(_) => true,
        IdlTypeView::FuncT(args, rets) => (forall|i: int|
            0 <= i < args.len() ==> translatable(#[trigger] args[i])) && (forall|i: int|
            0 <= i < rets.len() ==> translatable(#[trigger] rets[i])),
        IdlTypeView::OptT(t) => translatable(*t),
        IdlTypeView::VecT(t) => translatable(*t),
        IdlTypeView::RecordT(fs) => forall|i: int|
            0 <= i < fs.len() ==> translatable((#[trigger] fs[i]).1),
        IdlTypeView::VariantT(fs) => forall|i: int|
            0 <= i < fs.len() ==> translatable((#[trigger] fs[i]).1),
        IdlTypeView::ServT(_) => true,
    }
}

/// The schema of a type. Records, variants, options, sequences and
/// procedures are translated part by part; a name is resolved in the
/// environment; `nat8` is a number like `nat`; a service stands for `null`.
pub open spec fn schema_of(env: Seq<(Seq<char>, Schema)>, t: IdlTypeView) -> Schema
    decreases t,
{
    match t {
        IdlTypeView::RecordT(fs) => Schema::Product(schema_fields(env, fs)),
        IdlTypeView::VariantT(fs) => Schema::Variant(schema_fields(env, fs)),
        IdlTypeView::OptT(t) => Schema::Option(Box::new(schema_of(env, *t))),
        IdlTypeView::VarT(v) => resolve(env, v, 0),
        IdlTypeView::VecT(t) => Schema::Vec(Box::new(schema_of(env, *t))),
        IdlTypeView::FuncT(args, rets) => Schema::Func(schema_list(env, args), schema_list(env, rets)),
        IdlTypeView::PrimT(p) => Schema::Prim(
            match p {
                IdlPrim::Nat => PrimType::Nat,
                IdlPrim::Int => PrimType::Int,
                IdlPrim::Nat8 => PrimType::Nat,
                IdlPrim::Text => PrimType::Text,
                IdlPrim::Bool => PrimType::Bool,
                _ => PrimType::Null,
            },
        ),
        IdlTypeView::ServT(_) => Schema::Prim(PrimType::Null),
    }
}

pub open spec fn schema_fields(
    env: Seq<(Seq<char>, Schema)>,
    fs: Seq<(IdlLabelView, IdlTypeView)>,
) -> Seq<(NameView, Schema)>
    decreases fs,
{
    Seq::new(
        fs.len(),
        |i: int| if 0 <= i < fs.len() { (label_name(fs[i].0), schema_of(env, fs[i].1)) } else { arbitrary() },
    )
}

pub open spec fn schema_list(env: Seq<(Seq<char>, Schema)>, ts: Seq<IdlTypeView>) -> Seq<Schema>
    decreases ts,
{
    Seq::new(ts.len(), |i: int| if 0 <= i < ts.len() { schema_of(env, ts[i]) } else { arbitrary() })
}

pub fn name_of_idllabel(l: &IdlLabel) -> (n: Name)
    ensures
        n@ == label_name(l@),
{
    match l {
        IdlLabel::Id(n) => Name::Atom(Atom::Usize(*n as usize)),
        IdlLabel::Named(n) => Name::Atom(Atom::String(n.clone())),
        IdlLabel::Unnamed(_) => Name::Void,
    }
}

/// What `key` is bound to, the binding made last first.
pub fn env_get<'a>(env: &'a Env, key: &String) -> (r: Option<&'a MenuType>)
    ensures
        match lookup(env_model(env@), key@, env@.len() as nat) {
            Some(s) => r matches Some(t) && t@ == s,
            None => r is None,
        },
{
    let mut i: usize = env.len();
    while i > 0
        invariant
            i <= env.len(),
            lookup(env_model(env@), key@, env@.len() as nat) == lookup(env_model(env@), key@, i as nat),
        decreases i,
    {
        if env[i - 1].0 == *key {
            return Some(&env[i - 1].1);
        }
        i -= 1;
    }
    None
}

pub fn menutype_resolve_var(env: &Env, v: &String, depth: usize) -> (typ: MenuType)
    requires
        env_ok(env_model(env@)),
    ensures
        typ@ == resolve(env_model(env@), v@, depth as nat),
    decreases 101 - depth,
{
    if depth > 100 {
        MenuType::Var(Name::Atom(Atom::String(v.clone())))
    } else {
        proof {
            lemma_lookup_is_bound(env_model(env@), v@, env@.len() as nat);
        }
        match env_get(env, v) {
            None => MenuType::Var(Name::Atom(Atom::String(v.clone()))),
            Some(MenuType::Var(Name::Atom(Atom::String(w)))) => menutype_resolve_var(env, w, depth + 1),
            Some(t) => t.clone(),
        }
    }
}

/// What `lookup` finds is one of the bindings.
pub proof fn lemma_lookup_is_bound(env: Seq<(Seq<char>, Schema)>, key: Seq<char>, n: nat)
    requires
        n <= env.len(),
    ensures
        lookup(env, key, n) matches Some(s) ==> exists|i: int| 0 <= i < env.len() && (#[trigger] env[i]).1 == s,
    decreases n,
{
    if n > 0 && env[n - 1].0 != key {
        lemma_lookup_is_bound(env, key, (n - 1) as nat);
    }
}

fn menutypes_of_idltypes(env: &Env, ts: &Vec<IdlType>) -> (r: Vec<MenuType>)
    requires
        env_ok(env_model(env@)),
        forall|i: int| 0 <= i < idl_types_model(ts@).len() ==> translatable(#[trigger] idl_types_model(ts@)[i]),
    ensures
        types_model(r@) == schema_list(env_model(env@), idl_types_model(ts@)),
    decreases ts,
{
    let mut out: Vec<MenuType> = Vec::new();
    let mut i: usize = 0;
    while i < ts.len()
        invariant
            env_ok(env_model(env@)),
            forall|k: int| 0 <= k < idl_types_model(ts@).len() ==> translatable(#[trigger] idl_types_model(ts@)[k]),
            i <= ts.len(),
            out.len() == i,
            forall|k: int| 0 <= k < i ==> out@[k]@ == schema_of(env_model(env@), ts@[k]@),
        decreases ts.len() - i,
    {
        assert(translatable(idl_types_model(ts@)[i as int]));
        out.push(menutype_of_idltype(env, &ts[i]));
        i += 1;
    }
    assert(types_model(out@) =~= schema_list(env_model(env@), idl_types_model(ts@)));
    out
}

fn menufields_of_idlfields(env: &Env, fields: &Vec<IdlTypeField>) -> (r: Vec<(Label, MenuType)>)
    requires
        env_ok(env_model(env@)),
        forall|i: int|
            0 <= i < idl_fields_model(fields@).len() ==> translatable(
                (#[trigger] idl_fields_model(fields@)[i]).1,
            ),
    ensures
        fields_model(r@) == schema_fields(env_model(env@), idl_fields_model(fields@)),
    decreases fields,
{
    let mut out: Vec<(Label, MenuType)> = Vec::new();
    let mut i: usize = 0;
    while i < fields.len()
        invariant
            env_ok(env_model(env@)),
            forall|k: int|
                0 <= k < idl_fields_model(fields@).len() ==> translatable(
                    (#[trigger] idl_fields_model(fields@)[k]).1,
                ),
            i <= fields.len(),
            out.len() == i,
            forall|k: int|
                0 <= k < i ==> out@[k].0@ == label_name(fields@[k].label@) && out@[k].1@
                    == schema_of(env_model(env@), fields@[k].typ@),
        decreases fields.len() - i,
    {
        assert(translatable(idl_fields_model(fields@)[i as int].1));
        let n = name_of_idllabel(&fields[i].label);
        let t = menutype_of_idltype(env, &fields[i].typ);
        out.push((n, t));
        i += 1;
    }
    assert(fields_model(out@) =~= schema_fields(env_model(env@), idl_fields_model(fields@)));
    out
}

/// The schema of a type of an interface description.
pub fn menutype_of_idltype(env: &Env, t: &IdlType) -> (typ: MenuType)
    requires
        env_ok(env_model(env@)),
        translatable(t@),
    ensures
        typ@ == schema_of(env_model(env@), t@),
    decreases t,
{
    match t {
        IdlType::RecordT(fields) => {
            assert(t@->RecordT_0 == idl_fields_model(fields@));
            MenuType::Product(menufields_of_idlfields(env, fields))
        },
        IdlType::VariantT(fields) => {
            assert(t@->VariantT_0 == idl_fields_model(fields@));
            MenuType::Variant(menufields_of_idlfields(env, fields))
        },
        IdlType::OptT(t) => MenuType::Option(Box::new(menutype_of_idltype(env, t))),
        IdlType::VarT(v) => menutype_resolve_var(env, v, 0),
        IdlType::VecT(t) => MenuType::Vec(Box::new(menutype_of_idltype(env, t))),
        IdlType::FuncT(ft) => {
            assert(t@->FuncT_0 == idl_types_model(ft.args@));
            assert(t@->FuncT_1 == idl_types_model(ft.rets@));
            let args = menutypes_of_idltypes(env, &ft.args);
            let rets = menutypes_of_idltypes(env, &ft.rets);
            MenuType::Func(FuncType { args, rets })
        },
        IdlType::PrimT(IdlPrim::Nat) => MenuType::Prim(PrimType::Nat),
        IdlType::PrimT(IdlPrim::Int) => MenuType::Prim(PrimType::Int),
        IdlType::PrimT(IdlPrim::Nat8) => MenuType::Prim(PrimType::Nat),
        IdlType::PrimT(IdlPrim::Text) => MenuType::Prim(PrimType::Text),
        IdlType::PrimT(IdlPrim::Bool) => MenuType::Prim(PrimType::Bool),
        IdlType::PrimT(_) => MenuType::Prim(PrimType::Null),
        IdlType::ServT(_) => MenuType::Prim(PrimType::Null),
    }
}

// ---------------------------------------------------------------------------
// A whole description

pub enum IdlDecView {
    TypD(Seq<char>, IdlTypeView),
    ImportD(Seq<char>),
}

pub struct IdlProgView {
    pub decs: Seq<IdlDecView>,
    pub actor: Option<IdlTypeView>,
}

impl View for IdlDec {
    type V = IdlDecView;

    open spec fn view(&self) -> IdlDecView {
        match self {
            IdlDec::TypD(b) => IdlDecView::TypD(b.id@, b.typ@),
            IdlDec::ImportD(s) => IdlDecView::ImportD(s@),
        }
    }
}

impl View for IdlProg {
    type V = IdlProgView;

    open spec fn view(&self) -> IdlProgView {
        IdlProgView {
            decs: Seq::new(self.decs@.len(), |i: int| self.decs@[i]@),
            actor: match self.actor {
                Some(t) => Some(t@),
                None => None,
            },
        }
    }
}

/// The environment that the first `n` declarations make: each declared name
/// bound to the schema of its type, translated with nothing bound.
pub open spec fn declared(decs: Seq<IdlDecView>, n: nat) -> Seq<(Seq<char>, Schema)>
    decreases n,
{
    if n == 0 || n > decs.len() {
        Seq::empty()
    } else {
        match decs[n - 1] {
            IdlDecView::TypD(id, t) => declared(decs, (n - 1) as nat).push(
                (id, schema_of(Seq::empty(), t)),
            ),
            IdlDecView::ImportD(_) => declared(decs, (n - 1) as nat),
        }
    }
}

/// The schema of the arguments of a method: a tuple of them, or unit where
/// there are none.
pub open spec fn method_schema(env: Seq<(Seq<char>, Schema)>, t: IdlTypeView) -> Schema {
    match t {
        IdlTypeView::FuncT(args, _) => if args.len() > 0 {
            Schema::Tup(schema_list(env, args))
        } else {
            Schema::Prim(PrimType::Unit)
        },
        _ => Schema::Prim(PrimType::Unit),
    }
}

/// One arm for each method: its name, and the schema of its arguments.
pub open spec fn method_arms(
    env: Seq<(Seq<char>, Schema)>,
    methods: Seq<(Seq<char>, IdlTypeView)>,
) -> Seq<(NameView, Schema)> {
    Seq::new(
        methods.len(),
        |i: int| (NameView::Atom(AtomView::String(methods[i].0)), method_schema(env, methods[i].1)),
    )
}

impl IdlProgView {
    /// The description can be translated: it only declares types, all of
    /// them translatable, and has a service whose methods are procedures
    /// with translatable arguments.
    pub open spec fn wf(self) -> bool {
        &&& forall|i: int|
            0 <= i < self.decs.len() ==> ((#[trigger] self.decs[i]) matches IdlDecView::TypD(_, t)
                && translatable(t))
        &&& self.actor matches Some(IdlTypeView::ServT(methods)) && forall|i: int|
            0 <= i < methods.len() ==> ((#[trigger] methods[i]).1 matches IdlTypeView::FuncT(args, _)
                && forall|j: int| 0 <= j < args.len() ==> translatable(#[trigger] args[j]))
    }

    /// The schema of the service: a union with one arm for each method.
    pub open spec fn schema(self) -> Schema {
        match self.actor {
            Some(IdlTypeView::ServT(methods)) => Schema::Variant(
                method_arms(declared(self.decs, self.decs.len()), methods),
            ),
            _ => Schema::Prim(PrimType::Null),
        }
    }
}

/// A schema translated in a sound environment is a name only where that
/// name is a text.
pub proof fn lemma_schema_var_is_text(env: Seq<(Seq<char>, Schema)>, t: IdlTypeView)
    requires
        env_ok(env),
    ensures
        schema_of(env, t) matches Schema::Var(n) ==> n matches NameView::Atom(AtomView::String(_)),
{
    match t {
        IdlTypeView::VarT(v) => lemma_resolve_var_is_text(env, v, 0),
        _ => {},
    }
}

proof fn lemma_resolve_var_is_text(env: Seq<(Seq<char>, Schema)>, v: Seq<char>, depth: nat)
    requires
        env_ok(env),
    ensures
        resolve(env, v, depth) matches Schema::Var(n) ==> n matches NameView::Atom(
            AtomView::String(_),
        ),
    decreases 101 - depth,
{
    if depth <= 100 {
        lemma_lookup_is_bound(env, v, env.len());
        match lookup(env, v, env.len()) {
            Some(Schema::Var(NameView::Atom(AtomView::String(w)))) => {
                lemma_resolve_var_is_text(env, w, depth + 1);
            },
            _ => {},
        }
    }
}

/// The schema of the service of an interface description: a union with one
/// arm for each method, which holds the arguments of the method.
pub fn menutype_of_idlprog(p: &IdlProg) -> (typ: MenuType)
    requires
        p@.wf(),
    ensures
        typ@ == p@.schema(),
{
    let emp: Env = Vec::new();
    let mut env: Env = Vec::new();
    assert(env_model(emp@) =~= Seq::empty());
    assert(env_model(env@) =~= declared(p@.decs, 0));
    let mut i: usize = 0;
    while i < p.decs.len()
        invariant
            p@.wf(),
            emp@.len() == 0,
            i <= p.decs.len(),
            env_model(env@) == declared(p@.decs, i as nat),
            env_ok(env_model(env@)),
        decreases p.decs.len() - i,
    {
        assert(env_model(emp@) =~= Seq::empty());
        assert(p@.decs[i as int] == p.decs@[i as int]@);
        match &p.decs[i] {
            IdlDec::TypD(b) => {
                let t = menutype_of_idltype(&emp, &b.typ);
                proof {
                    lemma_schema_var_is_text(Seq::empty(), b.typ@);
                }
                let ghost before = env_model(env@);
                env.push((b.id.clone(), t));
                assert(env_model(env@) =~= before.push((b.id@, t@)));
            },
            IdlDec::ImportD(_) => {},
        }
        i += 1;
    }
    match &p.actor {
        Some(IdlType::ServT(methods)) => {
            let ghost ms = idl_bindings_model(methods@);
            assert(p@.actor == Some(IdlTypeView::ServT(ms)));
            let mut choices: Vec<(Label, MenuType)> = Vec::new();
            let mut k: usize = 0;
            while k < methods.len()
                invariant
                    ms == idl_bindings_model(methods@),
                    ms.len() == methods@.len(),
                    forall|i: int|
                        0 <= i < ms.len() ==> ((#[trigger] ms[i]).1 matches IdlTypeView::FuncT(args, _)
                            && forall|j: int| 0 <= j < args.len() ==> translatable(#[trigger] args[j])),
                    env_ok(env_model(env@)),
                    k <= methods.len(),
                    choices.len() == k,
                    forall|j: int|
                        0 <= j < k ==> choices@[j].0@ == NameView::Atom(AtomView::String(ms[j].0))
                            && choices@[j].1@ == method_schema(env_model(env@), ms[j].1),
                decreases methods.len() - k,
            {
                let method = &methods[k];
                assert(ms[k as int] == (method.id@, method.typ@));
                let t = match &method.typ {
                    IdlType::FuncT(ft) => {
                        assert(method.typ@->FuncT_0 == idl_types_model(ft.args@));
                        if ft.args.len() > 0 {
                            MenuType::Tup(menutypes_of_idltypes(&env, &ft.args))
                        } else {
                            MenuType::Prim(PrimType::Unit)
                        }
                    },
                    _ => MenuType::Prim(PrimType::Unit),
                };
                choices.push((Name::Atom(Atom::String(method.id.clone())), t));
                k += 1;
            }
            assert(fields_model(choices@) =~= method_arms(env_model(env@), ms));
            MenuType::Variant(choices)
        },
        _ => MenuType::Prim(PrimType::Null),
    }
}

// ---------------------------------------------------------------------------
// Asking first

/// Whether every name that the environment binds a name to is a text.
pub fn env_is_ok(env: &Env) -> (r: bool)
    ensures
        r == env_ok(env_model(env@)),
{
    let mut i: usize = 0;
    while i < env.len()
        invariant
            i <= env.len(),
            forall|k: int|
                0 <= k < i ==> ((#[trigger] env_model(env@)[k]).1 matches Schema::Var(n) ==> n matches NameView::Atom(
                    AtomView::String(_),
                )),
        decreases env.len() - i,
    {
        assert(env_model(env@)[i as int].1 == env@[i as int].1@);
        let ok = match &env[i].1 {
            MenuType::Var(Name::Atom(Atom::String(_))) => true,
            MenuType::Var(_) => false,
            _ => true,
        };
        if !ok {
            return false;
        }
        i += 1;
    }
    true
}

/// Whether every type of the list can be translated.
pub fn are_translatable(ts: &Vec<IdlType>) -> (r: bool)
    ensures
        r == (forall|i: int|
            0 <= i < idl_types_model(ts@).len() ==> translatable(#[trigger] idl_types_model(ts@)[i])),
    decreases ts,
{
    let mut i: usize = 0;
    while i < ts.len()
        invariant
            i <= ts.len(),
            forall|k: int| 0 <= k < i ==> translatable(ts@[k]@),
        decreases ts.len() - i,
    {
        if !is_translatable(&ts[i]) {
            assert(!translatable(idl_types_model(ts@)[i as int]));
            return false;
        }
        i += 1;
    }
    assert forall|k: int| 0 <= k < idl_types_model(ts@).len() implies translatable(
        #[trigger] idl_types_model(ts@)[k],
    ) by {
        assert(translatable(ts@[k]@));
    }
    true
}

/// Whether the type of every field can be translated.
pub fn fields_are_translatable(fields: &Vec<IdlTypeField>) -> (r: bool)
    ensures
        r == (forall|i: int|
            0 <= i < idl_fields_model(fields@).len() ==> translatable(
                (#[trigger] idl_fields_model(fields@)[i]).1,
            )),
    decreases fields,
{
    let mut i: usize = 0;
    while i < fields.len()
        invariant
            i <= fields.len(),
            forall|k: int| 0 <= k < i ==> translatable(fields@[k].typ@),
        decreases fields.len() - i,
    {
        if !is_translatable(&fields[i].typ) {
            assert(!translatable(idl_fields_model(fields@)[i as int].1));
            return false;
        }
        i += 1;
    }
    assert forall|k: int| 0 <= k < idl_fields_model(fields@).len() implies translatable(
        (#[trigger] idl_fields_model(fields@)[k]).1,
    ) by {
        assert(translatable(fields@[k].typ@));
    }
    true
}

/// Whether the type can be translated.
pub fn is_translatable(t: &IdlType) -> (r: bool)
    ensures
        r == translatable(t@),
    decreases t,
{
    match t {
        IdlType::PrimT(p) => match p {
            IdlPrim::Other => false,
            _ => true,
        },
        IdlType::VarT(_) => true,
        IdlType::FuncT(ft) => {
            assert(t@->FuncT_0 == idl_types_model(ft.args@));
            assert(t@->FuncT_1 == idl_types_model(ft.rets@));
            are_translatable(&ft.args) && are_translatable(&ft.rets)
        },
        IdlType::OptT(inner) => is_translatable(inner),
        IdlType::VecT(inner) => is_translatable(inner),
        IdlType::RecordT(fields) => {
            assert(t@->RecordT_0 == idl_fields_model(fields@));
            fields_are_translatable(fields)
        },
        IdlType::VariantT(fields) => {
            assert(t@->VariantT_0 == idl_fields_model(fields@));
            fields_are_translatable(fields)
        },
        IdlType::ServT(_) => true,
    }
}

impl IdlProg {
    /// Whether the description can be translated.
    pub fn is_wf(&self) -> (r: bool)
        ensures
            r == self@.wf(),
    {
        let mut i: usize = 0;
        while i < self.decs.len()
            invariant
                i <= self.decs.len(),
                forall|k: int|
                    0 <= k < i ==> ((#[trigger] self@.decs[k]) matches IdlDecView::TypD(_, t)
                        && translatable(t)),
            decreases self.decs.len() - i,
        {
            assert(self@.decs[i as int] == self.decs@[i as int]@);
            let ok = match &self.decs[i] {
                IdlDec::TypD(b) => is_translatable(&b.typ),
                IdlDec::ImportD(_) => false,
            };
            if !ok {
                return false;
            }
            i += 1;
        }
        match &self.actor {
            Some(IdlType::ServT(methods)) => {
                let ghost ms = idl_bindings_model(methods@);
                assert(self@.actor == Some(IdlTypeView::ServT(ms)));
                let mut k: usize = 0;
                while k < methods.len()
                    invariant
                        ms == idl_bindings_model(methods@),
                        ms.len() == methods@.len(),
                        self@.actor == Some(IdlTypeView::ServT(ms)),
                        forall|i: int|
                            0 <= i < self@.decs.len() ==> ((#[trigger] self@.decs[i]) matches IdlDecView::TypD(
                                _,
                                t,
                            ) && translatable(t)),
                        k <= methods.len(),
                        forall|i: int|
                            0 <= i < k ==> ((#[trigger] ms[i]).1 matches IdlTypeView::FuncT(args, _)
                                && forall|j: int|
                                0 <= j < args.len() ==> translatable(#[trigger] args[j])),
                    decreases methods.len() - k,
                {
                    assert(ms[k as int] == (methods@[k as int].id@, methods@[k as int].typ@));
                    let ok = match &methods[k].typ {
                        IdlType::FuncT(ft) => {
                            assert(methods@[k as int].typ@->FuncT_0 == idl_types_model(ft.args@));
                            are_translatable(&ft.args)
                        },
                        _ => false,
                    };
                    if !ok {
                        return false;
                    }
                    k += 1;
                }
                true
            },
            _ => false,
        }
    }
}

} // verus!
