use vstd::prelude::*;
use vstd::string::StringExecFns;

use crate::syntax::{
    Binding, FieldDecl, FieldList, FnArg, ImplDecl, ImplMember, Item, MethodDecl, SelfType, SourceFile,
    SourceVisibility, StructDecl,
};
use crate::render::{
    is_field_or_method, is_parameter, join, members_text, parameter_text, parameter_texts, render_text,
};
use crate::types::{
    contains_string, dependency_tokens, has_delimiter, is_delimiter, remove_spaces, string_views, strip_spaces, type_tokens,
    Entity, EntityType, Visibility,
};

verus! {

/// `pub` makes a declaration public; anything else leaves it private.
pub open spec fn visibility_of(v: SourceVisibility) -> Visibility {
    if v is Public {
        Visibility::Public
    } else {
        Visibility::Private
    }
}

/// A childless field entity that only carries a name.
pub open spec fn is_token_entity(e: Entity, token: Seq<char>) -> bool {
    &&& e.entity_type is Field
    &&& e.entity_type->Field_0@ == Seq::<char>::empty()
    &&& e.name@ == token
    &&& e.fields@.len() == 0
    &&& e.visibility == Visibility::Private
}

/// The synthetic entity that lists the names a type expression refers to.
pub open spec fn is_dependency_entity(e: Entity, ty: Seq<char>) -> bool {
    &&& e.entity_type is Struct
    &&& e.name@ == ty
    &&& e.visibility == Visibility::Private
    &&& e.fields@.len() == type_tokens(ty).len()
    &&& forall|i: int|
        0 <= i < e.fields@.len() ==> is_token_entity(#[trigger] e.fields@[i], type_tokens(ty)[i])
}

/// The identifier of a field, empty where it has none.
pub open spec fn ident_text(ident: Option<String>) -> Seq<char> {
    match ident {
        Some(s) => s@,
        None => Seq::empty(),
    }
}

/// The entity built for a struct field.
pub open spec fn is_field_entity(e: Entity, f: FieldDecl) -> bool {
    let ty = strip_spaces(f.ty@);
    &&& e.entity_type is Field
    &&& e.entity_type->Field_0@ == ident_text(f.ident)
    &&& e.name@ == ty
    &&& e.visibility == visibility_of(f.vis)
    &&& if has_delimiter(ty) {
        e.fields@.len() == 1 && is_dependency_entity(e.fields@[0], ty)
    } else {
        e.fields@.len() == 0
    }
}

/// The entities built for a list of fields, one for each, in order.
pub open spec fn are_field_entities(es: Seq<Entity>, fs: Seq<FieldDecl>) -> bool {
    &&& es.len() == fs.len()
    &&& forall|i: int| 0 <= i < es.len() ==> is_field_entity(#[trigger] es[i], fs[i])
}

/// The fields that give members: those of a struct with named fields.
pub open spec fn named_fields(fl: FieldList) -> Seq<FieldDecl> {
    match fl {
        FieldList::Named(v) => v@,
        _ => Seq::empty(),
    }
}

/// An argument that becomes a parameter: typed, bound to a plain identifier.
pub open spec fn is_named_parameter(a: FnArg) -> bool {
    a is Typed && a->Typed_0 is Ident
}

/// The arguments that become parameters, in order.
pub open spec fn named_parameters(inputs: Seq<FnArg>) -> Seq<FnArg> {
    inputs.filter(|a: FnArg| is_named_parameter(a))
}

/// The entity built for a named parameter.
pub open spec fn is_parameter_entity(e: Entity, a: FnArg) -> bool {
    &&& e.entity_type is Parameter
    &&& e.entity_type->Parameter_0@ == a->Typed_0->Ident_0@
    &&& e.name@ == strip_spaces(a->Typed_1@)
    &&& e.fields@.len() == 0
    &&& e.visibility == Visibility::Private
}

/// The entity built for a method: its name, visibility and parameters.
pub open spec fn is_method_entity(e: Entity, m: MethodDecl) -> bool {
    let ps = named_parameters(m.inputs@);
    &&& e.entity_type is Method
    &&& e.entity_type->Method_0@ == m.ident@
    &&& e.name@ == m.ident@
    &&& e.visibility == visibility_of(m.vis)
    &&& e.fields@.len() == ps.len()
    &&& forall|i: int| 0 <= i < ps.len() ==> is_parameter_entity(#[trigger] e.fields@[i], ps[i])
}

/// The entities built for a list of methods, one for each, in order.
pub open spec fn are_method_entities(es: Seq<Entity>, ms: Seq<MethodDecl>) -> bool {
    &&& es.len() == ms.len()
    &&& forall|i: int| 0 <= i < es.len() ==> is_method_entity(#[trigger] es[i], ms[i])
}

/// The associated functions of an impl block, in order.
pub open spec fn impl_methods(im: ImplDecl) -> Seq<MethodDecl> {
    im.items@.filter(|x: ImplMember| x is Method).map_values(|x: ImplMember| x->Method_0)
}

/// The name of the type that an impl block adds methods to: none for a
/// trait impl, or a target that is not a single path segment without
/// generic arguments.
pub open spec fn impl_target(im: ImplDecl) -> Option<Seq<char>> {
    if !im.is_trait_impl && im.self_ty is Path && im.self_ty->Path_0@.len() == 1
        && !im.self_ty->Path_0@[0].has_arguments {
        Some(im.self_ty->Path_0@[0].ident@)
    } else {
        None
    }
}

/// The methods of every impl block among `items` whose target is `name`,
/// in order.
pub open spec fn attached_methods(items: Seq<Item>, name: Seq<char>) -> Seq<MethodDecl>
    decreases items.len(),
{
    if items.len() == 0 {
        Seq::empty()
    } else {
        attached_methods(items.drop_last(), name) + match items.last() {
            Item::Impl(im) => if impl_target(im) == Some(name) {
                impl_methods(im)
            } else {
                Seq::empty()
            },
            _ => Seq::empty(),
        }
    }
}

/// The struct declarations among `items`, in order.
pub open spec fn struct_decls(items: Seq<Item>) -> Seq<StructDecl> {
    items.filter(|x: Item| x is Struct).map_values(|x: Item| x->Struct_0)
}

/// Whether no struct before the `i`th has its name.
pub open spec fn first_of_name(ss: Seq<StructDecl>, i: int) -> bool {
    forall|j: int| 0 <= j < i ==> (#[trigger] ss[j]).ident@ != ss[i].ident@
}

/// The entity of a struct: its fields' entities, then the entities of
/// `methods`.
pub open spec fn is_struct_entity(e: Entity, s: StructDecl, methods: Seq<MethodDecl>) -> bool {
    let fs = named_fields(s.fields);
    &&& e.entity_type is Struct
    &&& e.name@ == s.ident@
    &&& e.visibility == visibility_of(s.vis)
    &&& e.fields@.len() == fs.len() + methods.len()
    &&& are_field_entities(e.fields@.take(fs.len() as int), fs)
    &&& are_method_entities(e.fields@.skip(fs.len() as int), methods)
}

/// The entities built for a whole file: one per struct, in order; the first
/// struct of each name gets the methods of the impl blocks for that name.
pub open spec fn are_file_entities(es: Seq<Entity>, items: Seq<Item>) -> bool {
    let ss = struct_decls(items);
    &&& es.len() == ss.len()
    &&& forall|i: int|
        0 <= i < es.len() ==> is_struct_entity(
            #[trigger] es[i],
            ss[i],
            if first_of_name(ss, i) {
                attached_methods(items, ss[i].ident@)
            } else {
                Seq::empty()
            },
        )
}

/// The `name: Type` text of a named parameter.
pub open spec fn argument_text(a: FnArg) -> Seq<char> {
    a->Typed_0->Ident_0@ + ": "@ + strip_spaces(a->Typed_1@)
}

proof fn lemma_filter_keeps_all<A>(s: Seq<A>, p: spec_fn(A) -> bool)
    requires
        forall|i: int| 0 <= i < s.len() ==> p(#[trigger] s[i]),
    ensures
        s.filter(p) == s,
    decreases s.len(),
{
    if s.len() == 0 {
        s.lemma_filter_len(p);
        assert(s.filter(p) =~= s);
    } else {
        let q = s.drop_last();
        assert forall|i: int| 0 <= i < q.len() implies p(#[trigger] q[i]) by {
            assert(q[i] == s[i]);
        }
        lemma_filter_keeps_all(q, p);
        q.lemma_filter_push(s.last(), p);
        assert(p(s[s.len() - 1]));
        assert(q.push(s.last()) == s);
    }
}

proof fn lemma_no_member_lines(e: Entity, n: nat)
    requires
        forall|i: int| 0 <= i < e.fields@.len() ==> !is_field_or_method(#[trigger] e.fields@[i]),
    ensures
        members_text(e, n) == Seq::<char>::empty(),
    decreases n,
{
    if n > 0 && n <= e.fields@.len() {
        lemma_no_member_lines(e, (n - 1) as nat);
        assert(!is_field_or_method(e.fields@[n - 1]));
    }
}

/// A method entity renders as one line: the method's name, then the
/// `name: Type` text of each argument bound to an identifier, in order,
/// joined by `, `; the receiver and other bindings leave no trace.
pub proof fn law_method_line(e: Entity, m: MethodDecl)
    requires
        is_method_entity(e, m),
    ensures
        render_text(e) == "    + "@ + m.ident@ + "("@ + join(
            named_parameters(m.inputs@).map_values(|a: FnArg| argument_text(a)),
            ", "@,
        ) + ")\n"@,
{
    let ps = named_parameters(m.inputs@);
    assert forall|i: int| 0 <= i < e.fields@.len() implies !is_field_or_method(#[trigger] e.fields@[i]) by {
        assert(is_parameter_entity(e.fields@[i], ps[i]));
    }
    lemma_no_member_lines(e, e.fields@.len());
    assert forall|i: int| 0 <= i < e.fields@.len() implies (|p: Entity| is_parameter(p))(#[trigger] e.fields@[i]) by {
        assert(is_parameter_entity(e.fields@[i], ps[i]));
    }
    lemma_filter_keeps_all(e.fields@, |p: Entity| is_parameter(p));
    assert forall|i: int| 0 <= i < ps.len() implies parameter_text(e.fields@[i]) == argument_text(ps[i]) by {
        assert(is_parameter_entity(e.fields@[i], ps[i]));
    }
    assert(parameter_texts(e.fields@) =~= ps.map_values(|a: FnArg| argument_text(a)));
}

/// The member line of a struct field.
pub open spec fn field_line(f: FieldDecl) -> Seq<char> {
    "    + "@ + ident_text(f.ident) + ": "@ + strip_spaces(f.ty@) + "\n"@
}

proof fn lemma_field_lines(e: Entity, fs: Seq<FieldDecl>, n: nat)
    requires
        e.fields@.len() == fs.len(),
        are_field_entities(e.fields@, fs),
        n <= fs.len(),
    ensures
        members_text(e, n) == fs.take(n as int).map_values(|f: FieldDecl| field_line(f)).flatten(),
    decreases n,
{
    let line = |f: FieldDecl| field_line(f);
    if n == 0 {
        assert(fs.take(0).map_values(line) =~= Seq::<Seq<char>>::empty());
    } else {
        lemma_field_lines(e, fs, (n - 1) as nat);
        let c = e.fields@[n - 1];
        assert(is_field_entity(c, fs[n - 1]));
        assert(fs.take(n as int) == fs.take(n - 1).push(fs[n - 1]));
        fs.take(n - 1).lemma_push_map_commute(line, fs[n - 1]);
        fs.take(n - 1).map_values(line).lemma_flatten_push(field_line(fs[n - 1]));
        assert(forall|i: int| 0 <= i < c.fields@.len() ==> !is_field_or_method(#[trigger] c.fields@[i]));
        lemma_no_member_lines(c, c.fields@.len());
        assert(render_text(c) == field_line(fs[n - 1]));
    }
}

/// A struct entity built from a declaration, before any method is attached,
/// renders as its `class` header and one `+ name: Type` line for each named
/// field, in order.
pub proof fn law_struct_block(e: Entity, s: StructDecl)
    requires
        is_struct_entity(e, s, Seq::empty()),
    ensures
        render_text(e) == "class \""@ + s.ident@ + "\" {\n"@ + named_fields(s.fields).map_values(
            |f: FieldDecl| field_line(f),
        ).flatten(),
{
    let fs = named_fields(s.fields);
    assert(e.fields@.take(fs.len() as int) == e.fields@);
    lemma_field_lines(e, fs, fs.len());
    assert(fs.take(fs.len() as int) == fs);
}

pub fn match_visibility(v: &SourceVisibility) -> (r: Visibility)
    ensures
        r == visibility_of(*v),
{
    match v {
        SourceVisibility::Public => Visibility::Public,
        _ => Visibility::Private,
    }
}

/// Whether the type expression contains `,`, `<` or `>`.
pub fn has_dependencies(ty: &str) -> (r: bool)
    ensures
        r == has_delimiter(ty@),
{
    let n = ty.unicode_len();
    let mut i: usize = 0;
    while i < n
        invariant
            n == ty@.len(),
            i <= n,
            forall|k: int| 0 <= k < i ==> !is_delimiter(#[trigger] ty@[k]),
        decreases n - i,
    {
        let c = ty.get_char(i);
        if c == ',' || c == '<' || c == '>' {
            assert(is_delimiter(ty@[i as int]));
            return true;
        }
        i = i + 1;
    }
    false
}

/// The synthetic entity listing the names that `ty` refers to, one
/// childless field entity for each.
pub fn make_dependencies(ty: &str) -> (r: Entity)
    ensures
        is_dependency_entity(r, ty@),
{
    let toks = dependency_tokens(ty);
    let mut deps: Vec<Entity> = Vec::new();
    let mut i: usize = 0;
    while i < toks.len()
        invariant
            i <= toks@.len(),
            string_views(toks@) == type_tokens(ty@),
            deps@.len() == i,
            forall|k: int| 0 <= k < i ==> is_token_entity(#[trigger] deps@[k], type_tokens(ty@)[k]),
        decreases toks.len() - i,
    {
        let d = Entity::new(EntityType::Field(String::new()), toks[i].as_str(), Vec::new(), Visibility::Private);
        assert(toks@[i as int]@ == type_tokens(ty@)[i as int]);
        deps.push(d);
        i = i + 1;
    }
    Entity::new(EntityType::Struct, ty, deps, Visibility::Private)
}

/// The entity of a struct field: its identifier, its type expression without
/// spaces, and the synthetic dependency entity where the type refers to more
/// than one name.
pub fn field_parser(field: &FieldDecl) -> (r: Entity)
    ensures
        is_field_entity(r, *field),
{
    let visibility = match_visibility(&field.vis);
    let name = match &field.ident {
        Some(s) => s.clone(),
        None => String::new(),
    };
    let ty = remove_spaces(field.ty.as_str());
    let mut fields: Vec<Entity> = Vec::new();
    if has_dependencies(ty.as_str()) {
        fields.push(make_dependencies(ty.as_str()));
    }
    Entity::new(EntityType::Field(name), ty.as_str(), fields, visibility)
}

/// The entities of the named fields, in order; none for other field lists.
pub fn fields_parser(fields: &FieldList) -> (r: Vec<Entity>)
    ensures
        are_field_entities(r@, named_fields(*fields)),
{
    let mut r: Vec<Entity> = Vec::new();
    if let FieldList::Named(fs) = fields {
        let mut i: usize = 0;
        while i < fs.len()
            invariant
                i <= fs@.len(),
                named_fields(*fields) == fs@,
                are_field_entities(r@, fs@.take(i as int)),
            decreases fs.len() - i,
        {
            r.push(field_parser(&fs[i]));
            i = i + 1;
        }
        assert(fs@.take(fs@.len() as int) == fs@);
    }
    r
}

/// The parameter entity of an argument, or `None` for a receiver or an
/// argument whose binding is not a plain identifier.
pub fn parameter_parser(arg: &FnArg) -> (r: Option<Entity>)
    ensures
        r is Some <==> is_named_parameter(*arg),
        r is Some ==> is_parameter_entity(r->0, *arg),
{
    match arg {
        FnArg::Typed(Binding::Ident(name), ty) => {
            let t = remove_spaces(ty.as_str());
            Some(Entity::new(EntityType::Parameter(name.clone()), t.as_str(), Vec::new(), Visibility::Private))
        },
        _ => None,
    }
}

/// The entity of a method, with one parameter entity for each named
/// argument.
pub fn method_parser(method: &MethodDecl) -> (r: Entity)
    ensures
        is_method_entity(r, *method),
{
    let ghost keep = |a: FnArg| is_named_parameter(a);
    let mut params: Vec<Entity> = Vec::new();
    let mut i: usize = 0;
    while i < method.inputs.len()
        invariant
            i <= method.inputs@.len(),
            keep == (|a: FnArg| is_named_parameter(a)),
            params@.len() == method.inputs@.take(i as int).filter(keep).len(),
            forall|k: int| 0 <= k < params@.len() ==> is_parameter_entity(
                #[trigger] params@[k],
                method.inputs@.take(i as int).filter(keep)[k],
            ),
        decreases method.inputs.len() - i,
    {
        let a = &method.inputs[i];
        proof {
            assert(method.inputs@.take(i + 1) == method.inputs@.take(i as int).push(*a));
            method.inputs@.take(i as int).lemma_filter_push(*a, keep);
        }
        if let Some(p) = parameter_parser(a) {
            params.push(p);
        }
        i = i + 1;
    }
    assert(method.inputs@.take(method.inputs@.len() as int) == method.inputs@);
    let visibility = match_visibility(&method.vis);
    let name = method.ident.clone();
    Entity::new(EntityType::Method(name), method.ident.as_str(), params, visibility)
}

/// The entities of the associated functions of an impl block, in order.
pub fn impl_parser(im: &ImplDecl) -> (r: Vec<Entity>)
    ensures
        are_method_entities(r@, impl_methods(*im)),
{
    let ghost keep = |x: ImplMember| x is Method;
    let ghost get = |x: ImplMember| x->Method_0;
    let mut r: Vec<Entity> = Vec::new();
    let mut i: usize = 0;
    while i < im.items.len()
        invariant
            i <= im.items@.len(),
            keep == (|x: ImplMember| x is Method),
            get == (|x: ImplMember| x->Method_0),
            are_method_entities(r@, im.items@.take(i as int).filter(keep).map_values(get)),
        decreases im.items.len() - i,
    {
        let x = &im.items[i];
        proof {
            assert(im.items@.take(i + 1) == im.items@.take(i as int).push(*x));
            im.items@.take(i as int).lemma_filter_push(*x, keep);
            im.items@.take(i as int).filter(keep).lemma_push_map_commute(get, *x);
        }
        if let ImplMember::Method(m) = x {
            r.push(method_parser(m));
        }
        i = i + 1;
    }
    assert(im.items@.take(im.items@.len() as int) == im.items@);
    r
}

/// Whether the impl block adds methods to the type named `name`.
pub fn impl_targets(im: &ImplDecl, name: &String) -> (r: bool)
    ensures
        r == (impl_target(*im) == Some(name@)),
{
    if im.is_trait_impl {
        return false;
    }
    match &im.self_ty {
        SelfType::Path(segs) => segs.len() == 1 && !segs[0].has_arguments && segs[0].ident == *name,
        SelfType::Other => false,
    }
}

/// The method entities of every impl block among `items` whose target is
/// `name`, in order.
pub fn attached_parser(items: &Vec<Item>, name: &String) -> (r: Vec<Entity>)
    ensures
        are_method_entities(r@, attached_methods(items@, name@)),
{
    let mut r: Vec<Entity> = Vec::new();
    let mut i: usize = 0;
    while i < items.len()
        invariant
            i <= items@.len(),
            are_method_entities(r@, attached_methods(items@.take(i as int), name@)),
        decreases items.len() - i,
    {
        let ghost r0 = r@;
        let ghost a0 = attached_methods(items@.take(i as int), name@);
        proof {
            assert(items@.take(i + 1).drop_last() == items@.take(i as int));
        }
        if let Item::Impl(im) = &items[i] {
            if impl_targets(im, name) {
                let mut ms = impl_parser(im);
                let ghost m0 = ms@;
                r.append(&mut ms);
                proof {
                    let a1 = attached_methods(items@.take(i + 1), name@);
                    assert(a1 == a0 + impl_methods(*im));
                    assert forall|k: int| 0 <= k < r@.len() implies is_method_entity(#[trigger] r@[k], a1[k]) by {
                        if k < r0.len() {
                            assert(r@[k] == r0[k]);
                        } else {
                            assert(r@[k] == m0[k - r0.len()]);
                        }
                    }
                }
            } else {
                assert(attached_methods(items@.take(i + 1), name@) == a0 + Seq::<MethodDecl>::empty());
            }
        } else {
            assert(attached_methods(items@.take(i + 1), name@) == a0 + Seq::<MethodDecl>::empty());
        }
        i = i + 1;
    }
    assert(items@.take(items@.len() as int) == items@);
    r
}

/// The entity of a struct, with the entities of its named fields.
pub fn struct_parser(item: &StructDecl) -> (r: Entity)
    ensures
        is_struct_entity(r, *item, Seq::empty()),
{
    let fields = fields_parser(&item.fields);
    let visibility = match_visibility(&item.vis);
    let r = Entity::new(EntityType::Struct, item.ident.as_str(), fields, visibility);
    assert(r.fields@.take(fields@.len() as int) == fields@);
    r
}

/// Builds the entities of a source file: one struct entity for each struct
/// declaration, in order, with the methods of the inherent impl blocks for
/// its name appended to the first struct of that name.
pub fn file_parser(file: SourceFile) -> (r: Vec<Entity>)
    ensures
        are_file_entities(r@, file.items@),
{
    let items = &file.items;
    let ghost keep = |x: Item| x is Struct;
    let ghost get = |x: Item| x->Struct_0;
    let mut entities: Vec<Entity> = Vec::new();
    let mut names: Vec<String> = Vec::new();
    let mut i: usize = 0;
    while i < items.len()
        invariant
            i <= items@.len(),
            keep == (|x: Item| x is Struct),
            get == (|x: Item| x->Struct_0),
            struct_decls(items@.take(i as int)) == items@.take(i as int).filter(keep).map_values(get),
            entities@.len() == struct_decls(items@.take(i as int)).len(),
            string_views(names@) == struct_decls(items@.take(i as int)).map_values(|s: StructDecl| s.ident@),
            forall|k: int| 0 <= k < entities@.len() ==> {
                let ss = struct_decls(items@.take(i as int));
                is_struct_entity(
                    #[trigger] entities@[k],
                    ss[k],
                    if first_of_name(ss, k) {
                        attached_methods(items@, ss[k].ident@)
                    } else {
                        Seq::empty()
                    },
                )
            },
        decreases items.len() - i,
    {
        let x = &items[i];
        let ghost ss0 = struct_decls(items@.take(i as int));
        proof {
            assert(items@.take(i + 1) == items@.take(i as int).push(*x));
            items@.take(i as int).lemma_filter_push(*x, keep);
            items@.take(i as int).filter(keep).lemma_push_map_commute(get, *x);
        }
        if let Item::Struct(s) = x {
            let ghost ss1 = struct_decls(items@.take(i + 1));
            assert(ss1 == ss0.push(*s));
            let first = !contains_string(&names, &s.ident);
            let mut e = struct_parser(s);
            let ghost nf = named_fields(s.fields).len();
            if first {
                let mut ms = attached_parser(items, &s.ident);
                let ghost f0 = e.fields@;
                let ghost m0 = ms@;
                e.fields.append(&mut ms);
                proof {
                    let am = attached_methods(items@, s.ident@);
                    assert(e.fields@.take(nf as int) == f0.take(nf as int));
                    assert(e.fields@.skip(nf as int) == m0);
                    assert(first_of_name(ss1, ss0.len() as int)) by {
                        assert forall|j: int| 0 <= j < ss0.len() implies (#[trigger] ss1[j]).ident@ != ss1[ss0.len() as int].ident@ by {
                            assert(ss1[j] == ss0[j]);
                            assert(string_views(names@)[j] == ss0[j].ident@);
                        }
                    }
                }
            } else {
                proof {
                    let w = choose|j: int| 0 <= j < names@.len() && string_views(names@)[j] == s.ident@;
                    assert(string_views(names@)[w] == ss0[w].ident@);
                    assert(ss1[w] == ss0[w]);
                    assert(!first_of_name(ss1, ss0.len() as int));
                    assert(e.fields@.skip(nf as int) == Seq::<Entity>::empty());
                }
            }
            let ghost n0 = names@;
            let ghost e0 = entities@;
            let n = s.ident.clone();
            names.push(n);
            entities.push(e);
            proof {
                n0.lemma_push_map_commute(|t: String| t@, n);
                ss0.lemma_push_map_commute(|s: StructDecl| s.ident@, *s);
                assert forall|k: int| 0 <= k < entities@.len() implies {
                    is_struct_entity(
                        #[trigger] entities@[k],
                        ss1[k],
                        if first_of_name(ss1, k) {
                            attached_methods(items@, ss1[k].ident@)
                        } else {
                            Seq::empty()
                        },
                    )
                } by {
                    if k < e0.len() {
                        assert(entities@[k] == e0[k]);
                        assert(ss1[k] == ss0[k]);
                        assert(first_of_name(ss1, k) == first_of_name(ss0, k)) by {
                            assert forall|j: int| 0 <= j < k implies ss1[j] == ss0[j] by {}
                        }
                    }
                }
            }
        }
        i = i + 1;
    }
    assert(items@.take(items@.len() as int) == items@);
    entities
}

} // verus!
