use vstd::prelude::*;
use vstd::string::StringExecFns;

use crate::types::{
    edges_string, has_delimiter, law_closed_gate_single_name, lemma_strip_spaces_unchanged, render_entity,
    string_views, type_tokens, Entity, EntityType,
};

verus! {

/// Rendering of a model element as PlantUML text.
pub trait PlantUml {
    /// The text of the element's block: its header and its member lines.
    spec fn rendered(&self) -> Seq<char>;

    /// The dependency edges of the element towards the names in `source`.
    spec fn rendered_dependencies(&self, source: Seq<Seq<char>>) -> Seq<char>;

    fn render(&self) -> (r: String)
        ensures
            r@ == self.rendered(),
    ;

    fn render_dependencies(&self, source: Vec<String>) -> (r: String)
        ensures
            r@ == self.rendered_dependencies(string_views(source@)),
    ;
}

/// The parts joined with `sep` between each two neighbours.
pub open spec fn join(parts: Seq<Seq<char>>, sep: Seq<char>) -> Seq<char>
    decreases parts.len(),
{
    if parts.len() == 0 {
        Seq::empty()
    } else if parts.len() == 1 {
        parts[0]
    } else {
        join(parts.drop_last(), sep) + sep + parts.last()
    }
}

pub open spec fn is_parameter(e: Entity) -> bool {
    e.entity_type is Parameter
}

pub open spec fn is_field_or_method(e: Entity) -> bool {
    e.entity_type is Field || e.entity_type is Method
}

/// `name: Type` for a parameter entity.
pub open spec fn parameter_text(p: Entity) -> Seq<char> {
    p.entity_type->Parameter_0@ + ": "@ + p.name@
}

/// The `name: Type` texts of the parameter members, in order.
pub open spec fn parameter_texts(members: Seq<Entity>) -> Seq<Seq<char>> {
    members.filter(|p: Entity| is_parameter(p)).map_values(|p: Entity| parameter_text(p))
}

/// The first line of an entity's rendering.
pub open spec fn header_text(e: Entity) -> Seq<char> {
    match e.entity_type {
        EntityType::Struct => "class \""@ + e.name@ + "\" {\n"@,
        EntityType::Enum => "enum \""@ + e.name@ + "\" {\n"@,
        EntityType::Field(n) => "    + "@ + n@ + ": "@ + e.name@ + "\n"@,
        EntityType::Method(n) => "    + "@ + n@ + "("@ + join(parameter_texts(e.fields@), ", "@) + ")\n"@,
        EntityType::Parameter(_) => Seq::empty(),
    }
}

/// The rendering of an entity: its header followed by the rendering of each
/// field and method member, recursively.
pub open spec fn render_text(e: Entity) -> Seq<char>
    decreases e, e.fields@.len() + 1,
{
    header_text(e) + members_text(e, e.fields@.len())
}

/// The rendering of the first `n` members of `e` that are fields or methods.
pub open spec fn members_text(e: Entity, n: nat) -> Seq<char>
    decreases e, n,
{
    if n == 0 || n > e.fields@.len() {
        Seq::empty()
    } else {
        let c = e.fields@[n - 1];
        members_text(e, (n - 1) as nat) + if is_field_or_method(c) {
            render_text(c)
        } else {
            Seq::empty()
        }
    }
}

/// Whether one of `tokens` is among `names`.
pub open spec fn mentions_any(tokens: Seq<Seq<char>>, names: Seq<Seq<char>>) -> bool {
    exists|i: int| 0 <= i < tokens.len() && names.contains(#[trigger] tokens[i])
}

/// The edge line from `owner` to the type of `member`, when that type
/// mentions one of `names`.
pub open spec fn edge_text(owner: Seq<char>, member: Entity, names: Seq<Seq<char>>) -> Seq<char> {
    if is_field_or_method(member) && mentions_any(type_tokens(member.name@), names) {
        "\""@ + owner + "\" <-- \""@ + member.name@ + "\"\n"@
    } else {
        Seq::empty()
    }
}

/// The edge lines of the members, in order.
pub open spec fn edges_text(owner: Seq<char>, members: Seq<Entity>, names: Seq<Seq<char>>) -> Seq<char>
    decreases members.len(),
{
    if members.len() == 0 {
        Seq::empty()
    } else {
        edges_text(owner, members.drop_last(), names) + edge_text(owner, members.last(), names)
    }
}

/// The names of the entities.
pub open spec fn entity_names(es: Seq<Entity>) -> Seq<Seq<char>> {
    es.map_values(|e: Entity| e.name@)
}

/// The whole diagram: every entity's block, closed, then every entity's
/// edges towards all the entities' names.
pub open spec fn plantuml_text(es: Seq<Entity>) -> Seq<char> {
    let blocks = es.map_values(|e: Entity| render_text(e) + "}"@);
    let edges = es.map_values(|e: Entity| edges_text(e.name@, e.fields@, entity_names(es)));
    "@startuml\n\n"@ + join(blocks, "\n\n"@) + "\n"@ + join(edges, "\n\n"@) + "\n@enduml"@
}

/// A field or method whose type is exactly one of the declared names gives
/// the edge from its owner to that type; one whose type mentions none of
/// them gives no edge.
pub proof fn law_edge_detection(owner: Seq<char>, member: Entity, names: Seq<Seq<char>>)
    requires
        is_field_or_method(member),
    ensures
        member.name@.len() > 0 && names.contains(member.name@) && !has_delimiter(member.name@)
            && !member.name@.contains(' ') ==> edge_text(owner, member, names) == "\""@ + owner + "\" <-- \""@ + member.name@ + "\"\n"@,
        !mentions_any(type_tokens(member.name@), names) ==> edge_text(owner, member, names) == Seq::<char>::empty(),
{
    let ty = member.name@;
    if ty.len() > 0 && names.contains(ty) && !has_delimiter(ty) && !ty.contains(' ') {
        law_closed_gate_single_name(ty);
        lemma_strip_spaces_unchanged(ty);
        assert(type_tokens(ty)[0] == ty);
        assert(mentions_any(type_tokens(ty), names));
    }
}

/// Rendering depends on the entities alone: rendering the same list twice
/// gives the same text.
pub proof fn law_render_idempotent(es: Seq<Entity>, first: Seq<char>, second: Seq<char>)
    requires
        first == plantuml_text(es),
        second == plantuml_text(es),
    ensures
        first == second,
{
}

/// Joins the strings with `sep` between each two neighbours.
pub fn join_strings(parts: &Vec<String>, sep: &str) -> (r: String)
    ensures
        r@ == join(string_views(parts@), sep@),
{
    let mut r = String::new();
    let mut i: usize = 0;
    while i < parts.len()
        invariant
            i <= parts@.len(),
            r@ == join(string_views(parts@.take(i as int)), sep@),
        decreases parts.len() - i,
    {
        proof {
            let v = string_views(parts@.take(i + 1));
            assert(v.drop_last() == string_views(parts@.take(i as int)));
            assert(v.last() == parts@[i as int]@);
        }
        if i > 0 {
            r.append(sep);
        }
        r.append(parts[i].as_str());
        i = i + 1;
    }
    assert(parts@.take(parts@.len() as int) == parts@);
    r
}

/// Renders the whole diagram of the entities: each entity's block, then each
/// entity's dependency edges towards the names of all of them.
pub fn render_plantuml(entities: Vec<Entity>) -> (r: String)
    ensures
        r@ == plantuml_text(entities@),
{
    let ghost es = entities@;
    let ghost block = |e: Entity| render_text(e) + "}"@;
    let ghost name = |e: Entity| e.name@;
    let mut blocks: Vec<String> = Vec::new();
    let mut names: Vec<String> = Vec::new();
    let mut i: usize = 0;
    while i < entities.len()
        invariant
            es == entities@,
            i <= es.len(),
            block == (|e: Entity| render_text(e) + "}"@),
            name == (|e: Entity| e.name@),
            string_views(blocks@) == es.take(i as int).map_values(block),
            string_views(names@) == es.take(i as int).map_values(name),
        decreases entities.len() - i,
    {
        let e = &entities[i];
        proof {
            assert(es.take(i + 1) == es.take(i as int).push(*e));
            es.take(i as int).lemma_push_map_commute(block, *e);
            es.take(i as int).lemma_push_map_commute(name, *e);
        }
        let mut b = render_entity(e);
        b.append("}");
        let ghost b0 = blocks@;
        blocks.push(b);
        let n = e.name.clone();
        let ghost n0 = names@;
        names.push(n);
        proof {
            b0.lemma_push_map_commute(|t: String| t@, b);
            n0.lemma_push_map_commute(|t: String| t@, n);
        }
        i = i + 1;
    }
    assert(es.take(es.len() as int) == es);
    assert(string_views(names@) == entity_names(es));
    let ghost edge = |e: Entity| edges_text(e.name@, e.fields@, entity_names(es));
    let mut edges: Vec<String> = Vec::new();
    let mut i: usize = 0;
    while i < entities.len()
        invariant
            es == entities@,
            i <= es.len(),
            string_views(names@) == entity_names(es),
            edge == (|e: Entity| edges_text(e.name@, e.fields@, entity_names(es))),
            string_views(edges@) == es.take(i as int).map_values(edge),
        decreases entities.len() - i,
    {
        let e = &entities[i];
        proof {
            assert(es.take(i + 1) == es.take(i as int).push(*e));
            es.take(i as int).lemma_push_map_commute(edge, *e);
        }
        let d = edges_string(e, &names);
        let ghost d0 = edges@;
        edges.push(d);
        proof {
            d0.lemma_push_map_commute(|t: String| t@, d);
        }
        i = i + 1;
    }
    let body = join_strings(&blocks, "\n\n");
    let deps = join_strings(&edges, "\n\n");
    let mut r = String::from_str("@startuml\n\n");
    r.append(body.as_str());
    r.append("\n");
    r.append(deps.as_str());
    r.append("\n@enduml");
    r
}

} // verus!
