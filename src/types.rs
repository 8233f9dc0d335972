use vstd::prelude::*;
use vstd::string::StrSliceExecFns;
use vstd::string::StringExecFns;

use crate::render::{
    edge_text, edges_text, header_text, is_parameter, join_strings, members_text, mentions_any, parameter_text, parameter_texts, render_text, PlantUml,
};

verus! {

/// Whether a declared item or member is visible outside its module.
#[derive(Clone, Copy, Debug, PartialEq, Eq, Hash)]
pub enum Visibility {
    Public,
    Private,
}

/// The role of an entity. Members carry their own identifier in the variant.
#[derive(Clone, Debug, PartialEq, Eq, Hash)]
pub enum EntityType {
    Struct,
    Enum,
    Field(String),
    Method(String),
    Parameter(String),
}

/// One node of the model: a declared type, or one of its members.
///
/// `name` is the type name for a struct or enum, the type expression for a
/// field or parameter, and the method's name for a method.
#[derive(Debug, PartialEq, Eq, Hash)]
pub struct Entity {
    pub entity_type: EntityType,
    pub name: String,
    pub fields: Vec<Entity>,
    pub visibility: Visibility,
}

/// Whether two entities have the same role, name and visibility, and
/// members that are pairwise the same, recursively.
pub open spec fn same_entity(a: Entity, b: Entity) -> bool
    decreases a,
{
    &&& a.entity_type == b.entity_type
    &&& a.name == b.name
    &&& a.visibility == b.visibility
    &&& a.fields@.len() == b.fields@.len()
    &&& forall|i: int| 0 <= i < a.fields@.len() ==> same_entity(#[trigger] a.fields@[i], b.fields@[i])
}

impl Clone for Entity {
    /// A deep copy: the same role, name, visibility and members.
    fn clone(&self) -> (r: Self)
        ensures
            same_entity(r, *self),
        decreases self,
    {
        let mut fields: Vec<Entity> = Vec::new();
        let mut i: usize = 0;
        while i < self.fields.len()
            invariant
                i <= self.fields@.len(),
                fields@.len() == i,
                forall|k: int| 0 <= k < i ==> same_entity(#[trigger] fields@[k], self.fields@[k]),
            decreases self.fields.len() - i,
        {
            let c = self.fields[i].clone();
            fields.push(c);
            i = i + 1;
        }
        let entity_type = match &self.entity_type {
            EntityType::Struct => EntityType::Struct,
            EntityType::Enum => EntityType::Enum,
            EntityType::Field(n) => EntityType::Field(n.clone()),
            EntityType::Method(n) => EntityType::Method(n.clone()),
            EntityType::Parameter(n) => EntityType::Parameter(n.clone()),
        };
        Entity { entity_type, name: self.name.clone(), fields, visibility: self.visibility }
    }
}

impl Entity {
    pub fn new(entity_type: EntityType, name: &str, fields: Vec<Entity>, visibility: Visibility) -> (r: Self)
        ensures
            r.entity_type == entity_type,
            r.name@ == name@,
            r.fields == fields,
            r.visibility == visibility,
    {
        Entity { entity_type, name: String::from_str(name), fields, visibility }
    }
}

/// The characters that separate the names in a type expression.
pub open spec fn is_delimiter(c: char) -> bool {
    c == ',' || c == '<' || c == '>'
}

/// Whether a type expression refers to more than one name.
pub open spec fn has_delimiter(s: Seq<char>) -> bool {
    exists|i: int| 0 <= i < s.len() && is_delimiter(#[trigger] s[i])
}

/// A character that may stand in an identifier.
pub open spec fn is_identifier_char(c: char) -> bool {
    c == '_' || ('a' <= c && c <= 'z') || ('A' <= c && c <= 'Z') || ('0' <= c && c <= '9')
}

/// The pieces of `s` between delimiters, empty ones included, in order.
pub open spec fn fragments(s: Seq<char>) -> Seq<Seq<char>>
    decreases s.len(),
{
    if s.len() == 0 {
        seq![Seq::empty()]
    } else {
        let prev = fragments(s.drop_last());
        if is_delimiter(s.last()) {
            prev.push(Seq::empty())
        } else {
            prev.update(prev.len() - 1, prev.last().push(s.last()))
        }
    }
}

/// `s` without its space characters.
pub open spec fn strip_spaces(s: Seq<char>) -> Seq<char> {
    s.filter(|c: char| c != ' ')
}

/// The names that a type expression refers to, in order of occurrence:
/// the non-empty fragments, each without its spaces.
pub open spec fn type_tokens(s: Seq<char>) -> Seq<Seq<char>> {
    fragments(s).filter(|f: Seq<char>| f.len() > 0).map_values(|f: Seq<char>| strip_spaces(f))
}

/// The views of a list of strings.
pub open spec fn string_views(v: Seq<String>) -> Seq<Seq<char>> {
    v.map_values(|t: String| t@)
}

pub proof fn lemma_fragments_nonempty(s: Seq<char>)
    ensures
        fragments(s).len() >= 1,
    decreases s.len(),
{
    if s.len() > 0 {
        lemma_fragments_nonempty(s.drop_last());
    }
}

proof fn lemma_fragments_without_delimiter(s: Seq<char>)
    requires
        !has_delimiter(s),
    ensures
        fragments(s) == seq![s],
    decreases s.len(),
{
    if s.len() > 0 {
        let p = s.drop_last();
        assert(!has_delimiter(p)) by {
            assert forall|i: int| 0 <= i < p.len() implies !is_delimiter(#[trigger] p[i]) by {
                assert(p[i] == s[i]);
            }
        }
        lemma_fragments_without_delimiter(p);
        assert(!is_delimiter(s[s.len() - 1]));
        assert(p.push(s.last()) == s);
        assert(fragments(s) =~= seq![s]);
    } else {
        assert(s =~= Seq::<char>::empty());
    }
}

/// Decomposition depends on the text alone: equal type expressions give the
/// same names in the same order, and so the same set of names.
pub proof fn law_decomposition_deterministic(s: Seq<char>, t: Seq<char>)
    requires
        s == t,
    ensures
        type_tokens(s) == type_tokens(t),
        type_tokens(s).to_set() == type_tokens(t).to_set(),
{
}

/// The dependency gate stays closed on an identifier: it holds no `,`, `<`
/// or `>`.
pub proof fn law_identifier_has_no_dependencies(s: Seq<char>)
    requires
        forall|i: int| 0 <= i < s.len() ==> is_identifier_char(#[trigger] s[i]),
    ensures
        !has_delimiter(s),
{
    assert forall|i: int| 0 <= i < s.len() implies !is_delimiter(#[trigger] s[i]) by {
        assert(is_identifier_char(s[i]));
    }
}

/// Where the dependency gate stays closed, a non-empty type expression
/// decomposes into itself alone, without its spaces.
pub proof fn law_closed_gate_single_name(s: Seq<char>)
    requires
        !has_delimiter(s),
        s.len() > 0,
    ensures
        type_tokens(s) == seq![strip_spaces(s)],
{
    lemma_fragments_without_delimiter(s);
    let keep = |f: Seq<char>| f.len() > 0;
    Seq::<Seq<char>>::empty().lemma_filter_push(s, keep);
    assert(seq![s] == Seq::<Seq<char>>::empty().push(s));
    assert(Seq::<Seq<char>>::empty().filter(keep) == Seq::<Seq<char>>::empty()) by {
        Seq::<Seq<char>>::empty().lemma_filter_len(keep);
    }
    assert(type_tokens(s) == seq![s].map_values(|f: Seq<char>| strip_spaces(f)));
}

/// Removing spaces leaves a text without spaces as it is.
pub proof fn lemma_strip_spaces_unchanged(s: Seq<char>)
    requires
        !s.contains(' '),
    ensures
        strip_spaces(s) == s,
    decreases s.len(),
{
    if s.len() > 0 {
        let p = s.drop_last();
        assert(!p.contains(' ')) by {
            if p.contains(' ') {
                let i = choose|i: int| 0 <= i < p.len() && p[i] == ' ';
                assert(s[i] == ' ');
            }
        }
        lemma_strip_spaces_unchanged(p);
        assert(s == p.push(s.last()));
        p.lemma_filter_push(s.last(), |c: char| c != ' ');
        assert(s.last() != ' ') by {
            assert(s[s.len() - 1] == s.last());
        }
    } else {
        assert(s.filter(|c: char| c != ' ') =~= s) by {
            s.lemma_filter_len(|c: char| c != ' ');
        }
    }
}

/// Copies `s` without its space characters.
pub fn remove_spaces(s: &str) -> (r: String)
    ensures
        r@ == strip_spaces(s@),
{
    let n = s.unicode_len();
    let mut r = String::new();
    let mut i: usize = 0;
    while i < n
        invariant
            n == s@.len(),
            i <= n,
            r@ == strip_spaces(s@.take(i as int)),
        decreases n - i,
    {
        let c = s.get_char(i);
        proof {
            assert(s@.take(i + 1) == s@.take(i as int).push(c));
            s@.take(i as int).lemma_filter_push(c, |c: char| c != ' ');
        }
        if c != ' ' {
            r.append(s.substring_char(i, i + 1));
            assert(s@.subrange(i as int, i + 1) == seq![c]);
        }
        i = i + 1;
    }
    assert(s@.take(n as int) == s@);
    r
}

/// The names that a type expression refers to, in order of occurrence.
pub fn dependency_tokens(ty: &str) -> (r: Vec<String>)
    ensures
        string_views(r@) == type_tokens(ty@),
{
    let n = ty.unicode_len();
    let mut r: Vec<String> = Vec::new();
    let mut start: usize = 0;
    let mut i: usize = 0;
    let ghost keep = |f: Seq<char>| f.len() > 0;
    let ghost strip = |f: Seq<char>| strip_spaces(f);
    while i < n
        invariant
            n == ty@.len(),
            start <= i <= n,
            keep == (|f: Seq<char>| f.len() > 0),
            strip == (|f: Seq<char>| strip_spaces(f)),
            fragments(ty@.take(i as int)).len() >= 1,
            fragments(ty@.take(i as int)).last() == ty@.subrange(start as int, i as int),
            string_views(r@) == fragments(ty@.take(i as int)).drop_last().filter(keep).map_values(strip),
        decreases n - i,
    {
        let c = ty.get_char(i);
        let ghost pre = ty@.take(i as int);
        let ghost fr = fragments(pre);
        proof {
            let next = ty@.take(i + 1);
            assert(next.drop_last() == pre);
            assert(next.last() == c);
            lemma_fragments_nonempty(next);
        }
        if c == ',' || c == '<' || c == '>' {
            if start < i {
                let piece = ty.substring_char(start, i);
                let t = remove_spaces(piece);
                proof {
                    fr.drop_last().lemma_filter_push(fr.last(), keep);
                    fr.drop_last().filter(keep).lemma_push_map_commute(strip, fr.last());
                }
                let ghost r0 = r@;
                r.push(t);
                proof {
                    assert(fr == fr.drop_last().push(fr.last()));
                    assert(fragments(ty@.take(i + 1)).drop_last() == fr);
                    r0.lemma_push_map_commute(|t: String| t@, t);
                }
            } else {
                proof {
                    fr.drop_last().lemma_filter_push(fr.last(), keep);
                    assert(fr == fr.drop_last().push(fr.last()));
                    assert(fragments(ty@.take(i + 1)).drop_last() == fr);
                }
            }
            start = i + 1;
        } else {
            proof {
                let nf = fragments(ty@.take(i + 1));
                assert(nf.drop_last() == fr.drop_last());
                assert(ty@.subrange(start as int, i + 1) == ty@.subrange(start as int, i as int).push(c));
            }
        }
        i = i + 1;
    }
    assert(ty@.take(n as int) == ty@);
    let ghost fr = fragments(ty@);
    if start < n {
        let piece = ty.substring_char(start, n);
        let t = remove_spaces(piece);
        proof {
            fr.drop_last().lemma_filter_push(fr.last(), keep);
            fr.drop_last().filter(keep).lemma_push_map_commute(strip, fr.last());
            assert(fr == fr.drop_last().push(fr.last()));
        }
        let ghost r0 = r@;
        r.push(t);
        proof {
            r0.lemma_push_map_commute(|t: String| t@, t);
        }
    } else {
        proof {
            fr.drop_last().lemma_filter_push(fr.last(), keep);
            assert(fr == fr.drop_last().push(fr.last()));
        }
    }
    r
}

/// The `name: Type` texts of the parameter members, in order.
fn parameter_strings(members: &Vec<Entity>) -> (r: Vec<String>)
    ensures
        string_views(r@) == parameter_texts(members@),
{
    let mut r: Vec<String> = Vec::new();
    let mut i: usize = 0;
    let ghost keep = |p: Entity| is_parameter(p);
    let ghost text = |p: Entity| parameter_text(p);
    while i < members.len()
        invariant
            i <= members@.len(),
            keep == (|p: Entity| is_parameter(p)),
            text == (|p: Entity| parameter_text(p)),
            string_views(r@) == members@.take(i as int).filter(keep).map_values(text),
        decreases members.len() - i,
    {
        let m = &members[i];
        proof {
            assert(members@.take(i + 1) == members@.take(i as int).push(*m));
            members@.take(i as int).lemma_filter_push(*m, keep);
            members@.take(i as int).filter(keep).lemma_push_map_commute(text, *m);
        }
        if let EntityType::Parameter(n) = &m.entity_type {
            let mut t = String::from_str(n.as_str());
            t.append(": ");
            t.append(m.name.as_str());
            let ghost r0 = r@;
            r.push(t);
            proof {
                r0.lemma_push_map_commute(|t: String| t@, t);
            }
        }
        i = i + 1;
    }
    assert(members@.take(members@.len() as int) == members@);
    r
}

/// Whether one of `names` equals `name`.
pub(crate) fn contains_string(names: &Vec<String>, name: &String) -> (r: bool)
    ensures
        r == string_views(names@).contains(name@),
{
    let mut k: usize = 0;
    while k < names.len()
        invariant
            k <= names@.len(),
            forall|j: int| 0 <= j < k ==> names@[j]@ != name@,
        decreases names.len() - k,
    {
        if names[k] == *name {
            assert(string_views(names@)[k as int] == name@);
            return true;
        }
        k = k + 1;
    }
    false
}

/// The distinct names that a type expression refers to, each once, in order
/// of first occurrence.
pub fn make_dependencies(ty: &str) -> (r: Vec<String>)
    ensures
        string_views(r@).to_set() == type_tokens(ty@).to_set(),
        string_views(r@).no_duplicates(),
{
    let toks = dependency_tokens(ty);
    let ghost tv = string_views(toks@);
    let mut r: Vec<String> = Vec::new();
    let mut i: usize = 0;
    while i < toks.len()
        invariant
            i <= toks@.len(),
            tv == string_views(toks@),
            tv == type_tokens(ty@),
            string_views(r@).to_set() == tv.take(i as int).to_set(),
            string_views(r@).no_duplicates(),
        decreases toks.len() - i,
    {
        let t = &toks[i];
        let ghost rv = string_views(r@);
        proof {
            assert(tv.take(i + 1) == tv.take(i as int).push(t@));
            tv.take(i as int).lemma_push_to_set_commute(t@);
        }
        if !contains_string(&r, t) {
            let c = t.clone();
            let ghost r0 = r@;
            r.push(c);
            proof {
                r0.lemma_push_map_commute(|t: String| t@, c);
                assert(string_views(r@) == rv.push(t@));
                rv.lemma_push_to_set_commute(t@);
                assert forall|a: int, b: int|
                    0 <= a < string_views(r@).len() && 0 <= b < string_views(r@).len() && a != b
                    implies string_views(r@)[a] != string_views(r@)[b] by {
                    if a < rv.len() && b < rv.len() {
                        assert(string_views(r@)[a] == rv[a]);
                        assert(string_views(r@)[b] == rv[b]);
                    } else if a < rv.len() {
                        assert(string_views(r@)[a] == rv[a]);
                    } else {
                        assert(string_views(r@)[b] == rv[b]);
                    }
                }
            }
        } else {
            proof {
                assert(rv.to_set().contains(t@));
                assert(rv.to_set().insert(t@) =~= rv.to_set());
            }
        }
        i = i + 1;
    }
    assert(tv.take(tv.len() as int) == tv);
    r
}

/// Every name that a type expression refers to is free of `,`, `<`, `>`
/// and spaces.
pub proof fn law_tokens_hold_no_delimiter(s: Seq<char>)
    ensures
        forall|i: int, j: int|
            0 <= i < type_tokens(s).len() && 0 <= j < type_tokens(s)[i].len() ==> {
                let c = #[trigger] type_tokens(s)[i][j];
                !is_delimiter(c) && c != ' '
            },
{
    lemma_fragments_hold_no_delimiter(s);
    let keep = |f: Seq<char>| f.len() > 0;
    let fs = fragments(s).filter(keep);
    assert forall|i: int, j: int|
        0 <= i < type_tokens(s).len() && 0 <= j < type_tokens(s)[i].len() implies {
            let c = #[trigger] type_tokens(s)[i][j];
            !is_delimiter(c) && c != ' '
        } by {
        let f = fs[i];
        assert(fs.contains(f));
        fragments(s).lemma_filter_contains_rev(keep, f);
        let k = choose|k: int| 0 <= k < fragments(s).len() && fragments(s)[k] == f;
        let sp = |c: char| c != ' ';
        assert(type_tokens(s)[i] == f.filter(sp));
        let c = f.filter(sp)[j];
        f.lemma_filter_pred(sp, j);
        assert(f.filter(sp).contains(c));
        f.lemma_filter_contains_rev(sp, c);
        let m = choose|m: int| 0 <= m < f.len() && f[m] == c;
        assert(!is_delimiter(fragments(s)[k][m]));
    }
}

proof fn lemma_fragments_hold_no_delimiter(s: Seq<char>)
    ensures
        forall|i: int, j: int|
            0 <= i < fragments(s).len() && 0 <= j < fragments(s)[i].len() ==> !is_delimiter(
                #[trigger] fragments(s)[i][j],
            ),
    decreases s.len(),
{
    if s.len() > 0 {
        let p = s.drop_last();
        lemma_fragments_hold_no_delimiter(p);
        lemma_fragments_nonempty(p);
        let prev = fragments(p);
        if !is_delimiter(s.last()) {
            let fr = fragments(s);
            assert forall|i: int, j: int|
                0 <= i < fr.len() && 0 <= j < fr[i].len() implies !is_delimiter(#[trigger] fr[i][j]) by {
                if i < prev.len() - 1 {
                    assert(fr[i] == prev[i]);
                } else if j < prev.last().len() {
                    assert(fr[i][j] == prev[prev.len() - 1][j]);
                }
            }
        } else {
            let fr = fragments(s);
            assert forall|i: int, j: int|
                0 <= i < fr.len() && 0 <= j < fr[i].len() implies !is_delimiter(#[trigger] fr[i][j]) by {
                assert(fr[i] == prev[i]);
            }
        }
    }
}

/// The first line of an entity's rendering.
fn header_string(e: &Entity) -> (r: String)
    ensures
        r@ == header_text(*e),
{
    let mut r = String::new();
    match &e.entity_type {
        EntityType::Struct => {
            r.append("class \"");
            r.append(e.name.as_str());
            r.append("\" {\n");
        },
        EntityType::Enum => {
            r.append("enum \"");
            r.append(e.name.as_str());
            r.append("\" {\n");
        },
        EntityType::Field(n) => {
            r.append("    + ");
            r.append(n.as_str());
            r.append(": ");
            r.append(e.name.as_str());
            r.append("\n");
        },
        EntityType::Method(n) => {
            let ps = parameter_strings(&e.fields);
            let joined = join_strings(&ps, ", ");
            r.append("    + ");
            r.append(n.as_str());
            r.append("(");
            r.append(joined.as_str());
            r.append(")\n");
        },
        EntityType::Parameter(_) => {},
    }
    r
}

/// The rendering of an entity and, recursively, of its fields and methods.
pub(crate) fn render_entity(e: &Entity) -> (r: String)
    ensures
        r@ == render_text(*e),
    decreases e,
{
    let mut r = header_string(e);
    let mut i: usize = 0;
    while i < e.fields.len()
        invariant
            i <= e.fields@.len(),
            r@ == header_text(*e) + members_text(*e, i as nat),
        decreases e.fields.len() - i,
    {
        let c = &e.fields[i];
        let ghost r0 = r@;
        if matches!(c.entity_type, EntityType::Field(_) | EntityType::Method(_)) {
            let t = render_entity(c);
            r.append(t.as_str());
        }
        assert(r@ == header_text(*e) + members_text(*e, (i + 1) as nat));
        i = i + 1;
    }
    r
}

/// Whether the type expression mentions one of `names`.
fn mentions_name(ty: &str, names: &Vec<String>) -> (r: bool)
    ensures
        r == mentions_any(type_tokens(ty@), string_views(names@)),
{
    let toks = dependency_tokens(ty);
    let mut j: usize = 0;
    while j < toks.len()
        invariant
            j <= toks@.len(),
            string_views(toks@) == type_tokens(ty@),
            forall|a: int| 0 <= a < j ==> !string_views(names@).contains(#[trigger] string_views(toks@)[a]),
        decreases toks.len() - j,
    {
        let mut k: usize = 0;
        while k < names.len()
            invariant
                j < toks@.len(),
                k <= names@.len(),
                string_views(toks@) == type_tokens(ty@),
                forall|b: int| 0 <= b < k ==> names@[b]@ != toks@[j as int]@,
            decreases names.len() - k,
        {
            if toks[j] == names[k] {
                assert(string_views(names@)[k as int] == string_views(toks@)[j as int]);
                assert(string_views(names@).contains(type_tokens(ty@)[j as int]));
                return true;
            }
            k = k + 1;
        }
        assert(!string_views(names@).contains(string_views(toks@)[j as int]));
        j = j + 1;
    }
    false
}

/// The edge lines of the entity's fields and methods towards `names`.
pub(crate) fn edges_string(e: &Entity, names: &Vec<String>) -> (r: String)
    ensures
        r@ == edges_text(e.name@, e.fields@, string_views(names@)),
{
    let mut r = String::new();
    let mut i: usize = 0;
    while i < e.fields.len()
        invariant
            i <= e.fields@.len(),
            r@ == edges_text(e.name@, e.fields@.take(i as int), string_views(names@)),
        decreases e.fields.len() - i,
    {
        let f = &e.fields[i];
        proof {
            assert(e.fields@.take(i + 1).drop_last() == e.fields@.take(i as int));
        }
        let ghost r0 = r@;
        if matches!(f.entity_type, EntityType::Field(_) | EntityType::Method(_)) && mentions_name(f.name.as_str(), names) {
            r.append("\"");
            r.append(e.name.as_str());
            r.append("\" <-- \"");
            r.append(f.name.as_str());
            r.append("\"\n");
            assert(r@ =~= r0 + edge_text(e.name@, *f, string_views(names@)));
        } else {
            assert(r@ =~= r0 + edge_text(e.name@, *f, string_views(names@)));
        }
        i = i + 1;
    }
    assert(e.fields@.take(e.fields@.len() as int) == e.fields@);
    r
}

impl PlantUml for Entity {
    open spec fn rendered(&self) -> Seq<char> {
        render_text(*self)
    }

    open spec fn rendered_dependencies(&self, source: Seq<Seq<char>>) -> Seq<char> {
        edges_text(self.name@, self.fields@, source)
    }

    fn render(&self) -> (r: String) {
        render_entity(self)
    }

    fn render_dependencies(&self, source: Vec<String>) -> (r: String) {
        edges_string(self, &source)
    }
}

} // verus!
