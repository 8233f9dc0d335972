use ruml::files::is_rust_module;
use ruml::parser::{field_parser, impl_parser, method_parser, struct_parser};
use ruml::syntax::{
    Binding, FieldDecl, FieldList, FnArg, ImplDecl, ImplMember, Item, MethodDecl, PathSegment,
    SelfType, SourceFile, SourceVisibility, StructDecl,
};
use ruml::{file_parser, render_plantuml, Entity, EntityType, PlantUml, Visibility};

fn field(name: &str, ty: &str, vis: SourceVisibility) -> FieldDecl {
    FieldDecl { ident: Some(name.to_string()), vis, ty: ty.to_string() }
}

fn named_struct(name: &str, fields: Vec<FieldDecl>) -> Item {
    Item::Struct(StructDecl {
        ident: name.to_string(),
        vis: SourceVisibility::Public,
        fields: FieldList::Named(fields),
    })
}

fn method(name: &str, inputs: Vec<FnArg>) -> MethodDecl {
    MethodDecl { ident: name.to_string(), vis: SourceVisibility::Public, inputs }
}

fn inherent_impl(target: &str, methods: Vec<MethodDecl>) -> Item {
    Item::Impl(ImplDecl {
        is_trait_impl: false,
        self_ty: SelfType::Path(vec![PathSegment { ident: target.to_string(), has_arguments: false }]),
        items: methods.into_iter().map(ImplMember::Method).collect(),
    })
}

fn typed(name: &str, ty: &str) -> FnArg {
    FnArg::Typed(Binding::Ident(name.to_string()), ty.to_string())
}

#[test]
fn struct_with_one_field_renders_its_block() {
    let file = SourceFile {
        items: vec![named_struct("User", vec![field("id", "String", SourceVisibility::Public)])],
    };
    let out = render_plantuml(file_parser(file));
    assert_eq!(out, "@startuml\n\nclass \"User\" {\n    + id: String\n}\n\n@enduml");
    assert!(out.contains("class \"User\" {\n    + id: String\n}"));
    assert!(!out.contains("<--"));
}

#[test]
fn field_of_declared_type_gives_an_edge() {
    let file = SourceFile {
        items: vec![
            named_struct("User", vec![field("profile", "Profile", SourceVisibility::Inherited)]),
            named_struct("Profile", vec![]),
        ],
    };
    let out = render_plantuml(file_parser(file));
    assert!(out.contains("\"User\" <-- \"Profile\"\n"));
    assert_eq!(
        out,
        "@startuml\n\nclass \"User\" {\n    + profile: Profile\n}\n\nclass \"Profile\" {\n}\n\"User\" <-- \"Profile\"\n\n\n\n@enduml"
    );
}

#[test]
fn field_of_unknown_type_gives_no_edge() {
    let file = SourceFile {
        items: vec![
            named_struct("User", vec![field("profile", "Account", SourceVisibility::Inherited)]),
            named_struct("Profile", vec![]),
        ],
    };
    let out = render_plantuml(file_parser(file));
    assert!(!out.contains("<--"));
}

#[test]
fn generic_field_gives_an_edge_to_its_argument() {
    let file = SourceFile {
        items: vec![
            named_struct("User", vec![field("friends", "Vec < Profile >", SourceVisibility::Public)]),
            named_struct("Profile", vec![]),
        ],
    };
    let out = render_plantuml(file_parser(file));
    assert!(out.contains("    + friends: Vec<Profile>\n"));
    assert!(out.contains("\"User\" <-- \"Vec<Profile>\"\n"));
}

#[test]
fn method_line_omits_the_receiver() {
    let file = SourceFile {
        items: vec![
            named_struct("User", vec![]),
            inherent_impl("User", vec![method("greet", vec![FnArg::Receiver, typed("name", "String")])]),
        ],
    };
    let out = render_plantuml(file_parser(file));
    assert!(out.contains("    + greet(name: String)\n"));
}

#[test]
fn parameters_join_with_comma() {
    let m = method_parser(&method("mix", vec![typed("a", "u8"), FnArg::Typed(Binding::Other, "(u8, u8)".to_string()), typed("b", "& str")]));
    assert_eq!(m.entity_type, EntityType::Method("mix".to_string()));
    assert_eq!(m.fields.len(), 2);
    assert_eq!(m.fields[1].name, "&str");
    assert_eq!(m.render(), "    + mix(a: u8, b: &str)\n");
}

#[test]
fn tuple_struct_does_not_stop_the_run() {
    let file = SourceFile {
        items: vec![
            named_struct("User", vec![field("id", "String", SourceVisibility::Public)]),
            Item::Struct(StructDecl {
                ident: "Meters".to_string(),
                vis: SourceVisibility::Public,
                fields: FieldList::Unnamed(vec![FieldDecl { ident: None, vis: SourceVisibility::Inherited, ty: "f64".to_string() }]),
            }),
            Item::Enum,
            Item::Other,
        ],
    };
    let entities = file_parser(file);
    assert_eq!(entities.len(), 2);
    assert!(entities[1].fields.is_empty());
    let out = render_plantuml(entities);
    assert!(!out.is_empty());
    assert!(out.contains("class \"User\" {\n    + id: String\n}"));
    assert!(!out.contains("f64"));
}

#[test]
fn rendering_twice_gives_the_same_text() {
    let file = SourceFile {
        items: vec![
            named_struct("User", vec![field("profile", "Option<Profile>", SourceVisibility::Public)]),
            named_struct("Profile", vec![field("id", "u64", SourceVisibility::Public)]),
            inherent_impl("Profile", vec![method("new", vec![typed("id", "u64")])]),
        ],
    };
    let first = render_plantuml(file_parser(file.clone()));
    let second = render_plantuml(file_parser(file));
    assert_eq!(first, second);
}

#[test]
fn trait_and_foreign_impls_are_skipped() {
    let file = SourceFile {
        items: vec![
            named_struct("User", vec![]),
            Item::Impl(ImplDecl {
                is_trait_impl: true,
                self_ty: SelfType::Path(vec![PathSegment { ident: "User".to_string(), has_arguments: false }]),
                items: vec![ImplMember::Method(method("fmt", vec![FnArg::Receiver]))],
            }),
            Item::Impl(ImplDecl {
                is_trait_impl: false,
                self_ty: SelfType::Path(vec![
                    PathSegment { ident: "other".to_string(), has_arguments: false },
                    PathSegment { ident: "User".to_string(), has_arguments: false },
                ]),
                items: vec![ImplMember::Method(method("far", vec![]))],
            }),
            inherent_impl("Elsewhere", vec![method("lost", vec![])]),
            inherent_impl("User", vec![method("kept", vec![])]),
        ],
    };
    let entities = file_parser(file);
    assert_eq!(entities.len(), 1);
    assert_eq!(entities[0].fields.len(), 1);
    assert_eq!(entities[0].fields[0].name, "kept");
}

#[test]
fn duplicate_names_attach_methods_to_the_first() {
    let file = SourceFile {
        items: vec![
            named_struct("User", vec![field("a", "u8", SourceVisibility::Public)]),
            named_struct("User", vec![]),
            inherent_impl("User", vec![method("m", vec![])]),
        ],
    };
    let entities = file_parser(file);
    assert_eq!(entities.len(), 2);
    assert_eq!(entities[0].fields.len(), 2);
    assert_eq!(entities[0].fields[1].entity_type, EntityType::Method("m".to_string()));
    assert!(entities[1].fields.is_empty());
}

#[test]
fn field_entity_carries_visibility_and_dependencies() {
    let e = field_parser(&field("ids", "HashMap<Id, String>", SourceVisibility::Public));
    assert_eq!(e.entity_type, EntityType::Field("ids".to_string()));
    assert_eq!(e.name, "HashMap<Id,String>");
    assert_eq!(e.visibility, Visibility::Public);
    assert_eq!(e.fields.len(), 1);
    assert_eq!(e.fields[0].fields.len(), 3);
    let plain = field_parser(&field("n", "u32", SourceVisibility::Restricted));
    assert_eq!(plain.visibility, Visibility::Private);
    assert!(plain.fields.is_empty());
}

#[test]
fn struct_and_impl_parsers() {
    let s = StructDecl { ident: "Unit".to_string(), vis: SourceVisibility::Crate, fields: FieldList::Unit };
    let e = struct_parser(&s);
    assert_eq!(e.entity_type, EntityType::Struct);
    assert_eq!(e.visibility, Visibility::Private);
    assert!(e.fields.is_empty());
    let im = ImplDecl {
        is_trait_impl: false,
        self_ty: SelfType::Other,
        items: vec![ImplMember::Other, ImplMember::Method(method("a", vec![])), ImplMember::Method(method("b", vec![]))],
    };
    let ms = impl_parser(&im);
    assert_eq!(ms.iter().map(|m| m.name.clone()).collect::<Vec<_>>(), vec!["a".to_string(), "b".to_string()]);
}

#[test]
fn enum_block_and_dependencies_of_an_entity() {
    let en = Entity::new(EntityType::Enum, "Color", Vec::new(), Visibility::Public);
    assert_eq!(en.render(), "enum \"Color\" {\n");
    let user = Entity::new(
        EntityType::Struct,
        "User",
        vec![
            Entity::new(EntityType::Field("p".to_string()), "Profile", Vec::new(), Visibility::Public),
            Entity::new(EntityType::Field("q".to_string()), "u8", Vec::new(), Visibility::Public),
        ],
        Visibility::Public,
    );
    assert_eq!(user.render_dependencies(vec!["Profile".to_string()]), "\"User\" <-- \"Profile\"\n");
    assert_eq!(user.render_dependencies(vec![]), "");
}

#[test]
fn empty_entity_list_renders_empty_diagram() {
    assert_eq!(render_plantuml(Vec::new()), "@startuml\n\n\n\n@enduml");
}

#[test]
fn rust_module_names() {
    assert!(is_rust_module("main.rs"));
    assert!(is_rust_module(".rs"));
    assert!(!is_rust_module("rs"));
    assert!(!is_rust_module("main.rs.bak"));
    assert!(!is_rust_module("Cargo.toml"));
}

#[test]
fn clone_renders_the_same() {
    let user = Entity::new(
        EntityType::Struct,
        "User",
        vec![Entity::new(
            EntityType::Method("run".to_string()),
            "run",
            vec![Entity::new(EntityType::Parameter("n".to_string()), "u8", Vec::new(), Visibility::Private)],
            Visibility::Public,
        )],
        Visibility::Public,
    );
    let copy = user.clone();
    assert_eq!(copy, user);
    assert_eq!(copy.render(), "class \"User\" {\n    + run(n: u8)\n");
}
