//! End-to-end runs of the transformer on whole class declarations.

use hierarchy::class::{build_output, class_impl};
use hierarchy::classinfo::ClassInfo;
use hierarchy::output::ClassOutput;
use hierarchy::token::{Delim, Tok, Vis};

fn id(s: &str) -> Tok {
    Tok::Ident(s.to_string())
}

fn lit(s: &str) -> Tok {
    Tok::Lit(s.to_string())
}

fn p(c: char) -> Tok {
    Tok::Punct(c)
}

fn ob() -> Tok {
    Tok::Open(Delim::Brace)
}

fn cb() -> Tok {
    Tok::Close(Delim::Brace)
}

fn op() -> Tok {
    Tok::Open(Delim::Paren)
}

fn cp() -> Tok {
    Tok::Close(Delim::Paren)
}

fn transform(toks: Vec<Tok>) -> ClassOutput {
    class_impl(&toks).expect("the declaration should parse")
}

#[test]
fn dog_extends_animal_overrides_speak() {
    // pub Dog extends Animal {
    //     override Animal { pub fn speak(&self) -> Text { "Woof" } }
    // }
    let toks = vec![
        id("pub"),
        id("Dog"),
        id("extends"),
        id("Animal"),
        ob(),
        id("override"),
        id("Animal"),
        ob(),
        id("pub"),
        id("fn"),
        id("speak"),
        op(),
        p('&'),
        id("self"),
        cp(),
        p('-'),
        p('>'),
        id("Text"),
        ob(),
        lit("\"Woof\""),
        cb(),
        cb(),
        cb(),
    ];
    let out = transform(toks);

    // the record embeds an `animal` field of type `Animal`
    let sf = out.record.super_field.as_ref().expect("an embedded ancestor field");
    assert_eq!(sf.name, "animal");
    assert_eq!(sf.class_name, "Animal");
    assert_eq!(out.record.vis, Vis::Public);
    assert_eq!(out.record.name, "Dog");
    assert!(out.record.fields.is_empty());

    // the interface lists the ancestor's interface as its dependency
    assert_eq!(out.trait_def.trait_name, "DogTrait");
    assert_eq!(out.trait_def.accessor_name, "get_dog_struct");
    assert_eq!(out.trait_def.deps, vec!["AnimalTrait".to_string()]);

    // one delegation block; its speak is the override, not the delegated body
    assert_eq!(out.delegations.len(), 1);
    let d = &out.delegations[0];
    assert_eq!(d.trait_name, "AnimalTrait");
    assert_eq!(d.class_name, "Dog");
    assert_eq!(d.accessor_name, "get_animal_struct");
    assert_eq!(d.target, "Animal");
    assert_eq!(d.path, vec!["animal".to_string()]);
    assert_eq!(d.super_field, "animal");
    assert_eq!(d.overrides.len(), 1);
    assert_eq!(d.overrides[0].name, "speak");
    assert_eq!(d.overrides[0].body, vec![lit("\"Woof\"")]);

    // the override touched neither the inherent block nor the interface
    assert!(out.inherent.methods.is_empty());
    assert!(out.trait_def.methods.is_empty());
}

#[test]
fn three_link_chain_paths_and_supers() {
    // C extends A < B < E {}
    let toks = vec![
        id("C"),
        id("extends"),
        id("A"),
        p('<'),
        id("B"),
        p('<'),
        id("E"),
        ob(),
        cb(),
    ];
    let out = transform(toks);

    assert_eq!(out.delegations.len(), 3);
    assert_eq!(out.delegations[0].trait_name, "ATrait");
    assert_eq!(out.delegations[1].trait_name, "BTrait");
    assert_eq!(out.delegations[2].trait_name, "ETrait");
    assert_eq!(out.delegations[0].path, vec!["a".to_string()]);
    assert_eq!(out.delegations[1].path, vec!["a".to_string(), "b".to_string()]);
    assert_eq!(
        out.delegations[2].path,
        vec!["a".to_string(), "b".to_string(), "e".to_string()],
    );
    // the super accessor names the immediate ancestor's embedding in every block
    for d in &out.delegations {
        assert_eq!(d.super_field, "a");
    }
    assert_eq!(
        out.trait_def.deps,
        vec!["ATrait".to_string(), "BTrait".to_string(), "ETrait".to_string()],
    );
    let sf = out.record.super_field.as_ref().unwrap();
    assert_eq!(sf.name, "a");
    assert_eq!(sf.class_name, "A");
}

#[test]
fn no_extends_no_delegations() {
    // pub Point { let x: i32; let y: i32; }
    let toks = vec![
        id("pub"),
        id("Point"),
        ob(),
        id("let"),
        id("x"),
        p(':'),
        id("i32"),
        p(';'),
        id("let"),
        id("y"),
        p(':'),
        id("i32"),
        p(';'),
        cb(),
    ];
    let out = transform(toks);

    assert!(out.delegations.is_empty());
    assert!(out.record.super_field.is_none());
    assert!(out.trait_def.deps.is_empty());
    assert_eq!(out.record.fields.len(), 2);
    assert_eq!(out.record.fields[0].name, "x");
    assert_eq!(out.record.fields[1].name, "y");
    // the self-implementation stands, pointing the interface back at the record
    assert_eq!(out.self_impl.trait_name, "PointTrait");
    assert_eq!(out.self_impl.class_name, "Point");
    assert_eq!(out.self_impl.accessor_name, "get_point_struct");
}

#[test]
fn methods_split_between_inherent_and_interface() {
    // Widget {
    //     pub fn draw(&self) -> u8 { 1 }          interface
    //     pub final fn id(&self) -> u8 { 2 }      inherent (non-overridable)
    //     fn helper(&self) -> u8 { 3 }            inherent (private)
    //     pub fn make(n: u8) -> u8 { n }          inherent (static)
    // }
    let toks = vec![
        id("Widget"),
        ob(),
        id("pub"),
        id("fn"),
        id("draw"),
        op(),
        p('&'),
        id("self"),
        cp(),
        p('-'),
        p('>'),
        id("u8"),
        ob(),
        lit("1"),
        cb(),
        id("pub"),
        id("final"),
        id("fn"),
        id("id"),
        op(),
        p('&'),
        id("self"),
        cp(),
        p('-'),
        p('>'),
        id("u8"),
        ob(),
        lit("2"),
        cb(),
        id("fn"),
        id("helper"),
        op(),
        p('&'),
        id("self"),
        cp(),
        p('-'),
        p('>'),
        id("u8"),
        ob(),
        lit("3"),
        cb(),
        id("pub"),
        id("fn"),
        id("make"),
        op(),
        id("n"),
        p(':'),
        id("u8"),
        cp(),
        p('-'),
        p('>'),
        id("u8"),
        ob(),
        id("n"),
        cb(),
        cb(),
    ];
    let out = transform(toks);

    let interface: Vec<&str> = out.trait_def.methods.iter().map(|f| f.name.as_str()).collect();
    let inherent: Vec<&str> = out.inherent.methods.iter().map(|f| f.name.as_str()).collect();
    assert_eq!(interface, vec!["draw"]);
    assert_eq!(inherent, vec!["id", "helper", "make"]);
    assert!(out.inherent.methods[0].is_final);
    assert!(!out.inherent.methods[1].is_static());
    assert!(out.inherent.methods[2].is_static());
    assert!(!out.trait_def.methods[0].is_static());
}

#[test]
fn snake_case_normalizes_ancestor_names() {
    // Worker extends HttpServer {}
    let toks = vec![
        id("Worker"),
        id("extends"),
        id("HttpServer"),
        ob(),
        cb(),
    ];
    let out = transform(toks);
    let sf = out.record.super_field.as_ref().unwrap();
    assert_eq!(sf.name, "http_server");
    assert_eq!(sf.class_name, "HttpServer");
    assert_eq!(out.delegations[0].accessor_name, "get_http_server_struct");
    assert_eq!(out.delegations[0].path, vec!["http_server".to_string()]);
}

#[test]
fn repeated_override_blocks_merge() {
    // C extends A {
    //     override A { fn one(&self) -> u8 { 1 } }
    //     override A { fn two(&self) -> u8 { 2 } }
    // }
    let toks = vec![
        id("C"),
        id("extends"),
        id("A"),
        ob(),
        id("override"),
        id("A"),
        ob(),
        id("fn"),
        id("one"),
        op(),
        p('&'),
        id("self"),
        cp(),
        p('-'),
        p('>'),
        id("u8"),
        ob(),
        lit("1"),
        cb(),
        cb(),
        id("override"),
        id("A"),
        ob(),
        id("fn"),
        id("two"),
        op(),
        p('&'),
        id("self"),
        cp(),
        p('-'),
        p('>'),
        id("u8"),
        ob(),
        lit("2"),
        cb(),
        cb(),
        cb(),
    ];
    let out = transform(toks);
    assert_eq!(out.delegations.len(), 1);
    let names: Vec<&str> = out.delegations[0].overrides.iter().map(|f| f.name.as_str()).collect();
    assert_eq!(names, vec!["one", "two"]);
}

#[test]
fn auxiliary_impl_blocks_are_direct() {
    // Gadget {
    //     impl Marker {}
    //     impl Runner { fn run(&self) -> u8 { 9 } }
    // }
    let toks = vec![
        id("Gadget"),
        ob(),
        id("impl"),
        id("Marker"),
        ob(),
        cb(),
        id("impl"),
        id("Runner"),
        ob(),
        id("fn"),
        id("run"),
        op(),
        p('&'),
        id("self"),
        cp(),
        p('-'),
        p('>'),
        id("u8"),
        ob(),
        lit("9"),
        cb(),
        cb(),
        cb(),
    ];
    let out = transform(toks);
    assert_eq!(out.aux_impls.len(), 2);
    assert_eq!(out.aux_impls[0].trait_name, "Marker");
    assert!(out.aux_impls[0].methods.is_empty());
    assert_eq!(out.aux_impls[1].trait_name, "Runner");
    assert_eq!(out.aux_impls[1].methods.len(), 1);
    assert_eq!(out.aux_impls[1].methods[0].name, "run");
    // adopted capabilities appear in the interface's dependency list
    assert_eq!(
        out.trait_def.deps,
        vec!["Marker".to_string(), "Runner".to_string()],
    );
    assert!(out.delegations.is_empty());
}

#[test]
fn field_types_kept_verbatim() {
    // Buf { let data: [u8; 4]; pub let next: Vec<u8>; }
    let toks = vec![
        id("Buf"),
        ob(),
        id("let"),
        id("data"),
        p(':'),
        Tok::Open(Delim::Bracket),
        id("u8"),
        p(';'),
        lit("4"),
        Tok::Close(Delim::Bracket),
        p(';'),
        id("pub"),
        id("let"),
        id("next"),
        p(':'),
        id("Vec"),
        p('<'),
        id("u8"),
        p('>'),
        p(';'),
        cb(),
    ];
    let out = transform(toks);
    assert_eq!(out.record.fields.len(), 2);
    let data = &out.record.fields[0];
    assert_eq!(data.vis, Vis::Private);
    assert_eq!(
        data.ty,
        vec![
            Tok::Open(Delim::Bracket),
            id("u8"),
            p(';'),
            lit("4"),
            Tok::Close(Delim::Bracket),
        ],
    );
    let next = &out.record.fields[1];
    assert_eq!(next.vis, Vis::Public);
    assert_eq!(next.ty, vec![id("Vec"), p('<'), id("u8"), p('>')]);
}

#[test]
fn unit_method_has_empty_return_type() {
    // Task { fn ping() { } }
    let toks = vec![
        id("Task"),
        ob(),
        id("fn"),
        id("ping"),
        op(),
        cp(),
        ob(),
        cb(),
        cb(),
    ];
    let out = transform(toks);
    assert_eq!(out.inherent.methods.len(), 1);
    let f = &out.inherent.methods[0];
    assert_eq!(f.name, "ping");
    assert!(f.ret.is_empty());
    assert!(f.body.is_empty());
    assert!(f.params.is_empty());
    assert!(f.is_static());
}

#[test]
fn build_output_matches_class_impl() {
    let toks = vec![
        id("Cat"),
        id("extends"),
        id("Animal"),
        ob(),
        cb(),
    ];
    let parsed = ClassInfo::parse(&toks).unwrap();
    let direct = build_output(&parsed);
    let through = transform(toks);
    assert_eq!(direct, through);
}

#[test]
fn override_for_a_non_ancestor_is_recorded_but_not_emitted() {
    // C extends A { override B { fn m(&self) -> u8 { 0 } } }
    let toks = vec![
        id("C"),
        id("extends"),
        id("A"),
        ob(),
        id("override"),
        id("B"),
        ob(),
        id("fn"),
        id("m"),
        op(),
        p('&'),
        id("self"),
        cp(),
        p('-'),
        p('>'),
        id("u8"),
        ob(),
        lit("0"),
        cb(),
        cb(),
        cb(),
    ];
    let info = ClassInfo::parse(&toks).unwrap();
    assert_eq!(info.overrides.len(), 1);
    assert_eq!(info.overrides[0].name, "B");
    let out = build_output(&info);
    assert_eq!(out.delegations.len(), 1);
    assert_eq!(out.delegations[0].trait_name, "ATrait");
    assert!(out.delegations[0].overrides.is_empty());
}

#[test]
fn commas_inside_parameter_types_do_not_split() {
    // F { fn f(g: fn(u8, u8) -> u8, n: u8) -> u8 { n } }
    let toks = vec![
        id("F"),
        ob(),
        id("fn"),
        id("f"),
        op(),
        id("g"),
        p(':'),
        id("fn"),
        op(),
        id("u8"),
        p(','),
        id("u8"),
        cp(),
        p('-'),
        p('>'),
        id("u8"),
        p(','),
        id("n"),
        p(':'),
        id("u8"),
        cp(),
        p('-'),
        p('>'),
        id("u8"),
        ob(),
        id("n"),
        cb(),
        cb(),
    ];
    let out = transform(toks);
    assert_eq!(out.inherent.methods.len(), 1);
    assert_eq!(out.inherent.methods[0].params.len(), 2);
}

#[test]
fn private_class_record_stays_private() {
    let toks = vec![id("Quiet"), ob(), cb()];
    let out = transform(toks);
    assert_eq!(out.record.vis, Vis::Private);
    assert_eq!(out.trait_def.vis, Vis::Private);
}
