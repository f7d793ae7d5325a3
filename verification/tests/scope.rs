use std::cell::Cell;
use std::rc::Rc;

use rnest_di::search::judge_outcome;
use rnest_di::{
    Di, DiGuard, Erased, Error, Factory, Kind, Origin, Resolution, ScopedDi, ScopedDiGuard,
    ScopedValue, TypeTag, Value,
};

type Build = Box<dyn FnOnce(&mut ScopedDiGuard<Recipe>) -> Result<Value, Error>>;

struct Recipe(Build);

impl Factory for Recipe {
    fn build(self, _guard: &mut DiGuard<Self>) -> Result<Value, Error> {
        Err(Error::User("not a factory of the registry".to_string()))
    }

    fn build_scoped(self, guard: &mut ScopedDiGuard<Self>) -> Result<Value, Error> {
        (self.0)(guard)
    }
}

fn recipe(f: impl FnOnce(&mut ScopedDiGuard<Recipe>) -> Result<Value, Error> + 'static) -> Recipe {
    Recipe(Box::new(f))
}

fn constant(i: i64) -> Recipe {
    recipe(move |_| Ok(Value::Int(i)))
}

fn number(guard: &mut ScopedDiGuard<Recipe>, name: &str) -> Result<i64, Error> {
    match guard.inject(name, Kind::Int)? {
        Value::Int(i) => Ok(i),
        other => panic!("{:?}", other),
    }
}

fn same_as(name: &'static str) -> Recipe {
    recipe(move |di| Ok(Value::Int(number(di, name)?)))
}

#[test]
fn test_scope_01() {
    let di: Di<Recipe> = Di::new();

    let mut di_a = di.scope("A", &["B"]);
    di_a.register_value("a", Value::Int(1), true).unwrap();

    let mut di_b = di_a.into_di().scope("B", &[]);
    di_b.register_value("b1", Value::Int(2), true).unwrap();
    di_b.register_value("b2", Value::Int(3), false).unwrap();

    let mut di_a = di_b.into_di().scope("A", &["B"]);
    assert_eq!(Value::Int(1), di_a.inject("a", Kind::Int).unwrap());
    assert_eq!(Value::Int(2), di_a.inject("b1", Kind::Int).unwrap());
    assert!(di_a.inject("b2", Kind::Int).is_err());
}

#[test]
fn test_scope_02() {
    let di: Di<Recipe> = Di::new();

    let mut di_a = di.scope("A", &["B"]);
    di_a.register_factory(
        "a",
        Kind::Int,
        recipe(|di| Ok(Value::Int(number(di, "b1")? + number(di, "b2")?))),
        true,
    )
    .unwrap();

    let mut di_b = di_a.into_di().scope("B", &[]);
    di_b.register_factory("b1", Kind::Int, constant(2), true).unwrap();
    di_b.register_factory("b2", Kind::Int, constant(3), true).unwrap();
    di_b.register_factory("b3", Kind::Int, constant(4), false).unwrap();

    let mut di_c = di_b.into_di().scope("C", &["B"]);
    di_c.register_factory("c1", Kind::Int, constant(5), false).unwrap();
    di_c.register_factory("c2", Kind::Int, same_as("c1"), true).unwrap();
    di_c.register_factory("c3", Kind::Int, same_as("b1"), true).unwrap();
    di_c.register_factory("c4", Kind::Int, same_as("b3"), true).unwrap();

    let mut di_a = di_c.into_di().scope("A", &["B"]);
    assert_eq!(Value::Int(5), di_a.inject("a", Kind::Int).unwrap());
    assert_eq!(Value::Int(2), di_a.inject("b1", Kind::Int).unwrap());
    assert_eq!(Value::Int(3), di_a.inject("b2", Kind::Int).unwrap());
    assert!(di_a.inject("b3", Kind::Int).is_err());

    let mut di_b = di_a.into_di().scope("B", &[]);
    assert_eq!(Value::Int(4), di_b.inject("b3", Kind::Int).unwrap());

    let mut di_c = di_b.into_di().scope("C", &["B"]);
    assert_eq!(Value::Int(5), di_c.inject("c1", Kind::Int).unwrap());
    assert_eq!(Value::Int(5), di_c.inject("c2", Kind::Int).unwrap());
    assert_eq!(Value::Int(2), di_c.inject("c3", Kind::Int).unwrap());
    assert!(di_c.inject("c4", Kind::Int).is_err());
}

#[test]
fn test_circulation() {
    let di: Di<Recipe> = Di::new();

    let mut di_a = di.scope("A", &["B"]);
    di_a.register_factory("a", Kind::Int, same_as("b"), true).unwrap();
    let mut di_b = di_a.into_di().scope("B", &["A"]);
    di_b.register_factory("b", Kind::Int, same_as("a"), true).unwrap();

    let a = di_b.into_di().scope("A", &["B"]).inject("a", Kind::Int);
    assert!(a.is_err());
}

#[test]
fn key_is_scope_hash_name() {
    assert_eq!(ScopedDi::<Recipe>::scoped_name("A", "a"), "A#a");
    assert_eq!(ScopedDi::<Recipe>::scoped_name("", ""), "#");
    assert_eq!(ScopedDi::<Recipe>::scoped_name("A#", "#a"), "A%23##a");
    assert_eq!(ScopedDi::<Recipe>::scoped_name("a#b", "c"), "a%23b#c");
    assert_eq!(ScopedDi::<Recipe>::scoped_name("a", "b#c"), "a#b#c");
    assert_eq!(ScopedDi::<Recipe>::scoped_name("50%", "x"), "50%25#x");
    assert_eq!(ScopedDi::<Recipe>::scoped_name("%23", "x"), "%2523#x");
    assert_eq!(ScopedDi::<Recipe>::scoped_name("é#ß", "ü"), "é%23ß#ü");
}

#[test]
fn scope_stores_under_its_key_with_owner_and_export() {
    let di: Di<Recipe> = Di::new();
    let mut di_b = di.scope("B", &[]);
    di_b.register_value("b1", Value::Int(2), true).unwrap();
    di_b.register_value("b2", Value::Int(3), false).unwrap();
    let mut di = di_b.into_di();

    assert_eq!(di.contains("B#b1").unwrap(), true);
    assert_eq!(di.contains("b1").unwrap(), false);
    assert_eq!(
        di.inject_value("B#b1", TypeTag::Scoped(Kind::Int)).unwrap(),
        Erased::Scoped(ScopedValue { scope: "B".to_string(), v: Value::Int(2), export: true })
    );
    assert_eq!(
        di.inject("B#b2", TypeTag::Scoped(Kind::Int)).unwrap(),
        Erased::Scoped(ScopedValue { scope: "B".to_string(), v: Value::Int(3), export: false })
    );
    assert_eq!(
        di.inject_value("B#b1", TypeTag::Plain(Kind::Int)),
        Err(Error::TypeMismatch("Direct downcast value failed, key: 'B#b1'".to_string()))
    );
    assert_eq!(
        di.inject_value("B#b1", TypeTag::Scoped(Kind::Text)),
        Err(Error::TypeMismatch("Direct downcast value failed, key: 'B#b1'".to_string()))
    );
}

#[test]
fn export_decides_what_an_importer_sees() {
    let di: Di<Recipe> = Di::new();
    let mut di_b = di.scope("B", &[]);
    di_b.register_value("b1", Value::Int(2), true).unwrap();
    di_b.register_value("b2", Value::Int(3), false).unwrap();

    let mut di_a = di_b.into_di().scope("A", &["B"]);
    assert_eq!(di_a.inject("b1", Kind::Int), Ok(Value::Int(2)));
    assert_eq!(di_a.inject_value("b1", Kind::Int), Ok(Value::Int(2)));
    assert_eq!(
        di_a.inject("b2", Kind::Int),
        Err(Error::InjectPrivateProvider("b2".to_string()))
    );
    assert_eq!(
        di_a.inject_value("b2", Kind::Int),
        Err(Error::InjectPrivateProvider("b2".to_string()))
    );

    let mut di_b = di_a.into_di().scope("B", &[]);
    assert_eq!(di_b.inject("b2", Kind::Int), Ok(Value::Int(3)));
    assert_eq!(di_b.inject_value("b2", Kind::Int), Ok(Value::Int(3)));
}

#[test]
fn private_binding_stops_a_search_at_the_top_even_if_a_later_scope_exports_the_name() {
    let di: Di<Recipe> = Di::new();
    let mut di_b = di.scope("B", &[]);
    di_b.register_value("x", Value::Int(1), false).unwrap();
    let mut di_c = di_b.into_di().scope("C", &[]);
    di_c.register_value("x", Value::Int(2), true).unwrap();

    let mut di_a = di_c.into_di().scope("A", &["B", "C"]);
    assert_eq!(
        di_a.inject("x", Kind::Int),
        Err(Error::InjectPrivateProvider("x".to_string()))
    );
    assert_eq!(
        di_a.inject_value("x", Kind::Int),
        Err(Error::InjectPrivateProvider("x".to_string()))
    );

    let mut di_a = di_a.into_di().scope("A", &["C", "B"]);
    assert_eq!(di_a.inject("x", Kind::Int), Ok(Value::Int(2)));
}

#[test]
fn private_binding_is_passed_over_inside_a_factory() {
    let di: Di<Recipe> = Di::new();
    let mut di_b = di.scope("B", &[]);
    di_b.register_value("x", Value::Int(1), false).unwrap();
    let mut di_c = di_b.into_di().scope("C", &[]);
    di_c.register_value("x", Value::Int(2), true).unwrap();

    let mut di_a = di_c.into_di().scope("A", &["B", "C"]);
    di_a.register_factory("a", Kind::Int, same_as("x"), true).unwrap();
    assert_eq!(di_a.inject("a", Kind::Int), Ok(Value::Int(2)));
}

#[test]
fn nested_search_without_a_visible_binding_is_not_found() {
    let di: Di<Recipe> = Di::new();
    let mut di_b = di.scope("B", &[]);
    di_b.register_value("x", Value::Int(1), false).unwrap();

    let mut guard = ScopedDiGuard::new(
        "A".to_string(),
        DiGuard::new(di_b.into_di()),
        vec!["A".to_string(), "B".to_string()],
    );
    assert_eq!(
        guard.inject("x", Kind::Int),
        Err(Error::KeyNotFound("'x' not found in scope list [\"A\", \"B\"]".to_string()))
    );
    assert_eq!(
        guard.inject_value("x", Kind::Int),
        Err(Error::KeyNotFound("Direct 'x' not found in scope list [\"A\", \"B\"]".to_string()))
    );
    assert_eq!(
        guard.inject("x", Kind::Int),
        Err(Error::CircularDependency("name: 'A#x', stack: [\"A#x\", \"B#x\"]".to_string()))
    );
    let mut session = guard.into_guard();
    assert_eq!(
        session.enter("B#x"),
        Err(Error::CircularDependency("name: 'B#x', stack: [\"A#x\", \"B#x\"]".to_string()))
    );
}

#[test]
fn own_private_binding_is_reached_from_the_scope_and_not_from_a_stranger() {
    let di: Di<Recipe> = Di::new();
    let mut di_c = di.scope("C", &["B"]);
    di_c.register_factory("c1", Kind::Int, constant(5), false).unwrap();
    di_c.register_factory("c2", Kind::Int, same_as("c1"), true).unwrap();
    assert_eq!(di_c.inject("c2", Kind::Int), Ok(Value::Int(5)));

    let mut di_d = di_c.into_di().scope("D", &["B"]);
    assert_eq!(
        di_d.inject("c2", Kind::Int),
        Err(Error::KeyNotFound("'c2' not found in scope list [\"D\", \"B\"]".to_string()))
    );
    assert_eq!(
        di_d.inject_value("c2", Kind::Int),
        Err(Error::KeyNotFound("Direct 'c2' not found in scope list [\"D\", \"B\"]".to_string()))
    );
}

#[test]
fn scoped_factory_runs_once() {
    let runs = Rc::new(Cell::new(0u32));
    let seen = runs.clone();
    let di: Di<Recipe> = Di::new();
    let mut di_a = di.scope("A", &[]);
    di_a.register_factory(
        "a",
        Kind::Int,
        recipe(move |_| {
            seen.set(seen.get() + 1);
            Ok(Value::Int(1))
        }),
        false,
    )
    .unwrap();
    assert_eq!(di_a.inject_value("a", Kind::Int).is_err(), true);
    assert_eq!(di_a.inject("a", Kind::Int), Ok(Value::Int(1)));
    assert_eq!(di_a.inject("a", Kind::Int), Ok(Value::Int(1)));
    assert_eq!(di_a.inject_value("a", Kind::Int), Ok(Value::Int(1)));
    assert_eq!(runs.get(), 1);
}

#[test]
fn scoped_lookup_of_another_kind_is_a_mismatch() {
    let di: Di<Recipe> = Di::new();
    let mut di_a = di.scope("A", &[]);
    di_a.register_value("a", Value::Int(1), true).unwrap();
    assert_eq!(
        di_a.inject("a", Kind::Text),
        Err(Error::TypeMismatch("Downcast value failed, key: 'A#a'".to_string()))
    );
    assert_eq!(
        di_a.inject_value("a", Kind::Text),
        Err(Error::TypeMismatch("Direct downcast value failed, key: 'A#a'".to_string()))
    );
    let mut di = di_a.into_di();
    di.register_value("B#b", Erased::Plain(Value::Int(1))).unwrap();
    let mut di_b = di.scope("B", &[]);
    assert_eq!(
        di_b.inject("b", Kind::Int),
        Err(Error::TypeMismatch("Downcast value failed, key: 'B#b'".to_string()))
    );
}

#[test]
fn scoped_factory_waits_with_its_scope_and_search_sequence() {
    let di: Di<Recipe> = Di::new();
    let mut di_a = di.scope("A", &["B", "C"]);
    di_a.register_factory("a", Kind::Bool, constant(0), true).unwrap();
    let mut di = di_a.into_di();
    let chain = vec!["A#a".to_string()];
    let pending = match di.begin_inject("A#a", TypeTag::Scoped(Kind::Bool), &chain) {
        Ok(Resolution::Build(pending)) => pending,
        _ => panic!("a factory was expected"),
    };
    assert_eq!(pending.tag(), TypeTag::Scoped(Kind::Bool));
    let owner = pending.owner().unwrap();
    assert_eq!(owner.scope, "A");
    assert_eq!(owner.export, true);
    match pending.origin {
        Origin::Scoped { scope, search_seq, export } => {
            assert_eq!(scope, "A");
            assert_eq!(search_seq, vec!["A".to_string(), "B".to_string(), "C".to_string()]);
            assert_eq!(export, true);
        }
        Origin::Plain => panic!("a scoped origin was expected"),
    }
    assert_eq!(
        di.finish_inject("A#a", Kind::Bool, Some(owner), Ok(Value::Bool(true))),
        Ok(Erased::Scoped(ScopedValue {
            scope: "A".to_string(),
            v: Value::Bool(true),
            export: true
        }))
    );
}

#[test]
fn verdict_on_one_scope() {
    let requester = "A".to_string();
    let own = || ScopedValue { scope: "A".to_string(), v: Value::Int(1), export: false };
    let exported = || ScopedValue { scope: "B".to_string(), v: Value::Int(2), export: true };
    let private = || ScopedValue { scope: "B".to_string(), v: Value::Int(3), export: false };

    assert_eq!(judge_outcome(&requester, "x", true, Ok(own())), Some(Ok(Value::Int(1))));
    assert_eq!(judge_outcome(&requester, "x", false, Ok(own())), Some(Ok(Value::Int(1))));
    assert_eq!(judge_outcome(&requester, "x", true, Ok(exported())), Some(Ok(Value::Int(2))));
    assert_eq!(
        judge_outcome(&requester, "x", true, Ok(private())),
        Some(Err(Error::InjectPrivateProvider("x".to_string())))
    );
    assert_eq!(judge_outcome(&requester, "x", false, Ok(private())), None);
    assert_eq!(
        judge_outcome(&requester, "x", true, Err(Error::KeyNotFound("k".to_string()))),
        None
    );
    assert_eq!(
        judge_outcome(&requester, "x", false, Err(Error::TypeMismatch("t".to_string()))),
        Some(Err(Error::TypeMismatch("t".to_string())))
    );
    assert!(exported().visible_to(&requester));
    assert!(!private().visible_to(&requester));
    assert!(own().visible_to(&requester));
    assert_eq!(private().clone(), private());
}

#[test]
fn cycle_across_scopes_names_the_whole_chain() {
    let di: Di<Recipe> = Di::new();
    let mut di_a = di.scope("A", &["B"]);
    di_a.register_factory("a", Kind::Int, same_as("b"), true).unwrap();
    let mut di_b = di_a.into_di().scope("B", &["A"]);
    di_b.register_factory("b", Kind::Int, same_as("a"), true).unwrap();

    let mut di_a = di_b.into_di().scope("A", &["B"]);
    assert_eq!(
        di_a.inject("a", Kind::Int),
        Err(Error::CircularDependency(
            "name: 'A#a', stack: [\"A#a\", \"A#b\", \"B#b\", \"B#a\"]".to_string()
        ))
    );
    let di = di_a.into_di();
    assert_eq!(di.contains("A#a").unwrap(), false);
    assert_eq!(di.contains("B#b").unwrap(), false);
}

#[test]
fn scope_never_reaches_the_binding_of_another_under_a_name_of_its_own() {
    let di: Di<Recipe> = Di::new();
    let mut first = di.scope("a#b", &[]);
    first.register_value("c", Value::Int(1), true).unwrap();
    assert_eq!(first.inject_value("c", Kind::Int), Ok(Value::Int(1)));

    let mut second = first.into_di().scope("a", &[]);
    assert_eq!(
        second.inject_value("b#c", Kind::Int),
        Err(Error::KeyNotFound("Direct 'b#c' not found in scope list [\"a\"]".to_string()))
    );
    assert_eq!(
        second.inject("b#c", Kind::Int),
        Err(Error::KeyNotFound("'b#c' not found in scope list [\"a\"]".to_string()))
    );
    second.register_value("b#c", Value::Int(2), true).unwrap();
    assert_eq!(second.inject_value("b#c", Kind::Int), Ok(Value::Int(2)));

    let first = second.into_di().scope("a#b", &[]);
    assert_eq!(first.inject_value("c", Kind::Int), Ok(Value::Int(1)));
}

#[test]
fn scoped_registration_takes_the_place_of_the_other_kind() {
    let runs = Rc::new(Cell::new(0u32));
    let seen = runs.clone();
    let di: Di<Recipe> = Di::new();
    let mut di_a = di.scope("A", &[]);
    di_a.register_factory(
        "a",
        Kind::Int,
        recipe(move |_| {
            seen.set(seen.get() + 1);
            Ok(Value::Int(2))
        }),
        true,
    )
    .unwrap();
    di_a.register_value("a", Value::Int(1), true).unwrap();
    assert_eq!(di_a.inject("a", Kind::Int), Ok(Value::Int(1)));
    assert_eq!(runs.get(), 0);

    di_a.register_factory("a", Kind::Int, constant(3), true).unwrap();
    assert_eq!(di_a.inject_value("a", Kind::Int).is_err(), true);
    assert_eq!(di_a.inject("a", Kind::Int), Ok(Value::Int(3)));
}
