use std::cell::Cell;
use std::rc::Rc;

use rnest_di::message::{
    circular_dependency_around_text, debug_list_text, direct_scope_exhausted_around_text,
    key_not_found_around_text, scope_exhausted_around_text,
};
use rnest_di::{
    Di, DiGuard, Erased, Error, Factory, Kind, Resolution, ScopedDiGuard, TypeTag, Value,
};

type Build = Box<dyn FnOnce(&mut DiGuard<Recipe>) -> Result<Value, Error>>;

struct Recipe(Build);

impl Factory for Recipe {
    fn build(self, guard: &mut DiGuard<Self>) -> Result<Value, Error> {
        (self.0)(guard)
    }

    fn build_scoped(self, _guard: &mut ScopedDiGuard<Self>) -> Result<Value, Error> {
        Err(Error::User("not a factory of a scope".to_string()))
    }
}

fn recipe(f: impl FnOnce(&mut DiGuard<Recipe>) -> Result<Value, Error> + 'static) -> Recipe {
    Recipe(Box::new(f))
}

fn plain(kind: Kind) -> TypeTag {
    TypeTag::Plain(kind)
}

fn plain_int(guard: &mut DiGuard<Recipe>, name: &str) -> Result<i64, Error> {
    match guard.inject(name, TypeTag::Plain(Kind::Int))? {
        Erased::Plain(Value::Int(i)) => Ok(i),
        other => panic!("{:?}", other),
    }
}

fn plain_text(guard: &mut DiGuard<Recipe>, name: &str) -> Result<String, Error> {
    match guard.inject(name, TypeTag::Plain(Kind::Text))? {
        Erased::Plain(Value::Text(s)) => Ok(s),
        other => panic!("{:?}", other),
    }
}

struct Person {
    name: String,
}

impl Person {
    fn new<S: Into<String>>(name: S) -> Self {
        Self { name: name.into() }
    }

    fn speak(&self) -> String {
        format!("My name is {}", self.name)
    }
}

trait Human {
    fn speak(&self) -> String;
}

impl Human for Person {
    fn speak(&self) -> String {
        format!("My name is {}", self.name)
    }
}

#[test]
fn test_simple() {
    let mut di: Di<Recipe> = Di::new();

    di.register_factory("a", Kind::Int, recipe(|_| Ok(Value::Int(1)))).unwrap();
    di.register_factory(
        "b",
        Kind::Int,
        recipe(|di| Ok(Value::Int(plain_int(di, "a")? + 1))),
    )
    .unwrap();
    di.register_value("c", Erased::Plain(Value::Int(10))).unwrap();

    assert_eq!(di.inject("a", plain(Kind::Int)).unwrap(), Erased::Plain(Value::Int(1)));
    assert_eq!(di.inject("b", plain(Kind::Int)).unwrap(), Erased::Plain(Value::Int(2)));
    assert_eq!(di.inject("c", plain(Kind::Int)).unwrap(), Erased::Plain(Value::Int(10)));
    assert_eq!(di.contains("a").unwrap(), true);
    assert_eq!(di.contains("b").unwrap(), true);
    assert_eq!(di.contains("c").unwrap(), true);
    assert_eq!(di.contains("d").unwrap(), false);
}

#[test]
fn test_not_found() {
    let mut di: Di<Recipe> = Di::new();

    di.register_factory(
        "a",
        Kind::Unit,
        recipe(|di| match di.inject("c", TypeTag::Plain(Kind::Unit))? {
            Erased::Plain(v) => Ok(v),
            other => panic!("{:?}", other),
        }),
    )
    .unwrap();

    match di.inject("b", plain(Kind::Int)) {
        Err(Error::KeyNotFound(_)) => {}
        r => panic!("{:?}", r),
    }

    match di.inject("a", plain(Kind::Unit)) {
        Err(Error::KeyNotFound(_)) => {}
        r => panic!("{:?}", r),
    }
}

#[test]
fn test_circular_dep() {
    let mut di: Di<Recipe> = Di::new();

    di.register_factory(
        "a",
        Kind::Int,
        recipe(|di| Ok(Value::Int(plain_int(di, "b")? + 1))),
    )
    .unwrap();
    di.register_factory(
        "b",
        Kind::Int,
        recipe(|di| Ok(Value::Int(plain_int(di, "a")? + 1))),
    )
    .unwrap();

    match di.inject("b", plain(Kind::Int)) {
        Err(Error::CircularDependency(_)) => {}
        r => panic!("{:?}", r),
    }

    match di.inject("a", plain(Kind::Int)) {
        Err(Error::KeyNotFound(_)) => {}
        r => panic!("{:?}", r),
    }
}

#[test]
fn test_factory() {
    let mut di: Di<Recipe> = Di::new();

    di.register_factory(
        "bob",
        Kind::Text,
        recipe(|_| Ok(Value::Text(Person::new("bob").name))),
    )
    .unwrap();

    let person = match di.inject("bob", plain(Kind::Text)).unwrap() {
        Erased::Plain(Value::Text(name)) => Person::new(name),
        other => panic!("{:?}", other),
    };

    assert_eq!(person.speak(), "My name is bob");
}

#[test]
fn test_trait() {
    let mut di: Di<Recipe> = Di::new();

    di.register_factory(
        "bob",
        Kind::Text,
        recipe(|_| Ok(Value::Text(Person::new("bob").name))),
    )
    .unwrap();

    let person: Box<dyn Human> = match di.inject("bob", plain(Kind::Text)).unwrap() {
        Erased::Plain(Value::Text(name)) => Box::new(Person::new(name)),
        other => panic!("{:?}", other),
    };

    assert_eq!(person.speak(), "My name is bob");
}

#[test]
fn test_value() {
    let mut di: Di<Recipe> = Di::new();

    di.register_value("name", Erased::Plain(Value::Text("bob".to_string()))).unwrap();
    di.register_factory(
        "hello",
        Kind::Text,
        recipe(|di| {
            let name = plain_text(di, "name")?;
            Ok(Value::Text(format!("Hello {}", name)))
        }),
    )
    .unwrap();
    di.register_factory(
        "hi",
        Kind::Text,
        recipe(|di| {
            let name = plain_text(di, "name")?;
            Ok(Value::Text(format!("Hi {}", name)))
        }),
    )
    .unwrap();

    let hello_msg = di.inject("hello", plain(Kind::Text)).unwrap();
    let hi_msg = di.inject("hi", plain(Kind::Text)).unwrap();

    assert_eq!(hello_msg, Erased::Plain(Value::Text("Hello bob".to_string())));
    assert_eq!(hi_msg, Erased::Plain(Value::Text("Hi bob".to_string())));
    assert_eq!(hello_msg, di.inject_value("hello", plain(Kind::Text)).unwrap());
    assert_eq!(hi_msg, di.inject_value("hi", plain(Kind::Text)).unwrap());
}

#[test]
fn factory_runs_once_and_its_product_is_kept() {
    let runs = Rc::new(Cell::new(0u32));
    let seen = runs.clone();
    let mut di: Di<Recipe> = Di::new();
    di.register_factory(
        "a",
        Kind::Int,
        recipe(move |_| {
            seen.set(seen.get() + 1);
            Ok(Value::Int(1))
        }),
    )
    .unwrap();

    assert_eq!(di.inject("a", plain(Kind::Int)).unwrap(), Erased::Plain(Value::Int(1)));
    assert_eq!(di.inject("a", plain(Kind::Int)).unwrap(), Erased::Plain(Value::Int(1)));
    assert_eq!(di.inject_value("a", plain(Kind::Int)).unwrap(), Erased::Plain(Value::Int(1)));
    assert_eq!(runs.get(), 1);
}

#[test]
fn dependent_factory_resolves_through_the_guard() {
    let mut di: Di<Recipe> = Di::new();
    di.register_factory(
        "b",
        Kind::Int,
        recipe(|di| Ok(Value::Int(plain_int(di, "a")? + 1))),
    )
    .unwrap();
    di.register_factory("a", Kind::Int, recipe(|_| Ok(Value::Int(1)))).unwrap();

    assert_eq!(di.inject("b", plain(Kind::Int)).unwrap(), Erased::Plain(Value::Int(2)));
    assert_eq!(di.inject_value("a", plain(Kind::Int)).unwrap(), Erased::Plain(Value::Int(1)));
}

#[test]
fn cycle_is_reported_with_the_chain_and_orphans_both_keys() {
    let mut di: Di<Recipe> = Di::new();
    di.register_factory(
        "a",
        Kind::Int,
        recipe(|di| Ok(Value::Int(plain_int(di, "b")? + 1))),
    )
    .unwrap();
    di.register_factory(
        "b",
        Kind::Int,
        recipe(|di| Ok(Value::Int(plain_int(di, "a")? + 1))),
    )
    .unwrap();

    assert_eq!(
        di.inject("b", plain(Kind::Int)),
        Err(Error::CircularDependency("name: 'b', stack: [\"b\", \"a\"]".to_string()))
    );
    assert_eq!(di.contains("a").unwrap(), false);
    assert_eq!(di.contains("b").unwrap(), false);
    assert_eq!(
        di.inject("a", plain(Kind::Int)),
        Err(Error::KeyNotFound("key: a, stack: [\"a\"]".to_string()))
    );
    assert_eq!(
        di.inject("b", plain(Kind::Int)),
        Err(Error::KeyNotFound("key: b, stack: [\"b\"]".to_string()))
    );
}

#[test]
fn key_can_be_registered_again_after_it_was_orphaned() {
    let mut di: Di<Recipe> = Di::new();
    di.register_factory("a", Kind::Int, recipe(|_| Err(Error::User("no".to_string()))))
        .unwrap();
    assert_eq!(di.inject("a", plain(Kind::Int)), Err(Error::User("no".to_string())));
    assert_eq!(di.contains("a").unwrap(), false);
    di.register_factory("a", Kind::Int, recipe(|_| Ok(Value::Int(4)))).unwrap();
    assert_eq!(di.inject("a", plain(Kind::Int)).unwrap(), Erased::Plain(Value::Int(4)));
}

#[test]
fn value_is_overridden_by_a_later_registration() {
    let mut di: Di<Recipe> = Di::new();
    di.register_value("name", Erased::Plain(Value::Int(1))).unwrap();
    assert_eq!(di.inject("name", plain(Kind::Int)).unwrap(), Erased::Plain(Value::Int(1)));
    di.register_value("name", Erased::Plain(Value::Int(2))).unwrap();
    assert_eq!(di.inject("name", plain(Kind::Int)).unwrap(), Erased::Plain(Value::Int(2)));
    di.register_value("name", Erased::Plain(Value::Text("two".to_string()))).unwrap();
    assert_eq!(
        di.inject_value("name", plain(Kind::Text)).unwrap(),
        Erased::Plain(Value::Text("two".to_string()))
    );
}

#[test]
fn value_takes_the_place_of_a_waiting_factory() {
    let runs = Rc::new(Cell::new(0u32));
    let seen = runs.clone();
    let mut di: Di<Recipe> = Di::new();
    di.register_factory(
        "k",
        Kind::Int,
        recipe(move |_| {
            seen.set(seen.get() + 1);
            Ok(Value::Int(2))
        }),
    )
    .unwrap();
    di.register_value("k", Erased::Plain(Value::Int(1))).unwrap();
    assert_eq!(di.inject("k", plain(Kind::Int)), Ok(Erased::Plain(Value::Int(1))));
    assert_eq!(di.inject_value("k", plain(Kind::Int)), Ok(Erased::Plain(Value::Int(1))));
    assert_eq!(runs.get(), 0);
}

#[test]
fn factory_takes_the_place_of_a_value() {
    let mut di: Di<Recipe> = Di::new();
    di.register_value("k", Erased::Plain(Value::Int(1))).unwrap();
    di.register_factory("k", Kind::Int, recipe(|_| Ok(Value::Int(9)))).unwrap();
    assert_eq!(
        di.inject_value("k", plain(Kind::Int)),
        Err(Error::KeyNotFound("Direct key: k".to_string()))
    );
    assert_eq!(di.contains("k").unwrap(), true);
    assert_eq!(di.inject("k", plain(Kind::Int)), Ok(Erased::Plain(Value::Int(9))));
    assert_eq!(di.inject_value("k", plain(Kind::Int)), Ok(Erased::Plain(Value::Int(9))));
}

#[test]
fn failed_factory_leaves_no_value_behind_where_one_was_replaced() {
    let mut di: Di<Recipe> = Di::new();
    di.register_value("k", Erased::Plain(Value::Int(1))).unwrap();
    di.register_factory("k", Kind::Int, recipe(|_| Err(Error::User("no".to_string()))))
        .unwrap();
    assert_eq!(di.inject("k", plain(Kind::Int)), Err(Error::User("no".to_string())));
    assert_eq!(di.contains("k").unwrap(), false);
}

#[test]
fn product_takes_the_place_of_a_factory_that_was_registered_meanwhile() {
    let mut di: Di<Recipe> = Di::new();
    di.register_pending(
        "k",
        rnest_di::Pending {
            kind: Kind::Int,
            origin: rnest_di::Origin::Plain,
            factory: recipe(|_| Ok(Value::Int(1))),
        },
    )
    .unwrap();
    assert_eq!(
        di.finish_inject("k", Kind::Int, None, Ok(Value::Int(5))),
        Ok(Erased::Plain(Value::Int(5)))
    );
    assert_eq!(di.inject("k", plain(Kind::Int)), Ok(Erased::Plain(Value::Int(5))));
}

#[test]
fn list_is_shown_as_the_standard_library_shows_it() {
    let lists: Vec<Vec<String>> = vec![
        vec![],
        vec!["a".to_string()],
        vec!["a".to_string(), "b".to_string()],
        vec![String::new(), "say \"hi\"\n".to_string(), "tab\t\\ é \u{7f}".to_string()],
    ];
    for list in &lists {
        assert_eq!(debug_list_text(list), format!("{:?}", list));
    }
    assert_eq!(debug_list_text(&lists[0]), "[]");
    assert_eq!(debug_list_text(&lists[2]), "[\"a\", \"b\"]");
    assert_eq!(key_not_found_around_text("k", "[x]"), "key: k, stack: [x]");
    assert_eq!(circular_dependency_around_text("k", "[x]"), "name: 'k', stack: [x]");
    assert_eq!(scope_exhausted_around_text("k", "[x]"), "'k' not found in scope list [x]");
    assert_eq!(
        direct_scope_exhausted_around_text("k", "[x]"),
        "Direct 'k' not found in scope list [x]"
    );
}

#[test]
fn wrong_type_is_a_mismatch_not_a_missing_key() {
    let mut di: Di<Recipe> = Di::new();
    di.register_value("name", Erased::Plain(Value::Int(1))).unwrap();
    assert_eq!(
        di.inject("name", plain(Kind::Text)),
        Err(Error::TypeMismatch("Downcast value failed, key: 'name'".to_string()))
    );
    assert_eq!(
        di.inject_value("name", plain(Kind::Text)),
        Err(Error::TypeMismatch("Direct downcast value failed, key: 'name'".to_string()))
    );
    assert_eq!(
        di.inject_value("name", TypeTag::Scoped(Kind::Int)),
        Err(Error::TypeMismatch("Direct downcast value failed, key: 'name'".to_string()))
    );
    assert_eq!(
        di.inject_value("nobody", plain(Kind::Text)),
        Err(Error::KeyNotFound("Direct key: nobody".to_string()))
    );
}

#[test]
fn factory_asked_for_another_type_is_used_up() {
    let mut di: Di<Recipe> = Di::new();
    di.register_factory("a", Kind::Int, recipe(|_| Ok(Value::Int(1)))).unwrap();
    assert_eq!(
        di.inject("a", plain(Kind::Text)),
        Err(Error::TypeMismatch("Downcast factory failed, key: 'a'".to_string()))
    );
    assert_eq!(di.contains("a").unwrap(), false);
    assert_eq!(
        di.inject("a", plain(Kind::Int)),
        Err(Error::KeyNotFound("key: a, stack: [\"a\"]".to_string()))
    );
}

#[test]
fn product_of_another_kind_than_promised_is_refused() {
    let mut di: Di<Recipe> = Di::new();
    di.register_factory("a", Kind::Int, recipe(|_| Ok(Value::Bool(true)))).unwrap();
    assert_eq!(
        di.inject("a", plain(Kind::Int)),
        Err(Error::TypeMismatch("Downcast value failed, key: 'a'".to_string()))
    );
    assert_eq!(di.contains("a").unwrap(), false);
}

#[test]
fn second_request_in_one_session_is_circular_even_after_success() {
    let mut di: Di<Recipe> = Di::new();
    di.register_value("shared", Erased::Plain(Value::Int(1))).unwrap();
    di.register_factory(
        "left",
        Kind::Int,
        recipe(|di| Ok(Value::Int(plain_int(di, "shared")? + 1))),
    )
    .unwrap();
    di.register_factory(
        "right",
        Kind::Int,
        recipe(|di| Ok(Value::Int(plain_int(di, "shared")? + 2))),
    )
    .unwrap();
    di.register_factory(
        "top",
        Kind::Int,
        recipe(|di| Ok(Value::Int(plain_int(di, "left")? + plain_int(di, "right")?))),
    )
    .unwrap();

    assert_eq!(
        di.inject("top", plain(Kind::Int)),
        Err(Error::CircularDependency(
            "name: 'shared', stack: [\"top\", \"left\", \"shared\", \"right\"]".to_string()
        ))
    );
    assert_eq!(di.inject_value("left", plain(Kind::Int)).unwrap(), Erased::Plain(Value::Int(2)));
    assert_eq!(di.contains("right").unwrap(), false);
    assert_eq!(di.contains("top").unwrap(), false);
}

#[test]
fn session_keeps_its_keys_and_refuses_them_again() {
    let mut di: Di<Recipe> = Di::new();
    di.register_value("a", Erased::Plain(Value::Unit)).unwrap();
    let mut guard = DiGuard::new(di);
    assert_eq!(guard.enter("x"), Ok(()));
    assert_eq!(guard.inject("a", plain(Kind::Unit)).unwrap(), Erased::Plain(Value::Unit));
    assert_eq!(
        guard.inject("a", plain(Kind::Unit)),
        Err(Error::CircularDependency("name: 'a', stack: [\"x\", \"a\"]".to_string()))
    );
    assert_eq!(
        guard.enter("x"),
        Err(Error::CircularDependency("name: 'x', stack: [\"x\", \"a\"]".to_string()))
    );
    assert_eq!(
        guard.inject("gone", plain(Kind::Unit)),
        Err(Error::KeyNotFound("key: gone, stack: [\"x\", \"a\", \"gone\"]".to_string()))
    );
    assert_eq!(guard.stack(), &vec!["x".to_string(), "a".to_string(), "gone".to_string()]);
    assert_eq!(guard.inject_value("a", plain(Kind::Unit)).unwrap(), Erased::Plain(Value::Unit));
    assert_eq!(
        guard.inject_value("gone", plain(Kind::Unit)),
        Err(Error::KeyNotFound("Direct key: gone".to_string()))
    );
    let di = guard.into_di();
    assert_eq!(di.contains("a").unwrap(), true);
}

#[test]
fn chain_is_shown_with_special_characters_escaped() {
    let mut di: Di<Recipe> = Di::new();
    assert_eq!(
        di.inject("say \"hi\"\n", plain(Kind::Unit)),
        Err(Error::KeyNotFound(
            "key: say \"hi\"\n, stack: [\"say \\\"hi\\\"\\n\"]".to_string()
        ))
    );
}

#[test]
fn resolution_in_two_halves() {
    let mut di: Di<Recipe> = Di::new();
    di.register_factory("a", Kind::Int, recipe(|_| Ok(Value::Int(1)))).unwrap();
    di.register_value("v", Erased::Plain(Value::Bool(true))).unwrap();
    let chain = vec!["a".to_string()];

    match di.begin_inject("v", plain(Kind::Bool), &chain) {
        Ok(Resolution::Ready(found)) => assert_eq!(found, Erased::Plain(Value::Bool(true))),
        _ => panic!("a value was expected"),
    }
    let pending = match di.begin_inject("a", plain(Kind::Int), &chain) {
        Ok(Resolution::Build(pending)) => pending,
        _ => panic!("a factory was expected"),
    };
    assert_eq!(pending.kind, Kind::Int);
    assert_eq!(pending.tag(), TypeTag::Plain(Kind::Int));
    assert!(pending.owner().is_none());
    assert_eq!(di.contains("a").unwrap(), false);

    assert_eq!(
        di.finish_inject("a", Kind::Int, None, Err(Error::Unknown("later".to_string()))),
        Err(Error::Unknown("later".to_string()))
    );
    assert_eq!(di.contains("a").unwrap(), false);
    assert_eq!(
        di.finish_inject("a", Kind::Int, None, Ok(Value::Text("x".to_string()))),
        Err(Error::TypeMismatch("Downcast value failed, key: 'a'".to_string()))
    );
    assert_eq!(di.contains("a").unwrap(), false);
    assert_eq!(
        di.finish_inject("a", Kind::Int, None, Ok(Value::Int(5))),
        Ok(Erased::Plain(Value::Int(5)))
    );
    assert_eq!(di.inject_value("a", plain(Kind::Int)).unwrap(), Erased::Plain(Value::Int(5)));
}

#[test]
fn errors_are_shown_with_their_heading() {
    assert_eq!(Error::Lock("a".to_string()).to_string(), "Mutex lock error: `a`");
    assert_eq!(Error::TypeMismatch("b".to_string()).to_string(), "Type mismatch: `b`");
    assert_eq!(Error::KeyNotFound("c".to_string()).to_string(), "Key not found: `c`");
    assert_eq!(
        Error::CircularDependency("d".to_string()).to_string(),
        "Circular dependency: `d`"
    );
    assert_eq!(
        Error::InjectPrivateProvider("e".to_string()).to_string(),
        "Try to inject private provider: `e`"
    );
    assert_eq!(Error::User("f".to_string()).to_string(), "User error: `f`");
    assert_eq!(Error::Unknown("g".to_string()).to_string(), "Unknown error: `g`");
    assert_eq!(Error::User("f".to_string()).message(), "f");
}

#[test]
fn values_know_their_kind() {
    assert_eq!(Value::Unit.kind(), Kind::Unit);
    assert_eq!(Value::Bool(false).kind(), Kind::Bool);
    assert_eq!(Value::Int(-3).kind(), Kind::Int);
    assert_eq!(Value::Text(String::new()).kind(), Kind::Text);
    assert_eq!(Erased::Plain(Value::Int(1)).tag(), TypeTag::Plain(Kind::Int));
    assert_eq!(Value::Text("a".to_string()).clone(), Value::Text("a".to_string()));
}
