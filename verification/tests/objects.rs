use lacon_rust_parser::interpretator::{
    Array, Auto, Dictionary, Function, IntegerValue, MultilineString, MultilineStringValue,
    NativeFunction, NativeProcedure, Nil, NoneObject, Object, ObjectRef, ObjectValue, Operator,
    OperatorType, Procedure, Prototype, Routine, RoutineContent, Undefined,
};
use std::rc::Rc;

/// A procedure whose body makes an object and, being a procedure, has no
/// way to give it back.
struct BrokenProc;

impl NativeProcedure for BrokenProc {
    fn call(&self, _args: Vec<ObjectRef>) {
        let dummy_proto = Prototype::new("String", None);
        Object::new(dummy_proto, None);
    }
}

struct First;

impl NativeFunction for First {
    fn call(&self, args: Vec<ObjectRef>) -> ObjectRef {
        args[0].clone()
    }
}

fn integer(proto: &Rc<Prototype>, i: i64) -> ObjectRef {
    Object::new(proto.clone(), Some(Box::new(IntegerValue(i))))
}

#[test]
fn test_procedure_violation() {
    let object_proto = Prototype::new("Object", None);
    let routine_proto = Prototype::new("Routine", Some(object_proto.clone()));
    let procedure_proto = Prototype::new("Procedure", Some(routine_proto.clone()));

    let malicious_proc = Procedure::new_instance(
        procedure_proto,
        "broken_proc".to_string(),
        vec![],
        Box::new(BrokenProc),
    );

    assert_eq!(malicious_proc.to_text(), "<native routine broken_proc()>");
    assert_eq!(malicious_proc.prototype.name, "Procedure");
    assert_eq!(malicious_proc.prototype.parent.as_ref().unwrap().name, "Routine");
    assert!(malicious_proc.properties.is_empty());
}

#[test]
fn property_is_found_up_the_chain() {
    let base = Prototype::new("Object", None);
    let number = integer(&base, 1);
    let mut root = Prototype { name: "Root".to_string(), parent: None, properties: Vec::new() };
    root.properties.push(("answer".to_string(), number.clone()));
    root.properties.push(("answer".to_string(), integer(&base, 2)));
    let root = Rc::new(root);
    let middle = Prototype::new("Middle", Some(root.clone()));
    let leaf = Prototype::new("Leaf", Some(middle));
    assert!(Rc::ptr_eq(&leaf.lookup("answer").unwrap(), &number));
    assert!(leaf.lookup("question").is_none());
    assert!(root.lookup("answer").is_some());
    assert!(base.lookup("answer").is_none());
}

#[test]
fn own_property_hides_the_inherited_one() {
    let base = Prototype::new("Object", None);
    let inherited = integer(&base, 1);
    let own = integer(&base, 2);
    let proto = Rc::new(Prototype {
        name: "P".to_string(),
        parent: None,
        properties: vec![("x".to_string(), inherited.clone()), ("y".to_string(), inherited.clone())],
    });
    let mut object = Object { prototype: proto, properties: Vec::new(), value: None };
    assert!(Rc::ptr_eq(&object.get("x").unwrap(), &inherited));
    object.set("x", own.clone());
    assert!(Rc::ptr_eq(&object.get("x").unwrap(), &own));
    assert!(Rc::ptr_eq(&object.get("y").unwrap(), &inherited));
    assert!(object.get("z").is_none());
    let newer = integer(&base, 3);
    object.set("x", newer.clone());
    assert_eq!(object.properties.len(), 1);
    assert!(Rc::ptr_eq(&object.get("x").unwrap(), &newer));
}

#[test]
fn new_objects_have_no_properties() {
    let proto = Prototype::new("Thing", None);
    let plain = Object::new(proto.clone(), None);
    assert!(plain.properties.is_empty());
    assert!(plain.value.is_none());
    assert!(Rc::ptr_eq(&plain.prototype, &proto));
    assert_eq!(proto.name, "Thing");
    assert!(proto.parent.is_none());
    assert!(proto.properties.is_empty());
}

#[test]
fn objects_in_words() {
    let proto = Prototype::new("Thing", None);
    assert_eq!(Object::new(proto.clone(), None).to_text(), "<Thing instance>");
    assert_eq!(integer(&proto, -42).to_text(), "-42");
    assert_eq!(Nil::new_instance(proto.clone()).to_text(), "nil");
    assert_eq!(NoneObject::new_instance(proto.clone()).to_text(), "none");
    assert_eq!(Undefined::new_instance(proto.clone()).to_text(), "undefined");
    assert_eq!(Auto::new_instance(proto.clone()).to_text(), "auto");
    assert_eq!(Operator::new_instance(proto.clone(), OperatorType::IDiv).to_text(), "//");
    assert_eq!(
        Array::new_instance(proto.clone(), vec![integer(&proto, 1), Nil::new_instance(proto.clone())])
            .to_text(),
        "[1, nil]"
    );
    assert_eq!(Array::new_instance(proto.clone(), vec![]).to_text(), "[]");
    assert_eq!(
        Dictionary::new_instance(
            proto.clone(),
            vec![("a".to_string(), integer(&proto, 1)), ("b".to_string(), integer(&proto, 2))]
        )
        .to_text(),
        "{\"a\": 1, \"b\": 2}"
    );
    assert_eq!(
        MultilineString::new_instance(proto.clone(), "one\ntwo".to_string()).to_text(),
        "one\ntwo"
    );
}

#[test]
fn routines_in_words() {
    let proto = Prototype::new("Routine", None);
    let function = Function::new_instance(
        proto.clone(),
        "first".to_string(),
        vec!["a".to_string(), "b".to_string()],
        Box::new(First),
    );
    assert_eq!(function.to_text(), "<native routine first(a, b)>");
    let defined = Routine::new_instance(
        proto.clone(),
        "f".to_string(),
        vec!["x".to_string()],
        RoutineContent::Defined("x + 1".to_string()),
    );
    assert_eq!(defined.to_text(), "<routine f(x)>");
    assert_eq!(RoutineContent::Defined("x + 1".to_string()).to_text(), "Defined(x + 1)");
    assert_eq!(RoutineContent::NativeFunction(Box::new(First)).to_text(), "NativeFunction");
    assert_eq!(RoutineContent::NativeProcedure(Box::new(BrokenProc)).to_text(), "NativeProcedure");
    assert!(RoutineContent::NativeProcedure(Box::new(BrokenProc)).is_native());
    assert!(!RoutineContent::Defined(String::new()).is_native());
}

#[test]
fn operator_symbols() {
    let symbols = [
        (OperatorType::Add, "+"),
        (OperatorType::Sub, "-"),
        (OperatorType::Mul, "*"),
        (OperatorType::Div, "/"),
        (OperatorType::IDiv, "//"),
        (OperatorType::Mod, "%"),
        (OperatorType::Pow, "**"),
        (OperatorType::Less, "<"),
        (OperatorType::Greater, ">"),
        (OperatorType::LessEq, "<="),
        (OperatorType::GreaterEq, ">="),
        (OperatorType::Equal, "=="),
    ];
    for (operator, symbol) in symbols {
        assert_eq!(operator.as_str(), symbol);
    }
}

#[test]
fn multiline_text_is_split_into_lines() {
    let value = MultilineStringValue::new("a\r\nb\n\nc".to_string());
    assert_eq!(value.content, "a\r\nb\n\nc");
    assert_eq!(value.lines, ["a", "b", "", "c"]);
    assert_eq!(value.to_text(), "a\r\nb\n\nc");
    assert!(MultilineStringValue::new(String::new()).lines.is_empty());
}
