use remap_core::expression::{Error as ExpressionError, Expression, Object};
use remap_core::state::{Compiler, Program};
use remap_core::type_def::{Kind, TypeDef};
use remap_core::value::Value;
use remap_core::internal_events::{SplitConvertFailed, SplitEventProcessed, SplitFieldMissing};
use remap_core::variable::{Error, Variable};

struct TestObject {
    sets: usize,
}

impl Object for TestObject {
    fn get(&self, _path: &str) -> Option<Value> {
        None
    }

    fn set(&mut self, _path: &str, _value: Value) {
        self.sets += 1;
    }
}

#[test]
fn ident_match() {
    let mut state = Compiler::new();
    state.insert("foo".to_string(), TypeDef::default());
    let var = Variable::new("foo".to_string());
    assert_eq!(var.type_def(&state), TypeDef::default());
}

#[test]
fn exact_match() {
    let mut state = Compiler::new();
    let registered = TypeDef { fallible: true, optional: false, kind: Kind::bytes() };
    state.insert("foo".to_string(), registered);
    let var = Variable::new("foo".to_string());
    assert_eq!(var.type_def(&state), registered);
}

#[test]
fn ident_mismatch() {
    let mut state = Compiler::new();
    state.insert("foo".to_string(), TypeDef { fallible: true, ..TypeDef::default() });
    let var = Variable::new("bar".to_string());
    assert_eq!(var.type_def(&state), TypeDef { fallible: true, ..TypeDef::default() });
}

#[test]
fn empty_state() {
    let state = Compiler::new();
    let var = Variable::new("foo".to_string());
    assert_eq!(var.type_def(&state), TypeDef { fallible: true, ..TypeDef::default() });
}

#[test]
fn type_def_is_repeatable() {
    let mut state = Compiler::new();
    state.insert("foo".to_string(), TypeDef { fallible: true, optional: true, kind: Kind::any() });
    let var = Variable::new("foo".to_string());
    assert_eq!(var.type_def(&state), var.type_def(&state));
    let missing = Variable::new("bar".to_string());
    assert_eq!(missing.type_def(&state), missing.type_def(&state));
}

#[test]
fn execute_bound_value() {
    let mut state = Program::new();
    state.set("foo".to_string(), Value::Bytes("bar".to_string()));
    let mut object = TestObject { sets: 0 };
    let var = Variable::new("foo".to_string());
    let got = var.execute(&mut state, &mut object);
    assert_eq!(got, Ok(Value::Bytes("bar".to_string())));
}

#[test]
fn execute_unbound_identifier() {
    let mut state = Program::new();
    let mut object = TestObject { sets: 0 };
    let var = Variable::new("foo".to_string());
    let got = var.execute(&mut state, &mut object);
    assert_eq!(got, Err(ExpressionError::Variable(Error::Undefined("foo".to_string()))));
}

#[test]
fn execute_leaves_state_untouched() {
    let mut state = Program::new();
    state.set("known".to_string(), Value::Integer(3));
    let mut object = TestObject { sets: 0 };
    let var = Variable::new("missing".to_string());
    let got = var.execute(&mut state, &mut object);
    assert!(got.is_err());
    assert_eq!(object.sets, 0);
    assert_eq!(state.get(&"known".to_string()), Some(&Value::Integer(3)));
    assert_eq!(state.get(&"missing".to_string()), None);
}

#[test]
fn descriptor_merge() {
    let a = TypeDef { fallible: true, optional: false, kind: Kind::bytes() };
    let b = TypeDef { fallible: false, optional: true, kind: Kind::bytes() };
    assert_eq!(a.merge(b), TypeDef { fallible: true, optional: true, kind: Kind::bytes() });
    assert_eq!(
        a.merge(TypeDef::default()),
        TypeDef { fallible: true, optional: false, kind: Kind::any() }
    );
}

#[test]
fn kind_merge() {
    assert_eq!(Kind::bytes().merge(Kind::any()), Kind::any());
    assert_eq!(Kind::bytes().merge(Kind::bytes()), Kind::bytes());
    let integer = Kind {
        bytes: false,
        integer: true,
        float: false,
        boolean: false,
        array: false,
        map: false,
        null: false,
    };
    let both = Kind {
        bytes: true,
        integer: true,
        float: false,
        boolean: false,
        array: false,
        map: false,
        null: false,
    };
    assert_eq!(Kind::bytes().merge(integer), both);
}

#[test]
fn default_descriptor() {
    let d = TypeDef::default();
    assert!(!d.fallible);
    assert!(!d.optional);
    assert_eq!(d.kind, Kind::any());
}

#[test]
fn last_write_wins_compile() {
    let mut state = Compiler::new();
    state.insert("x".to_string(), TypeDef::default());
    assert_eq!(state.lookup(&"x".to_string()), Some(TypeDef::default()));
    let second = TypeDef { fallible: true, optional: true, kind: Kind::bytes() };
    state.insert("x".to_string(), second);
    assert_eq!(state.lookup(&"x".to_string()), Some(second));
    assert_eq!(state.lookup(&"y".to_string()), None);
}

#[test]
fn last_write_wins_runtime() {
    let mut state = Program::new();
    state.set("x".to_string(), Value::Bytes("first".to_string()));
    assert_eq!(state.get(&"x".to_string()), Some(&Value::Bytes("first".to_string())));
    state.set("x".to_string(), Value::Integer(2));
    assert_eq!(state.get(&"x".to_string()), Some(&Value::Integer(2)));
    assert_eq!(state.get(&"y".to_string()), None);
}

#[test]
fn variable_accessors() {
    let var = Variable::new("path".to_string());
    assert_eq!(var.ident(), "path");
    let boxed = var.boxed();
    assert_eq!(boxed.ident(), "path");
}

#[test]
fn error_message() {
    let e = Error::Undefined("foo".to_string());
    assert_eq!(e.message(), "undefined variable: foo");
    let shared = ExpressionError::from(e);
    assert_eq!(shared.message(), "undefined variable: foo");
}

#[test]
fn value_clone_is_equal() {
    let v = Value::Bytes("payload".to_string());
    assert_eq!(v.clone(), v);
    assert_eq!(Value::Null.clone(), Value::Null);
    assert_eq!(Value::Boolean(true).clone(), Value::Boolean(true));
    assert_eq!(Value::Float(0x4000_0000_0000_0000).clone(), Value::Float(0x4000_0000_0000_0000));
}

#[test]
fn split_events_carry_context() {
    let _processed = SplitEventProcessed;
    let missing = SplitFieldMissing { field: "message" };
    assert_eq!(missing.field, "message");
    let failed = SplitConvertFailed { field: "count", error: "invalid integer".to_string() };
    assert_eq!(failed.field, "count");
    assert_eq!(failed.error, "invalid integer");
}
