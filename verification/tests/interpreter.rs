use std::cell::RefCell;
use std::collections::HashMap;

use task_automation::host::{Host, NumberValue};
use task_automation::interpreter::builtin::ExecutionError;
use task_automation::interpreter::datatype::DataType;
use task_automation::interpreter::function::FunctionDeclaration;
use task_automation::interpreter::{execute_function, Interpreter};
use task_automation::parser::expressions::{BinaryOperationExpression, ExpressionType, IdentifierExpression, LiteralType};
use task_automation::parser::statements::{StatementType, VariableDeclarationStatement};
use task_automation::modules::{GitError, GitRunner, TmuxError, TmuxRunner};
use task_automation::parser::expressions::BinaryOperator;
use task_automation::runner::interpret;
use task_automation::RuntimeContext;

const WORK_DIR: &str = "/work/project";

struct TestHost {
    printed: RefCell<Vec<String>>,
}

impl Host for TestHost {
    fn print(&self, text: &str) {
        self.printed.borrow_mut().push(text.to_string());
    }
    fn print_error(&self, text: &str) {
        self.printed.borrow_mut().push(text.to_string());
    }
    fn home_directory(&self) -> Result<String, String> {
        Ok("/home/tester".to_string())
    }
    fn canonicalize(&self, path: &str) -> Result<String, String> {
        match path {
            "." => Ok(WORK_DIR.to_string()),
            WORK_DIR => Ok(WORK_DIR.to_string()),
            _ => Err("No such file or directory (os error 2)".to_string()),
        }
    }
    fn spawn_open(&self, _path: &str, _cmd: Option<&str>) -> Result<(), String> {
        Ok(())
    }
    fn spawn_run(&self, _path: &str, _cmd: &str) -> Result<(), String> {
        Ok(())
    }
    fn parse_number(&self, text: &str) -> Option<NumberValue> {
        text.parse::<f32>().ok().map(|f| NumberValue { bits: f.to_bits() })
    }
    fn number_from_count(&self, n: usize) -> NumberValue {
        NumberValue { bits: (n as f32).to_bits() }
    }
    fn number_arithmetic(&self, op: BinaryOperator, left: NumberValue, right: NumberValue) -> NumberValue {
        let l = f32::from_bits(left.bits);
        let r = f32::from_bits(right.bits);
        let v = match op {
            BinaryOperator::Add => l + r,
            BinaryOperator::Subtract => l - r,
            BinaryOperator::Multiply => l * r,
            _ => l / r,
        };
        NumberValue { bits: v.to_bits() }
    }
    fn number_compare(&self, op: BinaryOperator, left: NumberValue, right: NumberValue) -> bool {
        let l = f32::from_bits(left.bits);
        let r = f32::from_bits(right.bits);
        match op {
            BinaryOperator::Equal => l == r,
            BinaryOperator::NotEqual => l != r,
            BinaryOperator::GreaterThan => l > r,
            BinaryOperator::LessThan => l < r,
            BinaryOperator::GreaterOrEqual => l >= r,
            _ => l <= r,
        }
    }
    fn number_negate(&self, n: NumberValue) -> NumberValue {
        NumberValue { bits: (-f32::from_bits(n.bits)).to_bits() }
    }
    fn number_to_string(&self, n: NumberValue) -> String {
        format!("{}", f32::from_bits(n.bits))
    }
    fn number_to_index(&self, n: NumberValue) -> Option<usize> {
        let f = f32::from_bits(n.bits);
        let i = f.round() as usize;
        if f as usize != i {
            None
        } else {
            Some(f as usize)
        }
    }
}

struct NoGit;

impl GitRunner for NoGit {
    fn run(&self, args: &[&str], _cwd: &str) -> Result<String, GitError> {
        Err(GitError { command: format!("git {}", args.join(" ")), reason: "unused".to_string() })
    }
}

struct NoTmux;

impl TmuxRunner for NoTmux {
    fn run(&self, args: &[&str]) -> Result<String, TmuxError> {
        Err(TmuxError { command: format!("tmux {}", args.join(" ")), reason: "unused".to_string() })
    }
}

type Context = RuntimeContext<NoGit, NoTmux, TestHost>;

fn try_run(dsl: &str) -> (Result<Interpreter, ExecutionError>, Context) {
    let host = TestHost { printed: RefCell::new(Vec::new()) };
    let mut context = RuntimeContext::new(WORK_DIR.to_string(), NoGit, NoTmux, host);
    let result = interpret(dsl.to_string(), &mut context);
    (result, context)
}

fn run(dsl: &str) -> (Interpreter, Context) {
    let (result, context) = try_run(dsl);
    (result.unwrap(), context)
}

fn num(f: f32) -> DataType {
    DataType::Number(NumberValue { bits: f.to_bits() })
}

fn string(s: &str) -> DataType {
    DataType::String(s.to_string())
}

fn var(interpreter: &Interpreter, context: &Context, name: &str) -> DataType {
    interpreter.get_variable(context, name).unwrap()
}

/// A value with the lists and dictionaries it refers to spelled out; functions by name.
#[derive(Debug, PartialEq)]
enum V {
    N(f32),
    S(String),
    B(bool),
    L(Vec<V>),
    D(Vec<(String, V)>),
    F(Option<String>),
    M(String),
    U,
}

fn resolve(context: &Context, value: &DataType) -> V {
    match value {
        DataType::Number(n) => V::N(f32::from_bits(n.bits)),
        DataType::String(s) => V::S(s.clone()),
        DataType::Boolean(b) => V::B(*b),
        DataType::List(l) => {
            let list = context.store.list(*l).unwrap();
            V::L(list.values.iter().map(|v| resolve(context, v)).collect())
        }
        DataType::Dictionary(d) => {
            let dict = context.store.dictionary(*d).unwrap();
            let mut entries: Vec<(String, V)> = (0..dict.count())
                .map(|i| (dict.key_at(i).clone(), resolve(context, dict.value_at(i))))
                .collect();
            entries.sort_by(|a, b| a.0.cmp(&b.0));
            V::D(entries)
        }
        DataType::Function(c) => V::F(c.name.clone()),
        DataType::Module(m) => V::M(m.name.clone()),
        DataType::Undefined => V::U,
    }
}

fn declared<'a>(context: &'a Context, value: &DataType) -> &'a FunctionDeclaration {
    match value {
        DataType::Function(c) => match c.function {
            task_automation::interpreter::datatype::Executable::Declared(i) => context.store.function(i).unwrap(),
            _ => panic!("Expected a declared function"),
        },
        _ => panic!("Expected a function"),
    }
}

fn identifier(name: &str) -> ExpressionType {
    ExpressionType::Identifier(IdentifierExpression { name: name.to_string() })
}

fn number_literal(text: &str) -> ExpressionType {
    ExpressionType::Literal(LiteralType::Number(text.to_string()))
}

fn strings(names: &[&str]) -> Vec<String> {
    names.iter().map(|s| s.to_string()).collect()
}

#[test]
#[should_panic]
fn panics_on_if_with_continue() {
    let dsl = "
    if (true) {
        continue
    }
    ";
    run(dsl);
}

#[test]
#[should_panic]
fn panics_on_if_with_break() {
    let dsl = "
    if (true) {
        break
    }
    ";
    run(dsl);
}

#[test]
fn interprets_scoped_variable_rebinding() {
    let dsl = "
    var x = 1

    fn foo() {
        x = 2
    }

    foo()
    ";
    let (interpreter, context) = run(dsl);
    assert_eq!(var(&interpreter, &context, "x"), num(2.0));
}

#[test]
fn interprets_variable_rebinding() {
    let dsl = "
    var x = 3
    fn foo() {
        return x;
    }
    var y = foo()
    y = 5
    ";
    let (interpreter, context) = run(dsl);
    assert_eq!(var(&interpreter, &context, "x"), num(3.0));
    assert_eq!(var(&interpreter, &context, "y"), num(5.0));
}

#[test]
fn interpret_builtin_print() {
    let dsl = "
    print(\"foo\")
    ";
    let (_, context) = run(dsl);
    assert_eq!(context.host.printed.borrow().last().unwrap(), "\"foo\"");
}

#[test]
#[should_panic]
fn panics_on_no_arguments_to_print() {
    let dsl = "
    print()
    ";
    run(dsl);
}

#[test]
#[should_panic]
fn panics_on_too_many_arguments_to_print() {
    let dsl = "
    print(\"foo\", 3)
    ";
    run(dsl);
}

#[test]
#[should_panic]
fn panics_on_overriding_builtin() {
    let dsl = "
    var print = 3
    ";
    run(dsl);
}

#[test]
#[should_panic = "Continue is not supported outside of loops"]
fn panics_on_function_call_with_nested_continue() {
    let dsl = "
    fn foo() {
        if (true) {
            continue
        }
    }
    foo()
    ";
    run(dsl);
}

#[test]
#[should_panic = "Break is not supported outside of loops"]
fn panics_on_function_call_with_nested_break() {
    let dsl = "
    fn foo() {
        if (true) {
            break
        }
    }
    foo()
    ";
    run(dsl);
}

#[test]
#[should_panic = "Break is not supported outside of loops"]
fn panics_on_function_call_with_break() {
    let dsl = "
    fn foo() {
        break
    }
    foo()
    ";
    run(dsl);
}

#[test]
#[should_panic = "Continue is not supported outside of loops"]
fn panics_on_function_call_with_continue() {
    let dsl = "
    fn foo() {
        continue
    }
    foo()
    ";
    run(dsl);
}

#[test]
#[should_panic]
fn mod_panics_on_function_call_with_invalid_arguments() {
    let dsl = "
    fn foo(bar) {
        var x = bar
    }
    foo()
    ";
    run(dsl);
}

#[test]
fn interprets_if_scoped_variables() {
    let dsl = "
    var x = \"outer\"

    if (true) {
        var x = \"inner\"

        if (true) {
            var x = \"inner-inner\"
        }
    }
    ";
    let (interpreter, context) = run(dsl);
    assert_eq!(var(&interpreter, &context, "x"), string("outer"));
}

#[test]
fn interprets_function_call_inline() {
    let dsl = "
    var x = fn() {return 3}()
    ";
    let (interpreter, context) = run(dsl);
    assert_eq!(var(&interpreter, &context, "x"), num(3.0));
}

#[test]
fn interprets_function_call_with_return_inside_if() {
    let dsl = "
    fn foo(bar) {
        if (bar) {
            return 1
        }

        return 0
    }

    var x = foo(true)
    var y = foo(false)
    ";
    let (interpreter, context) = run(dsl);
    assert_eq!(var(&interpreter, &context, "x"), num(1.0));
    assert_eq!(var(&interpreter, &context, "y"), num(0.0));
}

#[test]
fn mod_interprets_function_call_with_arguments() {
    let dsl = "
    fn foo(bar) {
        return bar
    }
    var x = foo(1)
    ";
    let (interpreter, context) = run(dsl);
    assert_eq!(var(&interpreter, &context, "x"), num(1.0));
}

#[test]
fn mod_interprets_function_call() {
    let dsl = "
    fn foo() {
        return 3
    }
    var x = foo()
    ";
    let (interpreter, context) = run(dsl);
    assert_eq!(var(&interpreter, &context, "x"), num(3.0));
}

fn add_bar_baz() -> Vec<StatementType> {
    vec![StatementType::Return(ExpressionType::BinaryOperation(BinaryOperationExpression::new(
        identifier("bar"),
        BinaryOperator::Add,
        identifier("baz"),
    )))]
}

#[test]
fn mod_interprets_function_declaration_with_return() {
    let dsl = "fn foo(bar, baz) {
        return bar + baz
    }";
    let (interpreter, context) = run(dsl);
    let foo = var(&interpreter, &context, "foo");
    assert_eq!(resolve(&context, &foo), V::F(Some("foo".to_string())));
    let f = declared(&context, &foo);
    assert_eq!(f.arguments, strings(&["bar", "baz"]));
    assert_eq!(*f.body, add_bar_baz());
    assert_eq!(f.scope, interpreter.scope);
}

#[test]
fn mod_interprets_function_declaration_with_arguments() {
    let dsl = "fn foo(bar, baz) {}";
    let (interpreter, context) = run(dsl);
    let foo = var(&interpreter, &context, "foo");
    assert_eq!(resolve(&context, &foo), V::F(Some("foo".to_string())));
    let f = declared(&context, &foo);
    assert_eq!(f.arguments, strings(&["bar", "baz"]));
    assert!(f.body.is_empty());
}

#[test]
fn interprets_function_declaration_as_variable() {
    let dsl = "var foo = fn() {}";
    let (interpreter, context) = run(dsl);
    let foo = var(&interpreter, &context, "foo");
    assert_eq!(resolve(&context, &foo), V::F(None));
    let f = declared(&context, &foo);
    assert!(f.arguments.is_empty());
    assert!(f.body.is_empty());
}

#[test]
fn mod_interprets_function_declaration() {
    let dsl = "fn foo() {}";
    let (interpreter, context) = run(dsl);
    let foo = var(&interpreter, &context, "foo");
    assert_eq!(resolve(&context, &foo), V::F(Some("foo".to_string())));
    let f = declared(&context, &foo);
    assert!(f.arguments.is_empty());
    assert!(f.body.is_empty());
}

#[test]
fn interprets_variable_assignment_function() {
    let dsl = "
    var x = 3
    x = fn() {}
    ";
    let (interpreter, context) = run(dsl);
    let x = var(&interpreter, &context, "x");
    assert_eq!(resolve(&context, &x), V::F(None));
}

#[test]
fn interprets_variable_assignment() {
    let dsl = "
    var x = 3
    x = 5
    ";
    let (interpreter, context) = run(dsl);
    assert_eq!(var(&interpreter, &context, "x"), num(5.0));
}

#[test]
fn interprets_variable_declaration_number() {
    let (interpreter, context) = run("var x = 3");
    assert_eq!(var(&interpreter, &context, "x"), num(3.0));
}

#[test]
fn interprets_variable_declaration_string() {
    let (interpreter, context) = run("var x = \"Hello\"");
    assert_eq!(var(&interpreter, &context, "x"), string("Hello"));
}

#[test]
fn interprets_variable_declaration_bool() {
    let (interpreter, context) = run("var x = true");
    assert_eq!(var(&interpreter, &context, "x"), DataType::Boolean(true));
}

#[test]
fn interprets_variable_declaration_scoped_2() {
    let dsl = "
    fn foo() {
        var x = false
    }

    var x = true
    foo()
    ";
    let (interpreter, context) = run(dsl);
    assert_eq!(var(&interpreter, &context, "x"), DataType::Boolean(true));
}

#[test]
fn interprets_variable_declaration_scoped() {
    let dsl = "
    fn foo() {
        var x = false
    }

    foo()
    var x = true
    ";
    let (interpreter, context) = run(dsl);
    assert_eq!(var(&interpreter, &context, "x"), DataType::Boolean(true));
}

#[test]
#[should_panic]
fn panics_on_variable_declaration_existing() {
    let dsl = "
    var x = true
    var x = false
    ";
    run(dsl);
}

#[test]
#[should_panic]
fn mod_panics_on_function_declaration_existing() {
    let dsl = "
    fn foo() {}
    fn foo() {}
    ";
    run(dsl);
}

#[test]
#[should_panic]
fn tests_panics_on_function_call_with_invalid_arguments() {
    let dsl = "
    fn foo(bar) {
        var x = bar
    }
    foo()
    ";
    run(dsl);
}

#[test]
fn tests_interprets_function_call_with_arguments() {
    let dsl = "
    fn foo(bar) {
        var x = bar
    }
    foo(1)
    ";
    let (interpreter, context) = run(dsl);
    let foo = var(&interpreter, &context, "foo");
    let f = declared(&context, &foo);
    assert_eq!(f.arguments, strings(&["bar"]));
    assert_eq!(
        *f.body,
        vec![StatementType::VariableDeclaration(VariableDeclarationStatement {
            identifier: "x".to_string(),
            value: identifier("bar"),
        })]
    );
    assert!(interpreter.get_variable(&context, "x").is_err());
}

#[test]
fn tests_interprets_function_call() {
    let dsl = "
    fn foo() {
        var x = 3
    }
    foo()
    ";
    let (interpreter, context) = run(dsl);
    let foo = var(&interpreter, &context, "foo");
    let f = declared(&context, &foo);
    assert!(f.arguments.is_empty());
    assert_eq!(
        *f.body,
        vec![StatementType::VariableDeclaration(VariableDeclarationStatement {
            identifier: "x".to_string(),
            value: number_literal("3"),
        })]
    );
    assert!(interpreter.get_variable(&context, "x").is_err());
}

#[test]
fn tests_interprets_function_declaration_with_return() {
    let dsl = "fn foo(bar, baz) {
        return bar + baz
    }";
    let (interpreter, context) = run(dsl);
    let foo = var(&interpreter, &context, "foo");
    let f = declared(&context, &foo);
    assert_eq!(f.arguments, strings(&["bar", "baz"]));
    assert_eq!(*f.body, add_bar_baz());
}

#[test]
fn tests_interprets_function_declaration_with_arguments() {
    let (interpreter, context) = run("fn foo(bar, baz) {}");
    let foo = var(&interpreter, &context, "foo");
    let f = declared(&context, &foo);
    assert_eq!(f.arguments, strings(&["bar", "baz"]));
    assert!(f.body.is_empty());
}

#[test]
fn tests_interprets_function_declaration() {
    let (interpreter, context) = run("fn foo() {}");
    let foo = var(&interpreter, &context, "foo");
    let f = declared(&context, &foo);
    assert!(f.arguments.is_empty());
    assert!(f.body.is_empty());
}

#[test]
fn interprets_variable_assignment_number() {
    let (interpreter, context) = run("var x = 3");
    assert_eq!(var(&interpreter, &context, "x"), num(3.0));
}

#[test]
fn interprets_variable_assignment_string() {
    let (interpreter, context) = run("var x = \"Hello\"");
    assert_eq!(var(&interpreter, &context, "x"), string("Hello"));
}

#[test]
fn interprets_variable_assignment_bool() {
    let (interpreter, context) = run("var x = true");
    assert_eq!(var(&interpreter, &context, "x"), DataType::Boolean(true));
}

#[test]
fn interprets_variable_assignment_scoped_2() {
    let dsl = "
    fn foo() {
        var x = false
    }
    var x = true
    foo()
    ";
    let (interpreter, context) = run(dsl);
    assert_eq!(var(&interpreter, &context, "x"), DataType::Boolean(true));
}

#[test]
fn interprets_variable_assignment_scoped() {
    let dsl = "
    fn foo() {
        var x = false
    }
    foo()
    var x = true
    ";
    let (interpreter, context) = run(dsl);
    assert_eq!(var(&interpreter, &context, "x"), DataType::Boolean(true));
}

#[test]
#[should_panic]
fn panics_on_variable_assignment_existing() {
    let dsl = "
    var x = true
    var x = false
    ";
    run(dsl);
}

#[test]
#[should_panic]
fn tests_panics_on_function_declaration_existing() {
    let dsl = "
    fn foo() {}
    fn foo() {}
    ";
    run(dsl);
}

#[test]
fn interprets_while_with_condition() {
    let dsl = "
    var x = 0
    while (x < 3) {
        x = x + 1
    }
    ";
    let (interpreter, context) = run(dsl);
    assert_eq!(var(&interpreter, &context, "x"), num(3.0));
}

#[test]
fn interprets_while_with_false() {
    let dsl = "
    var x = 0
    while (false) {
        x = x + 1
        if (x >= 5) {
            break
        }
    }
    ";
    let (interpreter, context) = run(dsl);
    assert_eq!(var(&interpreter, &context, "x"), num(0.0));
}

#[test]
fn interprets_while_with_continue() {
    let dsl = "
    var x = 0
    var y = 0
    while (x < 1) {
        x = x + 1
        continue
        y = y + 1
    }
    ";
    let (interpreter, context) = run(dsl);
    assert_eq!(var(&interpreter, &context, "x"), num(1.0));
    assert_eq!(var(&interpreter, &context, "y"), num(0.0));
}

#[test]
fn interprets_while_with_break() {
    let dsl = "
    var x = 0
    var y = 0
    while (true) {
        x = x + 1
        break
        y = y + 1
    }
    ";
    let (interpreter, context) = run(dsl);
    assert_eq!(var(&interpreter, &context, "x"), num(1.0));
    assert_eq!(var(&interpreter, &context, "y"), num(0.0));
}

#[test]
fn interprets_while_with_nested_continue() {
    let dsl = "
    var x = 0
    var y = []
    while (x < 5) {
        x = x + 1
        if (x == 1) {
            continue
        }
        
        y.push(x)
    }
    ";
    let (interpreter, context) = run(dsl);
    assert_eq!(var(&interpreter, &context, "x"), num(5.0));
    let y = var(&interpreter, &context, "y");
    assert_eq!(resolve(&context, &y), V::L(vec![V::N(2.0), V::N(3.0), V::N(4.0), V::N(5.0)]));
}

#[test]
fn interprets_while_with_nested_break() {
    let dsl = "
    var x = 0
    while (true) {
        x = x + 1
        if (x >= 5) {
            break
        }
    }
    ";
    let (interpreter, context) = run(dsl);
    assert_eq!(var(&interpreter, &context, "x"), num(5.0));
}

#[should_panic]
#[test]
fn panics_on_accessing_undefined_key() {
    let dsl = "
    var x = {
    }
    x[\"a\"]
    ";
    run(dsl);
}

#[test]
fn interprets_property_scopes() {
    let dsl = "
    var test = 10
    var x = {
        a: 1,
    }
    var y = {
        a: 2,
        b: {
            c: fn() {return test},
        },
    }
    var foo = \"a\"
    var bar = x.has(foo)
    var baz = y[\"b\"][\"c\"]()
    var a = y[\"b\"].has(\"c\")
    ";
    let (interpreter, context) = run(dsl);
    assert_eq!(var(&interpreter, &context, "bar"), DataType::Boolean(true));
    assert_eq!(var(&interpreter, &context, "baz"), num(10.0));
    assert_eq!(var(&interpreter, &context, "a"), DataType::Boolean(true));
}

#[test]
fn interprets_dictionary_builtins() {
    let dsl = "
    var x = {
        a: 1,
        b: undefined,
    }
    var a = x.has(\"a\")
    var b = x.has(\"b\")
    var c = x.has(\"x\")
    x.delete(\"a\")
    x.delete(\"x\")
    x.clear()
    var d = x.has(\"a\")
    var e = x.has(\"b\")
    var f = x.len()
    ";
    let (interpreter, context) = run(dsl);
    assert_eq!(var(&interpreter, &context, "a"), DataType::Boolean(true));
    assert_eq!(var(&interpreter, &context, "b"), DataType::Boolean(true));
    assert_eq!(var(&interpreter, &context, "c"), DataType::Boolean(false));
    assert_eq!(var(&interpreter, &context, "d"), DataType::Boolean(false));
    assert_eq!(var(&interpreter, &context, "e"), DataType::Boolean(false));
    assert_eq!(var(&interpreter, &context, "f"), num(0.0));
    let x = var(&interpreter, &context, "x");
    assert_eq!(resolve(&context, &x), V::D(vec![]));
}

#[test]
fn interprets_dictionary_assignment() {
    let dsl = "
    var x = {
        a: 1,
    }
    x[\"b\"] = 3
    ";
    let (interpreter, context) = run(dsl);
    let x = var(&interpreter, &context, "x");
    assert_eq!(
        resolve(&context, &x),
        V::D(vec![("a".to_string(), V::N(1.0)), ("b".to_string(), V::N(3.0))])
    );
}

#[test]
fn interprets_dictionary_accessor() {
    let dsl = "
    var x = {
        a: 1,
        b: 3,
    }
    var y = x[\"a\"]
    var foo = \"b\"
    var bar = x[foo]
    ";
    let (interpreter, context) = run(dsl);
    assert_eq!(var(&interpreter, &context, "y"), num(1.0));
    assert_eq!(var(&interpreter, &context, "bar"), num(3.0));
}

#[test]
fn interprets_dictionary_declaration() {
    let dsl = "
    fn foo() {return 3}
    var x = {
        a: 1,
        b: \"Hello\",
        c: true,
        d: [1, 2, 3],
        e: {},
        f: foo(),
        g: foo,
    }
    ";
    let (interpreter, context) = run(dsl);
    let x = var(&interpreter, &context, "x");
    assert_eq!(
        resolve(&context, &x),
        V::D(vec![
            ("a".to_string(), V::N(1.0)),
            ("b".to_string(), V::S("Hello".to_string())),
            ("c".to_string(), V::B(true)),
            ("d".to_string(), V::L(vec![V::N(1.0), V::N(2.0), V::N(3.0)])),
            ("e".to_string(), V::D(vec![])),
            ("f".to_string(), V::N(3.0)),
            ("g".to_string(), V::F(Some("foo".to_string()))),
        ])
    );
    let foo = var(&interpreter, &context, "foo");
    let f = declared(&context, &foo);
    assert_eq!(*f.body, vec![StatementType::Return(number_literal("3"))]);
}

#[test]
fn interpret_method_call_as_binary_rhs() {
    let dsl = "
    var x = [1, 2, 3]
    var result = false
    if (0 < x.len()) {
        result = true
    }
    ";
    let (interpreter, context) = run(dsl);
    assert_eq!(var(&interpreter, &context, "result"), DataType::Boolean(true));
}

#[test]
fn interprets_clear() {
    let dsl = "
    var x = [1]
    x.clear()
    ";
    let (interpreter, context) = run(dsl);
    let x = var(&interpreter, &context, "x");
    assert_eq!(resolve(&context, &x), V::L(vec![]));
}

#[test]
fn interprets_pop() {
    let dsl = "
    var x = [1]
    var y = x.pop()
    ";
    let (interpreter, context) = run(dsl);
    let x = var(&interpreter, &context, "x");
    assert_eq!(resolve(&context, &x), V::L(vec![]));
    assert_eq!(var(&interpreter, &context, "y"), num(1.0));
}

#[test]
fn interprets_push() {
    let dsl = "
    var x = [1]
    x.push(2)
    ";
    let (interpreter, context) = run(dsl);
    let x = var(&interpreter, &context, "x");
    assert_eq!(resolve(&context, &x), V::L(vec![V::N(1.0), V::N(2.0)]));
}

#[test]
fn interprets_array_reference_overwrite() {
    let dsl = "
    var x = [1,2,3]
    fn foo() {
        return x;
    }
    var y = foo()
    y = [9, 9, 9]
    ";
    let (interpreter, context) = run(dsl);
    let x = var(&interpreter, &context, "x");
    let y = var(&interpreter, &context, "y");
    assert_eq!(resolve(&context, &x), V::L(vec![V::N(1.0), V::N(2.0), V::N(3.0)]));
    assert_eq!(resolve(&context, &y), V::L(vec![V::N(9.0), V::N(9.0), V::N(9.0)]));
}

#[test]
fn interprets_array_reference_assignment() {
    let dsl = "
    var x = [1,2,3]
    fn foo() {
        return x;
    }
    var y = foo()
    y[0] = 5
    ";
    let (interpreter, context) = run(dsl);
    let x = var(&interpreter, &context, "x");
    let y = var(&interpreter, &context, "y");
    assert_eq!(resolve(&context, &x), V::L(vec![V::N(5.0), V::N(2.0), V::N(3.0)]));
    assert_eq!(resolve(&context, &y), V::L(vec![V::N(5.0), V::N(2.0), V::N(3.0)]));
}

#[test]
fn interpret_accessor_function_call() {
    let dsl = "
    fn foo() {
        return 1
    }
    var x = [foo];
    var y = x[0]()
    ";
    let (interpreter, context) = run(dsl);
    assert_eq!(var(&interpreter, &context, "y"), num(1.0));
}

#[test]
fn interpret_function_call_accessor_assignment() {
    let dsl = "
    var x = [1];
    
    fn foo() {
        return x
    }
    foo()[0] = 2
    ";
    let (interpreter, context) = run(dsl);
    let x = var(&interpreter, &context, "x");
    assert_eq!(resolve(&context, &x), V::L(vec![V::N(2.0)]));
}

#[test]
fn interpret_list_assignment_nested() {
    let dsl = "
    var x = [[1]]
    x[0][0] = 2
    ";
    let (interpreter, context) = run(dsl);
    let x = var(&interpreter, &context, "x");
    assert_eq!(resolve(&context, &x), V::L(vec![V::L(vec![V::N(2.0)])]));
}

#[test]
fn interpret_list_assignment() {
    let dsl = "
    var x = [1]
    x[0] = 2
    ";
    let (interpreter, context) = run(dsl);
    let x = var(&interpreter, &context, "x");
    assert_eq!(resolve(&context, &x), V::L(vec![V::N(2.0)]));
}

#[test]
fn interpret_list_accessor_nested() {
    let dsl = "
    var x = [[1]]
    var y = x[0][0]
    ";
    let (interpreter, context) = run(dsl);
    let x = var(&interpreter, &context, "x");
    assert_eq!(resolve(&context, &x), V::L(vec![V::L(vec![V::N(1.0)])]));
    assert_eq!(var(&interpreter, &context, "y"), num(1.0));
}

#[test]
fn interpret_list_accessor() {
    let dsl = "
    var x = [1]
    var y = x[0]
    ";
    let (interpreter, context) = run(dsl);
    let x = var(&interpreter, &context, "x");
    assert_eq!(resolve(&context, &x), V::L(vec![V::N(1.0)]));
    assert_eq!(var(&interpreter, &context, "y"), num(1.0));
}

#[test]
fn interpret_list_declaration() {
    let dsl = "
    fn foo() {
        return 3
    }
    var y = 2
    var x = [1, \"Hello\", true, [1, 2, 3], y, foo(), foo]
    ";
    let (interpreter, context) = run(dsl);
    let x = var(&interpreter, &context, "x");
    assert_eq!(
        resolve(&context, &x),
        V::L(vec![
            V::N(1.0),
            V::S("Hello".to_string()),
            V::B(true),
            V::L(vec![V::N(1.0), V::N(2.0), V::N(3.0)]),
            V::N(2.0),
            V::N(3.0),
            V::F(Some("foo".to_string())),
        ])
    );
}

#[test]
fn interpret_list_declaration_empty() {
    let dsl = "
    var x = []
    ";
    let (interpreter, context) = run(dsl);
    let x = var(&interpreter, &context, "x");
    assert_eq!(resolve(&context, &x), V::L(vec![]));
}

#[test]
fn prints_values_as_the_language_writes_them() {
    let dsl = "
    print([1, \"a\", true, undefined])
    print({k: [2.5]})
    fn foo() {}
    print(foo)
    ";
    let (_, context) = run(dsl);
    let printed = context.host.printed.borrow();
    let n = printed.len();
    assert_eq!(printed[n - 3], "[1, \"a\", true, undefined]");
    assert_eq!(printed[n - 2], "{k: [2.5]}");
    assert_eq!(printed[n - 1], "fn foo() { }");
}

#[test]
fn string_operators_follow_str_order() {
    let dsl = "
    var a = \"ab\" + \"cd\"
    var b = \"abc\" < \"abd\"
    var c = \"b\" > \"abc\"
    var d = \"ab\" <= \"ab\"
    var e = \"x\" == \"x\"
    var f = \"n\" + 1
    ";
    let (interpreter, context) = run(dsl);
    assert_eq!(var(&interpreter, &context, "a"), string("abcd"));
    assert_eq!(var(&interpreter, &context, "b"), DataType::Boolean(true));
    assert_eq!(var(&interpreter, &context, "c"), DataType::Boolean(true));
    assert_eq!(var(&interpreter, &context, "d"), DataType::Boolean(true));
    assert_eq!(var(&interpreter, &context, "e"), DataType::Boolean(true));
    assert_eq!(var(&interpreter, &context, "f"), string("n1"));
}

#[test]
fn boolean_and_unary_operators() {
    let dsl = "
    var a = true && false
    var b = true || false
    var c = !true
    var d = -2 + 5
    ";
    let (interpreter, context) = run(dsl);
    assert_eq!(var(&interpreter, &context, "a"), DataType::Boolean(false));
    assert_eq!(var(&interpreter, &context, "b"), DataType::Boolean(true));
    assert_eq!(var(&interpreter, &context, "c"), DataType::Boolean(false));
    assert_eq!(var(&interpreter, &context, "d"), num(3.0));
}

#[test]
fn mismatched_operands_are_refused() {
    let (result, _) = try_run("var a = true + 1");
    assert_eq!(
        result.err().unwrap().reason(),
        "Left and right types of binary expression don't match"
    );
    let (result, _) = try_run("var a = -true");
    assert_eq!(result.err().unwrap().reason(), "Unary operator 'Minus' not supported for boolean");
}

#[test]
fn undeclared_variable_is_reported() {
    let (result, _) = try_run("var a = b");
    assert_eq!(result.err().unwrap().to_text(), "Exeucting '' failed: Variable 'b' is not declared");
}

#[test]
fn assigning_an_undeclared_variable_is_refused() {
    let (result, _) = try_run("b = 1");
    assert_eq!(result.err().unwrap().reason(), "Identifier 'b' has not declared");
}

#[test]
fn list_index_out_of_bounds_is_refused() {
    let (result, _) = try_run("var x = [1]\nvar y = x[3]");
    assert_eq!(result.err().unwrap().to_text(), "Exeucting 'get' failed: Index out of bounds");
}

#[test]
fn registered_task_runs_by_name() {
    let dsl = "
    var ran = []
    register_task(\"build\", fn(target) { ran.push(target) })
    ";
    let (interpreter, mut context) = run(dsl);
    task_automation::runner::run_task(&mut context, "build", &vec!["release".to_string()]);
    let ran = var(&interpreter, &context, "ran");
    assert_eq!(resolve(&context, &ran), V::L(vec![V::S("release".to_string())]));
    task_automation::runner::run_task(&mut context, "missing", &vec![]);
    assert_eq!(
        context.host.printed.borrow().last().unwrap(),
        "Error: Running task 'missing' failed: Not registered"
    );
}

#[test]
fn parallel_runs_every_task_and_reports_failures() {
    let dsl = "
    var ran = []
    parallel([fn() { ran.push(1) }, fn() { undefined_function() }, fn() { ran.push(3) }])
    ";
    let (interpreter, context) = run(dsl);
    let ran = var(&interpreter, &context, "ran");
    assert_eq!(resolve(&context, &ran), V::L(vec![V::N(1.0), V::N(3.0)]));
    assert_eq!(
        context.host.printed.borrow().last().unwrap(),
        "[parallel-1] task failed: Exeucting '' failed: Variable 'undefined_function' is not declared"
    );
}

#[test]
fn parallel_refuses_what_is_not_a_function() {
    let (result, _) = try_run("parallel([1])");
    assert_eq!(
        result.err().unwrap().to_text(),
        "Exeucting 'parallel' failed: Argument type error. parallel expected Callable as argument 0, found: Int"
    );
}

#[test]
fn deep_recursion_is_refused() {
    let (result, _) = try_run("fn f() { return f() }\nf()");
    assert_eq!(result.err().unwrap().reason(), "Calls are nested too deeply");
}

#[test]
fn plain_values_read_back_as_written() {
    let dsl = "
    var greeting = \"ab\" + \"cd\"
    var same = greeting == \"abcd\"
    var before = \"abc\" < \"abd\"
    var negated = !(same && before)
    var nothing = undefined
    greeting = greeting + \"!\"
    ";
    let (interpreter, context) = run(dsl);
    assert_eq!(var(&interpreter, &context, "greeting"), string("abcd!"));
    assert_eq!(var(&interpreter, &context, "same"), DataType::Boolean(true));
    assert_eq!(var(&interpreter, &context, "before"), DataType::Boolean(true));
    assert_eq!(var(&interpreter, &context, "negated"), DataType::Boolean(false));
    assert_eq!(var(&interpreter, &context, "nothing"), DataType::Undefined);
}

#[test]
fn plain_condition_false_skips_loop_and_if() {
    let dsl = "
    var count = \"none\"
    while (false) { count = \"loop\" }
    if (\"a\" == \"b\") { count = \"if\" }
    ";
    let (interpreter, context) = run(dsl);
    assert_eq!(var(&interpreter, &context, "count"), string("none"));
}

#[test]
fn prints_nested_containers_in_order() {
    let dsl = "
    var inner = [\"x\", false]
    var d = {b: inner, a: \"y\"}
    d[\"c\"] = []
    print(d)
    print([inner, [], {}])
    ";
    let (_, context) = run(dsl);
    let printed = context.host.printed.borrow();
    let n = printed.len();
    assert_eq!(printed[n - 2], "{b: [\"x\", false], a: \"y\", c: []}");
    assert_eq!(printed[n - 1], "[[\"x\", false], [], {}]");
}

#[test]
fn dictionary_literal_later_key_wins() {
    let dsl = "
    var d = {a: \"1\", b: true, a: \"3\"}
    print(d)
    ";
    let (_, context) = run(dsl);
    assert_eq!(context.host.printed.borrow().last().unwrap(), "{a: \"3\", b: true}");
}

#[test]
fn plain_function_bodies_see_arguments_and_declaring_scope() {
    let dsl = "
    var greeting = \"hello \"
    fn greet(name) { return greeting + name }
    fn shadow(greeting) { return greeting }
    fn caller() {
        var greeting = \"bye \"
        return greet(\"you\")
    }
    var a = greet(\"world\")
    var b = shadow(\"own\")
    var c = caller()
    ";
    let (interpreter, context) = run(dsl);
    assert_eq!(var(&interpreter, &context, "a"), string("hello world"));
    assert_eq!(var(&interpreter, &context, "b"), string("own"));
    assert_eq!(var(&interpreter, &context, "c"), string("hello you"));
}

#[test]
fn dictionary_reads_back_what_was_written() {
    let dsl = "
    var d = {}
    var k = \"key\"
    d[k] = \"first\"
    d[k] = \"second\"
    var x = d[\"key\"]
    ";
    let (interpreter, context) = run(dsl);
    assert_eq!(var(&interpreter, &context, "x"), string("second"));
    let (result, _) = try_run("var d = {}\nvar y = d[\"missing\"]");
    assert_eq!(result.err().unwrap().reason(), "Key 'missing' is not in the dictionary");
}

#[test]
fn declarations_inside_blocks_and_calls_stay_inside() {
    let dsl = "
    var go = true
    while (go) {
        var inner = \"loop\"
        go = false
    }
    fn f() { var local = \"call\" }
    f()
    if (true) { var block = \"if\" }
    ";
    let (interpreter, context) = run(dsl);
    assert!(interpreter.get_variable(&context, "inner").is_err());
    assert!(interpreter.get_variable(&context, "local").is_err());
    assert!(interpreter.get_variable(&context, "block").is_err());
    assert_eq!(var(&interpreter, &context, "go"), DataType::Boolean(false));
}

#[test]
fn list_assignment_is_seen_through_every_variable_holding_the_list() {
    let dsl = "
    var x = [1, 2]
    var y = x
    y[0] = 5
    ";
    let (interpreter, context) = run(dsl);
    let x = var(&interpreter, &context, "x");
    assert_eq!(resolve(&context, &x), V::L(vec![V::N(5.0), V::N(2.0)]));
}

#[test]
fn function_without_return_gives_undefined() {
    let dsl = "
    fn f() {
        var a = 1
    }
    var r = f()
    ";
    let (interpreter, context) = run(dsl);
    assert_eq!(var(&interpreter, &context, "r"), DataType::Undefined);
}

#[test]
fn break_in_function_body_is_refused() {
    let dsl = "
    fn f() {
        break
    }
    f()
    ";
    let (result, _) = try_run(dsl);
    let error = result.err().unwrap();
    assert_eq!(error.reason(), "Break is not supported outside of loops");
}

#[test]
fn break_in_function_declared_in_a_loop_is_refused() {
    let dsl = "
    while (true) {
        fn f() {
            break
        }
        break
    }
    ";
    let (result, _) = try_run(dsl);
    let error = result.err().unwrap();
    assert_eq!(error.reason(), "Break is not supported outside of loops");
}

#[test]
fn while_stops_once_its_condition_is_false() {
    let dsl = "
    var x = true
    var n = \"\"
    while (x) {
        n = n + \"a\"
        x = false
    }
    ";
    let (interpreter, context) = run(dsl);
    assert_eq!(var(&interpreter, &context, "n"), string("a"));
}

#[test]
fn has_answers_as_the_last_change_to_the_key_left_it() {
    let dsl = "
    var d = {a: 1}
    var first = d.has(\"a\")
    d.delete(\"a\")
    var second = d.has(\"a\")
    d[\"a\"] = 2
    var third = d.has(\"a\")
    ";
    let (interpreter, context) = run(dsl);
    assert_eq!(var(&interpreter, &context, "first"), DataType::Boolean(true));
    assert_eq!(var(&interpreter, &context, "second"), DataType::Boolean(false));
    assert_eq!(var(&interpreter, &context, "third"), DataType::Boolean(true));
}

#[test]
fn a_declared_function_runs_its_body_with_its_arguments() {
    let (interpreter, mut context) = run("var c = \"outer\"\nfn pick(a, b) { var c = b; if (true) { c = a }; return c }");
    let result = execute_function(&mut context, 0, vec![string("first"), string("second")], 1000);
    assert_eq!(result.unwrap(), string("first"));
    assert_eq!(var(&interpreter, &context, "c"), string("outer"));
}

#[test]
fn a_call_with_the_wrong_argument_count_names_both_counts() {
    let (result, _context) = try_run("fn foo(bar) { var x = bar }\nfoo()");
    let error = result.err().unwrap();
    assert_eq!(error.reason(), "Argument count for function is invalid. Expect: 1, received 0");
}
