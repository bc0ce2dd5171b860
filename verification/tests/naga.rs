use lib::ast::{parse, parse_checked, AstNode, NagaParser, ParseError, StackMod};
use lib::bindings::{insert, resolve, resolve_and_pop, Popped};
use lib::builtins::{initial_context, Scheme};
use lib::compile::{append, builtins_code, compile, compile_would_panic, decimal, indent, join};
use lib::env::{Env, Name};
use lib::stacklike::{
    mod_stack, BaseContext, Checked, Context, ExecContext, FDContext, FuncDef, Stack, StackLike,
};
use lib::typecheck::{typecheck, typecheck_checked};
use lib::types::{Binding, Bound, FList, FTy, Function, GenBindings, Ty, TypeError};

fn id(s: &str) -> AstNode {
    AstNode::S(StackMod::Id(s.to_string()))
}

fn num(s: &str) -> AstNode {
    AstNode::S(StackMod::Int(s.to_string()))
}

fn fun(from: Vec<FTy>, to: Vec<FTy>) -> Ty {
    Ty::F(Box::new(Function::new(from, to)))
}

fn stack_of(src: &str) -> Result<Vec<Ty>, TypeError> {
    let ast = parse(src).unwrap();
    typecheck(&ast).map(|ctx| ctx.stack.to_vec())
}

// ----------------------------------------------------------------------
// The built-in functions
// ----------------------------------------------------------------------

#[test]
fn test_builtins() {
    let builtins = initial_context();
    let code = builtins_code();

    assert_eq!(code.len(), builtins.len());

    for id in builtins.keys() {
        assert!(code.contains_key(&id))
    }
}

// ----------------------------------------------------------------------
// Reading
// ----------------------------------------------------------------------

#[test]
fn builtin_stores_hold_eight_names() {
    let builtins = initial_context();
    let code = builtins_code();
    assert_eq!(builtins.len(), 8);
    assert_eq!(code.len(), 8);
    for name in ["'", "?", "id", "dup", "drop", "=", "add", "sub"] {
        assert!(builtins.contains_key(&Name::from_str(name)));
        assert!(code.contains_key(&Name::from_str(name)));
    }
    assert!(!builtins.contains_key(&Name::from_str("mul")));
    assert!(!code.contains_key(&Name::from_str("_")));
}

#[test]
fn parse_default_program() {
    let ast = parse(" \n        0 1 =").unwrap();
    assert_eq!(ast, vec![num("0"), num("1"), id("=")]);
}

#[test]
fn parse_all_items() {
    let ast = parse("[ dup ] $d 'add ' ! (2 1) 42 d").unwrap();
    assert_eq!(
        ast,
        vec![
            AstNode::OpenFunc,
            id("dup"),
            AstNode::CloseFunc,
            AstNode::S(StackMod::Bind("d".to_string())),
            AstNode::S(StackMod::Quote("add".to_string())),
            AstNode::S(StackMod::Quote("'".to_string())),
            AstNode::S(StackMod::Apply),
            AstNode::S(StackMod::Arity(2, 1)),
            num("42"),
            id("d"),
        ]
    );
}

#[test]
fn parse_nested_definitions() {
    let ast = NagaParser::parse("[[1]]").unwrap();
    assert_eq!(
        ast,
        vec![
            AstNode::OpenFunc,
            AstNode::OpenFunc,
            num("1"),
            AstNode::CloseFunc,
            AstNode::CloseFunc,
        ]
    );
}

#[test]
fn parse_digits_then_name() {
    assert_eq!(parse("12ab").unwrap(), vec![num("12"), id("ab")]);
}

#[test]
fn parse_errors() {
    assert_eq!(parse("]"), Err(ParseError::UnexpectedClose));
    assert_eq!(parse("[ 1"), Err(ParseError::UnclosedDefinition));
    assert_eq!(parse("$ x"), Err(ParseError::MissingName));
    assert_eq!(parse("1 )"), Err(ParseError::UnexpectedChar(')')));
    assert_eq!(parse("(2)"), Err(ParseError::MalformedArity));
    assert_eq!(parse("(2 1"), Err(ParseError::MalformedArity));
    assert_eq!(parse_checked("(4294967296 1)"), Err(ParseError::ArityTooLarge));
    assert_eq!(parse_checked("(4294967296 1) 2 ]"), Err(ParseError::UnexpectedClose));
    assert_eq!(parse("(1 4294967296) [ 2"), Err(ParseError::UnclosedDefinition));
    assert_eq!(parse_checked("(1 4294967296) # $"), Err(ParseError::MissingName));
    assert_eq!(parse_checked("(4294967295 0)").unwrap(), vec![AstNode::S(StackMod::Arity(4294967295, 0))]);
}

#[test]
fn parse_empty() {
    assert_eq!(parse("   ").unwrap(), vec![]);
}

// ----------------------------------------------------------------------
// Checking
// ----------------------------------------------------------------------

#[test]
fn typecheck_default_program() {
    assert_eq!(stack_of("0 1 =").unwrap(), vec![Ty::Bool]);
}

#[test]
fn typecheck_math() {
    assert_eq!(stack_of("1 2 add 3 sub").unwrap(), vec![Ty::Int]);
    assert_eq!(stack_of("1 2 mul"), Err(TypeError::UnknownIdentifier));
    assert_eq!(stack_of("1 _"), Err(TypeError::UnknownIdentifier));
    assert_eq!(stack_of("1 dup").unwrap(), vec![Ty::Int, Ty::Int]);
    assert_eq!(stack_of("1 2 drop").unwrap(), vec![Ty::Int]);
    assert_eq!(stack_of("1 id").unwrap(), vec![Ty::Int]);
    assert_eq!(stack_of("0 0 = 1 2 ?").unwrap(), vec![Ty::Int]);
}

#[test]
fn typecheck_errors() {
    assert_eq!(stack_of("add"), Err(TypeError::EmptyStack));
    assert_eq!(stack_of("1 !"), Err(TypeError::NotAFunction));
    assert_eq!(stack_of("foo"), Err(TypeError::UnknownIdentifier));
    assert!(matches!(stack_of("0 1 = 1 add"), Err(TypeError::Mismatch(_, _))));
    let ast = vec![AstNode::CloseFunc];
    assert_eq!(typecheck(&ast).map(|_| ()), Err(TypeError::NotInFunction));
}

#[test]
fn typecheck_definitions() {
    assert_eq!(stack_of("[ 1 ] !").unwrap(), vec![Ty::Int]);
    assert_eq!(stack_of("[ 1 ] $one one one add").unwrap(), vec![Ty::Int]);
    assert_eq!(stack_of("[ 1 ]").unwrap(), vec![fun(vec![], vec![FTy::T(Ty::Int)])]);
    assert_eq!(stack_of("'add").unwrap(), vec![fun(
        vec![FTy::T(Ty::Int), FTy::T(Ty::Int)],
        vec![FTy::T(Ty::Int)],
    )]);
}

#[test]
fn typecheck_definition_with_inputs() {
    // A definition that adds one to its input takes one integer and leaves one.
    assert_eq!(stack_of("[ 1 add ]").unwrap(), vec![fun(
        vec![FTy::T(Ty::Int)],
        vec![FTy::T(Ty::Int)],
    )]);
    assert_eq!(stack_of("2 [ 1 add ] !").unwrap(), vec![Ty::Int]);
}

#[test]
fn typecheck_arity_overflow_aborts() {
    let ast = parse("(4294967295 1)").unwrap();
    assert_eq!(typecheck_checked(&ast).map(|_| ()), Err(TypeError::ArityOverflow));
}

#[test]
fn check_node_continues_and_closes() {
    let mut next = 0;
    let fd: FDContext = BaseContext::new(initial_context());
    let fd = match fd.check_node(&num("1"), &mut next).unwrap() {
        Checked::Continue(c) => c,
        Checked::Closed(_) => panic!("closed too early"),
    };
    match fd.check_node(&AstNode::CloseFunc, &mut next).unwrap() {
        Checked::Closed(f) => {
            assert_eq!(f.from(), vec![]);
            assert_eq!(f.to(), vec![FTy::T(fun(vec![], vec![FTy::T(Ty::Int)]))]);
        },
        Checked::Continue(_) => panic!("not closed"),
    }
    let ctx: ExecContext = BaseContext::new(initial_context());
    assert!(matches!(ctx.check_node(&AstNode::CloseFunc, &mut next), Err(TypeError::NotInFunction)));
}

// ----------------------------------------------------------------------
// Stacks
// ----------------------------------------------------------------------

#[test]
fn stack_apply_height() {
    let mut stack = Stack::new(&[Ty::Int, Ty::Int, Ty::Bool]);
    let f = Function::new(
        vec![FTy::Gen(7), FTy::T(Ty::Bool)],
        vec![FTy::Gen(7), FTy::Gen(7), FTy::T(Ty::Int)],
    );
    stack.apply(f).unwrap();
    assert_eq!(stack.to_vec(), vec![Ty::Int, Ty::Int, Ty::Int, Ty::Int]);
}

#[test]
fn stack_pop_and_pop_function() {
    let mut stack = Stack::new(&[fun(vec![], vec![]), Ty::Int]);
    assert_eq!(stack.pop_function(), Err(TypeError::NotAFunction));
    assert_eq!(stack.pop_function().unwrap(), Function::new(vec![], vec![]));
    assert_eq!(stack.pop(), None);
}

#[test]
fn stack_apply_generic_output_is_refused() {
    let mut stack = Stack::new(&[]);
    let f = Function::new(vec![], vec![FTy::Gen(3)]);
    assert_eq!(stack.apply(f), Err(TypeError::GenericType));
}

#[test]
fn funcdef_collects_inputs() {
    let mut fd = FuncDef::empty();
    let f = Function::new(vec![FTy::T(Ty::Int)], vec![FTy::T(Ty::Bool)]);
    fd.apply(f).unwrap();
    let pushed = fd.collect().unwrap();
    assert_eq!(pushed.from(), vec![]);
    assert_eq!(pushed.to(), vec![FTy::T(fun(vec![FTy::T(Ty::Int)], vec![FTy::T(Ty::Bool)]))]);
}

#[test]
fn mod_stack_bind_then_use() {
    let mut stack = Stack::new(&[fun(vec![], vec![FTy::T(Ty::Int)])]);
    let mut store = initial_context();
    let mut next = 0;
    mod_stack(&StackMod::Bind("one".to_string()), &mut stack, &mut store, &mut next).unwrap();
    assert_eq!(stack.to_vec(), vec![]);
    assert!(store.contains_key(&Name::from_str("one")));
    mod_stack(&StackMod::Id("one".to_string()), &mut stack, &mut store, &mut next).unwrap();
    assert_eq!(stack.to_vec(), vec![Ty::Int]);
    assert_eq!(next, 0);
}

#[test]
fn mod_stack_fresh_variables() {
    let mut stack = Stack::new(&[fun(vec![FTy::T(Ty::Int)], vec![FTy::T(Ty::Int)])]);
    let mut store = initial_context();
    let mut next = 5;
    mod_stack(&StackMod::Arity(1, 1), &mut stack, &mut store, &mut next).unwrap();
    assert_eq!(next, 7);
    mod_stack(&StackMod::Id("dup".to_string()), &mut stack, &mut store, &mut next).unwrap();
    assert_eq!(next, 8);
    assert_eq!(stack.to_vec().len(), 2);
}

#[test]
fn scheme_instantiation_renames_parameters() {
    let sc = Scheme { params: 1, body: Function::new(vec![FTy::Gen(0), FTy::Gen(4)], vec![FTy::Gen(0)]) };
    let mut next = 10;
    let f = sc.instantiate(&mut next).unwrap();
    assert_eq!(next, 11);
    assert_eq!(f.from(), vec![FTy::Gen(10), FTy::Gen(4)]);
    assert_eq!(f.to(), vec![FTy::Gen(10)]);
    let mut last = u64::MAX;
    assert_eq!(sc.instantiate(&mut last), Err(TypeError::OutOfGenerics));
}

// ----------------------------------------------------------------------
// Type operations
// ----------------------------------------------------------------------

#[test]
fn merge_binds_a_variable() {
    let mut b: GenBindings = GenBindings::new();
    let r = FTy::Gen(1).merge(FTy::T(Ty::Int), &mut b).unwrap();
    assert_eq!(r, FTy::Gen(1));
    assert_eq!(b.get(&1), Some(&Binding::Bounded(Bound::from_lower(Ty::Int))));
    assert_eq!(resolve(&1, &b).unwrap(), FTy::B(Bound::from_lower(Ty::Int)));
}

#[test]
fn merge_two_variables_aliases() {
    let mut b: GenBindings = GenBindings::new();
    assert_eq!(FTy::Gen(1).merge(FTy::Gen(2), &mut b).unwrap(), FTy::Gen(1));
    assert_eq!(b.get(&1), Some(&Binding::Alias(2)));
    assert_eq!(FTy::Gen(2).merge(FTy::Gen(1), &mut b).unwrap(), FTy::Gen(2));
    assert_eq!(resolve(&1, &b).unwrap(), FTy::Gen(2));
}

#[test]
fn merge_mismatch() {
    let mut b: GenBindings = GenBindings::new();
    assert_eq!(
        FTy::T(Ty::Int).merge(FTy::T(Ty::Bool), &mut b),
        Err(TypeError::Mismatch(Ty::Int, Ty::Bool))
    );
}

#[test]
fn merge_function_types() {
    let mut b: GenBindings = GenBindings::new();
    let a = FTy::T(fun(vec![FTy::Gen(1)], vec![FTy::Gen(1)]));
    let c = FTy::T(fun(vec![FTy::T(Ty::Int)], vec![FTy::T(Ty::Int)]));
    let r = a.merge(c, &mut b).unwrap();
    match r {
        FTy::B(bound) => {
            assert_eq!(bound.upper, None);
            assert!(bound.lower.is_some());
        },
        _ => panic!("expected a bound"),
    }
    assert_eq!(
        FTy::Gen(1).resolve_gen(&b).unwrap(),
        FTy::B(Bound::from_lower(Ty::Int))
    );
}

#[test]
fn merge_incompatible_arity() {
    let mut b: GenBindings = GenBindings::new();
    let a = FTy::T(fun(vec![FTy::T(Ty::Int)], vec![]));
    let c = FTy::T(fun(vec![], vec![FTy::T(Ty::Int)]));
    assert_eq!(
        a.merge(c, &mut b),
        Err(TypeError::IncompatibleLength(
            Function::new(vec![FTy::T(Ty::Int)], vec![]),
            Function::new(vec![], vec![FTy::T(Ty::Int)])
        ))
    );
}

#[test]
fn insert_refuses_self_reference() {
    let mut b: GenBindings = GenBindings::new();
    assert_eq!(
        insert(&mut b, 3, Binding::Alias(3)),
        Err(TypeError::ContainsItself(3, Binding::Alias(3)))
    );
    let bound = Bound::from_lower(fun(vec![FTy::Gen(3)], vec![]));
    let same = Bound::from_lower(fun(vec![FTy::Gen(3)], vec![]));
    assert_eq!(
        insert(&mut b, 3, Binding::Bounded(bound)),
        Err(TypeError::ContainsItself(3, Binding::Bounded(same)))
    );
    assert!(b.is_empty());
    assert_eq!(insert(&mut b, 3, Binding::Alias(4)), Ok(None));
    assert_eq!(insert(&mut b, 3, Binding::Alias(5)), Ok(Some(Binding::Alias(4))));
}

#[test]
fn resolve_follows_aliases_and_detects_loops() {
    let mut b: GenBindings = GenBindings::new();
    b.insert(1, Binding::Alias(2));
    b.insert(2, Binding::Alias(3));
    assert_eq!(resolve(&1, &b).unwrap(), FTy::Gen(3));
    b.insert(3, Binding::Alias(1));
    assert_eq!(resolve(&1, &b), Err(TypeError::ResolvingLooped(1)));
    let mut c: GenBindings = GenBindings::new();
    c.insert(1, Binding::Alias(2));
    c.insert(2, Binding::Alias(3));
    c.insert(3, Binding::Alias(2));
    assert_eq!(resolve(&1, &c), Err(TypeError::ResolvingLooped(1)));
}

#[test]
fn resolve_and_pop_takes_the_bound() {
    let mut b: GenBindings = GenBindings::new();
    b.insert(1, Binding::Alias(2));
    b.insert(2, Binding::Bounded(Bound::from_lower(Ty::Bool)));
    assert_eq!(resolve_and_pop(&1, &mut b).unwrap(), Popped::Bounded(2, Bound::from_lower(Ty::Bool)));
    assert_eq!(b.len(), 1);
    assert_eq!(resolve_and_pop(&1, &mut b).unwrap(), Popped::Free(2));
    assert_eq!(b.len(), 1);
}

#[test]
fn resolve_and_pop_refuses_only_circles() {
    let mut b: GenBindings = GenBindings::new();
    b.insert(1, Binding::Alias(2));
    b.insert(2, Binding::Alias(3));
    b.insert(3, Binding::Alias(4));
    b.insert(4, Binding::Bounded(Bound::from_lower(Ty::Int)));
    assert_eq!(resolve(&1, &b).unwrap(), FTy::B(Bound::from_lower(Ty::Int)));
    assert_eq!(resolve_and_pop(&1, &mut b).unwrap(), Popped::Bounded(4, Bound::from_lower(Ty::Int)));
    assert_eq!(b.len(), 3);
    b.insert(3, Binding::Alias(2));
    assert_eq!(resolve_and_pop(&1, &mut b), Err(TypeError::ResolvingLooped(1)));
    assert_eq!(b.len(), 3);
}

#[test]
fn as_ty_results() {
    assert_eq!(Bound::from_lower(Ty::Int).as_ty(), Ok(Ty::Int));
    assert_eq!(Bound { upper: Some(Ty::Int), lower: None }.as_ty(), Err(TypeError::NoLowerBound));
    assert_eq!(FTy::Gen(0).as_ty(), Err(TypeError::GenericType));
    assert_eq!(FTy::T(Ty::Bool).as_ty(), Ok(Ty::Bool));
}

#[test]
fn contains_finds_nested_variables() {
    let t = FTy::T(fun(vec![FTy::B(Bound::from_lower(fun(vec![], vec![FTy::Gen(9)])))], vec![]));
    assert!(t.contains(&9));
    assert!(!t.contains(&8));
}

#[test]
fn function_lists_round_trip() {
    let f = Function::from_fty(&[FTy::T(Ty::Int), FTy::Gen(1)], &[FTy::T(Ty::Bool)]);
    assert_eq!(f.from(), vec![FTy::T(Ty::Int), FTy::Gen(1)]);
    assert_eq!(f.to(), vec![FTy::T(Ty::Bool)]);
    assert_eq!(f.from, FList::from_vec(vec![FTy::T(Ty::Int), FTy::Gen(1)]));
}

// ----------------------------------------------------------------------
// Compiling
// ----------------------------------------------------------------------

#[test]
fn compile_default_program() {
    let ast = parse("0 1 =").unwrap();
    assert_eq!(
        compile(&ast).unwrap(),
        "stack = []\nstack.append(0)\nstack.append(1)\nstack.append(stack.pop(-2) == stack.pop())\nprint(stack)"
    );
}

#[test]
fn compile_definitions_and_bindings() {
    let ast = parse("[ 1 ] $f f 'dup !").unwrap();
    assert_eq!(
        compile(&ast).unwrap(),
        "stack = []\ndef fn():\n\tstack.append(1)\nstack.append(fn)\n_0_f = stack.pop()\n_0_f()\ndef quote():\n\tstack.append(stack[-1])\nstack.append(quote)\nstack.pop()()\nprint(stack)"
    );
}

#[test]
fn compile_nested_definition_indents() {
    let ast = parse("[ [ 1 ] ]").unwrap();
    assert_eq!(
        compile(&ast).unwrap(),
        "stack = []\ndef fn():\n\tdef fn():\n\t\tstack.append(1)\n\tstack.append(fn)\nstack.append(fn)\nprint(stack)"
    );
}

#[test]
fn compile_unknown_identifier() {
    let ast = vec![id("nope")];
    assert_eq!(compile(&ast), Err("did not find identifier nope in context".to_string()));
}

#[test]
fn compile_guard() {
    assert!(compile_would_panic(&vec![AstNode::CloseFunc]));
    assert!(!compile_would_panic(&vec![AstNode::OpenFunc, AstNode::CloseFunc]));
}

#[test]
fn text_helpers() {
    assert_eq!(append("x"), "stack.append(x)");
    assert_eq!(indent("a\nb\n"), "a\n\tb\n\t");
    assert_eq!(decimal(0), "0");
    assert_eq!(decimal(1203), "1203");
    assert_eq!(join(&vec!["a".to_string(), "b".to_string()], ", "), "a, b");
    assert_eq!(join(&vec![], ", "), "");
}

#[test]
fn env_insert_replaces() {
    let e: Env<u32> = Env::new();
    let e = e.insert(Name::from_str("a"), 1);
    let e = e.insert(Name::from_str("b"), 2);
    let e = e.insert(Name::from_str("a"), 3);
    assert_eq!(e.len(), 2);
    assert_eq!(e.get(&Name::from_str("a")), Some(&3));
    assert_eq!(e.get(&Name::from_str("b")), Some(&2));
    assert_eq!(e.get(&Name::from_str("c")), None);
}


// ----------------------------------------------------------------------
// Laws on concrete values
// ----------------------------------------------------------------------

#[test]
fn checked_program_compiles_without_guard_failure() {
    let ast = parse("[ 1 [ 2 ] ! add ] ! 3 add").unwrap();
    assert!(typecheck(&ast).is_ok());
    assert!(!compile_would_panic(&ast));
    assert!(compile(&ast).is_ok());
}

#[test]
fn parsed_program_is_nested() {
    let ast = parse("[[ ] [ [ ] ] ]").unwrap();
    assert!(!compile_would_panic(&ast));
    let opens = ast.iter().filter(|n| **n == AstNode::OpenFunc).count();
    let closes = ast.iter().filter(|n| **n == AstNode::CloseFunc).count();
    assert_eq!(opens, closes);
}

#[test]
fn merges_never_bind_a_variable_to_itself() {
    let mut b: GenBindings = GenBindings::new();
    let f = FTy::T(fun(vec![FTy::Gen(1)], vec![FTy::Gen(2)]));
    let _ = FTy::Gen(1).merge(FTy::Gen(2), &mut b);
    let _ = FTy::Gen(2).merge(f, &mut b);
    let _ = FTy::Gen(3).merge(FTy::Gen(1), &mut b);
    let _ = FTy::Gen(3).merge(FTy::T(Ty::Int), &mut b);
    for (k, v) in b.iter() {
        match v {
            Binding::Alias(g) => assert_ne!(g, k),
            Binding::Bounded(bound) => assert!(!FTy::B(bound.copy()).contains(k)),
        }
    }
}

#[test]
fn definition_using_bounded_input_aborts() {
    assert_eq!(stack_of("[ dup add ]").unwrap(), vec![fun(
        vec![FTy::B(Bound { upper: Some(Ty::Int), lower: None })],
        vec![FTy::T(Ty::Int)],
    )]);
    let ast = parse("[ dup add ] $dbl [ dup dbl ]").unwrap();
    assert_eq!(typecheck_checked(&ast).map(|_| ()), Err(TypeError::UpperBoundInDefinition));
}

#[test]
fn two_uses_of_a_builtin_get_distinct_variables() {
    let store = initial_context();
    let dup = store.get(&Name::from_str("dup")).unwrap();
    let mut next = 0;
    let f1 = dup.instantiate(&mut next).unwrap();
    let f2 = dup.instantiate(&mut next).unwrap();
    assert_eq!(next, 2);
    assert_eq!(f1, Function::new(vec![FTy::Gen(0)], vec![FTy::Gen(0), FTy::Gen(0)]));
    assert_eq!(f2, Function::new(vec![FTy::Gen(1)], vec![FTy::Gen(1), FTy::Gen(1)]));
}

#[test]
fn arity_annotations_compile_to_nothing() {
    let with = compile(&parse("1 (0 1) dup (1 2) add").unwrap());
    let without = compile(&parse("1 dup add").unwrap());
    assert_eq!(with, without);
}

#[test]
fn straight_programs_concatenate() {
    let body = |src: &str| -> String {
        let code = compile(&parse(src).unwrap()).unwrap();
        code.strip_prefix("stack = []\n").unwrap().strip_suffix("\nprint(stack)").unwrap().to_string()
    };
    let a = body("1 dup");
    let b = body("'add 2 =");
    let ab = compile(&parse("1 dup 'add 2 =").unwrap()).unwrap();
    assert_eq!(ab, format!("stack = []\n{a}\n{b}\nprint(stack)"));
}

#[test]
fn definition_pushes_one_function_and_keeps_its_names() {
    let ast = parse("1 [ 'id $f 2 ]").unwrap();
    let ctx = typecheck(&ast).unwrap();
    let stack = ctx.stack.to_vec();
    assert_eq!(stack.len(), 2);
    assert_eq!(stack[0], Ty::Int);
    assert!(matches!(stack[1], Ty::F(_)));
    assert!(ctx.child_context.is_none());
    assert!(!ctx.store.contains_key(&Name::from_str("f")));
    assert_eq!(ctx.store.len(), initial_context().len());
    assert_eq!(stack_of("[ 'id $f ] f"), Err(TypeError::UnknownIdentifier));
}

#[test]
fn substitution_settles() {
    let mut b: GenBindings = GenBindings::new();
    b.insert(1, Binding::Alias(2));
    b.insert(2, Binding::Bounded(Bound::from_lower(Ty::Int)));
    let x = FTy::T(fun(vec![FTy::Gen(1)], vec![FTy::Gen(3)]));
    let y = x.resolve_gen(&b).unwrap();
    assert_eq!(y, FTy::T(fun(vec![FTy::B(Bound::from_lower(Ty::Int))], vec![FTy::Gen(3)])));
    assert_eq!(y.copy().resolve_gen(&b).unwrap(), y);
    let z = FTy::T(fun(vec![FTy::Gen(5)], vec![]));
    let empty: GenBindings = GenBindings::new();
    assert_eq!(z.copy().resolve_gen(&empty).unwrap(), z);
}
