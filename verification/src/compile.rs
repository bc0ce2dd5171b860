use crate::ast::{AstNode, StackMod};
use crate::env::{env_get, env_insert, env_remove, name_from, Env, Name};
use vstd::prelude::*;
use vstd::string::{StrSliceExecFns, StringExecFns};

verus! {

/// The code of the functions known by name.
pub type CodeStore = Env<String>;

// ----------------------------------------------------------------------
// Text helpers
// ----------------------------------------------------------------------

/// `value` with a tab after every line break.
pub open spec fn indent_spec(s: Seq<char>) -> Seq<char>
    decreases s.len(),
{
    if s.len() == 0 {
        Seq::empty()
    } else {
        indent_spec(s.drop_last()) + (if s.last() == '\n' {
            seq!['\n', '\t']
        } else {
            seq![s.last()]
        })
    }
}

/// The line that pushes `value`.
pub open spec fn append_spec(value: Seq<char>) -> Seq<char> {
    "stack.append("@ + value + ")"@
}

/// The lines joined by `sep`.
pub open spec fn join_spec(lines: Seq<Seq<char>>, sep: Seq<char>) -> Seq<char>
    decreases lines.len(),
{
    if lines.len() == 0 {
        Seq::empty()
    } else if lines.len() == 1 {
        lines[0]
    } else {
        join_spec(lines.drop_last(), sep) + sep + lines.last()
    }
}

/// The decimal digit `d`.
pub open spec fn digit_spec(d: nat) -> char {
    if d == 0 {
        '0'
    } else if d == 1 {
        '1'
    } else if d == 2 {
        '2'
    } else if d == 3 {
        '3'
    } else if d == 4 {
        '4'
    } else if d == 5 {
        '5'
    } else if d == 6 {
        '6'
    } else if d == 7 {
        '7'
    } else if d == 8 {
        '8'
    } else {
        '9'
    }
}

/// `n` written in decimal.
pub open spec fn decimal_spec(n: nat) -> Seq<char>
    decreases n,
{
    if n < 10 {
        seq![digit_spec(n)]
    } else {
        decimal_spec(n / 10) + seq![digit_spec(n % 10)]
    }
}

/// The line that pushes `value`.
pub fn append(value: &str) -> (r: String)
    ensures
        r@ == append_spec(value@),
{
    let mut s = String::from_str("stack.append(");
    s.append(value);
    s.append(")");
    s
}

/// `value` with a tab after every line break.
pub fn indent(value: &str) -> (r: String)
    ensures
        r@ == indent_spec(value@),
{
    let n = value.unicode_len();
    let mut r = String::new();
    let mut i: usize = 0;
    while i < n
        invariant
            n == value@.len(),
            i <= n,
            r@ == indent_spec(value@.subrange(0, i as int)),
        decreases n - i,
    {
        let c = value.get_char(i);
        proof {
            let t = value@.subrange(0, i + 1);
            assert(t.drop_last() =~= value@.subrange(0, i as int));
            assert(t.last() == c);
        }
        if c == '\n' {
            let piece = "\n\t";
            proof {
                reveal_strlit("\n\t");
            }
            r.append(piece);
        } else {
            let piece = value.substring_char(i, i + 1);
            assert(piece@ =~= seq![c]);
            r.append(piece);
        }
        i = i + 1;
    }
    assert(value@.subrange(0, n as int) =~= value@);
    r
}

/// The lines joined by `sep`.
pub fn join(lines: &Vec<String>, sep: &str) -> (r: String)
    ensures
        r@ == join_spec(lines@.map_values(|l: String| l@), sep@),
{
    let ghost view = lines@.map_values(|l: String| l@);
    let mut r = String::new();
    let mut i: usize = 0;
    while i < lines.len()
        invariant
            view == lines@.map_values(|l: String| l@),
            i <= lines@.len(),
            r@ == join_spec(view.take(i as int), sep@),
        decreases lines@.len() - i,
    {
        assert(view.take(i + 1).drop_last() =~= view.take(i as int));
        if i != 0 {
            r.append(sep);
        }
        r.append(lines[i].as_str());
        i = i + 1;
    }
    assert(view.take(lines@.len() as int) =~= view);
    r
}

fn digit(d: u32) -> (r: &'static str)
    requires
        d < 10,
    ensures
        r@ == seq![digit_spec(d as nat)],
{
    proof {
        reveal_strlit("0");
        reveal_strlit("1");
        reveal_strlit("2");
        reveal_strlit("3");
        reveal_strlit("4");
        reveal_strlit("5");
        reveal_strlit("6");
        reveal_strlit("7");
        reveal_strlit("8");
        reveal_strlit("9");
    }
    let r = if d == 0 {
        "0"
    } else if d == 1 {
        "1"
    } else if d == 2 {
        "2"
    } else if d == 3 {
        "3"
    } else if d == 4 {
        "4"
    } else if d == 5 {
        "5"
    } else if d == 6 {
        "6"
    } else if d == 7 {
        "7"
    } else if d == 8 {
        "8"
    } else {
        "9"
    };
    assert(r@ =~= seq![digit_spec(d as nat)]);
    r
}

/// `n` written in decimal.
pub fn decimal(n: u32) -> (r: String)
    ensures
        r@ == decimal_spec(n as nat),
    decreases n,
{
    if n < 10 {
        String::from_str(digit(n))
    } else {
        let mut s = decimal(n / 10);
        s.append(digit(n % 10));
        s
    }
}

// ----------------------------------------------------------------------
// Stores of code
// ----------------------------------------------------------------------

/// The store with every value replaced by its view.
pub open spec fn env_view(e: Env<String>) -> Env<Seq<char>>
    decreases e,
{
    match e {
        Env::Empty => Env::Empty,
        Env::Entry(k, v, rest) => Env::Entry(k, v@, Box::new(env_view(*rest))),
    }
}

pub proof fn lemma_env_view_get(e: Env<String>, k: Name)
    ensures
        env_get(env_view(e), k) == (match env_get(e, k) {
            Some(v) => Some(v@),
            None => None,
        }),
    decreases e,
{
    match e {
        Env::Empty => {},
        Env::Entry(_, _, rest) => lemma_env_view_get(*rest, k),
    }
}

pub proof fn lemma_env_view_remove(e: Env<String>, k: Name)
    ensures
        env_view(env_remove(e, k)) == env_remove(env_view(e), k),
    decreases e,
{
    match e {
        Env::Empty => {},
        Env::Entry(_, _, rest) => lemma_env_view_remove(*rest, k),
    }
}

/// The store holding `entries`, the first one newest.
pub open spec fn code_env_of(entries: Seq<(Seq<char>, Seq<char>)>) -> Env<Seq<char>>
    decreases entries.len(),
{
    if entries.len() == 0 {
        Env::Empty
    } else {
        Env::Entry(
            name_from(entries[0].0),
            entries[0].1,
            Box::new(code_env_of(entries.drop_first())),
        )
    }
}

/// The line that replaces the two top values by `f` applied to them.
pub open spec fn op_spec(f: Seq<char>) -> Seq<char> {
    append_spec("stack.pop(-2) "@ + f + " stack.pop()"@)
}

/// The code of each built-in function.
pub open spec fn builtin_code_entries() -> Seq<(Seq<char>, Seq<char>)> {
    seq![
        ("'"@, "pass"@),
        ("?"@, "[test, case_t, case_f] = stack[-3:]\nstack[-3:]=[case_t if test else case_f]"@),
        ("id"@, "pass"@),
        ("dup"@, append_spec("stack[-1]"@)),
        ("drop"@, "stack.pop()"@),
        ("="@, op_spec("=="@)),
        ("add"@, op_spec("+"@)),
        ("sub"@, op_spec("-"@)),
    ]
}

fn code_entry(name: &str, code: String, rest: CodeStore) -> (r: CodeStore)
    ensures
        env_view(r) == Env::Entry(name_from(name@), code@, Box::new(env_view(rest))),
{
    Env::Entry(Name::from_str(name), code, Box::new(rest))
}

fn op(f: &str) -> (r: String)
    ensures
        r@ == op_spec(f@),
{
    let mut s = String::from_str("stack.pop(-2) ");
    s.append(f);
    s.append(" stack.pop()");
    append(s.as_str())
}

/// The code of the built-in functions.
pub fn builtins_code() -> (r: CodeStore)
    ensures
        env_view(r) == code_env_of(builtin_code_entries()),
{
    let st0: CodeStore = Env::Empty;
    let st1 = code_entry("sub", op("-"), st0);
    let st2 = code_entry("add", op("+"), st1);
    let st3 = code_entry("=", op("=="), st2);
    let st4 = code_entry("drop", String::from_str("stack.pop()"), st3);
    let st5 = code_entry("dup", append("stack[-1]"), st4);
    let st6 = code_entry("id", String::from_str("pass"), st5);
    let st7 = code_entry(
        "?",
        String::from_str(
            "[test, case_t, case_f] = stack[-3:]\nstack[-3:]=[case_t if test else case_f]",
        ),
        st6,
    );
    let st8 = code_entry("'", String::from_str("pass"), st7);
    proof {
        reveal_with_fuel(code_env_of, 9);
        reveal_with_fuel(env_view, 9);
        let e = builtin_code_entries();
        assert(e.len() == 8);
        assert(e.skip(0).drop_first() =~= e.skip(1));
        assert(e.skip(1).drop_first() =~= e.skip(2));
        assert(e.skip(2).drop_first() =~= e.skip(3));
        assert(e.skip(3).drop_first() =~= e.skip(4));
        assert(e.skip(4).drop_first() =~= e.skip(5));
        assert(e.skip(5).drop_first() =~= e.skip(6));
        assert(e.skip(6).drop_first() =~= e.skip(7));
        assert(e.skip(7).drop_first() =~= e.skip(8));
    }
    st8
}

// ----------------------------------------------------------------------
// Compilation
// ----------------------------------------------------------------------

/// The state of the compiler: the enclosing code of each open definition,
/// the code of the innermost one, the code of each name and the number of
/// names bound so far.
pub struct CState {
    pub frames: Seq<Seq<Seq<char>>>,
    pub code: Seq<Seq<char>>,
    pub store: Env<Seq<char>>,
    pub count: nat,
}

/// The message for an unknown identifier.
pub open spec fn not_found_spec(id: Seq<char>) -> Seq<char> {
    "did not find identifier "@ + id + " in context"@
}

/// The name of the `count`-th bound function called `id`.
pub open spec fn bound_name_spec(count: nat, id: Seq<char>) -> Seq<char> {
    "_"@ + decimal_spec(count) + "_"@ + id
}

/// Compiling one node.
pub open spec fn compile_step(st: CState, node: AstNode) -> Result<CState, Seq<char>> {
    match node {
        AstNode::S(sm) => match sm {
            StackMod::Arity(_, _) => Ok(st),
            StackMod::Apply => Ok(CState { code: st.code.push("stack.pop()()"@), ..st }),
            StackMod::Id(id) => match env_get(st.store, name_from(id@)) {
                Some(res) => Ok(CState { code: st.code.push(res), ..st }),
                None => Err(not_found_spec(id@)),
            },
            StackMod::Quote(id) => match env_get(st.store, name_from(id@)) {
                Some(res) => Ok(
                    CState {
                        code: st.code.push(
                            "def quote():\n\t"@ + indent_spec(res) + "\n"@ + append_spec(
                                "quote"@,
                            ),
                        ),
                        ..st
                    },
                ),
                None => Err(not_found_spec(id@)),
            },
            StackMod::Bind(id) => {
                let f_name = bound_name_spec(st.count, id@);
                Ok(
                    CState {
                        frames: st.frames,
                        code: st.code.push(f_name + " = stack.pop()"@),
                        store: env_insert(st.store, name_from(id@), f_name + "()"@),
                        count: st.count + 1,
                    },
                )
            },
            StackMod::Int(lit) => Ok(CState { code: st.code.push(append_spec(lit@)), ..st }),
        },
        AstNode::OpenFunc => Ok(
            CState {
                frames: st.frames.push(st.code.push("def fn():"@)),
                code: Seq::empty(),
                ..st
            },
        ),
        AstNode::CloseFunc => if st.frames.len() == 0 {
            Ok(st)
        } else {
            let res = indent_spec(join_spec(st.code, "\n"@));
            Ok(
                CState {
                    frames: st.frames.drop_last(),
                    code: st.frames.last().push("\t"@ + res).push(append_spec("fn"@)),
                    ..st
                },
            )
        },
    }
}

/// Compiling `nodes[i..]` from state `st`.
pub open spec fn compile_from(st: CState, nodes: Seq<AstNode>, i: int) -> Result<CState, Seq<char>>
    decreases nodes.len() - i,
{
    if i < 0 || i >= nodes.len() {
        Ok(st)
    } else {
        match compile_step(st, nodes[i]) {
            Err(m) => Err(m),
            Ok(st1) => compile_from(st1, nodes, i + 1),
        }
    }
}

/// The compiler's state before the first node.
pub open spec fn compile_start() -> CState {
    CState {
        frames: Seq::empty(),
        code: seq!["stack = []"@],
        store: code_env_of(builtin_code_entries()),
        count: 0,
    }
}

/// The program text for `nodes`, or the message of the first error.
pub open spec fn compile_spec(nodes: Seq<AstNode>) -> Result<Seq<char>, Seq<char>> {
    match compile_from(compile_start(), nodes, 0) {
        Err(m) => Err(m),
        Ok(st) => Ok(join_spec(st.code.push("print(stack)"@), "\n"@)),
    }
}

/// The number of definitions open after `nodes[..i]`.
pub open spec fn depth(nodes: Seq<AstNode>, i: int) -> int
    decreases i,
{
    if i <= 0 {
        0
    } else {
        depth(nodes, i - 1) + match nodes[i - 1] {
            AstNode::OpenFunc => 1int,
            AstNode::CloseFunc => -1int,
            _ => 0int,
        }
    }
}

/// Every closing node closes an open definition.
pub open spec fn nesting_ok(nodes: Seq<AstNode>) -> bool {
    forall|i: int| 0 <= i < nodes.len() && #[trigger] nodes[i] is CloseFunc ==> depth(nodes, i) > 0
}

/// The number of naming nodes in `nodes[..i]`.
pub open spec fn binds(nodes: Seq<AstNode>, i: int) -> nat
    decreases i,
{
    if i <= 0 {
        0
    } else {
        binds(nodes, i - 1) + if nodes[i - 1] matches AstNode::S(StackMod::Bind(_)) {
            1nat
        } else {
            0nat
        }
    }
}

/// The lines with each replaced by its view.
pub open spec fn lines_view(v: Seq<String>) -> Seq<Seq<char>> {
    v.map_values(|l: String| l@)
}

/// The enclosing code of each definition, viewed.
pub open spec fn frames_view(v: Seq<Vec<String>>) -> Seq<Seq<Seq<char>>> {
    v.map_values(|f: Vec<String>| lines_view(f@))
}

/// Whether compiling `ast` reaches a closing node outside any definition or
/// names more functions than an `i32` counts.
pub open spec fn compile_panics(ast: Seq<AstNode>) -> bool {
    !nesting_ok(ast) || binds(ast, ast.len() as int) > i32::MAX
}

/// Compiles a program to Python source text.
pub fn compile(ast: &Vec<AstNode>) -> (r: Result<String, String>)
    requires
        !compile_panics(ast@),
    ensures
        match compile_spec(ast@) {
            Ok(s) => r matches Ok(x) && x@ == s,
            Err(m) => r matches Err(x) && x@ == m,
        },
{
    let mut fd_stack: Vec<Vec<String>> = Vec::new();
    let mut code: Vec<String> = Vec::new();
    code.push(String::from_str("stack = []"));
    let mut store = builtins_code();
    let mut f_count: i32 = 0;
    let mut i: usize = 0;
    assert(lines_view(code@) =~= compile_start().code);
    assert(frames_view(fd_stack@) =~= Seq::<Seq<Seq<char>>>::empty());
    while i < ast.len()
        invariant
            i <= ast@.len(),
            !compile_panics(ast@),
            fd_stack@.len() == depth(ast@, i as int),
            f_count == binds(ast@, i as int),
            compile_from(
                CState {
                    frames: frames_view(fd_stack@),
                    code: lines_view(code@),
                    store: env_view(store),
                    count: f_count as nat,
                },
                ast@,
                i as int,
            ) == compile_from(compile_start(), ast@, 0),
        decreases ast@.len() - i,
    {
        let ghost st = CState {
            frames: frames_view(fd_stack@),
            code: lines_view(code@),
            store: env_view(store),
            count: f_count as nat,
        };
        let ghost old_code = code@;
        let ghost old_frames = fd_stack@;
        assert(binds(ast@, i + 1) <= binds(ast@, ast@.len() as int)) by {
            lemma_binds_monotone(ast@, i + 1, ast@.len() as int);
        }
        match &ast[i] {
            AstNode::S(sm) => match sm {
                StackMod::Arity(_, _) => {},
                StackMod::Apply => {
                    code.push(String::from_str("stack.pop()()"));
                    assert(lines_view(code@) =~= st.code.push("stack.pop()()"@));
                },
                StackMod::Id(id) => {
                    let key = Name::from_string(id);
                    proof {
                        lemma_env_view_get(store, key);
                    }
                    match store.get(&key) {
                        Some(res) => {
                            code.push(res.clone());
                            assert(lines_view(code@) =~= st.code.push(res@));
                        },
                        None => {
                            let mut msg = String::from_str("did not find identifier ");
                            msg.append(id.as_str());
                            msg.append(" in context");
                            return Err(msg);
                        },
                    }
                },
                StackMod::Quote(id) => {
                    let key = Name::from_string(id);
                    proof {
                        lemma_env_view_get(store, key);
                    }
                    match store.get(&key) {
                        Some(res) => {
                            let mut line = String::from_str("def quote():\n\t");
                            let ind = indent(res.as_str());
                            line.append(ind.as_str());
                            line.append("\n");
                            let ap = append("quote");
                            line.append(ap.as_str());
                            code.push(line);
                            assert(lines_view(code@) =~= st.code.push(
                                "def quote():\n\t"@ + indent_spec(res@) + "\n"@ + append_spec(
                                    "quote"@,
                                ),
                            ));
                        },
                        None => {
                            let mut msg = String::from_str("did not find identifier ");
                            msg.append(id.as_str());
                            msg.append(" in context");
                            return Err(msg);
                        },
                    }
                },
                StackMod::Bind(id) => {
                    let mut f_name = String::from_str("_");
                    let num = decimal(f_count as u32);
                    f_name.append(num.as_str());
                    f_name.append("_");
                    f_name.append(id.as_str());
                    f_count = f_count + 1;
                    let mut call = f_name.clone();
                    call.append("()");
                    let key = Name::from_string(id);
                    let ghost old_store = store;
                    store = store.insert(key, call);
                    proof {
                        lemma_env_view_remove(old_store, key);
                    }
                    let mut line = f_name;
                    line.append(" = stack.pop()");
                    code.push(line);
                    assert(lines_view(code@) =~= st.code.push(
                        bound_name_spec(st.count, id@) + " = stack.pop()"@,
                    ));
                },
                StackMod::Int(lit) => {
                    code.push(append(lit.as_str()));
                    assert(lines_view(code@) =~= st.code.push(append_spec(lit@)));
                },
            },
            AstNode::OpenFunc => {
                code.push(String::from_str("def fn():"));
                let mut frame: Vec<String> = Vec::new();
                std::mem::swap(&mut frame, &mut code);
                assert(lines_view(frame@) =~= st.code.push("def fn():"@));
                fd_stack.push(frame);
                assert(lines_view(code@) =~= Seq::<Seq<char>>::empty());
                assert(frames_view(fd_stack@) =~= st.frames.push(
                    st.code.push("def fn():"@),
                ));
            },
            AstNode::CloseFunc => {
                assert(depth(ast@, i as int) > 0);
                let inner = join(&code, "\n");
                let res = indent(inner.as_str());
                code = fd_stack.pop().unwrap();
                let mut line = String::from_str("\t");
                line.append(res.as_str());
                let ghost outer = code@;
                code.push(line);
                code.push(append("fn"));
                assert(frames_view(fd_stack@) =~= st.frames.drop_last());
                assert(lines_view(outer) == st.frames.last());
                assert(lines_view(code@) =~= st.frames.last().push(
                    "\t"@ + indent_spec(join_spec(st.code, "\n"@)),
                ).push(append_spec("fn"@)));
            },
        }
        i = i + 1;
    }
    let ghost last = lines_view(code@);
    code.push(String::from_str("print(stack)"));
    assert(lines_view(code@) =~= last.push("print(stack)"@));
    let out = join(&code, "\n");
    Ok(out)
}

pub proof fn lemma_binds_monotone(nodes: Seq<AstNode>, i: int, j: int)
    requires
        i <= j,
    ensures
        binds(nodes, i) <= binds(nodes, j),
    decreases j - i,
{
    if i < j {
        lemma_binds_monotone(nodes, i, j - 1);
    }
}

/// Whether compiling `ast` would meet a closing node outside any definition or
/// more naming nodes than an `i32` counts (where [`compile`] is not defined).
pub fn compile_would_panic(ast: &Vec<AstNode>) -> (r: bool)
    ensures
        r == compile_panics(ast@),
{
    let mut d: u64 = 0;
    let mut b: u64 = 0;
    let mut i: usize = 0;
    while i < ast.len()
        invariant
            i <= ast@.len(),
            d == depth(ast@, i as int),
            b == binds(ast@, i as int),
            b <= i,
            d <= i,
            forall|j: int| 0 <= j < i && #[trigger] ast@[j] is CloseFunc ==> depth(ast@, j) > 0,
        decreases ast@.len() - i,
    {
        match &ast[i] {
            AstNode::OpenFunc => {
                d = d + 1;
            },
            AstNode::CloseFunc => {
                if d == 0 {
                    return true;
                }
                d = d - 1;
            },
            AstNode::S(StackMod::Bind(_)) => {
                b = b + 1;
            },
            _ => {},
        }
        i = i + 1;
    }
    b > i32::MAX as u64
}

} // verus!
