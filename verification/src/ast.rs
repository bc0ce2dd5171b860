use vstd::prelude::*;
use vstd::string::{StrSliceExecFns, StringExecFns};

verus! {

/// One node of a parsed program: a stack operation, or the start or end of a
/// function definition.
#[derive(Debug, PartialEq, Eq)]
pub enum AstNode {
    S(StackMod),
    OpenFunc,
    CloseFunc,
}

/// A stack operation.
#[derive(Debug, PartialEq, Eq)]
pub enum StackMod {
    /// Applies the named function.
    Id(String),
    /// Pushes an integer literal, kept as written.
    Int(String),
    /// Asserts that the top of the stack is a function taking the first number
    /// of values and leaving the second.
    Arity(u32, u32),
    /// Pushes the named function itself.
    Quote(String),
    /// Pops a function and names it.
    Bind(String),
    /// Pops a function and applies it.
    Apply,
}

/// The characters of `s`, in order.
pub fn chars_of(s: &str) -> (r: Vec<char>)
    ensures
        r@ == s@,
{
    let mut v: Vec<char> = Vec::new();
    for c in it: s.chars()
        invariant
            it.seq() == s@,
            v@ == it.seq().take(it.index()),
    {
        v.push(c);
    }
    assert(v@ =~= s@);
    v
}

impl From<StackMod> for AstNode {
    fn from(value: StackMod) -> (r: AstNode) {
        AstNode::S(value)
    }
}

impl vstd::std_specs::convert::FromSpecImpl<StackMod> for AstNode {
    open spec fn obeys_from_spec() -> bool {
        true
    }

    open spec fn from_spec(value: StackMod) -> AstNode {
        AstNode::S(value)
    }
}

// ----------------------------------------------------------------------
// The grammar
// ----------------------------------------------------------------------

/// Why a source text is not a program.
#[derive(Debug, PartialEq, Eq, Structural, Clone, Copy)]
pub enum ParseError {
    /// A definition `[` is not closed.
    UnclosedDefinition,
    /// A `]` closes no definition.
    UnexpectedClose,
    /// A `$` is not followed by a name.
    MissingName,
    /// A character that starts no item.
    UnexpectedChar(char),
    /// An arity annotation is not of the form `(from to)`.
    MalformedArity,
    /// A number of an arity annotation does not fit in `u32`.
    ArityTooLarge,
}

/// A parsed item, with the texts it holds as character sequences.
pub enum Token {
    Open,
    Close,
    Id(Seq<char>),
    Int(Seq<char>),
    Arity(u32, u32),
    Quote(Seq<char>),
    Bind(Seq<char>),
    Apply,
}

/// The item a node stands for.
pub open spec fn node_token(n: AstNode) -> Token {
    match n {
        AstNode::OpenFunc => Token::Open,
        AstNode::CloseFunc => Token::Close,
        AstNode::S(sm) => match sm {
            StackMod::Id(s) => Token::Id(s@),
            StackMod::Int(s) => Token::Int(s@),
            StackMod::Arity(a, b) => Token::Arity(a, b),
            StackMod::Quote(s) => Token::Quote(s@),
            StackMod::Bind(s) => Token::Bind(s@),
            StackMod::Apply => Token::Apply,
        },
    }
}

/// The items the nodes stand for.
pub open spec fn nodes_tokens(v: Seq<AstNode>) -> Seq<Token> {
    v.map_values(|n: AstNode| node_token(n))
}

pub open spec fn is_space(c: char) -> bool {
    c == ' ' || c == '\t' || c == '\n' || c == '\r'
}

pub open spec fn is_digit(c: char) -> bool {
    '0' <= c <= '9'
}

/// The characters that end a name.
pub open spec fn is_delim(c: char) -> bool {
    c == '[' || c == ']' || c == '(' || c == ')' || c == '\'' || c == '$' || c == '!'
}

pub open spec fn is_name_char(c: char) -> bool {
    !is_space(c) && !is_delim(c)
}

/// Where the run of name characters starting at `i` ends.
pub open spec fn name_end(s: Seq<char>, i: int) -> int
    decreases s.len() - i,
{
    if 0 <= i < s.len() && is_name_char(s[i]) {
        name_end(s, i + 1)
    } else {
        i
    }
}

/// Where the run of digits starting at `i` ends.
pub open spec fn digits_end(s: Seq<char>, i: int) -> int
    decreases s.len() - i,
{
    if 0 <= i < s.len() && is_digit(s[i]) {
        digits_end(s, i + 1)
    } else {
        i
    }
}

/// Where the run of white space starting at `i` ends.
pub open spec fn spaces_end(s: Seq<char>, i: int) -> int
    decreases s.len() - i,
{
    if 0 <= i < s.len() && is_space(s[i]) {
        spaces_end(s, i + 1)
    } else {
        i
    }
}

pub proof fn lemma_runs_advance(s: Seq<char>, i: int)
    ensures
        name_end(s, i) >= i,
        digits_end(s, i) >= i,
        spaces_end(s, i) >= i,
        0 <= i <= s.len() ==> name_end(s, i) <= s.len() && digits_end(s, i) <= s.len()
            && spaces_end(s, i) <= s.len(),
    decreases s.len() - i,
{
    if 0 <= i < s.len() {
        lemma_runs_advance(s, i + 1);
    }
}

/// The number written by the decimal digits `d`.
pub open spec fn digits_value(d: Seq<char>) -> nat
    decreases d.len(),
{
    if d.len() == 0 {
        0
    } else {
        digits_value(d.drop_last()) * 10 + ((d.last() as nat) - ('0' as nat)) as nat
    }
}

/// The arity annotation starting with `(` at `i`: its two numbers (`None`
/// where one of them does not fit in `u32`) and where it ends.
pub open spec fn arity_spec(s: Seq<char>, i: int) -> Result<(Option<(u32, u32)>, int), ParseError> {
    let a0 = spaces_end(s, i + 1);
    let a1 = digits_end(s, a0);
    let b0 = spaces_end(s, a1);
    let b1 = digits_end(s, b0);
    let c0 = spaces_end(s, b1);
    if a1 == a0 || b0 == a1 || b1 == b0 || c0 >= s.len() || s[c0] != ')' {
        Err(ParseError::MalformedArity)
    } else if digits_value(s.subrange(a0, a1)) > u32::MAX || digits_value(s.subrange(b0, b1))
        > u32::MAX {
        Ok((None, c0 + 1))
    } else {
        Ok(
            (
                Some(
                    (digits_value(s.subrange(a0, a1)) as u32, digits_value(s.subrange(b0, b1)) as u32),
                ),
                c0 + 1,
            ),
        )
    }
}

/// Reading the items of `s` from `i`, with `depth` definitions open, the
/// items `acc` read so far, and `big` telling whether an arity number too large
/// for `u32` was met. The text is read to its end first: a syntax error
/// anywhere is reported before a number that is too large.
pub open spec fn scan(s: Seq<char>, i: int, depth: nat, acc: Seq<Token>, big: bool) -> Result<
    Seq<Token>,
    ParseError,
>
    decreases s.len() - i,
{
    if i < 0 || i >= s.len() {
        if depth != 0 {
            Err(ParseError::UnclosedDefinition)
        } else if big {
            Err(ParseError::ArityTooLarge)
        } else {
            Ok(acc)
        }
    } else {
        let c = s[i];
        proof {
            lemma_runs_advance(s, i);
            lemma_runs_advance(s, i + 1);
        }
        if is_space(c) {
            scan(s, i + 1, depth, acc, big)
        } else if c == '[' {
            scan(s, i + 1, depth + 1, acc.push(Token::Open), big)
        } else if c == ']' {
            if depth == 0 {
                Err(ParseError::UnexpectedClose)
            } else {
                scan(s, i + 1, (depth - 1) as nat, acc.push(Token::Close), big)
            }
        } else if c == '!' {
            scan(s, i + 1, depth, acc.push(Token::Apply), big)
        } else if c == '$' {
            let j = name_end(s, i + 1);
            if j == i + 1 {
                Err(ParseError::MissingName)
            } else {
                scan(s, j, depth, acc.push(Token::Bind(s.subrange(i + 1, j))), big)
            }
        } else if c == '\'' {
            let j = name_end(s, i + 1);
            scan(
                s,
                j,
                depth,
                acc.push(
                    Token::Quote(
                        if j == i + 1 {
                            "'"@
                        } else {
                            s.subrange(i + 1, j)
                        },
                    ),
                ),
                big,
            )
        } else if c == '(' {
            match arity_spec(s, i) {
                Err(e) => Err(e),
                Ok((a, next)) => if next <= i {
                    Err(ParseError::MalformedArity)
                } else {
                    match a {
                        Some((x, y)) => scan(s, next, depth, acc.push(Token::Arity(x, y)), big),
                        None => scan(s, next, depth, acc, true),
                    }
                },
            }
        } else if is_digit(c) {
            let j = digits_end(s, i);
            scan(s, j, depth, acc.push(Token::Int(s.subrange(i, j))), big)
        } else if is_name_char(c) {
            let j = name_end(s, i);
            scan(s, j, depth, acc.push(Token::Id(s.subrange(i, j))), big)
        } else {
            Err(ParseError::UnexpectedChar(c))
        }
    }
}

/// The items of a source text, or why it is not a program.
pub open spec fn parse_spec(source: Seq<char>) -> Result<Seq<Token>, ParseError> {
    scan(source, 0, 0, Seq::empty(), false)
}

/// Whether the source text is a program in every respect but an arity number
/// too large for `u32`.
pub open spec fn parse_aborts(source: Seq<char>) -> bool {
    parse_spec(source) == Err::<Seq<Token>, ParseError>(ParseError::ArityTooLarge)
}

// ----------------------------------------------------------------------
// The reader
// ----------------------------------------------------------------------

fn is_space_exec(c: char) -> (r: bool)
    ensures
        r == is_space(c),
{
    c == ' ' || c == '\t' || c == '\n' || c == '\r'
}

fn is_digit_exec(c: char) -> (r: bool)
    ensures
        r == is_digit(c),
{
    '0' <= c && c <= '9'
}

fn is_name_char_exec(c: char) -> (r: bool)
    ensures
        r == is_name_char(c),
{
    !is_space_exec(c) && !(c == '[' || c == ']' || c == '(' || c == ')' || c == '\'' || c == '$'
        || c == '!')
}

fn name_end_exec(s: &Vec<char>, i: usize) -> (r: usize)
    requires
        i <= s@.len(),
    ensures
        r == name_end(s@, i as int),
{
    let mut j = i;
    while j < s.len() && is_name_char_exec(s[j])
        invariant
            i <= j <= s@.len(),
            name_end(s@, j as int) == name_end(s@, i as int),
        decreases s@.len() - j,
    {
        j = j + 1;
    }
    j
}

fn digits_end_exec(s: &Vec<char>, i: usize) -> (r: usize)
    requires
        i <= s@.len(),
    ensures
        r == digits_end(s@, i as int),
{
    let mut j = i;
    while j < s.len() && is_digit_exec(s[j])
        invariant
            i <= j <= s@.len(),
            digits_end(s@, j as int) == digits_end(s@, i as int),
        decreases s@.len() - j,
    {
        j = j + 1;
    }
    j
}

fn spaces_end_exec(s: &Vec<char>, i: usize) -> (r: usize)
    requires
        i <= s@.len(),
    ensures
        r == spaces_end(s@, i as int),
{
    let mut j = i;
    while j < s.len() && is_space_exec(s[j])
        invariant
            i <= j <= s@.len(),
            spaces_end(s@, j as int) == spaces_end(s@, i as int),
        decreases s@.len() - j,
    {
        j = j + 1;
    }
    j
}

pub proof fn lemma_digits_value_grows(d: Seq<char>, k: int)
    requires
        0 <= k <= d.len(),
        forall|m: int| 0 <= m < d.len() ==> is_digit(#[trigger] d[m]),
    ensures
        digits_value(d.take(k)) <= digits_value(d),
    decreases d.len() - k,
{
    if k < d.len() {
        lemma_digits_value_grows(d, k + 1);
        assert(d.take(k + 1).drop_last() =~= d.take(k));
        assert(digits_value(d.take(k + 1)) == digits_value(d.take(k)) * 10 + ((d.take(k + 1).last() as nat) - ('0' as nat)) as nat);
    } else {
        assert(d.take(k) =~= d);
    }
}

/// The value of the digits `s[i..j]`, where it fits in `u32`.
fn digits_u32(s: &Vec<char>, i: usize, j: usize) -> (r: Option<u32>)
    requires
        i <= j <= s@.len(),
        forall|m: int| i <= m < j ==> is_digit(#[trigger] s@[m]),
    ensures
        match r {
            Some(v) => v == digits_value(s@.subrange(i as int, j as int)),
            None => digits_value(s@.subrange(i as int, j as int)) > u32::MAX,
        },
{
    let ghost d = s@.subrange(i as int, j as int);
    let mut v: u64 = 0;
    let mut k = i;
    while k < j
        invariant
            i <= k <= j <= s@.len(),
            d == s@.subrange(i as int, j as int),
            forall|m: int| i <= m < j ==> is_digit(#[trigger] s@[m]),
            v == digits_value(d.take(k - i)),
            v <= u32::MAX,
        decreases j - k,
    {
        assert(d.take(k - i + 1).drop_last() =~= d.take(k - i));
        assert(d.take(k - i + 1).last() == s@[k as int]);
        assert(is_digit(s@[k as int]));
        let digit = (s[k] as u32 - '0' as u32) as u64;
        let nv = v * 10 + digit;
        k = k + 1;
        if nv > u32::MAX as u64 {
            proof {
                assert forall|m: int| 0 <= m < d.len() implies is_digit(#[trigger] d[m]) by {
                    assert(d[m] == s@[i + m]);
                }
                lemma_digits_value_grows(d, k - i);
            }
            return None;
        }
        v = nv;
    }
    assert(d.take(j - i) =~= d);
    Some(v as u32)
}

fn arity_exec(s: &Vec<char>, i: usize) -> (r: Result<(Option<(u32, u32)>, usize), ParseError>)
    requires
        i < s.len(),
    ensures
        match arity_spec(s@, i as int) {
            Ok((a, next)) => r == Ok::<(Option<(u32, u32)>, usize), ParseError>(
                (a, next as usize),
            ) && 0 <= next <= s@.len(),
            Err(e) => r == Err::<(Option<(u32, u32)>, usize), ParseError>(e),
        },
{
    proof {
        lemma_runs_advance(s@, i + 1);
    }
    let a0 = spaces_end_exec(s, i + 1);
    proof {
        lemma_runs_advance(s@, a0 as int);
    }
    let a1 = digits_end_exec(s, a0);
    proof {
        lemma_runs_advance(s@, a1 as int);
    }
    let b0 = spaces_end_exec(s, a1);
    proof {
        lemma_runs_advance(s@, b0 as int);
    }
    let b1 = digits_end_exec(s, b0);
    proof {
        lemma_runs_advance(s@, b1 as int);
    }
    let c0 = spaces_end_exec(s, b1);
    if a1 == a0 || b0 == a1 || b1 == b0 || c0 >= s.len() || s[c0] != ')' {
        return Err(ParseError::MalformedArity);
    }
    proof {
        lemma_digits_run(s@, a0 as int);
        lemma_digits_run(s@, b0 as int);
    }
    let a = match digits_u32(s, a0, a1) {
        Some(a) => a,
        None => return Ok((None, c0 + 1)),
    };
    let b = match digits_u32(s, b0, b1) {
        Some(b) => b,
        None => return Ok((None, c0 + 1)),
    };
    Ok((Some((a, b)), c0 + 1))
}

pub proof fn lemma_digits_run(s: Seq<char>, i: int)
    requires
        0 <= i <= s.len(),
    ensures
        forall|m: int| i <= m < digits_end(s, i) ==> is_digit(#[trigger] s[m]),
    decreases s.len() - i,
{
    if i < s.len() && is_digit(s[i]) {
        lemma_digits_run(s, i + 1);
    }
}

/// Reads a source text and reports every outcome, including numbers too large
/// for an arity annotation.
pub fn parse_checked(source: &str) -> (r: Result<Vec<AstNode>, ParseError>)
    ensures
        match parse_spec(source@) {
            Ok(toks) => r matches Ok(v) && nodes_tokens(v@) == toks,
            Err(e) => r == Err::<Vec<AstNode>, ParseError>(e),
        },
{
    let s = chars_of(source);
    let n = s.len();
    let mut ast: Vec<AstNode> = Vec::new();
    let mut i: usize = 0;
    let mut depth: usize = 0;
    let mut big = false;
    assert(nodes_tokens(ast@) =~= Seq::<Token>::empty());
    while i < n
        invariant
            n == s@.len(),
            s@ == source@,
            i <= n,
            depth <= i,
            scan(s@, i as int, depth as nat, nodes_tokens(ast@), big) == parse_spec(source@),
        decreases n - i,
    {
        let ghost acc = nodes_tokens(ast@);
        proof {
            lemma_runs_advance(s@, i as int);
            lemma_runs_advance(s@, i + 1);
        }
        let c = s[i];
        if is_space_exec(c) {
            i = i + 1;
        } else if c == '[' {
            ast.push(AstNode::OpenFunc);
            assert(nodes_tokens(ast@) =~= acc.push(Token::Open));
            depth = depth + 1;
            i = i + 1;
        } else if c == ']' {
            if depth == 0 {
                return Err(ParseError::UnexpectedClose);
            }
            ast.push(AstNode::CloseFunc);
            assert(nodes_tokens(ast@) =~= acc.push(Token::Close));
            depth = depth - 1;
            i = i + 1;
        } else if c == '!' {
            ast.push(AstNode::S(StackMod::Apply));
            assert(nodes_tokens(ast@) =~= acc.push(Token::Apply));
            i = i + 1;
        } else if c == '$' {
            let j = name_end_exec(&s, i + 1);
            if j == i + 1 {
                return Err(ParseError::MissingName);
            }
            let name = String::from_str(source.substring_char(i + 1, j));
            ast.push(AstNode::S(StackMod::Bind(name)));
            assert(nodes_tokens(ast@) =~= acc.push(
                Token::Bind(s@.subrange(i + 1, j as int)),
            ));
            i = j;
        } else if c == '\'' {
            let j = name_end_exec(&s, i + 1);
            let name = if j == i + 1 {
                String::from_str("'")
            } else {
                String::from_str(source.substring_char(i + 1, j))
            };
            ast.push(AstNode::S(StackMod::Quote(name)));
            assert(nodes_tokens(ast@) =~= acc.push(
                Token::Quote(
                    if j == i + 1 {
                        "'"@
                    } else {
                        s@.subrange(i + 1, j as int)
                    },
                ),
            ));
            i = j;
        } else if c == '(' {
            match arity_exec(&s, i) {
                Err(e) => return Err(e),
                Ok((a, next)) => {
                    if next <= i {
                        return Err(ParseError::MalformedArity);
                    }
                    match a {
                        Some((x, y)) => {
                            ast.push(AstNode::S(StackMod::Arity(x, y)));
                            assert(nodes_tokens(ast@) =~= acc.push(Token::Arity(x, y)));
                        },
                        None => {
                            big = true;
                        },
                    }
                    i = next;
                },
            }
        } else if is_digit_exec(c) {
            let j = digits_end_exec(&s, i);
            let text = String::from_str(source.substring_char(i, j));
            ast.push(AstNode::S(StackMod::Int(text)));
            assert(nodes_tokens(ast@) =~= acc.push(Token::Int(s@.subrange(i as int, j as int))));
            i = j;
        } else if is_name_char_exec(c) {
            let j = name_end_exec(&s, i);
            let text = String::from_str(source.substring_char(i, j));
            ast.push(AstNode::S(StackMod::Id(text)));
            assert(nodes_tokens(ast@) =~= acc.push(Token::Id(s@.subrange(i as int, j as int))));
            i = j;
        } else {
            return Err(ParseError::UnexpectedChar(c));
        }
    }
    if depth != 0 {
        return Err(ParseError::UnclosedDefinition);
    }
    if big {
        return Err(ParseError::ArityTooLarge);
    }
    Ok(ast)
}

/// Reads a source text: the nodes of the program, a `[ ... ]` definition
/// becoming an opening node, its nodes and a closing node.
pub fn parse(source: &str) -> (r: Result<Vec<AstNode>, ParseError>)
    requires
        !parse_aborts(source@),
    ensures
        match parse_spec(source@) {
            Ok(toks) => r matches Ok(v) && nodes_tokens(v@) == toks,
            Err(e) => r == Err::<Vec<AstNode>, ParseError>(e),
        },
{
    parse_checked(source)
}

/// The reader of source texts.
pub struct NagaParser;

impl NagaParser {
    /// Reads a source text; see [`parse`].
    pub fn parse(source: &str) -> (r: Result<Vec<AstNode>, ParseError>)
        requires
            !parse_aborts(source@),
        ensures
            match parse_spec(source@) {
                Ok(toks) => r matches Ok(v) && nodes_tokens(v@) == toks,
                Err(e) => r == Err::<Vec<AstNode>, ParseError>(e),
            },
    {
        parse_checked(source)
    }
}

} // verus!

