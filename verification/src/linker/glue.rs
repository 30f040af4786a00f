//! Code that binds one function of a module to a linker.

use proc_macro2::{Ident, TokenStream};
use vstd::prelude::*;
use vstd::string::StringExecFns;

use crate::linker::module::{
    Asyncness, FuncSettings, FuncSettingsView, FuncView, InterfaceFunc, WasmType,
};
use crate::linker::tokens::{
    all, braces, ident_name, in_identifier, is_ascii_identifier, no_tokens, parens, path_tokens,
    punct, push_all, push_braces, push_ident, push_parens, push_path, push_punct, push_text,
    push_word, stream_tokens, tokens_of, Token,
};
use crate::linker::tokens::Piece::{Joint, Punct, Text, Word};
use crate::text::{decimal, digit, push_decimal};

verus! {

/// The words of the templates are identifiers and keywords.
proof fn lemma_words()
    ensures
        is_ascii_identifier("Box"@),
        is_ascii_identifier("Caller"@),
        is_ascii_identifier("Extern"@),
        is_ascii_identifier("Memory"@),
        is_ascii_identifier("Ok"@),
        is_ascii_identifier("Result"@),
        is_ascii_identifier("SharedMemory"@),
        is_ascii_identifier("Some"@),
        is_ascii_identifier("T"@),
        is_ascii_identifier("WasmtimeGuestMemory"@),
        is_ascii_identifier("_"@),
        is_ascii_identifier("anyhow"@),
        is_ascii_identifier("async"@),
        is_ascii_identifier("await"@),
        is_ascii_identifier("bail"@),
        is_ascii_identifier("caller"@),
        is_ascii_identifier("ctx"@),
        is_ascii_identifier("data"@),
        is_ascii_identifier("data_and_store_mut"@),
        is_ascii_identifier("data_mut"@),
        is_ascii_identifier("export"@),
        is_ascii_identifier("from"@),
        is_ascii_identifier("get_cx"@),
        is_ascii_identifier("get_export"@),
        is_ascii_identifier("let"@),
        is_ascii_identifier("linker"@),
        is_ascii_identifier("m"@),
        is_ascii_identifier("match"@),
        is_ascii_identifier("mem"@),
        is_ascii_identifier("move"@),
        is_ascii_identifier("mut"@),
        is_ascii_identifier("new"@),
        is_ascii_identifier("result"@),
        is_ascii_identifier("run_in_dummy_executor"@),
        is_ascii_identifier("shared"@),
        is_ascii_identifier("wasmtime"@),
        is_ascii_identifier("wasmtime_crate"@),
        is_ascii_identifier("wiggle"@),
{
    reveal_strlit("Box");
    reveal_strlit("Caller");
    reveal_strlit("Extern");
    reveal_strlit("Memory");
    reveal_strlit("Ok");
    reveal_strlit("Result");
    reveal_strlit("SharedMemory");
    reveal_strlit("Some");
    reveal_strlit("T");
    reveal_strlit("WasmtimeGuestMemory");
    reveal_strlit("_");
    reveal_strlit("anyhow");
    reveal_strlit("async");
    reveal_strlit("await");
    reveal_strlit("bail");
    reveal_strlit("caller");
    reveal_strlit("ctx");
    reveal_strlit("data");
    reveal_strlit("data_and_store_mut");
    reveal_strlit("data_mut");
    reveal_strlit("export");
    reveal_strlit("from");
    reveal_strlit("get_cx");
    reveal_strlit("get_export");
    reveal_strlit("let");
    reveal_strlit("linker");
    reveal_strlit("m");
    reveal_strlit("match");
    reveal_strlit("mem");
    reveal_strlit("move");
    reveal_strlit("mut");
    reveal_strlit("new");
    reveal_strlit("result");
    reveal_strlit("run_in_dummy_executor");
    reveal_strlit("shared");
    reveal_strlit("wasmtime");
    reveal_strlit("wasmtime_crate");
    reveal_strlit("wiggle");
}

/// What to do where the caller exports a memory of its own.
pub open spec fn memory_arm() -> Seq<Token> {
    tokens_of(seq![Word("Some")]) + parens(
        tokens_of(seq![
            Word("wiggle"), Joint(':'), Punct(':'), Word("wasmtime_crate"), Joint(':'), Punct(':'),
            Word("Extern"), Joint(':'), Punct(':'), Word("Memory"),
        ]) + parens(tokens_of(seq![Word("m")])),
    ) + tokens_of(seq![Joint('='), Punct('>')]) + braces(
        tokens_of(seq![Word("let")]) + parens(tokens_of(seq![
            Word("mem"), Punct(','), Word("ctx"),
        ])) + tokens_of(
            seq![Punct('='), Word("m"), Punct('.'), Word("data_and_store_mut")],
        ) + parens(tokens_of(seq![Punct('&'), Word("mut"), Word("caller")])) + tokens_of(seq![
            Punct(';'), Word("let"), Word("ctx"), Punct('='), Word("get_cx"),
        ]) + parens(
            tokens_of(seq![Word("ctx")]),
        ) + tokens_of(seq![Punct(';')]) + parens(
            tokens_of(seq![
                Word("wiggle"), Joint(':'), Punct(':'), Word("wasmtime"), Joint(':'), Punct(':'),
                Word("WasmtimeGuestMemory"), Joint(':'), Punct(':'), Word("new"),
            ]) + parens(
                tokens_of(seq![Word("mem")]),
            ) + tokens_of(seq![Punct(','), Word("ctx")]),
        ),
    )
}

/// What to do where the caller exports a memory that it shares.
pub open spec fn shared_memory_arm() -> Seq<Token> {
    tokens_of(seq![Word("Some")]) + parens(
        tokens_of(seq![
            Word("wiggle"), Joint(':'), Punct(':'), Word("wasmtime_crate"), Joint(':'), Punct(':'),
            Word("Extern"), Joint(':'), Punct(':'), Word("SharedMemory"),
        ]) + parens(
            tokens_of(seq![Word("m")]),
        ),
    ) + tokens_of(seq![Joint('='), Punct('>')]) + braces(
        tokens_of(seq![Word("let"), Word("ctx"), Punct('='), Word("get_cx")]) + parens(
            tokens_of(seq![Word("caller"), Punct('.'), Word("data_mut")]) + parens(seq![]),
        ) + tokens_of(seq![Punct(';')]) + parens(
            tokens_of(seq![
                Word("wiggle"), Joint(':'), Punct(':'), Word("wasmtime"), Joint(':'), Punct(':'),
                Word("WasmtimeGuestMemory"), Joint(':'), Punct(':'), Word("shared"),
            ]) + parens(
                tokens_of(seq![Word("m"), Punct('.'), Word("data")]) + parens(seq![]),
            ) + tokens_of(seq![Punct(','), Word("ctx")]),
        ),
    )
}

/// What to do where the caller exports no memory.
pub open spec fn no_memory_arm() -> Seq<Token> {
    tokens_of(seq![
        Word("_"), Joint('='), Punct('>'), Word("wiggle"), Joint(':'), Punct(':'), Word("anyhow"),
        Joint(':'), Punct(':'), Word("bail"), Punct('!'),
    ]) + parens(
        tokens_of(seq![Text("missing required memory export")]),
    ) + tokens_of(seq![Punct(',')])
}

/// How a bound function finds the memory of its caller, and the context.
#[verifier::opaque]
pub open spec fn memory_lookup() -> Seq<Token> {
    tokens_of(seq![
        Word("let"), Word("export"), Punct('='), Word("caller"), Punct('.'), Word("get_export"),
    ]) + parens(
        tokens_of(seq![Text("memory")]),
    ) + tokens_of(seq![Punct(';'), Word("let")]) + parens(tokens_of(seq![
        Word("mem"), Punct(','), Word("ctx"),
    ])) + tokens_of(
        seq![Punct('='), Word("match"), Punct('&'), Word("export")],
    ) + braces(memory_arm() + shared_memory_arm() + no_memory_arm()) + tokens_of(seq![Punct(';')])
}

#[verifier::rlimit(40)]
fn push_memory_arm(tokens: &mut TokenStream)
    ensures
        stream_tokens(*final(tokens)) == stream_tokens(*old(tokens)) + memory_arm(),
{
    proof {
        lemma_words();
    }
    let mut pattern = all(vec![
        Word("wiggle"), Joint(':'), Punct(':'), Word("wasmtime_crate"), Joint(':'), Punct(':'),
        Word("Extern"), Joint(':'), Punct(':'), Word("Memory"),
    ]);
    push_parens(&mut pattern, all(vec![Word("m")]));
    let mut memory = all(vec![
        Word("wiggle"), Joint(':'), Punct(':'), Word("wasmtime"), Joint(':'), Punct(':'),
        Word("WasmtimeGuestMemory"), Joint(':'), Punct(':'), Word("new"),
    ]);
    push_parens(&mut memory, all(vec![Word("mem")]));
    push_all(&mut memory, vec![Punct(','), Word("ctx")]);
    let mut block = all(vec![Word("let")]);
    push_parens(&mut block, all(vec![Word("mem"), Punct(','), Word("ctx")]));
    push_all(&mut block, vec![Punct('='), Word("m"), Punct('.'), Word("data_and_store_mut")]);
    push_parens(&mut block, all(vec![Punct('&'), Word("mut"), Word("caller")]));
    push_all(&mut block, vec![Punct(';'), Word("let"), Word("ctx"), Punct('='), Word("get_cx")]);
    push_parens(&mut block, all(vec![Word("ctx")]));
    push_all(&mut block, vec![Punct(';')]);
    push_parens(&mut block, memory);
    push_all(tokens, vec![Word("Some")]);
    push_parens(tokens, pattern);
    push_all(tokens, vec![Joint('='), Punct('>')]);
    push_braces(tokens, block);
}

#[verifier::rlimit(40)]
fn push_shared_memory_arm(tokens: &mut TokenStream)
    ensures
        stream_tokens(*final(tokens)) == stream_tokens(*old(tokens)) + shared_memory_arm(),
{
    proof {
        lemma_words();
    }
    let mut pattern = all(vec![
        Word("wiggle"), Joint(':'), Punct(':'), Word("wasmtime_crate"), Joint(':'), Punct(':'),
        Word("Extern"), Joint(':'), Punct(':'), Word("SharedMemory"),
    ]);
    push_parens(&mut pattern, all(vec![Word("m")]));
    let mut data = all(vec![Word("m"), Punct('.'), Word("data")]);
    push_parens(&mut data, no_tokens());
    let mut memory = all(vec![
        Word("wiggle"), Joint(':'), Punct(':'), Word("wasmtime"), Joint(':'), Punct(':'),
        Word("WasmtimeGuestMemory"), Joint(':'), Punct(':'), Word("shared"),
    ]);
    push_parens(&mut memory, data);
    push_all(&mut memory, vec![Punct(','), Word("ctx")]);
    let mut state = all(vec![Word("caller"), Punct('.'), Word("data_mut")]);
    push_parens(&mut state, no_tokens());
    let mut block = all(vec![Word("let"), Word("ctx"), Punct('='), Word("get_cx")]);
    push_parens(&mut block, state);
    push_all(&mut block, vec![Punct(';')]);
    push_parens(&mut block, memory);
    push_all(tokens, vec![Word("Some")]);
    push_parens(tokens, pattern);
    push_all(tokens, vec![Joint('='), Punct('>')]);
    push_braces(tokens, block);
}

fn push_no_memory_arm(tokens: &mut TokenStream)
    ensures
        stream_tokens(*final(tokens)) == stream_tokens(*old(tokens)) + no_memory_arm(),
{
    proof {
        lemma_words();
    }
    push_all(tokens, vec![
        Word("_"), Joint('='), Punct('>'), Word("wiggle"), Joint(':'), Punct(':'), Word("anyhow"),
        Joint(':'), Punct(':'), Word("bail"), Punct('!'),
    ]);
    push_parens(tokens, all(vec![Text("missing required memory export")]));
    push_all(tokens, vec![Punct(',')]);
}

#[verifier::rlimit(40)]
fn push_memory_lookup(tokens: &mut TokenStream)
    ensures
        stream_tokens(*final(tokens)) == stream_tokens(*old(tokens)) + memory_lookup(),
{
    proof {
        reveal(memory_lookup);
        lemma_words();
    }
    let mut arms = no_tokens();
    push_memory_arm(&mut arms);
    push_shared_memory_arm(&mut arms);
    push_no_memory_arm(&mut arms);
    push_all(tokens, vec![
        Word("let"), Word("export"), Punct('='), Word("caller"), Punct('.'), Word("get_export"),
    ]);
    push_parens(tokens, all(vec![Text("memory")]));
    push_all(tokens, vec![Punct(';'), Word("let")]);
    push_parens(tokens, all(vec![Word("mem"), Punct(','), Word("ctx")]));
    push_all(tokens, vec![Punct('='), Word("match"), Punct('&'), Word("export")]);
    push_braces(tokens, arms);
    push_all(tokens, vec![Punct(';')]);
}

/// The digits of a numeral may stand in an identifier.
proof fn lemma_decimal(n: nat)
    ensures
        forall|i: int| 0 <= i < decimal(n).len() ==> in_identifier(#[trigger] decimal(n)[i]),
    decreases n,
{
    let last = digit(n % 10);
    assert('0' <= last <= '9');
    if n < 10 {
        assert(decimal(n) =~= seq![last]);
    } else {
        let front = decimal(n / 10);
        lemma_decimal(n / 10);
        assert(decimal(n) == front.push(last));
        assert forall|i: int| 0 <= i < decimal(n).len() implies in_identifier(
            #[trigger] decimal(n)[i],
        ) by {
            if i < front.len() {
                assert(decimal(n)[i] == front[i]);
            }
        }
    }
}

/// An identifier with more characters of identifiers after it is an identifier.
proof fn lemma_longer_identifier(name: Seq<char>, more: Seq<char>)
    requires
        is_ascii_identifier(name),
        forall|i: int| 0 <= i < more.len() ==> in_identifier(#[trigger] more[i]),
    ensures
        is_ascii_identifier(name + more),
{
    let longer = name + more;
    assert forall|i: int| 0 <= i < longer.len() implies in_identifier(#[trigger] longer[i]) by {
        if i >= name.len() {
            assert(longer[i] == more[i - name.len()]);
        }
    }
}

/// The name of the `i`th argument of a bound function.
pub open spec fn arg_name(i: nat) -> Seq<char> {
    "arg"@ + decimal(i)
}

fn name_of_arg(i: usize) -> (name: String)
    ensures
        name@ == arg_name(i as nat),
        is_ascii_identifier(name@),
{
    let mut name = String::from("arg");
    push_decimal(&mut name, i as u64);
    proof {
        reveal_strlit("arg");
        lemma_decimal(i as nat);
        lemma_longer_identifier("arg"@, decimal(i as nat));
    }
    name
}

/// The first `n` arguments, each after a comma.
pub open spec fn arg_uses(n: nat) -> Seq<Token>
    decreases n,
{
    if n == 0 {
        seq![]
    } else {
        arg_uses((n - 1) as nat) + seq![punct(','), Token::Word(arg_name((n - 1) as nat))]
    }
}

fn push_arg_uses(tokens: &mut TokenStream, n: usize)
    ensures
        stream_tokens(*final(tokens)) == stream_tokens(*old(tokens)) + arg_uses(n as nat),
{
    assert(stream_tokens(*tokens) =~= stream_tokens(*old(tokens)) + arg_uses(0));
    for i in 0..n
        invariant
            stream_tokens(*tokens) == stream_tokens(*old(tokens)) + arg_uses(i as nat),
    {
        push_punct(tokens, ',');
        push_word(tokens, name_of_arg(i).as_str());
        assert(stream_tokens(*tokens) =~= stream_tokens(*old(tokens)) + arg_uses((i + 1) as nat));
    }
}

/// The arguments with their types, each after a comma.
pub open spec fn arg_decls(params: Seq<WasmType>) -> Seq<Token>
    decreases params.len(),
{
    if params.len() == 0 {
        seq![]
    } else {
        arg_decls(params.drop_last()) + seq![
            punct(','),
            Token::Word(arg_name((params.len() - 1) as nat)),
            punct(':'),
            Token::Word(params.last().spec_name()),
        ]
    }
}

fn push_type(tokens: &mut TokenStream, ty: WasmType)
    ensures
        stream_tokens(*final(tokens)) == stream_tokens(*old(tokens)).push(
            Token::Word(ty.spec_name()),
        ),
{
    proof {
        reveal_strlit("i32");
        reveal_strlit("i64");
        reveal_strlit("f32");
        reveal_strlit("f64");
    }
    push_word(tokens, ty.name());
}

fn push_arg_decls(tokens: &mut TokenStream, params: &Vec<WasmType>)
    ensures
        stream_tokens(*final(tokens)) == stream_tokens(*old(tokens)) + arg_decls(params@),
{
    assert(stream_tokens(*tokens) =~= stream_tokens(*old(tokens)) + arg_decls(params@.take(0)));
    for i in 0..params.len()
        invariant
            stream_tokens(*tokens) == stream_tokens(*old(tokens)) + arg_decls(
                params@.take(i as int),
            ),
    {
        push_punct(tokens, ',');
        push_word(tokens, name_of_arg(i).as_str());
        push_punct(tokens, ':');
        push_type(tokens, params[i]);
        proof {
            let seen = params@.take(i + 1);
            assert(seen.drop_last() =~= params@.take(i as int));
            assert(stream_tokens(*tokens) =~= stream_tokens(*old(tokens)) + arg_decls(seen));
        }
    }
    assert(params@.take(params.len() as int) =~= params@);
}

/// What a bound function returns.
pub open spec fn return_type(results: Seq<WasmType>) -> Seq<Token> {
    if results.len() == 0 {
        parens(seq![])
    } else {
        seq![Token::Word(results[0].spec_name())]
    }
}

fn push_return_type(tokens: &mut TokenStream, results: &Vec<WasmType>)
    ensures
        stream_tokens(*final(tokens)) == stream_tokens(*old(tokens)) + return_type(results@),
{
    if results.len() == 0 {
        push_parens(tokens, no_tokens());
    } else {
        push_type(tokens, results[0]);
    }
}

/// An item of the Rust module of an interface module: with the path to that module, if there is
/// one.
pub open spec fn qualified(
    target: Option<Seq<Token>>,
    module_ident: Seq<char>,
    name: Seq<char>,
) -> Seq<Token> {
    match target {
        Some(path) => {
            path + tokens_of(seq![
                Joint(':'), Punct(':'),
            ]) + seq![Token::Word(module_ident)] + tokens_of(
                seq![Joint(':'), Punct(':')],
            ) + seq![Token::Word(name)]
        },
        None => seq![Token::Word(name)],
    }
}

/// The tokens of a path, if there is one.
pub open spec fn target_tokens(target_path: Option<&syn::Path>) -> Option<Seq<Token>> {
    match target_path {
        Some(path) => Some(path_tokens(*path)),
        None => None,
    }
}

pub(crate) fn push_qualified(
    tokens: &mut TokenStream,
    target_path: Option<&syn::Path>,
    module_ident: &Ident,
    name: &Ident,
)
    ensures
        stream_tokens(*final(tokens)) == stream_tokens(*old(tokens)) + qualified(
            target_tokens(target_path),
            ident_name(*module_ident),
            ident_name(*name),
        ),
{
    match target_path {
        Some(path) => {
            push_path(tokens, path);
            push_all(tokens, vec![Joint(':'), Punct(':')]);
            push_ident(tokens, module_ident);
            push_all(tokens, vec![Joint(':'), Punct(':')]);
            push_ident(tokens, name);
        },
        None => {
            push_ident(tokens, name);
        },
    }
}

/// How what a function gives is waited for.
pub open spec fn awaited(asyncness: Asyncness) -> Seq<Token> {
    if asyncness == Asyncness::Sync {
        seq![]
    } else {
        tokens_of(seq![Punct('.'), Word("await")])
    }
}

/// The call of the function that implements `func`, on the context and the memory.
pub open spec fn abi_call(
    target: Option<Seq<Token>>,
    module_ident: Seq<char>,
    func: FuncView,
    settings: FuncSettingsView,
) -> Seq<Token> {
    qualified(target, module_ident, settings.ident) + parens(
        tokens_of(seq![
            Word("ctx"), Punct(','), Punct('&'), Word("mem"),
        ]) + arg_uses(func.params.len()),
    ) + awaited(settings.asyncness) + tokens_of(seq![Punct('?')])
}

/// What a bound function does.
#[verifier::opaque]
pub open spec fn body(
    target: Option<Seq<Token>>,
    module_ident: Seq<char>,
    func: FuncView,
    settings: FuncSettingsView,
) -> Seq<Token> {
    memory_lookup() + tokens_of(seq![Word("Ok")]) + parens(
        tokens_of(seq![Punct('<')]) + return_type(func.results) + tokens_of(seq![
            Punct('>'), Joint(':'), Punct(':'), Word("from"),
        ]) + parens(
            abi_call(target, module_ident, func, settings),
        ),
    )
}

#[verifier::rlimit(40)]
fn body_of(
    target_path: Option<&syn::Path>,
    module_ident: &Ident,
    func: &InterfaceFunc,
    settings: &FuncSettings,
) -> (tokens: TokenStream)
    ensures
        stream_tokens(tokens) == body(
            target_tokens(target_path),
            ident_name(*module_ident),
            func@,
            settings@,
        ),
{
    proof {
        reveal(body);
        lemma_words();
    }
    let mut args = all(vec![Word("ctx"), Punct(','), Punct('&'), Word("mem")]);
    push_arg_uses(&mut args, func.params.len());
    let mut call = no_tokens();
    push_qualified(&mut call, target_path, module_ident, &settings.ident);
    push_parens(&mut call, args);
    if !settings.asyncness.is_sync() {
        push_all(&mut call, vec![Punct('.'), Word("await")]);
    }
    push_all(&mut call, vec![Punct('?')]);
    assert(stream_tokens(call) =~= abi_call(
        target_tokens(target_path),
        ident_name(*module_ident),
        func@,
        settings@,
    ));
    let mut result = all(vec![Punct('<')]);
    push_return_type(&mut result, &func.results);
    push_all(&mut result, vec![Punct('>'), Joint(':'), Punct(':'), Word("from")]);
    push_parens(&mut result, call);
    let mut tokens = no_tokens();
    push_memory_lookup(&mut tokens);
    push_all(&mut tokens, vec![Word("Ok")]);
    push_parens(&mut tokens, result);
    tokens
}

/// The name of the linker's function that binds a function with `n` arguments.
pub open spec fn wrapper_name(asyncness: Asyncness, n: nat) -> Seq<char> {
    if asyncness == Asyncness::Async {
        "func_wrap"@ + decimal(n) + "_async"@
    } else {
        "func_wrap"@
    }
}

fn name_of_wrapper(asyncness: Asyncness, n: usize) -> (name: String)
    ensures
        name@ == wrapper_name(asyncness, n as nat),
        is_ascii_identifier(name@),
{
    let mut name = String::from("func_wrap");
    proof {
        reveal_strlit("func_wrap");
    }
    if let Asyncness::Async = asyncness {
        push_decimal(&mut name, n as u64);
        name.append("_async");
        proof {
            reveal_strlit("_async");
            lemma_decimal(n as nat);
            lemma_longer_identifier("func_wrap"@, decimal(n as nat));
            lemma_longer_identifier("func_wrap"@ + decimal(n as nat), "_async"@);
        }
    }
    name
}

/// The parameters of a bound function.
pub open spec fn closure_head(params: Seq<WasmType>) -> Seq<Token> {
    tokens_of(
        seq![
            Word("move"), Punct('|'), Word("mut"), Word("caller"), Punct(':'), Word("wiggle"),
            Joint(':'), Punct(':'), Word("wasmtime_crate"), Joint(':'), Punct(':'), Word("Caller"),
            Punct('<'), Joint('\''), Word("_"), Punct(','), Word("T"), Punct('>'),
        ],
    ) + arg_decls(params) + tokens_of(seq![Punct('|')])
}

/// The result type of a bound function that is not asynchronous.
pub open spec fn closure_result(results: Seq<WasmType>) -> Seq<Token> {
    tokens_of(seq![
        Joint('-'), Punct('>'), Word("wiggle"), Joint(':'), Punct(':'), Word("anyhow"), Joint(':'),
        Punct(':'), Word("Result"), Punct('<'),
    ]) + return_type(results) + tokens_of(
        seq![Punct('>')],
    )
}

/// What an asynchronous function does: it hands out a future that does the work.
pub open spec fn async_block(body: Seq<Token>) -> Seq<Token> {
    braces(
        tokens_of(seq![
            Word("Box"), Joint(':'), Punct(':'), Word("new"),
        ]) + parens(tokens_of(seq![Word("async"), Word("move")]) + braces(body)),
    )
}

/// What a blocking function does: it waits for a future that does the work.
pub open spec fn blocking_block(body: Seq<Token>) -> Seq<Token> {
    braces(
        tokens_of(seq![
            Word("let"), Word("result"), Punct('='), Word("async"),
        ]) + braces(body) + tokens_of(
            seq![Punct(';'), Word("wiggle"), Joint(':'), Punct(':'), Word("run_in_dummy_executor")],
        ) + parens(tokens_of(seq![Word("result")])) + tokens_of(seq![Punct('?')]),
    )
}

/// A bound function: what it takes and what it does.
#[verifier::opaque]
pub open spec fn closure(
    target: Option<Seq<Token>>,
    module_ident: Seq<char>,
    func: FuncView,
    settings: FuncSettingsView,
) -> Seq<Token> {
    let body = body(target, module_ident, func, settings);
    closure_head(func.params) + match settings.asyncness {
        Asyncness::Async => async_block(body),
        Asyncness::Blocking => closure_result(func.results) + blocking_block(body),
        Asyncness::Sync => closure_result(func.results) + braces(body),
    }
}

/// The statement that binds one function: under the names of the module and the function, what
/// runs when it is called.
#[verifier::opaque]
pub open spec fn binding(
    module_name: Seq<char>,
    target: Option<Seq<Token>>,
    module_ident: Seq<char>,
    func: FuncView,
    settings: FuncSettingsView,
) -> Seq<Token> {
    tokens_of(seq![Word("linker"), Punct('.')]) + seq![
        Token::Word(wrapper_name(settings.asyncness, func.params.len())),
    ] + parens(
        seq![Token::Text(module_name), punct(','), Token::Text(func.name), punct(',')]
            + closure(target, module_ident, func, settings) + tokens_of(seq![Punct(',')]),
    ) + tokens_of(seq![Punct('?'), Punct(';')])
}

fn push_closure_head(tokens: &mut TokenStream, params: &Vec<WasmType>)
    ensures
        stream_tokens(*final(tokens)) == stream_tokens(*old(tokens)) + closure_head(params@),
{
    proof {
        lemma_words();
    }
    push_all(
        tokens,
        vec![
            Word("move"), Punct('|'), Word("mut"), Word("caller"), Punct(':'), Word("wiggle"),
            Joint(':'), Punct(':'), Word("wasmtime_crate"), Joint(':'), Punct(':'), Word("Caller"),
            Punct('<'), Joint('\''), Word("_"), Punct(','), Word("T"), Punct('>'),
        ],
    );
    push_arg_decls(tokens, params);
    push_all(tokens, vec![Punct('|')]);
}

fn push_closure_result(tokens: &mut TokenStream, results: &Vec<WasmType>)
    ensures
        stream_tokens(*final(tokens)) == stream_tokens(*old(tokens)) + closure_result(results@),
{
    proof {
        lemma_words();
    }
    push_all(tokens, vec![
        Joint('-'), Punct('>'), Word("wiggle"), Joint(':'), Punct(':'), Word("anyhow"), Joint(':'),
        Punct(':'), Word("Result"), Punct('<'),
    ]);
    push_return_type(tokens, results);
    push_all(tokens, vec![Punct('>')]);
}

/// Three lists of tokens, one after the other.
pub proof fn lemma_regroup(a: Seq<Token>, b: Seq<Token>, c: Seq<Token>)
    ensures
        (a + b) + c == a + (b + c),
{
    assert((a + b) + c =~= a + (b + c));
}

fn push_async_block(tokens: &mut TokenStream, body: TokenStream)
    ensures
        stream_tokens(*final(tokens)) == stream_tokens(*old(tokens)) + async_block(
            stream_tokens(body),
        ),
{
    proof {
        lemma_words();
    }
    let mut future = all(vec![Word("async"), Word("move")]);
    push_braces(&mut future, body);
    let mut block = all(vec![Word("Box"), Joint(':'), Punct(':'), Word("new")]);
    push_parens(&mut block, future);
    push_braces(tokens, block);
}

fn push_blocking_block(tokens: &mut TokenStream, body: TokenStream)
    ensures
        stream_tokens(*final(tokens)) == stream_tokens(*old(tokens)) + blocking_block(
            stream_tokens(body),
        ),
{
    proof {
        lemma_words();
    }
    let mut block = all(vec![Word("let"), Word("result"), Punct('='), Word("async")]);
    push_braces(&mut block, body);
    push_all(&mut block, vec![
        Punct(';'), Word("wiggle"), Joint(':'), Punct(':'), Word("run_in_dummy_executor"),
    ]);
    push_parens(&mut block, all(vec![Word("result")]));
    push_all(&mut block, vec![Punct('?')]);
    push_braces(tokens, block);
}

#[verifier::rlimit(40)]
fn push_closure(
    tokens: &mut TokenStream,
    target_path: Option<&syn::Path>,
    module_ident: &Ident,
    func: &InterfaceFunc,
    settings: &FuncSettings,
)
    ensures
        stream_tokens(*final(tokens)) == stream_tokens(*old(tokens)) + closure(
            target_tokens(target_path),
            ident_name(*module_ident),
            func@,
            settings@,
        ),
{
    proof {
        reveal(closure);
    }
    let body = body_of(target_path, module_ident, func, settings);
    let ghost (before, inner) = (stream_tokens(*tokens), stream_tokens(body));
    let ghost head = closure_head(func.params@);
    let ghost result = closure_result(func.results@);
    push_closure_head(tokens, &func.params);
    match settings.asyncness {
        Asyncness::Async => {
            push_async_block(tokens, body);
            proof {
                lemma_regroup(before, head, async_block(inner));
            }
        },
        Asyncness::Blocking => {
            push_closure_result(tokens, &func.results);
            push_blocking_block(tokens, body);
            proof {
                lemma_regroup(before + head, result, blocking_block(inner));
                lemma_regroup(before, head, result + blocking_block(inner));
            }
        },
        Asyncness::Sync => {
            push_closure_result(tokens, &func.results);
            push_braces(tokens, body);
            proof {
                lemma_regroup(before + head, result, braces(inner));
                lemma_regroup(before, head, result + braces(inner));
            }
        },
    }
}

/// Generate the statement that binds one function.
#[verifier::rlimit(40)]
pub fn generate_func(
    module_name: &str,
    func: &InterfaceFunc,
    target_path: Option<&syn::Path>,
    module_ident: &Ident,
    settings: &FuncSettings,
) -> (tokens: TokenStream)
    requires
        func.results.len() <= 1,
    ensures
        stream_tokens(tokens) == binding(
            module_name@,
            target_tokens(target_path),
            ident_name(*module_ident),
            func@,
            settings@,
        ),
{
    proof {
        reveal(binding);
        lemma_words();
    }
    let mut args = no_tokens();
    push_text(&mut args, module_name);
    push_punct(&mut args, ',');
    push_text(&mut args, func.name.as_str());
    push_punct(&mut args, ',');
    push_closure(&mut args, target_path, module_ident, func, settings);
    push_all(&mut args, vec![Punct(',')]);
    let wrapper = name_of_wrapper(settings.asyncness, func.params.len());
    let mut tokens = all(vec![Word("linker"), Punct('.')]);
    push_word(&mut tokens, wrapper.as_str());
    push_parens(&mut tokens, args);
    push_all(&mut tokens, vec![Punct('?'), Punct(';')]);
    tokens
}


} // verus!
