//! What the generated code looks like, whatever is bound.

use proc_macro2::Ident;
use vstd::prelude::*;

use crate::linker::glue::{
    abi_call, arg_decls, arg_name, arg_uses, async_block, awaited, binding, blocking_block, body,
    closure, closure_head, closure_result, memory_lookup, qualified, return_type, target_tokens,
    wrapper_name,
};
use crate::linker::link::{
    all_bounds, bindable, bindings, bound_list, context_bound, distinct, link_body, link_doc,
    link_name, link_params, linked, nameable, names_of, send_bound,
};
use crate::linker::module::{
    Asyncness, CodegenSettings, FuncSettings, FuncSettingsView, FuncView, InterfaceFunc,
    InterfaceModule, ModuleView, SettingsView, WasmType,
};
use crate::linker::tokens::{
    braces, brackets, ident_name, joint, parens, path_tokens, punct, text, tokens_of, unraw, word,
    Enclosure, Piece, Token,
};
use crate::linker::tokens::Piece::{Joint, Punct, Word};
use crate::text::decimal;

verus! {

/// What the words, the punctuation and the groups of a template stand for.
pub proof fn law_template_tokens(name: &'static str, c: char, inner: Seq<Token>)
    ensures
        word(name) == Token::Word(name@),
        text(name) == Token::Text(name@),
        punct(c) == Token::Punctuation(c, false),
        joint(c) == Token::Punctuation(c, true),
        parens(inner) == seq![Token::Open(Enclosure::Parentheses)] + inner + seq![
            Token::Close(Enclosure::Parentheses),
        ],
        braces(inner) == seq![Token::Open(Enclosure::Braces)] + inner + seq![
            Token::Close(Enclosure::Braces),
        ],
        brackets(inner) == seq![Token::Open(Enclosure::Brackets)] + inner + seq![
            Token::Close(Enclosure::Brackets),
        ],
        Piece::Word(name).token() == Token::Word(name@),
        Piece::Text(name).token() == Token::Text(name@),
        Piece::Punct(c).token() == Token::Punctuation(c, false),
        Piece::Joint(c).token() == Token::Punctuation(c, true),
{
}

/// A template has one token for each of its pieces, in order.
pub proof fn law_template(pieces: Seq<Piece>, i: int)
    requires
        0 <= i < pieces.len(),
    ensures
        tokens_of(pieces).len() == pieces.len(),
        tokens_of(pieces)[i] == pieces[i].token(),
{
}

/// The names of the types of arguments and results.
pub proof fn law_wasm_type_names()
    ensures
        WasmType::I32.spec_name() == "i32"@,
        WasmType::I64.spec_name() == "i64"@,
        WasmType::F32.spec_name() == "f32"@,
        WasmType::F64.spec_name() == "f64"@,
{
}

/// Types are the same exactly if their names are.
pub proof fn law_wasm_type_names_differ(a: WasmType, b: WasmType)
    ensures
        a.spec_name() == b.spec_name() <==> a == b,
{
    reveal_strlit("i32");
    reveal_strlit("i64");
    reveal_strlit("f32");
    reveal_strlit("f64");
    let (m, n) = (a.spec_name(), b.spec_name());
    assert(m[0] == n[0] && m[1] == n[1] ==> a == b);
}

/// The arguments are numbered from zero.
pub proof fn law_arg_name(i: nat)
    ensures
        arg_name(i) == "arg"@ + decimal(i),
{
}

/// A bound function declares one argument for each parameter of the function, in order, by its
/// number and with the name of its own type.
pub proof fn law_arg_decls(params: Seq<WasmType>, i: int)
    ensures
        arg_decls(params).len() == 4 * params.len(),
        0 <= i < params.len() ==> {
            &&& arg_decls(params)[4 * i] == Token::Punctuation(',', false)
            &&& arg_decls(params)[4 * i + 1] == Token::Word("arg"@ + decimal(i as nat))
            &&& arg_decls(params)[4 * i + 2] == Token::Punctuation(':', false)
            &&& arg_decls(params)[4 * i + 3] == Token::Word(
                match params[i] {
                    WasmType::I32 => "i32"@,
                    WasmType::I64 => "i64"@,
                    WasmType::F32 => "f32"@,
                    WasmType::F64 => "f64"@,
                },
            )
        },
    decreases params.len(),
{
    if params.len() > 0 {
        law_arg_decls(params.drop_last(), i);
        law_arg_decls(params.drop_last(), 0);
        if 0 <= i < params.len() - 1 {
            assert(params.drop_last()[i] == params[i]);
        }
    }
}

/// A bound function hands on as many arguments as it takes, in the order of their numbers.
pub proof fn law_arg_uses(n: nat, i: int)
    ensures
        arg_uses(n).len() == 2 * n,
        0 <= i < n ==> {
            &&& arg_uses(n)[2 * i] == Token::Punctuation(',', false)
            &&& arg_uses(n)[2 * i + 1] == Token::Word("arg"@ + decimal(i as nat))
        },
    decreases n,
{
    if n > 0 {
        law_arg_uses((n - 1) as nat, i);
    }
}

/// Each argument that is handed on is one that is declared, and the other way round.
pub proof fn law_declared_arguments_are_used(params: Seq<WasmType>, i: int)
    requires
        0 <= i < params.len(),
    ensures
        arg_decls(params)[4 * i + 1] == arg_uses(params.len())[2 * i + 1],
        arg_decls(params).len() == 2 * arg_uses(params.len()).len(),
{
    law_arg_decls(params, i);
    law_arg_uses(params.len(), i);
}

/// A function without results returns the unit, and one with a result the type of that result.
pub proof fn law_return_type(results: Seq<WasmType>)
    ensures
        results.len() == 0 ==> return_type(results) == seq![
            Token::Open(Enclosure::Parentheses),
            Token::Close(Enclosure::Parentheses),
        ],
        results.len() > 0 ==> return_type(results) == seq![
            Token::Word(
                match results[0] {
                    WasmType::I32 => "i32"@,
                    WasmType::I64 => "i64"@,
                    WasmType::F32 => "f32"@,
                    WasmType::F64 => "f64"@,
                },
            ),
        ],
{
}

/// Without a path an item goes by its name alone, and with one by the path, the module and its
/// name.
pub proof fn law_qualified(path: Seq<Token>, module_ident: Seq<char>, name: Seq<char>)
    ensures
        qualified(None, module_ident, name) == seq![Token::Word(name)],
        qualified(Some(path), module_ident, name) == path + seq![
            Token::Punctuation(':', true),
            Token::Punctuation(':', false),
            Token::Word(module_ident),
            Token::Punctuation(':', true),
            Token::Punctuation(':', false),
            Token::Word(name),
        ],
{
    assert(qualified(Some(path), module_ident, name) =~= path + seq![
        Token::Punctuation(':', true),
        Token::Punctuation(':', false),
        Token::Word(module_ident),
        Token::Punctuation(':', true),
        Token::Punctuation(':', false),
        Token::Word(name),
    ]);
}

/// The path to the Rust modules is the one that was given, token for token.
pub proof fn law_target_tokens(path: &syn::Path)
    ensures
        target_tokens(Some(path)) == Some(path_tokens(*path)),
        target_tokens(None) is None,
{
}

/// The linker's function is named for the number of arguments exactly where it is asynchronous.
pub proof fn law_wrapper_name(n: nat)
    ensures
        wrapper_name(Asyncness::Async, n) == "func_wrap"@ + decimal(n) + "_async"@,
        wrapper_name(Asyncness::Blocking, n) == "func_wrap"@,
        wrapper_name(Asyncness::Sync, n) == "func_wrap"@,
{
}

/// Nothing is awaited exactly where a function is called as it is.
pub proof fn law_awaited()
    ensures
        awaited(Asyncness::Sync).len() == 0,
        awaited(Asyncness::Blocking) == seq![punct('.'), word("await")],
        awaited(Asyncness::Async) == seq![punct('.'), word("await")],
{
    assert(tokens_of(seq![Punct('.'), Word("await")]) =~= seq![punct('.'), word("await")]);
}

/// The implementation is called, by its qualified name, on the context, the memory and all
/// arguments; what it gives is awaited as it has to be, and an error handed on.
pub proof fn law_abi_call(
    target: Option<Seq<Token>>,
    module_ident: Seq<char>,
    func: FuncView,
    settings: FuncSettingsView,
)
    ensures
        abi_call(target, module_ident, func, settings) == qualified(
            target,
            module_ident,
            settings.ident,
        ) + parens(
            seq![word("ctx"), punct(','), punct('&'), word("mem")] + arg_uses(func.params.len()),
        ) + (if settings.asyncness == Asyncness::Sync {
            seq![]
        } else {
            seq![punct('.'), word("await")]
        }) + seq![punct('?')],
{
    law_awaited();
    assert(tokens_of(seq![Word("ctx"), Punct(','), Punct('&'), Word("mem")]) =~= seq![
        word("ctx"),
        punct(','),
        punct('&'),
        word("mem"),
    ]);
    assert(tokens_of(seq![Punct('?')]) =~= seq![punct('?')]);
    assert(awaited(Asyncness::Sync) =~= seq![]);
}

/// A bound function looks up the memory, calls the implementation, and converts what it gives to
/// the return type.
pub proof fn law_body(
    target: Option<Seq<Token>>,
    module_ident: Seq<char>,
    func: FuncView,
    settings: FuncSettingsView,
)
    ensures
        body(target, module_ident, func, settings) == memory_lookup() + seq![word("Ok")] + parens(
            seq![punct('<')] + return_type(func.results) + seq![
                punct('>'),
                joint(':'),
                punct(':'),
                word("from"),
            ] + parens(abi_call(target, module_ident, func, settings)),
        ),
{
    reveal(body);
    assert(tokens_of(seq![Word("Ok")]) =~= seq![word("Ok")]);
    assert(tokens_of(seq![Punct('<')]) =~= seq![punct('<')]);
    assert(tokens_of(seq![Punct('>'), Joint(':'), Punct(':'), Word("from")]) =~= seq![
        punct('>'),
        joint(':'),
        punct(':'),
        word("from"),
    ]);
}

/// A bound function takes the caller and one argument for each parameter.
pub proof fn law_closure_head(params: Seq<WasmType>)
    ensures
        closure_head(params) == seq![
            word("move"), punct('|'), word("mut"), word("caller"), punct(':'), word("wiggle"),
            joint(':'), punct(':'), word("wasmtime_crate"), joint(':'), punct(':'), word("Caller"),
            punct('<'), joint('\''), word("_"), punct(','), word("T"), punct('>'),
        ] + arg_decls(params) + seq![punct('|')],
{
    assert(tokens_of(
        seq![
            Word("move"), Punct('|'), Word("mut"), Word("caller"), Punct(':'), Word("wiggle"),
            Joint(':'), Punct(':'), Word("wasmtime_crate"), Joint(':'), Punct(':'), Word("Caller"),
            Punct('<'), Joint('\''), Word("_"), Punct(','), Word("T"), Punct('>'),
        ],
    ) =~= seq![
        word("move"), punct('|'), word("mut"), word("caller"), punct(':'), word("wiggle"),
        joint(':'), punct(':'), word("wasmtime_crate"), joint(':'), punct(':'), word("Caller"),
        punct('<'), joint('\''), word("_"), punct(','), word("T"), punct('>'),
    ]);
    assert(tokens_of(seq![Punct('|')]) =~= seq![punct('|')]);
}

/// A bound function that is not asynchronous returns a result with the return type.
pub proof fn law_closure_result(results: Seq<WasmType>)
    ensures
        closure_result(results) == seq![
            joint('-'), punct('>'), word("wiggle"), joint(':'), punct(':'), word("anyhow"),
            joint(':'), punct(':'), word("Result"), punct('<'),
        ] + return_type(results) + seq![punct('>')],
{
    assert(tokens_of(
        seq![
            Joint('-'), Punct('>'), Word("wiggle"), Joint(':'), Punct(':'), Word("anyhow"),
            Joint(':'), Punct(':'), Word("Result"), Punct('<'),
        ],
    ) =~= seq![
        joint('-'), punct('>'), word("wiggle"), joint(':'), punct(':'), word("anyhow"),
        joint(':'), punct(':'), word("Result"), punct('<'),
    ]);
    assert(tokens_of(seq![Punct('>')]) =~= seq![punct('>')]);
}

/// An asynchronous function hands out a boxed future with the body, a blocking one runs such a
/// future to its end.
pub proof fn law_blocks(body: Seq<Token>)
    ensures
        async_block(body) == braces(
            seq![word("Box"), joint(':'), punct(':'), word("new")] + parens(
                seq![word("async"), word("move")] + braces(body),
            ),
        ),
        blocking_block(body) == braces(
            seq![word("let"), word("result"), punct('='), word("async")] + braces(body) + seq![
                punct(';'),
                word("wiggle"),
                joint(':'),
                punct(':'),
                word("run_in_dummy_executor"),
            ] + parens(seq![word("result")]) + seq![punct('?')],
        ),
{
    assert(tokens_of(seq![Word("Box"), Joint(':'), Punct(':'), Word("new")]) =~= seq![
        word("Box"),
        joint(':'),
        punct(':'),
        word("new"),
    ]);
    assert(tokens_of(seq![Word("async"), Word("move")]) =~= seq![word("async"), word("move")]);
    assert(tokens_of(seq![Word("let"), Word("result"), Punct('='), Word("async")]) =~= seq![
        word("let"),
        word("result"),
        punct('='),
        word("async"),
    ]);
    assert(tokens_of(
        seq![Punct(';'), Word("wiggle"), Joint(':'), Punct(':'), Word("run_in_dummy_executor")],
    ) =~= seq![
        punct(';'),
        word("wiggle"),
        joint(':'),
        punct(':'),
        word("run_in_dummy_executor"),
    ]);
    assert(tokens_of(seq![Word("result")]) =~= seq![word("result")]);
    assert(tokens_of(seq![Punct('?')]) =~= seq![punct('?')]);
}

/// However a function runs, what is bound takes the same arguments and does the same work; only
/// what stands around the work differs.
pub proof fn law_closure(
    target: Option<Seq<Token>>,
    module_ident: Seq<char>,
    func: FuncView,
    settings: FuncSettingsView,
)
    ensures
        settings.asyncness == Asyncness::Sync ==> closure(target, module_ident, func, settings)
            == closure_head(func.params) + (closure_result(func.results) + braces(
            body(target, module_ident, func, settings),
        )),
        settings.asyncness == Asyncness::Blocking ==> closure(target, module_ident, func, settings)
            == closure_head(func.params) + (closure_result(func.results) + blocking_block(
            body(target, module_ident, func, settings),
        )),
        settings.asyncness == Asyncness::Async ==> closure(target, module_ident, func, settings)
            == closure_head(func.params) + async_block(body(target, module_ident, func, settings)),
{
    reveal(closure);
}

/// A function is bound by one call on the linker: under the name of the module, then the name of
/// the function, what runs when it is called.
pub proof fn law_binding(
    module_name: Seq<char>,
    target: Option<Seq<Token>>,
    module_ident: Seq<char>,
    func: FuncView,
    settings: FuncSettingsView,
)
    ensures
        binding(module_name, target, module_ident, func, settings) == seq![
            word("linker"),
            punct('.'),
        ] + seq![Token::Word(wrapper_name(settings.asyncness, func.params.len()))] + parens(
            seq![Token::Text(module_name), punct(','), Token::Text(func.name), punct(',')]
                + closure(target, module_ident, func, settings) + seq![punct(',')],
        ) + seq![punct('?'), punct(';')],
{
    reveal(binding);
    assert(tokens_of(seq![Word("linker"), Punct('.')]) =~= seq![word("linker"), punct('.')]);
    assert(tokens_of(seq![Punct(',')]) =~= seq![punct(',')]);
    assert(tokens_of(seq![Punct('?'), Punct(';')]) =~= seq![punct('?'), punct(';')]);
}

/// The number of tokens of a qualified name.
pub open spec fn qualified_len(target: Option<Seq<Token>>) -> int {
    match target {
        Some(path) => path.len() as int + 6,
        None => 1,
    }
}

/// The traits that the context has to implement stand one after the other, each qualified, with a
/// plus sign between each two and none before or after.
#[verifier::rlimit(50)]
pub proof fn law_bound_list(
    target: Option<Seq<Token>>,
    module_ident: Seq<char>,
    bounds: Seq<Seq<char>>,
    k: int,
)
    ensures
        bounds.len() == 0 ==> bound_list(target, module_ident, bounds).len() == 0,
        bounds.len() > 0 ==> bound_list(target, module_ident, bounds).len() + 1 == bounds.len() * (
        qualified_len(target) + 1),
        0 <= k < bounds.len() ==> {
            &&& 0 <= k * (qualified_len(target) + 1)
            &&& k * (qualified_len(target) + 1) + qualified_len(target) <= bound_list(
                target,
                module_ident,
                bounds,
            ).len()
            &&& bound_list(target, module_ident, bounds).subrange(
                k * (qualified_len(target) + 1),
                k * (qualified_len(target) + 1) + qualified_len(target),
            ) == qualified(target, module_ident, bounds[k])
        },
        0 <= k < bounds.len() - 1 ==> bound_list(target, module_ident, bounds)[k * (qualified_len(
            target,
        ) + 1) + qualified_len(target)] == Token::Punctuation('+', false),
    decreases bounds.len(),
{
    let n = bounds.len() as int;
    let len = qualified_len(target);
    let step = len + 1;
    let list = bound_list(target, module_ident, bounds);
    if target is Some {
        law_qualified(target->0, module_ident, bounds[k]);
        law_qualified(target->0, module_ident, bounds[0]);
        law_qualified(target->0, module_ident, bounds[n - 1]);
    }
    assert(tokens_of(seq![Punct('+')]) =~= seq![punct('+')]);
    if n == 1 {
        assert(0 * step == 0 && 1 * step == step) by (nonlinear_arith);
        if k == 0 {
            assert(list.subrange(0, len) =~= list);
        }
    } else if n > 1 {
        let front = bounds.drop_last();
        let before = bound_list(target, module_ident, front);
        let last = qualified(target, module_ident, bounds[n - 1]);
        law_bound_list(target, module_ident, front, k);
        assert(n * step == (n - 1) * step + step) by (nonlinear_arith);
        assert(list == before + seq![punct('+')] + last);
        assert(before.len() + 1 == (n - 1) * step);
        if 0 <= k < n - 1 {
            assert(0 <= k * step && k * step + step <= (n - 1) * step) by (nonlinear_arith)
                requires
                    0 <= k < n - 1,
                    step > 0,
            ;
            assert(front[k] == bounds[k]);
            assert(list.subrange(k * step, k * step + len) =~= before.subrange(
                k * step,
                k * step + len,
            ));
            if k < n - 2 {
                assert(k * step + step < (n - 1) * step) by (nonlinear_arith)
                    requires
                        0 <= k < n - 2,
                        step > 0,
                ;
            } else {
                assert(k * step + step == (n - 1) * step) by (nonlinear_arith)
                    requires
                        k == n - 2,
                ;
            }
        } else if k == n - 1 {
            assert(k * step == (n - 1) * step);
            assert(0 <= (n - 1) * step) by (nonlinear_arith)
                requires
                    n > 1,
                    step > 0,
            ;
            assert(list.subrange(k * step, k * step + len) =~= last);
        }
    }
}

/// The tokens that ask for a context that can be sent between threads, and for such a state.
pub proof fn law_send_bound()
    ensures
        send_bound(true) == seq![
            punct('+'),
            word("Send"),
            punct(','),
            word("T"),
            punct(':'),
            word("Send"),
        ],
        send_bound(false).len() == 0,
{
    assert(tokens_of(
        seq![Punct('+'), Word("Send"), Punct(','), Word("T"), Punct(':'), Word("Send")],
    ) =~= seq![punct('+'), word("Send"), punct(','), word("T"), punct(':'), word("Send")]);
}

/// What is asked of the context is each distinct trait, and, exactly where there are asynchronous
/// functions, that it and the state can be sent: with a path to the Rust modules or without one.
#[verifier::rlimit(50)]
pub proof fn law_context_bound(target: Option<Seq<Token>>, settings: SettingsView)
    ensures
        !settings.contains_async ==> context_bound(target, settings) == bound_list(
            target,
            settings.module_ident,
            distinct(all_bounds(settings.funcs)),
        ),
        settings.contains_async ==> context_bound(target, settings) == bound_list(
            target,
            settings.module_ident,
            distinct(all_bounds(settings.funcs)),
        ) + seq![
            punct('+'), word("Send"), punct(','), word("T"), punct(':'), word("Send"),
            punct('+'), word("Send"), punct(','), word("T"), punct(':'), word("Send"),
        ],
{
    reveal(context_bound);
    law_send_bound();
    let list = bound_list(target, settings.module_ident, distinct(all_bounds(settings.funcs)));
    if settings.contains_async {
        assert(context_bound(target, settings) =~= list + seq![
            punct('+'), word("Send"), punct(','), word("T"), punct(':'), word("Send"),
            punct('+'), word("Send"), punct(','), word("T"), punct(':'), word("Send"),
        ]);
    } else {
        assert(context_bound(target, settings) =~= list);
    }
}

/// With asynchronous functions the context, and the state, have to be `Send`, after everything
/// that is asked without them.
pub proof fn law_async_asks_for_send(target: Option<Seq<Token>>, settings: SettingsView)
    ensures
        context_bound(target, (SettingsView { contains_async: true, ..settings }))
            == context_bound(target, (SettingsView { contains_async: false, ..settings })) + seq![
            punct('+'), word("Send"), punct(','), word("T"), punct(':'), word("Send"),
            punct('+'), word("Send"), punct(','), word("T"), punct(':'), word("Send"),
        ],
{
    law_context_bound(target, SettingsView { contains_async: true, ..settings });
    law_context_bound(target, SettingsView { contains_async: false, ..settings });
}

/// The name of the function that binds a module carries the name of the module, without the prefix
/// of a raw identifier, exactly where there is a path to the Rust modules.
pub proof fn law_link_name(path: Seq<Token>, module_ident: Seq<char>)
    ensures
        link_name(None, module_ident) == "add_to_linker"@,
        link_name(Some(path), module_ident) == "add_"@ + unraw(module_ident) + "_to_linker"@,
{
}

/// Only the prefix of a raw identifier is taken from a name.
pub proof fn law_unraw(name: Seq<char>)
    ensures
        unraw("r#"@ + name) == name,
        !("r#"@.is_prefix_of(name)) ==> unraw(name) == name,
{
    reveal_strlit("r#");
    assert(("r#"@ + name).skip(2) =~= name);
    if name.len() >= 2 && name[0] == 'r' && name[1] == '#' {
        assert("r#"@.is_prefix_of(name));
    }
}

/// What binds a module is a documented public function that takes the linker and a way to find the
/// context, asks of the context what it has to, and binds the functions of the module.
#[verifier::rlimit(50)]
pub proof fn law_linked(module: ModuleView, target: Option<Seq<Token>>, settings: SettingsView)
    ensures
        linked(module, target, settings) == link_doc() + seq![word("pub"), word("fn")] + seq![
            Token::Word(link_name(target, settings.module_ident)),
        ] + seq![punct('<'), word("T"), punct(','), word("U"), punct('>')] + parens(link_params())
            + seq![
            joint('-'), punct('>'), word("wiggle"), joint(':'), punct(':'), word("anyhow"),
            joint(':'), punct(':'), word("Result"), punct('<'),
        ] + parens(seq![]) + seq![punct('>'), word("where"), word("U"), punct(':')]
            + context_bound(target, settings) + braces(link_body(module, target, settings)),
{
    reveal(linked);
    assert(tokens_of(seq![Word("pub"), Word("fn")]) =~= seq![word("pub"), word("fn")]);
    assert(tokens_of(seq![Punct('<'), Word("T"), Punct(','), Word("U"), Punct('>')]) =~= seq![
        punct('<'),
        word("T"),
        punct(','),
        word("U"),
        punct('>'),
    ]);
    assert(tokens_of(
        seq![
            Joint('-'), Punct('>'), Word("wiggle"), Joint(':'), Punct(':'), Word("anyhow"),
            Joint(':'), Punct(':'), Word("Result"), Punct('<'),
        ],
    ) =~= seq![
        joint('-'), punct('>'), word("wiggle"), joint(':'), punct(':'), word("anyhow"),
        joint(':'), punct(':'), word("Result"), punct('<'),
    ]);
    assert(tokens_of(seq![Punct('>'), Word("where"), Word("U"), Punct(':')]) =~= seq![
        punct('>'),
        word("where"),
        word("U"),
        punct(':'),
    ]);
}

/// The functions of a module are bound one after the other, starting with nothing, each as its own
/// settings say, and then all is well.
pub proof fn law_link_body(
    module: ModuleView,
    target: Option<Seq<Token>>,
    settings: SettingsView,
    i: nat,
)
    ensures
        link_body(module, target, settings) == bindings(
            module,
            target,
            settings,
            module.funcs.len(),
        ) + seq![word("Ok")] + parens(parens(seq![])),
        bindings(module, target, settings, 0).len() == 0,
        bindings(module, target, settings, i + 1) == bindings(module, target, settings, i)
            + binding(
            module.name,
            target,
            settings.module_ident,
            module.funcs[i as int],
            settings.funcs[i as int],
        ),
{
    reveal(link_body);
    assert(tokens_of(seq![Word("Ok")]) =~= seq![word("Ok")]);
}

/// Settings fit a module exactly if there are as many as functions, the functions have one result
/// at most, and, where the name of the Rust module becomes part of another name, it has no dollar
/// sign.
pub proof fn law_bindable(
    module: ModuleView,
    path: Seq<Token>,
    settings: SettingsView,
)
    ensures
        nameable(None, settings),
        nameable(Some(path), settings) <==> forall|i: int|
            0 <= i < settings.module_ident.len() ==> #[trigger] settings.module_ident[i] != '$',
        bindable(module, None, settings) <==> settings.funcs.len() == module.funcs.len() && forall|
            i: int,
        |
            0 <= i < module.funcs.len() ==> (#[trigger] module.funcs[i]).results.len() <= 1,
        bindable(module, Some(path), settings) <==> bindable(module, None, settings) && nameable(
            Some(path),
            settings,
        ),
{
    if settings.module_ident.contains('$') {
        let i = settings.module_ident.index_of('$');
        assert(settings.module_ident[i] == '$');
    }
}

/// A function, and what is set for it, stand for what they hold.
pub proof fn law_func_views(func: InterfaceFunc, settings: FuncSettings, i: int)
    ensures
        func@.name == func.name@,
        func@.params == func.params@,
        func@.results == func.results@,
        settings@.ident == ident_name(settings.ident),
        settings@.asyncness == settings.asyncness,
        settings@.bounds.len() == settings.bounds.len(),
        0 <= i < settings.bounds.len() ==> settings@.bounds[i] == ident_name(settings.bounds[i]),
{
}

/// A module, and what is set for it, stand for what they hold.
pub proof fn law_module_views(module: InterfaceModule, settings: CodegenSettings, i: int)
    ensures
        module@.name == module.name@,
        module@.funcs.len() == module.funcs.len(),
        0 <= i < module.funcs.len() ==> module@.funcs[i] == module.funcs[i]@,
        settings@.module_ident == ident_name(settings.module_ident),
        settings@.contains_async == settings.contains_async,
        settings@.funcs.len() == settings.funcs.len(),
        0 <= i < settings.funcs.len() ==> settings@.funcs[i] == settings.funcs[i]@,
{
}

/// The names of identifiers, one by one.
pub proof fn law_names_of(idents: Seq<&Ident>, i: int)
    requires
        0 <= i < idents.len(),
    ensures
        names_of(idents).len() == idents.len(),
        names_of(idents)[i] == ident_name(*idents[i]),
{
}

/// The names under which a function is bound stand as string literals in their places, first that
/// of the module and then that of the function, and occur nowhere else: another name changes
/// nothing but its literal.
#[verifier::rlimit(50)]
pub proof fn law_binding_names(
    module_name: Seq<char>,
    other_module: Seq<char>,
    other_name: Seq<char>,
    target: Option<Seq<Token>>,
    module_ident: Seq<char>,
    func: FuncView,
    settings: FuncSettingsView,
)
    ensures
        ({
            let tokens = binding(module_name, target, module_ident, func, settings);
            &&& tokens.len() > 8
            &&& tokens[4] == Token::Text(module_name)
            &&& tokens[6] == Token::Text(func.name)
            &&& binding(other_module, target, module_ident, func, settings) == tokens.update(
                4,
                Token::Text(other_module),
            )
            &&& binding(
                module_name,
                target,
                module_ident,
                (FuncView { name: other_name, ..func }),
                settings,
            ) == tokens.update(6, Token::Text(other_name))
        }),
{
    let other = FuncView { name: other_name, ..func };
    let tokens = binding(module_name, target, module_ident, func, settings);
    let inner = closure(target, module_ident, func, settings);
    law_binding(module_name, target, module_ident, func, settings);
    law_binding(other_module, target, module_ident, func, settings);
    law_binding(module_name, target, module_ident, other, settings);
    assert(closure(target, module_ident, other, settings) == inner) by {
        reveal(closure);
        reveal(body);
    }
    assert(binding(other_module, target, module_ident, func, settings) =~= tokens.update(
        4,
        Token::Text(other_module),
    ));
    assert(binding(module_name, target, module_ident, other, settings) =~= tokens.update(
        6,
        Token::Text(other_name),
    ));
}

/// Whether two lists of tokens are the same but for `a` in one and `b` in the other.
pub open spec fn differ_only(x: Seq<Token>, a: Seq<Token>, y: Seq<Token>, b: Seq<Token>) -> bool {
    exists|before: Seq<Token>, after: Seq<Token>|
        x == #[trigger] (before + a + after) && y == before + b + after
}

/// What stands before and after two lists in the same way makes no difference.
proof fn lemma_around(
    x: Seq<Token>,
    a: Seq<Token>,
    y: Seq<Token>,
    b: Seq<Token>,
    start: Seq<Token>,
    end: Seq<Token>,
)
    requires
        differ_only(x, a, y, b),
    ensures
        differ_only(start + x + end, a, start + y + end, b),
{
    let (before, after) = choose|before: Seq<Token>, after: Seq<Token>|
        x == #[trigger] (before + a + after) && y == before + b + after;
    assert(start + x + end =~= (start + before) + a + (after + end));
    assert(start + y + end =~= (start + before) + b + (after + end));
}

/// A path to the Rust modules, and the module that it leads to, matter only for how the
/// implementation is named: whatever they are, the rest of the statement is the same.
#[verifier::rlimit(50)]
pub proof fn law_target_only_qualifies(
    module_name: Seq<char>,
    target: Option<Seq<Token>>,
    module_ident: Seq<char>,
    other: Option<Seq<Token>>,
    other_ident: Seq<char>,
    func: FuncView,
    settings: FuncSettingsView,
)
    ensures
        differ_only(
            binding(module_name, target, module_ident, func, settings),
            qualified(target, module_ident, settings.ident),
            binding(module_name, other, other_ident, func, settings),
            qualified(other, other_ident, settings.ident),
        ),
{
    let (a, b) = (
        qualified(target, module_ident, settings.ident),
        qualified(other, other_ident, settings.ident),
    );
    lemma_closures_differ(target, module_ident, other, other_ident, func, settings);
    let (x, y) = (
        closure(target, module_ident, func, settings),
        closure(other, other_ident, func, settings),
    );
    let start = seq![
        word("linker"),
        punct('.'),
        Token::Word(wrapper_name(settings.asyncness, func.params.len())),
        Token::Open(Enclosure::Parentheses),
        Token::Text(module_name),
        punct(','),
        Token::Text(func.name),
        punct(','),
    ];
    let end = seq![punct(','), Token::Close(Enclosure::Parentheses), punct('?'), punct(';')];
    lemma_around(x, a, y, b, start, end);
    law_binding(module_name, target, module_ident, func, settings);
    law_binding(module_name, other, other_ident, func, settings);
    assert(binding(module_name, target, module_ident, func, settings) =~= start + x + end);
    assert(binding(module_name, other, other_ident, func, settings) =~= start + y + end);
}

#[verifier::rlimit(50)]
proof fn lemma_closures_differ(
    target: Option<Seq<Token>>,
    module_ident: Seq<char>,
    other: Option<Seq<Token>>,
    other_ident: Seq<char>,
    func: FuncView,
    settings: FuncSettingsView,
)
    ensures
        differ_only(
            closure(target, module_ident, func, settings),
            qualified(target, module_ident, settings.ident),
            closure(other, other_ident, func, settings),
            qualified(other, other_ident, settings.ident),
        ),
{
    let (a, b) = (
        qualified(target, module_ident, settings.ident),
        qualified(other, other_ident, settings.ident),
    );
    let (x, y) = (
        body(target, module_ident, func, settings),
        body(other, other_ident, func, settings),
    );
    lemma_bodies_differ(target, module_ident, other, other_ident, func, settings);
    law_closure(target, module_ident, func, settings);
    law_closure(other, other_ident, func, settings);
    let head = closure_head(func.params);
    let result = closure_result(func.results);
    let (start, end) = (
        before_work(head, result, settings.asyncness),
        after_work(settings.asyncness),
    );
    lemma_around(x, a, y, b, start, end);
    match settings.asyncness {
        Asyncness::Async => {
            lemma_async_work(head, result, x);
            lemma_async_work(head, result, y);
        },
        Asyncness::Blocking => {
            lemma_blocking_work(head, result, x);
            lemma_blocking_work(head, result, y);
        },
        Asyncness::Sync => {
            lemma_sync_work(head, result, x);
            lemma_sync_work(head, result, y);
        },
    }
}

/// What stands in a bound function before its work.
#[verifier::opaque]
spec fn before_work(head: Seq<Token>, result: Seq<Token>, asyncness: Asyncness) -> Seq<Token> {
    let open = Token::Open(Enclosure::Braces);
    match asyncness {
        Asyncness::Async => head + seq![
            open,
            word("Box"),
            joint(':'),
            punct(':'),
            word("new"),
            Token::Open(Enclosure::Parentheses),
            word("async"),
            word("move"),
            open,
        ],
        Asyncness::Blocking => head + result + seq![
            open,
            word("let"),
            word("result"),
            punct('='),
            word("async"),
            open,
        ],
        Asyncness::Sync => head + result + seq![open],
    }
}

/// What stands in a bound function after its work.
#[verifier::opaque]
spec fn after_work(asyncness: Asyncness) -> Seq<Token> {
    let close = Token::Close(Enclosure::Braces);
    match asyncness {
        Asyncness::Async => seq![close, Token::Close(Enclosure::Parentheses), close],
        Asyncness::Blocking => seq![
            close,
            punct(';'),
            word("wiggle"),
            joint(':'),
            punct(':'),
            word("run_in_dummy_executor"),
            Token::Open(Enclosure::Parentheses),
            word("result"),
            Token::Close(Enclosure::Parentheses),
            punct('?'),
            close,
        ],
        Asyncness::Sync => seq![close],
    }
}

proof fn lemma_async_work(head: Seq<Token>, result: Seq<Token>, work: Seq<Token>)
    ensures
        head + async_block(work) == before_work(head, result, Asyncness::Async) + work
            + after_work(Asyncness::Async),
{
    reveal(before_work);
    reveal(after_work);
    law_blocks(work);
    assert(head + async_block(work) =~= before_work(head, result, Asyncness::Async) + work
        + after_work(Asyncness::Async));
}

proof fn lemma_blocking_work(head: Seq<Token>, result: Seq<Token>, work: Seq<Token>)
    ensures
        head + (result + blocking_block(work)) == before_work(head, result, Asyncness::Blocking)
            + work + after_work(Asyncness::Blocking),
{
    reveal(before_work);
    reveal(after_work);
    law_blocks(work);
    assert(head + (result + blocking_block(work)) =~= before_work(
        head,
        result,
        Asyncness::Blocking,
    ) + work + after_work(Asyncness::Blocking));
}

proof fn lemma_sync_work(head: Seq<Token>, result: Seq<Token>, work: Seq<Token>)
    ensures
        head + (result + braces(work)) == before_work(head, result, Asyncness::Sync) + work
            + after_work(Asyncness::Sync),
{
    reveal(before_work);
    reveal(after_work);
    assert(head + (result + braces(work)) =~= before_work(head, result, Asyncness::Sync) + work
        + after_work(Asyncness::Sync));
}

#[verifier::rlimit(50)]
proof fn lemma_bodies_differ(
    target: Option<Seq<Token>>,
    module_ident: Seq<char>,
    other: Option<Seq<Token>>,
    other_ident: Seq<char>,
    func: FuncView,
    settings: FuncSettingsView,
)
    ensures
        differ_only(
            body(target, module_ident, func, settings),
            qualified(target, module_ident, settings.ident),
            body(other, other_ident, func, settings),
            qualified(other, other_ident, settings.ident),
        ),
{
    let (a, b) = (
        qualified(target, module_ident, settings.ident),
        qualified(other, other_ident, settings.ident),
    );
    let (x, y) = (
        abi_call(target, module_ident, func, settings),
        abi_call(other, other_ident, func, settings),
    );
    let args = parens(
        seq![word("ctx"), punct(','), punct('&'), word("mem")] + arg_uses(func.params.len()),
    );
    let wait = if settings.asyncness == Asyncness::Sync {
        seq![]
    } else {
        seq![punct('.'), word("await")]
    };
    law_abi_call(target, module_ident, func, settings);
    law_abi_call(other, other_ident, func, settings);
    lemma_call_shape(a, args, wait);
    lemma_call_shape(b, args, wait);
    let rest = args + wait + seq![punct('?')];
    let none = Seq::<Token>::empty();
    assert(x == none + a + rest);
    assert(y == none + b + rest);
    assert(differ_only(x, a, y, b));
    let (lookup, returned) = (memory_lookup(), return_type(func.results));
    law_body(target, module_ident, func, settings);
    law_body(other, other_ident, func, settings);
    lemma_body_shape(lookup, returned, x);
    lemma_body_shape(lookup, returned, y);
    lemma_around(x, a, y, b, before_call(lookup, returned), after_call());
}

/// What stands in the work before the call of the implementation.
#[verifier::opaque]
spec fn before_call(lookup: Seq<Token>, returned: Seq<Token>) -> Seq<Token> {
    let open = Token::Open(Enclosure::Parentheses);
    lookup + seq![word("Ok"), open, punct('<')] + returned + seq![
        punct('>'),
        joint(':'),
        punct(':'),
        word("from"),
        open,
    ]
}

/// What stands in the work after the call of the implementation.
#[verifier::opaque]
spec fn after_call() -> Seq<Token> {
    let close = Token::Close(Enclosure::Parentheses);
    seq![close, close]
}

proof fn lemma_call_shape(callee: Seq<Token>, args: Seq<Token>, wait: Seq<Token>)
    ensures
        callee + args + wait + seq![punct('?')] == Seq::<Token>::empty() + callee + (args + wait
            + seq![punct('?')]),
{
    assert(callee + args + wait + seq![punct('?')] =~= Seq::<Token>::empty() + callee + (args
        + wait + seq![punct('?')]));
}

proof fn lemma_body_shape(lookup: Seq<Token>, returned: Seq<Token>, call: Seq<Token>)
    ensures
        lookup + seq![word("Ok")] + parens(
            seq![punct('<')] + returned + seq![punct('>'), joint(':'), punct(':'), word("from")]
                + parens(call),
        ) == before_call(lookup, returned) + call + after_call(),
{
    reveal(before_call);
    reveal(after_call);
    assert(lookup + seq![word("Ok")] + parens(
        seq![punct('<')] + returned + seq![punct('>'), joint(':'), punct(':'), word("from")]
            + parens(call),
    ) =~= before_call(lookup, returned) + call + after_call());
}

/// Asynchronous functions change nothing of the function that binds a module but what it asks of
/// the context and the state, just before its body.
#[verifier::rlimit(50)]
pub proof fn law_async_changes_where_clause_only(
    module: ModuleView,
    target: Option<Seq<Token>>,
    settings: SettingsView,
)
    ensures
        exists|before: Seq<Token>, after: Seq<Token>|
            {
                &&& after.len() > 0 && after[0] == Token::Open(Enclosure::Braces)
                &&& linked(module, target, (SettingsView { contains_async: false, ..settings }))
                    == #[trigger] (before + after)
                &&& linked(module, target, (SettingsView { contains_async: true, ..settings }))
                    == before + seq![
                    punct('+'), word("Send"), punct(','), word("T"), punct(':'), word("Send"),
                    punct('+'), word("Send"), punct(','), word("T"), punct(':'), word("Send"),
                ] + after
            },
{
    let (without, with) = (
        SettingsView { contains_async: false, ..settings },
        SettingsView { contains_async: true, ..settings },
    );
    let send = seq![
        punct('+'), word("Send"), punct(','), word("T"), punct(':'), word("Send"),
        punct('+'), word("Send"), punct(','), word("T"), punct(':'), word("Send"),
    ];
    law_linked(module, target, without);
    law_linked(module, target, with);
    law_async_asks_for_send(target, settings);
    lemma_same_body(module, target, settings, module.funcs.len());
    assert(link_body(module, target, with) == link_body(module, target, without)) by {
        reveal(link_body);
    }
    let bound = context_bound(target, without);
    let after = braces(link_body(module, target, without));
    let whole = linked(module, target, without);
    let before = whole.take(whole.len() - after.len());
    assert(whole =~= before + after);
    let start = before.take(before.len() - bound.len());
    assert(before =~= start + bound);
    assert(linked(module, target, with) =~= start + (bound + send) + after);
    assert(linked(module, target, with) =~= before + send + after);
}

/// The statements do not depend on whether there are asynchronous functions elsewhere.
proof fn lemma_same_body(
    module: ModuleView,
    target: Option<Seq<Token>>,
    settings: SettingsView,
    n: nat,
)
    ensures
        bindings(module, target, (SettingsView { contains_async: true, ..settings }), n)
            == bindings(module, target, (SettingsView { contains_async: false, ..settings }), n),
    decreases n,
{
    if n > 0 {
        lemma_same_body(module, target, settings, (n - 1) as nat);
    }
}

} // verus!
