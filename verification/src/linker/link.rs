//! Code that binds a whole module to a linker.

use proc_macro2::{Ident, TokenStream};
use vstd::prelude::*;

use crate::linker::glue::{
    binding, generate_func, lemma_regroup, push_qualified, qualified, target_tokens,
};
use crate::linker::module::{
    read_module, witx_funcs, witx_name, CodegenSettings, FuncSettingsView, InterfaceModule,
    LinkError, ModuleView, SettingsView,
};
use crate::linker::tokens::{
    affixed_ident, all, braces, brackets, ident_name, ident_text, is_ascii_identifier, no_tokens,
    parens, push_all, push_braces, push_brackets, push_ident, push_parens, push_stream, push_word,
    stream_tokens, test_contains, tokens_of, unraw, Token,
};
use crate::linker::tokens::Piece::{Joint, Punct, Text, Word};

verus! {

/// The words of the templates are identifiers and keywords.
proof fn lemma_words()
    ensures
        is_ascii_identifier("Copy"@),
        is_ascii_identifier("Fn"@),
        is_ascii_identifier("Linker"@),
        is_ascii_identifier("Ok"@),
        is_ascii_identifier("Result"@),
        is_ascii_identifier("Send"@),
        is_ascii_identifier("Sync"@),
        is_ascii_identifier("T"@),
        is_ascii_identifier("U"@),
        is_ascii_identifier("anyhow"@),
        is_ascii_identifier("doc"@),
        is_ascii_identifier("fn"@),
        is_ascii_identifier("get_cx"@),
        is_ascii_identifier("impl"@),
        is_ascii_identifier("linker"@),
        is_ascii_identifier("mut"@),
        is_ascii_identifier("pub"@),
        is_ascii_identifier("static"@),
        is_ascii_identifier("wasmtime_crate"@),
        is_ascii_identifier("where"@),
        is_ascii_identifier("wiggle"@),
{
    reveal_strlit("Copy");
    reveal_strlit("Fn");
    reveal_strlit("Linker");
    reveal_strlit("Ok");
    reveal_strlit("Result");
    reveal_strlit("Send");
    reveal_strlit("Sync");
    reveal_strlit("T");
    reveal_strlit("U");
    reveal_strlit("anyhow");
    reveal_strlit("doc");
    reveal_strlit("fn");
    reveal_strlit("get_cx");
    reveal_strlit("impl");
    reveal_strlit("linker");
    reveal_strlit("mut");
    reveal_strlit("pub");
    reveal_strlit("static");
    reveal_strlit("wasmtime_crate");
    reveal_strlit("where");
    reveal_strlit("wiggle");
}

/// The names in `names`, each once, in the order in which they first occur.
pub open spec fn distinct(names: Seq<Seq<char>>) -> Seq<Seq<char>>
    decreases names.len(),
{
    if names.len() == 0 {
        seq![]
    } else {
        with_name(distinct(names.drop_last()), names.last())
    }
}

/// The names in `names`, and `name` after them unless it is one of them.
pub open spec fn with_name(names: Seq<Seq<char>>, name: Seq<char>) -> Seq<Seq<char>> {
    if names.contains(name) {
        names
    } else {
        names.push(name)
    }
}

/// The traits that the context has to implement for each function, one list after the other.
pub open spec fn all_bounds(funcs: Seq<FuncSettingsView>) -> Seq<Seq<char>>
    decreases funcs.len(),
{
    if funcs.len() == 0 {
        seq![]
    } else {
        all_bounds(funcs.drop_last()) + funcs.last().bounds
    }
}

/// Whether a name for the function that binds the module can be made: not of `$crate`.
pub open spec fn nameable(target: Option<Seq<Token>>, settings: SettingsView) -> bool {
    target is Some ==> !settings.module_ident.contains('$')
}

/// Whether the settings say of each function of the module how to bind it, and each of them can
/// be bound: it returns one value at most.
pub open spec fn bindable(
    module: ModuleView,
    target: Option<Seq<Token>>,
    settings: SettingsView,
) -> bool {
    &&& nameable(target, settings)
    &&& settings.funcs.len() == module.funcs.len()
    &&& forall|i: int|
        0 <= i < module.funcs.len() ==> (#[trigger] module.funcs[i]).results.len() <= 1
}

/// The names of a list of identifiers.
pub open spec fn names_of(idents: Seq<&Ident>) -> Seq<Seq<char>> {
    idents.map_values(|ident: &Ident| ident_name(*ident))
}

fn insert_ident<'a>(idents: &mut Vec<&'a Ident>, ident: &'a Ident)
    ensures
        names_of(final(idents)@) == with_name(names_of(old(idents)@), ident_name(*ident)),
{
    let name = ident_text(ident);
    for i in 0..idents.len()
        invariant
            idents@ == old(idents)@,
            name@ == ident_name(*ident),
            forall|k: int| 0 <= k < i ==> ident_name(*#[trigger] idents@[k]) != name@,
    {
        if ident_text(idents[i]) == name {
            assert(names_of(idents@)[i as int] == name@);
            return;
        }
    }
    proof {
        if names_of(idents@).contains(name@) {
            let k = names_of(idents@).index_of(name@);
            assert(ident_name(*idents@[k]) == name@);
        }
    }
    idents.push(ident);
    assert(names_of(idents@) =~= names_of(old(idents)@).push(name@));
}

/// Collect the traits that the context has to implement, each once.
#[verifier::rlimit(40)]
fn collect_bounds(settings: &CodegenSettings) -> (bounds: Vec<&Ident>)
    ensures
        names_of(bounds@) == distinct(all_bounds(settings@.funcs)),
{
    let mut bounds: Vec<&Ident> = Vec::new();
    let ghost funcs = settings@.funcs;
    assert(names_of(bounds@) =~= distinct(all_bounds(funcs.take(0))));
    for i in 0..settings.funcs.len()
        invariant
            funcs == settings@.funcs,
            names_of(bounds@) == distinct(all_bounds(funcs.take(i as int))),
    {
        let func = &settings.funcs[i];
        let ghost seen = all_bounds(funcs.take(i as int));
        let ghost more = func@.bounds;
        assert(seen + more.take(0) =~= seen);
        for j in 0..func.bounds.len()
            invariant
                more == func@.bounds,
                names_of(bounds@) == distinct(seen + more.take(j as int)),
        {
            insert_ident(&mut bounds, &func.bounds[j]);
            proof {
                let (before, after) = (seen + more.take(j as int), seen + more.take(j + 1));
                assert(after.drop_last() =~= before);
                assert(after.last() == ident_name(func.bounds[j as int]));
            }
        }
        proof {
            assert(more.take(func.bounds.len() as int) =~= more);
            assert(funcs.take(i + 1).drop_last() =~= funcs.take(i as int));
            assert(funcs.take(i + 1).last().bounds =~= more);
        }
    }
    assert(funcs.take(settings.funcs.len() as int) =~= funcs);
    bounds
}

/// A name occurs in the distinct names exactly if it occurs at all.
pub proof fn lemma_distinct_members(names: Seq<Seq<char>>, name: Seq<char>)
    ensures
        distinct(names).contains(name) <==> names.contains(name),
    decreases names.len(),
{
    if names.len() > 0 {
        let (front, last) = (names.drop_last(), names.last());
        lemma_distinct_members(front, name);
        lemma_distinct_members(front, last);
        assert(names =~= front.push(last));
        lemma_push_contains(front, last, name);
        lemma_push_contains(distinct(front), last, name);
    }
}

/// The names in a list with one more name.
proof fn lemma_push_contains(names: Seq<Seq<char>>, last: Seq<char>, name: Seq<char>)
    ensures
        names.push(last).contains(name) <==> names.contains(name) || name == last,
{
    if names.contains(name) {
        assert(names.push(last)[names.index_of(name)] == name);
    }
    assert(names.push(last)[names.len() as int] == last);
}

/// Each of the traits belongs to some function.
pub proof fn lemma_bound_origin(funcs: Seq<FuncSettingsView>, bound: Seq<char>)
    ensures
        all_bounds(funcs).contains(bound) <==> exists|i: int|
            0 <= i < funcs.len() && (#[trigger] funcs[i]).bounds.contains(bound),
    decreases funcs.len(),
{
    if funcs.len() > 0 {
        let (front, last) = (funcs.drop_last(), funcs.last());
        let (before, more) = (all_bounds(front), last.bounds);
        lemma_bound_origin(front, bound);
        if all_bounds(funcs).contains(bound) {
            let k = all_bounds(funcs).index_of(bound);
            if k < before.len() {
                assert(before[k] == bound);
                let i = choose|i: int|
                    0 <= i < front.len() && (#[trigger] front[i]).bounds.contains(bound);
                assert(funcs[i].bounds.contains(bound));
            } else {
                assert(more[k - before.len()] == bound);
                assert(funcs[funcs.len() - 1].bounds.contains(bound));
            }
        }
        if exists|i: int| 0 <= i < funcs.len() && (#[trigger] funcs[i]).bounds.contains(bound) {
            let i = choose|i: int|
                0 <= i < funcs.len() && (#[trigger] funcs[i]).bounds.contains(bound);
            if i < front.len() {
                assert(front[i].bounds.contains(bound));
                assert(all_bounds(funcs)[before.index_of(bound)] == bound);
            } else {
                assert(all_bounds(funcs)[before.len() + more.index_of(bound)] == bound);
            }
        }
    }
}

/// The traits that the context has to implement, with `+` between them.
pub open spec fn bound_list(
    target: Option<Seq<Token>>,
    module_ident: Seq<char>,
    bounds: Seq<Seq<char>>,
) -> Seq<Token>
    decreases bounds.len(),
{
    if bounds.len() == 0 {
        seq![]
    } else if bounds.len() == 1 {
        qualified(target, module_ident, bounds[0])
    } else {
        bound_list(target, module_ident, bounds.drop_last()) + tokens_of(seq![
            Punct('+'),
        ]) + qualified(
            target,
            module_ident,
            bounds.last(),
        )
    }
}

fn push_bound_list(
    tokens: &mut TokenStream,
    target_path: Option<&syn::Path>,
    module_ident: &Ident,
    bounds: &Vec<&Ident>,
)
    ensures
        stream_tokens(*final(tokens)) == stream_tokens(*old(tokens)) + bound_list(
            target_tokens(target_path),
            ident_name(*module_ident),
            names_of(bounds@),
        ),
{
    let ghost target = target_tokens(target_path);
    let ghost names = names_of(bounds@);
    assert(stream_tokens(*tokens) =~= stream_tokens(*old(tokens)) + bound_list(
        target,
        ident_name(*module_ident),
        names.take(0),
    ));
    for i in 0..bounds.len()
        invariant
            target == target_tokens(target_path),
            names == names_of(bounds@),
            stream_tokens(*tokens) == stream_tokens(*old(tokens)) + bound_list(
                target,
                ident_name(*module_ident),
                names.take(i as int),
            ),
    {
        let ghost before = bound_list(target, ident_name(*module_ident), names.take(i as int));
        if i > 0 {
            push_all(tokens, vec![Punct('+')]);
        }
        push_qualified(tokens, target_path, module_ident, bounds[i]);
        proof {
            let seen = names.take(i + 1);
            let last = qualified(target, ident_name(*module_ident), names[i as int]);
            assert(seen.drop_last() =~= names.take(i as int));
            assert(seen.last() == names[i as int]);
            if i > 0 {
                let plus = tokens_of(seq![Punct('+')]);
                lemma_regroup(stream_tokens(*old(tokens)), before, plus);
                lemma_regroup(stream_tokens(*old(tokens)), before + plus, last);
            } else {
                assert(stream_tokens(*old(tokens)) + before =~= stream_tokens(*old(tokens)));
            }
        }
    }
    assert(names.take(bounds.len() as int) =~= names);
}

/// What the context has to be besides, where it is sent between threads.
pub open spec fn send_bound(contains_async: bool) -> Seq<Token> {
    if contains_async {
        tokens_of(seq![Punct('+'), Word("Send"), Punct(','), Word("T"), Punct(':'), Word("Send")])
    } else {
        seq![]
    }
}

fn push_send_bound(tokens: &mut TokenStream, contains_async: bool)
    ensures
        stream_tokens(*final(tokens)) == stream_tokens(*old(tokens)) + send_bound(contains_async),
{
    proof {
        lemma_words();
    }
    if contains_async {
        push_all(tokens, vec![
            Punct('+'), Word("Send"), Punct(','), Word("T"), Punct(':'), Word("Send"),
        ]);
    } else {
        assert(stream_tokens(*tokens) + send_bound(contains_async) =~= stream_tokens(*tokens));
    }
}

/// The statements that bind the first `n` functions, in order.
pub open spec fn bindings(
    module: ModuleView,
    target: Option<Seq<Token>>,
    settings: SettingsView,
    n: nat,
) -> Seq<Token>
    decreases n,
{
    if n == 0 {
        seq![]
    } else {
        bindings(module, target, settings, (n - 1) as nat) + binding(
            module.name,
            target,
            settings.module_ident,
            module.funcs[n - 1],
            settings.funcs[n - 1],
        )
    }
}

fn push_bindings(
    tokens: &mut TokenStream,
    module: &InterfaceModule,
    target_path: Option<&syn::Path>,
    settings: &CodegenSettings,
)
    requires
        bindable(module@, target_tokens(target_path), settings@),
    ensures
        stream_tokens(*final(tokens)) == stream_tokens(*old(tokens)) + bindings(
            module@,
            target_tokens(target_path),
            settings@,
            module.funcs.len() as nat,
        ),
{
    let ghost target = target_tokens(target_path);
    assert(stream_tokens(*tokens) =~= stream_tokens(*old(tokens)) + bindings(
        module@,
        target,
        settings@,
        0,
    ));
    for i in 0..module.funcs.len()
        invariant
            target == target_tokens(target_path),
            bindable(module@, target_tokens(target_path), settings@),
            stream_tokens(*tokens) == stream_tokens(*old(tokens)) + bindings(
                module@,
                target,
                settings@,
                i as nat,
            ),
    {
        let ghost before = bindings(module@, target, settings@, i as nat);
        assert(module@.funcs[i as int] == module.funcs[i as int]@);
        assert(settings@.funcs[i as int] == settings.funcs[i as int]@);
        let statement = generate_func(
            module.name.as_str(),
            &module.funcs[i],
            target_path,
            &settings.module_ident,
            &settings.funcs[i],
        );
        push_stream(tokens, &statement);
        proof {
            lemma_regroup(stream_tokens(*old(tokens)), before, stream_tokens(statement));
        }
    }
}

/// The name of the function that binds a module. It carries the name of the module where several
/// modules may be bound in one place.
pub open spec fn link_name(target: Option<Seq<Token>>, module_ident: Seq<char>) -> Seq<char> {
    match target {
        Some(_) => "add_"@ + unraw(module_ident) + "_to_linker"@,
        None => "add_to_linker"@,
    }
}

fn push_link_name(
    tokens: &mut TokenStream,
    target_path: Option<&syn::Path>,
    settings: &CodegenSettings,
)
    requires
        nameable(target_tokens(target_path), settings@),
    ensures
        stream_tokens(*final(tokens)) == stream_tokens(*old(tokens)).push(
            Token::Word(link_name(target_tokens(target_path), settings@.module_ident)),
        ),
{
    proof {
        reveal_strlit("add_");
        reveal_strlit("_to_linker");
        reveal_strlit("add_to_linker");
    }
    match target_path {
        Some(_) => {
            let name = affixed_ident("add_", &settings.module_ident, "_to_linker");
            push_ident(tokens, &name);
        },
        None => {
            push_word(tokens, "add_to_linker");
        },
    }
}

/// The documentation of the function that binds a module.
pub open spec fn link_doc() -> Seq<Token> {
    tokens_of(seq![Punct('#')]) + brackets(
        tokens_of(
            seq![
                Word("doc"), Punct('='),
                Text(" Adds all instance items to the specified `Linker`."),
            ],
        ),
    )
}

/// The parameters of the function that binds a module: the linker, and how to find the context in
/// the state of a store.
pub open spec fn link_params() -> Seq<Token> {
    tokens_of(
        seq![
            Word("linker"), Punct(':'), Punct('&'), Word("mut"), Word("wiggle"), Joint(':'),
            Punct(':'), Word("wasmtime_crate"), Joint(':'), Punct(':'), Word("Linker"), Punct('<'),
            Word("T"), Punct('>'), Punct(','), Word("get_cx"), Punct(':'), Word("impl"),
            Word("Fn"),
        ],
    ) + parens(tokens_of(seq![Punct('&'), Word("mut"), Word("T")])) + tokens_of(
        seq![
            Joint('-'), Punct('>'), Punct('&'), Word("mut"), Word("U"), Punct('+'), Word("Send"),
            Punct('+'), Word("Sync"), Punct('+'), Word("Copy"), Punct('+'), Joint('\''),
            Word("static"), Punct(','),
        ],
    )
}

/// What the function that binds a module asks of the context.
#[verifier::opaque]
pub open spec fn context_bound(target: Option<Seq<Token>>, settings: SettingsView) -> Seq<Token> {
    bound_list(target, settings.module_ident, distinct(all_bounds(settings.funcs))) + send_bound(
        settings.contains_async,
    ) + send_bound(settings.contains_async)
}

/// What the function that binds a module does: it binds one function after the other.
#[verifier::opaque]
pub open spec fn link_body(
    module: ModuleView,
    target: Option<Seq<Token>>,
    settings: SettingsView,
) -> Seq<Token> {
    bindings(module, target, settings, module.funcs.len()) + tokens_of(seq![Word("Ok")]) + parens(
        parens(seq![]),
    )
}

/// The function that binds all functions of a module to a linker.
#[verifier::opaque]
pub open spec fn linked(
    module: ModuleView,
    target: Option<Seq<Token>>,
    settings: SettingsView,
) -> Seq<Token> {
    link_doc() + tokens_of(seq![Word("pub"), Word("fn")]) + seq![
        Token::Word(link_name(target, settings.module_ident)),
    ] + tokens_of(seq![
        Punct('<'), Word("T"), Punct(','), Word("U"), Punct('>'),
    ]) + parens(link_params()) + tokens_of(
        seq![
            Joint('-'), Punct('>'), Word("wiggle"), Joint(':'), Punct(':'), Word("anyhow"),
            Joint(':'), Punct(':'), Word("Result"), Punct('<'),
        ],
    ) + parens(seq![]) + tokens_of(seq![
        Punct('>'), Word("where"), Word("U"), Punct(':'),
    ]) + context_bound(target, settings) + braces(
        link_body(module, target, settings),
    )
}

fn push_link_doc(tokens: &mut TokenStream)
    ensures
        stream_tokens(*final(tokens)) == stream_tokens(*old(tokens)) + link_doc(),
{
    proof {
        lemma_words();
    }
    push_all(tokens, vec![Punct('#')]);
    push_brackets(
        tokens,
        all(vec![
            Word("doc"), Punct('='), Text(" Adds all instance items to the specified `Linker`."),
        ]),
    );
}

fn push_link_params(tokens: &mut TokenStream)
    ensures
        stream_tokens(*final(tokens)) == stream_tokens(*old(tokens)) + link_params(),
{
    proof {
        lemma_words();
    }
    push_all(
        tokens,
        vec![
            Word("linker"), Punct(':'), Punct('&'), Word("mut"), Word("wiggle"), Joint(':'),
            Punct(':'), Word("wasmtime_crate"), Joint(':'), Punct(':'), Word("Linker"), Punct('<'),
            Word("T"), Punct('>'), Punct(','), Word("get_cx"), Punct(':'), Word("impl"),
            Word("Fn"),
        ],
    );
    push_parens(tokens, all(vec![Punct('&'), Word("mut"), Word("T")]));
    push_all(tokens, vec![
        Joint('-'), Punct('>'), Punct('&'), Word("mut"), Word("U"), Punct('+'), Word("Send"),
        Punct('+'), Word("Sync"), Punct('+'), Word("Copy"), Punct('+'), Joint('\''),
        Word("static"), Punct(','),
    ]);
}

#[verifier::rlimit(40)]
fn push_context_bound(
    tokens: &mut TokenStream,
    target_path: Option<&syn::Path>,
    settings: &CodegenSettings,
)
    ensures
        stream_tokens(*final(tokens)) == stream_tokens(*old(tokens)) + context_bound(
            target_tokens(target_path),
            settings@,
        ),
{
    proof {
        reveal(context_bound);
    }
    let bounds = collect_bounds(settings);
    push_bound_list(tokens, target_path, &settings.module_ident, &bounds);
    push_send_bound(tokens, settings.contains_async);
    push_send_bound(tokens, settings.contains_async);
}

#[verifier::rlimit(40)]
fn body_of_link(
    module: &InterfaceModule,
    target_path: Option<&syn::Path>,
    settings: &CodegenSettings,
) -> (tokens: TokenStream)
    requires
        bindable(module@, target_tokens(target_path), settings@),
    ensures
        stream_tokens(tokens) == link_body(module@, target_tokens(target_path), settings@),
{
    proof {
        reveal(link_body);
        lemma_words();
    }
    let mut unit = no_tokens();
    push_parens(&mut unit, no_tokens());
    let mut tokens = no_tokens();
    push_bindings(&mut tokens, module, target_path, settings);
    push_all(&mut tokens, vec![Word("Ok")]);
    push_parens(&mut tokens, unit);
    tokens
}

/// Generate the function that binds all functions of a module to a linker.
#[verifier::rlimit(40)]
pub fn link(
    module: &InterfaceModule,
    target_path: Option<&syn::Path>,
    settings: &CodegenSettings,
) -> (tokens: TokenStream)
    requires
        bindable(module@, target_tokens(target_path), settings@),
    ensures
        stream_tokens(tokens) == linked(module@, target_tokens(target_path), settings@),
{
    proof {
        reveal(linked);
        lemma_words();
    }
    let mut params = no_tokens();
    push_link_params(&mut params);
    let body = body_of_link(module, target_path, settings);
    let mut tokens = no_tokens();
    push_link_doc(&mut tokens);
    push_all(&mut tokens, vec![Word("pub"), Word("fn")]);
    push_link_name(&mut tokens, target_path, settings);
    push_all(&mut tokens, vec![Punct('<'), Word("T"), Punct(','), Word("U"), Punct('>')]);
    push_parens(&mut tokens, params);
    push_all(&mut tokens, vec![
        Joint('-'), Punct('>'), Word("wiggle"), Joint(':'), Punct(':'), Word("anyhow"), Joint(':'),
        Punct(':'), Word("Result"), Punct('<'),
    ]);
    push_parens(&mut tokens, no_tokens());
    push_all(&mut tokens, vec![Punct('>'), Word("where"), Word("U"), Punct(':')]);
    push_context_bound(&mut tokens, target_path, settings);
    push_braces(&mut tokens, body);
    tokens
}

/// Generate the function that binds all functions of a module to a linker.
pub fn link_module(
    module: &witx::Module,
    target_path: Option<&syn::Path>,
    settings: &CodegenSettings,
) -> (result: Result<TokenStream, LinkError>)
    ensures
        result matches Err(LinkError::Name) <==> !nameable(target_tokens(target_path), settings@),
        result matches Err(LinkError::FuncCount) <==> nameable(
            target_tokens(target_path),
            settings@,
        ) && settings.funcs.len() != witx_funcs(*module).len(),
        result matches Ok(tokens) ==> stream_tokens(tokens) == linked(
            (ModuleView { name: witx_name(*module), funcs: witx_funcs(*module) }),
            target_tokens(target_path),
            settings@,
        ),
{
    let name = ident_text(&settings.module_ident);
    if target_path.is_some() && test_contains(name.as_str(), '$') {
        return Err(LinkError::Name);
    }
    let module = read_module(module);
    if settings.funcs.len() != module.funcs.len() {
        return Err(LinkError::FuncCount);
    }
    proof {
        assert forall|i: int| 0 <= i < module@.funcs.len() implies (
        #[trigger] module@.funcs[i]).results.len() <= 1 by {
            assert(module@.funcs[i] == module.funcs[i]@);
        }
    }
    Ok(link(&module, target_path, settings))
}

} // verus!
