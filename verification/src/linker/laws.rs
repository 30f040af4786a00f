//! What holds of the code that binds modules.

use vstd::prelude::*;

use crate::linker::glue::{binding, body, closure};
use crate::linker::link::{
    all_bounds, bindings, bound_list, context_bound, distinct, lemma_bound_origin,
    lemma_distinct_members, link_body, linked,
};
use crate::linker::module::{FuncSettingsView, ModuleView, SettingsView};
use crate::linker::tokens::Token;

verus! {

/// No name occurs twice among the distinct names.
proof fn lemma_distinct_unique(names: Seq<Seq<char>>)
    ensures
        distinct(names).no_duplicates(),
    decreases names.len(),
{
    if names.len() > 0 {
        let (front, last) = (distinct(names.drop_last()), names.last());
        lemma_distinct_unique(names.drop_last());
        if !front.contains(last) {
            let longer = front.push(last);
            assert forall|i: int, j: int|
                0 <= i < longer.len() && 0 <= j < longer.len() && i != j implies longer[i]
                != longer[j] by {
                if i == front.len() {
                    assert(front.contains(front[j]));
                } else if j == front.len() {
                    assert(front.contains(front[i]));
                }
            }
        }
    }
}

/// The context has to implement exactly the traits that some function needs, and each of them is
/// asked for once.
pub proof fn law_bounds(funcs: Seq<FuncSettingsView>, bound: Seq<char>)
    ensures
        distinct(all_bounds(funcs)).no_duplicates(),
        distinct(all_bounds(funcs)).contains(bound) <==> exists|i: int|
            0 <= i < funcs.len() && (#[trigger] funcs[i]).bounds.contains(bound),
{
    lemma_distinct_unique(all_bounds(funcs));
    lemma_distinct_members(all_bounds(funcs), bound);
    lemma_bound_origin(funcs, bound);
}

/// The statements that bind the first functions come first.
proof fn lemma_bindings_prefix(
    module: ModuleView,
    target: Option<Seq<Token>>,
    settings: SettingsView,
    m: nat,
    n: nat,
)
    requires
        m <= n,
    ensures
        bindings(module, target, settings, m).is_prefix_of(bindings(module, target, settings, n)),
    decreases n,
{
    if m < n {
        lemma_bindings_prefix(module, target, settings, m, (n - 1) as nat);
    }
}

/// All functions of a module are bound, each by one statement, in the order in which the module
/// defines them.
pub proof fn law_every_function_is_bound(
    module: ModuleView,
    target: Option<Seq<Token>>,
    settings: SettingsView,
    i: nat,
)
    requires
        i < module.funcs.len(),
    ensures
        bindings(module, target, settings, i).is_prefix_of(link_body(module, target, settings)),
        link_body(module, target, settings).subrange(
            bindings(module, target, settings, i).len() as int,
            bindings(module, target, settings, i + 1).len() as int,
        ) == binding(
            module.name,
            target,
            settings.module_ident,
            module.funcs[i as int],
            settings.funcs[i as int],
        ),
{
    reveal(link_body);
    let body = link_body(module, target, settings);
    let (before, upto) = (
        bindings(module, target, settings, i),
        bindings(module, target, settings, i + 1),
    );
    let every = bindings(module, target, settings, module.funcs.len());
    lemma_bindings_prefix(module, target, settings, i + 1, module.funcs.len());
    assert(every.is_prefix_of(body));
    assert(upto.is_prefix_of(body));
    let statement = binding(
        module.name,
        target,
        settings.module_ident,
        module.funcs[i as int],
        settings.funcs[i as int],
    );
    assert(upto == before + statement);
    assert(body.subrange(before.len() as int, upto.len() as int) =~= statement);
}

/// Without a path to the Rust modules, the name of the Rust module does not matter.
pub proof fn law_no_target_no_module_name(
    module: ModuleView,
    settings: SettingsView,
    module_ident: Seq<char>,
)
    ensures
        linked(module, None, (SettingsView { module_ident, ..settings })) == linked(
            module,
            None,
            settings,
        ),
{
    reveal(linked);
    reveal(link_body);
    reveal(context_bound);
    let other = SettingsView { module_ident, ..settings };
    lemma_bindings_without_target(module, settings, module_ident, module.funcs.len());
    lemma_bound_list_without_target(
        settings.module_ident,
        module_ident,
        distinct(all_bounds(settings.funcs)),
    );
    assert(context_bound(None, other) == context_bound(None, settings));
}

proof fn lemma_bindings_without_target(
    module: ModuleView,
    settings: SettingsView,
    module_ident: Seq<char>,
    n: nat,
)
    ensures
        bindings(module, None, (SettingsView { module_ident, ..settings }), n) == bindings(
            module,
            None,
            settings,
            n,
        ),
    decreases n,
{
    reveal(binding);
    reveal(closure);
    reveal(body);
    if n > 0 {
        lemma_bindings_without_target(module, settings, module_ident, (n - 1) as nat);
    }
}

proof fn lemma_bound_list_without_target(
    ident: Seq<char>,
    other: Seq<char>,
    bounds: Seq<Seq<char>>,
)
    ensures
        bound_list(None, ident, bounds) == bound_list(None, other, bounds),
    decreases bounds.len(),
{
    if bounds.len() > 1 {
        lemma_bound_list_without_target(ident, other, bounds.drop_last());
    }
}

} // verus!
