use std::rc::Rc;
use std::str::FromStr;

use codegen_meta::linker::glue::generate_func;
use codegen_meta::linker::link::{link, link_module};
use codegen_meta::linker::module::{
    read_module, Asyncness, CodegenSettings, FuncSettings, InterfaceFunc, InterfaceModule,
    LinkError, WasmType,
};
use proc_macro2::{Ident, Span, TokenStream};

const MEMORY: &str = "
    let export = caller . get_export ( \"memory\" ) ;
    let ( mem , ctx ) = match & export {
        Some ( wiggle :: wasmtime_crate :: Extern :: Memory ( m ) ) => {
            let ( mem , ctx ) = m . data_and_store_mut ( & mut caller ) ;
            let ctx = get_cx ( ctx ) ;
            ( wiggle :: wasmtime :: WasmtimeGuestMemory :: new ( mem ) , ctx )
        }
        Some ( wiggle :: wasmtime_crate :: Extern :: SharedMemory ( m ) ) => {
            let ctx = get_cx ( caller . data_mut ( ) ) ;
            ( wiggle :: wasmtime :: WasmtimeGuestMemory :: shared ( m . data ( ) ) , ctx )
        }
        _ => wiggle :: anyhow :: bail ! ( \"missing required memory export\" ) ,
    } ;
";

fn normal(text: &str) -> String {
    TokenStream::from_str(text).unwrap().to_string()
}

fn func(name: &str, params: &[WasmType], results: &[WasmType]) -> InterfaceFunc {
    InterfaceFunc {
        name: name.to_string(),
        params: params.to_vec(),
        results: results.to_vec(),
    }
}

fn word(name: &str) -> Ident {
    Ident::new(name, Span::call_site())
}

fn settings(ident: &str, asyncness: Asyncness, bounds: &[&str]) -> FuncSettings {
    FuncSettings {
        ident: word(ident),
        asyncness,
        bounds: bounds.iter().map(|b| word(b)).collect(),
    }
}

fn witx_module(text: &str, name: &str) -> Rc<witx::Module> {
    witx::parse(text).unwrap().module(&witx::Id::new(name)).unwrap()
}

const ATOMS: &str = "
    (module $atoms
        (@interface func (export \"int_float_args\")
            (param $an_int u32)
            (param $an_float f32))
        (@interface func (export \"double\")
            (param $items (list u8))
            (result $sum u64)))
";

#[test]
fn sync_functions_are_called_directly() {
    let tokens = generate_func(
        "atoms",
        &func("int-float", &[WasmType::I32, WasmType::F32], &[WasmType::I64]),
        None,
        &word("atoms"),
        &settings("int_float", Asyncness::Sync, &[]),
    );
    let expected = format!(
        "linker . func_wrap (
            \"atoms\" ,
            \"int-float\" ,
            move | mut caller : wiggle :: wasmtime_crate :: Caller < '_ , T > , arg0 : i32 , arg1 : f32 | -> wiggle :: anyhow :: Result < i64 > {{
                {MEMORY}
                Ok ( < i64 > :: from ( int_float ( ctx , & mem , arg0 , arg1 ) ? ) )
            }} ,
        ) ? ;"
    );
    assert_eq!(tokens.to_string(), normal(&expected));
}

#[test]
fn blocking_functions_are_waited_for() {
    let tokens = generate_func(
        "atoms",
        &func("nothing", &[], &[]),
        None,
        &word("atoms"),
        &settings("nothing", Asyncness::Blocking, &[]),
    );
    let expected = format!(
        "linker . func_wrap (
            \"atoms\" ,
            \"nothing\" ,
            move | mut caller : wiggle :: wasmtime_crate :: Caller < '_ , T > | -> wiggle :: anyhow :: Result < ( ) > {{
                let result = async {{
                    {MEMORY}
                    Ok ( < ( ) > :: from ( nothing ( ctx , & mem ) . await ? ) )
                }} ;
                wiggle :: run_in_dummy_executor ( result ) ?
            }} ,
        ) ? ;"
    );
    assert_eq!(tokens.to_string(), normal(&expected));
}

#[test]
fn async_functions_give_futures() {
    let path: syn::Path = syn::parse_str("crate::host").unwrap();
    let params = [WasmType::F64; 11];
    let tokens = generate_func(
        "atoms",
        &func("many", &params, &[WasmType::I32]),
        Some(&path),
        &word("atoms_mod"),
        &settings("many", Asyncness::Async, &[]),
    );
    let decls: String = (0..11).map(|i| format!(", arg{i} : f64 ")).collect();
    let uses: String = (0..11).map(|i| format!(", arg{i} ")).collect();
    let expected = format!(
        "linker . func_wrap11_async (
            \"atoms\" ,
            \"many\" ,
            move | mut caller : wiggle :: wasmtime_crate :: Caller < '_ , T > {decls} | {{
                Box :: new ( async move {{
                    {MEMORY}
                    Ok ( < i32 > :: from ( crate :: host :: atoms_mod :: many ( ctx , & mem {uses} ) . await ? ) )
                }} )
            }} ,
        ) ? ;"
    );
    assert_eq!(tokens.to_string(), normal(&expected));
}

#[test]
fn names_in_string_literals_are_escaped() {
    let tokens = generate_func(
        "a\"b",
        &func("c\\d", &[], &[]),
        None,
        &word("m"),
        &settings("f", Asyncness::Sync, &[]),
    );
    assert!(tokens.to_string().contains("\"a\\\"b\""));
    assert!(tokens.to_string().contains("\"c\\\\d\""));
}

#[test]
fn modules_are_read_in_order() {
    let module = read_module(&witx_module(ATOMS, "atoms"));
    assert_eq!(module.name, "atoms");
    assert_eq!(module.funcs.len(), 2);
    assert_eq!(module.funcs[0].name, "int_float_args");
    assert_eq!(module.funcs[0].params, [WasmType::I32, WasmType::F32]);
    assert!(module.funcs[0].results.is_empty());
    assert_eq!(module.funcs[1].name, "double");
    assert_eq!(module.funcs[1].params, [WasmType::I32, WasmType::I32]);
    assert_eq!(module.funcs[1].results, [WasmType::I64]);
}

fn head(name: &str) -> String {
    format!(
        "#[doc = \" Adds all instance items to the specified `Linker`.\"]
        pub fn {name} < T , U > (
            linker : & mut wiggle :: wasmtime_crate :: Linker < T > ,
            get_cx : impl Fn ( & mut T ) -> & mut U + Send + Sync + Copy + 'static ,
        ) -> wiggle :: anyhow :: Result < ( ) > where U :"
    )
}

#[test]
fn a_module_is_linked_function_by_function() {
    let module = witx_module(ATOMS, "atoms");
    let settings = CodegenSettings {
        module_ident: word("atoms"),
        contains_async: false,
        funcs: vec![
            settings("int_float_args", Asyncness::Sync, &["Atoms", "Errors"]),
            settings("double", Asyncness::Sync, &["More", "Atoms"]),
        ],
    };
    let tokens = link_module(&module, None, &settings).unwrap().to_string();
    let plain = read_module(&module);
    let first = generate_func("atoms", &plain.funcs[0], None, &word("atoms"), &settings.funcs[0]);
    let second = generate_func("atoms", &plain.funcs[1], None, &word("atoms"), &settings.funcs[1]);
    let expected = format!(
        "{} Atoms + Errors + More {{ {first} {second} Ok ( ( ) ) }}",
        head("add_to_linker"),
    );
    assert_eq!(tokens, normal(&expected));
}

#[test]
fn a_target_path_qualifies_names() {
    let path: syn::Path = syn::parse_str("::host::api").unwrap();
    let module = InterfaceModule { name: "atoms".to_string(), funcs: vec![func("f", &[], &[])] };
    let settings = CodegenSettings {
        module_ident: word("atoms"),
        contains_async: true,
        funcs: vec![settings("f", Asyncness::Async, &["A", "B", "A"])],
    };
    let statement = generate_func("atoms", &module.funcs[0], Some(&path), &word("atoms"), &settings.funcs[0]);
    assert!(statement.to_string().starts_with("linker . func_wrap0_async"));
    let expected = format!(
        "{} :: host :: api :: atoms :: A + :: host :: api :: atoms :: B
            + Send , T : Send + Send , T : Send {{ {statement} Ok ( ( ) ) }}",
        head("add_atoms_to_linker"),
    );
    assert_eq!(link(&module, Some(&path), &settings).to_string(), normal(&expected));
}

#[test]
fn a_module_without_functions_binds_nothing() {
    let module = witx_module("(module $empty)", "empty");
    let settings = CodegenSettings {
        module_ident: word("other"),
        contains_async: false,
        funcs: vec![],
    };
    let tokens = link_module(&module, None, &settings).unwrap().to_string();
    assert_eq!(tokens, normal(&format!("{} {{ Ok ( ( ) ) }}", head("add_to_linker"))));
    let renamed = CodegenSettings { module_ident: word("name"), ..settings };
    assert_eq!(link_module(&module, None, &renamed).unwrap().to_string(), tokens);
}

#[test]
fn settings_for_other_functions_are_refused() {
    let module = witx_module(ATOMS, "atoms");
    let settings = CodegenSettings {
        module_ident: word("atoms"),
        contains_async: false,
        funcs: vec![settings("int_float_args", Asyncness::Sync, &[])],
    };
    assert_eq!(
        link_module(&module, None, &settings).unwrap_err(),
        LinkError::FuncCount
    );
}

#[test]
fn raw_identifiers_are_kept_in_paths() {
    let module = witx_module("(module $m (@interface func (export \"f\")))", "m");
    let raw = |name: &str| Ident::new_raw(name, Span::call_site());
    let settings = CodegenSettings {
        module_ident: raw("type"),
        contains_async: false,
        funcs: vec![FuncSettings {
            ident: raw("yield"),
            asyncness: Asyncness::Sync,
            bounds: vec![word("B"), raw("trait"), word("B"), raw("trait")],
        }],
    };
    let path: syn::Path = syn::parse_str("host").unwrap();
    let tokens = link_module(&module, Some(&path), &settings).unwrap().to_string();
    assert!(tokens.contains("pub fn add_type_to_linker"));
    assert!(tokens.contains("host :: r#type :: r#yield (ctx , & mem)"));
    assert!(tokens.contains("where U : host :: r#type :: B + host :: r#type :: r#trait {"));
    let tokens = link_module(&module, None, &settings).unwrap().to_string();
    assert!(tokens.contains("pub fn add_to_linker"));
    assert!(tokens.contains("where U : B + r#trait {"));
}

#[test]
fn names_beyond_ascii_are_kept() {
    let module = witx_module("(module $m (@interface func (export \"f\")))", "m");
    let settings = CodegenSettings {
        module_ident: word("größe"),
        contains_async: false,
        funcs: vec![settings("é", Asyncness::Sync, &[])],
    };
    let path: syn::Path = syn::parse_str("host").unwrap();
    let tokens = link_module(&module, Some(&path), &settings).unwrap().to_string();
    assert!(tokens.contains("pub fn add_größe_to_linker"));
    assert!(tokens.contains("host :: größe :: é"));
}
