//! Interface modules, and how their functions are to be bound.

use proc_macro2::Ident;
use vstd::prelude::*;

use crate::linker::tokens::ident_name;

verus! {

/// A type of the values that a function takes or returns.
#[derive(Clone, Copy, Debug, PartialEq, Eq, Structural)]
pub enum WasmType {
    I32,
    I64,
    F32,
    F64,
}

impl WasmType {
    /// The name of the type.
    pub open spec fn spec_name(self) -> Seq<char> {
        match self {
            WasmType::I32 => "i32"@,
            WasmType::I64 => "i64"@,
            WasmType::F32 => "f32"@,
            WasmType::F64 => "f64"@,
        }
    }

    /// Return the name of the type.
    pub fn name(self) -> (name: &'static str)
        ensures
            name@ == self.spec_name(),
    {
        match self {
            WasmType::I32 => "i32",
            WasmType::I64 => "i64",
            WasmType::F32 => "f32",
            WasmType::F64 => "f64",
        }
    }
}

/// A function of an interface module.
#[derive(Debug)]
pub struct InterfaceFunc {
    /// The name under which the module exports the function.
    pub name: String,
    pub params: Vec<WasmType>,
    pub results: Vec<WasmType>,
}

/// What an [`InterfaceFunc`] stands for.
#[verifier::ext_equal]
pub struct FuncView {
    pub name: Seq<char>,
    pub params: Seq<WasmType>,
    pub results: Seq<WasmType>,
}

impl View for InterfaceFunc {
    type V = FuncView;

    open spec fn view(&self) -> FuncView {
        FuncView { name: self.name@, params: self.params@, results: self.results@ }
    }
}

/// An interface module.
#[derive(Debug)]
pub struct InterfaceModule {
    pub name: String,
    pub funcs: Vec<InterfaceFunc>,
}

/// What an [`InterfaceModule`] stands for.
#[verifier::ext_equal]
pub struct ModuleView {
    pub name: Seq<char>,
    pub funcs: Seq<FuncView>,
}

impl View for InterfaceModule {
    type V = ModuleView;

    open spec fn view(&self) -> ModuleView {
        ModuleView { name: self.name@, funcs: self.funcs@.map_values(|func: InterfaceFunc| func@) }
    }
}

/// How a function runs.
#[derive(Clone, Copy, Debug, PartialEq, Eq, Structural)]
pub enum Asyncness {
    /// It is awaited, and so is the function bound for it.
    Async,
    /// It is awaited by a function that blocks until it is done.
    Blocking,
    /// It is called as it is.
    Sync,
}

impl Asyncness {
    /// Whether nothing is awaited.
    pub fn is_sync(self) -> (sync: bool)
        ensures
            sync == (self == Asyncness::Sync),
    {
        match self {
            Asyncness::Sync => true,
            _ => false,
        }
    }
}

/// How to bind one function.
#[derive(Debug)]
pub struct FuncSettings {
    /// The function that implements it.
    pub ident: Ident,
    pub asyncness: Asyncness,
    /// The traits that the context has to implement for it.
    pub bounds: Vec<Ident>,
}

/// What a [`FuncSettings`] stands for.
#[verifier::ext_equal]
pub struct FuncSettingsView {
    pub ident: Seq<char>,
    pub asyncness: Asyncness,
    pub bounds: Seq<Seq<char>>,
}

impl View for FuncSettings {
    type V = FuncSettingsView;

    open spec fn view(&self) -> FuncSettingsView {
        FuncSettingsView {
            ident: ident_name(self.ident),
            asyncness: self.asyncness,
            bounds: self.bounds@.map_values(|bound: Ident| ident_name(bound)),
        }
    }
}

/// How to bind the functions of a module.
#[derive(Debug)]
pub struct CodegenSettings {
    /// The Rust module that holds the functions and the traits.
    pub module_ident: Ident,
    /// Whether the context has to be sent between threads, as asynchronous functions need.
    pub contains_async: bool,
    /// How to bind each function, in the order in which the module defines them.
    pub funcs: Vec<FuncSettings>,
}

/// What a [`CodegenSettings`] stands for.
#[verifier::ext_equal]
pub struct SettingsView {
    pub module_ident: Seq<char>,
    pub contains_async: bool,
    pub funcs: Seq<FuncSettingsView>,
}

impl View for CodegenSettings {
    type V = SettingsView;

    open spec fn view(&self) -> SettingsView {
        SettingsView {
            module_ident: ident_name(self.module_ident),
            contains_async: self.contains_async,
            funcs: self.funcs@.map_values(|func: FuncSettings| func@),
        }
    }
}

/// Why settings do not fit a module.
#[derive(Clone, Copy, Debug, PartialEq, Eq, Structural)]
pub enum LinkError {
    /// The name of the Rust module is `$crate`, which cannot stand within another name.
    Name,
    /// The settings are for another number of functions.
    FuncCount,
}

#[verifier::external_type_specification]
#[verifier::external_body]
pub struct ExModule(witx::Module);

/// The name of a module.
pub uninterp spec fn witx_name(module: witx::Module) -> Seq<char>;

/// The functions that a module defines, in the order of their definitions.
pub uninterp spec fn witx_funcs(module: witx::Module) -> Seq<FuncView>;

/// The name of a module, from [`witx::Module`]'s `name`.
#[verifier::external_body]
fn read_name(module: &witx::Module) -> (name: String)
    ensures
        name@ == witx_name(*module),
{
    module.name.as_str().to_string()
}

/// The functions of a module, from [`witx::Module::funcs`], each with its name and its
/// [`witx::InterfaceFunc::wasm_signature`]. Modules come out of a parser that refuses functions
/// with more than one result, or with a result for which there is no signature.
#[verifier::external_body]
fn read_funcs(module: &witx::Module) -> (funcs: Vec<InterfaceFunc>)
    ensures
        funcs@.map_values(|func: InterfaceFunc| func@) == witx_funcs(*module),
        forall|i: int| 0 <= i < funcs.len() ==> (#[trigger] funcs[i]).results.len() <= 1,
{
    let convert = |ty: &witx::WasmType| match ty {
        witx::WasmType::I32 => WasmType::I32,
        witx::WasmType::I64 => WasmType::I64,
        witx::WasmType::F32 => WasmType::F32,
        witx::WasmType::F64 => WasmType::F64,
    };
    let plain = |func: std::rc::Rc<witx::InterfaceFunc>| {
        let (params, results) = func.wasm_signature();
        let (params, results) = (params.iter().map(convert), results.iter().map(convert));
        let name = func.name.as_str().to_string();
        InterfaceFunc { name, params: params.collect(), results: results.collect() }
    };
    module.funcs().map(plain).collect()
}

/// Read the name and the functions of a module.
pub fn read_module(module: &witx::Module) -> (plain: InterfaceModule)
    ensures
        plain@ == (ModuleView { name: witx_name(*module), funcs: witx_funcs(*module) }),
        forall|i: int| 0 <= i < plain.funcs.len() ==> (#[trigger] plain.funcs[i]).results.len() <= 1,
{
    InterfaceModule { name: read_name(module), funcs: read_funcs(module) }
}

} // verus!
