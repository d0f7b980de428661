//! A hook: a function that the instrumented module imports, and the JavaScript
//! that stands behind the import.
use vstd::prelude::*;

use crate::text::{join, join_strings, replace_dots, texts, undotted};
use crate::wasm::{lowered, push_lowered, Function, FunctionType, FunctionTypeView, FunctionView, ValType};

verus! {

/// A JavaScript argument together with its WebAssembly type.
#[derive(Debug, PartialEq, Eq)]
pub struct Arg {
    pub name: String,
    pub ty: ValType,
}

/// Mathematical counterpart of [`Arg`].
#[verifier::ext_equal]
pub struct ArgView {
    pub name: Seq<char>,
    pub ty: ValType,
}

impl View for Arg {
    type V = ArgView;

    open spec fn view(&self) -> ArgView {
        ArgView { name: self.name@, ty: self.ty }
    }
}

/// The views of a list of arguments.
pub open spec fn views(args: Seq<Arg>) -> Seq<ArgView> {
    args.map_values(|arg: Arg| arg@)
}

impl ArgView {
    /// The argument in the parameter list of the low-level JavaScript function: an
    /// `i64` is two parameters, its halves.
    pub open spec fn lowlevel_param_name(self) -> Seq<char> {
        if self.ty == ValType::I64 {
            self.name + "_low, "@ + self.name + "_high"@
        } else {
            self.name
        }
    }

    /// The names of the parameters that stand for the argument, one for each of its
    /// lowered types.
    pub open spec fn lowlevel_names(self) -> Seq<Seq<char>> {
        if self.ty == ValType::I64 {
            seq![self.name + "_low"@, self.name + "_high"@]
        } else {
            seq![self.name]
        }
    }

    /// The argument as it is forwarded to the high-level hook: an `i64` is put
    /// together again from its halves.
    pub open spec fn lowlevel_long_expr(self) -> Seq<char> {
        if self.ty == ValType::I64 {
            "new Long("@ + self.lowlevel_param_name() + ")"@
        } else {
            self.name
        }
    }
}

/// The parameter list of the low-level JavaScript function, behind the location.
pub open spec fn param_list(args: Seq<ArgView>) -> Seq<char> {
    join(args.map_values(|arg: ArgView| arg.lowlevel_param_name()), ", "@)
}

/// The arguments as they are forwarded to the high-level hook.
pub open spec fn long_expr_list(args: Seq<ArgView>) -> Seq<char> {
    join(args.map_values(|arg: ArgView| arg.lowlevel_long_expr()), ", "@)
}

/// The names of the parameters that stand for the arguments.
pub open spec fn lowlevel_names(args: Seq<ArgView>) -> Seq<Seq<char>>
    decreases args.len(),
{
    if args.len() == 0 {
        Seq::empty()
    } else {
        lowlevel_names(args.drop_last()) + args.last().lowlevel_names()
    }
}

/// The types of the arguments, each `i64` as its two halves.
pub open spec fn lowered_types(args: Seq<ArgView>) -> Seq<ValType>
    decreases args.len(),
{
    if args.len() == 0 {
        Seq::empty()
    } else {
        lowered_types(args.drop_last()) + lowered(args.last().ty)
    }
}

impl Arg {
    /// Makes an argument from its name and type.
    pub fn new(name: &str, ty: ValType) -> (arg: Arg)
        ensures
            arg@ == (ArgView { name: name@, ty }),
    {
        Arg { name: name.to_owned(), ty }
    }

    /// Returns the parameter name, or the two parameter names of an `i64`, in the
    /// low-level JavaScript function.
    pub fn to_lowlevel_param_name(&self) -> (text: String)
        ensures
            text@ == self@.lowlevel_param_name(),
    {
        let mut text = self.name.clone();
        if self.ty == ValType::I64 {
            text.append("_low, ");
            text.append(self.name.as_str());
            text.append("_high");
        }
        text
    }

    /// Returns the actual argument when forwarding to the high-level hook.
    pub fn to_lowlevel_long_expr(&self) -> (text: String)
        ensures
            text@ == self@.lowlevel_long_expr(),
    {
        if self.ty == ValType::I64 {
            let mut text = String::from_str("new Long(");
            text.append(self.to_lowlevel_param_name().as_str());
            text.append(")");
            text
        } else {
            self.name.clone()
        }
    }
}

/// Joins the parameter names of the arguments.
fn join_param_names(args: &Vec<Arg>) -> (list: String)
    ensures
        list@ == param_list(views(args@)),
{
    let mut names: Vec<String> = Vec::new();
    let mut i: usize = 0;
    while i < args.len()
        invariant
            i <= args.len(),
            names@.len() == i,
            forall|k: int| 0 <= k < i ==> (#[trigger] names@[k])@ == args@[k]@.lowlevel_param_name(),
        decreases args.len() - i,
    {
        names.push(args[i].to_lowlevel_param_name());
        i += 1;
    }
    assert(texts(names@) =~= views(args@).map_values(|arg: ArgView| arg.lowlevel_param_name()));
    join_strings(&names, ", ")
}

/// Joins the forwarded forms of the arguments.
pub fn join_long_exprs(args: &Vec<Arg>) -> (list: String)
    ensures
        list@ == long_expr_list(views(args@)),
{
    let mut exprs: Vec<String> = Vec::new();
    let mut i: usize = 0;
    while i < args.len()
        invariant
            i <= args.len(),
            exprs@.len() == i,
            forall|k: int| 0 <= k < i ==> (#[trigger] exprs@[k])@ == args@[k]@.lowlevel_long_expr(),
        decreases args.len() - i,
    {
        exprs.push(args[i].to_lowlevel_long_expr());
        i += 1;
    }
    assert(texts(exprs@) =~= views(args@).map_values(|arg: ArgView| arg.lowlevel_long_expr()));
    join_strings(&exprs, ", ")
}

/// Appends the types of the arguments, each `i64` as its two halves.
fn push_lowered_types(tys: &mut Vec<ValType>, args: &Vec<Arg>)
    ensures
        final(tys)@ == old(tys)@ + lowered_types(views(args@)),
{
    let mut i: usize = 0;
    assert(tys@ =~= old(tys)@ + lowered_types(views(args@).take(0)));
    while i < args.len()
        invariant
            i <= args.len(),
            tys@ == old(tys)@ + lowered_types(views(args@).take(i as int)),
        decreases args.len() - i,
    {
        push_lowered(tys, args[i].ty);
        proof {
            let longer = views(args@).take(i + 1);
            assert(longer.drop_last() =~= views(args@).take(i as int));
            assert(tys@ =~= old(tys)@ + lowered_types(longer));
        }
        i += 1;
    }
    assert(views(args@).take(i as int) =~= views(args@));
}

/// A hook.
#[derive(Debug, PartialEq, Eq)]
pub struct Hook {
    /// The index of the function in the instrumented module; zero until the hook
    /// is entered in a table.
    pub idx: usize,
    /// The low-level function to import into the instrumented module.
    pub wasm: Function,
    /// The low-level JavaScript hook, which calls the high-level user hook.
    pub js: String,
}

/// Mathematical counterpart of [`Hook`].
#[verifier::ext_equal]
pub struct HookView {
    pub idx: usize,
    pub wasm: FunctionView,
    pub js: Seq<char>,
}

impl View for Hook {
    type V = HookView;

    open spec fn view(&self) -> HookView {
        HookView { idx: self.idx, wasm: self.wasm@, js: self.js@ }
    }
}

impl HookView {
    /// The name under which the hook is imported.
    pub open spec fn lowlevel_name(self) -> Seq<char> {
        self.wasm.import_name
    }

    /// The same hook at another function index.
    pub open spec fn at(self, idx: usize) -> HookView {
        HookView { idx, ..self }
    }
}

/// The JavaScript of a hook: a property whose value is a function that takes the
/// location and the arguments, and calls the high-level hook.
pub open spec fn hook_js(
    lowlevel_name: Seq<char>,
    args: Seq<ArgView>,
    highlevel_name: Seq<char>,
    js_args: Seq<char>,
) -> Seq<char> {
    "\""@ + lowlevel_name + "\": function (func, instr, "@ + param_list(args)
        + ") {\n    Wasabi.analysis."@ + highlevel_name + "({func, instr}, "@ + js_args
        + ");\n},"@
}

/// The import of a hook: a function of the hooks module that takes two `i32` for
/// the location and then the arguments, and returns nothing.
pub open spec fn hook_import(lowlevel_name: Seq<char>, args: Seq<ArgView>) -> FunctionView {
    FunctionView {
        type_: FunctionTypeView {
            inputs: seq![ValType::I32, ValType::I32] + lowered_types(args),
            results: Seq::empty(),
        },
        import_module: "__wasabi_hooks"@,
        import_name: lowlevel_name,
    }
}

/// A hook that has no place in a table yet.
pub open spec fn new_hook(
    lowlevel_name: Seq<char>,
    args: Seq<ArgView>,
    highlevel_name: Seq<char>,
    js_args: Seq<char>,
) -> HookView {
    HookView {
        idx: 0,
        wasm: hook_import(lowlevel_name, args),
        js: hook_js(lowlevel_name, args, highlevel_name, js_args),
    }
}

impl Hook {
    /// Makes a hook. `args` are the arguments without the location and before an
    /// `i64` is split. `js_args` is a fragment of JavaScript that is pasted into the
    /// call of the high-level hook.
    pub fn new(lowlevel_name: &str, args: Vec<Arg>, highlevel_name: &str, js_args: &str) -> (hook:
        Hook)
        ensures
            hook@ == new_hook(lowlevel_name@, views(args@), highlevel_name@, js_args@),
    {
        let mut js = String::from_str("\"");
        js.append(lowlevel_name);
        js.append("\": function (func, instr, ");
        js.append(join_param_names(&args).as_str());
        js.append(") {\n    Wasabi.analysis.");
        js.append(highlevel_name);
        js.append("({func, instr}, ");
        js.append(js_args);
        js.append(");\n},");

        let mut inputs: Vec<ValType> = vec![ValType::I32, ValType::I32];
        push_lowered_types(&mut inputs, &args);

        Hook {
            idx: 0,
            wasm: Function {
                type_: FunctionType { inputs, results: Vec::new() },
                import_module: String::from_str("__wasabi_hooks"),
                import_name: lowlevel_name.to_owned(),
            },
            js,
        }
    }

    /// Returns the name under which the hook is imported.
    pub fn lowlevel_name(&self) -> (name: String)
        ensures
            name@ == self@.lowlevel_name(),
    {
        self.wasm.import_name.clone()
    }
}

/// The letters of a list of types.
pub open spec fn letters(tys: Seq<ValType>) -> Seq<char> {
    tys.map_values(|ty: ValType| ty.char_spec())
}

/// The name of the hook variant for a name and a list of types. Without types it
/// is the undotted name; with types an underscore and their letters follow, as in
/// `call_iF`.
pub open spec fn mangled(name: Seq<char>, tys: Seq<ValType>) -> Seq<char> {
    if tys.len() == 0 {
        undotted(name)
    } else {
        undotted(name).push('_') + letters(tys)
    }
}

/// Names the hook variant for a name and a list of types.
pub fn mangle_polymorphic_name(name: &str, tys: &[ValType]) -> (text: String)
    ensures
        text@ == mangled(name@, tys@),
{
    let mut text = replace_dots(name);
    if !tys.is_empty() {
        text.push('_');
    }
    let ghost stem = text@;
    assert(stem + letters(tys@.take(0)) =~= stem);
    let mut i: usize = 0;
    while i < tys.len()
        invariant
            i <= tys.len(),
            text@ == stem + letters(tys@.take(i as int)),
        decreases tys.len() - i,
    {
        text.push(tys[i].to_char());
        assert(letters(tys@.take(i + 1)) =~= letters(tys@.take(i as int)).push(
            tys@[i as int].char_spec(),
        ));
        i += 1;
    }
    assert(tys@.take(i as int) =~= tys@);
    assert(text@ =~= mangled(name@, tys@));
    text
}

} // verus!
