//! Typed arguments of tool functions: the schema their declarations give,
//! and how a call's JSON arguments are checked and decoded against them.

use vstd::prelude::*;
use crate::json::{entries_get, entries_lookup, json_as_bool, json_as_i64, lemma_object_view, model_entries, str_eq, JsonModel, JsonNumber, JsonValue, NumberModel};
use crate::tools::{object_schema, type_schema, ArraySpec, BooleanSpec, FunctionSpec, IntegerSpec, NumberSpec, ObjectSpec, PropertySpec, StringSpec, ToolSpec, TypeSpec};

verus! {

/// The type of a single value: a string, an integer (`i64`), a boolean or
/// a number (any JSON number; its conversion to a float is the caller's).
#[derive(Clone, Copy, Debug, PartialEq, Eq, Structural)]
pub enum ScalarKind {
    Str,
    Int,
    Bool,
    Number,
}

/// The type of a tool function's argument: a single value, a list of them
/// (`Vec<T>`), an optional one (`Option<T>`) or an optional list
/// (`Option<Vec<T>>`).
#[derive(Clone, Copy, Debug, PartialEq, Eq, Structural)]
pub enum ArgKind {
    Str,
    Int,
    Bool,
    Number,
    List(ScalarKind),
    Optional(ScalarKind),
    OptionalList(ScalarKind),
}

/// A declared argument: its name, type and default value (an argument with
/// a default may be left out).
#[derive(Debug)]
pub struct ArgDecl {
    pub name: String,
    pub kind: ArgKind,
    pub default: Option<JsonValue>,
}

/// Mathematical form of an [`ArgDecl`].
pub struct DeclModel {
    pub name: Seq<char>,
    pub kind: ArgKind,
    pub default: Option<JsonModel>,
}

impl View for ArgDecl {
    type V = DeclModel;

    open spec fn view(&self) -> DeclModel {
        DeclModel {
            name: self.name@,
            kind: self.kind,
            default: match self.default {
                Some(v) => Some(v@),
                None => None,
            },
        }
    }
}

/// The models of a list of declarations.
pub open spec fn decl_models(ds: Seq<ArgDecl>) -> Seq<DeclModel> {
    ds.map_values(|d: ArgDecl| d@)
}

/// A decoded single value.
#[derive(Debug)]
pub enum ScalarValue {
    Str(String),
    Int(i64),
    Bool(bool),
    Number(JsonNumber),
}

/// Mathematical form of a [`ScalarValue`].
pub enum ScalarModel {
    Str(Seq<char>),
    Int(i64),
    Bool(bool),
    Number(NumberModel),
}

impl View for ScalarValue {
    type V = ScalarModel;

    open spec fn view(&self) -> ScalarModel {
        match self {
            ScalarValue::Str(s) => ScalarModel::Str(s@),
            ScalarValue::Int(i) => ScalarModel::Int(*i),
            ScalarValue::Bool(b) => ScalarModel::Bool(*b),
            ScalarValue::Number(n) => ScalarModel::Number(n@),
        }
    }
}

/// The models of a list of decoded single values.
pub open spec fn scalar_models(v: Seq<ScalarValue>) -> Seq<ScalarModel> {
    v.map_values(|x: ScalarValue| x@)
}

/// A decoded argument; `Absent` is an optional argument left out.
#[derive(Debug)]
pub enum ArgValue {
    Str(String),
    Int(i64),
    Bool(bool),
    Number(JsonNumber),
    List(Vec<ScalarValue>),
    Absent,
}

/// Mathematical form of an [`ArgValue`].
pub enum ValueModel {
    Str(Seq<char>),
    Int(i64),
    Bool(bool),
    Number(NumberModel),
    List(Seq<ScalarModel>),
    Absent,
}

impl View for ArgValue {
    type V = ValueModel;

    open spec fn view(&self) -> ValueModel {
        match self {
            ArgValue::Str(s) => ValueModel::Str(s@),
            ArgValue::Int(i) => ValueModel::Int(*i),
            ArgValue::Bool(b) => ValueModel::Bool(*b),
            ArgValue::Number(n) => ValueModel::Number(n@),
            ArgValue::List(v) => ValueModel::List(scalar_models(v@)),
            ArgValue::Absent => ValueModel::Absent,
        }
    }
}

/// Why a call's arguments were refused.
#[derive(Debug)]
pub enum ArgError {
    /// The arguments are not a JSON object.
    NotObject,
    /// A member that no argument declares.
    Unknown { key: String },
    /// A required argument is absent.
    Missing { name: String },
    /// An argument has the wrong JSON type.
    TypeMismatch { name: String },
}

/// Mathematical form of an [`ArgError`].
pub enum ArgErrorModel {
    NotObject,
    Unknown(Seq<char>),
    Missing(Seq<char>),
    TypeMismatch(Seq<char>),
}

impl View for ArgError {
    type V = ArgErrorModel;

    open spec fn view(&self) -> ArgErrorModel {
        match self {
            ArgError::NotObject => ArgErrorModel::NotObject,
            ArgError::Unknown { key } => ArgErrorModel::Unknown(key@),
            ArgError::Missing { name } => ArgErrorModel::Missing(name@),
            ArgError::TypeMismatch { name } => ArgErrorModel::TypeMismatch(name@),
        }
    }
}

impl ArgError {
    /// The error's message text.
    pub fn to_string(&self) -> (r: String)
        ensures
            r@ == match self@ {
                ArgErrorModel::NotObject => "tool arg type mismatch: args"@,
                ArgErrorModel::Unknown(k) => "tool arg unknown: "@ + k,
                ArgErrorModel::Missing(n) => "tool arg missing: "@ + n,
                ArgErrorModel::TypeMismatch(n) => "tool arg type mismatch: "@ + n,
            },
    {
        match self {
            ArgError::NotObject => String::from_str("tool arg type mismatch: args"),
            ArgError::Unknown { key } => String::from_str("tool arg unknown: ").concat(key.as_str()),
            ArgError::Missing { name } => String::from_str("tool arg missing: ").concat(name.as_str()),
            ArgError::TypeMismatch { name } => String::from_str("tool arg type mismatch: ").concat(
                name.as_str(),
            ),
        }
    }
}

/// Some argument is named `key`.
pub open spec fn declared(ds: Seq<DeclModel>, key: Seq<char>) -> bool {
    exists|i: int| 0 <= i < ds.len() && #[trigger] ds[i].name == key
}

/// The first of the first `k` members whose key no argument declares.
pub open spec fn first_unknown(es: Seq<(Seq<char>, JsonModel)>, ds: Seq<DeclModel>, k: int) -> Option<Seq<char>>
    decreases k,
{
    if k <= 0 || k > es.len() {
        None
    } else {
        match first_unknown(es, ds, k - 1) {
            Some(x) => Some(x),
            None => if declared(ds, es[k - 1].0) { None } else { Some(es[k - 1].0) },
        }
    }
}

/// A JSON value read as a single value of kind `k`, as `Value::as_str`,
/// `as_i64`, `as_bool` and `as_f64` read it.
pub open spec fn decode_scalar(v: JsonModel, k: ScalarKind) -> Option<ScalarModel> {
    match k {
        ScalarKind::Str => match v {
            JsonModel::Str(s) => Some(ScalarModel::Str(s)),
            _ => None,
        },
        ScalarKind::Int => match json_as_i64(Some(v)) {
            Some(i) => Some(ScalarModel::Int(i)),
            None => None,
        },
        ScalarKind::Bool => match json_as_bool(Some(v)) {
            Some(b) => Some(ScalarModel::Bool(b)),
            None => None,
        },
        ScalarKind::Number => match v {
            JsonModel::Number(n) => Some(ScalarModel::Number(n)),
            _ => None,
        },
    }
}

/// The items of a JSON array read as single values of kind `k`; `None`
/// where one of them is not of that kind.
pub open spec fn decode_list(items: Seq<JsonModel>, k: ScalarKind) -> Option<Seq<ScalarModel>>
    decreases items.len(),
{
    if items.len() == 0 {
        Some(Seq::empty())
    } else {
        match decode_list(items.drop_last(), k) {
            None => None,
            Some(xs) => match decode_scalar(items.last(), k) {
                None => None,
                Some(x) => Some(xs.push(x)),
            },
        }
    }
}

/// A single value as an argument value.
pub open spec fn scalar_arg(x: ScalarModel) -> ValueModel {
    match x {
        ScalarModel::Str(s) => ValueModel::Str(s),
        ScalarModel::Int(i) => ValueModel::Int(i),
        ScalarModel::Bool(b) => ValueModel::Bool(b),
        ScalarModel::Number(n) => ValueModel::Number(n),
    }
}

/// The single-value kind of an argument kind that is one.
pub open spec fn plain_scalar(k: ArgKind) -> Option<ScalarKind> {
    match k {
        ArgKind::Str => Some(ScalarKind::Str),
        ArgKind::Int => Some(ScalarKind::Int),
        ArgKind::Bool => Some(ScalarKind::Bool),
        ArgKind::Number => Some(ScalarKind::Number),
        _ => None,
    }
}

/// `v` read as the single value of argument `name`.
pub open spec fn scalar_result(v: JsonModel, k: ScalarKind, name: Seq<char>) -> Result<ValueModel, ArgErrorModel> {
    match decode_scalar(v, k) {
        Some(x) => Ok(scalar_arg(x)),
        None => Err(ArgErrorModel::TypeMismatch(name)),
    }
}

/// `v` read as the list argument `name`: an array whose items all have the
/// kind `k`.
pub open spec fn list_result(v: JsonModel, k: ScalarKind, name: Seq<char>) -> Result<ValueModel, ArgErrorModel> {
    match v {
        JsonModel::Array(items) => match decode_list(items, k) {
            Some(xs) => Ok(ValueModel::List(xs)),
            None => Err(ArgErrorModel::TypeMismatch(name)),
        },
        _ => Err(ArgErrorModel::TypeMismatch(name)),
    }
}

/// The value of argument `d` in the members `es`. A single value is the
/// member named like it, else its default, read as its kind; a list is the
/// member, which must be there (a default does not stand in for it); an
/// optional argument is absent when no member is named like it, else read
/// as its inner kind.
pub open spec fn decode_one(es: Seq<(Seq<char>, JsonModel)>, d: DeclModel) -> Result<ValueModel, ArgErrorModel> {
    let given = entries_get(es, d.name);
    match d.kind {
        ArgKind::List(k) => match given {
            None => Err(ArgErrorModel::Missing(d.name)),
            Some(v) => list_result(v, k, d.name),
        },
        ArgKind::Optional(k) => match given {
            None => Ok(ValueModel::Absent),
            Some(v) => scalar_result(v, k, d.name),
        },
        ArgKind::OptionalList(k) => match given {
            None => Ok(ValueModel::Absent),
            Some(v) => list_result(v, k, d.name),
        },
        _ => {
            let v = match given {
                Some(v) => Some(v),
                None => d.default,
            };
            match v {
                None => Err(ArgErrorModel::Missing(d.name)),
                Some(v) => scalar_result(v, plain_scalar(d.kind)->Some_0, d.name),
            }
        },
    }
}

/// The first `k` arguments decoded in order; the first failure wins.
pub open spec fn decode_prefix(es: Seq<(Seq<char>, JsonModel)>, ds: Seq<DeclModel>, k: int) -> Result<Seq<ValueModel>, ArgErrorModel>
    decreases k,
{
    if k <= 0 || k > ds.len() {
        Ok(Seq::empty())
    } else {
        match decode_prefix(es, ds, k - 1) {
            Err(e) => Err(e),
            Ok(vs) => match decode_one(es, ds[k - 1]) {
                Err(e) => Err(e),
                Ok(v) => Ok(vs.push(v)),
            },
        }
    }
}

/// How a call's arguments are read: they must be an object whose members
/// are all declared; then each declared argument is decoded in order.
pub open spec fn decode_args_of(args: JsonModel, ds: Seq<DeclModel>) -> Result<Seq<ValueModel>, ArgErrorModel> {
    match args {
        JsonModel::Object(es) => match first_unknown(es, ds, es.len() as int) {
            Some(k) => Err(ArgErrorModel::Unknown(k)),
            None => decode_prefix(es, ds, ds.len() as int),
        },
        _ => Err(ArgErrorModel::NotObject),
    }
}

/// The models of decoded arguments.
pub open spec fn value_models(vs: Seq<ArgValue>) -> Seq<ValueModel> {
    vs.map_values(|v: ArgValue| v@)
}

/// The model of a decoding result.
pub open spec fn decoded_view(r: Result<Vec<ArgValue>, ArgError>) -> Result<Seq<ValueModel>, ArgErrorModel> {
    match r {
        Ok(vs) => Ok(value_models(vs@)),
        Err(e) => Err(e@),
    }
}

fn is_declared(decls: &[ArgDecl], key: &str) -> (r: bool)
    ensures
        r == declared(decl_models(decls@), key@),
{
    let ghost ds = decl_models(decls@);
    let mut i: usize = 0;
    while i < decls.len()
        invariant
            ds == decl_models(decls@),
            i <= decls@.len(),
            forall|j: int| 0 <= j < i ==> #[trigger] ds[j].name != key@,
        decreases decls@.len() - i,
    {
        if str_eq(decls[i].name.as_str(), key) {
            assert(ds[i as int].name == key@);
            return true;
        }
        i = i + 1;
    }
    false
}

fn decode_scalar_exec(v: &JsonValue, k: ScalarKind) -> (r: Option<ScalarValue>)
    ensures
        match r {
            Some(x) => decode_scalar(v@, k) == Some(x@),
            None => decode_scalar(v@, k) is None,
        },
{
    match k {
        ScalarKind::Str => match v {
            JsonValue::Str(s) => Some(ScalarValue::Str(s.clone())),
            _ => None,
        },
        ScalarKind::Int => match v.as_i64() {
            Some(i) => Some(ScalarValue::Int(i)),
            None => None,
        },
        ScalarKind::Bool => match v.as_bool() {
            Some(b) => Some(ScalarValue::Bool(b)),
            None => None,
        },
        ScalarKind::Number => match v {
            JsonValue::Number(n) => Some(ScalarValue::Number(n.duplicate())),
            _ => None,
        },
    }
}

fn scalar_arg_exec(x: ScalarValue) -> (r: ArgValue)
    ensures
        r@ == scalar_arg(x@),
{
    match x {
        ScalarValue::Str(s) => ArgValue::Str(s),
        ScalarValue::Int(i) => ArgValue::Int(i),
        ScalarValue::Bool(b) => ArgValue::Bool(b),
        ScalarValue::Number(n) => ArgValue::Number(n),
    }
}

fn scalar_result_exec(v: &JsonValue, k: ScalarKind, name: &String) -> (r: Result<ArgValue, ArgError>)
    ensures
        match r {
            Ok(x) => scalar_result(v@, k, name@) == Ok::<ValueModel, ArgErrorModel>(x@),
            Err(e) => scalar_result(v@, k, name@) == Err::<ValueModel, ArgErrorModel>(e@),
        },
{
    match decode_scalar_exec(v, k) {
        Some(x) => Ok(scalar_arg_exec(x)),
        None => Err(ArgError::TypeMismatch { name: name.clone() }),
    }
}

fn list_result_exec(v: &JsonValue, k: ScalarKind, name: &String) -> (r: Result<ArgValue, ArgError>)
    ensures
        match r {
            Ok(x) => list_result(v@, k, name@) == Ok::<ValueModel, ArgErrorModel>(x@),
            Err(e) => list_result(v@, k, name@) == Err::<ValueModel, ArgErrorModel>(e@),
        },
{
    let items = match v {
        JsonValue::Array(items) => items,
        _ => return Err(ArgError::TypeMismatch { name: name.clone() }),
    };
    proof {
        crate::json::lemma_array_view(*v);
    }
    let ghost ms = v@->Array_0;
    let mut out: Vec<ScalarValue> = Vec::new();
    let mut i: usize = 0;
    while i < items.len()
        invariant
            v@ == JsonModel::Array(ms),
            ms.len() == items@.len(),
            forall|j: int| 0 <= j < ms.len() ==> ms[j] == (#[trigger] items@[j])@,
            i <= items@.len(),
            decode_list(ms.take(i as int), k) == Some(scalar_models(out@)),
        decreases items@.len() - i,
    {
        assert(ms.take(i as int + 1).drop_last() =~= ms.take(i as int));
        assert(ms.take(i as int + 1).last() == items@[i as int]@);
        match decode_scalar_exec(&items[i], k) {
            Some(x) => {
                let ghost before = out@;
                out.push(x);
                assert(scalar_models(out@) =~= scalar_models(before).push(out@.last()@));
            },
            None => {
                proof {
                    lemma_list_failure_sticks(ms, k, i as int + 1);
                }
                assert(ms.take(ms.len() as int) =~= ms);
                return Err(ArgError::TypeMismatch { name: name.clone() });
            },
        }
        i = i + 1;
    }
    assert(ms.take(ms.len() as int) =~= ms);
    Ok(ArgValue::List(out))
}

proof fn lemma_list_failure_sticks(ms: Seq<JsonModel>, k: ScalarKind, a: int)
    requires
        0 <= a <= ms.len(),
        decode_list(ms.take(a), k) is None,
    ensures
        decode_list(ms, k) is None,
    decreases ms.len() - a,
{
    if a < ms.len() {
        assert(ms.take(a + 1).drop_last() =~= ms.take(a));
        lemma_list_failure_sticks(ms, k, a + 1);
    } else {
        assert(ms.take(a) =~= ms);
    }
}

fn decode_arg(entries: &Vec<(String, JsonValue)>, d: &ArgDecl) -> (r: Result<ArgValue, ArgError>)
    ensures
        match r {
            Ok(v) => decode_one(model_entries(entries@), d@) == Ok::<ValueModel, ArgErrorModel>(v@),
            Err(e) => decode_one(model_entries(entries@), d@) == Err::<ValueModel, ArgErrorModel>(e@),
        },
{
    let given = entries_lookup(entries, d.name.as_str());
    match d.kind {
        ArgKind::List(k) => match given {
            None => Err(ArgError::Missing { name: d.name.clone() }),
            Some(v) => list_result_exec(v, k, &d.name),
        },
        ArgKind::Optional(k) => match given {
            None => Ok(ArgValue::Absent),
            Some(v) => scalar_result_exec(v, k, &d.name),
        },
        ArgKind::OptionalList(k) => match given {
            None => Ok(ArgValue::Absent),
            Some(v) => list_result_exec(v, k, &d.name),
        },
        _ => {
            let v = match given {
                Some(v) => v,
                None => match &d.default {
                    Some(v) => v,
                    None => return Err(ArgError::Missing { name: d.name.clone() }),
                },
            };
            let k = match d.kind {
                ArgKind::Str => ScalarKind::Str,
                ArgKind::Int => ScalarKind::Int,
                ArgKind::Bool => ScalarKind::Bool,
                _ => ScalarKind::Number,
            };
            scalar_result_exec(v, k, &d.name)
        },
    }
}

proof fn lemma_unknown_sticks(es: Seq<(Seq<char>, JsonModel)>, ds: Seq<DeclModel>, a: int, b: int)
    requires
        0 <= a <= b <= es.len(),
        first_unknown(es, ds, a) is Some,
    ensures
        first_unknown(es, ds, b) == first_unknown(es, ds, a),
    decreases b - a,
{
    if a < b {
        lemma_unknown_sticks(es, ds, a, b - 1);
    }
}

proof fn lemma_decode_error_sticks(es: Seq<(Seq<char>, JsonModel)>, ds: Seq<DeclModel>, a: int, b: int)
    requires
        0 <= a <= b <= ds.len(),
        decode_prefix(es, ds, a) is Err,
    ensures
        decode_prefix(es, ds, b) == decode_prefix(es, ds, a),
    decreases b - a,
{
    if a < b {
        lemma_decode_error_sticks(es, ds, a, b - 1);
    }
}

/// Check and decode a call's arguments (see [`decode_args_of`]).
pub fn decode_args(args: &JsonValue, decls: &[ArgDecl]) -> (r: Result<Vec<ArgValue>, ArgError>)
    ensures
        decoded_view(r) == decode_args_of(args@, decl_models(decls@)),
{
    let entries = match args {
        JsonValue::Object(m) => m,
        _ => return Err(ArgError::NotObject),
    };
    proof {
        lemma_object_view(*args);
    }
    let ghost es = model_entries(entries@);
    let ghost ds = decl_models(decls@);
    let mut k: usize = 0;
    while k < entries.len()
        invariant
            es == model_entries(entries@),
            ds == decl_models(decls@),
            args@ == JsonModel::Object(es),
            k <= entries@.len(),
            first_unknown(es, ds, k as int) is None,
        decreases entries@.len() - k,
    {
        if !is_declared(decls, entries[k].0.as_str()) {
            proof {
                assert(es[k as int].0 == entries@[k as int].0@);
                assert(first_unknown(es, ds, k as int + 1) == Some(es[k as int].0));
                lemma_unknown_sticks(es, ds, k as int + 1, es.len() as int);
            }
            return Err(ArgError::Unknown { key: entries[k].0.clone() });
        }
        proof {
            assert(es[k as int].0 == entries@[k as int].0@);
        }
        k = k + 1;
    }
    decode_all(entries, decls)
}

fn decode_all(entries: &Vec<(String, JsonValue)>, decls: &[ArgDecl]) -> (r: Result<Vec<ArgValue>, ArgError>)
    ensures
        decoded_view(r) == decode_prefix(model_entries(entries@), decl_models(decls@), decls@.len() as int),
{
    let ghost es = model_entries(entries@);
    let ghost ds = decl_models(decls@);
    let mut out: Vec<ArgValue> = Vec::new();
    let mut i: usize = 0;
    assert(value_models(out@) =~= Seq::<ValueModel>::empty());
    while i < decls.len()
        invariant
            es == model_entries(entries@),
            ds == decl_models(decls@),
            i <= decls@.len(),
            decode_prefix(es, ds, i as int) == Ok::<Seq<ValueModel>, ArgErrorModel>(value_models(out@)),
        decreases decls@.len() - i,
    {
        proof {
            assert(ds[i as int] == decls@[i as int]@);
        }
        match decode_arg(entries, &decls[i]) {
            Ok(v) => {
                let ghost before = out@;
                out.push(v);
                assert(value_models(out@) =~= value_models(before).push(out@.last()@));
            },
            Err(e) => {
                proof {
                    lemma_decode_error_sticks(es, ds, i as int + 1, ds.len() as int);
                }
                return Err(e);
            },
        }
        i = i + 1;
    }
    Ok(out)
}

/// The members of an object; none for any other value (`Value::get` finds
/// nothing in it).
pub open spec fn members_or_none(args: JsonModel) -> Seq<(Seq<char>, JsonModel)> {
    match args {
        JsonModel::Object(es) => es,
        _ => Seq::empty(),
    }
}

/// How a call's arguments are read by a function that is strict or not:
/// strictly as [`decode_args_of`]; otherwise members that no argument
/// declares are let through, and arguments that are not an object hold no
/// members, so that each declared argument is decoded in order all the same.
pub open spec fn decode_args_with(args: JsonModel, ds: Seq<DeclModel>, strict: bool) -> Result<Seq<ValueModel>, ArgErrorModel> {
    if strict {
        decode_args_of(args, ds)
    } else {
        decode_prefix(members_or_none(args), ds, ds.len() as int)
    }
}

/// Check and decode a call's arguments, strictly or not (see
/// [`decode_args_with`]).
pub fn decode_args_strict(args: &JsonValue, decls: &[ArgDecl], strict: bool) -> (r: Result<Vec<ArgValue>, ArgError>)
    ensures
        decoded_view(r) == decode_args_with(args@, decl_models(decls@), strict),
{
    if strict {
        return decode_args(args, decls);
    }
    match args {
        JsonValue::Object(m) => {
            proof {
                lemma_object_view(*args);
            }
            decode_all(m, decls)
        },
        _ => {
            let none: Vec<(String, JsonValue)> = Vec::new();
            assert(model_entries(none@) =~= Seq::<(Seq<char>, JsonModel)>::empty());
            decode_all(&none, decls)
        },
    }
}

/// A call that strict decoding accepts is decoded the same way when the
/// function is not strict.
pub proof fn law_lenient_agrees_with_strict(args: JsonModel, ds: Seq<DeclModel>)
    requires
        decode_args_of(args, ds) is Ok,
    ensures
        decode_args_with(args, ds, false) == decode_args_of(args, ds),
{
}

/// The functions that are not hidden, in order.
pub open spec fn visible_functions(fs: Seq<FunctionSpec>, hidden: Seq<bool>) -> Seq<FunctionSpec>
    decreases fs.len(),
{
    if fs.len() == 0 {
        Seq::empty()
    } else if hidden[fs.len() - 1] {
        visible_functions(fs.drop_last(), hidden)
    } else {
        visible_functions(fs.drop_last(), hidden).push(fs.last())
    }
}

/// A tool's specification: its id and description, and those of its
/// functions that are not hidden (`hidden[i]` for `functions[i]`); a hidden
/// function can still be called but is not offered to the model.
pub fn tool_spec_of(id: &str, description: &str, functions: Vec<FunctionSpec>, hidden: &[bool]) -> (r: ToolSpec)
    requires
        hidden@.len() == functions@.len(),
    ensures
        r.id@ == id@,
        r.description@ == description@,
        r.functions@ == visible_functions(functions@, hidden@),
{
    let ghost fs = functions@;
    let mut functions = functions;
    let mut kept: Vec<FunctionSpec> = Vec::new();
    let mut rest: Vec<FunctionSpec> = Vec::new();
    // Take the functions from the back, then put the kept ones in order.
    let n = functions.len();
    let mut i: usize = n;
    assert(fs.take(n as int) =~= fs);
    assert(visible_functions(fs, hidden@) + rest@.reverse() =~= visible_functions(fs, hidden@));
    while i > 0
        invariant
            n == fs.len(),
            hidden@.len() == fs.len(),
            i <= n,
            functions@ == fs.take(i as int),
            visible_functions(fs, hidden@) == visible_functions(fs.take(i as int), hidden@) + rest@.reverse(),
        decreases i,
    {
        let f = functions.pop().unwrap();
        assert(fs.take(i as int).drop_last() =~= fs.take(i as int - 1));
        let ghost before = rest@;
        if !hidden[i - 1] {
            rest.push(f);
            assert(rest@.reverse() =~= seq![fs[i as int - 1]] + before.reverse());
            assert(visible_functions(fs.take(i as int), hidden@) == visible_functions(fs.take(i as int - 1), hidden@).push(fs[i as int - 1]));
            assert(visible_functions(fs.take(i as int - 1), hidden@).push(fs[i as int - 1]) + before.reverse()
                =~= visible_functions(fs.take(i as int - 1), hidden@) + rest@.reverse());
        }
        i = i - 1;
    }
    assert(fs.take(0) =~= Seq::<FunctionSpec>::empty());
    assert(visible_functions(fs, hidden@) =~= rest@.reverse());
    while rest.len() > 0
        invariant
            visible_functions(fs, hidden@) == kept@ + rest@.reverse(),
        decreases rest@.len(),
    {
        let ghost before = rest@;
        let f = rest.pop().unwrap();
        kept.push(f);
        assert(before.reverse() =~= seq![f] + rest@.reverse());
    }
    assert(kept@ + rest@.reverse() =~= kept@);
    ToolSpec { id: String::from_str(id), description: String::from_str(description), functions: kept }
}

/// The JSON schema of a single value's type.
pub open spec fn scalar_schema(k: ScalarKind) -> JsonModel {
    match k {
        ScalarKind::Str => JsonModel::Object(seq![("type"@, JsonModel::Str("string"@))]),
        ScalarKind::Int => JsonModel::Object(seq![("type"@, JsonModel::Str("integer"@))]),
        ScalarKind::Bool => JsonModel::Object(seq![("type"@, JsonModel::Str("boolean"@))]),
        ScalarKind::Number => JsonModel::Object(seq![("type"@, JsonModel::Str("number"@))]),
    }
}

/// The JSON schema of an argument's type: that of its values, an array of
/// them for a list; an optional argument has the schema of its inner type.
pub open spec fn kind_schema(k: ArgKind) -> JsonModel {
    match k {
        ArgKind::Str => scalar_schema(ScalarKind::Str),
        ArgKind::Int => scalar_schema(ScalarKind::Int),
        ArgKind::Bool => scalar_schema(ScalarKind::Bool),
        ArgKind::Number => scalar_schema(ScalarKind::Number),
        ArgKind::List(e) => JsonModel::Object(
            seq![("type"@, JsonModel::Str("array"@)), ("items"@, scalar_schema(e))],
        ),
        ArgKind::Optional(e) => scalar_schema(e),
        ArgKind::OptionalList(e) => JsonModel::Object(
            seq![("type"@, JsonModel::Str("array"@)), ("items"@, scalar_schema(e))],
        ),
    }
}

/// An argument that may be left out: it has a default or is optional.
pub open spec fn may_be_left_out(d: DeclModel) -> bool {
    d.default is Some || d.kind is Optional || d.kind is OptionalList
}

/// The names of the arguments that may not be left out, in order.
pub open spec fn required_names(ds: Seq<DeclModel>) -> Seq<Seq<char>>
    decreases ds.len(),
{
    if ds.len() == 0 {
        Seq::empty()
    } else if !may_be_left_out(ds.last()) {
        required_names(ds.drop_last()).push(ds.last().name)
    } else {
        required_names(ds.drop_last())
    }
}

/// The parameters' schema that declarations give: one property per
/// argument, those that may not be left out required, nothing else allowed.
pub open spec fn decls_schema(ds: Seq<DeclModel>) -> JsonModel {
    JsonModel::Object(
        seq![
            ("type"@, JsonModel::Str("object"@)),
            ("properties"@, JsonModel::Object(Seq::new(ds.len(), |i: int| (ds[i].name, kind_schema(ds[i].kind))))),
            ("required"@, JsonModel::Array(required_names(ds).map_values(|n: Seq<char>| JsonModel::Str(n)))),
            ("additionalProperties"@, JsonModel::Bool(false)),
        ],
    )
}

fn scalar_type(k: ScalarKind) -> (r: TypeSpec)
    ensures
        type_schema(r) == scalar_schema(k),
{
    match k {
        ScalarKind::Str => {
            let r = TypeSpec::String(StringSpec { enum_values: None });
            assert(type_schema(r) =~~= scalar_schema(k));
            r
        },
        ScalarKind::Int => {
            let r = TypeSpec::Integer(IntegerSpec { minimum: None, maximum: None });
            assert(type_schema(r) =~~= scalar_schema(k));
            r
        },
        ScalarKind::Bool => TypeSpec::Boolean(BooleanSpec {  }),
        ScalarKind::Number => {
            let r = TypeSpec::Number(NumberSpec { minimum: None, maximum: None });
            assert(type_schema(r) =~~= scalar_schema(k));
            r
        },
    }
}

fn kind_type(k: ArgKind) -> (r: TypeSpec)
    ensures
        type_schema(r) == kind_schema(k),
{
    match k {
        ArgKind::Str => scalar_type(ScalarKind::Str),
        ArgKind::Int => scalar_type(ScalarKind::Int),
        ArgKind::Bool => scalar_type(ScalarKind::Bool),
        ArgKind::Number => scalar_type(ScalarKind::Number),
        ArgKind::List(e) => {
            let r = TypeSpec::Array(ArraySpec { items: Box::new(scalar_type(e)) });
            assert(type_schema(r) =~~= kind_schema(k));
            r
        },
        ArgKind::Optional(e) => scalar_type(e),
        ArgKind::OptionalList(e) => {
            let r = TypeSpec::Array(ArraySpec { items: Box::new(scalar_type(e)) });
            assert(type_schema(r) =~~= kind_schema(k));
            r
        },
    }
}

/// A function taking the declared arguments.
pub fn function_with_args(name: &str, description: &str, decls: &[ArgDecl]) -> (r: FunctionSpec)
    ensures
        r.name@ == name@,
        r.description@ == description@,
        object_schema(r.parameters) == decls_schema(decl_models(decls@)),
{
    let ghost ds = decl_models(decls@);
    let mut props: Vec<PropertySpec> = Vec::new();
    let mut required: Vec<String> = Vec::new();
    let mut i: usize = 0;
    while i < decls.len()
        invariant
            ds == decl_models(decls@),
            i <= decls@.len(),
            props@.len() == i,
            forall|j: int| 0 <= j < i ==> (#[trigger] props@[j]).name@ == ds[j].name
                && type_schema(props@[j].ty) == kind_schema(ds[j].kind),
            required@.map_values(|s: String| s@) == required_names(ds.take(i as int)),
        decreases decls@.len() - i,
    {
        proof {
            assert(ds[i as int] == decls@[i as int]@);
            assert(ds.take(i as int + 1).drop_last() =~= ds.take(i as int));
        }
        props.push(PropertySpec { name: decls[i].name.clone(), ty: kind_type(decls[i].kind) });
        let left_out = match decls[i].kind {
            ArgKind::Optional(_) => true,
            ArgKind::OptionalList(_) => true,
            _ => decls[i].default.is_some(),
        };
        if !left_out {
            let ghost before = required@;
            required.push(decls[i].name.clone());
            assert(required@.map_values(|s: String| s@) =~= before.map_values(|s: String| s@).push(ds[i as int].name));
        }
        i = i + 1;
    }
    assert(ds.take(decls@.len() as int) =~= ds);
    let parameters = ObjectSpec { properties: props, required, additional_properties: false };
    proof {
        let want = decls_schema(ds);
        let got = object_schema(parameters);
        assert(got->Object_0[1].1->Object_0 =~= want->Object_0[1].1->Object_0);
        let ghost xs = required@.map_values(|s: String| JsonModel::Str(s@));
        let ghost ys = required_names(ds).map_values(|n: Seq<char>| JsonModel::Str(n));
        let ghost names = required@.map_values(|s: String| s@);
        assert forall|j: int| 0 <= j < xs.len() implies #[trigger] xs[j] == ys[j] by {
            assert(names[j] == required@[j]@);
        }
        assert(xs =~= ys);
        assert(got =~~= want);
    }
    FunctionSpec { name: String::from_str(name), description: String::from_str(description), parameters }
}

/// A declared argument.
pub fn arg(name: &str, kind: ArgKind, default: Option<JsonValue>) -> (r: ArgDecl)
    ensures
        r.name@ == name@,
        r.kind == kind,
        r.default == default,
{
    ArgDecl { name: String::from_str(name), kind, default }
}

/// A single value of the kind `k`.
pub open spec fn scalar_fits(x: ScalarModel, k: ScalarKind) -> bool {
    match k {
        ScalarKind::Str => x is Str,
        ScalarKind::Int => x is Int,
        ScalarKind::Bool => x is Bool,
        ScalarKind::Number => x is Number,
    }
}

/// A decoded value of the kind `k`.
pub open spec fn fits(v: ValueModel, k: ArgKind) -> bool {
    match k {
        ArgKind::Str => v is Str,
        ArgKind::Int => v is Int,
        ArgKind::Bool => v is Bool,
        ArgKind::Number => v is Number,
        ArgKind::List(e) => v matches ValueModel::List(xs) && forall|j: int|
            0 <= j < xs.len() ==> scalar_fits(#[trigger] xs[j], e),
        ArgKind::Optional(e) => v is Absent || match v {
            ValueModel::Str(_) => e == ScalarKind::Str,
            ValueModel::Int(_) => e == ScalarKind::Int,
            ValueModel::Bool(_) => e == ScalarKind::Bool,
            ValueModel::Number(_) => e == ScalarKind::Number,
            _ => false,
        },
        ArgKind::OptionalList(e) => v is Absent || (v matches ValueModel::List(xs) && forall|j: int|
            0 <= j < xs.len() ==> scalar_fits(#[trigger] xs[j], e)),
    }
}

proof fn lemma_list_fits(items: Seq<JsonModel>, k: ScalarKind)
    requires
        decode_list(items, k) is Some,
    ensures
        decode_list(items, k)->Some_0.len() == items.len(),
        forall|j: int| 0 <= j < items.len() ==> scalar_fits(#[trigger] decode_list(items, k)->Some_0[j], k),
    decreases items.len(),
{
    if items.len() > 0 {
        lemma_list_fits(items.drop_last(), k);
        let xs = decode_list(items.drop_last(), k)->Some_0;
        let x = decode_scalar(items.last(), k)->Some_0;
        assert forall|j: int| 0 <= j < items.len() implies scalar_fits(#[trigger] decode_list(items, k)->Some_0[j], k) by {
            if j < items.len() - 1 {
                assert(decode_list(items, k)->Some_0[j] == xs[j]);
            }
        }
    }
}

proof fn lemma_one_fits(es: Seq<(Seq<char>, JsonModel)>, d: DeclModel)
    requires
        decode_one(es, d) is Ok,
    ensures
        fits(decode_one(es, d)->Ok_0, d.kind),
{
    match entries_get(es, d.name) {
        Some(v) => match v {
            JsonModel::Array(items) => {
                if decode_list(items, ScalarKind::Str) is Some { lemma_list_fits(items, ScalarKind::Str); }
                if decode_list(items, ScalarKind::Int) is Some { lemma_list_fits(items, ScalarKind::Int); }
                if decode_list(items, ScalarKind::Bool) is Some { lemma_list_fits(items, ScalarKind::Bool); }
                if decode_list(items, ScalarKind::Number) is Some { lemma_list_fits(items, ScalarKind::Number); }
            },
            _ => {},
        },
        None => {},
    }
}

proof fn lemma_prefix_kinds(es: Seq<(Seq<char>, JsonModel)>, ds: Seq<DeclModel>, k: int)
    requires
        0 <= k <= ds.len(),
        decode_prefix(es, ds, k) is Ok,
    ensures
        decode_prefix(es, ds, k)->Ok_0.len() == k,
        forall|i: int| 0 <= i < k ==> fits(#[trigger] decode_prefix(es, ds, k)->Ok_0[i], ds[i].kind),
    decreases k,
{
    if k > 0 {
        lemma_prefix_kinds(es, ds, k - 1);
        let vs = decode_prefix(es, ds, k - 1)->Ok_0;
        let v = decode_one(es, ds[k - 1])->Ok_0;
        assert(decode_prefix(es, ds, k)->Ok_0 == vs.push(v));
        lemma_one_fits(es, ds[k - 1]);
        assert forall|i: int| 0 <= i < k implies fits(#[trigger] decode_prefix(es, ds, k)->Ok_0[i], ds[i].kind) by {
            if i < k - 1 {
                assert(decode_prefix(es, ds, k)->Ok_0[i] == vs[i]);
            }
        }
    }
}

/// Decoded arguments are one per declaration, each of the declared type.
pub proof fn lemma_decoded_kinds(args: JsonModel, ds: Seq<DeclModel>)
    requires
        decode_args_of(args, ds) is Ok,
    ensures
        decode_args_of(args, ds)->Ok_0.len() == ds.len(),
        forall|i: int| 0 <= i < ds.len() ==> fits(#[trigger] decode_args_of(args, ds)->Ok_0[i], ds[i].kind),
{
    lemma_prefix_kinds(args->Object_0, ds, ds.len() as int);
}

/// The string at `i` of decoded arguments.
pub fn str_at(vals: &Vec<ArgValue>, i: usize) -> (r: String)
    requires
        i < vals@.len(),
        vals@[i as int]@ is Str,
    ensures
        ValueModel::Str(r@) == vals@[i as int]@,
{
    match &vals[i] {
        ArgValue::Str(s) => s.clone(),
        _ => {
            assert(false);
            String::new()
        },
    }
}

/// The integer at `i` of decoded arguments.
pub fn int_at(vals: &Vec<ArgValue>, i: usize) -> (r: i64)
    requires
        i < vals@.len(),
        vals@[i as int]@ is Int,
    ensures
        ValueModel::Int(r) == vals@[i as int]@,
{
    match &vals[i] {
        ArgValue::Int(v) => *v,
        _ => {
            assert(false);
            0
        },
    }
}

/// The boolean at `i` of decoded arguments.
pub fn bool_at(vals: &Vec<ArgValue>, i: usize) -> (r: bool)
    requires
        i < vals@.len(),
        vals@[i as int]@ is Bool,
    ensures
        ValueModel::Bool(r) == vals@[i as int]@,
{
    match &vals[i] {
        ArgValue::Bool(v) => *v,
        _ => {
            assert(false);
            false
        },
    }
}

/// A JSON value of the declared type.
pub open spec fn kind_matches(v: JsonModel, k: ArgKind) -> bool {
    match k {
        ArgKind::List(e) => v matches JsonModel::Array(items) && decode_list(items, e) is Some,
        ArgKind::OptionalList(e) => v matches JsonModel::Array(items) && decode_list(items, e) is Some,
        ArgKind::Optional(e) => decode_scalar(v, e) is Some,
        _ => decode_scalar(v, plain_scalar(k)->Some_0) is Some,
    }
}

/// An argument may be left out of a call: it is optional, or a single
/// value whose default has its type.
pub open spec fn may_be_omitted(d: DeclModel) -> bool {
    match d.kind {
        ArgKind::Optional(_) => true,
        ArgKind::OptionalList(_) => true,
        ArgKind::List(_) => false,
        _ => d.default is Some && kind_matches(d.default->Some_0, d.kind),
    }
}

/// Arguments that follow the declarations: every member is declared, and
/// every declared argument is given with its type, or left out where it
/// may be.
pub open spec fn conforms(es: Seq<(Seq<char>, JsonModel)>, ds: Seq<DeclModel>) -> bool {
    &&& forall|k: int| 0 <= k < es.len() ==> declared(ds, #[trigger] es[k].0)
    &&& forall|i: int|
        0 <= i < ds.len() ==> match entries_get(es, (#[trigger] ds[i]).name) {
            Some(v) => kind_matches(v, ds[i].kind),
            None => may_be_omitted(ds[i]),
        }
}

proof fn lemma_no_unknown(es: Seq<(Seq<char>, JsonModel)>, ds: Seq<DeclModel>, k: int)
    requires
        0 <= k <= es.len(),
        forall|j: int| 0 <= j < es.len() ==> declared(ds, #[trigger] es[j].0),
    ensures
        first_unknown(es, ds, k) is None,
    decreases k,
{
    if k > 0 {
        lemma_no_unknown(es, ds, k - 1);
        assert(declared(ds, es[k - 1].0));
    }
}

proof fn lemma_conforming_prefix(es: Seq<(Seq<char>, JsonModel)>, ds: Seq<DeclModel>, k: int)
    requires
        0 <= k <= ds.len(),
        conforms(es, ds),
    ensures
        decode_prefix(es, ds, k) is Ok,
    decreases k,
{
    if k > 0 {
        lemma_conforming_prefix(es, ds, k - 1);
        let d = ds[k - 1];
        assert(match entries_get(es, d.name) {
            Some(v) => kind_matches(v, d.kind),
            None => may_be_omitted(d),
        });
        assert(decode_one(es, d) is Ok);
    }
}

/// Arguments that follow a function's declarations, which are what its
/// schema describes, are always accepted.
pub proof fn law_conforming_args_decode(es: Seq<(Seq<char>, JsonModel)>, ds: Seq<DeclModel>)
    requires
        conforms(es, ds),
    ensures
        decode_args_of(JsonModel::Object(es), ds) is Ok,
{
    lemma_no_unknown(es, ds, es.len() as int);
    lemma_conforming_prefix(es, ds, ds.len() as int);
}

} // verus!
