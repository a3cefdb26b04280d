//! Tool specifications, their JSON-schema form for the OpenAI API, and the
//! dispatch of tool calls to tools.

use vstd::prelude::*;
use crate::json::{
    entries_get, entries_lookup, json_as_object, json_as_str, lemma_array_view,
    lemma_object_view, model_entries, model_items, parse_json, serde_json_parse, str_eq,
    JsonModel, JsonNumber, JsonValue, NumberModel,
};

verus! {

/// Specification for a tool function.
#[derive(Debug)]
pub struct FunctionSpec {
    pub name: String,
    pub description: String,
    pub parameters: ObjectSpec,
}

/// Type specification for tool parameters.
#[derive(Debug)]
pub enum TypeSpec {
    Array(ArraySpec),
    Object(ObjectSpec),
    String(StringSpec),
    Boolean(BooleanSpec),
    Integer(IntegerSpec),
    Number(NumberSpec),
}

/// Property specification for object types.
#[derive(Debug)]
pub struct PropertySpec {
    pub name: String,
    pub ty: TypeSpec,
}

/// Object type specification.
#[derive(Debug)]
pub struct ObjectSpec {
    pub properties: Vec<PropertySpec>,
    pub required: Vec<String>,
    pub additional_properties: bool,
}

/// Array type specification.
#[derive(Debug)]
pub struct ArraySpec {
    pub items: Box<TypeSpec>,
}

/// String type specification: optionally, the allowed values.
#[derive(Debug)]
pub struct StringSpec {
    pub enum_values: Option<Vec<String>>,
}

/// Boolean type specification.
#[derive(Debug)]
pub struct BooleanSpec {}

/// Integer type specification.
#[derive(Debug)]
pub struct IntegerSpec {
    pub minimum: Option<i64>,
    pub maximum: Option<i64>,
}

/// Number type specification; the bounds are held as JSON number texts.
#[derive(Debug)]
pub struct NumberSpec {
    pub minimum: Option<String>,
    pub maximum: Option<String>,
}

/// Tool specification containing metadata and functions.
#[derive(Debug)]
pub struct ToolSpec {
    pub id: String,
    pub description: String,
    pub functions: Vec<FunctionSpec>,
}

/// A tool call requested by the model.
#[derive(Debug)]
pub struct ToolCall {
    pub id: String,
    pub function_name: String,
    pub arguments: JsonValue,
}

impl Default for StringSpec {
    fn default() -> (r: Self)
        ensures
            r.enum_values is None,
    {
        StringSpec { enum_values: None }
    }
}

impl Default for BooleanSpec {
    fn default() -> (r: Self) {
        BooleanSpec {  }
    }
}

impl Default for IntegerSpec {
    fn default() -> (r: Self)
        ensures
            r.minimum is None && r.maximum is None,
    {
        IntegerSpec { minimum: None, maximum: None }
    }
}

impl Default for NumberSpec {
    fn default() -> (r: Self)
        ensures
            r.minimum is None && r.maximum is None,
    {
        NumberSpec { minimum: None, maximum: None }
    }
}

/// The JSON number `serde_json::Value::from` makes of an `i64`.
pub open spec fn int_json(i: i64) -> JsonModel {
    if i >= 0 {
        JsonModel::Number(NumberModel::PosInt(i as u64))
    } else {
        JsonModel::Number(NumberModel::NegInt(i))
    }
}

/// The optional bound member `key` of an integer schema.
pub open spec fn int_bound(key: Seq<char>, b: Option<i64>) -> Seq<(Seq<char>, JsonModel)> {
    match b {
        Some(i) => seq![(key, int_json(i))],
        None => Seq::empty(),
    }
}

/// The optional bound member `key` of a number schema.
pub open spec fn number_bound(key: Seq<char>, b: Option<String>) -> Seq<(Seq<char>, JsonModel)> {
    match b {
        Some(t) => seq![(key, JsonModel::Number(NumberModel::Float(t@)))],
        None => Seq::empty(),
    }
}

/// A list of strings as a JSON array of strings.
pub open spec fn string_array(v: Seq<String>) -> JsonModel {
    JsonModel::Array(v.map_values(|s: String| JsonModel::Str(s@)))
}

/// JSON Schema of a type.
pub open spec fn type_schema(t: TypeSpec) -> JsonModel
    decreases t,
{
    match t {
        TypeSpec::Object(o) => object_schema(o),
        TypeSpec::Array(a) => JsonModel::Object(
            seq![("type"@, JsonModel::Str("array"@)), ("items"@, type_schema(*a.items))],
        ),
        TypeSpec::String(s) => JsonModel::Object(
            seq![("type"@, JsonModel::Str("string"@))] + match s.enum_values {
                Some(vs) => seq![("enum"@, string_array(vs@))],
                None => Seq::empty(),
            },
        ),
        TypeSpec::Boolean(_) => JsonModel::Object(seq![("type"@, JsonModel::Str("boolean"@))]),
        TypeSpec::Integer(n) => JsonModel::Object(
            seq![("type"@, JsonModel::Str("integer"@))] + int_bound("minimum"@, n.minimum)
                + int_bound("maximum"@, n.maximum),
        ),
        TypeSpec::Number(n) => JsonModel::Object(
            seq![("type"@, JsonModel::Str("number"@))] + number_bound("minimum"@, n.minimum)
                + number_bound("maximum"@, n.maximum),
        ),
    }
}

/// JSON Schema of an object type: its properties, required names and
/// whether other properties are allowed.
pub open spec fn object_schema(o: ObjectSpec) -> JsonModel
    decreases o,
{
    JsonModel::Object(
        seq![
            ("type"@, JsonModel::Str("object"@)),
            (
                "properties"@,
                JsonModel::Object(
                    Seq::new(
                        o.properties@.len(),
                        |i: int|
                            if 0 <= i < o.properties@.len() {
                                (o.properties@[i].name@, type_schema(o.properties@[i].ty))
                            } else {
                                (Seq::empty(), JsonModel::Null)
                            },
                    ),
                ),
            ),
            ("required"@, string_array(o.required@)),
            ("additionalProperties"@, JsonModel::Bool(o.additional_properties)),
        ],
    )
}

/// A JSON string value.
fn jstr(s: &str) -> (r: JsonValue)
    ensures
        r@ == JsonModel::Str(s@),
{
    JsonValue::Str(String::from_str(s))
}

/// A list of strings as a JSON array of strings.
fn strings_to_json(v: &Vec<String>) -> (r: JsonValue)
    ensures
        r@ == string_array(v@),
{
    let mut out: Vec<JsonValue> = Vec::new();
    let mut i: usize = 0;
    while i < v.len()
        invariant
            i <= v@.len(),
            out@.len() == i,
            forall|j: int| 0 <= j < i ==> #[trigger] out@[j]@ == JsonModel::Str(v@[j]@),
        decreases v@.len() - i,
    {
        out.push(jstr(v[i].as_str()));
        i = i + 1;
    }
    let r = JsonValue::Array(out);
    proof {
        lemma_array_view(r);
        assert(model_items(out@) =~= v@.map_values(|s: String| JsonModel::Str(s@)));
    }
    r
}

fn int_to_json(i: i64) -> (r: JsonValue)
    ensures
        r@ == int_json(i),
{
    if i >= 0 {
        JsonValue::Number(JsonNumber::PosInt(i as u64))
    } else {
        JsonValue::Number(JsonNumber::NegInt(i))
    }
}

impl ObjectSpec {
    /// Convert the object specification to a JSON Schema value.
    pub fn to_json_schema_value(&self) -> (r: JsonValue)
        ensures
            r@ == object_schema(*self),
        decreases self,
    {
        let mut props: Vec<(String, JsonValue)> = Vec::new();
        let mut i: usize = 0;
        while i < self.properties.len()
            invariant
                i <= self.properties@.len(),
                props@.len() == i,
                forall|j: int|
                    0 <= j < i ==> #[trigger] props@[j].0@ == self.properties@[j].name@
                        && props@[j].1@ == type_schema(self.properties@[j].ty),
            decreases self.properties@.len() - i,
        {
            proof {
                assert(decreases_to!(self => self.properties));
                assert(decreases_to!(self.properties => self.properties@));
                assert(decreases_to!(self.properties@ => self.properties@[i as int]));
                assert(decreases_to!(self.properties@[i as int] => self.properties@[i as int].ty));
            }
            let p = &self.properties[i];
            let v = p.ty.to_json_schema_value();
            props.push((p.name.clone(), v));
            i = i + 1;
        }
        let pv = JsonValue::Object(props);
        proof {
            lemma_object_view(pv);
            assert(model_entries(props@) =~= object_schema(*self)->Object_0[1].1->Object_0);
        }
        let mut m: Vec<(String, JsonValue)> = Vec::new();
        m.push((String::from_str("type"), jstr("object")));
        m.push((String::from_str("properties"), pv));
        m.push((String::from_str("required"), strings_to_json(&self.required)));
        m.push((String::from_str("additionalProperties"), JsonValue::Bool(self.additional_properties)));
        let r = JsonValue::Object(m);
        proof {
            lemma_object_view(r);
            assert(model_entries(m@) =~= object_schema(*self)->Object_0);
        }
        r
    }
}

impl TypeSpec {
    /// Convert the type specification to a JSON Schema value.
    pub fn to_json_schema_value(&self) -> (r: JsonValue)
        ensures
            r@ == type_schema(*self),
        decreases self,
    {
        match self {
            TypeSpec::Object(o) => o.to_json_schema_value(),
            TypeSpec::Array(a) => {
                let items = a.items.to_json_schema_value();
                let mut m: Vec<(String, JsonValue)> = Vec::new();
                m.push((String::from_str("type"), jstr("array")));
                m.push((String::from_str("items"), items));
                let r = JsonValue::Object(m);
                proof {
                    lemma_object_view(r);
                    assert(model_entries(m@) =~= type_schema(*self)->Object_0);
                }
                r
            },
            TypeSpec::String(s) => {
                let mut m: Vec<(String, JsonValue)> = Vec::new();
                m.push((String::from_str("type"), jstr("string")));
                if let Some(values) = &s.enum_values {
                    m.push((String::from_str("enum"), strings_to_json(values)));
                }
                let r = JsonValue::Object(m);
                proof {
                    lemma_object_view(r);
                    assert(model_entries(m@) =~= type_schema(*self)->Object_0);
                }
                r
            },
            TypeSpec::Boolean(_) => {
                let mut m: Vec<(String, JsonValue)> = Vec::new();
                m.push((String::from_str("type"), jstr("boolean")));
                let r = JsonValue::Object(m);
                proof {
                    lemma_object_view(r);
                    assert(model_entries(m@) =~= type_schema(*self)->Object_0);
                }
                r
            },
            TypeSpec::Integer(n) => {
                let mut m: Vec<(String, JsonValue)> = Vec::new();
                m.push((String::from_str("type"), jstr("integer")));
                if let Some(min) = n.minimum {
                    m.push((String::from_str("minimum"), int_to_json(min)));
                }
                if let Some(max) = n.maximum {
                    m.push((String::from_str("maximum"), int_to_json(max)));
                }
                let r = JsonValue::Object(m);
                proof {
                    lemma_object_view(r);
                    assert(model_entries(m@) =~= type_schema(*self)->Object_0);
                }
                r
            },
            TypeSpec::Number(n) => {
                let mut m: Vec<(String, JsonValue)> = Vec::new();
                m.push((String::from_str("type"), jstr("number")));
                if let Some(min) = &n.minimum {
                    m.push((String::from_str("minimum"), JsonValue::Number(JsonNumber::Float(min.clone()))));
                }
                if let Some(max) = &n.maximum {
                    m.push((String::from_str("maximum"), JsonValue::Number(JsonNumber::Float(max.clone()))));
                }
                let r = JsonValue::Object(m);
                proof {
                    lemma_object_view(r);
                    assert(model_entries(m@) =~= type_schema(*self)->Object_0);
                }
                r
            },
        }
    }
}


/// The API's description of one tool function.
pub open spec fn function_json(f: FunctionSpec) -> JsonModel {
    JsonModel::Object(
        seq![
            ("type"@, JsonModel::Str("function"@)),
            (
                "function"@,
                JsonModel::Object(
                    seq![
                        ("name"@, JsonModel::Str(f.name@)),
                        ("description"@, JsonModel::Str(f.description@)),
                        ("parameters"@, object_schema(f.parameters)),
                    ],
                ),
            ),
        ],
    )
}

/// The function descriptions of `tools`, tool by tool, function by function.
pub open spec fn tools_json(tools: Seq<ToolSpec>) -> Seq<JsonModel>
    decreases tools.len(),
{
    if tools.len() == 0 {
        Seq::empty()
    } else {
        tools_json(tools.drop_last()) + tools.last().functions@.map_values(|f: FunctionSpec| function_json(f))
    }
}

/// The API's description of one tool function.
pub fn function_to_json(f: &FunctionSpec) -> (r: JsonValue)
    ensures
        r@ == function_json(*f),
{
    let mut inner: Vec<(String, JsonValue)> = Vec::new();
    inner.push((String::from_str("name"), jstr(f.name.as_str())));
    inner.push((String::from_str("description"), jstr(f.description.as_str())));
    inner.push((String::from_str("parameters"), f.parameters.to_json_schema_value()));
    let iv = JsonValue::Object(inner);
    proof {
        lemma_object_view(iv);
        assert(model_entries(inner@) =~= function_json(*f)->Object_0[1].1->Object_0);
    }
    let mut m: Vec<(String, JsonValue)> = Vec::new();
    m.push((String::from_str("type"), jstr("function")));
    m.push((String::from_str("function"), iv));
    let r = JsonValue::Object(m);
    proof {
        lemma_object_view(r);
        assert(model_entries(m@) =~= function_json(*f)->Object_0);
    }
    r
}

/// Describe the functions of the given tools for the OpenAI API.
pub fn tools_to_openai_json(tools: &[&ToolSpec]) -> (r: Vec<JsonValue>)
    ensures
        model_items(r@) == tools_json(tools@.map_values(|t: &ToolSpec| *t)),
{
    let ghost ts = tools@.map_values(|t: &ToolSpec| *t);
    let mut out: Vec<JsonValue> = Vec::new();
    let mut t: usize = 0;
    while t < tools.len()
        invariant
            ts == tools@.map_values(|t: &ToolSpec| *t),
            t <= tools@.len(),
            model_items(out@) == tools_json(ts.take(t as int)),
        decreases tools@.len() - t,
    {
        let ghost before = out@;
        let fs = &tools[t].functions;
        let mut k: usize = 0;
        while k < fs.len()
            invariant
                k <= fs@.len(),
                out@.len() == before.len() + k,
                forall|j: int| 0 <= j < before.len() ==> #[trigger] out@[j] == before[j],
                forall|j: int| 0 <= j < k ==> #[trigger] out@[before.len() + j]@ == function_json(fs@[j]),
            decreases fs@.len() - k,
        {
            out.push(function_to_json(&fs[k]));
            k = k + 1;
        }
        proof {
            let tk = ts.take(t + 1);
            assert(tk.drop_last() =~= ts.take(t as int));
            assert(tk.last() == *tools@[t as int]);
            let rhs = model_items(before) + fs@.map_values(|f: FunctionSpec| function_json(f));
            assert forall|j: int| 0 <= j < out@.len() implies model_items(out@)[j] == rhs[j] by {
                if j < before.len() {
                    assert(model_items(before)[j] == before[j]@);
                } else {
                    assert(out@[before.len() + (j - before.len())]@ == function_json(fs@[j - before.len()]));
                }
            }
            assert(model_items(out@) =~= rhs);
        }
        t = t + 1;
    }
    assert(ts.take(tools@.len() as int) =~= ts);
    out
}

/// Why the tool calls of a reply could not be read.
#[derive(Debug)]
pub enum ToolCallError {
    NotArray,
    NotObject,
    MissingId,
    MissingType,
    NotFunction,
    MissingFunction,
    MissingName,
    MissingArguments,
    BadArguments,
}

impl ToolCallError {
    /// The error's message text.
    pub open spec fn message(self) -> Seq<char> {
        match self {
            ToolCallError::NotArray => "tool_calls is not array"@,
            ToolCallError::NotObject => "tool_call is not object"@,
            ToolCallError::MissingId => "tool_call missing id"@,
            ToolCallError::MissingType => "tool_call missing type"@,
            ToolCallError::NotFunction => "tool_call type is not function"@,
            ToolCallError::MissingFunction => "tool_call missing function"@,
            ToolCallError::MissingName => "tool_call missing function.name"@,
            ToolCallError::MissingArguments => "tool_call missing function.arguments"@,
            ToolCallError::BadArguments => "failed to parse function.arguments"@,
        }
    }

    /// The error's message text.
    pub fn to_string(&self) -> (r: String)
        ensures
            r@ == self.message(),
    {
        match self {
            ToolCallError::NotArray => String::from_str("tool_calls is not array"),
            ToolCallError::NotObject => String::from_str("tool_call is not object"),
            ToolCallError::MissingId => String::from_str("tool_call missing id"),
            ToolCallError::MissingType => String::from_str("tool_call missing type"),
            ToolCallError::NotFunction => String::from_str("tool_call type is not function"),
            ToolCallError::MissingFunction => String::from_str("tool_call missing function"),
            ToolCallError::MissingName => String::from_str("tool_call missing function.name"),
            ToolCallError::MissingArguments => String::from_str("tool_call missing function.arguments"),
            ToolCallError::BadArguments => String::from_str("failed to parse function.arguments"),
        }
    }
}

/// Mathematical form of a [`ToolCall`].
pub struct ToolCallModel {
    pub id: Seq<char>,
    pub function_name: Seq<char>,
    pub arguments: JsonModel,
}

impl View for ToolCall {
    type V = ToolCallModel;

    open spec fn view(&self) -> ToolCallModel {
        ToolCallModel { id: self.id@, function_name: self.function_name@, arguments: self.arguments@ }
    }
}

/// How one tool call of a reply is read: an object with string `id`, `type`
/// `"function"`, and a `function` object with string `name` and string
/// `arguments` holding JSON.
pub open spec fn parse_call(tc: JsonModel) -> Result<ToolCallModel, ToolCallError> {
    match json_as_object(Some(tc)) {
        None => Err(ToolCallError::NotObject),
        Some(obj) => match json_as_str(entries_get(obj, "id"@)) {
            None => Err(ToolCallError::MissingId),
            Some(id) => match json_as_str(entries_get(obj, "type"@)) {
                None => Err(ToolCallError::MissingType),
                Some(ty) => if ty != "function"@ {
                    Err(ToolCallError::NotFunction)
                } else {
                    match json_as_object(entries_get(obj, "function"@)) {
                        None => Err(ToolCallError::MissingFunction),
                        Some(f) => match json_as_str(entries_get(f, "name"@)) {
                            None => Err(ToolCallError::MissingName),
                            Some(name) => match json_as_str(entries_get(f, "arguments"@)) {
                                None => Err(ToolCallError::MissingArguments),
                                Some(args) => match serde_json_parse(args) {
                                    None => Err(ToolCallError::BadArguments),
                                    Some(a) => Ok(
                                        ToolCallModel { id, function_name: name, arguments: a },
                                    ),
                                },
                            },
                        },
                    }
                },
            },
        },
    }
}

/// The first `k` tool calls read in order; the first failure wins.
pub open spec fn parse_calls_prefix(items: Seq<JsonModel>, k: int) -> Result<Seq<ToolCallModel>, ToolCallError>
    decreases k,
{
    if k <= 0 || k > items.len() {
        Ok(Seq::empty())
    } else {
        match parse_calls_prefix(items, k - 1) {
            Err(e) => Err(e),
            Ok(cs) => match parse_call(items[k - 1]) {
                Err(e) => Err(e),
                Ok(c) => Ok(cs.push(c)),
            },
        }
    }
}

/// How the `tool_calls` value of a reply is read.
pub open spec fn parse_calls(v: JsonModel) -> Result<Seq<ToolCallModel>, ToolCallError> {
    match v {
        JsonModel::Array(items) => parse_calls_prefix(items, items.len() as int),
        _ => Err(ToolCallError::NotArray),
    }
}

/// Read one tool call.
fn parse_tool_call(tc: &JsonValue) -> (r: Result<ToolCall, ToolCallError>)
    ensures
        match r {
            Ok(c) => parse_call(tc@) == Ok::<ToolCallModel, ToolCallError>(c@),
            Err(e) => parse_call(tc@) == Err::<ToolCallModel, ToolCallError>(e),
        },
{
    let obj = match tc {
        JsonValue::Object(m) => m,
        _ => return Err(ToolCallError::NotObject),
    };
    proof {
        lemma_object_view(*tc);
    }
    let id = match entries_lookup(obj, "id") {
        Some(v) => match v.as_str() {
            Some(s) => s,
            None => return Err(ToolCallError::MissingId),
        },
        None => return Err(ToolCallError::MissingId),
    };
    let ty = match entries_lookup(obj, "type") {
        Some(v) => match v.as_str() {
            Some(s) => s,
            None => return Err(ToolCallError::MissingType),
        },
        None => return Err(ToolCallError::MissingType),
    };
    if !str_eq(ty, "function") {
        return Err(ToolCallError::NotFunction);
    }
    let f = match entries_lookup(obj, "function") {
        Some(v) => match v.as_object() {
            Some(m) => m,
            None => return Err(ToolCallError::MissingFunction),
        },
        None => return Err(ToolCallError::MissingFunction),
    };
    let name = match entries_lookup(f, "name") {
        Some(v) => match v.as_str() {
            Some(s) => s,
            None => return Err(ToolCallError::MissingName),
        },
        None => return Err(ToolCallError::MissingName),
    };
    let args = match entries_lookup(f, "arguments") {
        Some(v) => match v.as_str() {
            Some(s) => s,
            None => return Err(ToolCallError::MissingArguments),
        },
        None => return Err(ToolCallError::MissingArguments),
    };
    let arguments = match parse_json(args) {
        Some(a) => a,
        None => return Err(ToolCallError::BadArguments),
    };
    Ok(ToolCall { id: String::from_str(id), function_name: String::from_str(name), arguments })
}

/// Read the tool calls of an assistant reply, in order.
pub fn parse_tool_calls(tool_calls: &JsonValue) -> (r: Result<Vec<ToolCall>, ToolCallError>)
    ensures
        match r {
            Ok(cs) => parse_calls(tool_calls@) == Ok::<Seq<ToolCallModel>, ToolCallError>(
                cs@.map_values(|c: ToolCall| c@),
            ),
            Err(e) => parse_calls(tool_calls@) == Err::<Seq<ToolCallModel>, ToolCallError>(e),
        },
{
    let arr = match tool_calls {
        JsonValue::Array(a) => a,
        _ => return Err(ToolCallError::NotArray),
    };
    proof {
        lemma_array_view(*tool_calls);
    }
    let ghost items = model_items(arr@);
    let mut out: Vec<ToolCall> = Vec::new();
    assert(out@.map_values(|c: ToolCall| c@) =~= Seq::<ToolCallModel>::empty());
    let mut i: usize = 0;
    while i < arr.len()
        invariant
            items == model_items(arr@),
            tool_calls@ == JsonModel::Array(items),
            i <= arr@.len(),
            parse_calls_prefix(items, i as int) == Ok::<Seq<ToolCallModel>, ToolCallError>(
                out@.map_values(|c: ToolCall| c@),
            ),
        decreases arr@.len() - i,
    {
        proof {
            assert(items[i as int] == arr@[i as int]@);
        }
        match parse_tool_call(&arr[i]) {
            Ok(c) => {
                let ghost prev = out@;
                out.push(c);
                proof {
                    assert(out@.map_values(|c: ToolCall| c@) =~= prev.map_values(|c: ToolCall| c@).push(c@));
                }
            },
            Err(e) => {
                proof {
                    assert(parse_calls_prefix(items, i as int + 1) == Err::<Seq<ToolCallModel>, ToolCallError>(e));
                    lemma_calls_error_sticks(items, i as int + 1, items.len() as int);
                }
                return Err(e);
            },
        }
        i = i + 1;
    }
    Ok(out)
}

pub proof fn lemma_calls_error_sticks(items: Seq<JsonModel>, a: int, b: int)
    requires
        0 <= a <= b <= items.len(),
        parse_calls_prefix(items, a) is Err,
    ensures
        parse_calls_prefix(items, b) == parse_calls_prefix(items, a),
    decreases b - a,
{
    if a < b {
        lemma_calls_error_sticks(items, a, b - 1);
    }
}

/// Where the tool serving a function was found.
#[derive(Debug)]
pub enum ToolLocation {
    /// In the context's own tools, at this index.
    Context(usize),
    /// In the session's tools, at this index.
    Session(usize),
}

/// The tool declares a function of this name.
pub open spec fn declares(t: ToolSpec, name: Seq<char>) -> bool {
    exists|j: int| 0 <= j < t.functions@.len() && #[trigger] t.functions@[j].name@ == name
}

/// Index of the last tool in `tools` that declares `name`.
fn last_declaring(tools: &[&ToolSpec], function_name: &str) -> (r: Option<usize>)
    ensures
        match r {
            Some(i) => i < tools@.len() && declares(*tools@[i as int], function_name@) && forall|k: int|
                i < k < tools@.len() ==> !declares(*#[trigger] tools@[k], function_name@),
            None => forall|k: int| 0 <= k < tools@.len() ==> !declares(*#[trigger] tools@[k], function_name@),
        },
{
    let mut i = tools.len();
    while i > 0
        invariant
            i <= tools@.len(),
            forall|k: int| i <= k < tools@.len() ==> !declares(*#[trigger] tools@[k], function_name@),
        decreases i,
    {
        i = i - 1;
        let fs = &tools[i].functions;
        let mut j: usize = 0;
        while j < fs.len()
            invariant
                j <= fs@.len(),
                i < tools@.len(),
                fs@ == tools@[i as int].functions@,
                forall|k: int| i < k < tools@.len() ==> !declares(*#[trigger] tools@[k], function_name@),
                forall|q: int| 0 <= q < j ==> fs@[q].name@ != function_name@,
            decreases fs@.len() - j,
        {
            if str_eq(fs[j].name.as_str(), function_name) {
                assert(tools@[i as int].functions@[j as int].name@ == function_name@);
                return Some(i);
            }
            j = j + 1;
        }
    }
    None
}

/// Find the tool that serves a function: later-added tools win, and the
/// context's own tools come before the session's.
pub fn find_tool_for_function(ctx_tools: &[&ToolSpec], session_tools: &[&ToolSpec], function_name: &str) -> (r: Option<ToolLocation>)
    ensures
        match r {
            Some(ToolLocation::Context(i)) => i < ctx_tools@.len() && declares(*ctx_tools@[i as int], function_name@)
                && forall|k: int| i < k < ctx_tools@.len() ==> !declares(*#[trigger] ctx_tools@[k], function_name@),
            Some(ToolLocation::Session(i)) => (forall|k: int| 0 <= k < ctx_tools@.len() ==> !declares(*#[trigger] ctx_tools@[k], function_name@))
                && i < session_tools@.len() && declares(*session_tools@[i as int], function_name@)
                && forall|k: int| i < k < session_tools@.len() ==> !declares(*#[trigger] session_tools@[k], function_name@),
            None => (forall|k: int| 0 <= k < ctx_tools@.len() ==> !declares(*#[trigger] ctx_tools@[k], function_name@))
                && forall|k: int| 0 <= k < session_tools@.len() ==> !declares(*#[trigger] session_tools@[k], function_name@),
        },
{
    match last_declaring(ctx_tools, function_name) {
        Some(i) => Some(ToolLocation::Context(i)),
        None => match last_declaring(session_tools, function_name) {
            Some(i) => Some(ToolLocation::Session(i)),
            None => None,
        },
    }
}

} // verus!
