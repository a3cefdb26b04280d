//! Accumulation of streamed tool-call fragments from OpenAI
//! chat-completions stream lines.

use vstd::prelude::*;
use crate::json::{
    entries_get, entries_lookup, json_as_array, json_as_object, json_as_str, json_as_u64,
    json_get, lemma_array_view, lemma_object_view, model_entries, model_items, parse_json,
    serde_json_parse, JsonModel, JsonValue,
};

verus! {

/// The fragment of one tool call carried by a stream line.
#[derive(Debug)]
pub struct ToolCallDelta {
    pub index: usize,
    pub id: Option<String>,
    pub name: Option<String>,
    pub arguments_json: Option<String>,
}

/// The tool-call fragments carried by one stream line.
#[derive(Debug)]
pub struct OpenAiStreamDelta {
    pub tool_calls_delta: Vec<ToolCallDelta>,
}

/// One tool call as accumulated so far.
struct AccumToolCall {
    id: String,
    name: String,
    arguments_json: String,
}

/// Accumulates the tool calls of a streamed reply.
pub struct OpenAiStreamAccumulator {
    tool_calls: Vec<AccumToolCall>,
}

/// Mathematical form of an accumulated tool call.
pub struct CallModel {
    pub id: Seq<char>,
    pub name: Seq<char>,
    pub arguments: Seq<char>,
}

/// Mathematical form of a [`ToolCallDelta`].
pub struct DeltaModel {
    pub index: int,
    pub id: Option<Seq<char>>,
    pub name: Option<Seq<char>>,
    pub arguments: Option<Seq<char>>,
}

/// Why a stream line was rejected.
#[derive(Debug)]
pub enum StreamError {
    /// The line is not JSON.
    BadJson,
    /// No `choices` array.
    MissingChoices,
    /// `choices` is empty.
    EmptyChoices,
    /// `choices[0].delta` is not an object.
    MissingDelta,
    /// `delta.tool_calls` is not an array.
    ToolCallsNotArray,
}

impl StreamError {
    /// The error's message text.
    pub fn to_string(&self) -> (r: String)
        ensures
            r@ == match self {
                StreamError::BadJson => "failed to parse stream line json"@,
                StreamError::MissingChoices => "missing choices"@,
                StreamError::EmptyChoices => "empty choices"@,
                StreamError::MissingDelta => "missing choices[0].delta"@,
                StreamError::ToolCallsNotArray => "delta.tool_calls not array"@,
            },
    {
        match self {
            StreamError::BadJson => String::from_str("failed to parse stream line json"),
            StreamError::MissingChoices => String::from_str("missing choices"),
            StreamError::EmptyChoices => String::from_str("empty choices"),
            StreamError::MissingDelta => String::from_str("missing choices[0].delta"),
            StreamError::ToolCallsNotArray => String::from_str("delta.tool_calls not array"),
        }
    }
}

pub open spec fn empty_call() -> CallModel {
    CallModel { id: Seq::empty(), name: Seq::empty(), arguments: Seq::empty() }
}

/// What a stream line holds: the tool-call fragments of
/// `choices[0].delta.tool_calls`, `None` when there are none.
pub open spec fn stream_line(text: Seq<char>) -> Result<Option<Seq<JsonModel>>, StreamError> {
    match serde_json_parse(text) {
        None => Err(StreamError::BadJson),
        Some(root) => match json_as_array(json_get(root, "choices"@)) {
            None => Err(StreamError::MissingChoices),
            Some(cs) => if cs.len() == 0 {
                Err(StreamError::EmptyChoices)
            } else {
                match json_as_object(json_get(cs[0], "delta"@)) {
                    None => Err(StreamError::MissingDelta),
                    Some(d) => match entries_get(d, "tool_calls"@) {
                        None => Ok(None),
                        Some(JsonModel::Array(a)) => Ok(Some(a)),
                        Some(_) => Err(StreamError::ToolCallsNotArray),
                    },
                }
            },
        },
    }
}

/// The call slot a fragment addresses: its `index`, or 0.
pub open spec fn fragment_index(tc: JsonModel) -> int {
    match json_as_u64(json_get(tc, "index"@)) {
        Some(u) => (u as usize) as int,
        None => 0,
    }
}

/// The fragment's `function` object members.
pub open spec fn fragment_function(tc: JsonModel) -> Option<Seq<(Seq<char>, JsonModel)>> {
    json_as_object(json_get(tc, "function"@))
}

/// The fragment's `function.name`.
pub open spec fn fragment_name(tc: JsonModel) -> Option<Seq<char>> {
    match fragment_function(tc) {
        Some(f) => json_as_str(entries_get(f, "name"@)),
        None => None,
    }
}

/// The fragment's `function.arguments`.
pub open spec fn fragment_arguments(tc: JsonModel) -> Option<Seq<char>> {
    match fragment_function(tc) {
        Some(f) => json_as_str(entries_get(f, "arguments"@)),
        None => None,
    }
}

/// What one fragment reports.
pub open spec fn fragment_delta(tc: JsonModel) -> DeltaModel {
    DeltaModel {
        index: fragment_index(tc),
        id: json_as_str(json_get(tc, "id"@)),
        name: fragment_name(tc),
        arguments: fragment_arguments(tc),
    }
}

/// The calls, with empty calls added so that slot `idx` exists.
pub open spec fn grow_to(acc: Seq<CallModel>, idx: int) -> Seq<CallModel> {
    if idx < acc.len() {
        acc
    } else {
        acc + Seq::new((idx + 1 - acc.len()) as nat, |i: int| empty_call())
    }
}

/// The calls after one fragment: its id and name replace the slot's, its
/// arguments are appended to the slot's.
pub open spec fn apply_fragment(acc: Seq<CallModel>, tc: JsonModel) -> Seq<CallModel> {
    let d = fragment_delta(tc);
    let g = grow_to(acc, d.index);
    let c = g[d.index];
    g.update(
        d.index,
        CallModel {
            id: match d.id {
                Some(s) => s,
                None => c.id,
            },
            name: match d.name {
                Some(s) => s,
                None => c.name,
            },
            arguments: match d.arguments {
                Some(s) => c.arguments + s,
                None => c.arguments,
            },
        },
    )
}

/// A fragment addressed to slot `i` changes that slot only: every other
/// slot keeps its call (slots added to reach `i` are empty), and slot `i`
/// takes the fragment's id and name where it has them and gets its
/// arguments appended.
pub proof fn law_fragment_changes_its_slot_only(acc: Seq<CallModel>, tc: JsonModel)
    ensures
        ({
            let d = fragment_delta(tc);
            let i = d.index;
            let r = apply_fragment(acc, tc);
            let before = if i < acc.len() { acc[i] } else { empty_call() };
            &&& 0 <= i
            &&& r.len() == if i < acc.len() { acc.len() as int } else { i + 1 }
            &&& forall|j: int| 0 <= j < r.len() && j != i ==> #[trigger] r[j] == (if j < acc.len() {
                acc[j]
            } else {
                empty_call()
            })
            &&& r[i].id == match d.id {
                Some(s) => s,
                None => before.id,
            }
            &&& r[i].name == match d.name {
                Some(s) => s,
                None => before.name,
            }
            &&& r[i].arguments == before.arguments + match d.arguments {
                Some(s) => s,
                None => Seq::<char>::empty(),
            }
        }),
{
    let d = fragment_delta(tc);
    let i = d.index;
    let g = grow_to(acc, i);
    assert(before_is(acc, g, i));
    match d.arguments {
        Some(s) => {},
        None => {
            assert(g[i].arguments + Seq::<char>::empty() =~= g[i].arguments);
        },
    }
}

spec fn before_is(acc: Seq<CallModel>, g: Seq<CallModel>, i: int) -> bool {
    &&& g[i] == (if i < acc.len() { acc[i] } else { empty_call() })
    &&& forall|j: int| 0 <= j < g.len() ==> #[trigger] g[j] == (if j < acc.len() { acc[j] } else { empty_call() })
}

/// The calls after the first `k` fragments.
pub open spec fn apply_fragments(acc: Seq<CallModel>, tcs: Seq<JsonModel>, k: int) -> Seq<CallModel>
    decreases k,
{
    if k <= 0 || k > tcs.len() {
        acc
    } else {
        apply_fragment(apply_fragments(acc, tcs, k - 1), tcs[k - 1])
    }
}

impl View for AccumToolCall {
    type V = CallModel;

    closed spec fn view(&self) -> CallModel {
        CallModel { id: self.id@, name: self.name@, arguments: self.arguments_json@ }
    }
}

impl View for ToolCallDelta {
    type V = DeltaModel;

    open spec fn view(&self) -> DeltaModel {
        DeltaModel {
            index: self.index as int,
            id: match self.id {
                Some(s) => Some(s@),
                None => None,
            },
            name: match self.name {
                Some(s) => Some(s@),
                None => None,
            },
            arguments: match self.arguments_json {
                Some(s) => Some(s@),
                None => None,
            },
        }
    }
}

impl View for OpenAiStreamDelta {
    type V = Seq<DeltaModel>;

    open spec fn view(&self) -> Seq<DeltaModel> {
        self.tool_calls_delta@.map_values(|d: ToolCallDelta| d@)
    }
}

impl View for OpenAiStreamAccumulator {
    type V = Seq<CallModel>;

    closed spec fn view(&self) -> Seq<CallModel> {
        self.tool_calls@.map_values(|c: AccumToolCall| c@)
    }
}

/// The call holds something.
pub open spec fn call_nonempty(c: CallModel) -> bool {
    c.id.len() > 0 || c.name.len() > 0 || c.arguments.len() > 0
}

/// The API's JSON object for one accumulated call.
pub open spec fn call_json(c: CallModel) -> JsonModel {
    JsonModel::Object(
        seq![
            ("id"@, JsonModel::Str(c.id)),
            ("type"@, JsonModel::Str("function"@)),
            (
                "function"@,
                JsonModel::Object(
                    seq![("name"@, JsonModel::Str(c.name)), ("arguments"@, JsonModel::Str(c.arguments))],
                ),
            ),
        ],
    )
}

/// The JSON objects of the non-empty calls, in order.
pub open spec fn calls_json(cs: Seq<CallModel>) -> Seq<JsonModel>
    decreases cs.len(),
{
    if cs.len() == 0 {
        Seq::empty()
    } else if call_nonempty(cs.last()) {
        calls_json(cs.drop_last()).push(call_json(cs.last()))
    } else {
        calls_json(cs.drop_last())
    }
}

/// The accumulator reports tool calls exactly when the tool-calls value it
/// builds is a non-empty array.
pub proof fn law_has_tool_calls_iff_value_nonempty(cs: Seq<CallModel>)
    ensures
        (exists|i: int| 0 <= i < cs.len() && call_nonempty(#[trigger] cs[i])) <==> calls_json(cs).len() > 0,
    decreases cs.len(),
{
    if cs.len() > 0 {
        let d = cs.drop_last();
        law_has_tool_calls_iff_value_nonempty(d);
        if exists|i: int| 0 <= i < d.len() && call_nonempty(#[trigger] d[i]) {
            let i = choose|i: int| 0 <= i < d.len() && call_nonempty(#[trigger] d[i]);
            assert(cs[i] == d[i]);
        }
        if exists|i: int| 0 <= i < cs.len() && call_nonempty(#[trigger] cs[i]) {
            let i = choose|i: int| 0 <= i < cs.len() && call_nonempty(#[trigger] cs[i]);
            if i < cs.len() - 1 {
                assert(d[i] == cs[i]);
            }
        }
    }
}

fn copy_opt_str(s: Option<&str>) -> (r: Option<String>)
    ensures
        match s {
            Some(x) => r is Some && r->Some_0@ == x@,
            None => r is None,
        },
{
    match s {
        Some(x) => Some(String::from_str(x)),
        None => None,
    }
}

impl OpenAiStreamAccumulator {
    /// An accumulator holding no calls.
    pub fn new() -> (r: Self)
        ensures
            r@ == Seq::<CallModel>::empty(),
    {
        let r = OpenAiStreamAccumulator { tool_calls: Vec::new() };
        assert(r@ =~= Seq::<CallModel>::empty());
        r
    }

    /// Apply one tool-call fragment.
    fn apply(&mut self, tc: &JsonValue) -> (d: ToolCallDelta)
        ensures
            final(self)@ == apply_fragment(old(self)@, tc@),
            d@ == fragment_delta(tc@),
    {
        let index: usize = match tc.get("index") {
            Some(v) => match v.as_u64() {
                Some(u) => #[verifier::truncate] (u as usize),
                None => 0,
            },
            None => 0,
        };
        let ghost acc = self@;
        let ghost g = grow_to(acc, index as int);
        while self.tool_calls.len() <= index
            invariant
                acc.len() <= self.tool_calls@.len(),
                forall|j: int| 0 <= j < acc.len() ==> #[trigger] self@[j] == acc[j],
                forall|j: int| acc.len() <= j < self.tool_calls@.len() ==> #[trigger] self@[j] == empty_call(),
                self@.len() == self.tool_calls@.len(),
                self.tool_calls@.len() <= (if index < acc.len() { acc.len() as int } else { index + 1 }),
            decreases index + 1 - self.tool_calls@.len(),
        {
            let ghost prev = self@;
            let e = AccumToolCall { id: String::new(), name: String::new(), arguments_json: String::new() };
            assert(e@ == empty_call());
            self.tool_calls.push(e);
            proof {
                assert(self@ =~= prev.push(empty_call()));
            }
        }
        proof {
            assert(self@ =~= g);
        }
        let cur = &self.tool_calls[index];
        let mut id = cur.id.clone();
        let mut name = cur.name.clone();
        let mut args = cur.arguments_json.clone();
        let d_id = copy_opt_str(match tc.get("id") {
            Some(v) => v.as_str(),
            None => None,
        });
        if let Some(s) = &d_id {
            id = s.clone();
        }
        let mut d_name: Option<String> = None;
        let mut d_args: Option<String> = None;
        if let Some(fv) = tc.get("function") {
            if let Some(f) = fv.as_object() {
                d_name = copy_opt_str(match entries_lookup(f, "name") {
                    Some(v) => v.as_str(),
                    None => None,
                });
                if let Some(s) = &d_name {
                    name = s.clone();
                }
                d_args = copy_opt_str(match entries_lookup(f, "arguments") {
                    Some(v) => v.as_str(),
                    None => None,
                });
                if let Some(s) = &d_args {
                    args.append(s.as_str());
                }
            }
        }
        self.tool_calls.set(index, AccumToolCall { id, name, arguments_json: args });
        proof {
            assert(self@ =~= apply_fragment(acc, tc@));
        }
        ToolCallDelta { index, id: d_id, name: d_name, arguments_json: d_args }
    }

    /// Feed one `data:` line of a chat-completions stream. The delta output
    /// is cleared first and then receives the fragments the line carries.
    pub fn feed_data_line(&mut self, line: &str, delta_out: &mut OpenAiStreamDelta) -> (r: Result<bool, StreamError>)
        ensures
            match stream_line(line@) {
                Err(e) => r == Err::<bool, StreamError>(e) && final(self)@ == old(self)@
                    && final(delta_out)@.len() == 0,
                Ok(None) => r == Ok::<bool, StreamError>(true) && final(self)@ == old(self)@
                    && final(delta_out)@.len() == 0,
                Ok(Some(tcs)) => r == Ok::<bool, StreamError>(true)
                    && final(self)@ == apply_fragments(old(self)@, tcs, tcs.len() as int)
                    && final(delta_out)@ == tcs.map_values(|tc: JsonModel| fragment_delta(tc)),
            },
    {
        delta_out.tool_calls_delta = Vec::new();
        let root = match parse_json(line) {
            Some(v) => v,
            None => return Err(StreamError::BadJson),
        };
        let choices = match root.get("choices") {
            Some(v) => match v.as_array() {
                Some(a) => a,
                None => return Err(StreamError::MissingChoices),
            },
            None => return Err(StreamError::MissingChoices),
        };
        if choices.len() == 0 {
            return Err(StreamError::EmptyChoices);
        }
        assert(model_items(choices@)[0] == choices@[0]@);
        let delta = match choices[0].get("delta") {
            Some(v) => match v.as_object() {
                Some(m) => m,
                None => return Err(StreamError::MissingDelta),
            },
            None => return Err(StreamError::MissingDelta),
        };
        let tool_calls = match entries_lookup(delta, "tool_calls") {
            None => {
                assert(delta_out@ =~= Seq::<DeltaModel>::empty());
                return Ok(true);
            },
            Some(v) => match v {
                JsonValue::Array(a) => {
                    proof {
                        lemma_array_view(*v);
                    }
                    a
                },
                _ => return Err(StreamError::ToolCallsNotArray),
            },
        };
        let ghost tcs = model_items(tool_calls@);
        let ghost acc = self@;
        let mut i: usize = 0;
        assert(delta_out@ =~= tcs.take(0).map_values(|tc: JsonModel| fragment_delta(tc)));
        while i < tool_calls.len()
            invariant
                tcs == model_items(tool_calls@),
                i <= tool_calls@.len(),
                self@ == apply_fragments(acc, tcs, i as int),
                delta_out@ == tcs.take(i as int).map_values(|tc: JsonModel| fragment_delta(tc)),
            decreases tool_calls@.len() - i,
        {
            let d = self.apply(&tool_calls[i]);
            proof {
                assert(tcs[i as int] == tool_calls@[i as int]@);
            }
            let ghost prevd = delta_out@;
            delta_out.tool_calls_delta.push(d);
            proof {
                assert(delta_out@ =~= prevd.push(fragment_delta(tcs[i as int])));
            }
            i = i + 1;
            proof {
                assert(delta_out@ =~= tcs.take(i as int).map_values(|tc: JsonModel| fragment_delta(tc)));
            }
        }
        assert(tcs.take(tcs.len() as int) =~= tcs);
        Ok(true)
    }

    /// The accumulated calls as the `tool_calls` value of an assistant
    /// message; calls that hold nothing are left out.
    pub fn build_assistant_tool_calls_value(&self) -> (r: JsonValue)
        ensures
            r@ == JsonModel::Array(calls_json(self@)),
    {
        let mut arr: Vec<JsonValue> = Vec::new();
        let mut i: usize = 0;
        while i < self.tool_calls.len()
            invariant
                i <= self.tool_calls@.len(),
                self@.len() == self.tool_calls@.len(),
                model_items(arr@) == calls_json(self@.take(i as int)),
            decreases self.tool_calls@.len() - i,
        {
            let t = &self.tool_calls[i];
            let ghost prev = arr@;
            proof {
                assert(self@[i as int] == t@);
                let tk = self@.take(i + 1);
                assert(tk.drop_last() =~= self@.take(i as int));
                assert(tk.last() == t@);
            }
            if !t.id.as_str().is_empty() || !t.name.as_str().is_empty() || !t.arguments_json.as_str().is_empty() {
                let mut f: Vec<(String, JsonValue)> = Vec::new();
                f.push((String::from_str("name"), JsonValue::Str(t.name.clone())));
                f.push((String::from_str("arguments"), JsonValue::Str(t.arguments_json.clone())));
                let fv = JsonValue::Object(f);
                let mut o: Vec<(String, JsonValue)> = Vec::new();
                o.push((String::from_str("id"), JsonValue::Str(t.id.clone())));
                o.push((String::from_str("type"), JsonValue::Str(String::from_str("function"))));
                o.push((String::from_str("function"), fv));
                let ov = JsonValue::Object(o);
                proof {
                    lemma_object_view(fv);
                    lemma_object_view(ov);
                    assert(model_entries(f@) =~= call_json(t@)->Object_0[2].1->Object_0);
                    assert(model_entries(o@) =~= call_json(t@)->Object_0);
                }
                arr.push(ov);
                proof {
                    assert(model_items(arr@) =~= model_items(prev).push(call_json(t@)));
                }
            }
            i = i + 1;
        }
        assert(self@.take(self@.len() as int) =~= self@);
        let r = JsonValue::Array(arr);
        proof {
            lemma_array_view(r);
        }
        r
    }

    /// Whether any call holds an id, a name or arguments.
    pub fn has_tool_calls(&self) -> (r: bool)
        ensures
            r == exists|i: int| 0 <= i < self@.len() && call_nonempty(#[trigger] self@[i]),
    {
        let mut i: usize = 0;
        while i < self.tool_calls.len()
            invariant
                i <= self.tool_calls@.len(),
                forall|j: int| 0 <= j < i ==> !call_nonempty(#[trigger] self@[j]),
            decreases self.tool_calls@.len() - i,
        {
            let t = &self.tool_calls[i];
            assert(self@[i as int] == t@);
            if !t.id.as_str().is_empty() || !t.name.as_str().is_empty() || !t.arguments_json.as_str().is_empty() {
                return true;
            }
            i = i + 1;
        }
        false
    }
}

} // verus!
