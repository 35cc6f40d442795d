//! Tool definitions, input schemas, execution results, and the validation of
//! tool arguments against a schema.

use vstd::prelude::*;
use crate::json::{JsonVal, JsonData, json_clone, lookup_field, field_views_of};
use crate::text::{str_eq, append_str, chars_vec, string_from_chars};

verus! {

broadcast use vstd::seq::group_seq_axioms, vstd::std_specs::vec::group_vec_axioms;

/// Coarse permission tag on a tool.
#[derive(Debug, Clone, Copy, PartialEq, Eq, Structural)]
pub enum ToolGroup {
    Exec,
    Messaging,
    Files,
    Net,
    Identity,
}

/// Schema of one property of a tool's input object.
#[derive(Debug)]
pub struct PropertySchema {
    pub schema_type: String,
    pub description: String,
    pub default: Option<JsonVal>,
    pub items: Option<Box<PropertySchema>>,
    pub enum_values: Option<Vec<String>>,
}

pub struct PropertySchemaData {
    pub schema_type: Seq<char>,
    pub description: Seq<char>,
    pub default: Option<JsonData>,
    pub items: Option<Box<PropertySchemaData>>,
    pub enum_values: Option<Seq<Seq<char>>>,
}

impl View for PropertySchema {
    type V = PropertySchemaData;

    open spec fn view(&self) -> PropertySchemaData
        decreases self,
    {
        PropertySchemaData {
            schema_type: self.schema_type@,
            description: self.description@,
            default: match self.default {
                Some(d) => Some(d@),
                None => None,
            },
            items: match self.items {
                Some(b) => Some(Box::new((*b)@)),
                None => None,
            },
            enum_values: match self.enum_values {
                Some(vs) => Some(Seq::new(vs@.len(), |i: int| vs@[i]@)),
                None => None,
            },
        }
    }
}

/// The views of a property list, in order.
pub open spec fn props_view(s: Seq<(String, PropertySchema)>) -> Seq<(Seq<char>, PropertySchemaData)> {
    Seq::new(s.len(), |i: int| (s[i].0@, s[i].1@))
}

/// The JSON-schema subset a tool states for its input.
#[derive(Debug)]
pub struct ToolInputSchema {
    pub schema_type: String,
    pub properties: Vec<(String, PropertySchema)>,
    pub required: Vec<String>,
}

pub struct ToolInputSchemaData {
    pub schema_type: Seq<char>,
    pub properties: Seq<(Seq<char>, PropertySchemaData)>,
    pub required: Seq<Seq<char>>,
}

impl View for ToolInputSchema {
    type V = ToolInputSchemaData;

    open spec fn view(&self) -> ToolInputSchemaData {
        ToolInputSchemaData {
            schema_type: self.schema_type@,
            properties: props_view(self.properties@),
            required: Seq::new(self.required@.len(), |i: int| self.required@[i]@),
        }
    }
}

/// A named tool with its input contract and permission group.
#[derive(Debug)]
pub struct ToolDefinition {
    pub name: String,
    pub description: String,
    pub input_schema: ToolInputSchema,
    pub group: ToolGroup,
}

pub struct ToolDefinitionData {
    pub name: Seq<char>,
    pub description: Seq<char>,
    pub input_schema: ToolInputSchemaData,
    pub group: ToolGroup,
}

impl View for ToolDefinition {
    type V = ToolDefinitionData;

    open spec fn view(&self) -> ToolDefinitionData {
        ToolDefinitionData {
            name: self.name@,
            description: self.description@,
            input_schema: self.input_schema@,
            group: self.group,
        }
    }
}

/// The structured result of one tool execution.
#[derive(Debug)]
pub struct ToolResult {
    pub success: bool,
    pub content: String,
    pub metadata: JsonVal,
}

pub struct ToolResultData {
    pub success: bool,
    pub content: Seq<char>,
    pub metadata: JsonData,
}

impl View for ToolResult {
    type V = ToolResultData;

    open spec fn view(&self) -> ToolResultData {
        ToolResultData { success: self.success, content: self.content@, metadata: self.metadata@ }
    }
}

impl ToolResult {
    pub fn success(content: String) -> (r: ToolResult)
        ensures
            r@.success == true,
            r@.content == content@,
            r@.metadata == JsonData::Null,
    {
        ToolResult { success: true, content, metadata: JsonVal::Null }
    }

    pub fn error(content: String) -> (r: ToolResult)
        ensures
            r@.success == false,
            r@.content == content@,
            r@.metadata == JsonData::Null,
    {
        ToolResult { success: false, content, metadata: JsonVal::Null }
    }

    /// The same result, carrying the given metadata.
    pub fn with_metadata(self, metadata: JsonVal) -> (r: ToolResult)
        ensures
            r@.success == self@.success,
            r@.content == self@.content,
            r@.metadata == metadata@,
    {
        ToolResult { success: self.success, content: self.content, metadata }
    }
}

/// Per-execution capability bag handed to a tool.
#[derive(Debug)]
pub struct ToolContext {
    pub workspace_dir: Option<String>,
    pub api_keys: Vec<(String, String)>,
    pub channel_id: i64,
    pub cancelled: bool,
}

/// The first value stored under `name`.
pub open spec fn key_lookup(keys: Seq<(Seq<char>, Seq<char>)>, name: Seq<char>) -> Option<Seq<char>>
    decreases keys.len(),
{
    if keys.len() == 0 {
        None
    } else if keys[0].0 == name {
        Some(keys[0].1)
    } else {
        key_lookup(keys.drop_first(), name)
    }
}

/// The views of an association list of strings.
pub open spec fn keys_view(s: Seq<(String, String)>) -> Seq<(Seq<char>, Seq<char>)> {
    Seq::new(s.len(), |i: int| (s[i].0@, s[i].1@))
}

proof fn lemma_key_lookup_skip(keys: Seq<(Seq<char>, Seq<char>)>, name: Seq<char>, i: int)
    requires
        0 <= i <= keys.len(),
        forall|j: int| 0 <= j < i ==> keys[j].0 != name,
    ensures
        key_lookup(keys, name) == key_lookup(keys.skip(i), name),
    decreases i,
{
    if i > 0 {
        assert(keys.drop_first() =~= keys.skip(1));
        lemma_key_lookup_skip(keys.drop_first(), name, i - 1);
        assert(keys.drop_first().skip(i - 1) =~= keys.skip(i));
    } else {
        assert(keys.skip(0) =~= keys);
    }
}

impl ToolContext {
    /// An empty context: no workspace, no keys, no channel.
    pub fn new() -> (r: ToolContext)
        ensures
            r.workspace_dir is None,
            r.api_keys@.len() == 0,
            r.channel_id == 0,
            r.cancelled == false,
    {
        ToolContext { workspace_dir: None, api_keys: Vec::new(), channel_id: 0, cancelled: false }
    }

    /// Look up an API key by name.
    pub fn get_api_key(&self, name: &str) -> (r: Option<String>)
        ensures
            match r {
                Some(v) => key_lookup(keys_view(self.api_keys@), name@) == Some(v@),
                None => key_lookup(keys_view(self.api_keys@), name@) is None,
            },
    {
        let ghost kv = keys_view(self.api_keys@);
        let mut i: usize = 0;
        while i < self.api_keys.len()
            invariant
                i <= self.api_keys@.len(),
                kv == keys_view(self.api_keys@),
                forall|j: int| 0 <= j < i ==> kv[j].0 != name@,
            decreases self.api_keys@.len() - i,
        {
            if str_eq(self.api_keys[i].0.as_str(), name) {
                proof {
                    lemma_key_lookup_skip(kv, name@, i as int);
                    assert(kv.skip(i as int)[0] == kv[i as int]);
                }
                return Some(self.api_keys[i].1.clone());
            }
            i = i + 1;
        }
        proof {
            lemma_key_lookup_skip(kv, name@, kv.len() as int);
            assert(kv.skip(kv.len() as int) =~= Seq::<(Seq<char>, Seq<char>)>::empty());
        }
        None
    }
}

/// Whether a value fits a schema type tag. Unknown tags accept any value;
/// `number` means an integer here, since the model holds no fractions.
pub open spec fn type_matches(tag: Seq<char>, v: JsonData) -> bool {
    if tag == "string"@ {
        v is Str
    } else if tag == "integer"@ || tag == "number"@ {
        v is Int
    } else if tag == "boolean"@ {
        v is Bool
    } else if tag == "object"@ {
        v is Obj
    } else if tag == "array"@ {
        v is Arr
    } else {
        true
    }
}

/// Whether `v` meets a property's enum restriction, if one is given.
pub open spec fn enum_matches(p: PropertySchemaData, v: JsonData) -> bool {
    match p.enum_values {
        None => true,
        Some(allowed) => v matches JsonData::Str(s) && exists|i: int|
            0 <= i < allowed.len() && allowed[i] == s,
    }
}

/// Whether a present property value satisfies its schema.
pub open spec fn prop_ok(p: PropertySchemaData, v: JsonData) -> bool {
    type_matches(p.schema_type, v) && enum_matches(p, v)
}

/// The first required key that the arguments object lacks.
pub open spec fn first_missing(required: Seq<Seq<char>>, fields: Seq<(Seq<char>, JsonData)>) -> Option<Seq<char>>
    decreases required.len(),
{
    if required.len() == 0 {
        None
    } else if lookup_field(fields, required[0]) is None {
        Some(required[0])
    } else {
        first_missing(required.drop_first(), fields)
    }
}

/// The first property that is present but violates its schema.
pub open spec fn first_bad_prop(
    props: Seq<(Seq<char>, PropertySchemaData)>,
    fields: Seq<(Seq<char>, JsonData)>,
) -> Option<Seq<char>>
    decreases props.len(),
{
    if props.len() == 0 {
        None
    } else {
        match lookup_field(fields, props[0].0) {
            Some(v) => if !prop_ok(props[0].1, v) {
                Some(props[0].0)
            } else {
                first_bad_prop(props.drop_first(), fields)
            },
            None => first_bad_prop(props.drop_first(), fields),
        }
    }
}

/// The outcome that validation must report for `args` under `schema`.
pub open spec fn validation_verdict(schema: ToolInputSchemaData, args: JsonData) -> Result<
    (),
    Seq<char>,
> {
    match args {
        JsonData::Obj(fields) => {
            match first_missing(schema.required, fields) {
                Some(name) => Err("missing required field: "@ + name),
                None => match first_bad_prop(schema.properties, fields) {
                    Some(name) => Err("invalid value for field: "@ + name),
                    None => Ok(()),
                },
            }
        },
        _ => Err("arguments must be a JSON object"@),
    }
}

fn prop_ok_exec(p: &PropertySchema, v: &JsonVal) -> (r: bool)
    ensures
        r == prop_ok(p@, v@),
{
    let type_ok: bool = if str_eq(p.schema_type.as_str(), "string") {
        matches!(v, JsonVal::Str(_))
    } else if str_eq(p.schema_type.as_str(), "integer") || str_eq(p.schema_type.as_str(), "number") {
        matches!(v, JsonVal::Int(_))
    } else if str_eq(p.schema_type.as_str(), "boolean") {
        matches!(v, JsonVal::Bool(_))
    } else if str_eq(p.schema_type.as_str(), "object") {
        matches!(v, JsonVal::Obj(_))
    } else if str_eq(p.schema_type.as_str(), "array") {
        matches!(v, JsonVal::Arr(_))
    } else {
        true
    };
    if !type_ok {
        return false;
    }
    match &p.enum_values {
        None => true,
        Some(allowed) => {
            match v {
                JsonVal::Str(s) => {
                    let ghost av = p@.enum_values->0;
                    proof {
                        assert(av =~= Seq::new(allowed@.len(), |k: int| allowed@[k]@));
                    }
                    let mut i: usize = 0;
                    while i < allowed.len()
                        invariant
                            i <= allowed@.len(),
                            p@.enum_values == Some(av),
                            av.len() == allowed@.len(),
                            forall|k: int| 0 <= k < allowed@.len() ==> av[k] == allowed@[k]@,
                            type_matches(p@.schema_type, v@),
                            *v == JsonVal::Str(*s),
                            forall|j: int| 0 <= j < i ==> av[j] != s@,
                        decreases allowed@.len() - i,
                    {
                        if str_eq(allowed[i].as_str(), s.as_str()) {
                            proof {
                                assert(av[i as int] == s@);
                                assert(v@ == JsonData::Str(s@));
                                assert(i < av.len());
                                assert((p@.enum_values->0)[i as int] == s@);
                                assert(enum_matches(p@, v@));
                            }
                            return true;
                        }
                        i = i + 1;
                    }
                    false
                }
                _ => false,
            }
        }
    }
}

/// Check tool arguments against the tool's input schema: the arguments must be
/// an object, every required key must be present, and each present property
/// must match its declared type and enum restriction. The error names the
/// first offending field.
pub fn validate_args(schema: &ToolInputSchema, args: &JsonVal) -> (r: Result<(), String>)
    ensures
        match r {
            Ok(()) => validation_verdict(schema@, args@) is Ok,
            Err(e) => validation_verdict(schema@, args@) matches Err(msg) && e@ == msg,
        },
{
    let fields: &Vec<(String, JsonVal)> = match args {
        JsonVal::Obj(fields) => fields,
        _ => {
            return Err("arguments must be a JSON object".to_owned());
        }
    };
    let ghost fv = field_views_of(fields@);
    // required keys
    let ghost rv = schema@.required;
    proof {
        assert(rv.skip(0) =~= rv);
    }
    let mut i: usize = 0;
    while i < schema.required.len()
        invariant
            i <= schema.required@.len(),
            rv == schema@.required,
            fv == field_views_of(fields@),
            *args == JsonVal::Obj(*fields),
            first_missing(rv, fv) == first_missing(rv.skip(i as int), fv),
        decreases schema.required@.len() - i,
    {
        if crate::json::obj_field(fields, schema.required[i].as_str()).is_none() {
            proof {
                assert(rv.skip(i as int)[0] == rv[i as int]);
            }
            let mut msg = chars_vec("missing required field: ");
            append_str(&mut msg, schema.required[i].as_str());
            proof {
                reveal_strlit("missing required field: ");
            }
            return Err(string_from_chars(&msg));
        }
        proof {
            assert(rv.skip(i as int)[0] == rv[i as int]);
            assert(rv.skip(i as int).drop_first() =~= rv.skip(i as int + 1));
        }
        i = i + 1;
    }
    proof {
        assert(rv.skip(i as int) =~= Seq::<Seq<char>>::empty());
    }
    // property shapes
    let ghost pv = schema@.properties;
    proof {
        assert(pv.skip(0) =~= pv);
    }
    let mut j: usize = 0;
    while j < schema.properties.len()
        invariant
            j <= schema.properties@.len(),
            pv == schema@.properties,
            rv == schema@.required,
            fv == field_views_of(fields@),
            *args == JsonVal::Obj(*fields),
            first_missing(rv, fv) is None,
            first_bad_prop(pv, fv) == first_bad_prop(pv.skip(j as int), fv),
        decreases schema.properties@.len() - j,
    {
        proof {
            assert(pv.skip(j as int)[0] == pv[j as int]);
            assert(pv.skip(j as int).drop_first() =~= pv.skip(j as int + 1));
        }
        match crate::json::obj_field(fields, schema.properties[j].0.as_str()) {
            Some(v) => {
                if !prop_ok_exec(&schema.properties[j].1, v) {
                    let mut msg = chars_vec("invalid value for field: ");
                    append_str(&mut msg, schema.properties[j].0.as_str());
                    proof {
                        assert(first_bad_prop(pv, fv) == Some(pv[j as int].0));
                    }
                    return Err(string_from_chars(&msg));
                }
            }
            None => {}
        }
        j = j + 1;
    }
    proof {
        assert(pv.skip(j as int) =~= Seq::<(Seq<char>, PropertySchemaData)>::empty());
    }
    Ok(())
}

/// Rebuild an identical property schema.
pub fn clone_property(p: &PropertySchema) -> (r: PropertySchema)
    ensures
        r@ == p@,
    decreases *p,
{
    PropertySchema {
        schema_type: p.schema_type.clone(),
        description: p.description.clone(),
        default: match &p.default {
            Some(d) => Some(json_clone(d)),
            None => None,
        },
        items: match &p.items {
            Some(b) => Some(Box::new(clone_property(b))),
            None => None,
        },
        enum_values: match &p.enum_values {
            Some(vs) => {
                let mut out: Vec<String> = Vec::new();
                let mut i: usize = 0;
                while i < vs.len()
                    invariant
                        i <= vs@.len(),
                        out@.len() == i,
                        forall|k: int| 0 <= k < i ==> out@[k]@ == vs@[k]@,
                    decreases vs@.len() - i,
                {
                    out.push(vs[i].clone());
                    i = i + 1;
                }
                proof {
                    assert(Seq::new(out@.len(), |k: int| out@[k]@) =~= Seq::new(
                        vs@.len(),
                        |k: int| vs@[k]@,
                    ));
                }
                Some(out)
            },
            None => None,
        },
    }
}

/// Rebuild an identical tool definition.
pub fn clone_definition(d: &ToolDefinition) -> (r: ToolDefinition)
    ensures
        r@ == d@,
{
    let mut props: Vec<(String, PropertySchema)> = Vec::new();
    let mut i: usize = 0;
    while i < d.input_schema.properties.len()
        invariant
            i <= d.input_schema.properties@.len(),
            props@.len() == i,
            forall|k: int|
                0 <= k < i ==> props@[k].0@ == d.input_schema.properties@[k].0@ && props@[k].1@
                    == d.input_schema.properties@[k].1@,
        decreases d.input_schema.properties@.len() - i,
    {
        let name = d.input_schema.properties[i].0.clone();
        let p = clone_property(&d.input_schema.properties[i].1);
        props.push((name, p));
        i = i + 1;
    }
    let mut req: Vec<String> = Vec::new();
    let mut j: usize = 0;
    while j < d.input_schema.required.len()
        invariant
            j <= d.input_schema.required@.len(),
            req@.len() == j,
            forall|k: int| 0 <= k < j ==> req@[k]@ == d.input_schema.required@[k]@,
        decreases d.input_schema.required@.len() - j,
    {
        req.push(d.input_schema.required[j].clone());
        j = j + 1;
    }
    proof {
        assert(props_view(props@) =~= props_view(d.input_schema.properties@));
        assert(Seq::new(req@.len(), |k: int| req@[k]@) =~= Seq::new(
            d.input_schema.required@.len(),
            |k: int| d.input_schema.required@[k]@,
        ));
    }
    ToolDefinition {
        name: d.name.clone(),
        description: d.description.clone(),
        input_schema: ToolInputSchema {
            schema_type: d.input_schema.schema_type.clone(),
            properties: props,
            required: req,
        },
        group: d.group,
    }
}

} // verus!
