//! Metadata builders for native functions, the native-function trait, and the registry
//! of native functions known to the host.
use vstd::prelude::*;
use vstd::string::StringExecFns;

use crate::bindings::{
    CapabilitySchema, CapabilitySchemaView, PluginInfo, PluginInfoView, clone_pairs, opt_view,
    pairs_view, schemas_have, schemas_view,
};
use crate::json::JsonValue;
use crate::namemap::{NameMap, lemma_names_of_listing, lists_map, name_index, names_list};

verus! {

/// Schema of a native function's capability.
pub type NativeCapabilitySchema = CapabilitySchema;

/// Metadata of a native function.
pub type NativeFunctionInfo = PluginInfo;

/// What invoking a native capability yields.
pub type NativeInvokeResult = Result<JsonValue, String>;

/// Builds a [`NativeCapabilitySchema`] step by step.
pub struct NativeCapabilityBuilder {
    name: String,
    description: Option<String>,
    inputs: Vec<(String, String)>,
    output: Option<String>,
}

impl View for NativeCapabilityBuilder {
    type V = CapabilitySchemaView;

    /// The schema that `build` would return now.
    closed spec fn view(&self) -> CapabilitySchemaView {
        CapabilitySchemaView {
            name: self.name@,
            description: opt_view(self.description),
            inputs: pairs_view(self.inputs@),
            output: opt_view(self.output),
        }
    }
}

/// Starts a capability schema with the given name, no description, inputs or output.
pub fn native_capability(name: &str) -> (r: NativeCapabilityBuilder)
    ensures
        r@ == (CapabilitySchemaView {
            name: name@,
            description: None,
            inputs: Seq::empty(),
            output: None,
        }),
{
    let r = NativeCapabilityBuilder {
        name: String::from_str(name),
        description: None,
        inputs: Vec::new(),
        output: None,
    };
    assert(pairs_view(r.inputs@) =~= Seq::empty());
    r
}

impl NativeCapabilityBuilder {
    /// Sets the description.
    pub fn description(self, description: &str) -> (r: Self)
        ensures
            r@ == (CapabilitySchemaView { description: Some(description@), ..self@ }),
    {
        NativeCapabilityBuilder { description: Some(String::from_str(description)), ..self }
    }

    /// Adds a named input of the given type after the others.
    pub fn input(self, name: &str, ty: &str) -> (r: Self)
        ensures
            r@ == (CapabilitySchemaView {
                inputs: self@.inputs.push((name@, ty@)),
                ..self@
            }),
    {
        let mut inputs = self.inputs;
        let ghost before = inputs@;
        inputs.push((String::from_str(name), String::from_str(ty)));
        assert(pairs_view(inputs@) =~= pairs_view(before).push((name@, ty@)));
        NativeCapabilityBuilder { inputs, ..self }
    }

    /// Adds the named inputs, in order, after the others.
    pub fn inputs(self, inputs: &[(&str, &str)]) -> (r: Self)
        ensures
            r@ == (CapabilitySchemaView {
                inputs: self@.inputs + inputs@.map_values(|p: (&str, &str)| (p.0@, p.1@)),
                ..self@
            }),
    {
        let mut all = self.inputs;
        let ghost before = pairs_view(all@);
        let mut i: usize = 0;
        while i < inputs.len()
            invariant
                i <= inputs@.len(),
                pairs_view(all@) == before + inputs@.subrange(0, i as int).map_values(
                    |p: (&str, &str)| (p.0@, p.1@),
                ),
            decreases inputs@.len() - i,
        {
            let (n, t) = inputs[i];
            let ghost prev = all@;
            all.push((String::from_str(n), String::from_str(t)));
            assert(pairs_view(all@) =~= pairs_view(prev).push((n@, t@)));
            assert(inputs@.subrange(0, i + 1).map_values(|p: (&str, &str)| (p.0@, p.1@))
                =~= inputs@.subrange(0, i as int).map_values(|p: (&str, &str)| (p.0@, p.1@)).push(
                (n@, t@),
            ));
            i = i + 1;
        }
        assert(inputs@.subrange(0, inputs@.len() as int) =~= inputs@);
        NativeCapabilityBuilder { inputs: all, ..self }
    }

    /// Sets the output type.
    pub fn output(self, output: &str) -> (r: Self)
        ensures
            r@ == (CapabilitySchemaView { output: Some(output@), ..self@ }),
    {
        NativeCapabilityBuilder { output: Some(String::from_str(output)), ..self }
    }

    /// The schema built so far.
    pub fn build(self) -> (r: NativeCapabilitySchema)
        ensures
            r@ == self@,
    {
        CapabilitySchema {
            name: self.name,
            description: self.description,
            inputs: self.inputs,
            output: self.output,
        }
    }
}

impl From<NativeCapabilityBuilder> for NativeCapabilitySchema {
    fn from(value: NativeCapabilityBuilder) -> (r: Self)
        ensures
            r@ == value@,
    {
        value.build()
    }
}

impl vstd::std_specs::convert::FromSpecImpl<NativeCapabilityBuilder> for NativeCapabilitySchema {
    open spec fn obeys_from_spec() -> bool {
        false
    }

    open spec fn from_spec(v: NativeCapabilityBuilder) -> Self {
        arbitrary()
    }
}

/// Builds a [`NativeFunctionInfo`] step by step.
pub struct NativeFunctionInfoBuilder {
    name: String,
    version: String,
    description: Option<String>,
    author: Option<String>,
    capabilities: Vec<NativeCapabilitySchema>,
}

impl View for NativeFunctionInfoBuilder {
    type V = PluginInfoView;

    /// The metadata that `build` would return now.
    closed spec fn view(&self) -> PluginInfoView {
        PluginInfoView {
            name: self.name@,
            version: self.version@,
            description: opt_view(self.description),
            author: opt_view(self.author),
            capabilities: schemas_view(self.capabilities@),
        }
    }
}

/// Starts the metadata of a native function with a name and a version, no description,
/// author or capabilities.
pub fn native_function_info(name: &str, version: &str) -> (r: NativeFunctionInfoBuilder)
    ensures
        r@ == (PluginInfoView {
            name: name@,
            version: version@,
            description: None,
            author: None,
            capabilities: Seq::empty(),
        }),
{
    let r = NativeFunctionInfoBuilder {
        name: String::from_str(name),
        version: String::from_str(version),
        description: None,
        author: None,
        capabilities: Vec::new(),
    };
    assert(schemas_view(r.capabilities@) =~= Seq::empty());
    r
}

impl NativeFunctionInfoBuilder {
    /// Sets the description.
    pub fn description(self, description: &str) -> (r: Self)
        ensures
            r@ == (PluginInfoView { description: Some(description@), ..self@ }),
    {
        NativeFunctionInfoBuilder { description: Some(String::from_str(description)), ..self }
    }

    /// Sets the author.
    pub fn author(self, author: &str) -> (r: Self)
        ensures
            r@ == (PluginInfoView { author: Some(author@), ..self@ }),
    {
        NativeFunctionInfoBuilder { author: Some(String::from_str(author)), ..self }
    }

    /// Adds a capability after the others.
    pub fn capability(self, capability: NativeCapabilitySchema) -> (r: Self)
        ensures
            r@ == (PluginInfoView {
                capabilities: self@.capabilities.push(capability@),
                ..self@
            }),
    {
        let mut capabilities = self.capabilities;
        let ghost before = capabilities@;
        let ghost c = capability@;
        capabilities.push(capability);
        assert(schemas_view(capabilities@) =~= schemas_view(before).push(c));
        NativeFunctionInfoBuilder { capabilities, ..self }
    }

    /// Adds the capabilities, in order, after the others.
    pub fn capabilities(self, capabilities: Vec<NativeCapabilitySchema>) -> (r: Self)
        ensures
            r@ == (PluginInfoView {
                capabilities: self@.capabilities + schemas_view(capabilities@),
                ..self@
            }),
    {
        let mut all = self.capabilities;
        let mut more = capabilities;
        let ghost before = schemas_view(all@);
        let ghost added = schemas_view(more@);
        all.append(&mut more);
        assert(schemas_view(all@) =~= before + added);
        NativeFunctionInfoBuilder { capabilities: all, ..self }
    }

    /// The metadata built so far.
    pub fn build(self) -> (r: NativeFunctionInfo)
        ensures
            r@ == self@,
    {
        PluginInfo {
            name: self.name,
            version: self.version,
            description: self.description,
            author: self.author,
            capabilities: self.capabilities,
        }
    }
}

/// The route that a capability takes among a function's capabilities: the position of
/// the first schema of that name, or "Unknown capability" when none has it.
pub fn dispatch_native_capability(capabilities: &Vec<NativeCapabilitySchema>, capability: &str) -> (r: Result<usize, String>)
    ensures
        match r {
            Ok(i) => i < capabilities@.len() && capabilities@[i as int].name@ == capability@
                && forall|j: int| 0 <= j < i ==> capabilities@[j].name@ != capability@,
            Err(e) => !schemas_have(schemas_view(capabilities@), capability@) && e@
                == "Unknown capability: "@ + capability@,
        },
{
    let mut i: usize = 0;
    while i < capabilities.len()
        invariant
            i <= capabilities@.len(),
            forall|j: int| 0 <= j < i ==> capabilities@[j].name@ != capability@,
        decreases capabilities@.len() - i,
    {
        if crate::text::str_eq(capabilities[i].name.as_str(), capability) {
            return Ok(i);
        }
        i = i + 1;
    }
    assert forall|j: int| 0 <= j < capabilities@.len() implies schemas_view(capabilities@)[j].name
        != capability@ by {
        assert(schemas_view(capabilities@)[j] == capabilities@[j]@);
    }
    Err(crate::text::concat2("Unknown capability: ", capability))
}

/// A function compiled into the host that can be invoked like a WASM plugin: it reports
/// its metadata and answers capability invocations with JSON.
pub trait NativeFunction {
    /// The metadata that the function reports.
    spec fn metadata(&self) -> PluginInfoView;

    /// Metadata about this native function.
    fn info(&self) -> (r: NativeFunctionInfo)
        ensures
            r@ == self.metadata(),
    ;

    /// Invokes a capability with JSON arguments.
    fn invoke(&self, capability: &str, args: &JsonValue) -> NativeInvokeResult;

    /// The function's unique name: the name in its metadata.
    fn name(&self) -> (r: String)
        ensures
            r@ == self.metadata().name,
    {
        self.info().name
    }

    /// Whether the function's metadata lists a capability of that name.
    fn has_capability(&self, capability: &str) -> (r: bool)
        ensures
            r == schemas_have(self.metadata().capabilities, capability@),
    {
        crate::bindings::any_schema_named(&self.info().capabilities, capability)
    }
}

/// The metadata, in registry order, of the functions that have the capability.
pub open spec fn infos_having(s: Seq<(Seq<char>, NativeFunctionInfo)>, capability: Seq<char>) -> Seq<
    PluginInfoView,
>
    decreases s.len(),
{
    if s.len() == 0 {
        Seq::empty()
    } else {
        let rest = infos_having(s.drop_last(), capability);
        if schemas_have(s.last().1@.capabilities, capability) {
            rest.push(s.last().1@)
        } else {
            rest
        }
    }
}

/// The native functions known to the host, by name, with the metadata each reported
/// when it was registered.
pub struct NativeFunctionRegistry {
    functions: NameMap<NativeFunctionInfo>,
}

impl NativeFunctionRegistry {
    /// The metadata registered under each name.
    pub closed spec fn map(&self) -> Map<Seq<char>, NativeFunctionInfo> {
        self.functions.map()
    }

    /// The names in registration order.
    pub closed spec fn name_seq(&self) -> Seq<Seq<char>> {
        self.functions.name_seq()
    }

    /// The entries in registration order.
    pub closed spec fn entry_seq(&self) -> Seq<(Seq<char>, NativeFunctionInfo)> {
        self.functions.entry_seq()
    }

    /// An empty registry.
    pub fn new() -> (r: Self)
        ensures
            r.map() == Map::<Seq<char>, NativeFunctionInfo>::empty(),
            r.entry_seq() == Seq::<(Seq<char>, NativeFunctionInfo)>::empty(),
            r.name_seq() == Seq::<Seq<char>>::empty(),
    {
        let r = NativeFunctionRegistry { functions: NameMap::new() };
        assert(r.name_seq() =~= Seq::<Seq<char>>::empty());
        r
    }

    /// Registers the metadata under its name, replacing an earlier function of that name.
    pub fn register_info(&mut self, info: NativeFunctionInfo)
        ensures
            final(self).map() == old(self).map().insert(info@.name, info),
            old(self).map().contains_key(info@.name) ==> final(self).entry_seq() == old(
                self,
            ).entry_seq().update(name_index(old(self).entry_seq(), info@.name), (info@.name, info)),
            !old(self).map().contains_key(info@.name) ==> final(self).entry_seq() == old(
                self,
            ).entry_seq().push((info@.name, info)),
            old(self).map().contains_key(info@.name) ==> final(self).name_seq() == old(
                self,
            ).name_seq(),
            !old(self).map().contains_key(info@.name) ==> final(self).name_seq() == old(
                self,
            ).name_seq().push(info@.name),
    {
        let name = info.name.clone();
        let _ = self.functions.insert(name, info);
    }

    /// Registers a native function under the name that its metadata gives.
    pub fn register<F: NativeFunction>(&mut self, function: &F)
        ensures
            exists|info: NativeFunctionInfo|
                info@ == function.metadata() && final(self).map() == old(self).map().insert(
                    function.metadata().name,
                    info,
                ),
            old(self).map().contains_key(function.metadata().name) ==> final(self).name_seq()
                == old(self).name_seq(),
            !old(self).map().contains_key(function.metadata().name) ==> final(self).name_seq()
                == old(self).name_seq().push(function.metadata().name),
    {
        let info = function.info();
        self.register_info(info);
    }

    /// The metadata of the function registered under `name`.
    pub fn get(&self, name: &str) -> (r: Option<&NativeFunctionInfo>)
        ensures
            match r {
                Some(i) => self.map().contains_key(name@) && self.map()[name@] == *i,
                None => !self.map().contains_key(name@),
            },
    {
        self.functions.get(name)
    }

    /// Whether a function is registered under `name`.
    pub fn contains(&self, name: &str) -> (r: bool)
        ensures
            r == self.map().contains_key(name@),
    {
        self.functions.contains_key(name)
    }

    /// The names of all registered functions.
    pub fn names(&self) -> (r: Vec<String>)
        ensures
            r@.map_values(|s: String| s@) == self.name_seq(),
            r@.map_values(|s: String| s@).to_set() == self.map().dom(),
            self.name_seq().no_duplicates(),
            lists_map(self.entry_seq(), self.map()),
    {
        let n = self.functions.len();
        let mut out: Vec<String> = Vec::new();
        let mut i: usize = 0;
        while i < n
            invariant
                n == self.functions.entry_seq().len(),
                crate::namemap::names_unique(self.functions.entry_seq()),
                i <= n,
                out@.map_values(|s: String| s@) == self.functions.name_seq().subrange(0, i as int),
            decreases n - i,
        {
            let (k, _) = self.functions.entry_at(i);
            let ghost prev = out@;
            out.push(k.clone());
            assert(out@.map_values(|s: String| s@) =~= prev.map_values(|s: String| s@).push(k@));
            assert(self.functions.name_seq().subrange(0, i + 1) =~= self.functions.name_seq().subrange(
                0,
                i as int,
            ).push(k@));
            i = i + 1;
        }
        assert(self.functions.name_seq().subrange(0, n as int) =~= self.functions.name_seq());
        proof {
            self.functions.lemma_wf();
            let names = self.functions.name_seq();
            let s = self.functions.entry_seq();
            assert forall|k: Seq<char>| names.to_set().contains(k) == self.map().dom().contains(k) by {
                if names.to_set().contains(k) {
                    let i = choose|i: int| 0 <= i < names.len() && names[i] == k;
                    assert(s[i].0 == k);
                }
                if self.map().dom().contains(k) {
                    let i = choose|i: int| 0 <= i < s.len() && s[i].0 == k;
                    assert(names[i] == k);
                }
            }
            assert(names.to_set() =~= self.map().dom());
            self.functions.lemma_lists();
            assert forall|i: int, j: int| 0 <= i < names.len() && 0 <= j < names.len() && i != j implies names[i]
                != names[j] by {
                if i < j {
                    assert(s[i].0 != s[j].0);
                } else {
                    assert(s[j].0 != s[i].0);
                }
            }
        }
        out
    }

    /// The number of registered functions.
    pub fn len(&self) -> (r: usize)
        ensures
            r == self.map().len(),
            lists_map(self.entry_seq(), self.map()),
            names_list(self.name_seq(), self.map().dom()),
    {
        let n = self.functions.len();
        proof {
            self.functions.lemma_lists();
            lemma_names_of_listing(self.functions.entry_seq(), self.functions.map());
        }
        n
    }

    /// Whether no function is registered.
    pub fn is_empty(&self) -> (r: bool)
        ensures
            r == (self.map().len() == 0),
    {
        self.functions.len() == 0
    }

    /// The metadata of the registered functions that list the capability, in registry order.
    pub fn find_by_capability(&self, capability: &str) -> (r: Vec<&NativeFunctionInfo>)
        ensures
            r@.map_values(|i: &NativeFunctionInfo| i@) == infos_having(self.entry_seq(), capability@),
    {
        let n = self.functions.len();
        let mut out: Vec<&NativeFunctionInfo> = Vec::new();
        let mut i: usize = 0;
        while i < n
            invariant
                n == self.functions.entry_seq().len(),
                i <= n,
                out@.map_values(|i: &NativeFunctionInfo| i@) == infos_having(
                    self.functions.entry_seq().subrange(0, i as int),
                    capability@,
                ),
            decreases n - i,
        {
            let (_, info) = self.functions.entry_at(i);
            let ghost prev = out@;
            let ghost s = self.functions.entry_seq().subrange(0, i + 1);
            assert(s.drop_last() =~= self.functions.entry_seq().subrange(0, i as int));
            assert(s.last().1 == *info);
            if crate::bindings::any_schema_named(&info.capabilities, capability) {
                out.push(info);
                assert(out@.map_values(|i: &NativeFunctionInfo| i@) =~= prev.map_values(
                    |i: &NativeFunctionInfo| i@,
                ).push(info@));
            }
            i = i + 1;
        }
        assert(self.functions.entry_seq().subrange(0, n as int) =~= self.functions.entry_seq());
        out
    }
}

} // verus!
