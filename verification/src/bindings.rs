//! What the host knows of a loaded plugin: the metadata its `init` export reports.
use vstd::prelude::*;

verus! {

/// The model of an optional string.
pub open spec fn opt_view(s: Option<String>) -> Option<Seq<char>> {
    match s {
        Some(s) => Some(s@),
        None => None,
    }
}

/// A copy of an optional string.
pub fn clone_opt_string(s: &Option<String>) -> (r: Option<String>)
    ensures
        opt_view(r) == opt_view(*s),
{
    match s {
        Some(s) => Some(s.clone()),
        None => None,
    }
}

/// The model of a list of string pairs.
pub open spec fn pairs_view(v: Seq<(String, String)>) -> Seq<(Seq<char>, Seq<char>)> {
    v.map_values(|p: (String, String)| (p.0@, p.1@))
}

/// A copy of a list of string pairs.
pub fn clone_pairs(v: &Vec<(String, String)>) -> (r: Vec<(String, String)>)
    ensures
        pairs_view(r@) == pairs_view(v@),
{
    let mut out: Vec<(String, String)> = Vec::new();
    let mut i: usize = 0;
    while i < v.len()
        invariant
            i <= v@.len(),
            out@.len() == i,
            forall|j: int| 0 <= j < i ==> out@[j].0@ == v@[j].0@ && out@[j].1@ == v@[j].1@,
        decreases v@.len() - i,
    {
        out.push((v[i].0.clone(), v[i].1.clone()));
        i = i + 1;
    }
    assert(pairs_view(out@) =~= pairs_view(v@));
    out
}

/// Schema of one capability: its name, description, named inputs with their types, and
/// output type.
pub struct CapabilitySchema {
    pub name: String,
    pub description: Option<String>,
    pub inputs: Vec<(String, String)>,
    pub output: Option<String>,
}

/// The model of a [`CapabilitySchema`].
pub struct CapabilitySchemaView {
    pub name: Seq<char>,
    pub description: Option<Seq<char>>,
    pub inputs: Seq<(Seq<char>, Seq<char>)>,
    pub output: Option<Seq<char>>,
}

impl View for CapabilitySchema {
    type V = CapabilitySchemaView;

    open spec fn view(&self) -> CapabilitySchemaView {
        CapabilitySchemaView {
            name: self.name@,
            description: opt_view(self.description),
            inputs: pairs_view(self.inputs@),
            output: opt_view(self.output),
        }
    }
}

impl Clone for CapabilitySchema {
    fn clone(&self) -> (r: Self)
        ensures
            r@ == self@,
    {
        CapabilitySchema {
            name: self.name.clone(),
            description: clone_opt_string(&self.description),
            inputs: clone_pairs(&self.inputs),
            output: clone_opt_string(&self.output),
        }
    }
}

/// The models of a list of schemas.
pub open spec fn schemas_view(v: Seq<CapabilitySchema>) -> Seq<CapabilitySchemaView> {
    v.map_values(|c: CapabilitySchema| c@)
}

/// A copy of a list of schemas.
pub fn clone_schemas(v: &Vec<CapabilitySchema>) -> (r: Vec<CapabilitySchema>)
    ensures
        schemas_view(r@) == schemas_view(v@),
{
    let mut out: Vec<CapabilitySchema> = Vec::new();
    let mut i: usize = 0;
    while i < v.len()
        invariant
            i <= v@.len(),
            out@.len() == i,
            forall|j: int| 0 <= j < i ==> out@[j]@ == v@[j]@,
        decreases v@.len() - i,
    {
        out.push(v[i].clone());
        i = i + 1;
    }
    assert(schemas_view(out@) =~= schemas_view(v@));
    out
}

/// Whether one of the schemas is named `capability`.
pub open spec fn schemas_have(caps: Seq<CapabilitySchemaView>, capability: Seq<char>) -> bool {
    exists|i: int| 0 <= i < caps.len() && caps[i].name == capability
}

/// Whether one of the schemas is named `capability`.
pub fn any_schema_named(caps: &Vec<CapabilitySchema>, capability: &str) -> (r: bool)
    ensures
        r == schemas_have(schemas_view(caps@), capability@),
{
    let mut i: usize = 0;
    while i < caps.len()
        invariant
            i <= caps@.len(),
            forall|j: int| 0 <= j < i ==> caps@[j].name@ != capability@,
        decreases caps@.len() - i,
    {
        if crate::text::str_eq(caps[i].name.as_str(), capability) {
            assert(schemas_view(caps@)[i as int].name == capability@);
            return true;
        }
        i = i + 1;
    }
    assert forall|j: int| 0 <= j < caps@.len() implies schemas_view(caps@)[j].name != capability@ by {
        assert(schemas_view(caps@)[j] == caps@[j]@);
    }
    false
}

/// The names of the schemas, in order.
pub open spec fn schema_names(caps: Seq<CapabilitySchemaView>) -> Seq<Seq<char>> {
    caps.map_values(|c: CapabilitySchemaView| c.name)
}

/// The names of the schemas, in order.
pub fn names_of_schemas(caps: &Vec<CapabilitySchema>) -> (r: Vec<String>)
    ensures
        r@.map_values(|s: String| s@) == schema_names(schemas_view(caps@)),
{
    let mut out: Vec<String> = Vec::new();
    let mut i: usize = 0;
    while i < caps.len()
        invariant
            i <= caps@.len(),
            out@.len() == i,
            forall|j: int| 0 <= j < i ==> out@[j]@ == caps@[j].name@,
        decreases caps@.len() - i,
    {
        out.push(caps[i].name.clone());
        i = i + 1;
    }
    assert(out@.map_values(|s: String| s@) =~= schema_names(schemas_view(caps@)));
    out
}

/// Metadata that a plugin (or a native function) reports about itself.
pub struct PluginInfo {
    pub name: String,
    pub version: String,
    pub description: Option<String>,
    pub author: Option<String>,
    pub capabilities: Vec<CapabilitySchema>,
}

/// The model of a [`PluginInfo`].
pub struct PluginInfoView {
    pub name: Seq<char>,
    pub version: Seq<char>,
    pub description: Option<Seq<char>>,
    pub author: Option<Seq<char>>,
    pub capabilities: Seq<CapabilitySchemaView>,
}

impl View for PluginInfo {
    type V = PluginInfoView;

    open spec fn view(&self) -> PluginInfoView {
        PluginInfoView {
            name: self.name@,
            version: self.version@,
            description: opt_view(self.description),
            author: opt_view(self.author),
            capabilities: schemas_view(self.capabilities@),
        }
    }
}

impl Clone for PluginInfo {
    fn clone(&self) -> (r: Self)
        ensures
            r@ == self@,
    {
        PluginInfo {
            name: self.name.clone(),
            version: self.version.clone(),
            description: clone_opt_string(&self.description),
            author: clone_opt_string(&self.author),
            capabilities: clone_schemas(&self.capabilities),
        }
    }
}

/// A loaded plugin as the host sees it: its name, version and capabilities. Plugins
/// declare their capabilities through metadata, and the host invokes them by name.
pub struct Plugin {
    name: String,
    version: String,
    capabilities: Vec<CapabilitySchema>,
}

/// The model of a [`Plugin`].
pub struct PluginView {
    pub name: Seq<char>,
    pub version: Seq<char>,
    pub capabilities: Seq<CapabilitySchemaView>,
}

impl View for Plugin {
    type V = PluginView;

    closed spec fn view(&self) -> PluginView {
        PluginView {
            name: self.name@,
            version: self.version@,
            capabilities: schemas_view(self.capabilities@),
        }
    }
}

impl Clone for Plugin {
    fn clone(&self) -> (r: Self)
        ensures
            r@ == self@,
    {
        Plugin {
            name: self.name.clone(),
            version: self.version.clone(),
            capabilities: clone_schemas(&self.capabilities),
        }
    }
}

impl Plugin {
    /// The plugin described by the metadata that its `init` export returned.
    pub fn from_info(info: PluginInfo) -> (r: Plugin)
        ensures
            r@.name == info@.name,
            r@.version == info@.version,
            r@.capabilities == info@.capabilities,
    {
        Plugin { name: info.name, version: info.version, capabilities: info.capabilities }
    }

    /// The plugin's unique name.
    pub fn name(&self) -> (r: &str)
        ensures
            r@ == self@.name,
    {
        self.name.as_str()
    }

    /// The plugin's version string.
    pub fn version(&self) -> (r: &str)
        ensures
            r@ == self@.version,
    {
        self.version.as_str()
    }

    /// The capabilities that the plugin provides.
    pub fn capabilities(&self) -> (r: &[CapabilitySchema])
        ensures
            schemas_view(r@) == self@.capabilities,
    {
        self.capabilities.as_slice()
    }

    /// Whether the plugin provides a capability of that name.
    pub fn has_capability(&self, capability: &str) -> (r: bool)
        ensures
            r == schemas_have(self@.capabilities, capability@),
    {
        any_schema_named(&self.capabilities, capability)
    }
}

} // verus!
