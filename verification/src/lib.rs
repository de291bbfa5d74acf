//! A host for capability plugins and native functions, and the instruction pipeline that
//! chains their invocations.
use vstd::prelude::*;

pub mod args;
pub mod bindings;
pub mod builtin;
pub mod instruction;
pub mod json;
pub mod namemap;
pub mod text;

use crate::bindings::{
    CapabilitySchemaView, Plugin, PluginInfoView, PluginView, schema_names, schemas_have,
};
use crate::builtin::registry::{NativeFunction, NativeFunctionInfo, NativeFunctionRegistry};
use crate::instruction::model::interpolation::{bytes_to_json, json_from_bytes};
use crate::instruction::model::invocation::outcome_view;
use crate::json::{
    Json, JsonValue, serde_from_slice, serde_json_from_slice, serde_json_to_vec, serde_to_vec,
};
use crate::namemap::{NameMap, lemma_names_of_listing, lists_map, name_index, names_list};
use crate::text::concat2;

verus! {

/// The plugins, in loading order, that list the capability.
pub open spec fn plugins_having(s: Seq<(Seq<char>, Plugin)>, capability: Seq<char>) -> Seq<
    PluginView,
>
    decreases s.len(),
{
    if s.len() == 0 {
        Seq::empty()
    } else {
        let rest = plugins_having(s.drop_last(), capability);
        if schemas_have(s.last().1@.capabilities, capability) {
            rest.push(s.last().1@)
        } else {
            rest
        }
    }
}

/// The bytes stored under each name.
pub open spec fn bytes_map(m: Map<Seq<char>, Vec<u8>>) -> Map<Seq<char>, Seq<u8>> {
    m.map_values(|v: Vec<u8>| v@)
}

/// The host state: the loaded plugins, the registered native functions, and the data
/// store that steps and plugins share.
pub struct PluginHost {
    pub(crate) plugins: NameMap<Plugin>,
    pub(crate) native_functions: NativeFunctionRegistry,
    pub(crate) data_store: NameMap<Vec<u8>>,
}

impl PluginHost {
    /// Each loaded plugin under its name.
    pub closed spec fn plugin_map(&self) -> Map<Seq<char>, Plugin> {
        self.plugins.map()
    }

    /// The loaded plugins with their names, in loading order.
    pub closed spec fn plugin_seq(&self) -> Seq<(Seq<char>, Plugin)> {
        self.plugins.entry_seq()
    }

    /// Each registered native function's metadata under its name.
    pub closed spec fn native_map(&self) -> Map<Seq<char>, NativeFunctionInfo> {
        self.native_functions.map()
    }

    /// The bytes in the data store under each name.
    pub closed spec fn store(&self) -> Map<Seq<char>, Seq<u8>> {
        bytes_map(self.data_store.map())
    }

    /// The names in the data store, in the order they were first stored.
    pub closed spec fn store_names(&self) -> Seq<Seq<char>> {
        self.data_store.name_seq()
    }

    /// The names of the loaded plugins, in loading order.
    pub closed spec fn plugin_name_seq(&self) -> Seq<Seq<char>> {
        self.plugins.name_seq()
    }

    /// The names of the registered native functions, in registration order.
    pub closed spec fn native_name_seq(&self) -> Seq<Seq<char>> {
        self.native_functions.name_seq()
    }

    /// What `name` refers to: a loaded plugin first, else a native function.
    pub closed spec fn resolve_spec(&self, name: Seq<char>) -> Option<CallableTargetView> {
        if self.plugin_map().contains_key(name) {
            Some(CallableTargetView::Plugin(self.plugin_map()[name]@))
        } else if self.native_map().contains_key(name) {
            Some(CallableTargetView::Native(self.native_map()[name]@))
        } else {
            None
        }
    }

    /// Each listing holds what its map holds, each name once: the plugins with their
    /// names, the plugin names, the native-function names and the names in the store.
    pub open spec fn listed(&self) -> bool {
        &&& lists_map(self.plugin_seq(), self.plugin_map())
        &&& names_list(self.plugin_name_seq(), self.plugin_map().dom())
        &&& names_list(self.native_name_seq(), self.native_map().dom())
        &&& names_list(self.store_names(), self.store().dom())
    }

    /// The listings of a host hold what its maps hold.
    fn check_listed(&self)
        ensures
            self.listed(),
    {
        let _ = self.plugins.len();
        let _ = self.data_store.len();
        let _ = self.native_functions.len();
        proof {
            self.plugins.lemma_lists();
            lemma_names_of_listing(self.plugins.entry_seq(), self.plugins.map());
            self.data_store.lemma_lists();
            lemma_names_of_listing(self.data_store.entry_seq(), self.data_store.map());
            assert(self.store().dom() =~= self.data_store.map().dom());
        }
    }

    /// Whether `name` is a loaded plugin or a registered native function.
    pub open spec fn resolvable(&self, name: Seq<char>) -> bool {
        self.resolve_spec(name) is Some
    }

    /// A host with no plugins, no native functions and an empty data store.
    pub fn new() -> (r: Self)
        ensures
            r.plugin_map() == Map::<Seq<char>, Plugin>::empty(),
            r.native_map() == Map::<Seq<char>, NativeFunctionInfo>::empty(),
            r.store() == Map::<Seq<char>, Seq<u8>>::empty(),
            r.plugin_seq() == Seq::<(Seq<char>, Plugin)>::empty(),
            r.plugin_name_seq() == Seq::<Seq<char>>::empty(),
            r.native_name_seq() == Seq::<Seq<char>>::empty(),
            r.store_names() == Seq::<Seq<char>>::empty(),
            r.listed(),
    {
        let r = PluginHost {
            plugins: NameMap::new(),
            native_functions: NativeFunctionRegistry::new(),
            data_store: NameMap::new(),
        };
        assert(r.store() =~= Map::<Seq<char>, Seq<u8>>::empty());
        assert(r.plugin_name_seq() =~= Seq::<Seq<char>>::empty());
        assert(r.store_names() =~= Seq::<Seq<char>>::empty());
        r.check_listed();
        r
    }

    /// Adds a plugin under its name, replacing a plugin of the same name.
    pub fn push(&mut self, plugin: Plugin)
        ensures
            final(self).plugin_map() == old(self).plugin_map().insert(plugin@.name, plugin),
            final(self).native_map() == old(self).native_map(),
            final(self).store() == old(self).store(),
            old(self).plugin_map().contains_key(plugin@.name) ==> final(self).plugin_seq() == old(self).plugin_seq().update(
                name_index(old(self).plugin_seq(), plugin@.name),
                (plugin@.name, plugin),
            ),
            !old(self).plugin_map().contains_key(plugin@.name) ==> final(self).plugin_seq() == old(self).plugin_seq().push((plugin@.name, plugin)),
            final(self).native_name_seq() == old(self).native_name_seq(),
            final(self).store_names() == old(self).store_names(),
            old(self).listed(),
            final(self).listed(),
    {
        self.check_listed();
        let name = String::from_str(plugin.name());
        let _ = self.plugins.insert(name, plugin);
        self.check_listed();
    }

    /// The plugin loaded under `name`.
    pub fn get(&self, name: &str) -> (r: Option<&Plugin>)
        ensures
            match r {
                Some(p) => self.plugin_map().contains_key(name@) && self.plugin_map()[name@] == *p,
                None => !self.plugin_map().contains_key(name@),
            },
    {
        self.plugins.get(name)
    }

    /// All loaded plugins with their names, in loading order.
    pub fn iter(&self) -> (r: Vec<(&String, &Plugin)>)
        ensures
            r@.map_values(|e: (&String, &Plugin)| (e.0@, *e.1)) == self.plugin_seq(),
            self.listed(),
    {
        self.check_listed();
        let n = self.plugins.len();
        let mut out: Vec<(&String, &Plugin)> = Vec::new();
        let mut i: usize = 0;
        while i < n
            invariant
                n == self.plugins.entry_seq().len(),
                i <= n,
                out@.map_values(|e: (&String, &Plugin)| (e.0@, *e.1)) == self.plugins.entry_seq().subrange(0, i as int),
            decreases n - i,
        {
            let (k, p) = self.plugins.entry_at(i);
            let ghost prev = out@;
            out.push((k, p));
            assert(out@.map_values(|e: (&String, &Plugin)| (e.0@, *e.1)) =~= prev.map_values(
                |e: (&String, &Plugin)| (e.0@, *e.1),
            ).push((k@, *p)));
            assert(self.plugins.entry_seq().subrange(0, i + 1) =~= self.plugins.entry_seq().subrange(
                0,
                i as int,
            ).push(self.plugins.entry_seq()[i as int]));
            i = i + 1;
        }
        assert(self.plugins.entry_seq().subrange(0, n as int) =~= self.plugins.entry_seq());
        out
    }

    /// The number of loaded plugins.
    pub fn len(&self) -> (r: usize)
        ensures
            r == self.plugin_map().len(),
    {
        self.plugins.len()
    }

    /// The number of registered native functions.
    pub fn len_native(&self) -> (r: usize)
        ensures
            r == self.native_map().len(),
    {
        self.native_functions.len()
    }

    /// Whether no plugin is loaded.
    pub fn is_empty(&self) -> (r: bool)
        ensures
            r == (self.plugin_map().len() == 0),
    {
        self.plugins.len() == 0
    }

    /// The loaded plugins that list the capability, in loading order.
    pub fn find_by_capability(&self, capability: &str) -> (r: Vec<&Plugin>)
        ensures
            r@.map_values(|p: &Plugin| p@) == plugins_having(self.plugin_seq(), capability@),
            self.listed(),
    {
        self.check_listed();
        let n = self.plugins.len();
        let mut out: Vec<&Plugin> = Vec::new();
        let mut i: usize = 0;
        while i < n
            invariant
                n == self.plugins.entry_seq().len(),
                i <= n,
                out@.map_values(|p: &Plugin| p@) == plugins_having(
                    self.plugins.entry_seq().subrange(0, i as int),
                    capability@,
                ),
            decreases n - i,
        {
            let (_, p) = self.plugins.entry_at(i);
            let ghost prev = out@;
            let ghost s = self.plugins.entry_seq().subrange(0, i + 1);
            assert(s.drop_last() =~= self.plugins.entry_seq().subrange(0, i as int));
            if p.has_capability(capability) {
                out.push(p);
                assert(out@.map_values(|p: &Plugin| p@) =~= prev.map_values(|p: &Plugin| p@).push(
                    p@,
                ));
            }
            i = i + 1;
        }
        assert(self.plugins.entry_seq().subrange(0, n as int) =~= self.plugins.entry_seq());
        out
    }

    /// The plugin loaded under `name`, provided it lists the capability.
    pub fn find_plugin_with_capability(&self, name: &str, capability: &str) -> (r: Option<&Plugin>)
        ensures
            match r {
                Some(p) => self.plugin_map().contains_key(name@) && self.plugin_map()[name@] == *p
                    && schemas_have(p@.capabilities, capability@),
                None => !self.plugin_map().contains_key(name@) || !schemas_have(
                    self.plugin_map()[name@]@.capabilities,
                    capability@,
                ),
            },
    {
        match self.plugins.get(name) {
            Some(p) => {
                if p.has_capability(capability) {
                    Some(p)
                } else {
                    None
                }
            },
            None => None,
        }
    }

    /// Unloads every plugin and hands them back in loading order, so that each can be
    /// shut down.
    pub fn shutdown_all(&mut self) -> (r: Vec<Plugin>)
        ensures
            final(self).plugin_map() == Map::<Seq<char>, Plugin>::empty(),
            r@ == old(self).plugin_seq().map_values(|e: (Seq<char>, Plugin)| e.1),
            final(self).native_map() == old(self).native_map(),
            final(self).store() == old(self).store(),
            final(self).plugin_seq() == Seq::<(Seq<char>, Plugin)>::empty(),
            final(self).native_name_seq() == old(self).native_name_seq(),
            final(self).store_names() == old(self).store_names(),
            old(self).listed(),
            final(self).listed(),
    {
        self.check_listed();
        let mut rest = self.plugins.drain();
        let mut out: Vec<Plugin> = Vec::new();
        let ghost all = rest@.map_values(|e: (String, Plugin)| e.1);
        assert(all == old(self).plugin_seq().map_values(|e: (Seq<char>, Plugin)| e.1));
        while rest.len() > 0
            invariant
                out@ + rest@.map_values(|e: (String, Plugin)| e.1) == all,
            decreases rest@.len(),
        {
            let ghost before = rest@;
            let (_, p) = rest.remove(0);
            assert(before.map_values(|e: (String, Plugin)| e.1) =~= seq![p] + rest@.map_values(
                |e: (String, Plugin)| e.1,
            ));
            out.push(p);
        }
        assert(out@ =~= all);
        self.check_listed();
        out
    }

    /// Registers a native function's metadata under the name it gives.
    pub fn register_native<F: NativeFunction>(&mut self, function: &F)
        ensures
            exists|info: NativeFunctionInfo|
                info@ == function.metadata() && final(self).native_map() == old(self).native_map().insert(function.metadata().name, info),
            final(self).plugin_map() == old(self).plugin_map(),
            final(self).store() == old(self).store(),
            old(self).native_map().contains_key(function.metadata().name) ==> final(self).native_name_seq() == old(self).native_name_seq(),
            !old(self).native_map().contains_key(function.metadata().name) ==> final(self).native_name_seq() == old(self).native_name_seq().push(function.metadata().name),
            final(self).plugin_seq() == old(self).plugin_seq(),
            final(self).store_names() == old(self).store_names(),
            old(self).listed(),
            final(self).listed(),
    {
        self.check_listed();
        self.native_functions.register(function);
        self.check_listed();
    }

    /// Registers native-function metadata under its name.
    pub fn register_native_info(&mut self, info: NativeFunctionInfo)
        ensures
            final(self).native_map() == old(self).native_map().insert(info@.name, info),
            final(self).plugin_map() == old(self).plugin_map(),
            final(self).store() == old(self).store(),
            old(self).native_map().contains_key(info@.name) ==> final(self).native_name_seq()
                == old(self).native_name_seq(),
            !old(self).native_map().contains_key(info@.name) ==> final(self).native_name_seq()
                == old(self).native_name_seq().push(info@.name),
            final(self).plugin_seq() == old(self).plugin_seq(),
            final(self).store_names() == old(self).store_names(),
            old(self).listed(),
            final(self).listed(),
    {
        self.check_listed();
        self.native_functions.register_info(info);
        self.check_listed();
    }

    /// The metadata of the native function registered under `name`.
    pub fn get_native(&self, name: &str) -> (r: Option<&NativeFunctionInfo>)
        ensures
            match r {
                Some(i) => self.native_map().contains_key(name@) && self.native_map()[name@] == *i,
                None => !self.native_map().contains_key(name@),
            },
    {
        self.native_functions.get(name)
    }

    /// What `name` refers to: a loaded plugin first, else a native function.
    pub fn resolve_callable(&self, name: &str) -> (r: Option<CallableTarget>)
        ensures
            match r {
                Some(t) => self.resolve_spec(name@) == Some(t@),
                None => self.resolve_spec(name@) is None,
            },
    {
        if let Some(plugin) = self.plugins.get(name) {
            Some(CallableTarget::Plugin(plugin.clone()))
        } else if let Some(func) = self.native_functions.get(name) {
            Some(CallableTarget::Native(func.clone()))
        } else {
            None
        }
    }

    /// The names of the loaded plugins, in loading order.
    pub fn plugin_names(&self) -> (r: Vec<String>)
        ensures
            r@.map_values(|s: String| s@) == self.plugin_name_seq(),
            self.listed(),
    {
        self.check_listed();
        let n = self.plugins.len();
        let mut out: Vec<String> = Vec::new();
        let mut i: usize = 0;
        while i < n
            invariant
                n == self.plugins.entry_seq().len(),
                i <= n,
                out@.map_values(|s: String| s@) == self.plugins.name_seq().subrange(0, i as int),
            decreases n - i,
        {
            let (k, _) = self.plugins.entry_at(i);
            let ghost prev = out@;
            out.push(k.clone());
            assert(out@.map_values(|s: String| s@) =~= prev.map_values(|s: String| s@).push(k@));
            assert(self.plugins.name_seq().subrange(0, i + 1) =~= self.plugins.name_seq().subrange(
                0,
                i as int,
            ).push(k@));
            i = i + 1;
        }
        assert(self.plugins.name_seq().subrange(0, n as int) =~= self.plugins.name_seq());
        out
    }

    /// The names of the registered native functions, in registration order.
    pub fn native_function_names(&self) -> (r: Vec<String>)
        ensures
            r@.map_values(|s: String| s@) == self.native_name_seq(),
            self.listed(),
    {
        self.check_listed();
        self.native_functions.names()
    }

    /// The plugin names followed by the native-function names.
    pub fn all_names(&self) -> (r: Vec<String>)
        ensures
            r@.map_values(|s: String| s@) == self.plugin_name_seq() + self.native_name_seq(),
            self.listed(),
    {
        let mut a = self.plugin_names();
        let mut b = self.native_function_names();
        let ghost va = a@;
        let ghost vb = b@;
        a.append(&mut b);
        assert(a@.map_values(|s: String| s@) =~= va.map_values(|s: String| s@) + vb.map_values(
            |s: String| s@,
        ));
        a
    }

    /// The names in the data store, each once.
    pub fn store_keys(&self) -> (r: Vec<String>)
        ensures
            crate::text::strings_view(r@) == self.store_names(),
            crate::text::strings_view(r@).no_duplicates(),
            crate::text::strings_view(r@).to_set() == self.store().dom(),
            self.listed(),
    {
        self.check_listed();
        let r = self.data_store.names();
        assert(self.store().dom() =~= self.data_store.map().dom());
        r
    }

    /// The bytes stored under `name` (the controller interface's `get`).
    pub fn store_get(&self, name: &str) -> (r: Option<Vec<u8>>)
        ensures
            match r {
                Some(b) => self.store().contains_key(name@) && self.store()[name@] == b@,
                None => !self.store().contains_key(name@),
            },
    {
        match self.data_store.get(name) {
            Some(b) => {
                let c = b.clone();
                assert(c@ =~= b@);
                Some(c)
            },
            None => None,
        }
    }

    /// Stores bytes under `name` and returns what was stored there before (the controller
    /// interface's `put`).
    pub fn store_put(&mut self, name: String, data: Vec<u8>) -> (r: Option<Vec<u8>>)
        ensures
            final(self).store() == old(self).store().insert(name@, data@),
            match r {
                Some(b) => old(self).store().contains_key(name@) && old(self).store()[name@] == b@,
                None => !old(self).store().contains_key(name@),
            },
            final(self).plugin_map() == old(self).plugin_map(),
            final(self).native_map() == old(self).native_map(),
            old(self).store().contains_key(name@) ==> final(self).store_names() == old(self).store_names(),
            !old(self).store().contains_key(name@) ==> final(self).store_names() == old(self).store_names().push(name@),
            final(self).plugin_seq() == old(self).plugin_seq(),
            final(self).native_name_seq() == old(self).native_name_seq(),
            old(self).listed(),
            final(self).listed(),
    {
        self.check_listed();
        let ghost k = name@;
        let ghost d = data@;
        let r = self.data_store.insert(name, data);
        assert(self.store() =~= old(self).store().insert(k, d));
        self.check_listed();
        r
    }

    /// Removes what is stored under `name` and returns it (the controller interface's
    /// `remove`).
    pub fn store_remove(&mut self, name: &str) -> (r: Option<Vec<u8>>)
        ensures
            final(self).store() == old(self).store().remove(name@),
            match r {
                Some(b) => old(self).store().contains_key(name@) && old(self).store()[name@] == b@,
                None => !old(self).store().contains_key(name@),
            },
            final(self).plugin_map() == old(self).plugin_map(),
            final(self).native_map() == old(self).native_map(),
            old(self).store().contains_key(name@) ==> exists|i: int|
                0 <= i < old(self).store_names().len() && old(self).store_names()[i] == name@
                    && final(self).store_names() == old(self).store_names().remove(i),
            !old(self).store().contains_key(name@) ==> final(self).store_names() == old(self).store_names(),
            final(self).plugin_seq() == old(self).plugin_seq(),
            final(self).native_name_seq() == old(self).native_name_seq(),
            old(self).listed(),
            final(self).listed(),
    {
        self.check_listed();
        let ghost before = self.data_store.entry_seq();
        let r = self.data_store.remove(name);
        assert(self.store() =~= old(self).store().remove(name@));
        proof {
            if old(self).store().contains_key(name@) {
                let i = name_index(before, name@);
                assert(old(self).store().dom().contains(name@));
                assert(old(self).data_store.map().contains_key(name@));
                assert(0 <= i < before.len() && before[i].0 == name@);
                assert(self.store_names() =~= old(self).store_names().remove(i));
            }
        }
        self.check_listed();
        r
    }
}

/// Two hosts with the same plugins and native functions resolve every name alike.
pub proof fn lemma_same_targets(a: &PluginHost, b: &PluginHost)
    requires
        a.plugin_map() == b.plugin_map(),
        a.native_map() == b.native_map(),
    ensures
        forall|n: Seq<char>| #[trigger] a.resolve_spec(n) == b.resolve_spec(n),
{
}

/// A name resolves to the plugin loaded under it, even where a native function has the
/// same name; otherwise to the native function registered under it; otherwise to nothing.
pub proof fn law_plugins_shadow_native_functions(host: &PluginHost, name: Seq<char>)
    ensures
        host.plugin_map().contains_key(name) ==> host.resolve_spec(name) == Some(
            CallableTargetView::Plugin(host.plugin_map()[name]@),
        ),
        !host.plugin_map().contains_key(name) && host.native_map().contains_key(name)
            ==> host.resolve_spec(name) == Some(
            CallableTargetView::Native(host.native_map()[name]@),
        ),
        !host.plugin_map().contains_key(name) && !host.native_map().contains_key(name)
            ==> host.resolve_spec(name) is None,
{
}

/// A native function registered under a name that no plugin holds is what that name
/// resolves to.
pub proof fn law_registered_native_function_resolves(
    before: &PluginHost,
    after: &PluginHost,
    info: NativeFunctionInfo,
)
    requires
        after.native_map() == before.native_map().insert(info@.name, info),
        after.plugin_map() == before.plugin_map(),
        !before.plugin_map().contains_key(info@.name),
    ensures
        after.resolve_spec(info@.name) == Some(CallableTargetView::Native(info@)),
{
}

/// What is put in the store under a name is what is read back under it, and every
/// other name reads as before; after a removal the name reads as absent.
pub proof fn law_store_reads_back_writes(
    before: &PluginHost,
    after_put: &PluginHost,
    after_remove: &PluginHost,
    name: Seq<char>,
    data: Seq<u8>,
)
    requires
        after_put.store() == before.store().insert(name, data),
        after_remove.store() == before.store().remove(name),
    ensures
        after_put.store().contains_key(name) && after_put.store()[name] == data,
        !after_remove.store().contains_key(name),
        forall|k: Seq<char>|
            k != name ==> (#[trigger] after_put.store().contains_key(k) == before.store().contains_key(
                k,
            ) && after_put.store()[k] == before.store()[k] && after_remove.store().contains_key(k)
                == before.store().contains_key(k) && after_remove.store()[k] == before.store()[k]),
{
}

/// A target lists a capability exactly when the capability is among its capability
/// names.
pub proof fn law_has_capability_agrees_with_names(target: CallableTarget, capability: Seq<char>)
    ensures
        schemas_have(target.capabilities_view(), capability) <==> schema_names(
            target.capabilities_view(),
        ).contains(capability),
{
    let caps = target.capabilities_view();
    let names = schema_names(caps);
    if schemas_have(caps, capability) {
        let i = choose|i: int| 0 <= i < caps.len() && caps[i].name == capability;
        assert(names[i] == capability);
    }
    if names.contains(capability) {
        let i = choose|i: int| 0 <= i < names.len() && names[i] == capability;
        assert(caps[i].name == capability);
    }
}

/// Shutting down hands back each loaded plugin exactly once: as many plugins as were
/// loaded, each loaded name's plugin at the one position that name has in the listing.
pub proof fn law_shutdown_hands_back_each_plugin_once(host: &PluginHost, handed_back: Seq<Plugin>)
    requires
        host.listed(),
        handed_back == host.plugin_seq().map_values(|e: (Seq<char>, Plugin)| e.1),
    ensures
        handed_back.len() == host.plugin_map().len(),
        forall|k: Seq<char>|
            #[trigger] host.plugin_map().contains_key(k) ==> {
                let i = name_index(host.plugin_seq(), k);
                &&& 0 <= i < handed_back.len()
                &&& handed_back[i] == host.plugin_map()[k]
                &&& forall|j: int|
                    0 <= j < host.plugin_seq().len() && host.plugin_seq()[j].0 == k ==> j == i
            },
{
    crate::namemap::law_listing_holds_each_name_once(host.plugin_seq(), host.plugin_map());
    assert forall|k: Seq<char>| #[trigger] host.plugin_map().contains_key(k) implies {
        let i = name_index(host.plugin_seq(), k);
        &&& 0 <= i < handed_back.len()
        &&& handed_back[i] == host.plugin_map()[k]
        &&& forall|j: int|
            0 <= j < host.plugin_seq().len() && host.plugin_seq()[j].0 == k ==> j == i
    } by {
        let i = name_index(host.plugin_seq(), k);
        assert(host.plugin_seq()[i] == (k, host.plugin_map()[k]));
    }
}

/// What a callable name resolves to.
pub enum CallableTarget {
    Plugin(Plugin),
    Native(NativeFunctionInfo),
}

/// The model of a [`CallableTarget`].
pub enum CallableTargetView {
    Plugin(PluginView),
    Native(PluginInfoView),
}

impl View for CallableTarget {
    type V = CallableTargetView;

    open spec fn view(&self) -> CallableTargetView {
        match self {
            CallableTarget::Plugin(p) => CallableTargetView::Plugin(p@),
            CallableTarget::Native(i) => CallableTargetView::Native(i@),
        }
    }
}

impl CallableTarget {
    /// The capabilities that the target lists.
    pub open spec fn capabilities_view(&self) -> Seq<CapabilitySchemaView> {
        match self {
            CallableTarget::Plugin(p) => p@.capabilities,
            CallableTarget::Native(i) => i@.capabilities,
        }
    }

    /// Whether the target lists a capability of that name.
    pub fn has_capability(&self, capability: &str) -> (r: bool)
        ensures
            r == schemas_have(self.capabilities_view(), capability@),
    {
        match self {
            CallableTarget::Plugin(plugin) => plugin.has_capability(capability),
            CallableTarget::Native(info) => crate::bindings::any_schema_named(
                &info.capabilities,
                capability,
            ),
        }
    }

    /// The names of the target's capabilities, in order.
    pub fn capability_names(&self) -> (r: Vec<String>)
        ensures
            r@.map_values(|s: String| s@) == schema_names(self.capabilities_view()),
    {
        match self {
            CallableTarget::Plugin(plugin) => {
                let caps = plugin.capabilities();
                let mut out: Vec<String> = Vec::new();
                let mut i: usize = 0;
                while i < caps.len()
                    invariant
                        i <= caps@.len(),
                        out@.len() == i,
                        forall|j: int| 0 <= j < i ==> out@[j]@ == caps@[j].name@,
                    decreases caps@.len() - i,
                {
                    out.push(caps[i].name.clone());
                    i = i + 1;
                }
                assert(out@.map_values(|s: String| s@) =~= schema_names(crate::bindings::schemas_view(caps@)));
                out
            },
            CallableTarget::Native(info) => crate::bindings::names_of_schemas(&info.capabilities),
        }
    }
}

// ---------------------------------------------------------------------------
// Calls into plugins, and calls that plugins make back into the host
// ---------------------------------------------------------------------------

/// What a plugin's reply reads as: no reply, or no bytes, is null; other bytes are
/// parsed as JSON.
pub open spec fn plugin_reply_json(reply: Option<Seq<u8>>) -> Result<Json, Seq<char>> {
    match reply {
        None => Ok(Json::Null),
        Some(bytes) => bytes_to_json(bytes),
    }
}

/// Reads a plugin's reply as JSON (see [`plugin_reply_json`]).
pub fn decode_plugin_reply(reply: Option<Vec<u8>>) -> (r: Result<JsonValue, String>)
    ensures
        outcome_view(r) == plugin_reply_json(
            match reply {
                Some(b) => Some(b@),
                None => None,
            },
        ),
{
    match reply {
        None => Ok(JsonValue::Null),
        Some(bytes) => json_from_bytes(bytes.as_slice()),
    }
}

/// What the payload of a call that a plugin makes back into the host reads as: no bytes
/// are null, other bytes are parsed as JSON.
pub open spec fn controller_payload(data: Seq<u8>) -> Result<Json, Seq<char>> {
    if data.len() == 0 {
        Ok(Json::Null)
    } else {
        match serde_json_from_slice(data) {
            Ok(v) => Ok(v),
            Err(e) => Err("Failed to parse controller.execute JSON payload: "@ + e),
        }
    }
}

/// What a plugin's call back into the host resolves to: the payload is read first, then
/// the name is resolved.
pub open spec fn controller_call(
    target: Option<CallableTargetView>,
    name: Seq<char>,
    data: Seq<u8>,
) -> Result<(CallableTargetView, Json), Seq<char>> {
    match controller_payload(data) {
        Err(e) => Err(e),
        Ok(args) => match target {
            None => Err("No plugin or native function found for action: "@ + name),
            Some(t) => Ok((t, args)),
        },
    }
}

/// What the host answers a plugin's call with: nothing for a null result, else the
/// result's JSON bytes.
pub open spec fn controller_reply_spec(result: Json) -> Result<Option<Seq<u8>>, Seq<char>> {
    if result is Null {
        Ok(None)
    } else {
        match serde_json_to_vec(result) {
            Ok(b) => Ok(Some(b)),
            Err(e) => Err("Failed to serialize native function result: "@ + e),
        }
    }
}

/// A plugin's call gets no reply exactly when its result is null; any other result,
/// `false`, `0` and the empty string included, is answered with its JSON bytes (or the
/// serialization error).
pub proof fn law_reply_is_empty_only_for_null(result: Json)
    ensures
        controller_reply_spec(result) == Ok::<Option<Seq<u8>>, Seq<char>>(None) <==> result is Null,
        !(result is Null) ==> match serde_json_to_vec(result) {
            Ok(b) => controller_reply_spec(result) == Ok::<Option<Seq<u8>>, Seq<char>>(Some(b)),
            Err(e) => controller_reply_spec(result) matches Err(m) && m.len() > e.len(),
        },
{
    if !(result is Null) {
        if let Err(e) = serde_json_to_vec(result) {
            reveal_strlit("Failed to serialize native function result: ");
        }
    }
}

/// The answer to a plugin's call back into the host (see [`controller_reply_spec`]).
pub fn controller_reply(result: &JsonValue) -> (r: Result<Option<Vec<u8>>, String>)
    ensures
        controller_reply_spec(result@) == match r {
            Ok(Some(b)) => Ok::<Option<Seq<u8>>, Seq<char>>(Some(b@)),
            Ok(None) => Ok::<Option<Seq<u8>>, Seq<char>>(None),
            Err(e) => Err::<Option<Seq<u8>>, Seq<char>>(e@),
        },
{
    if result.is_null() {
        return Ok(None);
    }
    match serde_to_vec(result) {
        Ok(b) => Ok(Some(b)),
        Err(e) => Err(concat2("Failed to serialize native function result: ", e.as_str())),
    }
}

impl PluginHost {
    /// Reads the payload of a plugin's call back into the host and resolves the name it
    /// calls (see [`controller_call`]).
    pub fn prepare_controller_call(&self, name: &str, data: &[u8]) -> (r: Result<
        (CallableTarget, JsonValue),
        String,
    >)
        ensures
            controller_call(self.resolve_spec(name@), name@, data@) == match r {
                Ok((t, args)) => Ok::<(CallableTargetView, Json), Seq<char>>((t@, args@)),
                Err(e) => Err::<(CallableTargetView, Json), Seq<char>>(e@),
            },
    {
        let target = self.resolve_callable(name);
        let args = if data.len() == 0 {
            JsonValue::Null
        } else {
            match serde_from_slice(data) {
                Ok(v) => v,
                Err(e) => {
                    return Err(concat2("Failed to parse controller.execute JSON payload: ", e.as_str()));
                },
            }
        };
        match target {
            Some(t) => Ok((t, args)),
            None => Err(concat2("No plugin or native function found for action: ", name)),
        }
    }
}

} // verus!
