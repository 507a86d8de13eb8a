//! Plugin registry and a sample plugin.
//!
//! The sandboxed execution of third-party plugins is an external
//! collaborator; the library carries the metadata bookkeeping and a small
//! native sample plugin working on plain key/value data.

use vstd::prelude::*;
use crate::strutil::{first_key_index, has_key, lemma_first_key_index, lemma_first_key_index_is, str_eq};

verus! {

/// Plugin metadata.
#[derive(Debug, Clone)]
pub struct PluginMetadata {
    pub name: String,
    pub version: String,
    pub description: String,
    pub author: String,
    pub license: String,
    pub wasm_path: String,
}

/// Plugin input data: a command and plain key/value parameters.
#[derive(Debug, Clone)]
pub struct PluginInput {
    pub command: String,
    pub parameters: Vec<(String, String)>,
}

/// Plugin output data: plain key/value data and an optional message.
#[derive(Debug, Clone)]
pub struct PluginOutput {
    pub success: bool,
    pub data: Vec<(String, String)>,
    pub message: Option<String>,
}

/// Plugin error types.
#[derive(Debug, Clone)]
pub enum PluginError {
    InitializationFailed(String),
    ExecutionFailed(String),
    SerializationError(String),
    InvalidInput(String),
}

pub open spec fn meta_name_fn() -> spec_fn(PluginMetadata) -> Seq<char> {
    |m: PluginMetadata| m.name@
}

pub open spec fn pair_key_fn() -> spec_fn((String, String)) -> Seq<char> {
    |p: (String, String)| p.0@
}

/// The effect of registering metadata: replace the first entry with the
/// same name, or append.
pub open spec fn spec_register(s: Seq<PluginMetadata>, m: PluginMetadata) -> Seq<
    PluginMetadata,
> {
    let i = first_key_index(s, meta_name_fn(), m.name@);
    if i == -1 {
        s.push(m)
    } else {
        s.update(i, m)
    }
}

/// Plugin registry for managing plugin metadata, keyed by plugin name.
pub struct PluginRegistry {
    plugins: Vec<PluginMetadata>,
}

impl PluginRegistry {
    /// The registered metadata, in insertion order.
    pub closed spec fn spec_plugins(self) -> Seq<PluginMetadata> {
        self.plugins@
    }

    pub fn new() -> (r: PluginRegistry)
        ensures
            r.spec_plugins() =~= Seq::<PluginMetadata>::empty(),
    {
        PluginRegistry { plugins: Vec::new() }
    }

    /// Register a new plugin: a name already registered is replaced.
    pub fn register(&mut self, metadata: PluginMetadata)
        ensures
            final(self).spec_plugins() == spec_register(
                old(self).spec_plugins(),
                metadata,
            ),
    {
        proof {
            lemma_first_key_index(self.plugins@, meta_name_fn(), metadata.name@);
        }
        let mut i: usize = 0;
        while i < self.plugins.len()
            invariant
                i <= self.plugins@.len(),
                self.plugins@ == old(self).plugins@,
                forall|j: int| 0 <= j < i ==> (#[trigger] self.plugins@[j]).name@
                    != metadata.name@,
            decreases self.plugins@.len() - i,
        {
            if str_eq(self.plugins[i].name.as_str(), metadata.name.as_str()) {
                proof {
                    assert(meta_name_fn()(self.plugins@[i as int])
                        == self.plugins@[i as int].name@);
                    assert forall|j: int| 0 <= j < i implies meta_name_fn()(
                        #[trigger] self.plugins@[j],
                    ) != metadata.name@ by {}
                    lemma_first_key_index_is(
                        self.plugins@,
                        meta_name_fn(),
                        metadata.name@,
                        i as int,
                    );
                }
                self.plugins[i] = metadata;
                return;
            }
            i += 1;
        }
        proof {
            assert forall|j: int| 0 <= j < self.plugins@.len() implies meta_name_fn()(
                #[trigger] self.plugins@[j],
            ) != metadata.name@ by {}
        }
        self.plugins.push(metadata);
    }

    /// Get plugin metadata by name.
    pub fn get(&self, name: &str) -> (r: Option<&PluginMetadata>)
        ensures
            r is Some <==> has_key(self.spec_plugins(), meta_name_fn(), name@),
            r matches Some(m) ==> *m == self.spec_plugins()[first_key_index(
                self.spec_plugins(),
                meta_name_fn(),
                name@,
            )],
    {
        proof {
            lemma_first_key_index(self.plugins@, meta_name_fn(), name@);
        }
        let mut i: usize = 0;
        while i < self.plugins.len()
            invariant
                i <= self.plugins@.len(),
                forall|j: int| 0 <= j < i ==> (#[trigger] self.plugins@[j]).name@
                    != name@,
            decreases self.plugins@.len() - i,
        {
            if str_eq(self.plugins[i].name.as_str(), name) {
                proof {
                    lemma_first_key_index_is(
                        self.plugins@,
                        meta_name_fn(),
                        name@,
                        i as int,
                    );
                }
                return Some(&self.plugins[i]);
            }
            i += 1;
        }
        proof {
            assert forall|j: int| 0 <= j < self.plugins@.len() implies meta_name_fn()(
                #[trigger] self.plugins@[j],
            ) != name@ by {}
        }
        None
    }

    /// List all registered plugins, in insertion order.
    pub fn list(&self) -> (r: Vec<&PluginMetadata>)
        ensures
            r@.len() == self.spec_plugins().len(),
            forall|j: int| 0 <= j < r@.len() ==> *(#[trigger] r@[j])
                == self.spec_plugins()[j],
    {
        let mut r: Vec<&PluginMetadata> = Vec::new();
        let mut i: usize = 0;
        while i < self.plugins.len()
            invariant
                i <= self.plugins@.len(),
                r@.len() == i,
                forall|j: int| 0 <= j < i ==> *(#[trigger] r@[j]) == self.plugins@[j],
            decreases self.plugins@.len() - i,
        {
            r.push(&self.plugins[i]);
            i += 1;
        }
        r
    }

    /// Remove a plugin, returning its metadata; a missing name removes
    /// nothing.
    pub fn unregister(&mut self, name: &str) -> (r: Option<PluginMetadata>)
        ensures
            r is Some <==> has_key(old(self).spec_plugins(), meta_name_fn(), name@),
            r matches Some(m) ==> {
                let i = first_key_index(old(self).spec_plugins(), meta_name_fn(), name@);
                &&& m == old(self).spec_plugins()[i]
                &&& final(self).spec_plugins() == old(self).spec_plugins().remove(i)
            },
            r is None ==> final(self).spec_plugins() == old(self).spec_plugins(),
    {
        proof {
            lemma_first_key_index(self.plugins@, meta_name_fn(), name@);
        }
        let mut i: usize = 0;
        while i < self.plugins.len()
            invariant
                i <= self.plugins@.len(),
                self.plugins@ == old(self).plugins@,
                forall|j: int| 0 <= j < i ==> (#[trigger] self.plugins@[j]).name@
                    != name@,
            decreases self.plugins@.len() - i,
        {
            if str_eq(self.plugins[i].name.as_str(), name) {
                proof {
                    lemma_first_key_index_is(
                        self.plugins@,
                        meta_name_fn(),
                        name@,
                        i as int,
                    );
                }
                let m = self.plugins.remove(i);
                return Some(m);
            }
            i += 1;
        }
        proof {
            assert forall|j: int| 0 <= j < self.plugins@.len() implies meta_name_fn()(
                #[trigger] self.plugins@[j],
            ) != name@ by {}
        }
        None
    }
}

impl Default for PluginRegistry {
    fn default() -> (r: PluginRegistry)
        ensures
            r.spec_plugins() =~= Seq::<PluginMetadata>::empty(),
    {
        PluginRegistry::new()
    }
}

/// The value of the first parameter with the given key, if any.
pub open spec fn spec_param(params: Seq<(String, String)>, key: Seq<char>) -> Option<
    Seq<char>,
> {
    let i = first_key_index(params, pair_key_fn(), key);
    if i == -1 {
        None
    } else {
        Some(params[i].1@)
    }
}

/// Sample plugin implementation for demonstration.
pub struct SamplePlugin {
    name: String,
    version: String,
    description: String,
    initialized: bool,
}

impl SamplePlugin {
    /// Whether `initialize` has run (and `cleanup` has not).
    pub closed spec fn spec_initialized(self) -> bool {
        self.initialized
    }

    /// The fixed identity of the sample plugin.
    pub open spec fn spec_identity(self) -> bool {
        &&& self.spec_name() == "SamplePlugin"@
        &&& self.spec_version() == "0.1.0"@
        &&& self.spec_description() == "A sample plugin for demonstration"@
    }

    pub closed spec fn spec_name(self) -> Seq<char> {
        self.name@
    }

    pub closed spec fn spec_version(self) -> Seq<char> {
        self.version@
    }

    pub closed spec fn spec_description(self) -> Seq<char> {
        self.description@
    }

    pub fn new() -> (p: SamplePlugin)
        ensures
            p.spec_identity(),
            !p.spec_initialized(),
    {
        SamplePlugin {
            name: "SamplePlugin".to_owned(),
            version: "0.1.0".to_owned(),
            description: "A sample plugin for demonstration".to_owned(),
            initialized: false,
        }
    }

    /// Plugin name.
    pub fn name(&self) -> (r: &str)
        ensures
            r@ == self.spec_name(),
    {
        self.name.as_str()
    }

    /// Plugin version.
    pub fn version(&self) -> (r: &str)
        ensures
            r@ == self.spec_version(),
    {
        self.version.as_str()
    }

    /// Plugin description.
    pub fn description(&self) -> (r: &str)
        ensures
            r@ == self.spec_description(),
    {
        self.description.as_str()
    }

    /// Initialize the plugin.
    pub fn initialize(&mut self) -> (r: Result<(), PluginError>)
        ensures
            r is Ok,
            final(self).spec_initialized(),
            final(self).spec_name() == old(self).spec_name(),
            final(self).spec_version() == old(self).spec_version(),
            final(self).spec_description() == old(self).spec_description(),
    {
        self.initialized = true;
        Ok(())
    }

    /// Release the plugin: it must be initialized again before use.
    pub fn cleanup(&mut self) -> (r: Result<(), PluginError>)
        ensures
            r is Ok,
            !final(self).spec_initialized(),
            final(self).spec_name() == old(self).spec_name(),
            final(self).spec_version() == old(self).spec_version(),
            final(self).spec_description() == old(self).spec_description(),
    {
        self.initialized = false;
        Ok(())
    }

    /// Execute plugin functionality: `hello` greets, `echo` returns the
    /// `message` parameter (or a placeholder), anything else is invalid, and
    /// an uninitialized plugin always fails.
    pub fn execute(&self, input: &PluginInput) -> (r: Result<PluginOutput, PluginError>)
        ensures
            !self.spec_initialized() ==> (r matches Err(
                PluginError::ExecutionFailed(m),
            ) && m@ == "Plugin not initialized"@),
            self.spec_initialized() && input.command@ == "hello"@ ==> (r matches Ok(out)
                && out.success && out.data@.len() == 1 && out.data@[0].0@ == "message"@
                && out.data@[0].1@ == "Hello from SamplePlugin!"@ && (
            out.message matches Some(msg) && msg@ == "Command executed successfully"@)),
            self.spec_initialized() && input.command@ == "echo"@ ==> (r matches Ok(out)
                && out.success && out.data@.len() == 1 && out.data@[0].0@ == "echo"@
                && out.data@[0].1@ == (match spec_param(input.parameters@, "message"@) {
                Some(v) => v,
                None => "No message provided"@,
            }) && (out.message matches Some(msg) && msg@ == "Echo command executed"@)),
            self.spec_initialized() && input.command@ != "hello"@ && input.command@
                != "echo"@ ==> (r matches Err(PluginError::InvalidInput(m)) && m@
                == "Unknown command: "@ + input.command@),
    {
        if !self.initialized {
            return Err(PluginError::ExecutionFailed(
                "Plugin not initialized".to_owned(),
            ));
        }
        proof {
            reveal_strlit("hello");
            reveal_strlit("echo");
            assert("hello"@.len() == 5 && "echo"@.len() == 4);
        }
        if str_eq(input.command.as_str(), "hello") {
            let mut data: Vec<(String, String)> = Vec::new();
            data.push(("message".to_owned(), "Hello from SamplePlugin!".to_owned()));
            Ok(PluginOutput {
                success: true,
                data,
                message: Some("Command executed successfully".to_owned()),
            })
        } else if str_eq(input.command.as_str(), "echo") {
            proof {
                lemma_first_key_index(input.parameters@, pair_key_fn(), "message"@);
            }
            let mut value: Option<String> = None;
            let mut i: usize = 0;
            while i < input.parameters.len()
                invariant
                    i <= input.parameters@.len(),
                    match value {
                        Some(v) => {
                            let fi = first_key_index(
                                input.parameters@,
                                pair_key_fn(),
                                "message"@,
                            );
                            &&& 0 <= fi < input.parameters@.len()
                            &&& v@ == input.parameters@[fi].1@
                        },
                        None => forall|j: int| 0 <= j < i ==> (
                        #[trigger] input.parameters@[j]).0@ != "message"@,
                    },
                decreases input.parameters@.len() - i,
            {
                if value.is_none() {
                    if str_eq(input.parameters[i].0.as_str(), "message") {
                        proof {
                            lemma_first_key_index_is(
                                input.parameters@,
                                pair_key_fn(),
                                "message"@,
                                i as int,
                            );
                        }
                        value = Some(input.parameters[i].1.clone());
                    }
                }
                i += 1;
            }
            let message = match value {
                Some(v) => v,
                None => "No message provided".to_owned(),
            };
            let mut data: Vec<(String, String)> = Vec::new();
            data.push(("echo".to_owned(), message));
            Ok(PluginOutput {
                success: true,
                data,
                message: Some("Echo command executed".to_owned()),
            })
        } else {
            let mut m = "Unknown command: ".to_owned();
            m.append(input.command.as_str());
            Err(PluginError::InvalidInput(m))
        }
    }
}

impl Default for SamplePlugin {
    fn default() -> (p: SamplePlugin)
        ensures
            p.spec_identity(),
            !p.spec_initialized(),
    {
        SamplePlugin::new()
    }
}

} // verus!
