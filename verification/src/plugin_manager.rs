//! Plugin manager: registration, enabling and loading of plugin metadata.
//!
//! Loading and executing WASM modules is an external collaborator; the
//! manager carries the registry state machine (registered, enabled, loaded)
//! that such a host consults.

use vstd::prelude::*;
use crate::Discipline;
use crate::strutil::{first_key_index, has_key, lemma_first_key_index, lemma_first_key_index_is, str_eq};

verus! {

/// Plugin metadata, with the disciplines and plugin kind it covers.
#[derive(Debug, Clone)]
pub struct PluginMetadata {
    pub name: String,
    pub version: String,
    pub description: String,
    pub author: String,
    pub license: String,
    pub supported_disciplines: Vec<Discipline>,
    pub plugin_type: PluginType,
    /// Path to WASM module
    pub wasm_module: Option<String>,
}

/// Types of plugins.
#[derive(Debug, Clone, Copy, PartialEq, Eq, Structural)]
pub enum PluginType {
    /// BOM calculation plugin
    BomCalculator,
    /// Import/Export plugin
    ImportExport,
    /// Analysis plugin
    Analysis,
    /// Rendering plugin
    Renderer,
    /// Custom tool plugin
    Tool,
}

/// Plugin registry entry.
#[derive(Debug, Clone)]
pub struct PluginRegistryEntry {
    pub metadata: PluginMetadata,
    pub is_enabled: bool,
    pub is_loaded: bool,
}

impl PluginRegistryEntry {
    pub fn new(metadata: PluginMetadata) -> (e: PluginRegistryEntry)
        ensures
            e.metadata == metadata,
            e.is_enabled,
            !e.is_loaded,
    {
        PluginRegistryEntry { metadata, is_enabled: true, is_loaded: false }
    }
}

/// Plugin errors.
#[derive(Debug, Clone)]
pub enum PluginError {
    PluginNotFound { name: String },
    LoadError { message: String },
    ExecutionError { message: String },
    WasmError(String),
    SerializationError(String),
    IoError(String),
}

/// Analysis parameter definition.
#[derive(Debug, Clone)]
pub struct AnalysisParameter {
    pub name: String,
    pub parameter_type: ParameterType,
    pub description: String,
    pub default_value: Option<String>,
    pub required: bool,
}

/// Parameter types for analysis.
#[derive(Debug, Clone)]
pub enum ParameterType {
    String,
    Number,
    Boolean,
    Choice(Vec<String>),
}

/// Rendering option definition.
#[derive(Debug, Clone)]
pub struct RenderOption {
    pub name: String,
    pub option_type: ParameterType,
    pub description: String,
    pub default_value: Option<String>,
}

/// Tool UI configuration.
#[derive(Debug, Clone)]
pub struct ToolUIConfig {
    pub icon: Option<String>,
    pub tooltip: String,
    pub menu_path: String,
    pub keyboard_shortcut: Option<String>,
    pub toolbar_position: Option<u32>,
}

pub open spec fn entry_name_fn() -> spec_fn(PluginRegistryEntry) -> Seq<char> {
    |e: PluginRegistryEntry| e.metadata.name@
}

/// The effect of registering metadata: a fresh enabled, unloaded entry
/// replaces the first entry with the same name, or is appended.
pub open spec fn spec_register_entry(
    s: Seq<PluginRegistryEntry>,
    e: PluginRegistryEntry,
) -> Seq<PluginRegistryEntry> {
    let i = first_key_index(s, entry_name_fn(), e.metadata.name@);
    if i == -1 {
        s.push(e)
    } else {
        s.update(i, e)
    }
}

/// Plugin manager for loading and managing plugins, keyed by plugin name.
pub struct PluginManager {
    plugins: Vec<PluginRegistryEntry>,
    plugin_directory: String,
}

impl PluginManager {
    /// The registry entries, in insertion order.
    pub closed spec fn spec_plugins(self) -> Seq<PluginRegistryEntry> {
        self.plugins@
    }

    /// The directory scanned for plugin metadata.
    pub closed spec fn spec_directory(self) -> Seq<char> {
        self.plugin_directory@
    }

    pub fn new(plugin_directory: String) -> (m: PluginManager)
        ensures
            m.spec_plugins() =~= Seq::<PluginRegistryEntry>::empty(),
            m.spec_directory() == plugin_directory@,
    {
        PluginManager { plugins: Vec::new(), plugin_directory }
    }

    /// Find the first entry with the given name.
    fn find(&self, plugin_name: &str) -> (r: Option<usize>)
        ensures
            r is Some <==> has_key(self.spec_plugins(), entry_name_fn(), plugin_name@),
            r matches Some(i) ==> i as int == first_key_index(
                self.spec_plugins(),
                entry_name_fn(),
                plugin_name@,
            ) && i < self.spec_plugins().len(),
    {
        proof {
            lemma_first_key_index(self.plugins@, entry_name_fn(), plugin_name@);
        }
        let mut i: usize = 0;
        while i < self.plugins.len()
            invariant
                i <= self.plugins@.len(),
                forall|j: int| 0 <= j < i ==> (
                #[trigger] self.plugins@[j]).metadata.name@ != plugin_name@,
            decreases self.plugins@.len() - i,
        {
            if str_eq(self.plugins[i].metadata.name.as_str(), plugin_name) {
                proof {
                    lemma_first_key_index_is(
                        self.plugins@,
                        entry_name_fn(),
                        plugin_name@,
                        i as int,
                    );
                }
                return Some(i);
            }
            i += 1;
        }
        proof {
            assert forall|j: int| 0 <= j < self.plugins@.len() implies entry_name_fn()(
                #[trigger] self.plugins@[j],
            ) != plugin_name@ by {}
        }
        None
    }

    /// Register a plugin: a fresh enabled, unloaded entry; a name already
    /// registered is replaced.
    pub fn register_plugin(&mut self, metadata: PluginMetadata) -> (r: Result<
        (),
        PluginError,
    >)
        ensures
            r is Ok,
            exists|e: PluginRegistryEntry| e.metadata == metadata && e.is_enabled
                && !e.is_loaded && final(self).spec_plugins()
                == #[trigger] spec_register_entry(old(self).spec_plugins(), e),
            final(self).spec_directory() == old(self).spec_directory(),
    {
        let entry = PluginRegistryEntry::new(metadata);
        let ghost e = entry;
        proof {
            lemma_first_key_index(self.plugins@, entry_name_fn(), e.metadata.name@);
        }
        let mut i: usize = 0;
        while i < self.plugins.len()
            invariant
                i <= self.plugins@.len(),
                self.plugins@ == old(self).plugins@,
                self.plugin_directory == old(self).plugin_directory,
                entry == e,
                e.metadata == metadata && e.is_enabled && !e.is_loaded,
                forall|j: int| 0 <= j < i ==> (
                #[trigger] self.plugins@[j]).metadata.name@ != e.metadata.name@,
            decreases self.plugins@.len() - i,
        {
            if str_eq(self.plugins[i].metadata.name.as_str(), entry.metadata.name.as_str()) {
                proof {
                    lemma_first_key_index_is(
                        self.plugins@,
                        entry_name_fn(),
                        e.metadata.name@,
                        i as int,
                    );
                }
                self.plugins[i] = entry;
                proof {
                    assert(self.plugins@ == spec_register_entry(
                        old(self).spec_plugins(),
                        e,
                    ));
                    assert(exists|x: PluginRegistryEntry| x.metadata == metadata
                        && x.is_enabled && !x.is_loaded && self.plugins@
                        == #[trigger] spec_register_entry(old(self).spec_plugins(), x))
                        by {
                        assert(e.metadata == metadata && e.is_enabled && !e.is_loaded
                            && self.plugins@ == spec_register_entry(
                            old(self).spec_plugins(),
                            e,
                        ));
                    }
                }
                return Ok(());
            }
            i += 1;
        }
        proof {
            assert forall|j: int| 0 <= j < self.plugins@.len() implies entry_name_fn()(
                #[trigger] self.plugins@[j],
            ) != e.metadata.name@ by {}
        }
        self.plugins.push(entry);
        proof {
            assert(self.plugins@ == spec_register_entry(old(self).spec_plugins(), e));
            assert(exists|x: PluginRegistryEntry| x.metadata == metadata
                && x.is_enabled && !x.is_loaded && self.plugins@
                == #[trigger] spec_register_entry(old(self).spec_plugins(), x));
        }
        Ok(())
    }

    /// Unregister a plugin; a missing name changes nothing, and either way
    /// the call succeeds.
    pub fn unregister_plugin(&mut self, plugin_name: &str) -> (r: Result<(), PluginError>)
        ensures
            r is Ok,
            has_key(old(self).spec_plugins(), entry_name_fn(), plugin_name@) ==> final(self).spec_plugins() == old(self).spec_plugins().remove(first_key_index(
                old(self).spec_plugins(),
                entry_name_fn(),
                plugin_name@,
            )),
            !has_key(old(self).spec_plugins(), entry_name_fn(), plugin_name@) ==> final(self).spec_plugins() == old(self).spec_plugins(),
            final(self).spec_directory() == old(self).spec_directory(),
    {
        match self.find(plugin_name) {
            Some(i) => {
                self.plugins.remove(i);
                Ok(())
            },
            None => Ok(()),
        }
    }

    /// Enable a plugin; an unknown name is an error.
    pub fn enable_plugin(&mut self, plugin_name: &str) -> (r: Result<(), PluginError>)
        ensures
            r is Ok <==> has_key(old(self).spec_plugins(), entry_name_fn(), plugin_name@),
            r is Ok ==> {
                let i = first_key_index(
                    old(self).spec_plugins(),
                    entry_name_fn(),
                    plugin_name@,
                );
                final(self).spec_plugins() == old(self).spec_plugins().update(
                    i,
                    PluginRegistryEntry {
                        is_enabled: true,
                        ..old(self).spec_plugins()[i]
                    },
                )
            },
            r matches Err(e) ==> (e matches PluginError::PluginNotFound { name }
                && name@ == plugin_name@ && final(self).spec_plugins() == old(
                self,
            ).spec_plugins()),
            final(self).spec_directory() == old(self).spec_directory(),
    {
        match self.find(plugin_name) {
            Some(i) => {
                let entry = &mut self.plugins[i];
                entry.is_enabled = true;
                Ok(())
            },
            None => Err(PluginError::PluginNotFound { name: plugin_name.to_owned() }),
        }
    }

    /// Disable a plugin, unloading it; an unknown name is an error.
    pub fn disable_plugin(&mut self, plugin_name: &str) -> (r: Result<(), PluginError>)
        ensures
            r is Ok <==> has_key(old(self).spec_plugins(), entry_name_fn(), plugin_name@),
            r is Ok ==> {
                let i = first_key_index(
                    old(self).spec_plugins(),
                    entry_name_fn(),
                    plugin_name@,
                );
                final(self).spec_plugins() == old(self).spec_plugins().update(
                    i,
                    PluginRegistryEntry {
                        is_enabled: false,
                        is_loaded: false,
                        ..old(self).spec_plugins()[i]
                    },
                )
            },
            r matches Err(e) ==> (e matches PluginError::PluginNotFound { name }
                && name@ == plugin_name@ && final(self).spec_plugins() == old(
                self,
            ).spec_plugins()),
            final(self).spec_directory() == old(self).spec_directory(),
    {
        match self.find(plugin_name) {
            Some(i) => {
                let entry = &mut self.plugins[i];
                entry.is_enabled = false;
                entry.is_loaded = false;
                Ok(())
            },
            None => Err(PluginError::PluginNotFound { name: plugin_name.to_owned() }),
        }
    }

    /// Load a plugin: a disabled plugin refuses, a loaded one is left as it
    /// is, and only an entry that names a WASM module becomes loaded; an
    /// unknown name is an error.
    pub fn load_plugin(&mut self, plugin_name: &str) -> (r: Result<(), PluginError>)
        ensures
            ({
                let plugins = old(self).spec_plugins();
                let i = first_key_index(plugins, entry_name_fn(), plugin_name@);
                if !has_key(plugins, entry_name_fn(), plugin_name@) {
                    r matches Err(e) && (e matches PluginError::PluginNotFound { name }
                        && name@ == plugin_name@) && final(self).spec_plugins()
                        == plugins
                } else if !plugins[i].is_enabled {
                    r matches Err(e) && (e matches PluginError::LoadError { message }
                        && message@ == "Plugin is disabled"@) && final(self).spec_plugins() == plugins
                } else if plugins[i].is_loaded {
                    r is Ok && final(self).spec_plugins() == plugins
                } else if plugins[i].metadata.wasm_module is Some {
                    r is Ok && final(self).spec_plugins() == plugins.update(
                        i,
                        PluginRegistryEntry { is_loaded: true, ..plugins[i] },
                    )
                } else {
                    r is Ok && final(self).spec_plugins() == plugins
                }
            }),
            final(self).spec_directory() == old(self).spec_directory(),
    {
        match self.find(plugin_name) {
            Some(i) => {
                if !self.plugins[i].is_enabled {
                    return Err(PluginError::LoadError {
                        message: "Plugin is disabled".to_owned(),
                    });
                }
                if self.plugins[i].is_loaded {
                    return Ok(());
                }
                if self.plugins[i].metadata.wasm_module.is_some() {
                    let entry = &mut self.plugins[i];
                    entry.is_loaded = true;
                    proof {
                        assert(self.plugins@ =~= old(self).plugins@.update(
                            i as int,
                            PluginRegistryEntry {
                                is_loaded: true,
                                ..old(self).plugins@[i as int]
                            },
                        ));
                    }
                }
                Ok(())
            },
            None => Err(PluginError::PluginNotFound { name: plugin_name.to_owned() }),
        }
    }

    /// List all registered plugins, in insertion order.
    pub fn list_plugins(&self) -> (r: Vec<&PluginRegistryEntry>)
        ensures
            r@.len() == self.spec_plugins().len(),
            forall|j: int| 0 <= j < r@.len() ==> *(#[trigger] r@[j])
                == self.spec_plugins()[j],
    {
        let mut r: Vec<&PluginRegistryEntry> = Vec::new();
        let mut i: usize = 0;
        while i < self.plugins.len()
            invariant
                i <= self.plugins@.len(),
                r@.len() == i,
                forall|j: int| 0 <= j < i ==> *(#[trigger] r@[j]) == self.plugins@[j],
            decreases self.plugins@.len() - i,
        {
            r.push(&self.plugins[i]);
            i += 1;
        }
        r
    }

    /// Get the first entry with the given name.
    pub fn get_plugin(&self, plugin_name: &str) -> (r: Option<&PluginRegistryEntry>)
        ensures
            r is Some <==> has_key(self.spec_plugins(), entry_name_fn(), plugin_name@),
            r matches Some(e) ==> *e == self.spec_plugins()[first_key_index(
                self.spec_plugins(),
                entry_name_fn(),
                plugin_name@,
            )],
    {
        match self.find(plugin_name) {
            Some(i) => Some(&self.plugins[i]),
            None => None,
        }
    }

    /// Create a sample plugin metadata for development.
    pub fn create_sample_plugin_metadata() -> (m: PluginMetadata)
        ensures
            m.name@ == "Sample BOM Calculator"@,
            m.version@ == "0.1.0"@,
            m.description@ == "A sample BOM calculation plugin"@,
            m.author@ == "Nova Design Team"@,
            m.license@ == "GPL-3.0-or-later"@,
            m.supported_disciplines@ == seq![Discipline::Drywall],
            m.plugin_type == PluginType::BomCalculator,
            m.wasm_module matches Some(w) && w@ == "sample_bom_calculator.wasm"@,
    {
        let mut supported_disciplines: Vec<Discipline> = Vec::new();
        supported_disciplines.push(Discipline::Drywall);
        proof {
            assert(supported_disciplines@ =~= seq![Discipline::Drywall]);
        }
        PluginMetadata {
            name: "Sample BOM Calculator".to_owned(),
            version: "0.1.0".to_owned(),
            description: "A sample BOM calculation plugin".to_owned(),
            author: "Nova Design Team".to_owned(),
            license: "GPL-3.0-or-later".to_owned(),
            supported_disciplines,
            plugin_type: PluginType::BomCalculator,
            wasm_module: Some("sample_bom_calculator.wasm".to_owned()),
        }
    }
}

impl Default for PluginManager {
    /// A manager over the conventional `plugins` directory.
    fn default() -> (m: PluginManager)
        ensures
            m.spec_plugins() =~= Seq::<PluginRegistryEntry>::empty(),
            m.spec_directory() == "plugins"@,
    {
        PluginManager::new("plugins".to_owned())
    }
}

} // verus!
