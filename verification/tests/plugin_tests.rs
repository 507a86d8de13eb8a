use nova_bom::plugin::{PluginInput, PluginMetadata, PluginRegistry, SamplePlugin};
use nova_bom::plugin_manager::{PluginManager, PluginType};

#[test]
fn test_plugin_registry() {
    let mut registry = PluginRegistry::new();

    let metadata = PluginMetadata {
        name: "TestPlugin".to_string(),
        version: "1.0.0".to_string(),
        description: "Test plugin".to_string(),
        author: "Test Author".to_string(),
        license: "GPL-3.0".to_string(),
        wasm_path: "/path/to/plugin.wasm".to_string(),
    };

    registry.register(metadata.clone());

    assert!(registry.get("TestPlugin").is_some());
    assert_eq!(registry.list().len(), 1);

    let removed = registry.unregister("TestPlugin");
    assert!(removed.is_some());
    assert_eq!(registry.list().len(), 0);
}

#[test]
fn test_sample_plugin() {
    let mut plugin = SamplePlugin::new();

    assert_eq!(plugin.name(), "SamplePlugin");
    assert_eq!(plugin.version(), "0.1.0");

    // Test initialization
    assert!(plugin.initialize().is_ok());

    // Test hello command
    let input = PluginInput {
        command: "hello".to_string(),
        parameters: Vec::new(),
    };

    let result = plugin.execute(&input);
    assert!(result.is_ok());

    let output = result.unwrap();
    assert!(output.success);

    // Test echo command
    let mut params: Vec<(String, String)> = Vec::new();
    params.push(("message".to_string(), "test message".to_string()));

    let input = PluginInput {
        command: "echo".to_string(),
        parameters: params,
    };

    let result = plugin.execute(&input);
    assert!(result.is_ok());

    let output = result.unwrap();
    assert!(output.success);
    assert_eq!(output.data[0].0, "echo");
    assert_eq!(output.data[0].1, "test message");

    // Test cleanup
    assert!(plugin.cleanup().is_ok());
}

#[test]
fn test_invalid_command() {
    let mut plugin = SamplePlugin::new();
    plugin.initialize().unwrap();

    let input = PluginInput {
        command: "invalid".to_string(),
        parameters: Vec::new(),
    };

    let result = plugin.execute(&input);
    assert!(result.is_err());
}

#[test]
fn test_echo_without_message_parameter() {
    let mut plugin = SamplePlugin::new();
    plugin.initialize().unwrap();

    let input = PluginInput {
        command: "echo".to_string(),
        parameters: Vec::new(),
    };

    let output = plugin.execute(&input).unwrap();
    assert!(output.success);
    assert_eq!(output.data[0].1, "No message provided");
}

#[test]
fn test_execute_before_initialize_fails() {
    let plugin = SamplePlugin::new();
    let input = PluginInput {
        command: "hello".to_string(),
        parameters: Vec::new(),
    };
    assert!(plugin.execute(&input).is_err());
}

#[test]
fn test_plugin_manager_lifecycle() {
    let mut manager = PluginManager::new("plugins".to_string());
    let metadata = PluginManager::create_sample_plugin_metadata();
    assert_eq!(metadata.name, "Sample BOM Calculator");
    assert_eq!(metadata.plugin_type, PluginType::BomCalculator);
    assert_eq!(metadata.wasm_module.as_deref(), Some("sample_bom_calculator.wasm"));

    manager.register_plugin(metadata).unwrap();
    assert_eq!(manager.list_plugins().len(), 1);

    let entry = manager.get_plugin("Sample BOM Calculator").unwrap();
    assert!(entry.is_enabled);
    assert!(!entry.is_loaded);

    // loading an enabled plugin with a wasm module marks it loaded
    manager.load_plugin("Sample BOM Calculator").unwrap();
    let entry = manager.get_plugin("Sample BOM Calculator").unwrap();
    assert!(entry.is_loaded);

    // disabling unloads, and a disabled plugin refuses to load
    manager.disable_plugin("Sample BOM Calculator").unwrap();
    let entry = manager.get_plugin("Sample BOM Calculator").unwrap();
    assert!(!entry.is_enabled);
    assert!(!entry.is_loaded);
    assert!(manager.load_plugin("Sample BOM Calculator").is_err());

    manager.enable_plugin("Sample BOM Calculator").unwrap();
    assert!(manager.get_plugin("Sample BOM Calculator").unwrap().is_enabled);

    // unknown names are errors for enable/disable/load
    assert!(manager.enable_plugin("NoSuchPlugin").is_err());
    assert!(manager.disable_plugin("NoSuchPlugin").is_err());
    assert!(manager.load_plugin("NoSuchPlugin").is_err());

    manager.unregister_plugin("Sample BOM Calculator").unwrap();
    assert_eq!(manager.list_plugins().len(), 0);
}

#[test]
fn test_plugin_registry_replaces_same_name() {
    let mut registry = PluginRegistry::new();
    let mut metadata = PluginMetadata {
        name: "TestPlugin".to_string(),
        version: "1.0.0".to_string(),
        description: "Test plugin".to_string(),
        author: "Test Author".to_string(),
        license: "GPL-3.0".to_string(),
        wasm_path: "/path/to/plugin.wasm".to_string(),
    };
    registry.register(metadata.clone());
    metadata.version = "2.0.0".to_string();
    registry.register(metadata);
    assert_eq!(registry.list().len(), 1);
    assert_eq!(registry.get("TestPlugin").unwrap().version, "2.0.0");
}
