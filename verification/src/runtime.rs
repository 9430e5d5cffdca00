//! Runtime support: values, scopes, call stacks, registries of native functions, decorators
//! and modules.
pub mod values;
pub mod environment;
pub mod call_stack;
pub mod control_flow;
pub mod fn_table;
pub mod plugin_system;
pub mod builtin_plugins;
pub mod native_bridge_v2;
pub mod native;
pub mod builtins_builders;
pub mod decorator_registry;
pub mod decorators;
pub mod module_system;
pub mod modules;
pub mod builtins;
pub mod ffi;
pub mod ffi_registry;
pub mod module_registry;
pub mod conversion;
pub mod dynamic;
pub mod std_natives;
