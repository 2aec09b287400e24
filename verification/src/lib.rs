//! Verified core of a Chrome DevTools MCP server: the registries of browser
//! instances and tabs, the caches filled from DevTools events, launch
//! planning, cookie-seed planning and the decisions behind each tool.
pub mod address;
pub mod console;
pub mod cookie_seed;
pub mod custom;
pub mod debugger;
pub mod debugger_tools;
pub mod instance_tools;
pub mod instances;
pub mod json;
pub mod launch;
pub mod manager;
pub mod navigate;
pub mod netlog;
pub mod network;
pub mod page_tools;
pub mod position;
pub mod proc_status;
pub mod proxy_auth;
pub mod strmap;
pub mod tab_tools;
pub mod tabs;
pub mod text;
pub mod tools;
pub mod tracing;
pub mod webmcp;
pub mod webmcp_tools;
