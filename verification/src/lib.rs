//! Verified core of the Rusk SDK.
pub mod androidgen;
pub mod buildrun;
pub mod bundle;
pub mod cli;
pub mod color;
pub mod diagnostics;
pub mod digest;
pub mod embed_jvm;
pub mod incremental;
pub mod input;
pub mod javadeps;
pub mod jni_safe;
pub mod jnigen;
pub mod keystore;
pub mod lint;
pub mod manifest;
pub mod ndk;
pub mod ndk_sys;
pub mod num;
pub mod ordmap;
pub mod path;
pub mod pipeline;
pub mod profile;
pub mod render;
pub mod sdkmgr;
pub mod sqlite;
pub mod symbolize;
pub mod text;
pub mod tls;
pub mod ui;
pub mod workspace;
pub mod xml;
