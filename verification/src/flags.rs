//! Resolving the declared capabilities of a build into feature flags.

use vstd::prelude::*;
use crate::text::{contains_text, views};

verus! {

/// An optional part of the build that a capability switches on.
#[derive(Clone, Copy, Debug, PartialEq, Eq, Structural)]
pub enum Feature {
    /// Full rather than minimal mode.
    Full,
    /// Lock-contention diagnostics.
    Diagnostics,
    /// Asynchronous I/O.
    AsyncIo,
    /// HTTP, built on asynchronous I/O.
    Http,
    /// TLS, built on asynchronous I/O.
    Tls,
    /// Compressed streams, built on asynchronous I/O.
    Compression,
    /// The schema compiler's own sources.
    SchemaCompiler,
    /// Dynamic loading.
    DynamicLoading,
    /// Threads from a system library.
    Threads,
}

/// The capability name that switches a feature on.
pub open spec fn feature_text(f: Feature) -> Seq<char> {
    match f {
        Feature::Full => "full-mode"@,
        Feature::Diagnostics => "diagnostics"@,
        Feature::AsyncIo => "async-io"@,
        Feature::Http => "http"@,
        Feature::Tls => "tls"@,
        Feature::Compression => "compression"@,
        Feature::SchemaCompiler => "schema-compiler"@,
        Feature::DynamicLoading => "dynamic-loading"@,
        Feature::Threads => "threads"@,
    }
}

/// The capability name that switches a feature on.
pub fn feature_name(f: Feature) -> (name: &'static str)
    ensures
        name@ == feature_text(f),
{
    match f {
        Feature::Full => "full-mode",
        Feature::Diagnostics => "diagnostics",
        Feature::AsyncIo => "async-io",
        Feature::Http => "http",
        Feature::Tls => "tls",
        Feature::Compression => "compression",
        Feature::SchemaCompiler => "schema-compiler",
        Feature::DynamicLoading => "dynamic-loading",
        Feature::Threads => "threads",
    }
}

/// The resolved flags of one unit's build.
#[derive(Clone, Copy, Debug, PartialEq, Eq, Structural)]
pub struct Flags {
    pub full: bool,
    pub diagnostics: bool,
    pub async_io: bool,
    pub http: bool,
    pub tls: bool,
    pub compression: bool,
    pub schema_compiler: bool,
    pub dynamic_loading: bool,
    pub threads: bool,
}

impl Flags {
    /// Whether a feature is on.
    pub open spec fn has(self, f: Feature) -> bool {
        match f {
            Feature::Full => self.full,
            Feature::Diagnostics => self.diagnostics,
            Feature::AsyncIo => self.async_io,
            Feature::Http => self.http,
            Feature::Tls => self.tls,
            Feature::Compression => self.compression,
            Feature::SchemaCompiler => self.schema_compiler,
            Feature::DynamicLoading => self.dynamic_loading,
            Feature::Threads => self.threads,
        }
    }

    /// Whether a feature is on.
    pub fn enabled(&self, f: Feature) -> (on: bool)
        ensures
            on == self.has(f),
    {
        match f {
            Feature::Full => self.full,
            Feature::Diagnostics => self.diagnostics,
            Feature::AsyncIo => self.async_io,
            Feature::Http => self.http,
            Feature::Tls => self.tls,
            Feature::Compression => self.compression,
            Feature::SchemaCompiler => self.schema_compiler,
            Feature::DynamicLoading => self.dynamic_loading,
            Feature::Threads => self.threads,
        }
    }
}

/// The flags that a set of declared capability names stands for: a feature is
/// on exactly if its name is declared. Names of no feature change nothing.
pub open spec fn resolved(declared: Seq<Seq<char>>) -> Flags {
    Flags {
        full: declared.contains(feature_text(Feature::Full)),
        diagnostics: declared.contains(feature_text(Feature::Diagnostics)),
        async_io: declared.contains(feature_text(Feature::AsyncIo)),
        http: declared.contains(feature_text(Feature::Http)),
        tls: declared.contains(feature_text(Feature::Tls)),
        compression: declared.contains(feature_text(Feature::Compression)),
        schema_compiler: declared.contains(feature_text(Feature::SchemaCompiler)),
        dynamic_loading: declared.contains(feature_text(Feature::DynamicLoading)),
        threads: declared.contains(feature_text(Feature::Threads)),
    }
}

/// Whether the capability of a feature is among the declared names.
fn declares(declared: &Vec<String>, f: Feature) -> (on: bool)
    ensures
        on == views(declared@).contains(feature_text(f)),
{
    let name = feature_name(f).to_owned();
    contains_text(declared, &name)
}

/// Resolves the declared capabilities into flags. It cannot fail: a feature
/// whose name is absent is off, and a name of no feature is ignored.
pub fn resolve(declared: &Vec<String>) -> (flags: Flags)
    ensures
        flags == resolved(views(declared@)),
{
    Flags {
        full: declares(declared, Feature::Full),
        diagnostics: declares(declared, Feature::Diagnostics),
        async_io: declares(declared, Feature::AsyncIo),
        http: declares(declared, Feature::Http),
        tls: declares(declared, Feature::Tls),
        compression: declares(declared, Feature::Compression),
        schema_compiler: declares(declared, Feature::SchemaCompiler),
        dynamic_loading: declares(declared, Feature::DynamicLoading),
        threads: declares(declared, Feature::Threads),
    }
}

/// A declared name that is the capability of no feature leaves the flags as
/// they are.
pub proof fn lemma_unknown_capability_ignored(declared: Seq<Seq<char>>, extra: Seq<char>)
    requires
        forall|f: Feature| feature_text(f) != extra,
    ensures
        resolved(declared.push(extra)) == resolved(declared),
{
    assert forall|f: Feature|
        declared.push(extra).contains(feature_text(f)) == declared.contains(
            feature_text(f),
        ) by {
        let t = feature_text(f);
        if declared.contains(t) {
            let i = choose|i: int| 0 <= i < declared.len() && declared[i] == t;
            assert(declared.push(extra)[i] == t);
        }
        if declared.push(extra).contains(t) {
            let i = choose|i: int|
                0 <= i < declared.push(extra).len() && declared.push(extra)[i] == t;
            assert(declared[i] == t);
        }
    }
}

} // verus!
