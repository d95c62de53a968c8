//! The units of the chain, from the utility library upward, and their tables
//! of file groups.

use vstd::prelude::*;
use crate::flags::Flags;
use crate::groups::{consistent, group_texts, unmet, GroupId, GroupText, SourceGroup};
use crate::text::{owned, texts, views};

verus! {

/// What one unit declares of itself: its name, the units it is built on,
/// nearest first, and its table of file groups.
#[derive(Clone, Debug, PartialEq, Eq)]
pub struct UnitDecl {
    pub name: String,
    pub upstream: Vec<String>,
    pub groups: Vec<SourceGroup>,
}

/// A `UnitDecl` as plain values.
pub struct UnitText {
    pub name: Seq<char>,
    pub upstream: Seq<Seq<char>>,
    pub groups: Seq<GroupText>,
}

impl View for UnitDecl {
    type V = UnitText;

    open spec fn view(&self) -> UnitText {
        UnitText {
            name: self.name@,
            upstream: views(self.upstream@),
            groups: group_texts(self.groups@),
        }
    }
}

/// The sources of the `Base` group of the utility library.
pub open spec fn kj_base_sources() -> Seq<Seq<char>> {
    seq![
        "arena.c++"@, "array.c++"@, "cidr.c++"@, "common.c++"@, "debug.c++"@, "encoding.c++"@,
        "exception.c++"@, "glob-filter.c++"@, "hash.c++"@, "io.c++"@, "list.c++"@, "main.c++"@,
        "memory.c++"@, "mutex.c++"@, "source-location.c++"@, "string.c++"@, "table.c++"@,
        "test-helpers.c++"@, "thread.c++"@, "units.c++"@, "time.c++"@,
    ]
}

/// The headers of the `Base` group of the utility library.
pub open spec fn kj_base_headers() -> Seq<Seq<char>> {
    seq![
        "arena.h"@, "common.h"@, "list.h"@, "parse/common.h"@, "parse/char.h"@,
        "std/iostream.h"@, "array.h"@, "cidr.h"@, "debug.h"@, "encoding.h"@, "exception.h"@,
        "filesystem.h"@, "function.h"@, "glob-filter.h"@, "hash.h"@, "io.h"@, "main.h"@,
        "map.h"@, "memory.h"@, "miniposix.h"@, "mutex.h"@, "one-of.h"@, "refcount.h"@,
        "source-location.h"@, "string.h"@, "string-tree.h"@, "table.h"@, "test.h"@, "thread.h"@,
        "time.h"@, "tuple.h"@, "units.h"@, "vector.h"@, "win32-api-version.h"@,
        "windows-sanity.h"@,
    ]
}

/// The sources of the `AsyncIo` group of the utility library.
pub open spec fn kj_async_io_sources() -> Seq<Seq<char>> {
    seq![
        "async.c++"@, "async-unix.c++"@, "async-win32.c++"@, "async-io-win32.c++"@,
        "async-io.c++"@, "async-io-unix.c++"@, "timer.c++"@,
    ]
}

/// The headers of the `AsyncIo` group of the utility library.
pub open spec fn kj_async_io_headers() -> Seq<Seq<char>> {
    seq![
        "async-prelude.h"@, "async.h"@, "async-inl.h"@, "async-unix.h"@, "async-win32.h"@,
        "async-io.h"@, "async-queue.h"@, "timer.h"@, "async-io-internal.h"@, "miniposix.h"@,
    ]
}

/// The sources of the `Heavy` group of the utility library.
pub open spec fn kj_heavy_sources() -> Seq<Seq<char>> {
    seq![
        "filesystem.c++"@, "filesystem-disk-unix.c++"@, "filesystem-disk-win32.c++"@,
        "parse/char.c++"@, "refcount.c++"@, "string-tree.c++"@,
    ]
}

/// The sources of the `Http` group of the utility library.
pub open spec fn kj_http_sources() -> Seq<Seq<char>> {
    seq![
        "compat/http.c++"@, "compat/url.c++"@,
    ]
}

/// The headers of the `Http` group of the utility library.
pub open spec fn kj_http_headers() -> Seq<Seq<char>> {
    seq![
        "compat/http.h"@, "compat/url.h"@,
    ]
}

/// The sources of the `Tls` group of the utility library.
pub open spec fn kj_tls_sources() -> Seq<Seq<char>> {
    seq![
        "compat/readiness-io.c++"@, "compat/tls.c++"@,
    ]
}

/// The headers of the `Tls` group of the utility library.
pub open spec fn kj_tls_headers() -> Seq<Seq<char>> {
    seq![
        "compat/readiness-io.h"@, "compat/tls.h"@,
    ]
}

/// The sources of the `Compression` group of the utility library.
pub open spec fn kj_compression_sources() -> Seq<Seq<char>> {
    seq![
        "compat/gzip.c++"@,
    ]
}

/// The headers of the `Compression` group of the utility library.
pub open spec fn kj_compression_headers() -> Seq<Seq<char>> {
    seq![
        "compat/gzip.h"@,
    ]
}

/// The table of the utility library.
pub open spec fn kj_table() -> Seq<GroupText> {
    seq![
        GroupText {
            id: GroupId::Base,
            needs: seq![],
            sources: kj_base_sources(),
            headers: kj_base_headers(),
        },
        GroupText {
            id: GroupId::AsyncIo,
            needs: seq![],
            sources: kj_async_io_sources(),
            headers: kj_async_io_headers(),
        },
        GroupText {
            id: GroupId::Heavy,
            needs: seq![],
            sources: kj_heavy_sources(),
            headers: seq![],
        },
        GroupText {
            id: GroupId::Http,
            needs: seq![GroupId::AsyncIo],
            sources: kj_http_sources(),
            headers: kj_http_headers(),
        },
        GroupText {
            id: GroupId::Tls,
            needs: seq![GroupId::AsyncIo],
            sources: kj_tls_sources(),
            headers: kj_tls_headers(),
        },
        GroupText {
            id: GroupId::Compression,
            needs: seq![GroupId::AsyncIo],
            sources: kj_compression_sources(),
            headers: kj_compression_headers(),
        },
    ]
}

/// What the utility library declares.
pub open spec fn kj_text() -> UnitText {
    UnitText { name: "kj"@, upstream: seq![], groups: kj_table() }
}

/// The `Base` group of the utility library.
fn kj_base() -> (group: SourceGroup)
    ensures
        group@ == kj_table()[0],
{
    let sources_list: Vec<&'static str> = vec![
        "arena.c++", "array.c++", "cidr.c++", "common.c++", "debug.c++", "encoding.c++",
        "exception.c++", "glob-filter.c++", "hash.c++", "io.c++", "list.c++", "main.c++",
        "memory.c++", "mutex.c++", "source-location.c++", "string.c++", "table.c++",
        "test-helpers.c++", "thread.c++", "units.c++", "time.c++",
    ];
    assert(texts(sources_list@) =~= kj_base_sources());
    let sources = owned(sources_list.as_slice());
    let headers_list: Vec<&'static str> = vec![
        "arena.h", "common.h", "list.h", "parse/common.h", "parse/char.h", "std/iostream.h",
        "array.h", "cidr.h", "debug.h", "encoding.h", "exception.h", "filesystem.h",
        "function.h", "glob-filter.h", "hash.h", "io.h", "main.h", "map.h", "memory.h",
        "miniposix.h", "mutex.h", "one-of.h", "refcount.h", "source-location.h", "string.h",
        "string-tree.h", "table.h", "test.h", "thread.h", "time.h", "tuple.h", "units.h",
        "vector.h", "win32-api-version.h", "windows-sanity.h",
    ];
    assert(texts(headers_list@) =~= kj_base_headers());
    let headers = owned(headers_list.as_slice());
    let needs: Vec<GroupId> = Vec::new();
    assert(needs@ =~= Seq::<GroupId>::empty());
    SourceGroup { id: GroupId::Base, needs, sources, headers }
}

/// The `AsyncIo` group of the utility library.
fn kj_async_io() -> (group: SourceGroup)
    ensures
        group@ == kj_table()[1],
{
    let sources_list: Vec<&'static str> = vec![
        "async.c++", "async-unix.c++", "async-win32.c++", "async-io-win32.c++", "async-io.c++",
        "async-io-unix.c++", "timer.c++",
    ];
    assert(texts(sources_list@) =~= kj_async_io_sources());
    let sources = owned(sources_list.as_slice());
    let headers_list: Vec<&'static str> = vec![
        "async-prelude.h", "async.h", "async-inl.h", "async-unix.h", "async-win32.h",
        "async-io.h", "async-queue.h", "timer.h", "async-io-internal.h", "miniposix.h",
    ];
    assert(texts(headers_list@) =~= kj_async_io_headers());
    let headers = owned(headers_list.as_slice());
    let needs: Vec<GroupId> = Vec::new();
    assert(needs@ =~= Seq::<GroupId>::empty());
    SourceGroup { id: GroupId::AsyncIo, needs, sources, headers }
}

/// The `Heavy` group of the utility library.
fn kj_heavy() -> (group: SourceGroup)
    ensures
        group@ == kj_table()[2],
{
    let sources_list: Vec<&'static str> = vec![
        "filesystem.c++", "filesystem-disk-unix.c++", "filesystem-disk-win32.c++",
        "parse/char.c++", "refcount.c++", "string-tree.c++",
    ];
    assert(texts(sources_list@) =~= kj_heavy_sources());
    let sources = owned(sources_list.as_slice());
    let headers: Vec<String> = Vec::new();
    assert(views(headers@) =~= Seq::<Seq<char>>::empty());
    let needs: Vec<GroupId> = Vec::new();
    assert(needs@ =~= Seq::<GroupId>::empty());
    SourceGroup { id: GroupId::Heavy, needs, sources, headers }
}

/// The `Http` group of the utility library.
fn kj_http() -> (group: SourceGroup)
    ensures
        group@ == kj_table()[3],
{
    let sources_list: Vec<&'static str> = vec![
        "compat/http.c++", "compat/url.c++",
    ];
    assert(texts(sources_list@) =~= kj_http_sources());
    let sources = owned(sources_list.as_slice());
    let headers_list: Vec<&'static str> = vec![
        "compat/http.h", "compat/url.h",
    ];
    assert(texts(headers_list@) =~= kj_http_headers());
    let headers = owned(headers_list.as_slice());
    let needs: Vec<GroupId> = vec![GroupId::AsyncIo];
    assert(needs@ =~= seq![GroupId::AsyncIo]);
    SourceGroup { id: GroupId::Http, needs, sources, headers }
}

/// The `Tls` group of the utility library.
fn kj_tls() -> (group: SourceGroup)
    ensures
        group@ == kj_table()[4],
{
    let sources_list: Vec<&'static str> = vec![
        "compat/readiness-io.c++", "compat/tls.c++",
    ];
    assert(texts(sources_list@) =~= kj_tls_sources());
    let sources = owned(sources_list.as_slice());
    let headers_list: Vec<&'static str> = vec![
        "compat/readiness-io.h", "compat/tls.h",
    ];
    assert(texts(headers_list@) =~= kj_tls_headers());
    let headers = owned(headers_list.as_slice());
    let needs: Vec<GroupId> = vec![GroupId::AsyncIo];
    assert(needs@ =~= seq![GroupId::AsyncIo]);
    SourceGroup { id: GroupId::Tls, needs, sources, headers }
}

/// The `Compression` group of the utility library.
fn kj_compression() -> (group: SourceGroup)
    ensures
        group@ == kj_table()[5],
{
    let sources_list: Vec<&'static str> = vec![
        "compat/gzip.c++",
    ];
    assert(texts(sources_list@) =~= kj_compression_sources());
    let sources = owned(sources_list.as_slice());
    let headers_list: Vec<&'static str> = vec![
        "compat/gzip.h",
    ];
    assert(texts(headers_list@) =~= kj_compression_headers());
    let headers = owned(headers_list.as_slice());
    let needs: Vec<GroupId> = vec![GroupId::AsyncIo];
    assert(needs@ =~= seq![GroupId::AsyncIo]);
    SourceGroup { id: GroupId::Compression, needs, sources, headers }
}

/// The table of the utility library.
pub fn kj_groups() -> (table: Vec<SourceGroup>)
    ensures
        group_texts(table@) == kj_table(),
{
    let mut table: Vec<SourceGroup> = Vec::new();
    table.push(kj_base());
    table.push(kj_async_io());
    table.push(kj_heavy());
    table.push(kj_http());
    table.push(kj_tls());
    table.push(kj_compression());
    assert(group_texts(table@) =~= kj_table());
    table
}

/// What the utility library declares.
pub fn kj_unit() -> (unit: UnitDecl)
    ensures
        unit@ == kj_text(),
{
    let upstream: Vec<String> = Vec::new();
    assert(views(upstream@) =~= Seq::<Seq<char>>::empty());
    UnitDecl { name: "kj".to_owned(), upstream, groups: kj_groups() }
}

/// The sources of the `Base` group of the serialization library.
pub open spec fn capnp_base_sources() -> Seq<Seq<char>> {
    seq![
        "any.c++"@, "arena.c++"@, "blob.c++"@, "c++.capnp.c++"@, "layout.c++"@, "list.c++"@,
        "message.c++"@, "schema.capnp.c++"@, "serialize.c++"@, "serialize-packed.c++"@,
        "stream.capnp.c++"@,
    ]
}

/// The headers of the `Base` group of the serialization library.
pub open spec fn capnp_base_headers() -> Seq<Seq<char>> {
    seq![
        "any.h"@, "blob.h"@, "c++.capnp.h"@, "capability.h"@, "common.h"@, "dynamic.h"@,
        "endian.h"@, "generated-header-support.h"@, "layout.h"@, "list.h"@, "membrane.h"@,
        "message.h"@, "orphan.h"@, "persistent.capnp.h"@, "pointer-helpers.h"@,
        "pretty-print.h"@, "raw-schema.h"@, "schema.capnp.h"@, "schema.h"@, "schema-lite.h"@,
        "schema-loader.h"@, "schema-parser.h"@, "serialize.h"@, "serialize-async.h"@,
        "serialize-packed.h"@, "serialize-text.h"@, "stream.capnp.h"@, "test-util.h"@,
        "compat/std-iterator.h"@, "arena.h"@,
    ]
}

/// The sources of the `Heavy` group of the serialization library.
pub open spec fn capnp_heavy_sources() -> Seq<Seq<char>> {
    seq![
        "dynamic.c++"@, "schema.c++"@, "schema-loader.c++"@, "stringify.c++"@,
    ]
}

/// The sources of the `SchemaCompiler` group of the serialization library.
pub open spec fn capnp_schema_compiler_sources() -> Seq<Seq<char>> {
    seq![
        "compiler/type-id.c++"@, "compiler/error-reporter.c++"@, "compiler/lexer.capnp.c++"@,
        "compiler/lexer.c++"@, "compiler/grammar.capnp.c++"@, "compiler/parser.c++"@,
        "compiler/generics.c++"@, "compiler/node-translator.c++"@, "compiler/compiler.c++"@,
        "compiler/module-loader.c++"@, "schema-parser.c++"@, "serialize-text.c++"@,
        "compiler/glue.c++"@,
    ]
}

/// The headers of the `SchemaCompiler` group of the serialization library.
pub open spec fn capnp_schema_compiler_headers() -> Seq<Seq<char>> {
    seq![
        "compiler/type-id.h"@, "compiler/error-reporter.h"@, "compiler/lexer.capnp.h"@,
        "compiler/lexer.h"@, "compiler/grammar.capnp.h"@, "compiler/parser.h"@,
        "compiler/generics.h"@, "compiler/node-translator.h"@, "compiler/compiler.h"@,
        "compiler/module-loader.h"@, "compiler/resolver.h"@, "compiler/glue.h"@,
    ]
}

/// The table of the serialization library.
pub open spec fn capnp_table() -> Seq<GroupText> {
    seq![
        GroupText {
            id: GroupId::Base,
            needs: seq![],
            sources: capnp_base_sources(),
            headers: capnp_base_headers(),
        },
        GroupText {
            id: GroupId::Heavy,
            needs: seq![],
            sources: capnp_heavy_sources(),
            headers: seq![],
        },
        GroupText {
            id: GroupId::SchemaCompiler,
            needs: seq![GroupId::Heavy],
            sources: capnp_schema_compiler_sources(),
            headers: capnp_schema_compiler_headers(),
        },
    ]
}

/// What the serialization library declares.
pub open spec fn capnp_text() -> UnitText {
    UnitText { name: "capnp"@, upstream: seq!["kj"@], groups: capnp_table() }
}

/// The `Base` group of the serialization library.
fn capnp_base() -> (group: SourceGroup)
    ensures
        group@ == capnp_table()[0],
{
    let sources_list: Vec<&'static str> = vec![
        "any.c++", "arena.c++", "blob.c++", "c++.capnp.c++", "layout.c++", "list.c++",
        "message.c++", "schema.capnp.c++", "serialize.c++", "serialize-packed.c++",
        "stream.capnp.c++",
    ];
    assert(texts(sources_list@) =~= capnp_base_sources());
    let sources = owned(sources_list.as_slice());
    let headers_list: Vec<&'static str> = vec![
        "any.h", "blob.h", "c++.capnp.h", "capability.h", "common.h", "dynamic.h", "endian.h",
        "generated-header-support.h", "layout.h", "list.h", "membrane.h", "message.h",
        "orphan.h", "persistent.capnp.h", "pointer-helpers.h", "pretty-print.h", "raw-schema.h",
        "schema.capnp.h", "schema.h", "schema-lite.h", "schema-loader.h", "schema-parser.h",
        "serialize.h", "serialize-async.h", "serialize-packed.h", "serialize-text.h",
        "stream.capnp.h", "test-util.h", "compat/std-iterator.h", "arena.h",
    ];
    assert(texts(headers_list@) =~= capnp_base_headers());
    let headers = owned(headers_list.as_slice());
    let needs: Vec<GroupId> = Vec::new();
    assert(needs@ =~= Seq::<GroupId>::empty());
    SourceGroup { id: GroupId::Base, needs, sources, headers }
}

/// The `Heavy` group of the serialization library.
fn capnp_heavy() -> (group: SourceGroup)
    ensures
        group@ == capnp_table()[1],
{
    let sources_list: Vec<&'static str> = vec![
        "dynamic.c++", "schema.c++", "schema-loader.c++", "stringify.c++",
    ];
    assert(texts(sources_list@) =~= capnp_heavy_sources());
    let sources = owned(sources_list.as_slice());
    let headers: Vec<String> = Vec::new();
    assert(views(headers@) =~= Seq::<Seq<char>>::empty());
    let needs: Vec<GroupId> = Vec::new();
    assert(needs@ =~= Seq::<GroupId>::empty());
    SourceGroup { id: GroupId::Heavy, needs, sources, headers }
}

/// The `SchemaCompiler` group of the serialization library.
fn capnp_schema_compiler() -> (group: SourceGroup)
    ensures
        group@ == capnp_table()[2],
{
    let sources_list: Vec<&'static str> = vec![
        "compiler/type-id.c++", "compiler/error-reporter.c++", "compiler/lexer.capnp.c++",
        "compiler/lexer.c++", "compiler/grammar.capnp.c++", "compiler/parser.c++",
        "compiler/generics.c++", "compiler/node-translator.c++", "compiler/compiler.c++",
        "compiler/module-loader.c++", "schema-parser.c++", "serialize-text.c++",
        "compiler/glue.c++",
    ];
    assert(texts(sources_list@) =~= capnp_schema_compiler_sources());
    let sources = owned(sources_list.as_slice());
    let headers_list: Vec<&'static str> = vec![
        "compiler/type-id.h", "compiler/error-reporter.h", "compiler/lexer.capnp.h",
        "compiler/lexer.h", "compiler/grammar.capnp.h", "compiler/parser.h",
        "compiler/generics.h", "compiler/node-translator.h", "compiler/compiler.h",
        "compiler/module-loader.h", "compiler/resolver.h", "compiler/glue.h",
    ];
    assert(texts(headers_list@) =~= capnp_schema_compiler_headers());
    let headers = owned(headers_list.as_slice());
    let needs: Vec<GroupId> = vec![GroupId::Heavy];
    assert(needs@ =~= seq![GroupId::Heavy]);
    SourceGroup { id: GroupId::SchemaCompiler, needs, sources, headers }
}

/// The table of the serialization library.
pub fn capnp_groups() -> (table: Vec<SourceGroup>)
    ensures
        group_texts(table@) == capnp_table(),
{
    let mut table: Vec<SourceGroup> = Vec::new();
    table.push(capnp_base());
    table.push(capnp_heavy());
    table.push(capnp_schema_compiler());
    assert(group_texts(table@) =~= capnp_table());
    table
}

/// What the serialization library declares.
pub fn capnp_unit() -> (unit: UnitDecl)
    ensures
        unit@ == capnp_text(),
{
    let upstream_list: Vec<&'static str> = vec!["kj"];
    assert(texts(upstream_list@) =~= seq!["kj"@]);
    let upstream = owned(upstream_list.as_slice());
    UnitDecl { name: "capnp".to_owned(), upstream, groups: capnp_groups() }
}

/// The sources of the `Base` group of the schema compiler library.
pub open spec fn capnpc_base_sources() -> Seq<Seq<char>> {
    seq![
        "type-id.c++"@, "error-reporter.c++"@, "lexer.capnp.c++"@, "lexer.c++"@,
        "grammar.capnp.c++"@, "parser.c++"@, "generics.c++"@, "node-translator.c++"@,
        "compiler.c++"@, "module-loader.c++"@, "jank.c++"@, "glue.c++"@,
    ]
}

/// The headers of the `Base` group of the schema compiler library.
pub open spec fn capnpc_base_headers() -> Seq<Seq<char>> {
    seq![
        "type-id.h"@, "error-reporter.h"@, "lexer.capnp.h"@, "lexer.h"@, "grammar.capnp.h"@,
        "parser.h"@, "generics.h"@, "node-translator.h"@, "compiler.h"@, "module-loader.h"@,
        "resolver.h"@, "lexer.capnp.h"@, "grammar.capnp.h"@, "glue.h"@,
    ]
}

/// The table of the schema compiler library.
pub open spec fn capnpc_table() -> Seq<GroupText> {
    seq![
        GroupText {
            id: GroupId::Base,
            needs: seq![GroupId::Heavy],
            sources: capnpc_base_sources(),
            headers: capnpc_base_headers(),
        },
    ]
}

/// What the schema compiler library declares.
pub open spec fn capnpc_text() -> UnitText {
    UnitText { name: "capnpc"@, upstream: seq!["capnp"@, "kj"@], groups: capnpc_table() }
}

/// The `Base` group of the schema compiler library.
fn capnpc_base() -> (group: SourceGroup)
    ensures
        group@ == capnpc_table()[0],
{
    let sources_list: Vec<&'static str> = vec![
        "type-id.c++", "error-reporter.c++", "lexer.capnp.c++", "lexer.c++",
        "grammar.capnp.c++", "parser.c++", "generics.c++", "node-translator.c++",
        "compiler.c++", "module-loader.c++", "jank.c++", "glue.c++",
    ];
    assert(texts(sources_list@) =~= capnpc_base_sources());
    let sources = owned(sources_list.as_slice());
    let headers_list: Vec<&'static str> = vec![
        "type-id.h", "error-reporter.h", "lexer.capnp.h", "lexer.h", "grammar.capnp.h",
        "parser.h", "generics.h", "node-translator.h", "compiler.h", "module-loader.h",
        "resolver.h", "lexer.capnp.h", "grammar.capnp.h", "glue.h",
    ];
    assert(texts(headers_list@) =~= capnpc_base_headers());
    let headers = owned(headers_list.as_slice());
    let needs: Vec<GroupId> = vec![GroupId::Heavy];
    assert(needs@ =~= seq![GroupId::Heavy]);
    SourceGroup { id: GroupId::Base, needs, sources, headers }
}

/// The table of the schema compiler library.
pub fn capnpc_groups() -> (table: Vec<SourceGroup>)
    ensures
        group_texts(table@) == capnpc_table(),
{
    let mut table: Vec<SourceGroup> = Vec::new();
    table.push(capnpc_base());
    assert(group_texts(table@) =~= capnpc_table());
    table
}

/// What the schema compiler library declares.
pub fn capnpc_unit() -> (unit: UnitDecl)
    ensures
        unit@ == capnpc_text(),
{
    let upstream_list: Vec<&'static str> = vec!["capnp", "kj"];
    assert(texts(upstream_list@) =~= seq!["capnp"@, "kj"@]);
    let upstream = owned(upstream_list.as_slice());
    UnitDecl { name: "capnpc".to_owned(), upstream, groups: capnpc_groups() }
}

/// In the utility library HTTP, TLS and compression are built on asynchronous
/// I/O: flags that switch one of them on and asynchronous I/O off admit no
/// selection.
pub proof fn lemma_kj_needs_async_io(flags: Flags)
    requires
        flags.http || flags.tls || flags.compression,
        !flags.async_io,
    ensures
        !consistent(kj_table(), flags),
{
    if flags.http {
        assert(unmet(kj_table(), flags, 3, 0));
    } else if flags.tls {
        assert(unmet(kj_table(), flags, 4, 0));
    } else {
        assert(unmet(kj_table(), flags, 5, 0));
    }
}

/// The schema compiler is built in full mode only, in the serialization
/// library and as a unit of its own.
pub proof fn lemma_schema_compiler_needs_full_mode(flags: Flags)
    requires
        !flags.full,
    ensures
        flags.schema_compiler ==> !consistent(capnp_table(), flags),
        !consistent(capnpc_table(), flags),
{
    if flags.schema_compiler {
        assert(unmet(capnp_table(), flags, 2, 0));
    }
    assert(unmet(capnpc_table(), flags, 0, 0));
}

} // verus!
