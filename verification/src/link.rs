//! The link directives that a unit hands to the host build tool.

use vstd::prelude::*;
use crate::flags::Flags;
use crate::text::views;

verus! {

/// An instruction to link a library into the final binary.
#[derive(Clone, Debug, PartialEq, Eq)]
pub enum LinkDirective {
    /// A static library built by a unit of the chain.
    Static(String),
    /// A library of the system.
    System(String),
}

/// A `LinkDirective` as plain values.
pub enum LinkText {
    Static(Seq<char>),
    System(Seq<char>),
}

impl View for LinkDirective {
    type V = LinkText;

    open spec fn view(&self) -> LinkText {
        match *self {
            LinkDirective::Static(name) => LinkText::Static(name@),
            LinkDirective::System(name) => LinkText::System(name@),
        }
    }
}

/// The views of a list of directives.
pub open spec fn link_texts(v: Seq<LinkDirective>) -> Seq<LinkText> {
    v.map_values(|d: LinkDirective| d@)
}

/// The system libraries that the flags ask for: threads first, then dynamic
/// loading.
pub open spec fn system_libraries(flags: Flags) -> Seq<LinkText> {
    let threads: Seq<LinkText> = if flags.threads {
        seq![LinkText::System("pthread"@)]
    } else {
        seq![]
    };
    if flags.dynamic_loading {
        threads.push(LinkText::System("dl"@))
    } else {
        threads
    }
}

/// The directives of a unit: its own static library, the static libraries of
/// the units it is built on, in the order given, then the system libraries.
pub open spec fn directives(unit: Seq<char>, upstream: Seq<Seq<char>>, flags: Flags) -> Seq<
    LinkText,
> {
    seq![LinkText::Static(unit)] + upstream.map_values(|u: Seq<char>| LinkText::Static(u))
        + system_libraries(flags)
}

/// Emits the link directives of a unit. The order is fixed by the unit, the
/// units it is built on and the flags, so equal inputs give equal lists.
pub fn emit(unit: &String, upstream: &Vec<String>, flags: &Flags) -> (out: Vec<LinkDirective>)
    ensures
        link_texts(out@) == directives(unit@, views(upstream@), *flags),
{
    let mut out: Vec<LinkDirective> = Vec::new();
    out.push(LinkDirective::Static(unit.clone()));
    let mut i: usize = 0;
    let ghost names = views(upstream@);
    let ghost statics = names.map_values(|u: Seq<char>| LinkText::Static(u));
    assert(link_texts(out@) =~= seq![LinkText::Static(unit@)] + statics.take(0));
    while i < upstream.len()
        invariant
            i <= upstream.len(),
            names == views(upstream@),
            statics == names.map_values(|u: Seq<char>| LinkText::Static(u)),
            link_texts(out@) == seq![LinkText::Static(unit@)] + statics.take(i as int),
        decreases upstream.len() - i,
    {
        let ghost before = out@;
        out.push(LinkDirective::Static(upstream[i].clone()));
        assert(link_texts(out@) =~= link_texts(before).push(LinkText::Static(upstream[i as int]@)));
        assert(statics.take(i + 1) =~= statics.take(i as int).push(
            LinkText::Static(upstream[i as int]@),
        ));
        assert(link_texts(out@) =~= seq![LinkText::Static(unit@)] + statics.take(i + 1));
        i += 1;
    }
    assert(statics.take(upstream.len() as int) =~= statics);
    let ghost chain = link_texts(out@);
    if flags.threads {
        let ghost before = out@;
        out.push(LinkDirective::System("pthread".to_owned()));
        assert(link_texts(out@) =~= link_texts(before).push(LinkText::System("pthread"@)));
    }
    if flags.dynamic_loading {
        let ghost before = out@;
        out.push(LinkDirective::System("dl".to_owned()));
        assert(link_texts(out@) =~= link_texts(before).push(LinkText::System("dl"@)));
    }
    assert(link_texts(out@) =~= chain + system_libraries(*flags));
    out
}

/// The line that declares a directive to the host build tool.
pub open spec fn link_line(directive: LinkText) -> Seq<char> {
    match directive {
        LinkText::Static(name) => "cargo:rustc-link-lib=static="@ + name,
        LinkText::System(name) => "cargo:rustc-link-lib="@ + name,
    }
}

impl LinkDirective {
    /// The line that declares this directive to the host build tool.
    pub fn line(&self) -> (text: String)
        ensures
            text@ == link_line(self@),
    {
        match self {
            LinkDirective::Static(name) => "cargo:rustc-link-lib=static=".to_owned().concat(
                name.as_str(),
            ),
            LinkDirective::System(name) => "cargo:rustc-link-lib=".to_owned().concat(
                name.as_str(),
            ),
        }
    }
}

/// The line that registers a path for change tracking.
pub fn watch_line(path: &String) -> (text: String)
    ensures
        text@ == "cargo:rerun-if-changed="@ + path@,
{
    "cargo:rerun-if-changed=".to_owned().concat(path.as_str())
}

} // verus!
