//! The records a walk collects: classified definitions for point queries
//! and outline entries for whole-file queries, with their ghost images.

use vstd::prelude::*;

verus! {

/// Ghost image of a classified definition found by a point-mode walk.
pub ghost struct DefRecord {
    /// The source text of the definition.
    pub code: Seq<char>,
    /// First line of the definition, 1-based.
    pub start_line: int,
    /// Last line of the definition, 1-based.
    pub end_line: int,
    /// The node kind that classified it.
    pub def_type: Seq<char>,
    /// Byte-span size, the smallest-wins tie-breaker.
    pub size: int,
    /// Whether the node is a compound type wrapped by a type alias.
    pub is_typedef_child: bool,
}

/// Represents a found definition
#[derive(Debug)]
pub struct Definition {
    /// The source text of the definition.
    pub code: String,
    /// First line of the definition, 1-based.
    pub start_line: usize,
    /// Last line of the definition, 1-based.
    pub end_line: usize,
    /// The node kind that classified it.
    pub def_type: String,
    /// Byte-span size, the smallest-wins tie-breaker.
    pub size: usize,
    /// Whether the node is a compound type wrapped by a type alias.
    pub is_typedef_child: bool,
}

impl View for Definition {
    type V = DefRecord;

    open spec fn view(&self) -> DefRecord {
        DefRecord {
            code: self.code@,
            start_line: self.start_line as int,
            end_line: self.end_line as int,
            def_type: self.def_type@,
            size: self.size as int,
            is_typedef_child: self.is_typedef_child,
        }
    }
}

/// Ghost image of an outline record. A record whose node is a compound type
/// wrapped by a type alias carries `is_typedef_child` and is dropped before
/// the outline is built.
pub ghost struct OutlineRecord {
    /// First line of the definition, 1-based.
    pub line: int,
    /// Last line of the definition, 1-based.
    pub end_line: int,
    /// The rendered one-line signature.
    pub signature: Seq<char>,
    /// The node kind that classified it.
    pub def_type: Seq<char>,
    /// Whether the node is a compound type wrapped by a type alias.
    pub is_typedef_child: bool,
}

/// Represents an outline entry
#[derive(Debug)]
pub struct OutlineEntry {
    /// First line of the definition, 1-based.
    pub line: usize,
    /// Last line of the definition, 1-based.
    pub end_line: usize,
    /// The rendered one-line signature.
    pub signature: String,
    /// The node kind that classified it.
    pub def_type: String,
}

impl View for OutlineEntry {
    type V = OutlineRecord;

    open spec fn view(&self) -> OutlineRecord {
        OutlineRecord {
            line: self.line as int,
            end_line: self.end_line as int,
            signature: self.signature@,
            def_type: self.def_type@,
            is_typedef_child: false,
        }
    }
}

/// The ghost images of a sequence of collected definitions.
pub open spec fn defs_view(s: Seq<Definition>) -> Seq<DefRecord> {
    s.map_values(|d: Definition| d@)
}

/// The ghost images of a sequence of outline entries.
pub open spec fn entries_view(s: Seq<OutlineEntry>) -> Seq<OutlineRecord> {
    s.map_values(|e: OutlineEntry| e@)
}

} // verus!
