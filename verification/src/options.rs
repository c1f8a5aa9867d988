//! The `buf.validate` options of files.

use crate::validate::rules::{ExtensionRule, TypeOptions};
use vstd::prelude::*;

verus! {

/// The options of the types and extensions that a file declares.
#[derive(Debug)]
pub struct FileOptions {
    pub types: Vec<TypeOptions>,
    pub extensions: Vec<ExtensionRule>,
}

/// Reads the `buf.validate` options in serialized files.
///
/// The options in a file are named by `types_in` and `extensions_in`: they
/// follow from its bytes. A reader in verified code defines those; one in
/// ordinary Rust leaves them out, and they stand for what it reads.
pub trait OptionsReader: Sized {
    /// The options of the types in a serialized file.
    closed spec fn types_in(&self, file: Seq<u8>) -> Seq<TypeOptions> {
        arbitrary()
    }

    /// The extensions of rules messages in a serialized file.
    closed spec fn extensions_in(&self, file: Seq<u8>) -> Seq<ExtensionRule> {
        arbitrary()
    }

    /// Reads a serialized `google.protobuf.FileDescriptorProto`, which is
    /// known to parse and to link.
    fn read(&self, file: &[u8]) -> (r: FileOptions)
        ensures
            r.types@ == self.types_in(file@),
            r.extensions@ == self.extensions_in(file@),
    ;
}

/// The reader of files without rules: it finds none.
#[derive(Debug)]
pub struct NoOptions;

impl OptionsReader for NoOptions {
    open spec fn types_in(&self, file: Seq<u8>) -> Seq<TypeOptions> {
        Seq::empty()
    }

    open spec fn extensions_in(&self, file: Seq<u8>) -> Seq<ExtensionRule> {
        Seq::empty()
    }

    fn read(&self, file: &[u8]) -> (r: FileOptions) {
        FileOptions { types: Vec::new(), extensions: Vec::new() }
    }
}

} // verus!
