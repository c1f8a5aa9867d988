//! What a file says of itself before it is linked.

use crate::pool::{has_file, pool_files};
use crate::strings::characters;
use crate::text::{concat, texts};
use crate::validate::text_of;
use std::sync::Arc;
use vstd::prelude::*;

verus! {

/// The names in a file: its own, that of its package, those of the files it
/// imports, and those of the message types and enums it declares outside any
/// message.
#[derive(Debug)]
pub struct FileHead {
    pub name: Option<String>,
    pub package: Option<String>,
    pub imports: Vec<String>,
    pub messages: Vec<Option<String>>,
    pub enums: Vec<Option<String>>,
}

/// What a [`FileHead`] holds.
pub struct FileHeadV {
    pub name: Option<Seq<char>>,
    pub package: Option<Seq<char>>,
    pub imports: Seq<Seq<char>>,
    pub messages: Seq<Option<Seq<char>>>,
    pub enums: Seq<Option<Seq<char>>>,
}

impl View for FileHead {
    type V = FileHeadV;

    open spec fn view(&self) -> FileHeadV {
        FileHeadV {
            name: text_of(self.name),
            package: text_of(self.package),
            imports: texts(self.imports@),
            messages: self.messages@.map_values(|name: Option<String>| text_of(name)),
            enums: self.enums@.map_values(|name: Option<String>| text_of(name)),
        }
    }
}

/// Whether a name is there, and not empty.
pub open spec fn is_named(name: Option<Seq<char>>) -> bool {
    name is Some && name->Some_0.len() > 0
}

/// Whether a name begins with a dot.
pub open spec fn is_dotted(name: Option<Seq<char>>) -> bool {
    is_named(name) && name->Some_0[0] == '.'
}

impl FileHeadV {
    /// Whether no full name in the file begins with a dot: the package does
    /// not, and without a package nothing that stands first in a full name
    /// does.
    pub open spec fn well_named(self) -> bool {
        if is_named(self.package) {
            !is_dotted(self.package)
        } else {
            &&& forall|i: int|
                0 <= i < self.messages.len() ==> is_named(#[trigger] self.messages[i])
                    && !is_dotted(self.messages[i])
            &&& forall|i: int| 0 <= i < self.enums.len() ==> !is_dotted(#[trigger] self.enums[i])
        }
    }

    /// The first import from the `i`th on that is not among the files.
    pub open spec fn missing_import(self, files: Set<Seq<char>>, i: int) -> Option<Seq<char>>
        decreases self.imports.len() - i,
    {
        if i < 0 || i >= self.imports.len() {
            None
        } else if files.contains(self.imports[i]) {
            self.missing_import(files, i + 1)
        } else {
            Some(self.imports[i])
        }
    }

    /// What is wrong with a file that has to do with its names alone.
    pub open spec fn refused(self, files: Set<Seq<char>>) -> Option<Seq<char>> {
        match self.missing_import(files, 0) {
            Some(import) => Some("import not registered: "@ + import),
            None => if self.well_named() {
                None
            } else {
                Some("a full name is empty or begins with a dot"@)
            },
        }
    }
}

/// Whether a name is there, and not empty.
fn named(name: &Option<String>) -> (r: bool)
    ensures
        r == is_named(text_of(*name)),
{
    match name {
        Some(name) => characters(name.as_str()).len() > 0,
        None => false,
    }
}

/// Whether a name begins with a dot.
fn dotted(name: &Option<String>) -> (r: bool)
    ensures
        r == is_dotted(text_of(*name)),
{
    match name {
        Some(name) => {
            let all = characters(name.as_str());
            all.len() > 0 && all[0] == '.'
        },
        None => false,
    }
}

impl FileHead {
    /// Whether no full name in the file begins with a dot.
    fn well_named(&self) -> (r: bool)
        ensures
            r == self@.well_named(),
    {
        if named(&self.package) {
            return !dotted(&self.package);
        }
        let mut i: usize = 0;
        while i < self.messages.len()
            invariant
                i <= self.messages@.len(),
                !is_named(self@.package),
                forall|j: int|
                    0 <= j < i ==> is_named(#[trigger] self@.messages[j]) && !is_dotted(
                        self@.messages[j],
                    ),
            decreases self.messages@.len() - i,
        {
            assert(self@.messages[i as int] == text_of(self.messages@[i as int]));
            if !named(&self.messages[i]) || dotted(&self.messages[i]) {
                return false;
            }
            i += 1;
        }
        let mut k: usize = 0;
        while k < self.enums.len()
            invariant
                k <= self.enums@.len(),
                !is_named(self@.package),
                forall|j: int|
                    0 <= j < self@.messages.len() ==> is_named(#[trigger] self@.messages[j])
                        && !is_dotted(self@.messages[j]),
                forall|j: int| 0 <= j < k ==> !is_dotted(#[trigger] self@.enums[j]),
            decreases self.enums@.len() - k,
        {
            assert(self@.enums[k as int] == text_of(self.enums@[k as int]));
            if dotted(&self.enums[k]) {
                return false;
            }
            k += 1;
        }
        true
    }

    /// What is wrong with the file that has to do with its names alone: an
    /// import that a pool has not linked, or a full name that begins with a
    /// dot.
    pub(crate) fn refused(&self, pool: &Arc<buffa_descriptor::DescriptorPool>) -> (r: Option<
        String,
    >)
        ensures
            text_of(r) == self@.refused(pool_files(**pool)),
    {
        let mut i: usize = 0;
        while i < self.imports.len()
            invariant
                i <= self.imports@.len(),
                self@.missing_import(pool_files(**pool), 0) == self@.missing_import(
                    pool_files(**pool),
                    i as int,
                ),
            decreases self.imports@.len() - i,
        {
            assert(self@.imports[i as int] == self.imports@[i as int]@);
            if !has_file(pool, self.imports[i].as_str()) {
                return Some(concat("import not registered: ", self.imports[i].as_str()));
            }
            i += 1;
        }
        if self.well_named() {
            None
        } else {
            Some("a full name is empty or begins with a dot".to_owned())
        }
    }
}

proof fn lemma_missing_import(head: FileHeadV, files: Set<Seq<char>>, k: int)
    requires
        0 <= k <= head.imports.len(),
    ensures
        match head.missing_import(files, k) {
            None => forall|i: int|
                k <= i < head.imports.len() ==> files.contains(#[trigger] head.imports[i]),
            Some(import) => !files.contains(import) && exists|i: int|
                k <= i < head.imports.len() && #[trigger] head.imports[i] == import && forall|j: int|
                    k <= j < i ==> files.contains(#[trigger] head.imports[j]),
        },
    decreases head.imports.len() - k,
{
    if k < head.imports.len() {
        lemma_missing_import(head, files, k + 1);
        if files.contains(head.imports[k]) {
            if let Some(import) = head.missing_import(files, k + 1) {
                let i = choose|i: int|
                    k + 1 <= i < head.imports.len() && #[trigger] head.imports[i] == import
                        && forall|j: int|
                        k + 1 <= j < i ==> files.contains(#[trigger] head.imports[j]);
                assert(head.imports[i] == import);
            }
        } else {
            assert(head.imports[k] == head.imports[k]);
        }
    }
}

/// A file is refused where one of its imports is not there, and told the
/// first of them, or where a full name in it would be empty or begin with a
/// dot; any other is not refused.
pub proof fn law_refused_files(head: FileHeadV, files: Set<Seq<char>>)
    ensures
        head.refused(files) is None <==> (forall|i: int|
            0 <= i < head.imports.len() ==> files.contains(#[trigger] head.imports[i]))
            && head.well_named(),
        forall|i: int|
            #![trigger head.imports[i]]
            0 <= i < head.imports.len() && !files.contains(head.imports[i]) && (forall|j: int|
                0 <= j < i ==> files.contains(#[trigger] head.imports[j])) ==> head.refused(files)
                == Some("import not registered: "@ + head.imports[i]),
{
    lemma_missing_import(head, files, 0);
    assert forall|i: int|
        #![trigger head.imports[i]]
        0 <= i < head.imports.len() && !files.contains(head.imports[i]) && (forall|j: int|
            0 <= j < i ==> files.contains(#[trigger] head.imports[j])) implies head.refused(files)
        == Some("import not registered: "@ + head.imports[i]) by {
        let import = head.missing_import(files, 0)->Some_0;
        let k = choose|k: int|
            0 <= k < head.imports.len() && #[trigger] head.imports[k] == import && forall|j: int|
                0 <= j < k ==> files.contains(#[trigger] head.imports[j]);
        if k < i {
            assert(files.contains(head.imports[k]));
        } else if i < k {
            assert(files.contains(head.imports[i]));
        }
    }
}

/// The full names of a file are not empty and do not begin with a dot: those
/// in a package take its name in front, and any other message has to have a
/// name of its own.
pub proof fn law_well_named_files(head: FileHeadV)
    ensures
        head.package matches Some(p) ==> (p.len() > 0 ==> (head.well_named() <==> p[0] != '.')),
        head.package is None || head.package->Some_0.len() == 0 ==> (head.well_named() <==> {
            &&& forall|i: int|
                0 <= i < head.messages.len() ==> (#[trigger] head.messages[i]) is Some
                    && head.messages[i]->Some_0.len() > 0 && head.messages[i]->Some_0[0] != '.'
            &&& forall|i: int|
                0 <= i < head.enums.len() ==> (#[trigger] head.enums[i]) is None
                    || head.enums[i]->Some_0.len() == 0 || head.enums[i]->Some_0[0] != '.'
        }),
{
}

} // verus!
