//! The index store's lifecycle: the configuration that names it, the schema
//! it must have, and what `init` does with a store that is already there.

use vstd::prelude::*;
use crate::ingest::{empty_pass, IngestPass};

verus! {

/// Heap, in bytes, given to the index writer.
pub const INDEX_WRITER_HEAP_BYTES: usize = 50_000_000;

/// The shape of one field of an index schema.
#[derive(Clone, Debug)]
pub struct FieldShape {
    pub name: String,
    /// The field holds text.
    pub text: bool,
    /// The field is indexed (searchable).
    pub indexed: bool,
    /// The field's value is stored and can be read back.
    pub stored: bool,
}

/// A field's shape as plain values: name, text, indexed, stored.
pub open spec fn shape_of(f: FieldShape) -> (Seq<char>, bool, bool, bool) {
    (f.name@, f.text, f.indexed, f.stored)
}

/// A schema's shape: its fields' shapes, in order.
pub open spec fn schema_shape(fields: Seq<FieldShape>) -> Seq<(Seq<char>, bool, bool, bool)> {
    fields.map_values(|f: FieldShape| shape_of(f))
}

/// The schema that the library expects: a `path` and a `contents` field,
/// both indexed, stored text.
pub open spec fn expected_shape() -> Seq<(Seq<char>, bool, bool, bool)> {
    seq![("path"@, true, true, true), ("contents"@, true, true, true)]
}

/// The schema that the library expects, field by field.
pub fn expected_schema() -> (r: Vec<FieldShape>)
    ensures
        schema_shape(r@) == expected_shape(),
{
    let r = vec![
        FieldShape { name: "path".to_owned(), text: true, indexed: true, stored: true },
        FieldShape { name: "contents".to_owned(), text: true, indexed: true, stored: true },
    ];
    assert(schema_shape(r@) =~= expected_shape());
    r
}

/// Two field shapes are the same.
fn same_field(a: &FieldShape, b: &FieldShape) -> (r: bool)
    ensures
        r == (shape_of(*a) == shape_of(*b)),
{
    a.name == b.name && a.text == b.text && a.indexed == b.indexed && a.stored == b.stored
}

/// Structural equality of two schemas: same fields, in the same order, with
/// the same names and flags.
pub fn same_schema(a: &Vec<FieldShape>, b: &Vec<FieldShape>) -> (r: bool)
    ensures
        r == (schema_shape(a@) == schema_shape(b@)),
{
    if a.len() != b.len() {
        assert(schema_shape(a@).len() != schema_shape(b@).len());
        return false;
    }
    let mut i: usize = 0;
    while i < a.len()
        invariant
            a@.len() == b@.len(),
            i <= a@.len(),
            forall|j: int| 0 <= j < i ==> shape_of(#[trigger] a@[j]) == shape_of(b@[j]),
        decreases a@.len() - i,
    {
        if !same_field(&a[i], &b[i]) {
            assert(schema_shape(a@)[i as int] != schema_shape(b@)[i as int]);
            return false;
        }
        i = i + 1;
    }
    assert(schema_shape(a@) =~= schema_shape(b@));
    true
}

/// What went wrong with the index store.
#[derive(Clone, Copy, Debug, PartialEq, Eq, Structural)]
pub enum LifecycleError {
    /// The store on disk has another schema; it must be recreated by force.
    SchemaMismatch,
    /// No store exists; the installation must be initialized first.
    IndexMissing,
    /// No configuration was found; the installation must be initialized.
    NotInitialized,
}

/// Checks the schema found in an existing store against the expected one.
pub fn validate_schema(found: &Vec<FieldShape>) -> (r: Result<(), LifecycleError>)
    ensures
        r == (if schema_shape(found@) == expected_shape() {
            Ok::<(), LifecycleError>(())
        } else {
            Err(LifecycleError::SchemaMismatch)
        }),
{
    let expected = expected_schema();
    if same_schema(found, &expected) {
        Ok(())
    } else {
        Err(LifecycleError::SchemaMismatch)
    }
}

/// A store must exist before it is used.
pub fn require_index(index_present: bool) -> (r: Result<(), LifecycleError>)
    ensures
        r == (if index_present {
            Ok::<(), LifecycleError>(())
        } else {
            Err(LifecycleError::IndexMissing)
        }),
{
    if index_present {
        Ok(())
    } else {
        Err(LifecycleError::IndexMissing)
    }
}

/// What `init` does with the index store.
#[derive(Clone, Copy, Debug, PartialEq, Eq, Structural)]
pub enum InitPlan {
    /// Open the existing store and check its schema.
    ReuseExisting,
    /// Remove the existing store and create an empty one.
    Recreate,
    /// Create an empty store where there is none.
    CreateNew,
}

/// Decides what `init` does, from whether a store exists and whether
/// recreation was forced.
pub fn init_plan(index_present: bool, force: bool) -> (r: InitPlan)
    ensures
        r == (if !index_present {
            InitPlan::CreateNew
        } else if force {
            InitPlan::Recreate
        } else {
            InitPlan::ReuseExisting
        }),
{
    if !index_present {
        InitPlan::CreateNew
    } else if force {
        InitPlan::Recreate
    } else {
        InitPlan::ReuseExisting
    }
}


/// Name of the file whose presence in the store's directory marks an
/// existing index.
pub open spec fn index_marker() -> Seq<char> {
    "meta.json"@
}

/// Whether an index exists, from the file names found in its directory
/// (none where the directory itself is missing).
pub fn tantivy_index_exists(entries: &Vec<String>) -> (r: bool)
    ensures
        r == exists|i: int| 0 <= i < entries@.len() && (#[trigger] entries@[i])@ == index_marker(),
{
    let marker = "meta.json".to_owned();
    let mut i: usize = 0;
    while i < entries.len()
        invariant
            i <= entries@.len(),
            marker@ == index_marker(),
            forall|j: int| 0 <= j < i ==> (#[trigger] entries@[j])@ != index_marker(),
        decreases entries@.len() - i,
    {
        if entries[i] == marker {
            return true;
        }
        i = i + 1;
    }
    false
}

/// Starts the `index` command: it needs a saved configuration and an
/// existing store, and then begins a pass over an emptied index.
pub fn cmd_index(config_loaded: bool, index_present: bool) -> (r: Result<IngestPass, LifecycleError>)
    ensures
        !config_loaded ==> r is Err && r->Err_0 == LifecycleError::NotInitialized,
        config_loaded && !index_present ==> r is Err && r->Err_0 == LifecycleError::IndexMissing,
        config_loaded && index_present ==> r is Ok && r->Ok_0@ == empty_pass() && r->Ok_0.wf(),
{
    if !config_loaded {
        return Err(LifecycleError::NotInitialized);
    }
    match require_index(index_present) {
        Ok(()) => Ok(IngestPass::begin()),
        Err(e) => Err(e),
    }
}

} // verus!
