use vstd::prelude::*;

verus! {

/// The error kinds of the pipeline. Components return these; the
/// orchestrator is the single escalation point.
#[derive(Clone, Copy, Debug, PartialEq, Eq, Structural)]
pub enum DtErrorKind {
    /// Invalid configuration; fatal, surfaced to the caller.
    Config,
    /// Cannot connect; the caller retries with backoff.
    ConnSetup,
    /// A referenced object is absent; fatal for that table.
    MetaNotFound,
    /// Transient source read error; retried once, then escalated.
    ExtractIo,
    /// A destination statement failed; the batch path falls back to
    /// serial, the serial path escalates.
    SinkExecute,
    /// A value cannot be represented; fatal, indicates schema drift.
    Encoding,
    /// Shutdown was observed; clean termination.
    Cancelled,
}

/// A pipeline error: a kind plus the schema/table it concerns and a
/// free-form description of the underlying cause.
#[derive(Debug)]
pub struct DtError {
    pub kind: DtErrorKind,
    pub schema: String,
    pub table: String,
    pub inner: String,
}

impl DtError {
    /// Build an error carrying no schema/table context.
    pub fn new(kind: DtErrorKind, inner: String) -> (r: DtError)
        ensures
            r.kind == kind,
            r.inner == inner,
            r.schema@ == Seq::<char>::empty(),
            r.table@ == Seq::<char>::empty(),
    {
        DtError { kind, schema: String::new(), table: String::new(), inner }
    }

    /// Build an error for a given schema and table.
    pub fn for_table(kind: DtErrorKind, schema: String, table: String, inner: String) -> (r:
        DtError)
        ensures
            r.kind == kind,
            r.schema == schema,
            r.table == table,
            r.inner == inner,
    {
        DtError { kind, schema, table, inner }
    }
}

} // verus!
