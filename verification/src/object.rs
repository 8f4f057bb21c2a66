//! State resolver: point-in-time reads over a live table, a periodic
//! full-snapshot table and a bounded-retention history table.
//!
//! A query for an identifier with neither a version nor a sequence bound is a
//! plain live-table lookup. A historical query computes a consistency window,
//! gathers candidate rows from the snapshot and history tables, filters them
//! against the caller's bounds, and keeps the row with the highest sequence;
//! an identifier with rows on record but none inside the window is reported
//! as outside the available range, which is distinct from never recorded.

use vstd::prelude::*;

verus! {

/// Errors a resolver query can surface. Each one means a corrupt stored row,
/// never an absent one: absence is reported in the result's `Option`.
#[derive(Debug, Clone, Copy, PartialEq, Eq, Structural)]
pub enum Error {
    /// A stored identifier is not exactly 32 bytes.
    BadAddress,
    /// A stored status column holds an unknown code.
    UnknownStatus,
    /// An active row has no serialized content to return.
    MissingContent,
}

/// Status of one stored historical row.
#[derive(Debug, Clone, Copy, PartialEq, Eq, Structural)]
pub enum ObjectStatus {
    Active,
    WrappedOrDeleted,
}

pub open spec fn spec_status_from_code(code: i16) -> Option<ObjectStatus> {
    if code == 0 {
        Some(ObjectStatus::Active)
    } else if code == 1 {
        Some(ObjectStatus::WrappedOrDeleted)
    } else {
        None
    }
}

impl ObjectStatus {
    /// Decode the stored status column: 0 is active, 1 is wrapped-or-deleted,
    /// anything else is unknown.
    pub fn try_from_code(code: i16) -> (r: Option<ObjectStatus>)
        ensures
            r == spec_status_from_code(code),
    {
        if code == 0 {
            Some(ObjectStatus::Active)
        } else if code == 1 {
            Some(ObjectStatus::WrappedOrDeleted)
        } else {
            None
        }
    }
}

/// A 32-byte identifier naming one entity.
#[derive(Debug, Clone, PartialEq, Eq)]
pub struct SuiAddress {
    pub bytes: Vec<u8>,
}

impl View for SuiAddress {
    type V = Seq<u8>;

    open spec fn view(&self) -> Seq<u8> {
        self.bytes@
    }
}

impl SuiAddress {
    /// A well-formed address holds exactly 32 bytes.
    pub open spec fn wf(&self) -> bool {
        self.bytes@.len() == 32
    }
}

/// Parse an identifier from its stored representation. Failure is a corrupt
/// row: the store should never hold an identifier of the wrong width.
pub fn addr(bytes: &Vec<u8>) -> (r: Result<SuiAddress, Error>)
    ensures
        bytes@.len() == 32 <==> r is Ok,
        r matches Ok(a) ==> a@ == bytes@ && a.wf(),
        r matches Err(e) ==> e == Error::BadAddress,
{
    if bytes.len() == 32 {
        Ok(SuiAddress { bytes: clone_bytes(bytes) })
    } else {
        Err(Error::BadAddress)
    }
}

fn clone_bytes(v: &Vec<u8>) -> (r: Vec<u8>)
    ensures
        r@ == v@,
{
    let mut r: Vec<u8> = Vec::new();
    let mut i: usize = 0;
    while i < v.len()
        invariant
            i <= v@.len(),
            r@ == v@.take(i as int),
        decreases v@.len() - i,
    {
        proof {
            assert(v@.take(i + 1) =~= v@.take(i as int).push(v@[i as int]));
        }
        r.push(v[i]);
        i = i + 1;
    }
    proof {
        assert(v@.take(v@.len() as int) =~= v@);
    }
    r
}

/// One row of the live table: the current state of one identifier.
#[derive(Debug, Clone, PartialEq, Eq)]
pub struct StoredObject {
    pub object_id: Vec<u8>,
    pub object_version: u64,
    pub serialized_object: Vec<u8>,
}

/// Ghost image of a live-table row.
pub ghost struct StoredObjectV {
    pub object_id: Seq<u8>,
    pub object_version: u64,
    pub serialized_object: Seq<u8>,
}

impl View for StoredObject {
    type V = StoredObjectV;

    open spec fn view(&self) -> StoredObjectV {
        StoredObjectV {
            object_id: self.object_id@,
            object_version: self.object_version,
            serialized_object: self.serialized_object@,
        }
    }
}

/// One row of the snapshot or history table: the state of one identifier at
/// one version, tagged with the sequence at which it became visible. A
/// wrapped-or-deleted row intentionally has no content.
#[derive(Debug, Clone, PartialEq, Eq)]
pub struct StoredHistoryObject {
    pub object_id: Vec<u8>,
    pub object_version: u64,
    pub object_status: i16,
    pub checkpoint_sequence_number: u64,
    pub serialized_object: Option<Vec<u8>>,
}

/// Ghost image of a snapshot or history row.
pub ghost struct StoredHistoryObjectV {
    pub object_id: Seq<u8>,
    pub object_version: u64,
    pub object_status: i16,
    pub checkpoint_sequence_number: u64,
    pub serialized_object: Option<Seq<u8>>,
}

impl View for StoredHistoryObject {
    type V = StoredHistoryObjectV;

    open spec fn view(&self) -> StoredHistoryObjectV {
        StoredHistoryObjectV {
            object_id: self.object_id@,
            object_version: self.object_version,
            object_status: self.object_status,
            checkpoint_sequence_number: self.checkpoint_sequence_number,
            serialized_object: match self.serialized_object {
                Some(v) => Some(v@),
                None => None,
            },
        }
    }
}

/// The retained part of a wrapped-or-deleted row: identifier, version,
/// status and sequence; content is not reconstructable.
#[derive(Debug, Clone, PartialEq, Eq)]
pub struct StoredDeletedHistoryObject {
    pub object_id: Vec<u8>,
    pub object_version: u64,
    pub object_status: i16,
    pub checkpoint_sequence_number: u64,
}

/// Ghost image of a deleted-row record.
pub ghost struct StoredDeletedHistoryObjectV {
    pub object_id: Seq<u8>,
    pub object_version: u64,
    pub object_status: i16,
    pub checkpoint_sequence_number: u64,
}

impl View for StoredDeletedHistoryObject {
    type V = StoredDeletedHistoryObjectV;

    open spec fn view(&self) -> StoredDeletedHistoryObjectV {
        StoredDeletedHistoryObjectV {
            object_id: self.object_id@,
            object_version: self.object_version,
            object_status: self.object_status,
            checkpoint_sequence_number: self.checkpoint_sequence_number,
        }
    }
}

/// The decodable part of an object's state: its version and its serialized
/// content. Decoding the content into a typed value is the business of the
/// layer above this library.
#[derive(Debug, Clone, PartialEq, Eq)]
pub struct NativeObject {
    pub version: u64,
    pub contents: Vec<u8>,
}

/// Ghost image of the decodable state.
pub ghost struct NativeObjectV {
    pub version: u64,
    pub contents: Seq<u8>,
}

impl View for NativeObject {
    type V = NativeObjectV;

    open spec fn view(&self) -> NativeObjectV {
        NativeObjectV { version: self.version, contents: self.contents@ }
    }
}

/// Where a resolved object's state came from, and what of it is known.
#[derive(Debug, Clone, PartialEq, Eq)]
pub enum ObjectKind {
    /// Loaded from serialized data, such as the contents of a transaction.
    NotIndexed(NativeObject),
    /// Fetched from the live objects table.
    Live(NativeObject, StoredObject),
    /// Fetched from the snapshot or history table.
    Historical(NativeObject, StoredHistoryObject),
    /// Wrapped or deleted: only partial information is on record.
    WrappedOrDeleted(StoredDeletedHistoryObject),
    /// The request falls outside the range the store can still answer for.
    /// The entity may or may not exist; its state there is not recorded.
    OutsideAvailableRange,
}

/// Ghost image of `ObjectKind`.
pub ghost enum ObjectKindV {
    NotIndexed(NativeObjectV),
    Live(NativeObjectV, StoredObjectV),
    Historical(NativeObjectV, StoredHistoryObjectV),
    WrappedOrDeleted(StoredDeletedHistoryObjectV),
    OutsideAvailableRange,
}

impl View for ObjectKind {
    type V = ObjectKindV;

    open spec fn view(&self) -> ObjectKindV {
        match self {
            ObjectKind::NotIndexed(n) => ObjectKindV::NotIndexed(n@),
            ObjectKind::Live(n, s) => ObjectKindV::Live(n@, s@),
            ObjectKind::Historical(n, s) => ObjectKindV::Historical(n@, s@),
            ObjectKind::WrappedOrDeleted(s) => ObjectKindV::WrappedOrDeleted(s@),
            ObjectKind::OutsideAvailableRange => ObjectKindV::OutsideAvailableRange,
        }
    }
}

/// A resolved object: its identifier and what is known of its state.
#[derive(Debug, Clone, PartialEq, Eq)]
pub struct Object {
    pub address: SuiAddress,
    pub kind: ObjectKind,
}

/// Ghost image of `Object`.
pub ghost struct ObjectV {
    pub address: Seq<u8>,
    pub kind: ObjectKindV,
}

impl View for Object {
    type V = ObjectV;

    open spec fn view(&self) -> ObjectV {
        ObjectV { address: self.address@, kind: self.kind@ }
    }
}

/// The kind of a resolved object, as reported to clients.
#[derive(Debug, Clone, Copy, PartialEq, Eq, Structural)]
pub enum GraphQLObjectKind {
    NotIndexed,
    Live,
    Historical,
    WrappedOrDeleted,
    OutsideAvailableRange,
}

pub open spec fn spec_kind_of(k: ObjectKindV) -> GraphQLObjectKind {
    match k {
        ObjectKindV::NotIndexed(_) => GraphQLObjectKind::NotIndexed,
        ObjectKindV::Live(_, _) => GraphQLObjectKind::Live,
        ObjectKindV::Historical(_, _) => GraphQLObjectKind::Historical,
        ObjectKindV::WrappedOrDeleted(_) => GraphQLObjectKind::WrappedOrDeleted,
        ObjectKindV::OutsideAvailableRange => GraphQLObjectKind::OutsideAvailableRange,
    }
}

impl GraphQLObjectKind {
    /// The reported kind of a resolved object's kind.
    pub fn from(kind: &ObjectKind) -> (r: GraphQLObjectKind)
        ensures
            r == spec_kind_of(kind@),
    {
        match kind {
            ObjectKind::NotIndexed(_) => GraphQLObjectKind::NotIndexed,
            ObjectKind::Live(_, _) => GraphQLObjectKind::Live,
            ObjectKind::Historical(_, _) => GraphQLObjectKind::Historical,
            ObjectKind::WrappedOrDeleted(_) => GraphQLObjectKind::WrappedOrDeleted,
            ObjectKind::OutsideAvailableRange => GraphQLObjectKind::OutsideAvailableRange,
        }
    }
}

/// What classifying a snapshot or history row yields: the object, or the way
/// in which the row is corrupt.
pub open spec fn spec_classify(row: StoredHistoryObjectV) -> Result<ObjectV, Error> {
    if row.object_id.len() != 32 {
        Err(Error::BadAddress)
    } else {
        match spec_status_from_code(row.object_status) {
            None => Err(Error::UnknownStatus),
            Some(ObjectStatus::Active) => match row.serialized_object {
                None => Err(Error::MissingContent),
                Some(bytes) => Ok(
                    ObjectV {
                        address: row.object_id,
                        kind: ObjectKindV::Historical(
                            NativeObjectV { version: row.object_version, contents: bytes },
                            row,
                        ),
                    },
                ),
            },
            Some(ObjectStatus::WrappedOrDeleted) => Ok(
                ObjectV {
                    address: row.object_id,
                    kind: ObjectKindV::WrappedOrDeleted(
                        StoredDeletedHistoryObjectV {
                            object_id: row.object_id,
                            object_version: row.object_version,
                            object_status: row.object_status,
                            checkpoint_sequence_number: row.checkpoint_sequence_number,
                        },
                    ),
                },
            ),
        }
    }
}

/// What classifying a live row yields.
pub open spec fn spec_classify_live(row: StoredObjectV) -> Result<ObjectV, Error> {
    if row.object_id.len() != 32 {
        Err(Error::BadAddress)
    } else {
        Ok(
            ObjectV {
                address: row.object_id,
                kind: ObjectKindV::Live(
                    NativeObjectV {
                        version: row.object_version,
                        contents: row.serialized_object,
                    },
                    row,
                ),
            },
        )
    }
}

impl Object {
    /// Construct an object from already-decoded state, without a stored
    /// counterpart.
    pub fn from_native(address: SuiAddress, native: NativeObject) -> (r: Object)
        ensures
            r@ == (ObjectV { address: address@, kind: ObjectKindV::NotIndexed(native@) }),
    {
        Object { address, kind: ObjectKind::NotIndexed(native) }
    }

    /// The decodable state, where the store has it: live, not-indexed and
    /// historical objects have it; wrapped-or-deleted and out-of-range
    /// answers do not.
    pub fn native_impl(&self) -> (r: Option<&NativeObject>)
        ensures
            match self.kind@ {
                ObjectKindV::Live(n, _) => r matches Some(x) && x@ == n,
                ObjectKindV::NotIndexed(n) => r matches Some(x) && x@ == n,
                ObjectKindV::Historical(n, _) => r matches Some(x) && x@ == n,
                ObjectKindV::WrappedOrDeleted(_) => r is None,
                ObjectKindV::OutsideAvailableRange => r is None,
            },
    {
        match &self.kind {
            ObjectKind::Live(native, _) => Some(native),
            ObjectKind::NotIndexed(native) => Some(native),
            ObjectKind::Historical(native, _) => Some(native),
            ObjectKind::WrappedOrDeleted(_) => None,
            ObjectKind::OutsideAvailableRange => None,
        }
    }

    pub open spec fn spec_version(&self) -> Option<u64> {
        match self.kind@ {
            ObjectKindV::Live(n, _) => Some(n.version),
            ObjectKindV::NotIndexed(n) => Some(n.version),
            ObjectKindV::Historical(n, _) => Some(n.version),
            ObjectKindV::WrappedOrDeleted(s) => Some(s.object_version),
            ObjectKindV::OutsideAvailableRange => None,
        }
    }

    /// The version of the resolved state; an out-of-range answer has none.
    pub fn version_impl(&self) -> (r: Option<u64>)
        ensures
            r == self.spec_version(),
    {
        match &self.kind {
            ObjectKind::Live(native, _) => Some(native.version),
            ObjectKind::NotIndexed(native) => Some(native.version),
            ObjectKind::Historical(native, _) => Some(native.version),
            ObjectKind::WrappedOrDeleted(stored) => Some(stored.object_version),
            ObjectKind::OutsideAvailableRange => None,
        }
    }

    /// The version of the resolved state.
    pub fn version(&self) -> (r: Option<u64>)
        ensures
            r == self.spec_version(),
    {
        self.version_impl()
    }

    /// The current status of the object as read from the store.
    pub fn status(&self) -> (r: GraphQLObjectKind)
        ensures
            r == spec_kind_of(self.kind@),
    {
        GraphQLObjectKind::from(&self.kind)
    }

    /// The identifier of the object, named as such to avoid a clash with the
    /// address type.
    pub fn address(&self) -> (r: SuiAddress)
        ensures
            r@ == self.address@,
    {
        SuiAddress { bytes: clone_bytes(&self.address.bytes) }
    }

    /// Classify one snapshot or history row: an active row must carry its
    /// content; a wrapped-or-deleted row keeps only its partial record.
    pub fn try_from(history_object: StoredHistoryObject) -> (r: Result<Object, Error>)
        ensures
            match spec_classify(history_object@) {
                Ok(o) => r matches Ok(obj) && obj@ == o,
                Err(e) => r matches Err(err) && err == e,
            },
    {
        let address = match addr(&history_object.object_id) {
            Ok(a) => a,
            Err(e) => {
                return Err(e);
            },
        };

        let object_status = match ObjectStatus::try_from_code(history_object.object_status) {
            Some(s) => s,
            None => {
                return Err(Error::UnknownStatus);
            },
        };

        match object_status {
            ObjectStatus::Active => match &history_object.serialized_object {
                None => Err(Error::MissingContent),
                Some(serialized_object) => {
                    let native_object = NativeObject {
                        version: history_object.object_version,
                        contents: clone_bytes(serialized_object),
                    };
                    Ok(Object { address, kind: ObjectKind::Historical(native_object, history_object) })
                },
            },
            ObjectStatus::WrappedOrDeleted => Ok(
                Object {
                    address,
                    kind: ObjectKind::WrappedOrDeleted(
                        StoredDeletedHistoryObject {
                            object_id: history_object.object_id,
                            object_version: history_object.object_version,
                            object_status: history_object.object_status,
                            checkpoint_sequence_number: history_object.checkpoint_sequence_number,
                        },
                    ),
                },
            ),
        }
    }

    /// Classify one live row.
    pub fn try_from_live(stored_object: StoredObject) -> (r: Result<Object, Error>)
        ensures
            match spec_classify_live(stored_object@) {
                Ok(o) => r matches Ok(obj) && obj@ == o,
                Err(e) => r matches Err(err) && err == e,
            },
    {
        let address = match addr(&stored_object.object_id) {
            Ok(a) => a,
            Err(e) => {
                return Err(e);
            },
        };
        let native_object = NativeObject {
            version: stored_object.object_version,
            contents: clone_bytes(&stored_object.serialized_object),
        };
        Ok(Object { address, kind: ObjectKind::Live(native_object, stored_object) })
    }
}

/// The three tables the resolver reads, plus the committed checkpoint
/// sequence numbers. The resolver never writes: ingestion and pruning are
/// outside collaborators.
#[derive(Debug, Clone, PartialEq, Eq)]
pub struct Db {
    pub objects: Vec<StoredObject>,
    pub objects_snapshot: Vec<StoredHistoryObject>,
    pub objects_history: Vec<StoredHistoryObject>,
    pub checkpoints: Vec<u64>,
}

/// Ghost image of the store.
pub ghost struct DbV {
    pub objects: Seq<StoredObjectV>,
    pub objects_snapshot: Seq<StoredHistoryObjectV>,
    pub objects_history: Seq<StoredHistoryObjectV>,
    pub checkpoints: Seq<u64>,
}

impl View for Db {
    type V = DbV;

    open spec fn view(&self) -> DbV {
        DbV {
            objects: self.objects@.map_values(|r: StoredObject| r@),
            objects_snapshot: self.objects_snapshot@.map_values(|r: StoredHistoryObject| r@),
            objects_history: self.objects_history@.map_values(|r: StoredHistoryObject| r@),
            checkpoints: self.checkpoints@,
        }
    }
}

/// The first live row naming the identifier; the live table holds at most
/// one per identifier, so the first is the row.
pub open spec fn spec_live_lookup(rows: Seq<StoredObjectV>, id: Seq<u8>) -> Option<StoredObjectV>
    decreases rows.len(),
{
    if rows.len() == 0 {
        None
    } else if rows.first().object_id == id {
        Some(rows.first())
    } else {
        spec_live_lookup(rows.drop_first(), id)
    }
}

/// The greatest committed sequence number, or 0 where none is committed.
pub open spec fn max_checkpoint(seqs: Seq<u64>) -> u64
    decreases seqs.len(),
{
    if seqs.len() == 0 {
        0
    } else {
        let m = max_checkpoint(seqs.drop_last());
        if seqs.last() >= m {
            seqs.last()
        } else {
            m
        }
    }
}

/// The window's upper bound: the caller's sequence, or the latest committed
/// sequence when the caller named none.
pub open spec fn spec_upper(db: DbV, checkpoint_sequence_number: Option<u64>) -> u64 {
    match checkpoint_sequence_number {
        Some(c) => c,
        None => max_checkpoint(db.checkpoints),
    }
}

/// The greatest snapshot sequence at or below `upper`, or 0 where none is.
pub open spec fn max_snapshot_seq_at_most(rows: Seq<StoredHistoryObjectV>, upper: u64) -> u64
    decreases rows.len(),
{
    if rows.len() == 0 {
        0
    } else {
        let m = max_snapshot_seq_at_most(rows.drop_last(), upper);
        let s = rows.last().checkpoint_sequence_number;
        if s <= upper && s >= m {
            s
        } else {
            m
        }
    }
}

/// The window's lower bound: the most recent snapshot sequence at or below
/// the upper bound.
pub open spec fn spec_lower(db: DbV, upper: u64) -> u64 {
    max_snapshot_seq_at_most(db.objects_snapshot, upper)
}

/// Whether a row names the identifier, and the version where one is asked.
pub open spec fn row_matches(row: StoredHistoryObjectV, id: Seq<u8>, version: Option<u64>) -> bool {
    row.object_id == id && (version matches Some(v) ==> row.object_version == v)
}

/// A snapshot row qualifies when it names the key and became visible at or
/// before the upper bound.
pub open spec fn snap_candidate(
    row: StoredHistoryObjectV,
    id: Seq<u8>,
    version: Option<u64>,
    upper: u64,
) -> bool {
    row_matches(row, id, version) && row.checkpoint_sequence_number <= upper
}

/// A history row qualifies when it names the key and lies inside the
/// consistency window.
pub open spec fn hist_candidate(
    row: StoredHistoryObjectV,
    id: Seq<u8>,
    version: Option<u64>,
    lower: u64,
    upper: u64,
) -> bool {
    row_matches(row, id, version) && lower <= row.checkpoint_sequence_number
        && row.checkpoint_sequence_number <= upper
}

pub open spec fn snap_filtered(
    rows: Seq<StoredHistoryObjectV>,
    id: Seq<u8>,
    version: Option<u64>,
    upper: u64,
) -> Seq<StoredHistoryObjectV> {
    rows.filter(|r: StoredHistoryObjectV| snap_candidate(r, id, version, upper))
}

pub open spec fn hist_filtered(
    rows: Seq<StoredHistoryObjectV>,
    id: Seq<u8>,
    version: Option<u64>,
    lower: u64,
    upper: u64,
) -> Seq<StoredHistoryObjectV> {
    rows.filter(|r: StoredHistoryObjectV| hist_candidate(r, id, version, lower, upper))
}

/// Every row that qualifies for the query, snapshot rows first: the multiset
/// union of the two tables' query results.
pub open spec fn candidate_rows(
    db: DbV,
    id: Seq<u8>,
    version: Option<u64>,
    lower: u64,
    upper: u64,
) -> Seq<StoredHistoryObjectV> {
    snap_filtered(db.objects_snapshot, id, version, upper) + hist_filtered(
        db.objects_history,
        id,
        version,
        lower,
        upper,
    )
}

/// Whether any snapshot or history row at all names the key, with no window
/// applied: the difference between never recorded and out of range.
pub open spec fn exists_row_for(db: DbV, id: Seq<u8>, version: Option<u64>) -> bool {
    (exists|i: int|
        0 <= i < db.objects_snapshot.len() && row_matches(db.objects_snapshot[i], id, version))
        || (exists|i: int|
        0 <= i < db.objects_history.len() && row_matches(db.objects_history[i], id, version))
}

/// The candidate with the greatest sequence; on an equal sequence the later
/// candidate wins, as a fold from the left keeps the last maximum.
pub open spec fn best_row(rows: Seq<StoredHistoryObjectV>) -> Option<StoredHistoryObjectV>
    decreases rows.len(),
{
    if rows.len() == 0 {
        None
    } else {
        match best_row(rows.drop_last()) {
            None => Some(rows.last()),
            Some(b) => if rows.last().checkpoint_sequence_number
                >= b.checkpoint_sequence_number {
                Some(rows.last())
            } else {
                Some(b)
            },
        }
    }
}

/// The outcome a query is specified to have.
pub ghost enum SpecResolution {
    /// No row anywhere names the key: the entity was never recorded.
    NotFound,
    /// Rows name the key, but none inside the answerable window.
    OutOfRange,
    /// The winning row's state.
    Found(ObjectV),
    /// The winning row is corrupt.
    Fail(Error),
}

/// What a historical query returns: the best candidate inside the window,
/// classified; or out-of-range / not-found when there is none.
pub open spec fn spec_historical_query(
    db: DbV,
    id: Seq<u8>,
    version: Option<u64>,
    checkpoint_sequence_number: Option<u64>,
) -> SpecResolution {
    let upper = spec_upper(db, checkpoint_sequence_number);
    let lower = spec_lower(db, upper);
    match best_row(candidate_rows(db, id, version, lower, upper)) {
        Some(w) => match spec_classify(w) {
            Ok(o) => SpecResolution::Found(o),
            Err(e) => SpecResolution::Fail(e),
        },
        None => if exists_row_for(db, id, version) {
            SpecResolution::OutOfRange
        } else {
            SpecResolution::NotFound
        },
    }
}

/// What a live lookup returns.
pub open spec fn spec_live_query(db: DbV, id: Seq<u8>) -> SpecResolution {
    match spec_live_lookup(db.objects, id) {
        None => SpecResolution::NotFound,
        Some(row) => match spec_classify_live(row) {
            Ok(o) => SpecResolution::Found(o),
            Err(e) => SpecResolution::Fail(e),
        },
    }
}

/// What a query returns: a live lookup when no bound was given, else a
/// historical query. Identical inputs against an unchanged store give
/// identical results, since this is a function of both.
pub open spec fn spec_query(
    db: DbV,
    id: Seq<u8>,
    version: Option<u64>,
    checkpoint_sequence_number: Option<u64>,
) -> SpecResolution {
    if version is None && checkpoint_sequence_number is None {
        spec_live_query(db, id)
    } else {
        spec_historical_query(db, id, version, checkpoint_sequence_number)
    }
}

/// How an executable result encodes a specified outcome: `Ok(None)` is
/// not-found, an out-of-range marker carries the queried identifier, a found
/// object is returned whole, and a corrupt row surfaces its error.
pub open spec fn resolution_matches(
    r: Result<Option<Object>, Error>,
    id: Seq<u8>,
    s: SpecResolution,
) -> bool {
    match s {
        SpecResolution::NotFound => r matches Ok(o) && o is None,
        SpecResolution::OutOfRange => r matches Ok(o) && o matches Some(obj) && obj@ == (ObjectV {
            address: id,
            kind: ObjectKindV::OutsideAvailableRange,
        }),
        SpecResolution::Found(ov) => r matches Ok(o) && o matches Some(obj) && obj@ == ov,
        SpecResolution::Fail(e) => r matches Err(err) && err == e,
    }
}

fn eq_bytes(a: &Vec<u8>, b: &Vec<u8>) -> (r: bool)
    ensures
        r == (a@ == b@),
{
    if a.len() != b.len() {
        proof {
            assert(a@ != b@);
        }
        return false;
    }
    let mut i: usize = 0;
    while i < a.len()
        invariant
            i <= a@.len(),
            a@.len() == b@.len(),
            forall|j: int| 0 <= j < i ==> a@[j] == b@[j],
        decreases a@.len() - i,
    {
        if a[i] != b[i] {
            proof {
                assert(a@ != b@);
            }
            return false;
        }
        i = i + 1;
    }
    proof {
        assert(a@ =~= b@);
    }
    true
}

fn clone_history_row(r: &StoredHistoryObject) -> (c: StoredHistoryObject)
    ensures
        c@ == r@,
{
    StoredHistoryObject {
        object_id: clone_bytes(&r.object_id),
        object_version: r.object_version,
        object_status: r.object_status,
        checkpoint_sequence_number: r.checkpoint_sequence_number,
        serialized_object: match &r.serialized_object {
            Some(v) => Some(clone_bytes(v)),
            None => None,
        },
    }
}

fn clone_stored_object(r: &StoredObject) -> (c: StoredObject)
    ensures
        c@ == r@,
{
    StoredObject {
        object_id: clone_bytes(&r.object_id),
        object_version: r.object_version,
        serialized_object: clone_bytes(&r.serialized_object),
    }
}

/// Whether a stored row names the queried key.
fn row_matches_exec(
    row: &StoredHistoryObject,
    address: &SuiAddress,
    version: Option<u64>,
) -> (r: bool)
    ensures
        r == row_matches(row@, address@, version),
{
    eq_bytes(&row.object_id, &address.bytes) && (match version {
        Some(v) => row.object_version == v,
        None => true,
    })
}

/// The latest committed sequence number, 0 when none is committed.
fn latest_checkpoint(db: &Db) -> (r: u64)
    ensures
        r == max_checkpoint(db@.checkpoints),
{
    let mut m: u64 = 0;
    let mut i: usize = 0;
    while i < db.checkpoints.len()
        invariant
            i <= db@.checkpoints.len(),
            m == max_checkpoint(db@.checkpoints.take(i as int)),
        decreases db@.checkpoints.len() - i,
    {
        proof {
            assert(db@.checkpoints.take(i + 1).drop_last() =~= db@.checkpoints.take(i as int));
            assert(db@.checkpoints.take(i + 1).last() == db@.checkpoints[i as int]);
        }
        let c = db.checkpoints[i];
        if c >= m {
            m = c;
        }
        i = i + 1;
    }
    proof {
        assert(db@.checkpoints.take(db@.checkpoints.len() as int) =~= db@.checkpoints);
    }
    m
}

/// The latest snapshot sequence at or below `upper`, 0 when there is none.
fn latest_snapshot_seq_at_most(db: &Db, upper: u64) -> (r: u64)
    ensures
        r == max_snapshot_seq_at_most(db@.objects_snapshot, upper),
{
    let mut m: u64 = 0;
    let mut i: usize = 0;
    while i < db.objects_snapshot.len()
        invariant
            i <= db@.objects_snapshot.len(),
            m == max_snapshot_seq_at_most(db@.objects_snapshot.take(i as int), upper),
        decreases db@.objects_snapshot.len() - i,
    {
        proof {
            assert(db@.objects_snapshot.take(i + 1).drop_last() =~= db@.objects_snapshot.take(
                i as int,
            ));
            assert(db@.objects_snapshot.take(i + 1).last() == db@.objects_snapshot[i as int]);
        }
        let s = db.objects_snapshot[i].checkpoint_sequence_number;
        if s <= upper && s >= m {
            m = s;
        }
        i = i + 1;
    }
    proof {
        assert(db@.objects_snapshot.take(db@.objects_snapshot.len() as int)
            =~= db@.objects_snapshot);
    }
    m
}

impl Object {
    /// Direct live-table lookup: the current state of the identifier, absent
    /// when the identifier has no live row.
    pub fn live_object_query(db: &Db, address: &SuiAddress) -> (r: Result<Option<Object>, Error>)
        ensures
            resolution_matches(r, address@, spec_live_query(db@, address@)),
    {
        let ghost rows = db@.objects;
        proof {
            assert(rows.skip(0) =~= rows);
        }
        let mut i: usize = 0;
        while i < db.objects.len()
            invariant
                i <= rows.len(),
                rows == db@.objects,
                rows.len() == db.objects@.len(),
                spec_live_lookup(rows, address@) == spec_live_lookup(
                    rows.skip(i as int),
                    address@,
                ),
                forall|j: int| 0 <= j < i ==> rows[j].object_id != address@,
            decreases rows.len() - i,
        {
            proof {
                assert(rows.skip(i as int).first() == rows[i as int]);
                assert(rows.skip(i as int).drop_first() =~= rows.skip(i + 1));
            }
            if eq_bytes(&db.objects[i].object_id, &address.bytes) {
                let row = clone_stored_object(&db.objects[i]);
                assert(spec_live_lookup(rows, address@) == Some(rows[i as int]));
                return match Object::try_from_live(row) {
                    Ok(obj) => Ok(Some(obj)),
                    Err(e) => Err(e),
                };
            }
            i = i + 1;
        }
        proof {
            assert(rows.skip(rows.len() as int) =~= Seq::<StoredObjectV>::empty());
        }
        Ok(None)
    }
}

/// Unfolding step for a snapshot-filter prefix.
proof fn lemma_snap_filtered_push(
    rows: Seq<StoredHistoryObjectV>,
    x: StoredHistoryObjectV,
    id: Seq<u8>,
    version: Option<u64>,
    upper: u64,
)
    ensures
        snap_filtered(rows.push(x), id, version, upper) == (if snap_candidate(
            x,
            id,
            version,
            upper,
        ) {
            snap_filtered(rows, id, version, upper).push(x)
        } else {
            snap_filtered(rows, id, version, upper)
        }),
{
    reveal(Seq::filter);
    assert(rows.push(x).drop_last() =~= rows);
    assert(rows.push(x).last() == x);
}

/// Unfolding step for a history-filter prefix.
proof fn lemma_hist_filtered_push(
    rows: Seq<StoredHistoryObjectV>,
    x: StoredHistoryObjectV,
    id: Seq<u8>,
    version: Option<u64>,
    lower: u64,
    upper: u64,
)
    ensures
        hist_filtered(rows.push(x), id, version, lower, upper) == (if hist_candidate(
            x,
            id,
            version,
            lower,
            upper,
        ) {
            hist_filtered(rows, id, version, lower, upper).push(x)
        } else {
            hist_filtered(rows, id, version, lower, upper)
        }),
{
    reveal(Seq::filter);
    assert(rows.push(x).drop_last() =~= rows);
    assert(rows.push(x).last() == x);
}

/// Unfolding step for the fold that keeps the best candidate.
proof fn lemma_best_row_push(rows: Seq<StoredHistoryObjectV>, x: StoredHistoryObjectV)
    ensures
        best_row(rows.push(x)) == (match best_row(rows) {
            None => Some(x),
            Some(b) => if x.checkpoint_sequence_number >= b.checkpoint_sequence_number {
                Some(x)
            } else {
                Some(b)
            },
        }),
{
    assert(rows.push(x).drop_last() =~= rows);
    assert(rows.push(x).last() == x);
}

impl Object {
    /// Historical lookup. The consistency window's upper bound is the
    /// caller's sequence, or the latest committed sequence; its lower bound
    /// is the most recent snapshot sequence at or below the upper bound.
    /// Snapshot rows for the key at or before the upper bound and history
    /// rows for the key inside the window form the candidate union; the
    /// candidate with the greatest sequence, classified, is the answer. An
    /// empty union distinguishes a key with no rows anywhere (never
    /// recorded) from one whose rows all fall outside the window.
    pub fn historical_object_query(
        db: &Db,
        address: &SuiAddress,
        version: Option<u64>,
        checkpoint_sequence_number: Option<u64>,
    ) -> (r: Result<Option<Object>, Error>)
        ensures
            resolution_matches(
                r,
                address@,
                spec_historical_query(db@, address@, version, checkpoint_sequence_number),
            ),
    {
        let ghost id = address@;
        let ghost snap = db@.objects_snapshot;
        let ghost hist = db@.objects_history;

        let upper = match checkpoint_sequence_number {
            Some(c) => c,
            None => latest_checkpoint(db),
        };
        let lower = latest_snapshot_seq_at_most(db, upper);
        proof {
            assert(upper == spec_upper(db@, checkpoint_sequence_number));
            assert(lower == spec_lower(db@, upper));
        }

        let mut has_best: bool = false;
        let mut best_is_hist: bool = false;
        let mut best_idx: usize = 0;
        let mut best_seq: u64 = 0;
        let mut found_any: bool = false;

        let mut i: usize = 0;
        while i < db.objects_snapshot.len()
            invariant
                i <= snap.len(),
                id == address@,
                snap == db@.objects_snapshot,
                snap.len() == db.objects_snapshot@.len(),
                found_any == exists|j: int| 0 <= j < i && row_matches(snap[j], id, version),
                ({
                    let cands = snap_filtered(snap.take(i as int), id, version, upper);
                    match best_row(cands) {
                        None => !has_best,
                        Some(b) => has_best && !best_is_hist && best_idx < snap.len()
                            && snap[best_idx as int] == b && best_seq
                            == b.checkpoint_sequence_number,
                    }
                }),
            decreases snap.len() - i,
        {
            proof {
                assert(snap.take(i + 1) =~= snap.take(i as int).push(snap[i as int]));
                lemma_snap_filtered_push(snap.take(i as int), snap[i as int], id, version, upper);
                lemma_best_row_push(
                    snap_filtered(snap.take(i as int), id, version, upper),
                    snap[i as int],
                );
            }
            let row = &db.objects_snapshot[i];
            proof {
                assert(snap[i as int] == row@);
            }
            let ghost old_found_any = found_any;
            let m = row_matches_exec(row, address, version);
            if m {
                found_any = true;
                if row.checkpoint_sequence_number <= upper {
                    if !has_best || row.checkpoint_sequence_number >= best_seq {
                        has_best = true;
                        best_is_hist = false;
                        best_idx = i;
                        best_seq = row.checkpoint_sequence_number;
                    }
                }
            }
            proof {
                if m {
                    assert(row_matches(snap[i as int], id, version));
                    assert(exists|j: int| 0 <= j < i + 1 && row_matches(snap[j], id, version));
                } else if exists|j: int| 0 <= j < i + 1 && row_matches(snap[j], id, version) {
                    let j = choose|j: int| 0 <= j < i + 1 && row_matches(snap[j], id, version);
                    assert(j < i);
                    assert(old_found_any);
                }
            }
            i = i + 1;
        }
        proof {
            assert(snap.take(snap.len() as int) =~= snap);
        }

        let ghost snap_cands = snap_filtered(snap, id, version, upper);
        let ghost found_in_snap = exists|j: int| 0 <= j < snap.len() && row_matches(
            snap[j],
            id,
            version,
        );

        let mut k: usize = 0;
        while k < db.objects_history.len()
            invariant
                k <= hist.len(),
                id == address@,
                hist == db@.objects_history,
                hist.len() == db.objects_history@.len(),
                snap == db@.objects_snapshot,
                snap_cands == snap_filtered(snap, id, version, upper),
                found_in_snap == exists|j: int| 0 <= j < snap.len() && row_matches(
                    snap[j],
                    id,
                    version,
                ),
                found_any == (found_in_snap || exists|j: int| 0 <= j < k && row_matches(
                    hist[j],
                    id,
                    version,
                )),
                ({
                    let cands = snap_cands + hist_filtered(
                        hist.take(k as int),
                        id,
                        version,
                        lower,
                        upper,
                    );
                    match best_row(cands) {
                        None => !has_best,
                        Some(b) => has_best && best_seq == b.checkpoint_sequence_number && (
                        if best_is_hist {
                            best_idx < hist.len() && hist[best_idx as int] == b
                        } else {
                            best_idx < snap.len() && snap[best_idx as int] == b
                        }),
                    }
                }),
            decreases hist.len() - k,
        {
            proof {
                assert(hist.take(k + 1) =~= hist.take(k as int).push(hist[k as int]));
                lemma_hist_filtered_push(
                    hist.take(k as int),
                    hist[k as int],
                    id,
                    version,
                    lower,
                    upper,
                );
                assert(snap_cands + hist_filtered(hist.take(k as int), id, version, lower, upper).push(
                    hist[k as int],
                ) =~= (snap_cands + hist_filtered(hist.take(k as int), id, version, lower, upper)).push(
                    hist[k as int],
                ));
                lemma_best_row_push(
                    snap_cands + hist_filtered(hist.take(k as int), id, version, lower, upper),
                    hist[k as int],
                );
            }
            let row = &db.objects_history[k];
            proof {
                assert(hist[k as int] == row@);
            }
            let ghost old_found_any = found_any;
            let m = row_matches_exec(row, address, version);
            if m {
                found_any = true;
                if lower <= row.checkpoint_sequence_number && row.checkpoint_sequence_number
                    <= upper {
                    if !has_best || row.checkpoint_sequence_number >= best_seq {
                        has_best = true;
                        best_is_hist = true;
                        best_idx = k;
                        best_seq = row.checkpoint_sequence_number;
                    }
                }
            }
            proof {
                if m {
                    assert(row_matches(hist[k as int], id, version));
                    assert(exists|j: int| 0 <= j < k + 1 && row_matches(hist[j], id, version));
                } else if exists|j: int| 0 <= j < k + 1 && row_matches(hist[j], id, version) {
                    let j = choose|j: int| 0 <= j < k + 1 && row_matches(hist[j], id, version);
                    assert(j < k);
                    assert(old_found_any);
                }
            }
            k = k + 1;
        }
        proof {
            assert(hist.take(hist.len() as int) =~= hist);
            assert(found_any == exists_row_for(db@, id, version));
        }

        if has_best {
            let row = if best_is_hist {
                clone_history_row(&db.objects_history[best_idx])
            } else {
                clone_history_row(&db.objects_snapshot[best_idx])
            };
            match Object::try_from(row) {
                Ok(obj) => Ok(Some(obj)),
                Err(e) => Err(e),
            }
        } else if found_any {
            Ok(
                Some(
                    Object {
                        address: SuiAddress { bytes: clone_bytes(&address.bytes) },
                        kind: ObjectKind::OutsideAvailableRange,
                    },
                ),
            )
        } else {
            Ok(None)
        }
    }

    /// Resolve an identifier: a plain live lookup when neither a version nor
    /// a sequence bound is given, else a historical query.
    pub fn query(
        db: &Db,
        address: SuiAddress,
        version: Option<u64>,
        checkpoint_sequence_number: Option<u64>,
    ) -> (r: Result<Option<Object>, Error>)
        ensures
            resolution_matches(
                r,
                address@,
                spec_query(db@, address@, version, checkpoint_sequence_number),
            ),
    {
        if version.is_none() && checkpoint_sequence_number.is_none() {
            Object::live_object_query(db, &address)
        } else {
            Object::historical_object_query(db, &address, version, checkpoint_sequence_number)
        }
    }
}


/// Every element the snapshot filter keeps qualifies and comes from the
/// rows, and every qualifying row is kept.
proof fn lemma_snap_filtered_props(
    rows: Seq<StoredHistoryObjectV>,
    id: Seq<u8>,
    version: Option<u64>,
    upper: u64,
)
    ensures
        forall|j: int|
            0 <= j < snap_filtered(rows, id, version, upper).len() ==> snap_candidate(
                #[trigger] snap_filtered(rows, id, version, upper)[j],
                id,
                version,
                upper,
            ) && rows.contains(snap_filtered(rows, id, version, upper)[j]),
        forall|i: int|
            0 <= i < rows.len() && snap_candidate(#[trigger] rows[i], id, version, upper)
                ==> snap_filtered(rows, id, version, upper).contains(rows[i]),
    decreases rows.len(),
{
    if rows.len() > 0 {
        let dl = rows.drop_last();
        lemma_snap_filtered_props(dl, id, version, upper);
        assert(dl.push(rows.last()) =~= rows);
        lemma_snap_filtered_push(dl, rows.last(), id, version, upper);
        let f = snap_filtered(rows, id, version, upper);
        let fp = snap_filtered(dl, id, version, upper);
        assert forall|j: int|
            0 <= j < f.len() implies snap_candidate(#[trigger] f[j], id, version, upper)
            && rows.contains(f[j]) by {
            if j < fp.len() {
                assert(f[j] == fp[j]);
                let w = choose|w: int| 0 <= w < dl.len() && dl[w] == fp[j];
                assert(rows[w] == fp[j]);
            } else {
                assert(f[j] == rows.last());
                assert(rows[rows.len() - 1] == rows.last());
            }
        }
        assert forall|i: int|
            0 <= i < rows.len() && snap_candidate(#[trigger] rows[i], id, version, upper) implies f.contains(
            rows[i],
        ) by {
            if i < rows.len() - 1 {
                assert(dl[i] == rows[i]);
                let w = choose|w: int| 0 <= w < fp.len() && fp[w] == rows[i];
                assert(f[w] == rows[i]);
            } else {
                assert(snap_candidate(rows.last(), id, version, upper));
                assert(f.last() == rows[i]);
            }
        }
    }
}

/// Every element the history filter keeps qualifies and comes from the rows,
/// and every qualifying row is kept.
proof fn lemma_hist_filtered_props(
    rows: Seq<StoredHistoryObjectV>,
    id: Seq<u8>,
    version: Option<u64>,
    lower: u64,
    upper: u64,
)
    ensures
        forall|j: int|
            0 <= j < hist_filtered(rows, id, version, lower, upper).len() ==> hist_candidate(
                #[trigger] hist_filtered(rows, id, version, lower, upper)[j],
                id,
                version,
                lower,
                upper,
            ) && rows.contains(hist_filtered(rows, id, version, lower, upper)[j]),
        forall|i: int|
            0 <= i < rows.len() && hist_candidate(#[trigger] rows[i], id, version, lower, upper)
                ==> hist_filtered(rows, id, version, lower, upper).contains(rows[i]),
    decreases rows.len(),
{
    if rows.len() > 0 {
        let dl = rows.drop_last();
        lemma_hist_filtered_props(dl, id, version, lower, upper);
        assert(dl.push(rows.last()) =~= rows);
        lemma_hist_filtered_push(dl, rows.last(), id, version, lower, upper);
        let f = hist_filtered(rows, id, version, lower, upper);
        let fp = hist_filtered(dl, id, version, lower, upper);
        assert forall|j: int|
            0 <= j < f.len() implies hist_candidate(#[trigger] f[j], id, version, lower, upper)
            && rows.contains(f[j]) by {
            if j < fp.len() {
                assert(f[j] == fp[j]);
                let w = choose|w: int| 0 <= w < dl.len() && dl[w] == fp[j];
                assert(rows[w] == fp[j]);
            } else {
                assert(f[j] == rows.last());
                assert(rows[rows.len() - 1] == rows.last());
            }
        }
        assert forall|i: int|
            0 <= i < rows.len() && hist_candidate(#[trigger] rows[i], id, version, lower, upper) implies f.contains(
            rows[i],
        ) by {
            if i < rows.len() - 1 {
                assert(dl[i] == rows[i]);
                let w = choose|w: int| 0 <= w < fp.len() && fp[w] == rows[i];
                assert(f[w] == rows[i]);
            } else {
                assert(hist_candidate(rows.last(), id, version, lower, upper));
                assert(f.last() == rows[i]);
            }
        }
    }
}

/// The best candidate exists exactly when there are candidates; it is one of
/// them, and no candidate has a greater sequence.
proof fn lemma_best_row_props(rows: Seq<StoredHistoryObjectV>)
    ensures
        rows.len() == 0 <==> best_row(rows) is None,
        best_row(rows) matches Some(b) ==> rows.contains(b) && forall|i: int|
            0 <= i < rows.len()
                ==> #[trigger] rows[i].checkpoint_sequence_number <= b.checkpoint_sequence_number,
    decreases rows.len(),
{
    if rows.len() > 0 {
        let dl = rows.drop_last();
        lemma_best_row_props(dl);
        let b = best_row(rows)->Some_0;
        if dl.len() == 0 {
            assert(b == rows.last());
            assert(rows[rows.len() - 1] == b);
        } else {
            let bp = best_row(dl)->Some_0;
            if rows.last().checkpoint_sequence_number >= bp.checkpoint_sequence_number {
                assert(b == rows.last());
                assert(rows[rows.len() - 1] == b);
                assert forall|i: int|
                    0 <= i < rows.len() implies #[trigger] rows[i].checkpoint_sequence_number
                    <= b.checkpoint_sequence_number by {
                    if i < rows.len() - 1 {
                        assert(dl[i] == rows[i]);
                    }
                }
            } else {
                assert(b == bp);
                let w = choose|w: int| 0 <= w < dl.len() && dl[w] == bp;
                assert(rows[w] == bp);
                assert forall|i: int|
                    0 <= i < rows.len() implies #[trigger] rows[i].checkpoint_sequence_number
                    <= b.checkpoint_sequence_number by {
                    if i < rows.len() - 1 {
                        assert(dl[i] == rows[i]);
                    }
                }
            }
        }
    }
}

/// A member of the candidate union names the key, lies at or below the upper
/// bound, and is one of the stored snapshot or history rows.
proof fn lemma_candidate_member(
    db: DbV,
    id: Seq<u8>,
    version: Option<u64>,
    lower: u64,
    upper: u64,
    w: StoredHistoryObjectV,
)
    requires
        candidate_rows(db, id, version, lower, upper).contains(w),
    ensures
        row_matches(w, id, version),
        w.checkpoint_sequence_number <= upper,
        db.objects_snapshot.contains(w) || db.objects_history.contains(w),
{
    lemma_snap_filtered_props(db.objects_snapshot, id, version, upper);
    lemma_hist_filtered_props(db.objects_history, id, version, lower, upper);
    let sf = snap_filtered(db.objects_snapshot, id, version, upper);
    let hf = hist_filtered(db.objects_history, id, version, lower, upper);
    let c = candidate_rows(db, id, version, lower, upper);
    let j = choose|j: int| 0 <= j < c.len() && c[j] == w;
    if j < sf.len() {
        assert(sf[j] == w);
    } else {
        assert(hf[j - sf.len()] == w);
    }
}

/// A qualifying snapshot row is among the candidates.
proof fn lemma_snap_candidate_in(
    db: DbV,
    id: Seq<u8>,
    version: Option<u64>,
    lower: u64,
    upper: u64,
    i: int,
)
    requires
        0 <= i < db.objects_snapshot.len(),
        snap_candidate(db.objects_snapshot[i], id, version, upper),
    ensures
        candidate_rows(db, id, version, lower, upper).contains(db.objects_snapshot[i]),
{
    lemma_snap_filtered_props(db.objects_snapshot, id, version, upper);
    let sf = snap_filtered(db.objects_snapshot, id, version, upper);
    let c = candidate_rows(db, id, version, lower, upper);
    let w = choose|w: int| 0 <= w < sf.len() && sf[w] == db.objects_snapshot[i];
    assert(c[w] == db.objects_snapshot[i]);
}

/// A qualifying history row is among the candidates.
proof fn lemma_hist_candidate_in(
    db: DbV,
    id: Seq<u8>,
    version: Option<u64>,
    lower: u64,
    upper: u64,
    i: int,
)
    requires
        0 <= i < db.objects_history.len(),
        hist_candidate(db.objects_history[i], id, version, lower, upper),
    ensures
        candidate_rows(db, id, version, lower, upper).contains(db.objects_history[i]),
{
    lemma_hist_filtered_props(db.objects_history, id, version, lower, upper);
    let sf = snap_filtered(db.objects_snapshot, id, version, upper);
    let hf = hist_filtered(db.objects_history, id, version, lower, upper);
    let c = candidate_rows(db, id, version, lower, upper);
    let w = choose|w: int| 0 <= w < hf.len() && hf[w] == db.objects_history[i];
    assert(c[sf.len() + w] == db.objects_history[i]);
}

/// The snapshot filter keeps nothing when no row qualifies.
proof fn lemma_snap_filtered_empty(
    rows: Seq<StoredHistoryObjectV>,
    id: Seq<u8>,
    version: Option<u64>,
    upper: u64,
)
    requires
        forall|i: int| 0 <= i < rows.len() ==> !snap_candidate(#[trigger] rows[i], id, version, upper),
    ensures
        snap_filtered(rows, id, version, upper).len() == 0,
{
    lemma_snap_filtered_props(rows, id, version, upper);
    let f = snap_filtered(rows, id, version, upper);
    if f.len() > 0 {
        let w = choose|w: int| 0 <= w < rows.len() && rows[w] == f[0];
        assert(snap_candidate(rows[w], id, version, upper));
    }
}

/// The history filter keeps nothing when no row qualifies.
proof fn lemma_hist_filtered_empty(
    rows: Seq<StoredHistoryObjectV>,
    id: Seq<u8>,
    version: Option<u64>,
    lower: u64,
    upper: u64,
)
    requires
        forall|i: int|
            0 <= i < rows.len() ==> !hist_candidate(#[trigger] rows[i], id, version, lower, upper),
    ensures
        hist_filtered(rows, id, version, lower, upper).len() == 0,
{
    lemma_hist_filtered_props(rows, id, version, lower, upper);
    let f = hist_filtered(rows, id, version, lower, upper);
    if f.len() > 0 {
        let w = choose|w: int| 0 <= w < rows.len() && rows[w] == f[0];
        assert(hist_candidate(rows[w], id, version, lower, upper));
    }
}

/// A live table with no row for the identifier answers nothing.
proof fn lemma_live_lookup_none(rows: Seq<StoredObjectV>, id: Seq<u8>)
    requires
        forall|i: int| 0 <= i < rows.len() ==> (#[trigger] rows[i]).object_id != id,
    ensures
        spec_live_lookup(rows, id) is None,
    decreases rows.len(),
{
    if rows.len() > 0 {
        let df = rows.drop_first();
        assert(forall|i: int| 0 <= i < df.len() ==> #[trigger] df[i] == rows[i + 1]);
        lemma_live_lookup_none(df, id);
    }
}

/// Rows that share an identifier and a version agree on everything: the
/// tables may duplicate a row across tiers near a snapshot boundary, but
/// never contradict themselves, since a version is written once.
pub open spec fn version_consistent(db: DbV) -> bool {
    forall|i: int, j: int|
        0 <= i < (db.objects_snapshot + db.objects_history).len() && 0 <= j < (db.objects_snapshot
            + db.objects_history).len() && (#[trigger] (db.objects_snapshot
            + db.objects_history)[i]).object_id == (#[trigger] (db.objects_snapshot
            + db.objects_history)[j]).object_id && (db.objects_snapshot
            + db.objects_history)[i].object_version == (db.objects_snapshot
            + db.objects_history)[j].object_version ==> (db.objects_snapshot
            + db.objects_history)[i] == (db.objects_snapshot + db.objects_history)[j]
}

/// The ghost image of a query's result.
pub open spec fn result_view(r: Result<Option<Object>, Error>) -> Result<Option<ObjectV>, Error> {
    match r {
        Ok(Some(obj)) => Ok(Some(obj@)),
        Ok(None) => Ok(None),
        Err(e) => Err(e),
    }
}

/// Two calls with identical parameters against an unchanged store answer
/// identically: the answer is a function of the tables and the arguments
/// alone, so a query is idempotent.
pub proof fn lemma_query_deterministic(
    db: DbV,
    id: Seq<u8>,
    version: Option<u64>,
    checkpoint_sequence_number: Option<u64>,
    r1: Result<Option<Object>, Error>,
    r2: Result<Option<Object>, Error>,
)
    requires
        resolution_matches(r1, id, spec_query(db, id, version, checkpoint_sequence_number)),
        resolution_matches(r2, id, spec_query(db, id, version, checkpoint_sequence_number)),
    ensures
        result_view(r1) == result_view(r2),
{
}

/// An identifier with no row in any table resolves to not-found, whatever
/// version and sequence bounds the caller supplies.
pub proof fn lemma_never_written_not_found(
    db: DbV,
    id: Seq<u8>,
    version: Option<u64>,
    checkpoint_sequence_number: Option<u64>,
)
    requires
        forall|i: int| 0 <= i < db.objects.len() ==> (#[trigger] db.objects[i]).object_id != id,
        forall|i: int|
            0 <= i < db.objects_snapshot.len() ==> (#[trigger] db.objects_snapshot[i]).object_id
                != id,
        forall|i: int|
            0 <= i < db.objects_history.len() ==> (#[trigger] db.objects_history[i]).object_id
                != id,
    ensures
        spec_query(db, id, version, checkpoint_sequence_number) is NotFound,
{
    lemma_live_lookup_none(db.objects, id);
    let upper = spec_upper(db, checkpoint_sequence_number);
    let lower = spec_lower(db, upper);
    assert forall|i: int|
        0 <= i < db.objects_snapshot.len() implies !snap_candidate(
        #[trigger] db.objects_snapshot[i],
        id,
        version,
        upper,
    ) by {}
    assert forall|i: int|
        0 <= i < db.objects_history.len() implies !hist_candidate(
        #[trigger] db.objects_history[i],
        id,
        version,
        lower,
        upper,
    ) by {}
    lemma_snap_filtered_empty(db.objects_snapshot, id, version, upper);
    lemma_hist_filtered_empty(db.objects_history, id, version, lower, upper);
    lemma_best_row_props(candidate_rows(db, id, version, lower, upper));
    assert(!exists_row_for(db, id, version));
}

/// A key recorded only below the window's lower bound, with no covering
/// snapshot row, resolves to out-of-range: the key existed, but the point
/// asked for is no longer answerable.
pub proof fn lemma_pruned_history_out_of_range(
    db: DbV,
    id: Seq<u8>,
    version: u64,
    checkpoint_sequence_number: u64,
)
    requires
        exists|i: int|
            0 <= i < db.objects_history.len() && row_matches(
                #[trigger] db.objects_history[i],
                id,
                Some(version),
            ),
        forall|i: int|
            0 <= i < db.objects_history.len() && row_matches(
                #[trigger] db.objects_history[i],
                id,
                Some(version),
            ) ==> db.objects_history[i].checkpoint_sequence_number < spec_lower(
                db,
                checkpoint_sequence_number,
            ),
        forall|i: int|
            0 <= i < db.objects_snapshot.len() ==> !row_matches(
                #[trigger] db.objects_snapshot[i],
                id,
                Some(version),
            ),
    ensures
        spec_query(db, id, Some(version), Some(checkpoint_sequence_number)) is OutOfRange,
{
    let upper = spec_upper(db, Some(checkpoint_sequence_number));
    let lower = spec_lower(db, upper);
    assert forall|i: int|
        0 <= i < db.objects_snapshot.len() implies !snap_candidate(
        #[trigger] db.objects_snapshot[i],
        id,
        Some(version),
        upper,
    ) by {}
    assert forall|i: int|
        0 <= i < db.objects_history.len() implies !hist_candidate(
        #[trigger] db.objects_history[i],
        id,
        Some(version),
        lower,
        upper,
    ) by {}
    lemma_snap_filtered_empty(db.objects_snapshot, id, Some(version), upper);
    lemma_hist_filtered_empty(db.objects_history, id, Some(version), lower, upper);
    lemma_best_row_props(candidate_rows(db, id, Some(version), lower, upper));
    assert(exists_row_for(db, id, Some(version)));
}

/// A key present in a well-formed snapshot row at or below the requested
/// sequence resolves to found, with exactly that row's state.
pub proof fn lemma_snapshot_hit_found(
    db: DbV,
    id: Seq<u8>,
    version: u64,
    s: u64,
    k: int,
)
    requires
        version_consistent(db),
        0 <= k < db.objects_snapshot.len(),
        row_matches(db.objects_snapshot[k], id, Some(version)),
        db.objects_snapshot[k].checkpoint_sequence_number <= s,
        spec_classify(db.objects_snapshot[k]) is Ok,
    ensures
        spec_query(db, id, Some(version), Some(s)) == SpecResolution::Found(
            spec_classify(db.objects_snapshot[k])->Ok_0,
        ),
{
    let row = db.objects_snapshot[k];
    let upper = spec_upper(db, Some(s));
    let lower = spec_lower(db, upper);
    let c = candidate_rows(db, id, Some(version), lower, upper);
    lemma_snap_candidate_in(db, id, Some(version), lower, upper, k);
    lemma_best_row_props(c);
    assert(c.len() > 0);
    let w = best_row(c)->Some_0;
    lemma_candidate_member(db, id, Some(version), lower, upper, w);
    let all = db.objects_snapshot + db.objects_history;
    let wi = if db.objects_snapshot.contains(w) {
        choose|i: int| 0 <= i < db.objects_snapshot.len() && db.objects_snapshot[i] == w
    } else {
        db.objects_snapshot.len() + choose|i: int|
            0 <= i < db.objects_history.len() && db.objects_history[i] == w
    };
    assert(0 <= wi < all.len() && all[wi] == w);
    assert(all[k] == row);
    assert(w == row);
}

/// An answerable point stays answerable at a later sequence bound, as long
/// as no newer snapshot has moved the window's lower bound past it.
pub proof fn lemma_found_monotonic(db: DbV, id: Seq<u8>, version: u64, s1: u64, s2: u64)
    requires
        version_consistent(db),
        s1 <= s2,
        spec_lower(db, s2) == spec_lower(db, s1),
        spec_historical_query(db, id, Some(version), Some(s1)) is Found,
    ensures
        spec_historical_query(db, id, Some(version), Some(s2)) is Found,
{
    let lower = spec_lower(db, s1);
    let c1 = candidate_rows(db, id, Some(version), lower, s1);
    let c2 = candidate_rows(db, id, Some(version), lower, s2);
    lemma_best_row_props(c1);
    let w1 = best_row(c1)->Some_0;
    assert(c1.contains(w1));
    lemma_candidate_member(db, id, Some(version), lower, s1, w1);
    if db.objects_snapshot.contains(w1) {
        let i = choose|i: int| 0 <= i < db.objects_snapshot.len() && db.objects_snapshot[i] == w1;
        lemma_snap_filtered_props(db.objects_snapshot, id, Some(version), s1);
        assert(snap_candidate(db.objects_snapshot[i], id, Some(version), s2));
        lemma_snap_candidate_in(db, id, Some(version), lower, s2, i);
    } else {
        let i = choose|i: int| 0 <= i < db.objects_history.len() && db.objects_history[i] == w1;
        lemma_hist_filtered_props(db.objects_history, id, Some(version), lower, s1);
        let hf1 = hist_filtered(db.objects_history, id, Some(version), lower, s1);
        let j = choose|j: int| 0 <= j < c1.len() && c1[j] == w1;
        let sf1 = snap_filtered(db.objects_snapshot, id, Some(version), s1);
        if j < sf1.len() {
            lemma_snap_filtered_props(db.objects_snapshot, id, Some(version), s1);
            assert(sf1[j] == w1);
            let i2 = choose|i2: int|
                0 <= i2 < db.objects_snapshot.len() && db.objects_snapshot[i2] == w1;
            assert(snap_candidate(db.objects_snapshot[i2], id, Some(version), s2));
            lemma_snap_candidate_in(db, id, Some(version), lower, s2, i2);
        } else {
            assert(hf1[j - sf1.len()] == w1);
            assert(hist_candidate(w1, id, Some(version), lower, s1));
            assert(hist_candidate(db.objects_history[i], id, Some(version), lower, s2));
            lemma_hist_candidate_in(db, id, Some(version), lower, s2, i);
        }
    }
    lemma_best_row_props(c2);
    assert(c2.len() > 0);
    let w2 = best_row(c2)->Some_0;
    lemma_candidate_member(db, id, Some(version), lower, s2, w2);
    lemma_candidate_member(db, id, Some(version), lower, s1, w1);
    let all = db.objects_snapshot + db.objects_history;
    let i1 = if db.objects_snapshot.contains(w1) {
        choose|i: int| 0 <= i < db.objects_snapshot.len() && db.objects_snapshot[i] == w1
    } else {
        db.objects_snapshot.len() + choose|i: int|
            0 <= i < db.objects_history.len() && db.objects_history[i] == w1
    };
    let i2 = if db.objects_snapshot.contains(w2) {
        choose|i: int| 0 <= i < db.objects_snapshot.len() && db.objects_snapshot[i] == w2
    } else {
        db.objects_snapshot.len() + choose|i: int|
            0 <= i < db.objects_history.len() && db.objects_history[i] == w2
    };
    assert(0 <= i1 < all.len() && all[i1] == w1);
    assert(0 <= i2 < all.len() && all[i2] == w2);
    assert(w1 == w2);
}

} // verus!
