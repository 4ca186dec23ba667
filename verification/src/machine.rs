//! A machine that exercises an object store: a program of short instructions opens and drops handles,
//! changes the files of the store, and asks it for objects, while the machine keeps track of what the
//! store has promised.

use vstd::prelude::*;
use vstd::string::StrSliceExecFns;

use crate::bytes::bytes_equal;
use crate::bytes::view_option;
use crate::foreign::compute_hash;
use crate::foreign::is_hex_prefix;
use crate::foreign::lower_digits;
use crate::foreign::object_hash;
use crate::foreign::parse_prefix;
use crate::foreign::shares_prefix;
use crate::oid::hex_of;
use crate::oid::view_ids;
use crate::oid::ObjectId;
use crate::oid::ObjectKind;

pub mod state;

verus! {

/// How many bytes an instruction has.
pub const INSTRUCTION_SIZE: usize = 4;

/// How many instructions of a program are executed.
pub const MAX_OPERATIONS: usize = 256;

/// How many handles there can be.
pub const NUM_HANDLES: usize = 4;

/// How many loose objects are kept track of.
pub const NUM_LOOSE_OBJECTS: usize = 4;

/// How many bytes the name of an object has.
pub const HASH_LEN: usize = 20;

/// How many hexadecimal digits the name of an object has.
pub const HEX_LEN: usize = 40;

/// How many digits a prefix has at least.
pub const MIN_HEX_LEN: usize = 4;

/// What an instruction does.
#[derive(Clone, Copy, Debug, Eq, PartialEq, Structural)]
pub enum Opcode {
    Open,
    Clone,
    Drop,
    Never,
    SetRefresh,
    AdvanceClock,
    MarkStale,
    Stable,
    Find,
    Locate,
    Exists,
    Missing,
    Header,
    IterateStore,
    Prefix,
    CountStore,
    WriteLoose,
    QueryLoose,
    RemoveLoose,
    Publish,
    Remove,
    Corrupt,
    WriteMultiIndex,
    RemoveMultiIndex,
    Alternate,
    Checkpoint,
}

/// Whether an instruction asks a handle for something.
pub open spec fn asks_handle(opcode: Opcode) -> bool {
    match opcode {
        Opcode::Find
        | Opcode::Locate
        | Opcode::Exists
        | Opcode::Missing
        | Opcode::Header
        | Opcode::Prefix
        | Opcode::WriteLoose
        | Opcode::QueryLoose
        | Opcode::Checkpoint => true,
        _ => false,
    }
}

impl Opcode {
    /// Whether this asks a handle for something, so that the handle must still be there afterwards.
    pub fn queries_handle(self) -> (queries: bool)
        ensures
            queries == asks_handle(self),
    {
        matches!(
            self,
            Opcode::Find | Opcode::Locate | Opcode::Exists | Opcode::Missing | Opcode::Header
                | Opcode::Prefix | Opcode::WriteLoose | Opcode::QueryLoose | Opcode::Checkpoint
        )
    }
}

/// What the letters and signs for instructions stand for.
pub open spec fn opcode_of_letter(byte: u8) -> Option<Opcode> {
    if byte == 79 {
        Some(Opcode::Open)
    } else if byte == 67 {
        Some(Opcode::Clone)
    } else if byte == 68 {
        Some(Opcode::Drop)
    } else if byte == 78 {
        Some(Opcode::Never)
    } else if byte == 82 {
        Some(Opcode::SetRefresh)
    } else if byte == 84 {
        Some(Opcode::AdvanceClock)
    } else if byte == 33 {
        Some(Opcode::MarkStale)
    } else if byte == 83 {
        Some(Opcode::Stable)
    } else if byte == 70 {
        Some(Opcode::Find)
    } else if byte == 71 {
        Some(Opcode::Locate)
    } else if byte == 69 {
        Some(Opcode::Exists)
    } else if byte == 63 {
        Some(Opcode::Missing)
    } else if byte == 72 {
        Some(Opcode::Header)
    } else if byte == 73 {
        Some(Opcode::IterateStore)
    } else if byte == 80 {
        Some(Opcode::Prefix)
    } else if byte == 35 {
        Some(Opcode::CountStore)
    } else if byte == 87 {
        Some(Opcode::WriteLoose)
    } else if byte == 81 {
        Some(Opcode::QueryLoose)
    } else if byte == 114 {
        Some(Opcode::RemoveLoose)
    } else if byte == 43 {
        Some(Opcode::Publish)
    } else if byte == 45 {
        Some(Opcode::Remove)
    } else if byte == 88 {
        Some(Opcode::Corrupt)
    } else if byte == 77 {
        Some(Opcode::WriteMultiIndex)
    } else if byte == 109 {
        Some(Opcode::RemoveMultiIndex)
    } else if byte == 76 {
        Some(Opcode::Alternate)
    } else if byte == 75 {
        Some(Opcode::Checkpoint)
    } else {
        None
    }
}

/// What any other byte stands for.
pub open spec fn opcode_of_number(number: int) -> Opcode {
    if number == 0 {
        Opcode::Open
    } else if number == 1 {
        Opcode::Clone
    } else if number == 2 {
        Opcode::Drop
    } else if number == 3 {
        Opcode::Never
    } else if number == 4 {
        Opcode::Stable
    } else if number == 5 {
        Opcode::Find
    } else if number == 6 {
        Opcode::Missing
    } else if number == 7 {
        Opcode::Header
    } else if number == 8 {
        Opcode::IterateStore
    } else if number == 9 {
        Opcode::Prefix
    } else if number == 10 {
        Opcode::CountStore
    } else if number == 11 {
        Opcode::WriteLoose
    } else if number == 12 {
        Opcode::QueryLoose
    } else if number == 13 {
        Opcode::RemoveLoose
    } else if number == 14 {
        Opcode::Publish
    } else if number == 15 {
        Opcode::Remove
    } else if number == 16 {
        Opcode::Corrupt
    } else if number == 17 {
        Opcode::WriteMultiIndex
    } else if number == 18 {
        Opcode::RemoveMultiIndex
    } else if number == 19 {
        Opcode::Alternate
    } else if number == 20 {
        Opcode::Checkpoint
    } else if number == 21 {
        Opcode::Exists
    } else {
        Opcode::Locate
    }
}

/// What a byte stands for as an instruction.
pub open spec fn opcode_of(byte: u8) -> Opcode {
    match opcode_of_letter(byte) {
        Some(opcode) => opcode,
        None => opcode_of_number(byte as int % 23),
    }
}

/// What a byte stands for as an instruction: most of them have a letter or a sign, and any other byte
/// stands for one of them, too.
pub fn decode_opcode(byte: u8) -> (opcode: Opcode)
    ensures
        opcode == opcode_of(byte),
{
    match byte {
        79 => Opcode::Open,
        67 => Opcode::Clone,
        68 => Opcode::Drop,
        78 => Opcode::Never,
        82 => Opcode::SetRefresh,
        84 => Opcode::AdvanceClock,
        33 => Opcode::MarkStale,
        83 => Opcode::Stable,
        70 => Opcode::Find,
        71 => Opcode::Locate,
        69 => Opcode::Exists,
        63 => Opcode::Missing,
        72 => Opcode::Header,
        73 => Opcode::IterateStore,
        80 => Opcode::Prefix,
        35 => Opcode::CountStore,
        87 => Opcode::WriteLoose,
        81 => Opcode::QueryLoose,
        114 => Opcode::RemoveLoose,
        43 => Opcode::Publish,
        45 => Opcode::Remove,
        88 => Opcode::Corrupt,
        77 => Opcode::WriteMultiIndex,
        109 => Opcode::RemoveMultiIndex,
        76 => Opcode::Alternate,
        75 => Opcode::Checkpoint,
        byte => match byte % 23 {
            0 => Opcode::Open,
            1 => Opcode::Clone,
            2 => Opcode::Drop,
            3 => Opcode::Never,
            4 => Opcode::Stable,
            5 => Opcode::Find,
            6 => Opcode::Missing,
            7 => Opcode::Header,
            8 => Opcode::IterateStore,
            9 => Opcode::Prefix,
            10 => Opcode::CountStore,
            11 => Opcode::WriteLoose,
            12 => Opcode::QueryLoose,
            13 => Opcode::RemoveLoose,
            14 => Opcode::Publish,
            15 => Opcode::Remove,
            16 => Opcode::Corrupt,
            17 => Opcode::WriteMultiIndex,
            18 => Opcode::RemoveMultiIndex,
            19 => Opcode::Alternate,
            20 => Opcode::Checkpoint,
            21 => Opcode::Exists,
            _ => Opcode::Locate,
        },
    }
}

/// The number that a byte stands for as an operand: digits stand for themselves.
pub open spec fn operand_of(byte: u8) -> usize {
    if 48 <= byte <= 57 {
        (byte - 48) as usize
    } else {
        byte as usize
    }
}

/// The number that a byte stands for as an operand: digits stand for themselves.
pub fn operand(byte: u8) -> (number: usize)
    ensures
        number == operand_of(byte),
        number <= 255,
{
    if 48 <= byte && byte <= 57 {
        (byte - 48) as usize
    } else {
        byte as usize
    }
}

/// An instruction with its operands.
#[derive(Clone, Copy, Debug, Eq, PartialEq, Structural)]
pub struct Instruction {
    pub opcode: Opcode,
    pub a: usize,
    pub b: usize,
    pub c: usize,
}

/// The instruction in the four bytes at a position.
pub open spec fn instruction_at(data: Seq<u8>, place: int) -> Instruction {
    Instruction {
        opcode: opcode_of(data[place]),
        a: operand_of(data[place + 1]),
        b: operand_of(data[place + 2]),
        c: operand_of(data[place + 3]),
    }
}

/// How many instructions of a program are executed.
pub open spec fn program_length(bytes: int) -> int {
    if bytes / 4 < MAX_OPERATIONS {
        bytes / 4
    } else {
        MAX_OPERATIONS as int
    }
}

/// The instructions of a program: four bytes each, no more than are executed, and nothing of what is
/// left over.
pub fn decode_program(data: &[u8]) -> (program: Vec<Instruction>)
    ensures
        program@.len() == program_length(data@.len() as int),
        forall|i: int|
            0 <= i < program@.len() ==> #[trigger] program@[i] == instruction_at(data@, 4 * i),
        forall|i: int|
            0 <= i < program@.len() ==> (#[trigger] program@[i]).a <= 255 && program@[i].b <= 255
                && program@[i].c <= 255,
{
    let mut program: Vec<Instruction> = Vec::new();
    let mut count: usize = data.len() / INSTRUCTION_SIZE;
    if count > MAX_OPERATIONS {
        count = MAX_OPERATIONS;
    }
    let mut i: usize = 0;
    while i < count
        invariant
            i <= count <= MAX_OPERATIONS,
            4 * count <= data@.len(),
            program@.len() == i,
            forall|k: int|
                0 <= k < i ==> #[trigger] program@[k] == instruction_at(data@, 4 * k)
                    && program@[k].a <= 255 && program@[k].b <= 255 && program@[k].c <= 255,
        decreases count - i,
    {
        let place: usize = 4 * i;
        program.push(
            Instruction {
                opcode: decode_opcode(data[place]),
                a: operand(data[place + 1]),
                b: operand(data[place + 2]),
                c: operand(data[place + 3]),
            },
        );
        i += 1;
    }
    program
}

/// An object database of the fixture.
#[derive(Clone, Copy, Debug, Eq, PartialEq, Structural)]
pub enum Database {
    Primary,
    Alternate,
}

/// A pack of the fixture.
#[derive(Clone, Copy, Debug, Eq, PartialEq, Structural)]
pub enum Pack {
    A,
    B,
    C,
}

/// A file that belongs to a pack.
#[derive(Clone, Copy, Debug, Eq, PartialEq, Structural)]
pub enum Component {
    Pack,
    Index,
    ReverseIndex,
    Bitmap,
    Promisor,
    Mtimes,
    Keep,
}

/// A change of the files of the fixture.
#[derive(Clone, Copy, Debug, Eq, PartialEq, Structural)]
pub enum FixtureAction {
    Publish { database: Database, pack: Pack, component: Component },
    Remove { database: Database, pack: Pack, component: Component },
    CorruptIndex { database: Database, pack: Pack },
    RemoveMultiIndex { database: Database },
    SetAlternate { enabled: bool },
}

/// The packs that an index over several packs is written for.
#[derive(Clone, Copy, Debug, Eq, PartialEq, Structural)]
pub struct PackSet {
    pub a: bool,
    pub b: bool,
    pub c: bool,
}

/// The database that an operand selects.
pub fn database(value: usize) -> (database: Database)
    ensures
        database == (if value % 2 == 0 {
            Database::Primary
        } else {
            Database::Alternate
        }),
{
    if value % 2 == 0 {
        Database::Primary
    } else {
        Database::Alternate
    }
}

/// The pack with the given number.
pub open spec fn pack_numbered(number: int) -> Pack {
    if number == 0 {
        Pack::A
    } else if number == 1 {
        Pack::B
    } else {
        Pack::C
    }
}

/// The pack that an operand selects.
pub fn pack(value: usize) -> (pack: Pack)
    ensures
        pack == pack_numbered(value as int % 3),
{
    match value % 3 {
        0 => Pack::A,
        1 => Pack::B,
        _ => Pack::C,
    }
}

/// The component with the given number.
pub open spec fn component_numbered(number: int) -> Component {
    if number == 0 {
        Component::Pack
    } else if number == 1 {
        Component::Index
    } else if number == 2 {
        Component::ReverseIndex
    } else if number == 3 {
        Component::Bitmap
    } else if number == 4 {
        Component::Promisor
    } else if number == 5 {
        Component::Mtimes
    } else {
        Component::Keep
    }
}

/// The component that an operand selects.
pub fn component(value: usize) -> (component: Component)
    ensures
        component == component_numbered(value as int % 7),
{
    match value % 7 {
        0 => Component::Pack,
        1 => Component::Index,
        2 => Component::ReverseIndex,
        3 => Component::Bitmap,
        4 => Component::Promisor,
        5 => Component::Mtimes,
        _ => Component::Keep,
    }
}

/// The packs that an operand selects: one for each of its lower bits, and the first one in any case.
pub fn pack_set(value: usize) -> (packs: PackSet)
    ensures
        packs == (PackSet {
            a: true,
            b: value / 2 % 2 == 1,
            c: value / 4 % 2 == 1,
        }),
{
    PackSet { a: true, b: value / 2 % 2 == 1, c: value / 4 % 2 == 1 }
}

/// How a handle refreshes its indices.
#[derive(Clone, Copy, Debug, Eq, PartialEq, Structural)]
pub enum RefreshPolicy {
    Strict,
    /// Only after this many milliseconds.
    AfterDuration(u64),
    Never,
}

/// Why an instruction was not executed.
#[derive(Clone, Copy, Debug, Eq, PartialEq, Structural)]
pub enum Skip {
    NoHandle,
    NoLooseObject,
    NotStable,
    NoStableLocation,
    FixtureInTransition,
    RefreshNotStrict,
}

/// Where a lookup failed.
#[derive(Clone, Copy, Debug, Eq, PartialEq, Structural)]
pub enum QueryError {
    Refresh,
    LooseTraversal,
    LooseObject,
    PackedObject,
}

/// Where a write failed.
#[derive(Clone, Copy, Debug, Eq, PartialEq, Structural)]
pub enum WriteError {
    Refresh,
    LooseObject,
    Io,
}

/// What came of a lookup.
#[derive(Clone, Copy, Debug, Eq, PartialEq, Structural)]
pub enum Query {
    Found,
    Missing,
    Ambiguous,
    Stale,
    Error(QueryError),
}

/// What came of an instruction.
#[derive(Clone, Copy, Debug, Eq, PartialEq, Structural)]
pub enum Outcome {
    Applied,
    Rejected,
    RefreshConfigured(RefreshPolicy),
    /// The clock was advanced by this many milliseconds.
    ClockAdvanced(u64),
    Skipped(Skip),
    Query(Query),
    Counted(u64),
    Iterated(usize),
    Compared(usize),
    WriteError(WriteError),
}

/// A promise that the store did not keep.
#[derive(Clone, Copy, Debug, Eq, PartialEq, Structural)]
pub enum Violation {
    /// A lookup returned another object than it was asked for.
    WrongObject,
    /// A lookup returned an object that has no hash, as its contents are made for a collision.
    NoHash,
    /// The location of an object can't be read right after it was found.
    UnreadableLocation,
    /// A header and its object disagree.
    HeaderDisagrees,
    /// An iteration yielded an object that was never written.
    UnknownObject,
    /// A candidate does not match its prefix.
    WrongCandidate,
    /// A result does not match its prefix.
    WrongResult,
    /// The candidates are not just the one result.
    WrongCandidates,
    /// An ambiguous prefix has fewer than two candidates.
    TooFewCandidates,
    /// A missing prefix has candidates.
    UnexpectedCandidates,
    /// An index over several packs was not written.
    MultiIndexRefused,
    /// An index over several packs was written where that is not possible.
    MultiIndexWritten,
    /// A handle disagrees with a store that was just opened.
    Disagreement,
    /// A write failed in a way that is not known.
    UnknownWriteError,
    /// The store did not answer what it was asked.
    UnexpectedReply,
}

/// How a lookup of an object failed.
#[derive(Clone, Copy, Debug, Eq, PartialEq, Structural)]
pub enum FindError {
    LoadIndex,
    Loose,
    Pack,
    LoadPack,
    EntryType,
    DeltaBaseRecursionLimit,
    DeltaBaseMissing,
    DeltaBaseLookup,
}

/// How a lookup of a prefix failed.
#[derive(Clone, Copy, Debug, Eq, PartialEq, Structural)]
pub enum PrefixError {
    LooseWalkDir,
    LoadIndex,
}

/// How finding a unique prefix failed.
#[derive(Clone, Copy, Debug, Eq, PartialEq, Structural)]
pub enum DisambiguateError {
    Contains(FindError),
    Lookup(PrefixError),
}

/// How a write failed.
#[derive(Clone, Copy, Debug, Eq, PartialEq, Structural)]
pub enum WriteFailure {
    LoadIndex,
    LooseWrite,
    Io,
    Other,
}

/// Where a lookup of an object failed.
pub open spec fn find_error_kind(err: FindError) -> QueryError {
    match err {
        FindError::LoadIndex => QueryError::Refresh,
        FindError::Loose => QueryError::LooseObject,
        _ => QueryError::PackedObject,
    }
}

/// Where a lookup of a prefix failed.
pub open spec fn prefix_error_kind(err: PrefixError) -> QueryError {
    match err {
        PrefixError::LooseWalkDir => QueryError::LooseTraversal,
        PrefixError::LoadIndex => QueryError::Refresh,
    }
}

/// The outcome of a lookup that failed.
pub fn query_error(err: FindError) -> (outcome: Outcome)
    ensures
        outcome == Outcome::Query(Query::Error(find_error_kind(err))),
{
    Outcome::Query(
        Query::Error(
            match err {
                FindError::LoadIndex => QueryError::Refresh,
                FindError::Loose => QueryError::LooseObject,
                FindError::Pack
                | FindError::LoadPack
                | FindError::EntryType
                | FindError::DeltaBaseRecursionLimit
                | FindError::DeltaBaseMissing
                | FindError::DeltaBaseLookup => QueryError::PackedObject,
            },
        ),
    )
}

/// The outcome of a lookup of a prefix that failed.
pub fn lookup_error(err: PrefixError) -> (outcome: Outcome)
    ensures
        outcome == Outcome::Query(Query::Error(prefix_error_kind(err))),
{
    Outcome::Query(
        Query::Error(
            match err {
                PrefixError::LooseWalkDir => QueryError::LooseTraversal,
                PrefixError::LoadIndex => QueryError::Refresh,
            },
        ),
    )
}

/// The outcome of looking for a unique prefix where that failed.
pub fn disambiguate_error(err: DisambiguateError) -> (outcome: Outcome)
    ensures
        outcome == Outcome::Query(
            Query::Error(
                match err {
                    DisambiguateError::Contains(err) => find_error_kind(err),
                    DisambiguateError::Lookup(err) => prefix_error_kind(err),
                },
            ),
        ),
{
    match err {
        DisambiguateError::Contains(err) => query_error(err),
        DisambiguateError::Lookup(err) => lookup_error(err),
    }
}

/// The outcome of a write that failed, if the failure is a known one.
pub fn write_error(err: WriteFailure) -> (outcome: Result<Outcome, Violation>)
    ensures
        outcome == (match err {
            WriteFailure::LoadIndex => Ok::<Outcome, Violation>(
                Outcome::WriteError(WriteError::Refresh),
            ),
            WriteFailure::LooseWrite => Ok(Outcome::WriteError(WriteError::LooseObject)),
            WriteFailure::Io => Ok(Outcome::WriteError(WriteError::Io)),
            WriteFailure::Other => Err(Violation::UnknownWriteError),
        }),
{
    match err {
        WriteFailure::LoadIndex => Ok(Outcome::WriteError(WriteError::Refresh)),
        WriteFailure::LooseWrite => Ok(Outcome::WriteError(WriteError::LooseObject)),
        WriteFailure::Io => Ok(Outcome::WriteError(WriteError::Io)),
        WriteFailure::Other => Err(Violation::UnknownWriteError),
    }
}

/// What came of looking for an object.
#[derive(Clone, Debug, Eq, PartialEq)]
pub enum Found {
    /// It is there, with its kind and its contents.
    Object { kind: ObjectKind, data: Vec<u8> },
    /// It is not there.
    Nothing,
    /// The lookup failed.
    Failed(FindError),
}

/// What came of looking for the header of an object.
#[derive(Clone, Copy, Debug, Eq, PartialEq, Structural)]
pub enum HeaderFound {
    /// It is there, with the kind and the size of the object.
    Header { kind: ObjectKind, size: u64 },
    /// It is not there.
    Nothing,
    /// The lookup failed.
    Failed(FindError),
}

/// The outcome of finding an object with the given hash, if it has one, while looking for `id`.
pub open spec fn hash_outcome(hash: Option<Seq<u8>>, id: Seq<u8>) -> Result<Outcome, Violation> {
    match hash {
        Some(hash) => if hash == id {
            Ok(Outcome::Query(Query::Found))
        } else {
            Err(Violation::WrongObject)
        },
        None => Err(Violation::NoHash),
    }
}

/// The outcome of finding an object with the given hash, if it has one, while looking for `id`.
pub fn validate_hash(hash: &Option<Vec<u8>>, id: &ObjectId) -> (outcome: Result<Outcome, Violation>)
    ensures
        outcome == hash_outcome(view_option(*hash), id@),
{
    match hash {
        Some(hash) => if bytes_equal(hash.as_slice(), id.bytes.as_slice()) {
            Ok(Outcome::Query(Query::Found))
        } else {
            Err(Violation::WrongObject)
        },
        None => Err(Violation::NoHash),
    }
}

/// The outcome of looking for the object with the name `id`: what is found must have that name.
pub open spec fn find_outcome(found: Found, id: Seq<u8>) -> Result<Outcome, Violation> {
    match found {
        Found::Object { kind, data } => hash_outcome(object_hash(kind, data@), id),
        Found::Nothing => Ok(Outcome::Query(Query::Missing)),
        Found::Failed(err) => Ok(Outcome::Query(Query::Error(find_error_kind(err)))),
    }
}

/// The outcome of looking for the object with the name `id`: what is found must have that name.
pub fn validate_find(found: &Found, id: &ObjectId) -> (outcome: Result<Outcome, Violation>)
    ensures
        outcome == find_outcome(*found, id@),
{
    match found {
        Found::Object { kind, data } => {
            let hash = compute_hash(*kind, data.as_slice());
            validate_hash(&hash, id)
        },
        Found::Nothing => Ok(Outcome::Query(Query::Missing)),
        Found::Failed(err) => Ok(query_error(*err)),
    }
}

/// The outcome of looking for a header and its object, which must agree; that one is found and the
/// other isn't is excused while the files of the fixture are in transition, where that is expected.
pub open spec fn header_outcome(header: HeaderFound, object: Found, may_be_stale: bool) -> Result<
    Outcome,
    Violation,
> {
    match (header, object) {
        (HeaderFound::Failed(err), _) => Ok(Outcome::Query(Query::Error(find_error_kind(err)))),
        (_, Found::Failed(err)) => Ok(Outcome::Query(Query::Error(find_error_kind(err)))),
        (HeaderFound::Nothing, Found::Nothing) => Ok(Outcome::Query(Query::Missing)),
        (HeaderFound::Header { kind, size }, Found::Object { kind: object_kind, data }) => if kind
            == object_kind && size == data@.len() {
            Ok(Outcome::Query(Query::Found))
        } else {
            Err(Violation::HeaderDisagrees)
        },
        _ => if may_be_stale {
            Ok(Outcome::Query(Query::Stale))
        } else {
            Err(Violation::HeaderDisagrees)
        },
    }
}

/// The outcome of looking for a header and its object, which must agree.
pub fn validate_header(header: HeaderFound, object: &Found, may_be_stale: bool) -> (outcome: Result<
    Outcome,
    Violation,
>)
    ensures
        outcome == header_outcome(header, *object, may_be_stale),
{
    match (header, object) {
        (HeaderFound::Failed(err), _) => Ok(query_error(err)),
        (_, Found::Failed(err)) => Ok(query_error(*err)),
        (HeaderFound::Nothing, Found::Nothing) => Ok(Outcome::Query(Query::Missing)),
        (HeaderFound::Header { kind, size }, Found::Object { kind: object_kind, data }) => if kind
            == *object_kind && size == data.len() as u64 {
            Ok(Outcome::Query(Query::Found))
        } else {
            Err(Violation::HeaderDisagrees)
        },
        _ => if may_be_stale {
            Ok(Outcome::Query(Query::Stale))
        } else {
            Err(Violation::HeaderDisagrees)
        },
    }
}

/// How names of objects begin: the first digits of an id in hexadecimal form.
#[derive(Clone, Debug, Eq, PartialEq)]
pub struct HexPrefix {
    /// An id that begins in this way.
    pub id: ObjectId,
    /// How many of its digits count.
    pub hex_len: usize,
}

/// How names of objects begin.
#[verifier::ext_equal]
pub struct PrefixView {
    pub id: Seq<u8>,
    pub hex_len: int,
}

impl View for HexPrefix {
    type V = PrefixView;

    open spec fn view(&self) -> PrefixView {
        PrefixView { id: self.id@, hex_len: self.hex_len as int }
    }
}

impl PrefixView {
    /// The id is a whole one, and a number of digits counts that is allowed.
    pub open spec fn wf(self) -> bool {
        self.id.len() == HASH_LEN && MIN_HEX_LEN <= self.hex_len <= HEX_LEN
    }

    /// The digits that count.
    pub open spec fn digits(self) -> Seq<u8> {
        hex_of(self.id).take(self.hex_len)
    }

    /// Whether an id begins with these digits.
    pub open spec fn begins(self, id: Seq<u8>) -> bool {
        id.len() == HASH_LEN && hex_of(id).take(self.hex_len) == self.digits()
    }
}

impl HexPrefix {
    /// The prefix with the given digits, if there are neither too few nor too many.
    pub fn parse(text: &str) -> (prefix: Option<HexPrefix>)
        ensures
            prefix is Some <==> is_hex_prefix(text@),
            prefix matches Some(prefix) ==> prefix@.wf() && prefix@.hex_len == text@.len()
                && prefix@.digits() == lower_digits(text@) && forall|i: int|
                prefix@.hex_len <= i < HEX_LEN ==> #[trigger] hex_of(prefix@.id)[i] == 48,
    {
        if text.unicode_len() > HEX_LEN {
            return None;
        }
        match parse_prefix(text) {
            Some((bytes, hex_len)) => Some(HexPrefix { id: ObjectId { bytes }, hex_len }),
            None => None,
        }
    }

    /// Whether an id begins with the digits of this prefix.
    pub fn begins(&self, id: &ObjectId) -> (begins: bool)
        requires
            self@.wf(),
        ensures
            begins == self@.begins(id@),
    {
        id.bytes.len() == HASH_LEN && shares_prefix(
            self.id.bytes.as_slice(),
            self.hex_len,
            id.bytes.as_slice(),
        )
    }
}

/// What a lookup of a prefix returned.
#[derive(Clone, Debug, Eq, PartialEq)]
pub enum PrefixResult {
    /// One object.
    Unique(ObjectId),
    /// More than one object.
    Ambiguous,
    /// No object.
    Nothing,
    /// The lookup failed.
    Failed(PrefixError),
}

/// What came of a lookup of a prefix.
#[derive(Clone, Debug, Eq, PartialEq)]
pub struct PrefixReply {
    /// What it returned.
    pub result: PrefixResult,
    /// The candidates that it collected.
    pub candidates: Vec<ObjectId>,
}

/// Whether all candidates begin with the digits of a prefix.
pub open spec fn all_begin(prefix: PrefixView, candidates: Seq<Seq<u8>>) -> bool {
    forall|i: int| 0 <= i < candidates.len() ==> prefix.begins(#[trigger] candidates[i])
}

/// Whether there is one candidate and it is `id`.
pub open spec fn is_just(candidates: Seq<Seq<u8>>, id: Seq<u8>) -> bool {
    candidates.len() > 0 && forall|i: int|
        0 <= i < candidates.len() ==> #[trigger] candidates[i] == id
}

/// Whether there are at least two different candidates.
pub open spec fn has_two(candidates: Seq<Seq<u8>>) -> bool {
    candidates.len() > 0 && !is_just(candidates, candidates[0])
}

fn all_candidates_begin(prefix: &HexPrefix, candidates: &Vec<ObjectId>) -> (all: bool)
    requires
        prefix@.wf(),
    ensures
        all == all_begin(prefix@, view_ids(candidates@)),
{
    let mut i: usize = 0;
    while i < candidates.len()
        invariant
            i <= candidates.len(),
            prefix@.wf(),
            forall|k: int| 0 <= k < i ==> prefix@.begins(#[trigger] view_ids(candidates@)[k]),
        decreases candidates.len() - i,
    {
        if !prefix.begins(&candidates[i]) {
            assert(!prefix@.begins(view_ids(candidates@)[i as int]));
            return false;
        }
        i += 1;
    }
    true
}

fn is_only_candidate(candidates: &Vec<ObjectId>, id: &ObjectId) -> (only: bool)
    ensures
        only == is_just(view_ids(candidates@), id@),
{
    let mut i: usize = 0;
    while i < candidates.len()
        invariant
            i <= candidates.len(),
            forall|k: int| 0 <= k < i ==> #[trigger] view_ids(candidates@)[k] == id@,
        decreases candidates.len() - i,
    {
        if !candidates[i].same(id) {
            assert(view_ids(candidates@)[i as int] != id@);
            return false;
        }
        i += 1;
    }
    candidates.len() > 0
}

/// The outcome of a lookup of a prefix, where candidates are collected or not: all candidates and the
/// result must begin with it, and the candidates must be in accord with the result.
pub open spec fn prefix_outcome(prefix: PrefixView, reply: PrefixReply, collect: bool) -> Result<
    Outcome,
    Violation,
> {
    let candidates = view_ids(reply.candidates@);
    if !all_begin(prefix, candidates) {
        Err(Violation::WrongCandidate)
    } else {
        match reply.result {
            PrefixResult::Unique(id) => if !prefix.begins(id@) {
                Err(Violation::WrongResult)
            } else if collect && !is_just(candidates, id@) {
                Err(Violation::WrongCandidates)
            } else {
                Ok(Outcome::Query(Query::Found))
            },
            PrefixResult::Ambiguous => if collect && !has_two(candidates) {
                Err(Violation::TooFewCandidates)
            } else {
                Ok(Outcome::Query(Query::Ambiguous))
            },
            PrefixResult::Nothing => if candidates.len() > 0 {
                Err(Violation::UnexpectedCandidates)
            } else {
                Ok(Outcome::Query(Query::Missing))
            },
            PrefixResult::Failed(err) => Ok(Outcome::Query(Query::Error(prefix_error_kind(err)))),
        }
    }
}

/// The outcome of a lookup of a prefix, where candidates are collected or not.
pub fn validate_prefix_lookup(prefix: &HexPrefix, reply: &PrefixReply, collect: bool) -> (outcome:
    Result<Outcome, Violation>)
    requires
        prefix@.wf(),
    ensures
        outcome == prefix_outcome(prefix@, *reply, collect),
{
    if !all_candidates_begin(prefix, &reply.candidates) {
        return Err(Violation::WrongCandidate);
    }
    match &reply.result {
        PrefixResult::Unique(id) => {
            if !prefix.begins(id) {
                return Err(Violation::WrongResult);
            }
            if collect && !is_only_candidate(&reply.candidates, id) {
                return Err(Violation::WrongCandidates);
            }
            Ok(Outcome::Query(Query::Found))
        },
        PrefixResult::Ambiguous => {
            if collect && (reply.candidates.len() == 0 || is_only_candidate(
                &reply.candidates,
                &reply.candidates[0],
            )) {
                return Err(Violation::TooFewCandidates);
            }
            Ok(Outcome::Query(Query::Ambiguous))
        },
        PrefixResult::Nothing => {
            if reply.candidates.len() > 0 {
                return Err(Violation::UnexpectedCandidates);
            }
            Ok(Outcome::Query(Query::Missing))
        },
        PrefixResult::Failed(err) => Ok(lookup_error(*err)),
    }
}

/// The outcome of a lookup of a prefix that no candidates are collected for.
pub open spec fn plain_prefix_outcome(result: PrefixResult) -> Outcome {
    match result {
        PrefixResult::Unique(_) => Outcome::Query(Query::Found),
        PrefixResult::Ambiguous => Outcome::Query(Query::Ambiguous),
        PrefixResult::Nothing => Outcome::Query(Query::Missing),
        PrefixResult::Failed(err) => Outcome::Query(Query::Error(prefix_error_kind(err))),
    }
}

} // verus!
