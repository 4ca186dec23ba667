//! Object stores, their alternates, and the machine that exercises them.

use gitcore::alternate::parse;
use gitcore::alternate::parse::content;
use gitcore::alternate::Error;
use gitcore::alternate::Request;
use gitcore::alternate::Resolver;
use gitcore::machine::component;
use gitcore::machine::database;
use gitcore::machine::decode_opcode;
use gitcore::machine::decode_program;
use gitcore::machine::operand;
use gitcore::machine::pack;
use gitcore::machine::pack_set;
use gitcore::machine::state::compare;
use gitcore::machine::state::failed_to_refresh;
use gitcore::machine::state::kept_from_refreshing;
use gitcore::machine::state::Comparison;
use gitcore::machine::state::Location;
use gitcore::machine::state::Machine;
use gitcore::machine::state::Object;
use gitcore::machine::state::Prefix;
use gitcore::machine::state::Reply;
use gitcore::machine::state::Request as Ask;
use gitcore::machine::state::Step;
use gitcore::machine::validate_find;
use gitcore::machine::validate_hash;
use gitcore::machine::write_error;
use gitcore::machine::Component;
use gitcore::machine::Database;
use gitcore::machine::DisambiguateError;
use gitcore::machine::FindError;
use gitcore::machine::FixtureAction;
use gitcore::machine::Found;
use gitcore::machine::HeaderFound;
use gitcore::machine::HexPrefix;
use gitcore::machine::Instruction;
use gitcore::machine::Opcode;
use gitcore::machine::Outcome;
use gitcore::machine::Pack;
use gitcore::machine::PackSet;
use gitcore::machine::PrefixError;
use gitcore::machine::PrefixReply;
use gitcore::machine::PrefixResult;
use gitcore::machine::Query;
use gitcore::machine::QueryError;
use gitcore::machine::RefreshPolicy;
use gitcore::machine::Skip;
use gitcore::machine::Violation;
use gitcore::machine::WriteError;
use gitcore::machine::WriteFailure;
use gitcore::oid::HashKind;
use gitcore::oid::ObjectId;
use gitcore::oid::ObjectKind;
use gitcore::store::disk_state_paths;
use gitcore::store::sink;
use gitcore::store::sort_replacements;
use gitcore::store::IndexAndPacks;
use gitcore::store::IndexCtx;
use gitcore::store::LoadOutcome;
use gitcore::store::LockedLookup;
use gitcore::store::LockedStep;
use gitcore::store::OpenError;
use gitcore::store::Options;
use gitcore::store::PackAnswer;
use gitcore::store::PackLookup;
use gitcore::store::PackOutcome;
use gitcore::store::PackState;
use gitcore::store::PackRequest;
use gitcore::store::Point;
use gitcore::store::RefreshMode;
use gitcore::store::Slot;
use gitcore::store::Slots;
use gitcore::store::Store;
use gitcore::store::BEST_SPEED;

fn id(byte: u8) -> ObjectId {
    ObjectId::new(&[byte; 20])
}

fn bytes(text: &str) -> Vec<u8> {
    text.as_bytes().to_vec()
}

#[test]
fn alternates_are_read_line_by_line() {
    assert_eq!(
        content(b"# comment\n\n../relative\n/absolute\n\"/with/tab\\t/.git\"\n"),
        Ok(vec![bytes("../relative"), bytes("/absolute"), bytes("/with/tab\t/.git")])
    );
    assert_eq!(content(b""), Ok(vec![]));
    assert_eq!(content(b"one\r"), Ok(vec![bytes("one\r")]), "only newlines end lines");
    let err = content(b"fine\n\"open").expect_err("the quote is never closed");
    assert!(matches!(err, parse::Error::Unquote(_)));
    assert_eq!(err.message(), "Could not unquote alternate path");
    assert_eq!(
        parse::Error::PathConversion(bytes("x")).message(),
        "Could not obtain an object path for the alternate directory 'x'"
    );
}

fn resolve(files: &[(&str, &str)]) -> Result<Vec<Vec<u8>>, Error> {
    let mut resolver = Resolver::start(bytes("root"), bytes("root"));
    loop {
        resolver = match resolver.request() {
            Request::Read(directory) => {
                let file = files.iter().find(|(path, _)| path.as_bytes() == directory);
                resolver.read(file.map(|(_, text)| bytes(text)))?
            }
            Request::Canonicalize { base, path } => {
                assert_eq!(base, bytes("root"));
                resolver.resolved(path)?
            }
            Request::Done(out) => return Ok(out),
        };
    }
}

#[test]
fn alternates_are_followed() {
    assert_eq!(resolve(&[]), Ok(vec![]), "there need not be any");
    assert_eq!(
        resolve(&[("root", "a\nb\n"), ("b", "c"), ("c", "# none")]),
        Ok(vec![bytes("b"), bytes("c"), bytes("a")]),
        "those found last are looked into first"
    );
}

#[test]
fn alternates_are_canonical_paths() {
    let resolver = Resolver::start(bytes("link"), bytes("/root"));
    assert_eq!(resolver.request(), Request::Read(bytes("link")));
    let resolver = resolver.read(Some(bytes("../other"))).expect("valid");
    assert_eq!(
        resolver.request(),
        Request::Canonicalize {
            base: bytes("link"),
            path: bytes("../other")
        }
    );
    let resolver = resolver.resolved(bytes("/other")).expect("no cycle");
    assert_eq!(resolver.request(), Request::Read(bytes("/other")));
    let resolver = resolver.read(None).expect("no alternates are no error");
    assert_eq!(resolver.request(), Request::Done(vec![bytes("/other")]));
}

#[test]
fn files_with_alternates_can_be_joined() {
    let first = content(b"a\n# none\n\"b\\t\"").expect("valid");
    let second = content(b"\nc\na").expect("valid");
    let both = content(b"a\n# none\n\"b\\t\"\n\nc\na").expect("valid");
    assert_eq!(both, [first, second].concat());
    assert_eq!(both, [bytes("a"), bytes("b\t"), bytes("c"), bytes("a")]);
}

#[test]
fn alternates_must_not_form_a_cycle() {
    let err = resolve(&[("root", "a"), ("a", "b"), ("b", "root")]).expect_err("a cycle");
    assert_eq!(
        err.message(),
        "Alternates form a cycle: 'root' -> 'a' -> 'b' -> root"
    );
    assert!(matches!(err, Error::Cycle(seen) if seen.len() == 3));
    assert_eq!(
        Error::Cycle(vec![vec![b'a', 0xff]]).message(),
        "Alternates form a cycle: 'a\u{fffd}' -> a\u{fffd}",
        "bytes that aren't text are replaced"
    );
    let err = resolve(&[("root", "a\na")]).expect_err("the same one twice");
    assert!(matches!(err, Error::Cycle(_)));
    let err = resolve(&[("root", "\"a")]).expect_err("malformed");
    assert_eq!(err.message(), "Could not unquote alternate path");
    assert_eq!(Error::Io("denied".to_string()).message(), "denied");
}

#[test]
fn stores_open_empty() {
    let options = Options::default();
    assert_eq!(options.loose_compression, BEST_SPEED);
    let replacements = vec![(id(2), id(9)), (id(1), id(8)), (id(2), id(7))];
    let store = Store::at_opts(bytes("objects"), true, bytes("cwd"), 0, replacements, options)
        .expect("it is a directory");
    assert_eq!(store.slots.len(), 32);
    assert_eq!(store.slot_limit, None);
    assert_eq!(store.current_dir, b"cwd");
    assert_eq!(
        store.replacements,
        [(id(1), id(8)), (id(2), id(9)), (id(2), id(7))],
        "replacements are sorted, and those of the same object keep their order"
    );
    let metrics = store.metrics();
    assert_eq!(metrics.unused_slots, 32);
    assert_eq!(metrics.known_packs, 0);

    let options = Options {
        slots: Slots::Limit(2),
        current_dir: Some(bytes("dir")),
        ..Options::default()
    };
    let store = Store::at_opts(bytes("objects"), true, bytes("cwd"), 0, vec![], options).expect("valid");
    assert_eq!((store.slots.len(), store.slot_limit), (2, Some(2)));
    assert_eq!(store.current_dir, b"dir");
    let err = Store::at_opts(bytes("file"), false, bytes("cwd"), 0, vec![], Options::default())
        .map(|_| ())
        .expect_err("it is a file");
    assert_eq!(err, OpenError::NotADirectory(bytes("file")));
    assert_eq!(err.message(), "'file' wasn't a directory");
}

#[test]
fn slots_are_planned() {
    assert_eq!(Slots::default(), Slots::Growable { initial: 32 });
    assert_eq!(Slots::Limit(7).plan(100), (7, Some(7)));
    assert_eq!(Slots::Growable { initial: 7 }.plan(100), (7, None));
    let needed = Slots::AsNeededByDiskState { minimum: 10 };
    assert_eq!(needed.plan(5), (10, None));
    assert_eq!(needed.plan(50), (50, None));
    assert!(needed.needs_disk_state());
    assert!(!Slots::Limit(1).needs_disk_state());
    assert_eq!(
        disk_state_paths(bytes("a"), vec![bytes("b")]),
        [bytes("a"), bytes("b")]
    );
    assert_eq!(sort_replacements(vec![]), []);
    assert_eq!(
        sink(HashKind::Sha256),
        gitcore::store::Sink {
            compression: None,
            object_hash: HashKind::Sha256
        }
    );
}

#[test]
fn refreshing_can_be_configured() {
    let mut mode = RefreshMode::default();
    assert_eq!(mode, RefreshMode::AfterAllIndicesLoaded);
    mode.never();
    assert_eq!(mode, RefreshMode::Never);
    let ctx = IndexCtx {
        refresh_mode: mode,
        force_refresh: false,
        generation: 3,
        loose_compression: 1,
    };
    let forced = ctx.force_refresh();
    assert!(forced.force_refresh && forced.generation == 3);
}

fn store_with(slots: Vec<Slot>, slot_indices: Vec<usize>) -> Store {
    let mut store = Store::at_opts(bytes("objects"), true, bytes("cwd"), 0, vec![], Options::default())
        .expect("valid");
    store.slots = slots;
    store.slot_indices = slot_indices;
    store.generation = 1;
    store
}

const UNLOADED: PackState = PackState::Unloaded;

fn standalone(pack: PackState) -> Slot {
    Slot {
        generation: 1,
        files: Some(IndexAndPacks::Index {
            index_loaded: true,
            pack,
        }),
    }
}

fn multi(packs: Vec<PackState>) -> Slot {
    Slot {
        generation: 1,
        files: Some(IndexAndPacks::MultiIndex {
            index_loaded: false,
            packs,
        }),
    }
}

#[test]
fn metrics_count_reachable_files() {
    let empty = Slot {
        generation: 0,
        files: None,
    };
    let store = store_with(
        vec![
            standalone(PackState::Loaded(0)),
            empty.clone(),
            multi(vec![PackState::Loaded(1), PackState::Missing, PackState::Loaded(2)]),
            standalone(PackState::Loaded(3)),
            empty,
        ],
        vec![2, 0, 1],
    );
    let metrics = store.metrics();
    assert_eq!(metrics.open_reachable_packs, 3);
    assert_eq!(metrics.known_packs, 4);
    assert_eq!(metrics.open_reachable_indices, 1);
    assert_eq!(metrics.known_reachable_indices, 2);
    assert_eq!(metrics.unused_slots, 2);
    assert_eq!((metrics.unreachable_indices, metrics.unreachable_packs), (0, 0));
}

#[test]
fn packs_are_handed_out_only_if_nothing_changed() {
    let store = store_with(vec![standalone(UNLOADED), multi(vec![PackState::Loaded(7), UNLOADED])], vec![0, 1]);
    let request = |slot: usize, pack_index: Option<u32>, generation: u32| PackRequest {
        slot,
        pack_index,
        generation,
    };
    assert_eq!(store.load_pack(request(0, None, 1), true), PackLookup::Lock);
    assert_eq!(store.load_pack(request(0, None, 2), true), PackLookup::Stale);
    assert_eq!(store.load_pack(request(0, None, 1), false), PackLookup::Stale);
    assert_eq!(store.load_pack(request(0, Some(0), 1), true), PackLookup::Stale);
    assert_eq!(store.load_pack(request(1, Some(0), 1), true), PackLookup::Loaded(7));
    assert_eq!(store.load_pack(request(1, Some(1), 1), true), PackLookup::Lock);
    assert_eq!(store.load_pack(request(1, Some(2), 1), true), PackLookup::Stale);
    assert_eq!(store.load_pack(request(1, None, 1), true), PackLookup::Stale);
    let reused = Slot {
        generation: 2,
        ..standalone(PackState::Loaded(1))
    };
    assert_eq!(request(0, None, 1).look(1, &reused, true), PackLookup::Stale);

    let wanted = request(1, Some(1), 1);
    let files = multi(vec![PackState::Loaded(7), UNLOADED]).files;
    assert_eq!(wanted.look_locked(&files, false), LockedLookup::Replaced);
    assert_eq!(wanted.look_locked(&None, true), LockedLookup::Replaced);
    assert_eq!(wanted.look_locked(&standalone(UNLOADED).files, true), LockedLookup::OtherKind);
    assert_eq!(wanted.look_locked(&files, true), LockedLookup::Load);
    assert!(wanted.needs_file(&files));
    assert_eq!(wanted.record(files.clone(), PackOutcome::Failed), files);
    let missing = wanted.record(files.clone(), PackOutcome::Missing);
    assert_eq!(missing, multi(vec![PackState::Loaded(7), PackState::Missing]).files);
    assert!(!wanted.needs_file(&missing), "a missing pack is not looked for again");
    assert_eq!(wanted.look_locked(&missing, true), LockedLookup::Load);
    assert_eq!(wanted.loaded(&missing), None);
    let loaded = wanted.record(files, PackOutcome::Loaded(9));
    assert_eq!(loaded, multi(vec![PackState::Loaded(7), PackState::Loaded(9)]).files);
    assert!(!wanted.needs_file(&loaded));
    assert_eq!(wanted.loaded(&loaded), Some(9));
    let slot = Slot {
        generation: 1,
        files: loaded,
    };
    for _ in 0..2 {
        assert_eq!(
            wanted.look(1, &slot, true),
            PackLookup::Loaded(9),
            "the very same pack is handed out again"
        );
    }
    let files = multi(vec![PackState::Loaded(7), UNLOADED]).files;
    assert_eq!(wanted.lock(&files, true), LockedStep::ReadFile);
    assert_eq!(wanted.lock(&files, false), LockedStep::Answer(PackAnswer::Nothing));
    assert_eq!(
        wanted.lock(&standalone(UNLOADED).files, true),
        LockedStep::Answer(PackAnswer::Nothing)
    );
    let (missing, answer) = wanted.unlock(files.clone(), PackOutcome::Missing);
    assert_eq!(answer, PackAnswer::Nothing);
    assert_eq!(wanted.lock(&missing, true), LockedStep::Answer(PackAnswer::Nothing));
    let (loaded, answer) = wanted.unlock(files.clone(), PackOutcome::Loaded(9));
    assert_eq!(answer, PackAnswer::Pack(9));
    assert_eq!(wanted.lock(&loaded, true), LockedStep::Answer(PackAnswer::Pack(9)));
    assert_eq!(
        wanted.unlock(files.clone(), PackOutcome::Failed),
        (files, PackAnswer::Failure)
    );

    assert_eq!(
        request(0, None, 1).record(standalone(UNLOADED).files, PackOutcome::Loaded(3)),
        standalone(PackState::Loaded(3)).files
    );

    assert_eq!(
        wanted.locking_point(),
        Point::PackSlotLocking {
            slot: 1,
            pack_index: Some(1)
        }
    );
    assert_eq!(
        wanted.locked_point(),
        Point::PackSlotLocked {
            slot: 1,
            pack_index: Some(1)
        }
    );
    assert_eq!(
        wanted.completed_point(PackOutcome::Missing),
        Point::PackLoadCompleted {
            slot: 1,
            pack_index: Some(1),
            outcome: LoadOutcome::Failure
        }
    );
}

#[test]
fn instructions_are_decoded() {
    let letters = b"OCDNRT!SFGE?HIP#WQr+-XMmLK";
    let opcodes = [
        Opcode::Open,
        Opcode::Clone,
        Opcode::Drop,
        Opcode::Never,
        Opcode::SetRefresh,
        Opcode::AdvanceClock,
        Opcode::MarkStale,
        Opcode::Stable,
        Opcode::Find,
        Opcode::Locate,
        Opcode::Exists,
        Opcode::Missing,
        Opcode::Header,
        Opcode::IterateStore,
        Opcode::Prefix,
        Opcode::CountStore,
        Opcode::WriteLoose,
        Opcode::QueryLoose,
        Opcode::RemoveLoose,
        Opcode::Publish,
        Opcode::Remove,
        Opcode::Corrupt,
        Opcode::WriteMultiIndex,
        Opcode::RemoveMultiIndex,
        Opcode::Alternate,
        Opcode::Checkpoint,
    ];
    for (letter, opcode) in letters.iter().zip(opcodes) {
        assert_eq!(decode_opcode(*letter), opcode);
    }
    let numbered = [
        Opcode::Open,
        Opcode::Clone,
        Opcode::Drop,
        Opcode::Never,
        Opcode::Stable,
        Opcode::Find,
        Opcode::Missing,
        Opcode::Header,
        Opcode::IterateStore,
        Opcode::Prefix,
        Opcode::CountStore,
        Opcode::WriteLoose,
        Opcode::QueryLoose,
        Opcode::RemoveLoose,
        Opcode::Publish,
        Opcode::Remove,
        Opcode::Corrupt,
        Opcode::WriteMultiIndex,
        Opcode::RemoveMultiIndex,
        Opcode::Alternate,
        Opcode::Checkpoint,
        Opcode::Exists,
        Opcode::Locate,
    ];
    for (number, opcode) in numbered.iter().enumerate() {
        assert_eq!(decode_opcode(number as u8), *opcode);
        assert_eq!(decode_opcode(number as u8 + 161), *opcode);
    }
    assert_eq!(operand(b'7'), 7);
    assert_eq!(operand(b'a'), 97);
    assert!(Opcode::Checkpoint.queries_handle());
    assert!(!Opcode::IterateStore.queries_handle());

    let program = decode_program(b"O01\xffF12");
    assert_eq!(
        program,
        [Instruction {
            opcode: Opcode::Open,
            a: 0,
            b: 1,
            c: 255
        }],
        "what is left over is no instruction"
    );
    assert_eq!(decode_program(&[0; 4000]).len(), 256);
    assert_eq!(database(3), Database::Alternate);
    assert_eq!(database(4), Database::Primary);
    assert_eq!(pack(5), Pack::C);
    assert_eq!(component(9), Component::ReverseIndex);
    assert_eq!(
        pack_set(4),
        PackSet {
            a: true,
            b: false,
            c: true
        }
    );
}

fn instruction(opcode: Opcode, a: usize, b: usize, c: usize) -> Instruction {
    Instruction { opcode, a, b, c }
}

/// The name of the blob with the contents `hello` and a line feed.
fn hello_id() -> ObjectId {
    ObjectId::new(&[
        0xce, 0x01, 0x36, 0x25, 0x03, 0x0b, 0xa8, 0xdb, 0xa9, 0x06, 0xf7, 0x56, 0x96, 0x7f, 0x9e, 0x9c, 0xa3, 0x94,
        0x46, 0x4a,
    ])
}

fn machine() -> Machine {
    let ambiguous = HexPrefix::parse("0202").expect("enough digits");
    Machine::new(vec![id(1), id(2), hello_id()], id(0), ambiguous)
}

fn run(machine: &mut Machine, instruction: Instruction, reply: Reply) -> Result<Outcome, Violation> {
    match machine.begin(instruction, true) {
        Step::Done(outcome) => Ok(outcome),
        Step::Ask(_) => machine.conclude(instruction, reply, true),
    }
}

fn open(machine: &mut Machine, slot: usize) {
    let outcome = run(machine, instruction(Opcode::Open, slot, 3, 0), Reply::Done);
    assert_eq!(outcome, Ok(Outcome::Applied));
}

#[test]
fn handles_are_opened_cloned_and_dropped() {
    let mut machine = machine();
    let no_handle = Ok(Outcome::Skipped(Skip::NoHandle));
    assert_eq!(run(&mut machine, instruction(Opcode::Drop, 1, 0, 0), Reply::Done), no_handle);
    assert_eq!(run(&mut machine, instruction(Opcode::Clone, 0, 1, 0), Reply::Done), no_handle);
    assert_eq!(
        machine.begin(instruction(Opcode::Open, 5, 99, 3), true),
        Step::Ask(Ask::Open {
            slot: 1,
            slots: Slots::Growable { initial: 16 },
            use_multi_pack_index: false
        })
    );
    assert_eq!(
        machine.begin(instruction(Opcode::Open, 2, 0, 0), true),
        Step::Ask(Ask::Open {
            slot: 2,
            slots: Slots::Limit(1),
            use_multi_pack_index: true
        })
    );
    assert_eq!(
        machine.begin(instruction(Opcode::Clone, 0, 1, 0), true),
        Step::Ask(Ask::Clone {
            source: 1,
            destination: 0
        })
    );
    assert_eq!((machine.handle_count(0), machine.handle_count(1)), (2, 1));
    assert!(machine.handle_counts_agree(&vec![2, 2, 1, 0]));
    assert!(!machine.handle_counts_agree(&vec![2, 1, 1, 0]));
    assert_eq!(
        machine.begin(instruction(Opcode::Drop, 1, 0, 0), true),
        Step::Ask(Ask::Drop { slot: 1 })
    );
    assert_eq!(machine.handle_count(0), 1);
}

#[test]
fn handles_are_configured() {
    let mut machine = machine();
    open(&mut machine, 0);
    assert_eq!(
        machine.begin(instruction(Opcode::SetRefresh, 0, 4, 9), true),
        Step::Ask(Ask::SetRefresh {
            slot: 0,
            mode: RefreshMode::AfterDuration(9_000_000)
        })
    );
    assert_eq!(
        run(&mut machine, instruction(Opcode::SetRefresh, 0, 1, 9), Reply::Done),
        Ok(Outcome::RefreshConfigured(RefreshPolicy::AfterDuration(9)))
    );
    assert_eq!(
        run(&mut machine, instruction(Opcode::Checkpoint, 0, 0, 0), Reply::Done),
        Ok(Outcome::Skipped(Skip::RefreshNotStrict))
    );
    assert_eq!(
        run(&mut machine, instruction(Opcode::Never, 0, 0, 0), Reply::Done),
        Ok(Outcome::RefreshConfigured(RefreshPolicy::Never))
    );
    assert!(machine.watches_refreshes(instruction(Opcode::Find, 0, 0, 0)));
    assert!(!machine.watches_refreshes(instruction(Opcode::CountStore, 0, 0, 0)));
    assert_eq!(
        run(&mut machine, instruction(Opcode::AdvanceClock, 1, 2, 3), Reply::Done),
        Ok(Outcome::ClockAdvanced(801))
    );
    assert_eq!(
        machine.begin(instruction(Opcode::AdvanceClock, 1, 0, 0), true),
        Step::Ask(Ask::SetClock { now: 802 })
    );
    assert!(kept_from_refreshing(0, 1) && kept_from_refreshing(4, 4) && !kept_from_refreshing(1, 2));
}

#[test]
fn lookups_are_remembered() {
    let mut machine = machine();
    open(&mut machine, 0);
    assert_eq!(
        machine.begin(instruction(Opcode::Find, 0, 5, 0), true),
        Step::Ask(Ask::Find {
            slot: 0,
            object: Object::Packed(2)
        })
    );
    let blob = |text: &str| Found::Object {
        kind: ObjectKind::Blob,
        data: bytes(text),
    };
    let found = blob("hello\n");
    let wrong = blob("hello");
    let find = instruction(Opcode::Find, 0, 5, 0);
    assert_eq!(machine.conclude(find, Reply::Found(wrong), true), Err(Violation::WrongObject));
    let wrong_kind = Found::Object {
        kind: ObjectKind::Tag,
        data: bytes("hello\n"),
    };
    assert_eq!(
        machine.conclude(find, Reply::Found(wrong_kind), true),
        Err(Violation::WrongObject)
    );
    assert!(machine.observed_objects(0).is_empty());
    assert_eq!(
        machine.conclude(find, Reply::Found(found), true),
        Ok(Outcome::Query(Query::Found))
    );
    assert_eq!(machine.observed_objects(0), [(0, 2)]);
    let refresh = Ok(Outcome::Query(Query::Error(QueryError::Refresh)));
    assert_eq!(
        machine.conclude(find, Reply::Found(Found::Failed(FindError::LoadIndex)), true),
        refresh
    );
    assert!(failed_to_refresh(Outcome::Query(Query::Error(QueryError::Refresh))));
    assert!(failed_to_refresh(Outcome::WriteError(WriteError::Refresh)));
    assert!(!failed_to_refresh(Outcome::Applied));
    assert_eq!(
        machine.conclude(find, Reply::Found(Found::Failed(FindError::DeltaBaseMissing)), true),
        Ok(Outcome::Query(Query::Error(QueryError::PackedObject)))
    );
    assert_eq!(
        machine.conclude(find, Reply::Done, true),
        Err(Violation::UnexpectedReply)
    );

    let header = instruction(Opcode::Header, 0, 0, 0);
    let reply = |kind: ObjectKind, size: u64, object: Found| Reply::Header {
        header: HeaderFound::Header { kind, size },
        object,
    };
    assert_eq!(
        machine.conclude(header, reply(ObjectKind::Blob, 5, blob("hello")), true),
        Ok(Outcome::Query(Query::Found))
    );
    assert_eq!(
        machine.conclude(header, reply(ObjectKind::Blob, 6, blob("hello")), true),
        Err(Violation::HeaderDisagrees)
    );
    assert_eq!(
        machine.conclude(header, reply(ObjectKind::Tree, 5, blob("hello")), true),
        Err(Violation::HeaderDisagrees)
    );
    let half = || reply(ObjectKind::Blob, 5, Found::Nothing);
    assert_eq!(machine.conclude(header, half(), true), Err(Violation::HeaderDisagrees));
    assert_eq!(
        machine.conclude(header, half(), false),
        Ok(Outcome::Query(Query::Stale)),
        "files in transition excuse disagreement"
    );
    assert_eq!(
        machine.conclude(instruction(Opcode::Exists, 0, 1, 0), Reply::Exists(false), true),
        Ok(Outcome::Query(Query::Missing))
    );
}

#[test]
fn stable_locations_are_kept() {
    let mut machine = machine();
    open(&mut machine, 0);
    let locate = instruction(Opcode::Locate, 0, 0, 0);
    assert_eq!(
        machine.begin(locate, true),
        Step::Done(Outcome::Skipped(Skip::NotStable))
    );
    assert_eq!(
        run(&mut machine, instruction(Opcode::Stable, 0, 0, 0), Reply::Done),
        Ok(Outcome::Applied)
    );
    assert_eq!(
        machine.begin(instruction(Opcode::Checkpoint, 0, 0, 0), true),
        Step::Done(Outcome::Skipped(Skip::NoStableLocation))
    );
    let location = Location {
        pack_id: 1,
        pack_offset: 12,
        entry_size: 34,
    };
    let located = |readable: bool| Reply::Located {
        location: Some(location),
        readable,
    };
    assert_eq!(
        machine.conclude(locate, located(false), true),
        Err(Violation::UnreadableLocation)
    );
    for _ in 0..2 {
        assert_eq!(
            machine.conclude(locate, located(true), true),
            Ok(Outcome::Query(Query::Found))
        );
    }
    assert_eq!(machine.kept_locations(0), [location], "no location is kept twice");
    assert_eq!(
        machine.begin(instruction(Opcode::Checkpoint, 0, 0, 0), true),
        Step::Done(Outcome::Compared(1))
    );
    assert_eq!(
        machine.begin(instruction(Opcode::Checkpoint, 0, 0, 0), false),
        Step::Done(Outcome::Skipped(Skip::FixtureInTransition))
    );
}

#[test]
fn loose_objects_are_written_queried_and_iterated() {
    let mut machine = machine();
    open(&mut machine, 0);
    let query = |input: usize| instruction(Opcode::QueryLoose, 0, 6, input);
    assert_eq!(
        machine.begin(query(0), true),
        Step::Done(Outcome::Skipped(Skip::NoLooseObject))
    );
    let write = instruction(Opcode::WriteLoose, 0, 6, 7);
    assert_eq!(
        machine.begin(write, true),
        Step::Ask(Ask::WriteLoose {
            slot: 0,
            number: 6,
            content: 7
        })
    );
    let failed = Reply::Written(Err(WriteFailure::Io));
    assert_eq!(
        machine.conclude(write, failed, true),
        Ok(Outcome::WriteError(WriteError::Io))
    );
    assert_eq!(
        machine.conclude(write, Reply::Written(Ok(id(9))), true),
        Ok(Outcome::Applied)
    );
    assert_eq!(
        machine.begin(query(3), true),
        Step::Ask(Ask::Find {
            slot: 0,
            object: Object::Loose(2)
        })
    );
    assert_eq!(
        machine.begin(query(38), true),
        Step::Ask(Ask::LookupPrefix {
            slot: 0,
            prefix: Prefix::Of {
                object: Object::Loose(2),
                hex_len: 5
            },
            collect: false
        })
    );
    assert_eq!(
        machine.begin(instruction(Opcode::RemoveLoose, 0, 2, 0), true),
        Step::Ask(Ask::RemoveLoose { loose: 2 })
    );
    let iterate = instruction(Opcode::IterateStore, 0, 1, 0);
    let iterated = |ids: Vec<Option<ObjectId>>| Reply::Iterated(Some(ids));
    assert_eq!(
        machine.conclude(iterate, iterated(vec![Some(id(1)), Some(id(9))]), true),
        Ok(Outcome::Iterated(2))
    );
    assert_eq!(
        machine.conclude(iterate, iterated(vec![Some(id(1)); 20]), true),
        Ok(Outcome::Iterated(16))
    );
    assert_eq!(
        machine.conclude(iterate, iterated(vec![Some(id(8))]), true),
        Err(Violation::UnknownObject)
    );
    assert_eq!(
        machine.conclude(iterate, iterated(vec![None]), true),
        Ok(Outcome::Query(Query::Error(QueryError::LooseTraversal)))
    );
    assert_eq!(
        machine.conclude(iterate, Reply::Iterated(None), true),
        Ok(Outcome::Query(Query::Error(QueryError::Refresh)))
    );
    assert_eq!(write_error(WriteFailure::Other), Err(Violation::UnknownWriteError));
}

#[test]
fn prefixes_are_validated() {
    let mut machine = machine();
    open(&mut machine, 0);
    let prefix = |input: usize| instruction(Opcode::Prefix, 0, 1, input);
    assert_eq!(
        machine.begin(prefix(40), true),
        Step::Ask(Ask::Disambiguate {
            slot: 0,
            object: Object::Packed(1),
            hex_len: 7
        })
    );
    assert_eq!(
        machine.begin(prefix(3), true),
        Step::Ask(Ask::LookupPrefix {
            slot: 0,
            prefix: Prefix::Ambiguous,
            collect: true
        })
    );
    assert_eq!(
        machine.conclude(
            prefix(0),
            Reply::Disambiguated(Err(DisambiguateError::Lookup(PrefixError::LooseWalkDir))),
            true
        ),
        Ok(Outcome::Query(Query::Error(QueryError::LooseTraversal)))
    );
    let mut reply = |input: usize, result: PrefixResult, candidates: Vec<ObjectId>| {
        machine.conclude(prefix(input), Reply::Prefix(PrefixReply { result, candidates }), true)
    };
    let mut similar = id(2);
    similar.bytes[3] = 9;
    let mut different = id(2);
    different.bytes[2] = 9;
    let unique = |id: &ObjectId| PrefixResult::Unique(id.clone());
    let found = Ok(Outcome::Query(Query::Found));
    assert_eq!(reply(2, unique(&id(2)), vec![id(2)]), found);
    assert_eq!(
        reply(2, unique(&similar), vec![similar.clone()]),
        found,
        "only the digits of the prefix matter"
    );
    assert_eq!(
        reply(2, unique(&id(2)), vec![id(2), different.clone()]),
        Err(Violation::WrongCandidate)
    );
    assert_eq!(
        reply(2, unique(&different), vec![id(2)]),
        Err(Violation::WrongResult)
    );
    assert_eq!(
        reply(2, unique(&id(2)), vec![id(2), similar.clone()]),
        Err(Violation::WrongCandidates)
    );
    assert_eq!(
        reply(1, unique(&id(2)), vec![]),
        found,
        "candidates that aren't collected don't matter"
    );
    assert_eq!(
        reply(3, PrefixResult::Ambiguous, vec![id(2)]),
        Err(Violation::TooFewCandidates)
    );
    assert_eq!(
        reply(3, PrefixResult::Ambiguous, vec![id(2), different]),
        Ok(Outcome::Query(Query::Ambiguous))
    );
    assert_eq!(
        reply(4, PrefixResult::Nothing, vec![id(0)]),
        Err(Violation::UnexpectedCandidates)
    );
    assert_eq!(
        reply(4, unique(&similar), vec![]),
        Err(Violation::WrongResult),
        "the prefix is the whole name of the missing object"
    );
}

#[test]
fn prefixes_are_parsed() {
    let prefix = HexPrefix::parse("0A1b2").expect("enough digits");
    assert_eq!(prefix.hex_len, 5);
    assert_eq!(prefix.id.to_hex(), format!("0a1b2{}", "0".repeat(35)).as_bytes());
    let mut name = id(0);
    name.bytes[..3].copy_from_slice(&[0x0a, 0x1b, 0x2f]);
    assert!(prefix.begins(&name));
    name.bytes[2] = 0x30;
    assert!(!prefix.begins(&name));
    assert_eq!(HexPrefix::parse("0a1"), None);
    assert_eq!(HexPrefix::parse("0a1g"), None);
    assert!(HexPrefix::parse(&"0".repeat(40)).is_some());
    assert_eq!(HexPrefix::parse(&"0".repeat(41)), None);
}

#[test]
fn found_objects_have_the_name_they_were_asked_by() {
    let empty = Found::Object {
        kind: ObjectKind::Tree,
        data: Vec::new(),
    };
    let empty_tree = ObjectId::new(&[
        0x4b, 0x82, 0x5d, 0xc6, 0x42, 0xcb, 0x6e, 0xb9, 0xa0, 0x60, 0xe5, 0x4b, 0xf8, 0xd6, 0x92, 0x88, 0xfb, 0xee,
        0x49, 0x04,
    ]);
    assert_eq!(validate_find(&empty, &empty_tree), Ok(Outcome::Query(Query::Found)));
    assert_eq!(validate_find(&empty, &hello_id()), Err(Violation::WrongObject));
    assert_eq!(
        validate_find(&Found::Nothing, &empty_tree),
        Ok(Outcome::Query(Query::Missing))
    );
    assert_eq!(validate_hash(&None, &empty_tree), Err(Violation::NoHash));
}

#[test]
fn files_are_changed_and_stores_compared() {
    let mut machine = machine();
    assert_eq!(
        machine.begin(instruction(Opcode::Publish, 1, 4, 8), true),
        Step::Ask(Ask::Apply(FixtureAction::Publish {
            database: Database::Alternate,
            pack: Pack::B,
            component: Component::Index
        }))
    );
    let multi = instruction(Opcode::WriteMultiIndex, 0, 0, 0);
    let written = |can_write: bool, written: bool| Reply::MultiIndex { can_write, written };
    assert_eq!(machine.conclude(multi, written(true, true), true), Ok(Outcome::Applied));
    assert_eq!(machine.conclude(multi, written(false, false), true), Ok(Outcome::Rejected));
    assert_eq!(
        machine.conclude(multi, written(true, false), true),
        Err(Violation::MultiIndexRefused)
    );
    assert_eq!(
        machine.conclude(multi, written(false, true), true),
        Err(Violation::MultiIndexWritten)
    );

    open(&mut machine, 0);
    open(&mut machine, 1);
    machine.begin(instruction(Opcode::Clone, 2, 0, 0), true);
    machine.begin(instruction(Opcode::Clone, 3, 0, 0), true);
    machine.begin(instruction(Opcode::Never, 3, 0, 0), true);
    assert_eq!(
        machine.begin(instruction(Opcode::Checkpoint, 0, 0, 0), true),
        Step::Ask(Ask::Compare { store_id: 0 })
    );
    assert_eq!(machine.compared_handles(0), [0, 2]);

    let agreeing = |count: usize| Comparison {
        missing: None,
        lookups: vec![(Ok(true), true); count],
    };
    assert_eq!(compare(&vec![agreeing(2), agreeing(3)]), Ok(Outcome::Compared(5)));
    let disagreeing = Comparison {
        missing: None,
        lookups: vec![(Ok(true), true), (Ok(false), true)],
    };
    assert_eq!(
        compare(&vec![agreeing(1), disagreeing]),
        Err(Violation::Disagreement)
    );
    let failing = Comparison {
        missing: Some(FindError::Loose),
        lookups: vec![],
    };
    assert_eq!(
        compare(&vec![failing, agreeing(1)]),
        Ok(Outcome::Query(Query::Error(QueryError::LooseObject)))
    );
}

#[test]
fn only_advancing_the_clock_needs_room_on_it() {
    let mut machine = machine();
    open(&mut machine, 0);
    machine.now = u64::MAX;
    assert_eq!(
        machine.begin(instruction(Opcode::Missing, 0, 0, 0), true),
        Step::Ask(Ask::Find {
            slot: 0,
            object: Object::Missing
        })
    );
    assert_eq!(
        machine.begin(instruction(Opcode::AdvanceClock, 0, 0, 0), true),
        Step::Ask(Ask::SetClock { now: u64::MAX })
    );
}
