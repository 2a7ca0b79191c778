use memscan::maps::parse_pid_maps;
use memscan::pass::Turn;
use memscan::region::{MemoryRegion, RegionKind};
use memscan::session::{parse_replacement, Command, Reaction, Session, Verdict};
use memscan::trace::Request;
use memscan::word::ByteOrder;

const WORD: usize = std::mem::size_of::<usize>();

fn stack() -> MemoryRegion {
    MemoryRegion::new(RegionKind::Stack, 0x7000, 0x7000 + 8 * WORD).unwrap()
}

fn heap() -> MemoryRegion {
    MemoryRegion::new(RegionKind::Heap, 0x1000, 0x1000 + 4 * WORD).unwrap()
}

fn copy_of(words: &[usize]) -> Vec<u8> {
    words.iter().flat_map(|word| word.to_le_bytes()).collect()
}

fn with_candidates(heap: Option<MemoryRegion>) -> Session {
    let mut session = Session::new(stack(), heap).unwrap();
    let verdict =
        session.scanned(&copy_of(&[5, 0, 5, 0, 5, 0, 0, 0]), 5, ByteOrder::LittleEndian);
    assert_eq!(verdict, Verdict::Several);
    assert_eq!(session.candidates().len(), 3);
    session
}

#[test]
fn lines_spell_commands() {
    assert_eq!(Command::parse(""), Command::Exit);
    assert_eq!(Command::parse("\n"), Command::Exit);
    assert_eq!(Command::parse("e\n"), Command::Exit);
    assert_eq!(Command::parse("exit\n"), Command::Exit);
    assert_eq!(Command::parse("c\n"), Command::Clear);
    assert_eq!(Command::parse("clear\n"), Command::Clear);
    assert_eq!(Command::parse("s\n"), Command::Stack);
    assert_eq!(Command::parse("stack\n"), Command::Stack);
    assert_eq!(Command::parse("h\n"), Command::Heap);
    assert_eq!(Command::parse("heap\n"), Command::Heap);
    assert_eq!(Command::parse("42\n"), Command::Value(42));
    assert_eq!(Command::parse("  0 \r\n"), Command::Value(0));
    assert_eq!(Command::parse("+7\n"), Command::Value(7));
}

#[test]
fn other_lines_are_invalid() {
    for line in ["Exit\n", "E\n", "STACK\n", "heaps\n", "x\n", "-1\n", "4 2\n", "0x10\n", "1.5\n"] {
        assert_eq!(Command::parse(line), Command::Invalid, "{line:?}");
    }
    let beyond = format!("{}0\n", usize::MAX);
    assert_eq!(Command::parse(&beyond), Command::Invalid);
}

#[test]
fn replacement_is_a_decimal_numeral() {
    assert_eq!(parse_replacement("1337\n"), Some(1337));
    assert_eq!(parse_replacement(" 0 "), Some(0));
    assert_eq!(parse_replacement("\n"), None);
    assert_eq!(parse_replacement("-5\n"), None);
    assert_eq!(parse_replacement("exit\n"), None);
}

#[test]
fn session_starts_on_the_stack_without_candidates() {
    let session = Session::new(stack(), Some(heap())).unwrap();
    assert_eq!(session.active(), RegionKind::Stack);
    assert_eq!(session.region(), stack());
    assert!(session.candidates().is_empty());
}

#[test]
fn session_wants_a_stack_and_a_heap_in_their_places() {
    assert!(Session::new(heap(), None).is_none());
    assert!(Session::new(stack(), Some(stack())).is_none());
    assert!(Session::new(stack(), None).is_some());
}

#[test]
fn exit_quits() {
    let mut session = with_candidates(None);
    assert_eq!(session.apply(Command::Exit), Reaction::Quit);
}

#[test]
fn clear_drops_the_candidates_and_stays_in_the_region() {
    let mut session = with_candidates(Some(heap()));
    assert_eq!(session.apply(Command::Clear), Reaction::Cleared);
    assert!(session.candidates().is_empty());
    assert_eq!(session.active(), RegionKind::Stack);
}

#[test]
fn stack_on_the_stack_changes_nothing() {
    let mut session = with_candidates(Some(heap()));
    assert_eq!(session.apply(Command::Stack), Reaction::Unchanged);
    assert_eq!(session.candidates().len(), 3);
    assert_eq!(session.active(), RegionKind::Stack);
}

#[test]
fn switching_the_region_clears_the_candidates() {
    let mut session = with_candidates(Some(heap()));
    assert_eq!(session.apply(Command::Heap), Reaction::Switched(RegionKind::Heap));
    assert!(session.candidates().is_empty());
    assert_eq!(session.active(), RegionKind::Heap);
    assert_eq!(session.region(), heap());

    let verdict = session.scanned(&copy_of(&[9, 9, 0, 0]), 9, ByteOrder::LittleEndian);
    assert_eq!(verdict, Verdict::Several);
    assert_eq!(session.candidates(), &vec![0x1000, 0x1000 + WORD]);
    assert_eq!(session.apply(Command::Heap), Reaction::Unchanged);
    assert_eq!(session.candidates().len(), 2);

    assert_eq!(session.apply(Command::Stack), Reaction::Switched(RegionKind::Stack));
    assert!(session.candidates().is_empty());
    assert_eq!(session.active(), RegionKind::Stack);
}

#[test]
fn heap_without_a_heap_changes_nothing() {
    let mut session = with_candidates(None);
    let before = session.candidates().clone();
    assert_eq!(session.apply(Command::Heap), Reaction::Unchanged);
    assert_eq!(session.active(), RegionKind::Stack);
    assert_eq!(session.candidates(), &before);
}

#[test]
fn value_scans_when_there_are_no_candidates_and_rechecks_when_there_are() {
    let mut session = Session::new(stack(), None).unwrap();
    assert_eq!(
        session.apply(Command::Value(5)),
        Reaction::Scan { region: stack(), value: 5 }
    );
    let mut session = with_candidates(None);
    assert_eq!(session.apply(Command::Value(6)), Reaction::Recheck { value: 6 });
    assert_eq!(session.candidates().len(), 3);
}

#[test]
fn there_is_a_pass_over_the_candidates_only_if_there_are_any() {
    assert!(Session::new(stack(), None).unwrap().observe().is_none());
    let (_, request) = with_candidates(None).observe().unwrap();
    assert_eq!(request, Request::Attach);
}

#[test]
fn invalid_line_is_rejected_and_changes_nothing() {
    let mut session = with_candidates(None);
    assert_eq!(session.apply(Command::Invalid), Reaction::Rejected);
    assert_eq!(session.candidates().len(), 3);
}

#[test]
fn scan_without_a_match_leaves_no_candidates() {
    let mut session = Session::new(stack(), None).unwrap();
    let verdict = session.scanned(&copy_of(&[1, 2, 3, 4, 5, 6, 7, 8]), 9, ByteOrder::LittleEndian);
    assert_eq!(verdict, Verdict::NoMatches);
    assert!(session.candidates().is_empty());
}

#[test]
fn recheck_narrows_until_one_is_left() {
    let mut session = with_candidates(None);
    assert_eq!(session.candidates(), &vec![0x7000, 0x7000 + 2 * WORD, 0x7000 + 4 * WORD]);
    assert_eq!(session.rechecked(&[6, 5, 6], 6), Verdict::Several);
    assert_eq!(session.candidates(), &vec![0x7000, 0x7000 + 4 * WORD]);
    assert_eq!(
        session.rechecked(&[6, 7], 7),
        Verdict::Converged { address: 0x7000 + 4 * WORD, value: 7 }
    );
    assert_eq!(session.rechecked(&[8], 7), Verdict::NoMatches);
    assert!(session.candidates().is_empty());
}

#[test]
fn stack_is_found_scanned_and_rechecked_down_to_the_write() {
    let listing = "7ffee0000000-7ffee0021000 rw-p 00000000 00:00 0 [stack]\n";
    let (stack, heap) = parse_pid_maps(listing).unwrap();
    assert_eq!(stack.kind(), RegionKind::Stack);
    assert_eq!(stack.size(), 0x21000);
    assert!(heap.is_none());

    let mut session = Session::new(stack, heap).unwrap();
    let value = match Command::parse("42\n") {
        Command::Value(value) => value,
        other => panic!("not a value: {other:?}"),
    };
    let region = match session.apply(Command::Value(value)) {
        Reaction::Scan { region, value: 42 } => region,
        other => panic!("no scan: {other:?}"),
    };
    let mut buffer = vec![0u8; region.size()];
    buffer[0x10..0x10 + WORD].copy_from_slice(&42usize.to_ne_bytes());
    let order = if 1usize.to_ne_bytes()[0] == 1 {
        ByteOrder::LittleEndian
    } else {
        ByteOrder::BigEndian
    };
    let verdict = session.scanned(&buffer, value, order);
    assert_eq!(session.candidates(), &vec![0x7ffee0000010]);
    assert_eq!(verdict, Verdict::Converged { address: 0x7ffee0000010, value: 42 });

    // The same value again, with the word still in place.
    assert_eq!(session.apply(Command::Value(42)), Reaction::Recheck { value: 42 });
    let (mut pass, mut request) = session.observe().unwrap();
    assert_eq!(request, Request::Attach);
    let words = loop {
        let reply = match request {
            Request::Peek(0x7ffee0000010) => Ok(42),
            Request::Peek(other) => panic!("peek at {other:#x}"),
            _ => Ok(0),
        };
        match pass.resume(reply) {
            Turn::Perform(next, following) => {
                pass = next;
                request = following;
            }
            Turn::Observed(words) => break words,
            other => panic!("the pass failed: {other:?}"),
        }
    };
    let verdict = session.rechecked(&words, 42);
    assert_eq!(session.candidates(), &vec![0x7ffee0000010]);
    assert_eq!(verdict, Verdict::Converged { address: 0x7ffee0000010, value: 42 });
}
