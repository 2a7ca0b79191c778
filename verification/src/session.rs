//! The interactive session: what each line of input means and what it does to
//! the active region and the list of candidate addresses.
//!
//! The caller owns the terminal and the target process. It reads a line, asks
//! [`Command::parse`] what it says and [`Session::apply`] what follows from
//! it, and then draws, searches or stops as the [`Reaction`] tells it to.

use crate::text::{same_bytes, spec_trim, trim};
use crate::filter::{filter_addresses, lemma_retained_ascending, retained};
use crate::number::{parse_unsigned, spec_parse_unsigned, Radix};
use crate::pass::{JobModel, Pass, PassModel};
use crate::region::{MemoryRegion, RegionKind};
use crate::scan::{as_ints, find_usize_in_memory_region, spec_find};
use crate::trace::Request;
use crate::word::ByteOrder;
use vstd::prelude::*;
use vstd::string::StringSliceAdditionalSpecFns;

verus! {

/// One line of input, understood.
#[derive(Clone, Copy, Debug, PartialEq, Eq, Structural)]
pub enum Command {
    /// Leave the session.
    Exit,
    /// Forget the candidates.
    Clear,
    /// Search the stack from now on.
    Stack,
    /// Search the heap from now on.
    Heap,
    /// Look for this word.
    Value(usize),
    /// Anything else.
    Invalid,
}

/// The command that a line of input spells, white space at its ends aside.
///
/// Key words are case-sensitive; an empty line leaves the session.
pub open spec fn spec_parse_command(line: Seq<u8>) -> Command {
    let word = spec_trim(line);
    if word.len() == 0 || word == "e".spec_bytes() || word == "exit".spec_bytes() {
        Command::Exit
    } else if word == "c".spec_bytes() || word == "clear".spec_bytes() {
        Command::Clear
    } else if word == "s".spec_bytes() || word == "stack".spec_bytes() {
        Command::Stack
    } else if word == "h".spec_bytes() || word == "heap".spec_bytes() {
        Command::Heap
    } else {
        match spec_parse_unsigned(word, Radix::Decimal) {
            Some(value) => Command::Value(value),
            None => Command::Invalid,
        }
    }
}

impl Command {
    /// Reads one line of input.
    pub fn parse(line: &str) -> (command: Command)
        ensures
            command == spec_parse_command(line.spec_bytes()),
    {
        let word = trim(line.as_bytes());
        if word.len() == 0 || same_bytes(word, "e".as_bytes()) || same_bytes(
            word,
            "exit".as_bytes(),
        ) {
            Command::Exit
        } else if same_bytes(word, "c".as_bytes()) || same_bytes(word, "clear".as_bytes()) {
            Command::Clear
        } else if same_bytes(word, "s".as_bytes()) || same_bytes(word, "stack".as_bytes()) {
            Command::Stack
        } else if same_bytes(word, "h".as_bytes()) || same_bytes(word, "heap".as_bytes()) {
            Command::Heap
        } else {
            match parse_unsigned(word, Radix::Decimal) {
                Some(value) => Command::Value(value),
                None => Command::Invalid,
            }
        }
    }
}

/// The word that a line of input gives to write, white space at its ends
/// aside: a decimal numeral, or nothing.
pub open spec fn spec_parse_replacement(line: Seq<u8>) -> Option<usize> {
    spec_parse_unsigned(spec_trim(line), Radix::Decimal)
}

/// Reads the word that is to replace the one found.
pub fn parse_replacement(line: &str) -> (value: Option<usize>)
    ensures
        value == spec_parse_replacement(line.spec_bytes()),
{
    parse_unsigned(trim(line.as_bytes()), Radix::Decimal)
}

/// What a search has left of the candidates.
#[derive(Clone, Copy, Debug, PartialEq, Eq, Structural)]
pub enum Verdict {
    /// One address is left: ask for the word to write there, write it, and
    /// end the session. `value` is the word that was sought last.
    Converged { address: usize, value: usize },
    /// No address is left: say so.
    NoMatches,
    /// Several addresses are left: show them.
    Several,
}

/// The verdict on `candidates` after a search for `value`.
pub open spec fn spec_verdict(candidates: Seq<usize>, value: usize) -> Verdict {
    if candidates.len() == 1 {
        Verdict::Converged { address: candidates[0], value }
    } else if candidates.len() == 0 {
        Verdict::NoMatches
    } else {
        Verdict::Several
    }
}

/// What the caller does after a command has been applied.
#[derive(Clone, Copy, Debug, PartialEq, Eq, Structural)]
pub enum Reaction {
    /// The session is over: wipe the screen and stop.
    Quit,
    /// The candidates are gone: erase the listing.
    Cleared,
    /// Another region is active: redraw the header for it.
    Switched(RegionKind),
    /// Nothing changed: put the cursor back at the prompt.
    Unchanged,
    /// Read the whole of `region` and look for `value` in it.
    Scan { region: MemoryRegion, value: usize },
    /// Read the word at each candidate and keep those that hold `value`.
    Recheck { value: usize },
    /// The line was no command: say so.
    Rejected,
}

/// Each address is below the next, so none occurs twice.
pub open spec fn strictly_ascending(addresses: Seq<usize>) -> bool {
    forall|i: int, j: int| 0 <= i < j < addresses.len() ==> addresses[i] < addresses[j]
}

/// What a session is, as far as its behaviour goes.
pub struct SessionModel {
    pub stack: MemoryRegion,
    pub heap: Option<MemoryRegion>,
    pub active: RegionKind,
    pub candidates: Seq<usize>,
}

impl SessionModel {
    /// The heap can be active only if there is one, and no candidate occurs twice.
    pub open spec fn well_formed(self) -> bool {
        &&& self.stack.spec_kind() == RegionKind::Stack
        &&& self.heap matches Some(heap) ==> heap.spec_kind() == RegionKind::Heap
        &&& self.active == RegionKind::Heap ==> self.heap is Some
        &&& strictly_ascending(self.candidates)
    }

    /// The region that the next scan reads.
    pub open spec fn region(self) -> MemoryRegion {
        match self.active {
            RegionKind::Stack => self.stack,
            RegionKind::Heap => self.heap.unwrap(),
        }
    }

    /// The same session with no candidates.
    pub open spec fn cleared(self) -> SessionModel {
        SessionModel { candidates: Seq::empty(), ..self }
    }

    /// The same session with no candidates and `kind` active.
    pub open spec fn switched(self, kind: RegionKind) -> SessionModel {
        SessionModel { candidates: Seq::empty(), active: kind, ..self }
    }

    /// The session after `command`, and what the caller is to do.
    pub open spec fn apply(self, command: Command) -> (SessionModel, Reaction) {
        match command {
            Command::Exit => (self, Reaction::Quit),
            Command::Clear => (self.cleared(), Reaction::Cleared),
            Command::Stack => if self.active == RegionKind::Stack {
                (self, Reaction::Unchanged)
            } else {
                (self.switched(RegionKind::Stack), Reaction::Switched(RegionKind::Stack))
            },
            Command::Heap => if self.heap is Some && self.active == RegionKind::Stack {
                (self.switched(RegionKind::Heap), Reaction::Switched(RegionKind::Heap))
            } else {
                (self, Reaction::Unchanged)
            },
            Command::Value(value) => if self.candidates.len() == 0 {
                (self, Reaction::Scan { region: self.region(), value })
            } else {
                (self, Reaction::Recheck { value })
            },
            Command::Invalid => (self, Reaction::Rejected),
        }
    }
}

/// The state of one interactive session.
pub struct Session {
    stack: MemoryRegion,
    heap: Option<MemoryRegion>,
    active: RegionKind,
    candidates: Vec<usize>,
}

impl View for Session {
    type V = SessionModel;

    closed spec fn view(&self) -> SessionModel {
        SessionModel {
            stack: self.stack,
            heap: self.heap,
            active: self.active,
            candidates: self.candidates@,
        }
    }
}

impl Session {
    #[verifier::type_invariant]
    spec fn coherent(self) -> bool {
        self@.well_formed()
    }

    /// Opens a session on the stack, with no candidates.
    ///
    /// There is a session only if `stack` is a stack region and `heap`, where
    /// given, a heap region.
    pub fn new(stack: MemoryRegion, heap: Option<MemoryRegion>) -> (session: Option<Session>)
        ensures
            session is Some <==> stack.spec_kind() == RegionKind::Stack && (heap matches Some(h)
                ==> h.spec_kind() == RegionKind::Heap),
            session matches Some(s) ==> s@ == (SessionModel {
                stack,
                heap,
                active: RegionKind::Stack,
                candidates: Seq::empty(),
            }) && s@.well_formed(),
    {
        if stack.kind() != RegionKind::Stack {
            return None;
        }
        if let Some(h) = heap {
            if h.kind() != RegionKind::Heap {
                return None;
            }
        }
        Some(Session { stack, heap, active: RegionKind::Stack, candidates: Vec::new() })
    }

    /// Which region the next scan reads.
    pub fn active(&self) -> (kind: RegionKind)
        ensures
            kind == self@.active,
            self@.well_formed(),
    {
        proof {
            use_type_invariant(self);
        }
        self.active
    }

    /// The region that the next scan reads.
    pub fn region(&self) -> (region: MemoryRegion)
        ensures
            region == self@.region(),
            self@.well_formed(),
    {
        proof {
            use_type_invariant(self);
        }
        match self.active {
            RegionKind::Stack => self.stack,
            RegionKind::Heap => match self.heap {
                Some(heap) => heap,
                None => self.stack,
            },
        }
    }

    /// The addresses that may still hold the value sought, in ascending order.
    pub fn candidates(&self) -> (candidates: &Vec<usize>)
        ensures
            candidates@ == self@.candidates,
            self@.well_formed(),
    {
        proof {
            use_type_invariant(self);
        }
        &self.candidates
    }

    /// Carries out `command`.
    ///
    /// The session changes only by losing its candidates and, for a switch,
    /// by the other region becoming active. A switch always empties the list.
    pub fn apply(&mut self, command: Command) -> (reaction: Reaction)
        ensures
            (final(self)@, reaction) == old(self)@.apply(command),
            final(self)@.well_formed(),
            final(self)@.active != old(self)@.active ==> final(self)@.candidates.len() == 0,
    {
        proof {
            use_type_invariant(&*self);
        }
        match command {
            Command::Exit => Reaction::Quit,
            Command::Clear => {
                self.candidates = Vec::new();
                Reaction::Cleared
            },
            Command::Stack => match self.active {
                RegionKind::Stack => Reaction::Unchanged,
                RegionKind::Heap => {
                    self.candidates = Vec::new();
                    self.active = RegionKind::Stack;
                    Reaction::Switched(RegionKind::Stack)
                },
            },
            Command::Heap => match (self.heap, self.active) {
                (Some(_), RegionKind::Stack) => {
                    self.candidates = Vec::new();
                    self.active = RegionKind::Heap;
                    Reaction::Switched(RegionKind::Heap)
                },
                _ => Reaction::Unchanged,
            },
            Command::Value(value) => if self.candidates.len() == 0 {
                Reaction::Scan { region: self.region(), value }
            } else {
                Reaction::Recheck { value }
            },
            Command::Invalid => Reaction::Rejected,
        }
    }

    /// Begins the pass that reads the word at each candidate, for
    /// [`Session::rechecked`] to take. Without candidates there is none.
    pub fn observe(&self) -> (begun: Option<(Pass, Request)>)
        ensures
            begun is Some <==> self@.candidates.len() > 0,
            begun matches Some((pass, request)) ==> (pass@, request) == PassModel::begin(
                JobModel::Observe { addresses: self@.candidates, words: Seq::empty() },
            ),
    {
        if self.candidates.len() == 0 {
            None
        } else {
            let addresses = self.candidates.clone();
            assert(addresses@ =~= self.candidates@);
            Some(Pass::observe(addresses))
        }
    }

    fn verdict(&self, value: usize) -> (verdict: Verdict)
        ensures
            verdict == spec_verdict(self@.candidates, value),
    {
        if self.candidates.len() == 1 {
            Verdict::Converged { address: self.candidates[0], value }
        } else if self.candidates.len() == 0 {
            Verdict::NoMatches
        } else {
            Verdict::Several
        }
    }

    /// Takes `buffer`, a copy of the active region, and makes the places of
    /// its words that hold `value` the candidates.
    pub fn scanned(&mut self, buffer: &[u8], value: usize, order: ByteOrder) -> (verdict: Verdict)
        requires
            buffer@.len() == old(self)@.region().spec_size(),
        ensures
            final(self)@.well_formed(),
            final(self)@ == (SessionModel { candidates: final(self)@.candidates, ..old(self)@ }),
            as_ints(final(self)@.candidates) == spec_find(
                buffer@,
                value,
                order,
                old(self)@.region().spec_start() as int,
            ),
            verdict == spec_verdict(final(self)@.candidates, value),
    {
        proof {
            use_type_invariant(&*self);
        }
        let region = self.region();
        self.candidates = find_usize_in_memory_region(buffer, value, &region, order);
        self.verdict(value)
    }

    /// Takes `words`, the word now at each candidate in turn, and keeps the
    /// candidates whose word is `value`, in their order.
    pub fn rechecked(&mut self, words: &[usize], value: usize) -> (verdict: Verdict)
        requires
            old(self)@.candidates.len() > 0,
            words@.len() == old(self)@.candidates.len(),
        ensures
            final(self)@.well_formed(),
            final(self)@ == (SessionModel {
                candidates: retained(old(self)@.candidates, words@, value),
                ..old(self)@
            }),
            final(self)@.candidates.len() <= old(self)@.candidates.len(),
            verdict == spec_verdict(final(self)@.candidates, value),
    {
        proof {
            use_type_invariant(&*self);
            lemma_retained_ascending(self.candidates@, words@, value);
        }
        let mut kept = self.candidates.clone();
        assert(kept@ =~= self.candidates@);
        filter_addresses(&mut kept, words, value);
        self.candidates = kept;
        self.verdict(value)
    }
}

} // verus!
