use crate::pwn::ResolveError;
use vstd::prelude::*;

verus! {

/// Granularity, in bytes, at which the emulator maps memory.
pub const PAGE_SIZE: u64 = 0x1000;

/// Size, in bytes, of one PLT entry on x86-64, the architecture the search
/// is run for. Candidates are taken entry by entry: one starts at every
/// whole multiple of this size into the stub code, and nowhere else. It is
/// a fixed setting: nothing checks that it suits the image at hand.
pub const PLT_ENTRY_SIZE: u64 = 16;

/// Longest time, in microseconds, that one candidate may run.
pub const PROBE_TIMEOUT: u64 = 100;

/// Largest number of instructions that one candidate may run.
pub const PROBE_INSTRUCTIONS: usize = 5;

/// The start of the page that holds `address`.
pub open spec fn page_floor(address: int) -> int {
    address - address % (PAGE_SIZE as int)
}

/// The first page boundary at or after `address`.
pub open spec fn page_ceil(address: int) -> int {
    page_floor(address + PAGE_SIZE - 1)
}

/// The one slot in which the memory hook leaves the address it was called
/// for. Only the first address of a run is kept.
pub struct ObservationCell {
    slot: Option<u64>,
}

impl View for ObservationCell {
    type V = Option<u64>;

    closed spec fn view(&self) -> Option<u64> {
        self.slot
    }
}

/// What a cell that held `before` holds after the hook fired for each of
/// `addresses` in turn.
pub open spec fn after_records(before: Option<u64>, addresses: Seq<u64>) -> Option<u64> {
    if before is Some || addresses.len() == 0 {
        before
    } else {
        Some(addresses[0])
    }
}

/// Firing for one batch of addresses and then for another leaves what
/// firing for all of them in one go leaves: the first address of all.
pub proof fn lemma_records_compose(before: Option<u64>, first: Seq<u64>, then: Seq<u64>)
    ensures
        after_records(after_records(before, first), then) == after_records(before, first + then),
{
    if first.len() == 0 {
        assert(first + then =~= then);
    }
}

impl ObservationCell {
    /// An empty cell.
    pub fn new() -> (cell: ObservationCell)
        ensures
            cell@ is None,
    {
        ObservationCell { slot: None }
    }

    /// Empties the cell.
    pub fn clear(&mut self)
        ensures
            final(self)@ is None,
    {
        self.slot = None;
    }

    /// Notes that the emulated code tried to reach `address`. An address
    /// noted earlier stays.
    pub fn record(&mut self, address: u64)
        ensures
            final(self)@ == after_records(old(self)@, seq![address]),
    {
        if self.slot.is_none() {
            self.slot = Some(address);
        }
    }

    /// The address that was noted, if any.
    pub fn get(&self) -> (seen: Option<u64>)
        ensures
            seen == self@,
    {
        self.slot
    }
}

/// Where a search stands: what it has asked its driver to do and is
/// waiting to hear about.
#[derive(Debug, Clone, Copy, PartialEq, Eq)]
pub enum Stage {
    /// Memory for the stub code is to be mapped.
    Mapping,
    /// The stub code is to be written into the mapped memory.
    Loading,
    /// The written code is to be read back.
    Checking,
    /// The hook on accesses to unmapped memory is to be installed.
    Hooking,
    /// The candidate at `offset` bytes into the stub code is to be run.
    Probing { offset: u64 },
    /// The search is over.
    Finished { outcome: Result<Option<u64>, ResolveError> },
}

/// What the driver is to do next.
#[derive(Debug, Clone, Copy, PartialEq, Eq)]
pub enum Request {
    /// Map `size` bytes from `start`, readable, writable and executable.
    MapMemory { start: u64, size: u64 },
    /// Write the search's stub code to `address`.
    WriteCode { address: u64 },
    /// Read `len` bytes back from `address`.
    ReadBack { address: u64, len: usize },
    /// Install one hook, over the whole address range, on accesses to
    /// unmapped memory: it records the address in the observation cell and
    /// stops the emulation.
    InstallHook,
    /// With the registers reset and the observation cell empty, run from
    /// `pc`, stopping at `until`, after `timeout` microseconds or after
    /// `count` instructions, whichever comes first. How the run ends does
    /// not matter: the answer is what the cell holds afterwards.
    Probe { pc: u64, until: u64, timeout: u64, count: usize },
    /// Nothing more: release the emulator. This is the search's result.
    Finish { outcome: Result<Option<u64>, ResolveError> },
}

/// What the driver reports back.
#[derive(Debug, Clone, PartialEq, Eq)]
pub enum Reply {
    /// The requested mapping, write or hook is in place.
    Done,
    /// The emulator refused the request.
    Failed,
    /// The bytes that were read back.
    Bytes(Vec<u8>),
    /// What the observation cell held after a run.
    Observed(Option<u64>),
}

/// A reply as a mathematical value.
pub enum ReplyView {
    Done,
    Failed,
    Bytes(Seq<u8>),
    Observed(Option<u64>),
}

impl View for Reply {
    type V = ReplyView;

    open spec fn view(&self) -> ReplyView {
        match self {
            Reply::Done => ReplyView::Done,
            Reply::Failed => ReplyView::Failed,
            Reply::Bytes(bytes) => ReplyView::Bytes(bytes@),
            Reply::Observed(seen) => ReplyView::Observed(*seen),
        }
    }
}

/// A search as a mathematical value.
pub struct SearchView {
    /// The GOT slot whose stub is wanted.
    pub target: u64,
    /// The address the stub code is loaded at.
    pub base: u64,
    /// The stub code.
    pub code: Seq<u8>,
    /// Where the search stands.
    pub stage: Stage,
}

impl SearchView {
    /// The address one past the last byte of stub code.
    pub open spec fn end(self) -> int {
        self.base + self.code.len()
    }

    /// `address` is where a candidate starts: a whole number of entries
    /// into the stub code.
    pub open spec fn candidate(self, address: int) -> bool {
        self.base <= address < self.end() && (address - self.base) % (PLT_ENTRY_SIZE as int) == 0
    }

    /// There is code to search, it can be mapped within the address space,
    /// and the search is at a candidate if it is probing and names one if
    /// it has found a stub.
    pub open spec fn wf(self) -> bool {
        &&& self.code.len() > 0
        &&& page_ceil(self.end()) <= u64::MAX
        &&& self.stage matches Stage::Probing { offset } ==> self.candidate(self.base + offset)
        &&& self.stage matches Stage::Finished { outcome: Ok(Some(address)) } ==> self.candidate(
            address as int,
        )
    }

    /// The search for the stub of `target` in `code` loaded at `base`,
    /// before anything was done.
    pub open spec fn start(target: u64, base: u64, code: Seq<u8>) -> SearchView {
        SearchView { target, base, code, stage: Stage::Mapping }
    }

    /// What the search wants done in its present stage.
    pub open spec fn request(self) -> Request {
        match self.stage {
            Stage::Mapping => Request::MapMemory {
                start: page_floor(self.base as int) as u64,
                size: (page_ceil(self.end()) - page_floor(self.base as int)) as u64,
            },
            Stage::Loading => Request::WriteCode { address: self.base },
            Stage::Checking => Request::ReadBack { address: self.base, len: self.code.len() as usize },
            Stage::Hooking => Request::InstallHook,
            Stage::Probing { offset } => Request::Probe {
                pc: (self.base + offset) as u64,
                until: self.end() as u64,
                timeout: PROBE_TIMEOUT,
                count: PROBE_INSTRUCTIONS,
            },
            Stage::Finished { outcome } => Request::Finish { outcome },
        }
    }

    /// The stage that follows when the driver answers `reply`.
    ///
    /// Setup goes on step by step while each step succeeds. Bytes read back
    /// that differ from the code, a refused step, and a reply that does not
    /// answer the request end the search as a failure. A run that was seen
    /// to reach the target slot ends it with that candidate's address; any
    /// other run moves on to the next candidate, or ends the search with
    /// nothing after the last.
    pub open spec fn next_stage(self, reply: ReplyView) -> Stage {
        match (self.stage, reply) {
            (Stage::Finished { outcome }, _) => Stage::Finished { outcome },
            (Stage::Mapping, ReplyView::Done) => Stage::Loading,
            (Stage::Loading, ReplyView::Done) => Stage::Checking,
            (Stage::Checking, ReplyView::Bytes(bytes)) => if bytes == self.code {
                Stage::Hooking
            } else {
                Stage::Finished { outcome: Err(ResolveError::EmulationSetup) }
            },
            (Stage::Hooking, ReplyView::Done) => Stage::Probing { offset: 0 },
            (Stage::Probing { offset }, ReplyView::Observed(seen)) => if seen == Some(self.target) {
                Stage::Finished { outcome: Ok(Some((self.base + offset) as u64)) }
            } else if offset + PLT_ENTRY_SIZE < self.code.len() {
                Stage::Probing { offset: (offset + PLT_ENTRY_SIZE) as u64 }
            } else {
                Stage::Finished { outcome: Ok(None) }
            },
            _ => Stage::Finished { outcome: Err(ResolveError::EmulationSetup) },
        }
    }

    /// The search after the driver answered `reply`.
    pub open spec fn next(self, reply: ReplyView) -> SearchView {
        SearchView { stage: self.next_stage(reply), ..self }
    }

    /// The search after the driver gave each of `replies` in turn.
    pub open spec fn run(self, replies: Seq<ReplyView>) -> SearchView
        decreases replies.len(),
    {
        if replies.len() == 0 {
            self
        } else {
            self.next(replies[0]).run(replies.skip(1))
        }
    }

    /// How many candidates start at `offset` bytes into the code or later.
    pub open spec fn candidates_from(self, offset: int) -> int {
        (self.code.len() - offset + PLT_ENTRY_SIZE - 1) / (PLT_ENTRY_SIZE as int)
    }

    /// The largest number of replies that the search can still take before
    /// it is over: one for each setup step that is left, and one for each
    /// candidate that is left.
    pub open spec fn steps_left(self) -> int {
        match self.stage {
            Stage::Mapping => 4 + self.candidates_from(0),
            Stage::Loading => 3 + self.candidates_from(0),
            Stage::Checking => 2 + self.candidates_from(0),
            Stage::Hooking => 1 + self.candidates_from(0),
            Stage::Probing { offset } => self.candidates_from(offset as int),
            Stage::Finished { .. } => 0,
        }
    }
}

/// The replies of a driver that sets the emulator up without a hitch.
pub open spec fn setup_replies(code: Seq<u8>) -> Seq<ReplyView> {
    seq![ReplyView::Done, ReplyView::Done, ReplyView::Bytes(code), ReplyView::Done]
}

/// The replies of a driver whose runs left `observations` in the cell, one
/// run for each.
pub open spec fn probe_replies(observations: Seq<Option<u64>>) -> Seq<ReplyView> {
    observations.map_values(|seen: Option<u64>| ReplyView::Observed(seen))
}

/// Run `at` is the first that was seen to reach `target`.
pub open spec fn first_hit(observations: Seq<Option<u64>>, target: u64, at: int) -> bool {
    &&& 0 <= at < observations.len()
    &&& observations[at] == Some(target)
    &&& forall|before: int| 0 <= before < at ==> #[trigger] observations[before] != Some(target)
}

/// The search for the PLT stub that reaches one GOT slot.
///
/// The search does no emulation itself. It says what is to be done next
/// (`request`), and is told what came of it (`step`); whoever drives it
/// owns the emulator.
pub struct StubSearch<'a> {
    target: u64,
    base: u64,
    code: &'a [u8],
    stage: Stage,
}

impl<'a> View for StubSearch<'a> {
    type V = SearchView;

    closed spec fn view(&self) -> SearchView {
        SearchView { target: self.target, base: self.base, code: self.code@, stage: self.stage }
    }
}

/// Whether two byte strings are the same.
fn same_bytes(left: &[u8], right: &[u8]) -> (same: bool)
    ensures
        same == (left@ == right@),
{
    if left.len() != right.len() {
        return false;
    }
    let mut at: usize = 0;
    while at < left.len()
        invariant
            at <= left.len(),
            left.len() == right.len(),
            forall|before: int| 0 <= before < at ==> left@[before] == right@[before],
        decreases left.len() - at,
    {
        if left[at] != right[at] {
            return false;
        }
        at = at + 1;
    }
    assert(left@ =~= right@);
    true
}

impl<'a> StubSearch<'a> {
    #[verifier::type_invariant]
    spec fn valid(self) -> bool {
        self@.wf()
    }

    /// Sets up the search for the stub of the slot `target` in `code`,
    /// which the image loads at `base`.
    ///
    /// Empty code holds no candidate: the search is over before it began,
    /// with nothing found. Code that ends too close to the top of the
    /// address space to be mapped is a setup failure.
    pub fn new(target: u64, base: u64, code: &'a [u8]) -> (search: Result<
        Option<StubSearch<'a>>,
        ResolveError,
    >)
        ensures
            match search {
                Ok(Some(search)) => search@ == SearchView::start(target, base, code@) && search@.wf(),
                Ok(None) => code@.len() == 0,
                Err(error) => error == ResolveError::EmulationSetup && code@.len() > 0 && page_ceil(
                    base + code@.len(),
                ) > u64::MAX,
            },
    {
        if code.len() == 0 {
            return Ok(None);
        }
        let len = code.len() as u64;
        if len > u64::MAX - base {
            return Err(ResolveError::EmulationSetup);
        }
        let end = base + len;
        let over = end % PAGE_SIZE;
        if over != 0 && end - over > u64::MAX - PAGE_SIZE {
            return Err(ResolveError::EmulationSetup);
        }
        Ok(Some(StubSearch { target, base, code, stage: Stage::Mapping }))
    }

    /// The GOT slot whose stub is searched for.
    pub fn target(&self) -> (target: u64)
        ensures
            target == self@.target,
    {
        self.target
    }

    /// The stub code, as it is to be loaded.
    pub fn code(&self) -> (code: &'a [u8])
        ensures
            code@ == self@.code,
    {
        self.code
    }

    /// What the driver is to do now.
    pub fn request(&self) -> (request: Request)
        ensures
            request == self@.request(),
            self@.wf(),
    {
        proof {
            use_type_invariant(self);
        }
        let len = self.code.len() as u64;
        let end = self.base + len;
        match self.stage {
            Stage::Mapping => {
                let start = self.base - self.base % PAGE_SIZE;
                let over = end % PAGE_SIZE;
                let stop = if over == 0 {
                    end
                } else {
                    end - over + PAGE_SIZE
                };
                Request::MapMemory { start, size: stop - start }
            },
            Stage::Loading => Request::WriteCode { address: self.base },
            Stage::Checking => Request::ReadBack { address: self.base, len: self.code.len() },
            Stage::Hooking => Request::InstallHook,
            Stage::Probing { offset } => Request::Probe {
                pc: self.base + offset,
                until: end,
                timeout: PROBE_TIMEOUT,
                count: PROBE_INSTRUCTIONS,
            },
            Stage::Finished { outcome } => Request::Finish { outcome },
        }
    }

    /// Takes the driver's answer to the last request and says what is to be
    /// done next.
    pub fn step(&mut self, reply: Reply) -> (request: Request)
        ensures
            final(self)@ == old(self)@.next(reply@),
            request == final(self)@.request(),
            final(self)@.wf(),
    {
        proof {
            use_type_invariant(&*self);
        }
        let stage = match (self.stage, &reply) {
            (Stage::Finished { outcome }, _) => Stage::Finished { outcome },
            (Stage::Mapping, Reply::Done) => Stage::Loading,
            (Stage::Loading, Reply::Done) => Stage::Checking,
            (Stage::Checking, Reply::Bytes(bytes)) => {
                if same_bytes(bytes.as_slice(), self.code) {
                    Stage::Hooking
                } else {
                    Stage::Finished { outcome: Err(ResolveError::EmulationSetup) }
                }
            },
            (Stage::Hooking, Reply::Done) => Stage::Probing { offset: 0 },
            (Stage::Probing { offset }, Reply::Observed(seen)) => {
                let hit = match seen {
                    Some(address) => *address == self.target,
                    None => false,
                };
                if hit {
                    Stage::Finished { outcome: Ok(Some(self.base + offset)) }
                } else if PLT_ENTRY_SIZE < self.code.len() as u64 - offset {
                    Stage::Probing { offset: offset + PLT_ENTRY_SIZE }
                } else {
                    Stage::Finished { outcome: Ok(None) }
                }
            },
            _ => Stage::Finished { outcome: Err(ResolveError::EmulationSetup) },
        };
        self.stage = stage;
        self.request()
    }
}

/// A step keeps a search well formed, and changes nothing but its stage.
pub proof fn lemma_next_wf(search: SearchView, reply: ReplyView)
    requires
        search.wf(),
    ensures
        search.next(reply).wf(),
        search.next(reply).target == search.target,
        search.next(reply).base == search.base,
        search.next(reply).code == search.code,
{
}

/// A search that is over stays as it is, whatever it is told.
pub proof fn lemma_finished_stays(search: SearchView, replies: Seq<ReplyView>)
    requires
        search.stage is Finished,
    ensures
        search.run(replies) == search,
    decreases replies.len(),
{
    if replies.len() > 0 {
        lemma_finished_stays(search, replies.skip(1));
    }
}

/// Replies given in two batches lead where the same replies lead in one.
pub proof fn lemma_run_concat(search: SearchView, first: Seq<ReplyView>, then: Seq<ReplyView>)
    ensures
        search.run(first + then) == search.run(first).run(then),
    decreases first.len(),
{
    if first.len() == 0 {
        assert(first + then =~= then);
    } else {
        assert((first + then).skip(1) =~= first.skip(1) + then);
        lemma_run_concat(search.next(first[0]), first.skip(1), then);
    }
}

/// Runs are asked for entry by entry: every run starts where an entry of
/// the stub code starts, never inside one, and stops at the end of the code
/// within the fixed bounds.
pub proof fn lemma_probes_are_entries(search: SearchView, pc: u64)
    requires
        search.wf(),
        search.request() matches Request::Probe { pc: asked, .. } && asked == pc,
    ensures
        search.candidate(pc as int),
        (pc - search.base) % (PLT_ENTRY_SIZE as int) == 0,
        search.request() == (Request::Probe {
            pc,
            until: search.end() as u64,
            timeout: PROBE_TIMEOUT,
            count: PROBE_INSTRUCTIONS,
        }),
{
}

/// Every reply brings a search that is not over closer to its end.
pub proof fn lemma_step_makes_progress(search: SearchView, reply: ReplyView)
    requires
        search.wf(),
        !(search.stage is Finished),
    ensures
        0 <= search.next(reply).steps_left() < search.steps_left(),
{
}

/// The search ends, whatever the driver reports: after as many replies as
/// it has steps left, and so after at most four more than it has candidates,
/// it is over.
pub proof fn lemma_search_ends(search: SearchView, replies: Seq<ReplyView>)
    requires
        search.wf(),
        replies.len() >= search.steps_left(),
    ensures
        search.run(replies).stage is Finished,
    decreases replies.len(),
{
    if search.stage is Finished {
        lemma_finished_stays(search, replies);
    } else {
        lemma_next_wf(search, replies[0]);
        lemma_step_makes_progress(search, replies[0]);
        lemma_search_ends(search.next(replies[0]), replies.skip(1));
    }
}

/// Setup is four steps: map, write, read back, hook. When each succeeds
/// and the bytes read back are the code, the search stands at the first
/// candidate.
pub proof fn lemma_setup_reaches_probing(search: SearchView)
    requires
        search.wf(),
        search.stage is Mapping,
    ensures
        search.run(setup_replies(search.code)) == (SearchView {
            stage: Stage::Probing { offset: 0 },
            ..search
        }),
{
    let replies = setup_replies(search.code);
    let mapped = search.next(replies[0]);
    let loaded = mapped.next(replies[1]);
    let checked = loaded.next(replies[2]);
    let hooked = checked.next(replies[3]);
    // Unfold the run, reply by reply, from the last one back to the first.
    assert(hooked.run(replies.skip(1).skip(1).skip(1).skip(1)) == hooked);
    assert(checked.run(replies.skip(1).skip(1).skip(1)) == hooked);
    assert(loaded.run(replies.skip(1).skip(1)) == hooked);
    assert(mapped.run(replies.skip(1)) == hooked);
}

/// A setup step that the emulator refuses, and bytes read back that are
/// not the code, end the search as a setup failure.
pub proof fn lemma_setup_failure(search: SearchView, reply: ReplyView)
    requires
        search.stage is Mapping || search.stage is Loading || search.stage is Checking
            || search.stage is Hooking,
        reply is Failed || (search.stage is Checking && reply != ReplyView::Bytes(search.code)),
    ensures
        search.next(reply).stage == (Stage::Finished {
            outcome: Err(ResolveError::EmulationSetup),
        }),
{
}

/// An address is given out only for the candidate that was just run, and
/// only when that run was seen to reach the search's target: the request
/// that was open asked for a run from exactly that address, to the end of
/// the code and within the fixed bounds, and the reply to it names the
/// target slot.
pub proof fn lemma_found_was_observed(search: SearchView, reply: ReplyView, address: u64)
    requires
        search.wf(),
        !(search.stage is Finished),
        search.next(reply).stage == (Stage::Finished { outcome: Ok(Some(address)) }),
    ensures
        search.request() == (Request::Probe {
            pc: address,
            until: search.end() as u64,
            timeout: PROBE_TIMEOUT,
            count: PROBE_INSTRUCTIONS,
        }),
        reply == ReplyView::Observed(Some(search.target)),
        search.candidate(address as int),
{
}

/// Whatever the driver reports, a search that ends with an address was, at
/// some reply `at`, waiting for the run from exactly that address, to the
/// end of the code and within the fixed bounds, and was told that this run
/// reached the target slot.
pub proof fn lemma_found_in_run(search: SearchView, replies: Seq<ReplyView>, address: u64) -> (at:
    int)
    requires
        search.wf(),
        !(search.stage is Finished),
        search.run(replies).stage == (Stage::Finished { outcome: Ok(Some(address)) }),
    ensures
        0 <= at < replies.len(),
        search.run(replies.take(at)).request() == (Request::Probe {
            pc: address,
            until: search.end() as u64,
            timeout: PROBE_TIMEOUT,
            count: PROBE_INSTRUCTIONS,
        }),
        replies[at] == ReplyView::Observed(Some(search.target)),
    decreases replies.len(),
{
    let after = search.next(replies[0]);
    lemma_next_wf(search, replies[0]);
    if after.stage is Finished {
        // The first reply ended the search, so it is the one looked for.
        lemma_finished_stays(after, replies.skip(1));
        lemma_found_was_observed(search, replies[0], address);
        assert(replies.take(0) =~= Seq::<ReplyView>::empty());
        0
    } else {
        // The reply looked for is among those after the first.
        let later = lemma_found_in_run(after, replies.skip(1), address);
        assert(replies.take(later + 1).skip(1) =~= replies.skip(1).take(later));
        later + 1
    }
}

/// First match wins. From a candidate on, with one observation for each
/// candidate that is left, the search ends with the address of the first
/// candidate whose run was seen to reach the target, and with nothing if
/// no run was.
pub proof fn lemma_probing_finds_first(search: SearchView, observations: Seq<Option<u64>>)
    requires
        search.wf(),
        search.stage is Probing,
        observations.len() == search.candidates_from(search.stage->offset as int),
    ensures
        forall|at: int| #[trigger]
            first_hit(observations, search.target, at) ==> search.run(
                probe_replies(observations),
            ).stage == (Stage::Finished {
                outcome: Ok(Some((search.base + search.stage->offset + at * PLT_ENTRY_SIZE) as u64)),
            }),
        (forall|at: int|
            0 <= at < observations.len() ==> #[trigger] observations[at] != Some(search.target))
            ==> search.run(probe_replies(observations)).stage == (Stage::Finished {
            outcome: Ok(None),
        }),
    decreases observations.len(),
{
    let replies = probe_replies(observations);
    let rest = observations.skip(1);
    let after = search.next(replies[0]);
    lemma_next_wf(search, replies[0]);
    assert(replies.skip(1) =~= probe_replies(rest));
    if after.stage is Finished {
        // This run decided: it reached the target, or it was the last one.
        lemma_finished_stays(after, replies.skip(1));
    } else {
        // The search goes on with the candidates that are left. A first hit
        // among all observations is a first hit among the rest, one earlier.
        lemma_probing_finds_first(after, rest);
        assert forall|at: int| #[trigger]
            first_hit(observations, search.target, at) implies first_hit(
            rest,
            search.target,
            at - 1,
        ) by {
            assert forall|before: int| 0 <= before < at - 1 implies #[trigger] rest[before]
                != Some(search.target) by {
                assert(observations[before + 1] != Some(search.target));
            }
        }
        if forall|at: int|
            0 <= at < observations.len() ==> #[trigger] observations[at] != Some(search.target) {
            assert forall|at: int| 0 <= at < rest.len() implies #[trigger] rest[at] != Some(
                search.target,
            ) by {
                assert(observations[at + 1] != Some(search.target));
            }
        }
    }
}

/// The whole search, from the first request to the last, with a driver
/// that sets the emulator up and reports one observation for each
/// candidate: the result is the address of the first candidate whose run
/// was seen to reach the target, and nothing if no run was.
pub proof fn lemma_search_finds_first(search: SearchView, observations: Seq<Option<u64>>)
    requires
        search.wf(),
        search.stage is Mapping,
        observations.len() == search.candidates_from(0),
    ensures
        forall|at: int| #[trigger]
            first_hit(observations, search.target, at) ==> search.run(
                setup_replies(search.code) + probe_replies(observations),
            ).stage == (Stage::Finished {
                outcome: Ok(Some((search.base + at * PLT_ENTRY_SIZE) as u64)),
            }),
        (forall|at: int|
            0 <= at < observations.len() ==> #[trigger] observations[at] != Some(search.target))
            ==> search.run(setup_replies(search.code) + probe_replies(observations)).stage == (
        Stage::Finished { outcome: Ok(None) }),
{
    let probing = SearchView { stage: Stage::Probing { offset: 0 }, ..search };
    lemma_setup_reaches_probing(search);
    lemma_run_concat(search, setup_replies(search.code), probe_replies(observations));
    lemma_probing_finds_first(probing, observations);
}

} // verus!
