use crate::elf::{
    first_named, section_index, Contents, ContentsView, Image, RelaEntry, Section, SymbolEntry,
    SymbolView,
};
use crate::elf::{lemma_section_index_absent, lemma_section_index_found};
use crate::plt::{
    lemma_found_in_run, page_ceil, ReplyView, Request, SearchView, Stage, StubSearch,
    PROBE_INSTRUCTIONS, PROBE_TIMEOUT,
};
use vstd::prelude::*;

verus! {

/// Why a query on an image failed. A name that is simply not there is no
/// failure: such a query succeeds with `None`.
#[derive(Debug, Clone, Copy, PartialEq, Eq, Structural)]
pub enum ResolveError {
    /// Symbol tables give the queried name more than one value.
    Ambiguous,
    /// A section does not hold what the query has to read from it.
    Malformed,
    /// The emulator could not be prepared with the stub code.
    EmulationSetup,
}

/// A parsed ELF64 image, ready for queries. Queries never change it.
pub struct Pwn {
    /// The image's sections, in header-table order.
    pub sections: Vec<Section>,
}

impl View for Pwn {
    type V = Image;

    open spec fn view(&self) -> Image {
        self.sections@.map_values(|section: Section| section@)
    }
}

/// Entry `entry` of section `section` is a symbol called `name`.
pub open spec fn names_symbol(image: Image, name: Seq<char>, section: int, entry: int) -> bool {
    &&& 0 <= section < image.len()
    &&& image[section].contents matches ContentsView::Symbols(table)
    &&& 0 <= entry < table.len()
    &&& table[entry].name == Some(name)
}

/// The value of entry `entry` of the symbol table in section `section`.
pub open spec fn symbol_value(image: Image, section: int, entry: int) -> u64 {
    image[section].contents->Symbols_0[entry].value
}

/// Some symbol table of the image gives `name` the value `value`.
pub open spec fn defines(image: Image, name: Seq<char>, value: u64) -> bool {
    exists|section: int, entry: int| #[trigger]
        names_symbol(image, name, section, entry) && symbol_value(image, section, entry) == value
}

/// The symbol tables give `name` two different values.
pub open spec fn ambiguous(image: Image, name: Seq<char>) -> bool {
    exists|a: u64, b: u64| a != b && #[trigger] defines(image, name, a) && #[trigger] defines(image, name, b)
}

/// What `symbol` answers: the one value that the symbol tables give `name`,
/// nothing where no table names it, and a failure where they disagree.
pub open spec fn symbol_of(image: Image, name: Seq<char>) -> Result<Option<u64>, ResolveError> {
    if ambiguous(image, name) {
        Err(ResolveError::Ambiguous)
    } else if exists|value: u64| defines(image, name, value) {
        Ok(Some(choose|value: u64| defines(image, name, value)))
    } else {
        Ok(None)
    }
}

/// Entry (`section`, `entry`) comes before position (`sections`, `entries`)
/// in a walk over all tables, section by section.
spec fn walked(section: int, entry: int, sections: int, entries: int) -> bool {
    section < sections || (section == sections && entry < entries)
}

/// Relocation `at` refers to a symbol of `table` that is called `name`.
pub open spec fn binds(
    relocations: Seq<RelaEntry>,
    table: Seq<SymbolView>,
    name: Seq<char>,
    at: int,
) -> bool {
    &&& 0 <= at < relocations.len()
    &&& relocations[at].symbol_index < table.len()
    &&& table[relocations[at].symbol_index as int].name == Some(name)
}

/// Relocation `at` refers to a symbol that `table` does not have.
pub open spec fn dangles(relocations: Seq<RelaEntry>, table: Seq<SymbolView>, at: int) -> bool {
    0 <= at < relocations.len() && relocations[at].symbol_index >= table.len()
}

/// A scan for `name` goes past relocation `at`: its symbol is in `table`
/// and is not called `name`.
pub open spec fn passes(
    relocations: Seq<RelaEntry>,
    table: Seq<SymbolView>,
    name: Seq<char>,
    at: int,
) -> bool {
    !binds(relocations, table, name, at) && !dangles(relocations, table, at)
}

/// A scan for `name` ends at relocation `at`: it is the first that either
/// binds the name or cannot be resolved at all.
pub open spec fn settles(
    relocations: Seq<RelaEntry>,
    table: Seq<SymbolView>,
    name: Seq<char>,
    at: int,
) -> bool {
    &&& binds(relocations, table, name, at) || dangles(relocations, table, at)
    &&& forall|before: int|
        0 <= before < at ==> #[trigger] passes(relocations, table, name, before)
}

/// What a scan of `relocations` for `name` gives: the offset of the first
/// relocation that binds the name, a failure if one before it cannot be
/// resolved in `table`, and nothing if the scan reaches the end.
pub open spec fn scan_of(
    relocations: Seq<RelaEntry>,
    table: Seq<SymbolView>,
    name: Seq<char>,
) -> Result<Option<u64>, ResolveError> {
    if exists|at: int| settles(relocations, table, name, at) {
        let at = choose|at: int| settles(relocations, table, name, at);
        if dangles(relocations, table, at) {
            Err(ResolveError::Malformed)
        } else {
            Ok(Some(relocations[at].offset))
        }
    } else {
        Ok(None)
    }
}

/// What `got` answers. The relocations are those of the first section
/// called `.rela.plt`; the names come from the section its link field gives.
pub open spec fn got_of(image: Image, name: Seq<char>) -> Result<Option<u64>, ResolveError> {
    match section_index(image, ".rela.plt"@) {
        None => Ok(None),
        Some(at) => match image[at].contents {
            ContentsView::RelaSymbols(relocations) => {
                let link = image[at].link as int;
                if link < image.len() {
                    match image[link].contents {
                        ContentsView::Symbols(table) => scan_of(relocations, table, name),
                        _ => Ok(None),
                    }
                } else {
                    Ok(None)
                }
            },
            _ => Err(ResolveError::Malformed),
        },
    }
}

/// What `bss` answers: the address of the first section called `.bss`.
pub open spec fn bss_of(image: Image) -> Option<u64> {
    match section_index(image, ".bss"@) {
        Some(at) => Some(image[at].address),
        None => None,
    }
}

/// What `plt` answers: the search that is to be run for the stub of `name`.
///
/// There is none to run where `name` has no GOT slot, where the image has
/// no `.plt`, and where `.plt` is empty. The slot comes first: a failure to
/// resolve it is the answer whatever `.plt` holds.
pub open spec fn plt_of(image: Image, name: Seq<char>) -> Result<Option<SearchView>, ResolveError> {
    match got_of(image, name) {
        Err(error) => Err(error),
        Ok(None) => Ok(None),
        Ok(Some(target)) => match section_index(image, ".plt"@) {
            None => Ok(None),
            Some(at) => match image[at].contents {
                ContentsView::Raw(code) => if code.len() == 0 {
                    Ok(None)
                } else if page_ceil(image[at].address + code.len()) > u64::MAX {
                    Err(ResolveError::EmulationSetup)
                } else {
                    Ok(Some(SearchView::start(target, image[at].address, code)))
                },
                _ => Err(ResolveError::Malformed),
            },
        },
    }
}

/// The image's PLT relocations are `relocations`, and `table` is the symbol
/// table that their symbol indices refer to.
pub open spec fn relocates_through(
    image: Image,
    relocations: Seq<RelaEntry>,
    table: Seq<SymbolView>,
) -> bool {
    &&& section_index(image, ".rela.plt"@) matches Some(at)
    &&& image[at].contents == ContentsView::RelaSymbols(relocations)
    &&& image[at].link < image.len()
    &&& image[image[at].link as int].contents == ContentsView::Symbols(table)
}

/// Every relocation refers to a symbol that `table` has.
pub open spec fn resolvable(relocations: Seq<RelaEntry>, table: Seq<SymbolView>) -> bool {
    forall|at: int| 0 <= at < relocations.len() ==> !#[trigger] dangles(relocations, table, at)
}

/// At most one relocation settles a scan.
pub proof fn lemma_settles_unique(
    relocations: Seq<RelaEntry>,
    table: Seq<SymbolView>,
    name: Seq<char>,
    a: int,
    b: int,
)
    requires
        settles(relocations, table, name, a),
        settles(relocations, table, name, b),
    ensures
        a == b,
{
    if a < b {
        assert(passes(relocations, table, name, a));
    } else if b < a {
        assert(passes(relocations, table, name, b));
    }
}

impl Pwn {
    /// Takes over the sections of a parsed image.
    pub fn new(sections: Vec<Section>) -> (pwn: Pwn)
        ensures
            pwn.sections == sections,
            pwn@ == sections@.map_values(|section: Section| section@),
    {
        Pwn { sections }
    }

    /// The first section called `name`, if the image has one.
    pub fn get_section(&self, name: &str) -> (found: Option<&Section>)
        ensures
            match found {
                Some(section) => section_index(self@, name@) matches Some(at)
                    && *section == self.sections@[at],
                None => section_index(self@, name@) is None,
            },
    {
        let key = name.to_owned();
        let mut at: usize = 0;
        while at < self.sections.len()
            invariant
                at <= self.sections.len(),
                key@ == name@,
                forall|before: int| 0 <= before < at ==> (#[trigger] self@[before]).name != name@,
            decreases self.sections.len() - at,
        {
            let section = &self.sections[at];
            if section.name == key {
                proof {
                    lemma_section_index_found(self@, name@, at as int);
                }
                return Some(section);
            }
            at = at + 1;
        }
        proof {
            lemma_section_index_absent(self@, name@);
        }
        None
    }

    /// The address of the symbol `name`, searched in every symbol table of
    /// the image. Tables that agree on the value are no conflict; tables that
    /// give the name different values are.
    pub fn symbol(&self, name: &str) -> (answer: Result<Option<u64>, ResolveError>)
        ensures
            answer == symbol_of(self@, name@),
    {
        let key = name.to_owned();
        let mut found: Option<u64> = None;
        let mut at: usize = 0;
        while at < self.sections.len()
            invariant
                at <= self.sections.len(),
                key@ == name@,
                found matches Some(value) ==> defines(self@, name@, value),
                forall|section: int, entry: int| #[trigger]
                    names_symbol(self@, name@, section, entry) && walked(section, entry, at as int, 0)
                        ==> found == Some(symbol_value(self@, section, entry)),
            decreases self.sections.len() - at,
        {
            let section = &self.sections[at];
            match &section.contents {
                Contents::Symbols(table) => {
                    let ghost entries = table@.map_values(|entry: SymbolEntry| entry@);
                    let mut index: usize = 0;
                    while index < table.len()
                        invariant
                            at < self.sections.len(),
                            index <= table.len(),
                            key@ == name@,
                            entries == table@.map_values(|entry: SymbolEntry| entry@),
                            self@[at as int].contents == ContentsView::Symbols(entries),
                            found matches Some(value) ==> defines(self@, name@, value),
                            forall|section: int, entry: int| #[trigger]
                                names_symbol(self@, name@, section, entry) && walked(
                                    section,
                                    entry,
                                    at as int,
                                    index as int,
                                ) ==> found == Some(symbol_value(self@, section, entry)),
                        decreases table.len() - index,
                    {
                        let symbol = &table[index];
                        let hit = match &symbol.name {
                            Some(symbol_name) => *symbol_name == key,
                            None => false,
                        };
                        assert(hit == names_symbol(self@, name@, at as int, index as int));
                        if hit {
                            assert(defines(self@, name@, symbol.value));
                            match found {
                                Some(value) => {
                                    if value != symbol.value {
                                        return Err(ResolveError::Ambiguous);
                                    }
                                },
                                None => {
                                    found = Some(symbol.value);
                                },
                            }
                        }
                        index = index + 1;
                    }
                },
                _ => {},
            }
            at = at + 1;
        }
        proof {
            // Every entry has been walked, so `found` speaks for all of them.
            assert forall|other: u64| defines(self@, name@, other) implies found == Some(other) by {
                let (section, entry) = choose|section: int, entry: int| #[trigger]
                    names_symbol(self@, name@, section, entry) && symbol_value(
                        self@,
                        section,
                        entry,
                    ) == other;
                assert(walked(section, entry, at as int, 0));
            }
        }
        Ok(found)
    }

    /// The address of the GOT slot that the PLT relocations bind to the
    /// imported symbol `name`. The first relocation that names it decides.
    ///
    /// `Ok(None)` where the image has no `.rela.plt`, where the section it
    /// links to is missing or is no symbol table, and where no relocation
    /// names the symbol. A `.rela.plt` that is no relocation table, and a
    /// relocation met in the scan whose symbol the table lacks, are failures.
    pub fn got(&self, name: &str) -> (answer: Result<Option<u64>, ResolveError>)
        ensures
            answer == got_of(self@, name@),
    {
        let section = match self.get_section(".rela.plt") {
            Some(section) => section,
            None => {
                return Ok(None);
            },
        };
        let relocations = match &section.contents {
            Contents::RelaSymbols(relocations) => relocations,
            _ => {
                return Err(ResolveError::Malformed);
            },
        };
        let link = section.link as usize;
        if link >= self.sections.len() {
            return Ok(None);
        }
        let linked = &self.sections[link];
        let table = match &linked.contents {
            Contents::Symbols(table) => table,
            _ => {
                return Ok(None);
            },
        };
        let ghost symbols = table@.map_values(|entry: SymbolEntry| entry@);
        let key = name.to_owned();
        let mut at: usize = 0;
        while at < relocations.len()
            invariant
                at <= relocations.len(),
                key@ == name@,
                symbols == table@.map_values(|entry: SymbolEntry| entry@),
                got_of(self@, name@) == scan_of(relocations@, symbols, name@),
                forall|before: int|
                    0 <= before < at ==> #[trigger] passes(relocations@, symbols, name@, before),
            decreases relocations.len() - at,
        {
            let relocation = relocations[at];
            let index = relocation.symbol_index as usize;
            if index >= table.len() {
                proof {
                    lemma_settles_unique(
                        relocations@,
                        symbols,
                        name@,
                        at as int,
                        choose|at: int| settles(relocations@, symbols, name@, at),
                    );
                }
                return Err(ResolveError::Malformed);
            }
            let symbol = &table[index];
            let hit = match &symbol.name {
                Some(symbol_name) => *symbol_name == key,
                None => false,
            };
            if hit {
                proof {
                    lemma_settles_unique(
                        relocations@,
                        symbols,
                        name@,
                        at as int,
                        choose|at: int| settles(relocations@, symbols, name@, at),
                    );
                }
                return Ok(Some(relocation.offset));
            }
            at = at + 1;
        }
        assert forall|end: int| !settles(relocations@, symbols, name@, end) by {
            if 0 <= end < relocations.len() {
                assert(passes(relocations@, symbols, name@, end));
            }
        }
        Ok(None)
    }

    /// Prepares the search for the PLT stub through which `name` is called:
    /// the stub in `.plt` whose code reaches the GOT slot that `got` gives
    /// for `name`. The search itself is run by whoever owns an emulator.
    ///
    /// `Ok(None)` says that there is nothing to search, and so no stub:
    /// `name` has no GOT slot, or the image has no code in `.plt`. Nothing
    /// is emulated in that case.
    pub fn plt(&self, name: &str) -> (answer: Result<Option<StubSearch<'_>>, ResolveError>)
        ensures
            match answer {
                Ok(Some(search)) => plt_of(self@, name@) == Ok::<_, ResolveError>(Some(search@)),
                Ok(None) => plt_of(self@, name@) == Ok::<Option<SearchView>, ResolveError>(None),
                Err(error) => plt_of(self@, name@) == Err::<Option<SearchView>, _>(error),
            },
    {
        let target = match self.got(name) {
            Ok(Some(target)) => target,
            Ok(None) => {
                return Ok(None);
            },
            Err(error) => {
                return Err(error);
            },
        };
        let section = match self.get_section(".plt") {
            Some(section) => section,
            None => {
                return Ok(None);
            },
        };
        match &section.contents {
            Contents::Raw(code) => StubSearch::new(target, section.address, code.as_slice()),
            _ => Err(ResolveError::Malformed),
        }
    }

    /// Where the `.bss` section is loaded; `None` in an image without one.
    pub fn bss(&self) -> (address: Option<u64>)
        ensures
            address == bss_of(self@),
    {
        match self.get_section(".bss") {
            Some(section) => Some(section.address),
            None => None,
        }
    }
}

/// Where the symbol tables agree on the value of `name`, that value is the
/// answer, however many entries carry the name.
pub proof fn lemma_symbol_agreed(image: Image, name: Seq<char>, value: u64)
    requires
        defines(image, name, value),
        forall|other: u64| defines(image, name, other) ==> other == value,
    ensures
        symbol_of(image, name) == Ok::<Option<u64>, ResolveError>(Some(value)),
{
}

/// A name that exactly one symbol-table entry carries resolves to the value
/// of that entry.
pub proof fn lemma_symbol_single(image: Image, name: Seq<char>, section: int, entry: int)
    requires
        names_symbol(image, name, section, entry),
        forall|s: int, e: int| #[trigger]
            names_symbol(image, name, s, e) ==> s == section && e == entry,
    ensures
        symbol_of(image, name) == Ok::<Option<u64>, ResolveError>(
            Some(symbol_value(image, section, entry)),
        ),
{
    let value = symbol_value(image, section, entry);
    assert(defines(image, name, value));
    lemma_symbol_agreed(image, name, value);
}

/// A name that no symbol-table entry carries resolves to nothing.
pub proof fn lemma_symbol_absent(image: Image, name: Seq<char>)
    requires
        forall|section: int, entry: int| !#[trigger] names_symbol(image, name, section, entry),
    ensures
        symbol_of(image, name) == Ok::<Option<u64>, ResolveError>(None),
{
}

/// Two entries that give one name different values make the query fail.
pub proof fn lemma_symbol_conflict(
    image: Image,
    name: Seq<char>,
    section: int,
    entry: int,
    other_section: int,
    other_entry: int,
)
    requires
        names_symbol(image, name, section, entry),
        names_symbol(image, name, other_section, other_entry),
        symbol_value(image, section, entry) != symbol_value(image, other_section, other_entry),
    ensures
        symbol_of(image, name) == Err::<Option<u64>, ResolveError>(ResolveError::Ambiguous),
{
    assert(defines(image, name, symbol_value(image, section, entry)));
    assert(defines(image, name, symbol_value(image, other_section, other_entry)));
}

/// With the relocation table and its symbol table in place, the answer of
/// `got` is the outcome of the scan.
pub proof fn lemma_got_is_scan(
    image: Image,
    name: Seq<char>,
    relocations: Seq<RelaEntry>,
    table: Seq<SymbolView>,
)
    requires
        relocates_through(image, relocations, table),
    ensures
        got_of(image, name) == scan_of(relocations, table, name),
{
}

/// First match wins: the scan gives the offset of the first relocation that
/// binds the name, provided every relocation before it can be resolved.
pub proof fn lemma_scan_first(
    relocations: Seq<RelaEntry>,
    table: Seq<SymbolView>,
    name: Seq<char>,
    at: int,
)
    requires
        binds(relocations, table, name, at),
        forall|before: int| 0 <= before < at ==> #[trigger] passes(relocations, table, name, before),
    ensures
        scan_of(relocations, table, name) == Ok::<Option<u64>, ResolveError>(
            Some(relocations[at].offset),
        ),
{
    assert(settles(relocations, table, name, at));
    lemma_settles_unique(
        relocations,
        table,
        name,
        at,
        choose|at: int| settles(relocations, table, name, at),
    );
}

/// In an image whose PLT relocations all resolve, a name that exactly one
/// of them binds has that relocation's offset as its GOT slot.
pub proof fn lemma_got_single(
    image: Image,
    name: Seq<char>,
    relocations: Seq<RelaEntry>,
    table: Seq<SymbolView>,
    at: int,
)
    requires
        relocates_through(image, relocations, table),
        resolvable(relocations, table),
        binds(relocations, table, name, at),
        forall|other: int| #[trigger] binds(relocations, table, name, other) ==> other == at,
    ensures
        got_of(image, name) == Ok::<Option<u64>, ResolveError>(Some(relocations[at].offset)),
{
    assert forall|before: int| 0 <= before < at implies #[trigger] passes(
        relocations,
        table,
        name,
        before,
    ) by {
        assert(!dangles(relocations, table, before));
        assert(!binds(relocations, table, name, before));
    }
    lemma_scan_first(relocations, table, name, at);
}

/// In an image whose PLT relocations all resolve, a name that none of them
/// binds has no GOT slot.
pub proof fn lemma_got_absent(
    image: Image,
    name: Seq<char>,
    relocations: Seq<RelaEntry>,
    table: Seq<SymbolView>,
)
    requires
        relocates_through(image, relocations, table),
        resolvable(relocations, table),
        forall|at: int| !#[trigger] binds(relocations, table, name, at),
    ensures
        got_of(image, name) == Ok::<Option<u64>, ResolveError>(None),
{
    assert forall|at: int| !settles(relocations, table, name, at) by {
        assert(!binds(relocations, table, name, at));
        if 0 <= at < relocations.len() {
            assert(!dangles(relocations, table, at));
        }
    }
}

/// A name without a GOT slot has no stub, whatever `.plt` holds: there is
/// no search to run, and so nothing is emulated.
pub proof fn lemma_plt_needs_slot(image: Image, name: Seq<char>)
    requires
        got_of(image, name) == Ok::<Option<u64>, ResolveError>(None),
    ensures
        plt_of(image, name) == Ok::<Option<SearchView>, ResolveError>(None),
{
}

/// An image without `.plt`, or with an empty one, has no stub for any name
/// whose GOT slot can be asked for without failure.
pub proof fn lemma_plt_needs_code(image: Image, name: Seq<char>)
    requires
        got_of(image, name) is Ok,
        section_index(image, ".plt"@) matches Some(at) ==> image[at].contents
            == ContentsView::Raw(Seq::<u8>::empty()),
    ensures
        plt_of(image, name) == Ok::<Option<SearchView>, ResolveError>(None),
{
}

/// A search that `plt` prepares is for the slot that `got` gives, over the
/// bytes of `.plt` at the address of `.plt`, and nothing has been done yet.
pub proof fn lemma_plt_searches_for_got(image: Image, name: Seq<char>, search: SearchView)
    requires
        plt_of(image, name) == Ok::<Option<SearchView>, ResolveError>(Some(search)),
    ensures
        got_of(image, name) == Ok::<Option<u64>, ResolveError>(Some(search.target)),
        section_index(image, ".plt"@) matches Some(at) && image[at].address == search.base
            && image[at].contents == ContentsView::Raw(search.code),
        search.stage is Mapping,
        search.wf(),
{
}

/// The round trip from stub to slot. Take the search that `plt` prepares
/// for `name`, and any course it may take. If it ends with an address, then
/// a run from that address, within the fixed bounds, was asked for and was
/// reported to reach the very slot that `got` gives for `name`.
pub proof fn lemma_plt_round_trip(
    image: Image,
    name: Seq<char>,
    search: SearchView,
    replies: Seq<ReplyView>,
    address: u64,
) -> (at: int)
    requires
        plt_of(image, name) == Ok::<Option<SearchView>, ResolveError>(Some(search)),
        search.run(replies).stage == (Stage::Finished { outcome: Ok(Some(address)) }),
    ensures
        0 <= at < replies.len(),
        search.run(replies.take(at)).request() == (Request::Probe {
            pc: address,
            until: search.end() as u64,
            timeout: PROBE_TIMEOUT,
            count: PROBE_INSTRUCTIONS,
        }),
        replies[at] matches ReplyView::Observed(Some(slot)) && got_of(image, name) == Ok::<
            Option<u64>,
            ResolveError,
        >(Some(slot)),
{
    lemma_plt_searches_for_got(image, name, search);
    lemma_found_in_run(search, replies, address)
}

/// Asking twice for a symbol gives the same answer twice.
pub proof fn lemma_symbol_repeatable(
    pwn: &Pwn,
    name: &str,
    first: Result<Option<u64>, ResolveError>,
    second: Result<Option<u64>, ResolveError>,
)
    requires
        call_ensures(Pwn::symbol, (pwn, name), first),
        call_ensures(Pwn::symbol, (pwn, name), second),
    ensures
        first == second,
{
}

/// Asking twice for a GOT slot gives the same answer twice.
pub proof fn lemma_got_repeatable(
    pwn: &Pwn,
    name: &str,
    first: Result<Option<u64>, ResolveError>,
    second: Result<Option<u64>, ResolveError>,
)
    requires
        call_ensures(Pwn::got, (pwn, name), first),
        call_ensures(Pwn::got, (pwn, name), second),
    ensures
        first == second,
{
}

/// Asking twice for `.bss` gives the same answer twice.
pub proof fn lemma_bss_repeatable(pwn: &Pwn, first: Option<u64>, second: Option<u64>)
    requires
        call_ensures(Pwn::bss, (pwn,), first),
        call_ensures(Pwn::bss, (pwn,), second),
    ensures
        first == second,
{
}

/// Asking twice for a stub prepares the same search twice, or fails the
/// same way twice.
pub proof fn lemma_plt_repeatable<'a>(
    pwn: &'a Pwn,
    name: &str,
    first: Result<Option<StubSearch<'a>>, ResolveError>,
    second: Result<Option<StubSearch<'a>>, ResolveError>,
)
    requires
        call_ensures(Pwn::plt, (pwn, name), first),
        call_ensures(Pwn::plt, (pwn, name), second),
    ensures
        match (first, second) {
            (Ok(Some(one)), Ok(Some(other))) => one@ == other@,
            (Ok(None), Ok(None)) => true,
            (Err(one), Err(other)) => one == other,
            _ => false,
        },
{
}

} // verus!
