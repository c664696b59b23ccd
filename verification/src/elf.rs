use vstd::prelude::*;

verus! {

/// One entry of a symbol table.
#[derive(Debug, Clone, PartialEq, Eq)]
pub struct SymbolEntry {
    /// The symbol's name; `None` for an entry without one.
    pub name: Option<String>,
    /// The symbol's value: for a defined function or object, its address.
    pub value: u64,
}

/// A symbol-table entry as a mathematical value.
pub struct SymbolView {
    pub name: Option<Seq<char>>,
    pub value: u64,
}

impl View for SymbolEntry {
    type V = SymbolView;

    open spec fn view(&self) -> SymbolView {
        SymbolView {
            name: match self.name {
                Some(name) => Some(name@),
                None => None,
            },
            value: self.value,
        }
    }
}

impl SymbolEntry {
    /// Builds the entry from a symbol record whose name was looked up in the
    /// string table. A record without a name has the empty string there.
    pub fn from_raw(name: String, value: u64) -> (entry: SymbolEntry)
        ensures
            entry@.value == value,
            entry@.name == if name@.len() == 0 {
                None
            } else {
                Some(name@)
            },
    {
        if name.as_str().is_empty() {
            SymbolEntry { name: None, value }
        } else {
            SymbolEntry { name: Some(name), value }
        }
    }
}

/// One relocation with addend. In an image that is loaded at its declared
/// addresses, `offset` is the address of the slot that the relocation fills.
#[derive(Debug, Clone, Copy, PartialEq, Eq)]
pub struct RelaEntry {
    /// Index, in the linked symbol table, of the symbol the relocation refers to.
    pub symbol_index: u32,
    /// Where the relocation applies.
    pub offset: u64,
}

/// The symbol index that a relocation's `info` word carries in its upper half.
pub open spec fn info_symbol_index(info: u64) -> u64 {
    info >> 32
}

impl RelaEntry {
    /// Builds the entry from the two words of a relocation record: the
    /// offset, and the `info` word whose upper half is the symbol index.
    pub fn from_raw(offset: u64, info: u64) -> (entry: RelaEntry)
        ensures
            entry.offset == offset,
            entry.symbol_index == info_symbol_index(info),
    {
        assert(info >> 32 <= 0xffff_ffffu64) by (bit_vector);
        RelaEntry { symbol_index: (info >> 32) as u32, offset }
    }
}

/// What a section holds, by the kind its header declares.
#[derive(Debug, Clone, PartialEq, Eq)]
pub enum Contents {
    /// Bytes without further structure: code, data, or nothing at all.
    Raw(Vec<u8>),
    /// A symbol table.
    Symbols(Vec<SymbolEntry>),
    /// A table of relocations with addends.
    RelaSymbols(Vec<RelaEntry>),
    /// A table of a kind that no query reads, such as strings or dynamic entries.
    Other,
}

/// A section's contents as a mathematical value.
pub enum ContentsView {
    Raw(Seq<u8>),
    Symbols(Seq<SymbolView>),
    RelaSymbols(Seq<RelaEntry>),
    Other,
}

impl View for Contents {
    type V = ContentsView;

    open spec fn view(&self) -> ContentsView {
        match self {
            Contents::Raw(bytes) => ContentsView::Raw(bytes@),
            Contents::Symbols(table) => ContentsView::Symbols(
                table@.map_values(|entry: SymbolEntry| entry@),
            ),
            Contents::RelaSymbols(table) => ContentsView::RelaSymbols(table@),
            Contents::Other => ContentsView::Other,
        }
    }
}

/// One section of a parsed image.
#[derive(Debug, Clone, PartialEq, Eq)]
pub struct Section {
    /// The section's name, as the section-name string table gives it.
    pub name: String,
    /// The virtual address the section is loaded at.
    pub address: u64,
    /// The header's link field: the index of an associated section.
    pub link: u32,
    /// What the section holds.
    pub contents: Contents,
}

/// A section as a mathematical value.
pub struct SectionView {
    pub name: Seq<char>,
    pub address: u64,
    pub link: u32,
    pub contents: ContentsView,
}

impl View for Section {
    type V = SectionView;

    open spec fn view(&self) -> SectionView {
        SectionView {
            name: self.name@,
            address: self.address,
            link: self.link,
            contents: self.contents@,
        }
    }
}

/// The sections of an image, in the order of its section header table.
pub type Image = Seq<SectionView>;

/// Section `at` of `image` is named `name`, and no section before it is.
pub open spec fn first_named(image: Image, name: Seq<char>, at: int) -> bool {
    &&& 0 <= at < image.len()
    &&& image[at].name == name
    &&& forall|before: int| 0 <= before < at ==> (#[trigger] image[before]).name != name
}

/// The index of the first section named `name`, if there is one.
pub open spec fn section_index(image: Image, name: Seq<char>) -> Option<int> {
    if exists|at: int| first_named(image, name, at) {
        Some(choose|at: int| first_named(image, name, at))
    } else {
        None
    }
}

/// At most one section is the first of its name.
pub proof fn lemma_first_named_unique(image: Image, name: Seq<char>, a: int, b: int)
    requires
        first_named(image, name, a),
        first_named(image, name, b),
    ensures
        a == b,
{
    if a < b {
        assert(image[a].name != name);
    } else if b < a {
        assert(image[b].name != name);
    }
}

/// A section that is the first of its name is the one `section_index` gives.
pub proof fn lemma_section_index_found(image: Image, name: Seq<char>, at: int)
    requires
        first_named(image, name, at),
    ensures
        section_index(image, name) == Some(at),
{
    let chosen = choose|at: int| first_named(image, name, at);
    lemma_first_named_unique(image, name, at, chosen);
}

/// Where no section carries the name, `section_index` gives nothing.
pub proof fn lemma_section_index_absent(image: Image, name: Seq<char>)
    requires
        forall|at: int| 0 <= at < image.len() ==> (#[trigger] image[at]).name != name,
    ensures
        section_index(image, name) is None,
{
}

} // verus!
