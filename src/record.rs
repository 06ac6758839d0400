use vstd::prelude::*;

verus! {

/// Where an item record comes from.
#[derive(Debug, Clone, Copy, PartialEq, Eq, Structural)]
pub enum Kind {
    Base,
    Unique,
}

/// Why a record is skipped with a warning.
#[derive(Debug, Clone, Copy, PartialEq, Eq, Structural)]
pub enum Warning {
    /// A unique item's word index names no row of the word table.
    NoWord,
    /// The record's visual identity reference names no row.
    NoVisualIdentity,
    /// The record's name is not valid text.
    InvalidName,
    /// The visual identity's source image path is not valid text.
    InvalidDdsFile,
}

/// A text handle of a table row: `None` where it does not decode to text.
pub type Text = Option<String>;

/// A text handle as a character sequence.
pub open spec fn text_view(t: Text) -> Option<Seq<char>> {
    match t {
        Some(s) => Some(s@),
        None => None,
    }
}

/// A row of the base item table.
#[derive(Debug)]
pub struct BaseItem {
    pub id: Text,
    pub item_visual_identity: u64,
    pub name: Text,
}

/// A row of the unique item table: its name and id are found through other tables.
#[derive(Debug, Clone, Copy, PartialEq, Eq, Structural)]
pub struct UniqueItem {
    pub words: u64,
    pub item_visual_identity: u64,
}

/// A row of the word table.
#[derive(Debug)]
pub struct Word {
    pub text: Text,
}

/// A row of the visual identity table.
#[derive(Debug)]
pub struct VisualIdentity {
    pub id: Text,
    pub dds_file: Text,
    pub is_alternate_art: bool,
}

/// The unified item record that selectors and postprocess matchers look at.
#[derive(Debug)]
pub struct File {
    pub kind: Kind,
    pub id: Text,
    pub item_visual_identity: u64,
    pub name: Text,
}

/// An item record with its texts as character sequences.
pub struct FileModel {
    pub kind: Kind,
    pub id: Option<Seq<char>>,
    pub item_visual_identity: u64,
    pub name: Option<Seq<char>>,
}

impl View for File {
    type V = FileModel;

    open spec fn view(&self) -> FileModel {
        FileModel {
            kind: self.kind,
            id: text_view(self.id),
            item_visual_identity: self.item_visual_identity,
            name: text_view(self.name),
        }
    }
}

/// An entry of the catalog: a record, or a unique item whose lookups missed.
#[derive(Debug)]
pub enum Entry {
    Item(File),
    Unresolved(Warning),
}

impl View for Entry {
    type V = Result<FileModel, Warning>;

    open spec fn view(&self) -> Result<FileModel, Warning> {
        match self {
            Entry::Item(f) => Ok(f@),
            Entry::Unresolved(w) => Err(*w),
        }
    }
}

/// A base item carries its id and name on its own row.
pub open spec fn base_file(b: BaseItem) -> FileModel {
    FileModel {
        kind: Kind::Base,
        id: text_view(b.id),
        item_visual_identity: b.item_visual_identity,
        name: text_view(b.name),
    }
}

/// A unique item takes its name from the word table and its id from the
/// visual identity table; a miss in either skips it.
pub open spec fn unique_entry(u: UniqueItem, words: Seq<Word>, vis: Seq<VisualIdentity>) -> Result<
    FileModel,
    Warning,
> {
    if u.words >= words.len() {
        Err(Warning::NoWord)
    } else if u.item_visual_identity >= vis.len() {
        Err(Warning::NoVisualIdentity)
    } else {
        Ok(
            FileModel {
                kind: Kind::Unique,
                id: text_view(vis[u.item_visual_identity as int].id),
                item_visual_identity: u.item_visual_identity,
                name: text_view(words[u.words as int].text),
            },
        )
    }
}

/// Base records first, then unique records, each in table order.
pub open spec fn catalog_spec(
    bases: Seq<BaseItem>,
    uniques: Seq<UniqueItem>,
    words: Seq<Word>,
    vis: Seq<VisualIdentity>,
) -> Seq<Result<FileModel, Warning>> {
    Seq::new(
        bases.len() + uniques.len(),
        |i: int|
            if i < bases.len() {
                Ok(base_file(bases[i]))
            } else {
                unique_entry(uniques[i - bases.len()], words, vis)
            },
    )
}

/// Copies a text handle.
pub fn copy_text(t: &Text) -> (r: Text)
    ensures
        text_view(r) == text_view(*t),
{
    match t {
        Some(s) => Some(s.clone()),
        None => None,
    }
}

/// The unique record built from `u`, or the lookup that missed.
pub fn resolve_unique(u: &UniqueItem, words: &Vec<Word>, vis: &Vec<VisualIdentity>) -> (r: Entry)
    ensures
        r@ == unique_entry(*u, words@, vis@),
{
    if u.words >= words.len() as u64 {
        return Entry::Unresolved(Warning::NoWord);
    }
    if u.item_visual_identity >= vis.len() as u64 {
        return Entry::Unresolved(Warning::NoVisualIdentity);
    }
    let name = copy_text(&words[u.words as usize].text);
    let id = copy_text(&vis[u.item_visual_identity as usize].id);
    Entry::Item(
        File { kind: Kind::Unique, id, item_visual_identity: u.item_visual_identity, name },
    )
}

/// Merges base and unique items into one catalog.
pub fn catalog(
    bases: &Vec<BaseItem>,
    uniques: &Vec<UniqueItem>,
    words: &Vec<Word>,
    vis: &Vec<VisualIdentity>,
) -> (r: Vec<Entry>)
    ensures
        r@.len() == bases@.len() + uniques@.len(),
        forall|i: int|
            0 <= i < r@.len() ==> r@[i]@ == #[trigger] catalog_spec(bases@, uniques@, words@, vis@)[i],
{
    let ghost spec_cat = catalog_spec(bases@, uniques@, words@, vis@);
    let mut r: Vec<Entry> = Vec::new();
    let mut i: usize = 0;
    while i < bases.len()
        invariant
            i <= bases@.len(),
            r@.len() == i,
            spec_cat == catalog_spec(bases@, uniques@, words@, vis@),
            forall|j: int| 0 <= j < i ==> r@[j]@ == spec_cat[j],
        decreases bases@.len() - i,
    {
        let b = &bases[i];
        let f = File {
            kind: Kind::Base,
            id: copy_text(&b.id),
            item_visual_identity: b.item_visual_identity,
            name: copy_text(&b.name),
        };
        r.push(Entry::Item(f));
        i = i + 1;
    }
    let mut k: usize = 0;
    while k < uniques.len()
        invariant
            k <= uniques@.len(),
            r@.len() == bases@.len() + k,
            spec_cat == catalog_spec(bases@, uniques@, words@, vis@),
            forall|j: int| 0 <= j < r@.len() ==> r@[j]@ == spec_cat[j],
        decreases uniques@.len() - k,
    {
        let e = resolve_unique(&uniques[k], words, vis);
        r.push(e);
        k = k + 1;
    }
    r
}

} // verus!
