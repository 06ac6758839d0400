use vstd::prelude::*;

use crate::matcher::Matcher;
use crate::record::{catalog, catalog_spec, BaseItem, Entry, File, FileModel, UniqueItem, VisualIdentity, Warning, Word};

verus! {

/// What the driver does for one record of the catalog.
#[derive(Debug, Clone, Copy, PartialEq, Eq, Structural)]
pub enum Action {
    /// Fetch the source image of visual identity row `visual`, decode it, apply
    /// the record's transforms, encode it and write it under the record's name.
    Emit { record: usize, visual: usize },
    /// Skip the record and report why.
    Warn { record: usize, reason: Warning },
}

/// The tables that a run needs.
#[derive(Debug, Clone, Copy, PartialEq, Eq, Structural)]
pub enum Table {
    BaseItemTypes,
    UniqueStashLayout,
    Words,
    ItemVisualIdentity,
}

/// Why a whole run is refused before any record is looked at.
#[derive(Debug, Clone, Copy, PartialEq, Eq, Structural)]
pub enum SetupError {
    /// The output path is not an existing directory.
    OutDirNotDirectory,
    /// A required table is absent.
    MissingTable(Table),
}

/// The tables as read from the archive; `None` where a table is absent.
#[derive(Debug)]
pub struct Tables {
    pub bases: Option<Vec<BaseItem>>,
    pub uniques: Option<Vec<UniqueItem>>,
    pub words: Option<Vec<Word>>,
    pub visuals: Option<Vec<VisualIdentity>>,
}

/// The catalog of a run, the visual identity rows, and what to do, in order.
#[derive(Debug)]
pub struct Plan {
    pub records: Vec<Entry>,
    pub visuals: Vec<VisualIdentity>,
    pub actions: Vec<Action>,
}

/// The catalog entries as the records they stand for.
pub open spec fn entries_view(v: Seq<Entry>) -> Seq<Result<FileModel, Warning>> {
    v.map_values(|e: Entry| e@)
}

/// An optional action as a sequence of zero or one actions.
pub open spec fn option_seq(a: Option<Action>) -> Seq<Action> {
    match a {
        Some(x) => seq![x],
        None => Seq::empty(),
    }
}

/// The catalog index of the record an action is about.
pub open spec fn action_record(a: Action) -> usize {
    match a {
        Action::Emit { record, .. } => record,
        Action::Warn { record, .. } => record,
    }
}

/// Selectors decide which records are extracted; each postprocess pair names
/// a transform that applies to the records its matcher accepts.
pub struct Pipeline<M: Matcher, T> {
    pub out: String,
    pub selectors: Vec<M>,
    pub postprocess: Vec<(M, T)>,
}

impl<M: Matcher, T> Pipeline<M, T> {
    /// A record is selected iff at least one selector accepts it.
    pub open spec fn selected(&self, item: FileModel) -> bool {
        exists|i: int| 0 <= i < self.selectors@.len() && #[trigger] self.selectors@[i].accepts(item)
    }

    /// What the run does for the catalog entry at index `k`; `None` where
    /// the record is skipped without a warning.
    pub open spec fn step(&self, e: Result<FileModel, Warning>, k: usize, vis: Seq<VisualIdentity>) -> Option<Action> {
        match e {
            Err(w) => Some(Action::Warn { record: k, reason: w }),
            Ok(f) => if !self.selected(f) {
                None
            } else if f.item_visual_identity >= vis.len() {
                Some(Action::Warn { record: k, reason: Warning::NoVisualIdentity })
            } else if vis[f.item_visual_identity as int].is_alternate_art {
                None
            } else if f.name is None {
                Some(Action::Warn { record: k, reason: Warning::InvalidName })
            } else if vis[f.item_visual_identity as int].dds_file is None {
                Some(Action::Warn { record: k, reason: Warning::InvalidDdsFile })
            } else {
                Some(Action::Emit { record: k, visual: f.item_visual_identity as usize })
            },
        }
    }

    /// The actions for the first `n` entries, in catalog order.
    pub open spec fn actions(&self, entries: Seq<Result<FileModel, Warning>>, vis: Seq<VisualIdentity>, n: nat) -> Seq<Action>
        decreases n,
    {
        if n == 0 {
            Seq::empty()
        } else {
            self.actions(entries, vis, (n - 1) as nat) + option_seq(
                self.step(entries[n - 1], (n - 1) as usize, vis),
            )
        }
    }

    /// Indices of the postprocess pairs among the first `n` whose matcher
    /// accepts `item`, in registration order.
    pub open spec fn applicable(&self, item: FileModel, n: nat) -> Seq<usize>
        decreases n,
    {
        if n == 0 {
            Seq::empty()
        } else {
            let prev = self.applicable(item, (n - 1) as nat);
            if self.postprocess@[n - 1].0.accepts(item) {
                prev.push((n - 1) as usize)
            } else {
                prev
            }
        }
    }

    /// A pipeline with no selectors and no postprocessing.
    pub fn new(out: String) -> (r: Self)
        ensures
            r.out@ == out@,
            r.selectors@.len() == 0,
            r.postprocess@.len() == 0,
    {
        Pipeline { out, selectors: Vec::new(), postprocess: Vec::new() }
    }

    /// Adds a selector.
    pub fn select(&mut self, matcher: M)
        ensures
            final(self).selectors@ == old(self).selectors@.push(matcher),
            final(self).postprocess@ == old(self).postprocess@,
            final(self).out@ == old(self).out@,
    {
        self.selectors.push(matcher);
    }

    /// Adds a transform that applies to the records `matcher` accepts.
    pub fn postprocess(&mut self, matcher: M, postprocess: T)
        ensures
            final(self).postprocess@ == old(self).postprocess@.push((matcher, postprocess)),
            final(self).selectors@ == old(self).selectors@,
            final(self).out@ == old(self).out@,
    {
        self.postprocess.push((matcher, postprocess));
    }

    /// Whether some selector accepts `item`.
    pub fn selects(&self, item: &File) -> (r: bool)
        ensures
            r == self.selected(item@),
    {
        let mut i: usize = 0;
        while i < self.selectors.len()
            invariant
                i <= self.selectors@.len(),
                forall|j: int| 0 <= j < i ==> !(#[trigger] self.selectors@[j].accepts(item@)),
            decreases self.selectors@.len() - i,
        {
            if self.selectors[i].matches(item) {
                return true;
            }
            i = i + 1;
        }
        false
    }

    /// What to do for catalog entry `e` at index `k`.
    pub fn decide(&self, e: &Entry, k: usize, vis: &Vec<VisualIdentity>) -> (r: Option<Action>)
        ensures
            r == self.step(e@, k, vis@),
    {
        match e {
            Entry::Unresolved(w) => Some(Action::Warn { record: k, reason: *w }),
            Entry::Item(f) => {
                if !self.selects(f) {
                    return None;
                }
                if f.item_visual_identity >= vis.len() as u64 {
                    return Some(Action::Warn { record: k, reason: Warning::NoVisualIdentity });
                }
                let idx = f.item_visual_identity as usize;
                let v = &vis[idx];
                if v.is_alternate_art {
                    return None;
                }
                if f.name.is_none() {
                    return Some(Action::Warn { record: k, reason: Warning::InvalidName });
                }
                if v.dds_file.is_none() {
                    return Some(Action::Warn { record: k, reason: Warning::InvalidDdsFile });
                }
                Some(Action::Emit { record: k, visual: idx })
            },
        }
    }

    /// The actions for the whole catalog, in catalog order.
    pub fn decide_all(&self, entries: &Vec<Entry>, vis: &Vec<VisualIdentity>) -> (r: Vec<Action>)
        ensures
            r@ == self.actions(entries_view(entries@), vis@, entries@.len()),
    {
        let ghost ev = entries_view(entries@);
        let mut acts: Vec<Action> = Vec::new();
        let mut i: usize = 0;
        while i < entries.len()
            invariant
                i <= entries@.len(),
                ev == entries_view(entries@),
                acts@ == self.actions(ev, vis@, i as nat),
            decreases entries@.len() - i,
        {
            let d = self.decide(&entries[i], i, vis);
            match d {
                Some(a) => acts.push(a),
                None => {},
            }
            proof {
                assert(ev[i as int] == entries@[i as int]@);
                assert(acts@ =~= self.actions(ev, vis@, (i + 1) as nat));
            }
            i = i + 1;
        }
        acts
    }

    /// The indices of the transforms that apply to `item`, in registration order.
    pub fn transforms_for(&self, item: &File) -> (r: Vec<usize>)
        ensures
            r@ == self.applicable(item@, self.postprocess@.len()),
    {
        let mut r: Vec<usize> = Vec::new();
        let mut i: usize = 0;
        while i < self.postprocess.len()
            invariant
                i <= self.postprocess@.len(),
                r@ == self.applicable(item@, i as nat),
            decreases self.postprocess@.len() - i,
        {
            if self.postprocess[i].0.matches(item) {
                r.push(i);
            }
            i = i + 1;
        }
        r
    }

    /// Checks the output directory and the tables, builds the catalog and
    /// decides what to do for each of its entries.
    pub fn plan(&self, out_is_dir: bool, tables: Tables) -> (r: Result<Plan, SetupError>)
        ensures
            !out_is_dir ==> r == Err::<Plan, SetupError>(SetupError::OutDirNotDirectory),
            out_is_dir && tables.bases is None ==> r == Err::<Plan, SetupError>(
                SetupError::MissingTable(Table::BaseItemTypes),
            ),
            out_is_dir && tables.bases is Some && tables.uniques is None ==> r == Err::<
                Plan,
                SetupError,
            >(SetupError::MissingTable(Table::UniqueStashLayout)),
            out_is_dir && tables.bases is Some && tables.uniques is Some && tables.words is None
                ==> r == Err::<Plan, SetupError>(SetupError::MissingTable(Table::Words)),
            out_is_dir && tables.bases is Some && tables.uniques is Some && tables.words is Some
                && tables.visuals is None ==> r == Err::<Plan, SetupError>(
                SetupError::MissingTable(Table::ItemVisualIdentity),
            ),
            out_is_dir && tables.bases is Some && tables.uniques is Some && tables.words is Some
                && tables.visuals is Some ==> match r {
                Ok(p) => {
                    let cat = catalog_spec(
                        tables.bases->Some_0@,
                        tables.uniques->Some_0@,
                        tables.words->Some_0@,
                        tables.visuals->Some_0@,
                    );
                    &&& p.visuals@ == tables.visuals->Some_0@
                    &&& entries_view(p.records@) == cat
                    &&& p.actions@ == self.actions(cat, p.visuals@, cat.len())
                },
                Err(_) => false,
            },
    {
        if !out_is_dir {
            return Err(SetupError::OutDirNotDirectory);
        }
        let Tables { bases, uniques, words, visuals } = tables;
        let bases = match bases {
            Some(b) => b,
            None => return Err(SetupError::MissingTable(Table::BaseItemTypes)),
        };
        let uniques = match uniques {
            Some(u) => u,
            None => return Err(SetupError::MissingTable(Table::UniqueStashLayout)),
        };
        let words = match words {
            Some(w) => w,
            None => return Err(SetupError::MissingTable(Table::Words)),
        };
        let visuals = match visuals {
            Some(v) => v,
            None => return Err(SetupError::MissingTable(Table::ItemVisualIdentity)),
        };
        let records = catalog(&bases, &uniques, &words, &visuals);
        let ghost cat = catalog_spec(bases@, uniques@, words@, visuals@);
        proof {
            assert(entries_view(records@) =~= cat);
        }
        let actions = self.decide_all(&records, &visuals);
        Ok(Plan { records, visuals, actions })
    }
}

/// The filter that keeps the actions naming record `k`.
pub open spec fn names_record(k: usize) -> spec_fn(Action) -> bool {
    |a: Action| action_record(a) == k
}

/// Adding a selector selects exactly what was selected before together with
/// what the new selector accepts; a pipeline without selectors selects nothing.
pub proof fn lemma_selection_is_any<M: Matcher, T>(
    before: Pipeline<M, T>,
    after: Pipeline<M, T>,
    matcher: M,
    item: FileModel,
)
    requires
        after.selectors@ == before.selectors@.push(matcher),
    ensures
        after.selected(item) == (before.selected(item) || matcher.accepts(item)),
        before.selectors@.len() == 0 ==> !before.selected(item),
{
    let n = before.selectors@.len() as int;
    if before.selected(item) {
        let i = choose|i: int| 0 <= i < n && #[trigger] before.selectors@[i].accepts(item);
        assert(after.selectors@[i] == before.selectors@[i]);
    }
    if matcher.accepts(item) {
        assert(after.selectors@[n] == matcher);
    }
    if after.selected(item) {
        let i = choose|i: int|
            0 <= i < after.selectors@.len() && #[trigger] after.selectors@[i].accepts(item);
        if i < n {
            assert(after.selectors@[i] == before.selectors@[i]);
        }
    }
}

/// Every record that a run emits was selected and resolves to a visual
/// identity row that is not alternate art, whatever the selectors accept.
pub proof fn lemma_no_alternate_art<M: Matcher, T>(
    p: Pipeline<M, T>,
    entries: Seq<Result<FileModel, Warning>>,
    vis: Seq<VisualIdentity>,
    n: nat,
)
    requires
        n <= entries.len(),
        n <= usize::MAX,
        vis.len() <= usize::MAX,
    ensures
        forall|j: int|
            0 <= j < p.actions(entries, vis, n).len() ==> match #[trigger] p.actions(
                entries,
                vis,
                n,
            )[j] {
                Action::Emit { record, visual } => {
                    &&& record < n
                    &&& visual < vis.len()
                    &&& !vis[visual as int].is_alternate_art
                    &&& entries[record as int] is Ok
                    &&& entries[record as int]->Ok_0.item_visual_identity == visual
                    &&& p.selected(entries[record as int]->Ok_0)
                },
                Action::Warn { .. } => true,
            },
    decreases n,
{
    if n > 0 {
        lemma_no_alternate_art(p, entries, vis, (n - 1) as nat);
        let prev = p.actions(entries, vis, (n - 1) as nat);
        let last = option_seq(p.step(entries[n - 1], (n - 1) as usize, vis));
        lemma_step_facts(p, entries[n - 1], (n - 1) as usize, vis);
        assert forall|j: int| 0 <= j < p.actions(entries, vis, n).len() implies match #[trigger] p.actions(
            entries,
            vis,
            n,
        )[j] {
            Action::Emit { record, visual } => {
                &&& record < n
                &&& visual < vis.len()
                &&& !vis[visual as int].is_alternate_art
                &&& entries[record as int] is Ok
                &&& entries[record as int]->Ok_0.item_visual_identity == visual
                &&& p.selected(entries[record as int]->Ok_0)
            },
            Action::Warn { .. } => true,
        } by {
            if j < prev.len() {
                assert(p.actions(entries, vis, n)[j] == prev[j]);
            } else {
                assert(p.actions(entries, vis, n)[j] == last[j - prev.len()]);
            }
        }
    }
}

/// A step gives at most one action, which names the record it was decided
/// for; an emitted record was selected, and its visual identity row exists and
/// is not alternate art.
pub proof fn lemma_step_facts<M: Matcher, T>(
    p: Pipeline<M, T>,
    e: Result<FileModel, Warning>,
    k: usize,
    vis: Seq<VisualIdentity>,
)
    ensures
        option_seq(p.step(e, k, vis)).len() <= 1,
        forall|j: int|
            0 <= j < option_seq(p.step(e, k, vis)).len() ==> #[trigger] option_seq(p.step(e, k, vis))[j]
                == p.step(e, k, vis)->Some_0,
        p.step(e, k, vis) matches Some(a) ==> action_record(a) == k,
        vis.len() <= usize::MAX ==> (p.step(e, k, vis) matches Some(Action::Emit { record, visual }) ==> {
            &&& visual < vis.len()
            &&& !vis[visual as int].is_alternate_art
            &&& e is Ok
            &&& e->Ok_0.item_visual_identity == visual
            &&& p.selected(e->Ok_0)
        }),
{
}

proof fn lemma_filter_short(s: Seq<Action>, k: usize)
    requires
        s.len() <= 1,
    ensures
        s.len() == 1 && action_record(s[0]) == k ==> s.filter(names_record(k)) == s,
        s.len() == 0 || action_record(s[0]) != k ==> s.filter(names_record(k)) == Seq::<
            Action,
        >::empty(),
{
    reveal_with_fuel(Seq::filter, 2);
    if s.len() == 1 {
        assert(s.drop_last() =~= Seq::<Action>::empty());
        assert(Seq::<Action>::empty().push(s[0]) =~= s);
    }
}

/// The actions that name record `k` are exactly what its own entry decides:
/// one action at most, and nothing another record does changes it.
pub proof fn lemma_actions_per_record<M: Matcher, T>(
    p: Pipeline<M, T>,
    entries: Seq<Result<FileModel, Warning>>,
    vis: Seq<VisualIdentity>,
    n: nat,
    k: usize,
)
    requires
        k < n,
        n <= entries.len(),
        n <= usize::MAX,
    ensures
        p.actions(entries, vis, n).filter(names_record(k)) == option_seq(
            p.step(entries[k as int], k, vis),
        ),
    decreases n,
{
    let prev = p.actions(entries, vis, (n - 1) as nat);
    let last = option_seq(p.step(entries[n - 1], (n - 1) as usize, vis));
    Seq::filter_distributes_over_add(prev, last, names_record(k));
    lemma_step_facts(p, entries[n - 1], (n - 1) as usize, vis);
    lemma_filter_short(last, k);
    if (n - 1) as usize == k {
        lemma_none_before(p, entries, vis, (n - 1) as nat, k);
        assert(Seq::<Action>::empty() + last =~= last);
    } else {
        lemma_actions_per_record(p, entries, vis, (n - 1) as nat, k);
        assert(prev.filter(names_record(k)) + Seq::<Action>::empty() =~= prev.filter(names_record(k)));
    }
}

/// No action among the first `n` names a record at index `n` or later.
pub proof fn lemma_none_before<M: Matcher, T>(
    p: Pipeline<M, T>,
    entries: Seq<Result<FileModel, Warning>>,
    vis: Seq<VisualIdentity>,
    n: nat,
    k: usize,
)
    requires
        n <= k,
    ensures
        p.actions(entries, vis, n).filter(names_record(k)) == Seq::<Action>::empty(),
    decreases n,
{
    if n > 0 {
        let prev = p.actions(entries, vis, (n - 1) as nat);
        let last = option_seq(p.step(entries[n - 1], (n - 1) as usize, vis));
        lemma_none_before(p, entries, vis, (n - 1) as nat, k);
        Seq::filter_distributes_over_add(prev, last, names_record(k));
        lemma_step_facts(p, entries[n - 1], (n - 1) as usize, vis);
        lemma_filter_short(last, k);
        assert(Seq::<Action>::empty() + Seq::<Action>::empty() =~= Seq::<Action>::empty());
    } else {
        reveal_with_fuel(Seq::filter, 1);
    }
}

/// A selected record whose visual identity lookup misses gives exactly one
/// warning, which names it, and is never emitted.
pub proof fn lemma_missing_visual_warns_once<M: Matcher, T>(
    p: Pipeline<M, T>,
    entries: Seq<Result<FileModel, Warning>>,
    vis: Seq<VisualIdentity>,
    k: usize,
)
    requires
        k < entries.len(),
        entries.len() <= usize::MAX,
        entries[k as int] is Ok,
        p.selected(entries[k as int]->Ok_0),
        entries[k as int]->Ok_0.item_visual_identity >= vis.len(),
    ensures
        p.actions(entries, vis, entries.len()).filter(names_record(k)) == seq![
            Action::Warn { record: k, reason: Warning::NoVisualIdentity },
        ],
        p.step(entries[k as int], k, vis) == Some(
            Action::Warn { record: k, reason: Warning::NoVisualIdentity },
        ),
{
    lemma_actions_per_record(p, entries, vis, entries.len(), k);
}

/// A record whose visual identity resolves to a row that is not alternate
/// art, and whose name and source path are valid text, is emitted, once, iff
/// at least one selector accepts it; otherwise no action names it.
pub proof fn lemma_emitted_iff_selected<M: Matcher, T>(
    p: Pipeline<M, T>,
    entries: Seq<Result<FileModel, Warning>>,
    vis: Seq<VisualIdentity>,
    k: usize,
)
    requires
        k < entries.len(),
        entries.len() <= usize::MAX,
        vis.len() <= usize::MAX,
        entries[k as int] is Ok,
        entries[k as int]->Ok_0.item_visual_identity < vis.len(),
        !vis[entries[k as int]->Ok_0.item_visual_identity as int].is_alternate_art,
        entries[k as int]->Ok_0.name is Some,
        vis[entries[k as int]->Ok_0.item_visual_identity as int].dds_file is Some,
    ensures
        p.actions(entries, vis, entries.len()).filter(names_record(k)) == if p.selected(
            entries[k as int]->Ok_0,
        ) {
            seq![
                Action::Emit {
                    record: k,
                    visual: entries[k as int]->Ok_0.item_visual_identity as usize,
                },
            ]
        } else {
            Seq::<Action>::empty()
        },
{
    lemma_actions_per_record(p, entries, vis, entries.len(), k);
}

/// The transforms that apply to a record are those whose own matcher accepts
/// it, in registration order, whatever the selectors are.
pub proof fn lemma_transforms_ignore_selectors<M: Matcher, T>(
    p: Pipeline<M, T>,
    q: Pipeline<M, T>,
    item: FileModel,
    n: nat,
)
    requires
        p.postprocess@ == q.postprocess@,
        n <= p.postprocess@.len(),
        n <= usize::MAX,
    ensures
        p.applicable(item, n) == q.applicable(item, n),
        forall|j: int|
            0 <= j < p.applicable(item, n).len() ==> {
                &&& #[trigger] p.applicable(item, n)[j] < n
                &&& p.postprocess@[p.applicable(item, n)[j] as int].0.accepts(item)
            },
        forall|j: int, l: int|
            0 <= j < l < p.applicable(item, n).len() ==> #[trigger] p.applicable(item, n)[j]
                < #[trigger] p.applicable(item, n)[l],
        forall|x: int|
            0 <= x < n && #[trigger] p.postprocess@[x].0.accepts(item) ==> p.applicable(
                item,
                n,
            ).contains(x as usize),
    decreases n,
{
    if n > 0 {
        lemma_transforms_ignore_selectors(p, q, item, (n - 1) as nat);
        let prev = p.applicable(item, (n - 1) as nat);
        if p.postprocess@[n - 1].0.accepts(item) {
            assert(p.applicable(item, n) == prev.push((n - 1) as usize));
            assert(p.applicable(item, n).contains((n - 1) as usize)) by {
                assert(p.applicable(item, n)[prev.len() as int] == (n - 1) as usize);
            }
            assert forall|x: int|
                0 <= x < n - 1 && #[trigger] p.postprocess@[x].0.accepts(item) implies p.applicable(
                item,
                n,
            ).contains(x as usize) by {
                let i = choose|i: int| 0 <= i < prev.len() && prev[i] == x as usize;
                assert(p.applicable(item, n)[i] == x as usize);
            }
        }
    }
}

} // verus!
