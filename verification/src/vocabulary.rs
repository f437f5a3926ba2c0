//! The vocabulary store: sources imported from TXT files, each with its
//! extracted entries, and a blacklist of terms whose entries are dropped.

use vstd::prelude::*;
use crate::text::{trim, trimmed, str_equal, lowercase, to_lowercase, lemma_trimmed_idempotent};

verus! {

/// A source's entries are capped at this many sources; the oldest go first.
pub const VOCABULARY_SOURCE_LIMIT: usize = 100;

/// One extracted entry: the raw `term` field (when the entry has a string
/// `term`) and the entry's JSON text, kept as it came.
#[derive(Clone, Debug, PartialEq, Eq)]
pub struct VocabularyEntry {
    pub term: Option<String>,
    pub json: String,
}

/// A TXT file imported into the store, with its kept entries.
#[derive(Clone, Debug, PartialEq, Eq)]
pub struct VocabularySource {
    pub id: String,
    pub path: String,
    pub file_name: String,
    pub imported_at: String,
    pub char_count: usize,
    pub sentence_count: usize,
    pub entries: Vec<VocabularyEntry>,
}

/// The imported sources and the blacklisted terms.
#[derive(Clone, Debug, PartialEq, Eq)]
pub struct VocabularyStore {
    pub sources: Vec<VocabularySource>,
    pub blacklist: Vec<String>,
}

/// A source as plain values.
pub ghost struct SourceView {
    pub id: Seq<char>,
    pub path: Seq<char>,
    pub file_name: Seq<char>,
    pub imported_at: Seq<char>,
    pub char_count: usize,
    pub sentence_count: usize,
    pub entries: Seq<VocabularyEntry>,
}

impl View for VocabularySource {
    type V = SourceView;

    open spec fn view(&self) -> SourceView {
        SourceView {
            id: self.id@,
            path: self.path@,
            file_name: self.file_name@,
            imported_at: self.imported_at@,
            char_count: self.char_count,
            sentence_count: self.sentence_count,
            entries: self.entries@,
        }
    }
}

/// The sources of a store as plain values.
pub open spec fn source_views(sources: Seq<VocabularySource>) -> Seq<SourceView> {
    sources.map_values(|s: VocabularySource| s@)
}

/// The blacklist of a store as plain values.
pub open spec fn string_views(strings: Seq<String>) -> Seq<Seq<char>> {
    strings.map_values(|s: String| s@)
}

/// A source as the page submits it for saving.
#[derive(Clone, Debug, PartialEq, Eq)]
pub struct VocabularySourcePayload {
    pub path: String,
    pub file_name: String,
    pub char_count: usize,
    pub sentence_count: usize,
    pub entries: Vec<VocabularyEntry>,
}

/// An empty store.
pub fn empty_vocabulary_store() -> (store: VocabularyStore)
    ensures
        store.sources@.len() == 0,
        store.blacklist@.len() == 0,
{
    VocabularyStore { sources: Vec::new(), blacklist: Vec::new() }
}

/// A term as it is compared: without surrounding white space.
pub fn normalize_vocabulary_term(value: &str) -> (res: String)
    ensures
        res@ == trimmed(value@),
{
    trim(value)
}

/// The term an entry is filed under: its trimmed `term`, unless that is empty.
pub open spec fn entry_term(e: VocabularyEntry) -> Option<Seq<char>> {
    match e.term {
        Some(t) => if trimmed(t@).len() > 0 {
            Some(trimmed(t@))
        } else {
            None
        },
        None => None,
    }
}

/// The normalised term of an entry, if it has a string term that is not blank.
pub fn vocabulary_entry_term(entry: &VocabularyEntry) -> (res: Option<String>)
    ensures
        match entry_term(*entry) {
            Some(t) => res matches Some(r) && r@ == t,
            None => res is None,
        },
{
    match &entry.term {
        Some(t) => {
            let n = normalize_vocabulary_term(t.as_str());
            if n.unicode_len() > 0 {
                Some(n)
            } else {
                None
            }
        },
        None => None,
    }
}

/// The blacklisted terms, trimmed, without the empty ones, in list order.
pub open spec fn blacklist_terms(blacklist: Seq<String>) -> Seq<Seq<char>>
    decreases blacklist.len(),
{
    if blacklist.len() == 0 {
        seq![]
    } else {
        let rest = blacklist_terms(blacklist.drop_last());
        let t = trimmed(blacklist.last()@);
        if t.len() > 0 {
            rest.push(t)
        } else {
            rest
        }
    }
}

/// The blacklisted terms as a set (`vocabulary_blacklist_set`); the result
/// lists them in blacklist order and may repeat a term.
pub fn vocabulary_blacklist_set(store: &VocabularyStore) -> (res: Vec<String>)
    ensures
        res@.map_values(|s: String| s@) == blacklist_terms(store.blacklist@),
{
    let mut res: Vec<String> = Vec::new();
    let mut i: usize = 0;
    while i < store.blacklist.len()
        invariant
            i <= store.blacklist@.len(),
            res@.map_values(|s: String| s@) == blacklist_terms(store.blacklist@.subrange(0, i as int)),
        decreases store.blacklist.len() - i,
    {
        let t = normalize_vocabulary_term(store.blacklist[i].as_str());
        proof {
            let pre = store.blacklist@.subrange(0, i + 1);
            assert(pre.drop_last() =~= store.blacklist@.subrange(0, i as int));
            assert(pre.last() == store.blacklist@[i as int]);
        }
        if t.unicode_len() > 0 {
            res.push(t);
        }
        assert(res@.map_values(|s: String| s@) =~= blacklist_terms(store.blacklist@.subrange(0, i + 1)));
        i = i + 1;
    }
    assert(store.blacklist@.subrange(0, i as int) =~= store.blacklist@);
    res
}

fn contains_term(terms: &Vec<String>, term: &String) -> (res: bool)
    ensures
        res == terms@.map_values(|s: String| s@).contains(term@),
{
    let mut i: usize = 0;
    while i < terms.len()
        invariant
            i <= terms@.len(),
            forall|k: int| 0 <= k < i ==> (#[trigger] terms@[k])@ != term@,
        decreases terms.len() - i,
    {
        if str_equal(terms[i].as_str(), term.as_str()) {
            assert(terms@.map_values(|s: String| s@)[i as int] == term@);
            return true;
        }
        i = i + 1;
    }
    let ghost mapped = terms@.map_values(|s: String| s@);
    assert forall|k: int| 0 <= k < mapped.len() implies #[trigger] mapped[k] != term@ by {
        assert(mapped[k] == terms@[k]@);
    }
    false
}

/// Whether an entry survives the blacklist: it has no term, or its term is
/// not among `terms`.
pub open spec fn is_kept(e: VocabularyEntry, terms: Seq<Seq<char>>) -> bool {
    match entry_term(e) {
        Some(t) => !terms.contains(t),
        None => true,
    }
}

/// The entries that survive the blacklist, in their order.
pub open spec fn kept_entries(es: Seq<VocabularyEntry>, terms: Seq<Seq<char>>) -> Seq<
    VocabularyEntry,
>
    decreases es.len(),
{
    if es.len() == 0 {
        seq![]
    } else {
        let rest = kept_entries(es.drop_last(), terms);
        if is_kept(es.last(), terms) {
            rest.push(es.last())
        } else {
            rest
        }
    }
}

/// Drops the entries whose term is blacklisted (`filter_vocabulary_entries`).
pub fn filter_vocabulary_entries(entries: Vec<VocabularyEntry>, blacklist: &Vec<String>) -> (res:
    Vec<VocabularyEntry>)
    ensures
        res@ == kept_entries(entries@, blacklist@.map_values(|s: String| s@)),
{
    let ghost terms = blacklist@.map_values(|s: String| s@);
    let ghost all = entries@;
    let mut rest = entries;
    let mut kept: Vec<VocabularyEntry> = Vec::new();
    let n = rest.len();
    let mut k: usize = 0;
    while k < n
        invariant
            k <= n,
            n == all.len(),
            rest@ == all.subrange(k as int, n as int),
            kept@ == kept_entries(all.subrange(0, k as int), terms),
            terms == blacklist@.map_values(|s: String| s@),
        decreases n - k,
    {
        let entry = rest.remove(0);
        proof {
            let pre = all.subrange(0, k + 1);
            assert(pre.drop_last() =~= all.subrange(0, k as int));
            assert(pre.last() == entry);
        }
        let keep = match vocabulary_entry_term(&entry) {
            Some(t) => !contains_term(blacklist, &t),
            None => true,
        };
        if keep {
            kept.push(entry);
        }
        assert(rest@ =~= all.subrange(k + 1, n as int));
        k = k + 1;
    }
    assert(all.subrange(0, n as int) =~= all);
    kept
}

/// Without a blacklist every entry is kept.
pub proof fn lemma_kept_entries_no_terms(es: Seq<VocabularyEntry>)
    ensures
        kept_entries(es, Seq::<Seq<char>>::empty()) == es,
    decreases es.len(),
{
    if es.len() > 0 {
        lemma_kept_entries_no_terms(es.drop_last());
        assert(es.drop_last().push(es.last()) =~= es);
    }
}

/// Every kept entry is one of the given entries and survives the blacklist.
pub proof fn lemma_kept_entries_are_kept(es: Seq<VocabularyEntry>, terms: Seq<Seq<char>>)
    ensures
        forall|i: int|
            0 <= i < kept_entries(es, terms).len() ==> is_kept(
                #[trigger] kept_entries(es, terms)[i],
                terms,
            ) && es.contains(kept_entries(es, terms)[i]),
    decreases es.len(),
{
    if es.len() > 0 {
        lemma_kept_entries_are_kept(es.drop_last(), terms);
        let rest = kept_entries(es.drop_last(), terms);
        assert forall|i: int| 0 <= i < kept_entries(es, terms).len() implies is_kept(
            #[trigger] kept_entries(es, terms)[i],
            terms,
        ) && es.contains(kept_entries(es, terms)[i]) by {
            if i < rest.len() {
                assert(kept_entries(es, terms)[i] == rest[i]);
                let j = choose|j: int| 0 <= j < es.drop_last().len() && es.drop_last()[j] == rest[i];
                assert(es[j] == rest[i]);
            } else {
                assert(es[es.len() - 1] == es.last());
            }
        }
    }
}

/// The source with its entries filtered by `terms`.
pub open spec fn filtered_source(v: SourceView, terms: Seq<Seq<char>>) -> SourceView {
    SourceView { entries: kept_entries(v.entries, terms), ..v }
}

/// Drops the blacklisted entries from every source
/// (`remove_blacklisted_entries_from_sources`).
pub fn remove_blacklisted_entries_from_sources(store: &mut VocabularyStore)
    ensures
        final(store).blacklist@ == old(store).blacklist@,
        source_views(final(store).sources@) == source_views(old(store).sources@).map_values(
            |v: SourceView| filtered_source(v, blacklist_terms(old(store).blacklist@)),
        ),
{
    let terms = vocabulary_blacklist_set(store);
    let ghost old_views = source_views(store.sources@);
    let ghost t = blacklist_terms(store.blacklist@);
    if terms.len() == 0 {
        assert(t =~= Seq::<Seq<char>>::empty());
        assert forall|i: int| 0 <= i < old_views.len() implies #[trigger] filtered_source(
            old_views[i],
            t,
        ) == old_views[i] by {
            lemma_kept_entries_no_terms(old_views[i].entries);
        }
        assert(old_views.map_values(|v: SourceView| filtered_source(v, t)) =~= old_views);
        return;
    }
    let mut taken: Vec<VocabularySource> = Vec::new();
    std::mem::swap(&mut taken, &mut store.sources);
    let ghost all = taken@;
    let n = taken.len();
    let mut k: usize = 0;
    while k < n
        invariant
            k <= n,
            n == all.len(),
            old_views == source_views(all),
            taken@ == all.subrange(k as int, n as int),
            store.blacklist@ == old(store).blacklist@,
            t == blacklist_terms(store.blacklist@),
            string_views(terms@) == t,
            source_views(store.sources@) == source_views(all.subrange(0, k as int)).map_values(
                |v: SourceView| filtered_source(v, t),
            ),
        decreases n - k,
    {
        let source = taken.remove(0);
        assert(source == all[k as int]);
        let VocabularySource { id, path, file_name, imported_at, char_count, sentence_count, entries } =
            source;
        let kept = filter_vocabulary_entries(entries, &terms);
        let ghost before = store.sources@;
        store.sources.push(
            VocabularySource { id, path, file_name, imported_at, char_count, sentence_count, entries: kept },
        );
        assert(source_views(store.sources@) =~= source_views(all.subrange(0, k + 1)).map_values(
            |v: SourceView| filtered_source(v, t),
        )) by {
            assert(source_views(store.sources@) =~= source_views(before).push(
                store.sources@[k as int]@,
            ));
        }
        assert(taken@ =~= all.subrange(k + 1, n as int));
        k = k + 1;
    }
    assert(all.subrange(0, n as int) =~= all);
}

/// Whether index `i` holds the first source with the given id.
pub open spec fn is_first_with_id(v: Seq<SourceView>, id: Seq<char>, i: int) -> bool {
    0 <= i < v.len() && v[i].id == id && forall|k: int| 0 <= k < i ==> v[k].id != id
}

/// Whether some source has the given id.
pub open spec fn has_source(v: Seq<SourceView>, id: Seq<char>) -> bool {
    exists|i: int| 0 <= i < v.len() && v[i].id == id
}

/// The position of the first source with the given id (when there is one).
pub open spec fn first_source_index(v: Seq<SourceView>, id: Seq<char>) -> int {
    choose|i: int| is_first_with_id(v, id, i)
}

/// The sources after saving `new`: it replaces the first source with its id,
/// or is appended; then the oldest sources beyond the limit are dropped.
pub open spec fn sources_after_save(v: Seq<SourceView>, new: SourceView) -> Seq<SourceView> {
    let updated = if has_source(v, new.id) {
        v.update(first_source_index(v, new.id), new)
    } else {
        v.push(new)
    };
    if updated.len() > VOCABULARY_SOURCE_LIMIT {
        updated.subrange(updated.len() - VOCABULARY_SOURCE_LIMIT, updated.len() as int)
    } else {
        updated
    }
}

/// The source saved for a payload: its id is the lowercased path, and the
/// blacklisted entries are left out.
pub open spec fn saved_source(
    payload: VocabularySourcePayload,
    imported_at: Seq<char>,
    blacklist: Seq<String>,
) -> SourceView {
    SourceView {
        id: lowercase(payload.path@),
        path: payload.path@,
        file_name: payload.file_name@,
        imported_at,
        char_count: payload.char_count,
        sentence_count: payload.sentence_count,
        entries: kept_entries(payload.entries@, blacklist_terms(blacklist)),
    }
}

proof fn lemma_first_index_unique(v: Seq<SourceView>, id: Seq<char>, i: int)
    requires
        is_first_with_id(v, id, i),
    ensures
        has_source(v, id),
        first_source_index(v, id) == i,
{
    let j = first_source_index(v, id);
    assert(is_first_with_id(v, id, j));
    if j < i {
        assert(v[j].id != id);
    } else if i < j {
        assert(v[i].id != id);
    }
}

/// Saves an imported source (the bookkeeping of `vocabulary_save_source`);
/// `imported_at` is the time stamp of the import.
pub fn save_vocabulary_source(
    store: &mut VocabularyStore,
    payload: VocabularySourcePayload,
    imported_at: String,
) -> (res: Result<(), String>)
    ensures
        if trimmed(payload.path@).len() == 0 || trimmed(payload.file_name@).len() == 0 {
            res matches Err(e) && e@ == "来源文件信息不完整"@ && final(store).sources@ == old(
                store,
            ).sources@ && final(store).blacklist@ == old(store).blacklist@
        } else {
            res is Ok && final(store).blacklist@ == old(store).blacklist@ && source_views(
                final(store).sources@,
            ) == sources_after_save(
                source_views(old(store).sources@),
                saved_source(payload, imported_at@, old(store).blacklist@),
            )
        },
{
    if trim(payload.path.as_str()).unicode_len() == 0 || trim(payload.file_name.as_str()).unicode_len()
        == 0 {
        return Err(String::from_str("来源文件信息不完整"));
    }
    let ghost expected = saved_source(payload, imported_at@, store.blacklist@);
    let ghost old_views = source_views(store.sources@);
    let id = to_lowercase(payload.path.as_str());
    let terms = vocabulary_blacklist_set(store);
    let VocabularySourcePayload { path, file_name, char_count, sentence_count, entries } = payload;
    let source = VocabularySource {
        id,
        path,
        file_name,
        imported_at,
        char_count,
        sentence_count,
        entries: filter_vocabulary_entries(entries, &terms),
    };
    assert(source@ == expected);
    let n = store.sources.len();
    let mut i: usize = 0;
    while i < n && !str_equal(store.sources[i].id.as_str(), source.id.as_str())
        invariant
            i <= n,
            n == store.sources@.len(),
            old_views == source_views(store.sources@),
            forall|k: int| 0 <= k < i ==> old_views[k].id != expected.id,
            source@ == expected,
            store.blacklist@ == old(store).blacklist@,
        decreases n - i,
    {
        i = i + 1;
    }
    let ghost plain = if has_source(old_views, expected.id) {
        old_views.update(first_source_index(old_views, expected.id), expected)
    } else {
        old_views.push(expected)
    };
    if i < n {
        proof {
            lemma_first_index_unique(old_views, expected.id, i as int);
        }
        store.sources.set(i, source);
        assert(source_views(store.sources@) =~= old_views.update(i as int, expected));
    } else {
        assert(!has_source(old_views, expected.id));
        store.sources.push(source);
        assert(source_views(store.sources@) =~= old_views.push(expected));
    }
    let ghost updated = source_views(store.sources@);
    assert(updated.subrange(0, updated.len() as int) =~= updated);
    while store.sources.len() > VOCABULARY_SOURCE_LIMIT
        invariant
            store.sources@.len() <= updated.len(),
            store.blacklist@ == old(store).blacklist@,
            updated.len() > VOCABULARY_SOURCE_LIMIT ==> store.sources@.len() >= VOCABULARY_SOURCE_LIMIT,
            updated.len() <= VOCABULARY_SOURCE_LIMIT ==> store.sources@.len() == updated.len(),
            source_views(store.sources@) == updated.subrange(
                updated.len() - store.sources@.len(),
                updated.len() as int,
            ),
        decreases store.sources.len(),
    {
        let ghost before = source_views(store.sources@);
        store.sources.remove(0);
        assert(source_views(store.sources@) =~= before.subrange(1, before.len() as int));
        assert(source_views(store.sources@) =~= updated.subrange(
            updated.len() - store.sources@.len(),
            updated.len() as int,
        ));
    }
    assert(updated == plain);
    assert(updated.len() <= VOCABULARY_SOURCE_LIMIT ==> updated.subrange(0, updated.len() as int)
        =~= updated);
    assert(source_views(store.sources@) == sources_after_save(old_views, expected));
    Ok(())
}

/// The sources without those with the given id.
pub open spec fn sources_without(v: Seq<SourceView>, id: Seq<char>) -> Seq<SourceView>
    decreases v.len(),
{
    if v.len() == 0 {
        seq![]
    } else {
        let rest = sources_without(v.drop_last(), id);
        if v.last().id == id {
            rest
        } else {
            rest.push(v.last())
        }
    }
}

/// Removes every source with the given id (`vocabulary_remove_source`).
pub fn remove_vocabulary_source(store: &mut VocabularyStore, source_id: &str)
    ensures
        final(store).blacklist@ == old(store).blacklist@,
        source_views(final(store).sources@) == sources_without(
            source_views(old(store).sources@),
            source_id@,
        ),
{
    let mut taken: Vec<VocabularySource> = Vec::new();
    std::mem::swap(&mut taken, &mut store.sources);
    let ghost all = source_views(taken@);
    let ghost all_sources = taken@;
    let n = taken.len();
    let mut k: usize = 0;
    while k < n
        invariant
            k <= n,
            n == all.len(),
            all == source_views(all_sources),
            taken@ == all_sources.subrange(k as int, n as int),
            store.blacklist@ == old(store).blacklist@,
            source_views(store.sources@) == sources_without(all.subrange(0, k as int), source_id@),
        decreases n - k,
    {
        let source = taken.remove(0);
        proof {
            let pre = all.subrange(0, k + 1);
            assert(pre.drop_last() =~= all.subrange(0, k as int));
            assert(pre.last() == source@);
        }
        let ghost before = store.sources@;
        if !str_equal(source.id.as_str(), source_id) {
            store.sources.push(source);
            assert(source_views(store.sources@) =~= source_views(before).push(source@));
        }
        assert(taken@ =~= all_sources.subrange(k + 1, n as int));
        k = k + 1;
    }
    assert(all.subrange(0, n as int) =~= all);
}

/// The blacklist after adding `t`: unchanged when a listed term trims to it.
pub open spec fn blacklist_after_add(bl: Seq<Seq<char>>, t: Seq<char>) -> Seq<Seq<char>> {
    if exists|i: int| 0 <= i < bl.len() && trimmed(#[trigger] bl[i]) == t {
        bl
    } else {
        bl.push(t)
    }
}

/// Blacklists a term and drops its entries from every source
/// (`vocabulary_blacklist_term`).
pub fn blacklist_vocabulary_term(store: &mut VocabularyStore, term: &str) -> (res: Result<(), String>)
    ensures
        if trimmed(term@).len() == 0 {
            res matches Err(e) && e@ == "词语不能为空"@ && final(store).sources@ == old(
                store,
            ).sources@ && final(store).blacklist@ == old(store).blacklist@
        } else {
            res is Ok && string_views(final(store).blacklist@) == blacklist_after_add(
                string_views(old(store).blacklist@),
                trimmed(term@),
            ) && source_views(final(store).sources@) == source_views(
                old(store).sources@,
            ).map_values(
                |v: SourceView| filtered_source(v, blacklist_terms(final(store).blacklist@)),
            )
        },
{
    let normalized = normalize_vocabulary_term(term);
    if normalized.unicode_len() == 0 {
        return Err(String::from_str("词语不能为空"));
    }
    let ghost bl = string_views(store.blacklist@);
    let n = store.blacklist.len();
    let mut i: usize = 0;
    let mut found = false;
    while i < n && !found
        invariant
            i <= n,
            n == store.blacklist@.len(),
            bl == string_views(store.blacklist@),
            found ==> exists|j: int| 0 <= j < bl.len() && trimmed(#[trigger] bl[j]) == normalized@,
            !found ==> forall|j: int| 0 <= j < i ==> trimmed(#[trigger] bl[j]) != normalized@,
        decreases n - i + (if found {
            0int
        } else {
            1
        }),
    {
        let t = normalize_vocabulary_term(store.blacklist[i].as_str());
        if str_equal(t.as_str(), normalized.as_str()) {
            assert(trimmed(bl[i as int]) == normalized@);
            found = true;
        } else {
            i = i + 1;
        }
    }
    if !found {
        store.blacklist.push(normalized);
        assert(string_views(store.blacklist@) =~= bl.push(trimmed(term@)));
    }
    remove_blacklisted_entries_from_sources(store);
    Ok(())
}

/// The blacklist without the terms that trim to `t`.
pub open spec fn blacklist_without(bl: Seq<Seq<char>>, t: Seq<char>) -> Seq<Seq<char>>
    decreases bl.len(),
{
    if bl.len() == 0 {
        seq![]
    } else {
        let rest = blacklist_without(bl.drop_last(), t);
        if trimmed(bl.last()) == t {
            rest
        } else {
            rest.push(bl.last())
        }
    }
}

/// Takes a term off the blacklist (`vocabulary_restore_term`); entries
/// dropped while it was listed do not come back.
pub fn restore_vocabulary_term(store: &mut VocabularyStore, term: &str) -> (res: Result<(), String>)
    ensures
        final(store).sources@ == old(store).sources@,
        if trimmed(term@).len() == 0 {
            res matches Err(e) && e@ == "词语不能为空"@ && final(store).blacklist@ == old(
                store,
            ).blacklist@
        } else if blacklist_without(string_views(old(store).blacklist@), trimmed(term@)).len()
            == old(store).blacklist@.len() {
            res matches Err(e) && e@ == "词语不在黑名单中"@ && final(store).blacklist@ == old(
                store,
            ).blacklist@
        } else {
            res is Ok && string_views(final(store).blacklist@) == blacklist_without(
                string_views(old(store).blacklist@),
                trimmed(term@),
            )
        },
{
    let normalized = normalize_vocabulary_term(term);
    if normalized.unicode_len() == 0 {
        return Err(String::from_str("词语不能为空"));
    }
    let ghost bl = string_views(store.blacklist@);
    let n = store.blacklist.len();
    let mut kept: Vec<String> = Vec::new();
    let mut k: usize = 0;
    while k < n
        invariant
            k <= n,
            n == store.blacklist@.len(),
            bl == string_views(store.blacklist@),
            store.blacklist@ == old(store).blacklist@,
            store.sources@ == old(store).sources@,
            string_views(kept@) == blacklist_without(bl.subrange(0, k as int), normalized@),
            kept@.len() <= k,
        decreases n - k,
    {
        let t = normalize_vocabulary_term(store.blacklist[k].as_str());
        proof {
            let pre = bl.subrange(0, k + 1);
            assert(pre.drop_last() =~= bl.subrange(0, k as int));
            assert(pre.last() == store.blacklist@[k as int]@);
        }
        if !str_equal(t.as_str(), normalized.as_str()) {
            let item = store.blacklist[k].clone();
            let ghost before = kept@;
            kept.push(item);
            assert(string_views(kept@) =~= string_views(before).push(store.blacklist@[k as int]@));
        }
        k = k + 1;
    }
    assert(bl.subrange(0, n as int) =~= bl);
    if kept.len() == n {
        return Err(String::from_str("词语不在黑名单中"));
    }
    store.blacklist = kept;
    Ok(())
}

proof fn lemma_blacklist_terms_contains(bl: Seq<String>, i: int)
    requires
        0 <= i < bl.len(),
        trimmed(bl[i]@).len() > 0,
    ensures
        blacklist_terms(bl).contains(trimmed(bl[i]@)),
    decreases bl.len(),
{
    let rest = blacklist_terms(bl.drop_last());
    if i == bl.len() - 1 {
        assert(blacklist_terms(bl) == rest.push(trimmed(bl[i]@)));
        assert(blacklist_terms(bl)[rest.len() as int] == trimmed(bl[i]@));
    } else {
        lemma_blacklist_terms_contains(bl.drop_last(), i);
        assert(bl.drop_last()[i] == bl[i]);
        let k = choose|k: int| 0 <= k < rest.len() && rest[k] == trimmed(bl[i]@);
        assert(blacklist_terms(bl)[k] == rest[k]);
    }
}

/// Once a term is blacklisted, no source keeps an entry filed under it.
pub proof fn lemma_blacklisted_term_leaves_no_entries(
    sources: Seq<SourceView>,
    old_blacklist: Seq<Seq<char>>,
    new_blacklist: Seq<String>,
    term: Seq<char>,
)
    requires
        trimmed(term).len() > 0,
        string_views(new_blacklist) == blacklist_after_add(old_blacklist, trimmed(term)),
    ensures
        forall|i: int, j: int|
            0 <= i < sources.len() && 0 <= j < kept_entries(
                sources[i].entries,
                blacklist_terms(new_blacklist),
            ).len() ==> entry_term(
                #[trigger] kept_entries(sources[i].entries, blacklist_terms(new_blacklist))[j],
            ) != Some(trimmed(term)),
{
    let t = trimmed(term);
    let terms = blacklist_terms(new_blacklist);
    if exists|i: int| 0 <= i < old_blacklist.len() && trimmed(#[trigger] old_blacklist[i]) == t {
        let i = choose|i: int| 0 <= i < old_blacklist.len() && trimmed(#[trigger] old_blacklist[i])
            == t;
        assert(string_views(new_blacklist)[i] == new_blacklist[i]@);
        lemma_blacklist_terms_contains(new_blacklist, i);
    } else {
        assert(string_views(new_blacklist).len() == new_blacklist.len());
        assert(string_views(new_blacklist) == old_blacklist.push(t));
        let last = new_blacklist.len() - 1;
        assert(string_views(new_blacklist)[last] == new_blacklist[last]@);
        assert(new_blacklist[last]@ == t);
        lemma_trimmed_idempotent(term);
        lemma_blacklist_terms_contains(new_blacklist, last);
    }
    assert(terms.contains(t));
    assert forall|i: int, j: int|
        0 <= i < sources.len() && 0 <= j < kept_entries(sources[i].entries, terms).len() implies entry_term(
        #[trigger] kept_entries(sources[i].entries, terms)[j],
    ) != Some(t) by {
        lemma_kept_entries_are_kept(sources[i].entries, terms);
        assert(is_kept(kept_entries(sources[i].entries, terms)[j], terms));
    }
}

/// Saving keeps at most `VOCABULARY_SOURCE_LIMIT` sources, and when the
/// store was within the limit the saved source is the one found under its id.
pub proof fn lemma_saved_source_is_found(v: Seq<SourceView>, new: SourceView)
    ensures
        sources_after_save(v, new).len() <= VOCABULARY_SOURCE_LIMIT,
        v.len() <= VOCABULARY_SOURCE_LIMIT ==> has_source(sources_after_save(v, new), new.id)
            && sources_after_save(v, new)[first_source_index(sources_after_save(v, new), new.id)]
            == new,
{
    let r = sources_after_save(v, new);
    if v.len() <= VOCABULARY_SOURCE_LIMIT {
        if has_source(v, new.id) {
            let i = first_source_index(v, new.id);
            let w = choose|w: int| 0 <= w < v.len() && v[w].id == new.id;
            lemma_first_exists(v, new.id, w);
            assert(is_first_with_id(v, new.id, i));
            assert(r == v.update(i, new));
            assert(is_first_with_id(r, new.id, i));
            lemma_first_index_unique(r, new.id, i);
        } else {
            let grown = v.push(new);
            if grown.len() > VOCABULARY_SOURCE_LIMIT {
                assert(r == grown.subrange(1, grown.len() as int));
                let i = r.len() - 1;
                assert(r[i] == new);
                assert(forall|k: int| 0 <= k < i ==> r[k] == v[k + 1]);
                assert(is_first_with_id(r, new.id, i));
                lemma_first_index_unique(r, new.id, i);
            } else {
                let i = v.len() as int;
                assert(r == grown);
                assert(is_first_with_id(r, new.id, i));
                lemma_first_index_unique(r, new.id, i);
            }
        }
    }
}

proof fn lemma_first_exists(v: Seq<SourceView>, id: Seq<char>, w: int)
    requires
        0 <= w < v.len(),
        v[w].id == id,
    ensures
        exists|i: int| is_first_with_id(v, id, i),
    decreases w,
{
    if exists|k: int| 0 <= k < w && v[k].id == id {
        let k = choose|k: int| 0 <= k < w && v[k].id == id;
        lemma_first_exists(v, id, k);
    } else {
        assert(is_first_with_id(v, id, w));
    }
}

/// After removing a source id no source with that id is left.
pub proof fn lemma_removed_source_is_gone(v: Seq<SourceView>, id: Seq<char>)
    ensures
        forall|i: int| 0 <= i < sources_without(v, id).len() ==> (#[trigger] sources_without(
            v,
            id,
        )[i]).id != id,
    decreases v.len(),
{
    if v.len() > 0 {
        lemma_removed_source_is_gone(v.drop_last(), id);
        let rest = sources_without(v.drop_last(), id);
        let r = sources_without(v, id);
        assert forall|i: int| 0 <= i < r.len() implies (#[trigger] r[i]).id != id by {
            if v.last().id != id && i == rest.len() {
                assert(r[i] == v.last());
            } else {
                assert(r[i] == rest[i]);
            }
        }
    }
}

/// After restoring a term no blacklisted term trims to it.
pub proof fn lemma_restored_term_is_gone(bl: Seq<Seq<char>>, t: Seq<char>)
    ensures
        forall|i: int| 0 <= i < blacklist_without(bl, t).len() ==> trimmed(
            #[trigger] blacklist_without(bl, t)[i],
        ) != t,
    decreases bl.len(),
{
    if bl.len() > 0 {
        lemma_restored_term_is_gone(bl.drop_last(), t);
        let rest = blacklist_without(bl.drop_last(), t);
        let r = blacklist_without(bl, t);
        assert forall|i: int| 0 <= i < r.len() implies trimmed(#[trigger] r[i]) != t by {
            if trimmed(bl.last()) != t && i == rest.len() {
                assert(r[i] == bl.last());
            } else {
                assert(r[i] == rest[i]);
            }
        }
    }
}

/// Whether a source has an id other than `id`.
pub open spec fn id_differs(id: Seq<char>) -> spec_fn(SourceView) -> bool {
    |s: SourceView| s.id != id
}

/// Whether a term does not trim to `t`.
pub open spec fn trims_to_other(t: Seq<char>) -> spec_fn(Seq<char>) -> bool {
    |x: Seq<char>| trimmed(x) != t
}

/// Removing a source keeps every other source, in its order: the sources
/// left are exactly the old ones whose id differs, and each of those is
/// still there.
pub proof fn lemma_remove_keeps_other_sources(v: Seq<SourceView>, id: Seq<char>)
    ensures
        sources_without(v, id) == v.filter(id_differs(id)),
        forall|i: int|
            0 <= i < v.len() && v[i].id != id ==> #[trigger] sources_without(v, id).contains(v[i]),
        forall|s: SourceView| #[trigger]
            sources_without(v, id).contains(s) ==> v.contains(s) && s.id != id,
{
    let p = id_differs(id);
    lemma_sources_without_is_filter(v, id);
    assert forall|i: int| 0 <= i < v.len() && v[i].id != id implies #[trigger] sources_without(
        v,
        id,
    ).contains(v[i]) by {
        v.lemma_filter_contains(p, i);
    }
    assert forall|s: SourceView| #[trigger] sources_without(v, id).contains(s) implies v.contains(s)
        && s.id != id by {
        v.lemma_filter_contains_rev(p, s);
        let k = choose|k: int| 0 <= k < v.filter(p).len() && v.filter(p)[k] == s;
        v.lemma_filter_pred(p, k);
    }
}

proof fn lemma_sources_without_is_filter(v: Seq<SourceView>, id: Seq<char>)
    ensures
        sources_without(v, id) == v.filter(id_differs(id)),
    decreases v.len(),
{
    reveal(Seq::filter);
    if v.len() > 0 {
        lemma_sources_without_is_filter(v.drop_last(), id);
        assert(v.filter(id_differs(id)) == {
            let sub = v.drop_last().filter(id_differs(id));
            if id_differs(id)(v.last()) { sub.push(v.last()) } else { sub }
        });
    } else {
        assert(v.filter(id_differs(id)) == v);
    }
}

/// Restoring a term keeps every other blacklisted term, in its order: the
/// terms left are exactly the old ones that do not trim to the restored
/// term, and each of those is still there.
pub proof fn lemma_restore_keeps_other_terms(bl: Seq<Seq<char>>, t: Seq<char>)
    ensures
        blacklist_without(bl, t) == bl.filter(trims_to_other(t)),
        forall|i: int|
            0 <= i < bl.len() && trimmed(bl[i]) != t ==> #[trigger] blacklist_without(bl, t).contains(
                bl[i],
            ),
        forall|x: Seq<char>| #[trigger]
            blacklist_without(bl, t).contains(x) ==> bl.contains(x) && trimmed(x) != t,
{
    let p = trims_to_other(t);
    lemma_blacklist_without_is_filter(bl, t);
    assert forall|i: int| 0 <= i < bl.len() && trimmed(bl[i]) != t implies #[trigger] blacklist_without(
        bl,
        t,
    ).contains(bl[i]) by {
        bl.lemma_filter_contains(p, i);
    }
    assert forall|x: Seq<char>| #[trigger] blacklist_without(bl, t).contains(x) implies bl.contains(x)
        && trimmed(x) != t by {
        bl.lemma_filter_contains_rev(p, x);
        let k = choose|k: int| 0 <= k < bl.filter(p).len() && bl.filter(p)[k] == x;
        bl.lemma_filter_pred(p, k);
    }
}

proof fn lemma_blacklist_without_is_filter(bl: Seq<Seq<char>>, t: Seq<char>)
    ensures
        blacklist_without(bl, t) == bl.filter(trims_to_other(t)),
    decreases bl.len(),
{
    reveal(Seq::filter);
    if bl.len() > 0 {
        lemma_blacklist_without_is_filter(bl.drop_last(), t);
        assert(bl.filter(trims_to_other(t)) == {
            let sub = bl.drop_last().filter(trims_to_other(t));
            if trims_to_other(t)(bl.last()) { sub.push(bl.last()) } else { sub }
        });
    } else {
        assert(bl.filter(trims_to_other(t)) == bl);
    }
}

/// Saving a source never removes another one, except the oldest beyond the
/// limit: every old source with another id that is among the newest
/// `VOCABULARY_SOURCE_LIMIT - 1` is still saved; while the store is below
/// the limit, every such source keeps its position and no source is lost.
pub proof fn lemma_save_keeps_other_sources(v: Seq<SourceView>, new: SourceView)
    ensures
        forall|i: int|
            0 <= i < v.len() && v[i].id != new.id && v.len() - i < VOCABULARY_SOURCE_LIMIT
                ==> #[trigger] sources_after_save(v, new).contains(v[i]),
        v.len() < VOCABULARY_SOURCE_LIMIT ==> sources_after_save(v, new).len() >= v.len(),
        v.len() < VOCABULARY_SOURCE_LIMIT ==> forall|i: int|
            0 <= i < v.len() && v[i].id != new.id ==> #[trigger] sources_after_save(v, new)[i]
                == v[i],
{
    let r = sources_after_save(v, new);
    let replaced = has_source(v, new.id);
    let updated = if replaced {
        v.update(first_source_index(v, new.id), new)
    } else {
        v.push(new)
    };
    if replaced {
        let w = choose|w: int| 0 <= w < v.len() && v[w].id == new.id;
        lemma_first_exists(v, new.id, w);
    }
    assert forall|i: int| 0 <= i < v.len() && v[i].id != new.id implies #[trigger] updated[i]
        == v[i] by {
        if has_source(v, new.id) {
            let idx = first_source_index(v, new.id);
            assert(is_first_with_id(v, new.id, idx));
            assert(i != idx);
        }
    }
    assert forall|i: int|
        0 <= i < v.len() && v[i].id != new.id && v.len() - i < VOCABULARY_SOURCE_LIMIT implies #[trigger] r.contains(
        v[i],
    ) by {
        assert(updated[i] == v[i]);
        if updated.len() > VOCABULARY_SOURCE_LIMIT {
            let off = updated.len() - VOCABULARY_SOURCE_LIMIT;
            assert(r[i - off] == updated[i]);
        } else {
            assert(r[i] == updated[i]);
        }
    }
}

} // verus!
