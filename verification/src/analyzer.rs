//! Resolution of call sites into the call graph, and the choice of the
//! source files that an analysis reads.

use vstd::prelude::*;

use crate::model::{call_order, Analysis, Call, CallModel, Function, FunctionModel};
use crate::order::{
    compare_number, compare_text, is_total_preorder, lemma_ranked_order_len, lemma_sort_by_sorted,
    lemma_sorted_items_views, lemma_text_order, number_order, rank_order, ranked_order, sort_by,
    sorted_by_le, sorted_items, text_order, Ranked,
};
use crate::symbols::{
    file_symbols, key_models, law_file_symbol_lines, law_file_symbols, rows_in_preorder, site_models, CallSite,
    FunctionKey, KeyModel, ParsedFile, SiteModel,
};
use crate::syntax::SyntaxTree;
use crate::language::Language;
use crate::text::{decimal, decimal_text, lemma_decimal_injective, push_char};

verus! {

broadcast use vstd::seq_lib::group_to_multiset_ensures;

/// The order of definitions: file, line, name.
pub open spec fn definition_order(a: KeyModel, b: KeyModel) -> int {
    if text_order(a.file, b.file) != 0 {
        text_order(a.file, b.file)
    } else if number_order(a.line, b.line) != 0 {
        number_order(a.line, b.line)
    } else {
        text_order(a.name, b.name)
    }
}

impl Ranked for FunctionKey {
    open spec fn rank_le(self, other: FunctionKey) -> bool {
        definition_order(self@, other@) <= 0
    }

    proof fn lemma_rank_total(a: FunctionKey, b: FunctionKey) {
        lemma_text_order(a.file@, b.file@, b.file@);
        lemma_text_order(a.name@, b.name@, b.name@);
    }

    proof fn lemma_rank_transitive(a: FunctionKey, b: FunctionKey, c: FunctionKey) {
        lemma_text_order(a.file@, b.file@, c.file@);
        lemma_text_order(a.name@, b.name@, c.name@);
    }

    fn ranks_no_later(&self, other: &FunctionKey) -> (r: bool) {
        let o = compare_text(self.file.as_str(), other.file.as_str());
        if o != 0 {
            return o < 0;
        }
        let o = compare_number(self.line, other.line);
        if o != 0 {
            return o < 0;
        }
        compare_text(self.name.as_str(), other.name.as_str()) <= 0
    }
}

/// Definitions sort by file, then line, then name.
pub open spec fn definition_le() -> spec_fn(KeyModel, KeyModel) -> bool {
    |a: KeyModel, b: KeyModel| definition_order(a, b) <= 0
}

/// Calls sort by caller, then callee, then file, then line.
pub open spec fn call_le() -> spec_fn(CallModel, CallModel) -> bool {
    |a: CallModel, b: CallModel| call_order(a, b) <= 0
}

/// The definitions of all files, file after file.
pub open spec fn definitions_of(files: Seq<ParsedFile>) -> Seq<KeyModel>
    decreases files.len(),
{
    if files.len() == 0 {
        seq![]
    } else {
        definitions_of(files.drop_last()) + key_models(files.last().definitions@)
    }
}

/// The call sites of all files, file after file.
pub open spec fn sites_of(files: Seq<ParsedFile>) -> Seq<SiteModel>
    decreases files.len(),
{
    if files.len() == 0 {
        seq![]
    } else {
        sites_of(files.drop_last()) + site_models(files.last().call_sites@)
    }
}

/// The id of the function at position `i` of the sorted definitions.
pub open spec fn function_id(i: int) -> Seq<char> {
    seq!['f'] + decimal(i as nat)
}

/// The function records of the sorted definitions, numbered in order.
pub open spec fn functions_of(defs: Seq<KeyModel>) -> Seq<FunctionModel> {
    Seq::new(
        defs.len(),
        |i: int| FunctionModel { id: function_id(i), name: defs[i].name, file: defs[i].file, line: defs[i].line },
    )
}

/// The position of the last definition equal to `key`.
pub open spec fn last_with_key(defs: Seq<KeyModel>, key: KeyModel) -> Option<int>
    decreases defs.len(),
{
    if defs.len() == 0 {
        None
    } else if defs.last() == key {
        Some(defs.len() - 1)
    } else {
        last_with_key(defs.drop_last(), key)
    }
}

/// The position of the first definition named `name`.
pub open spec fn first_with_name(defs: Seq<KeyModel>, name: Seq<char>) -> Option<int>
    decreases defs.len(),
{
    if defs.len() == 0 {
        None
    } else if defs[0].name == name {
        Some(0)
    } else {
        match first_with_name(defs.drop_first(), name) {
            Some(j) => Some(j + 1),
            None => None,
        }
    }
}

/// A call site resolved against the sorted definitions: its caller is the
/// definition it stands in (the last one with that key), its callee the
/// first definition with the called name; `None` where either is missing.
pub open spec fn resolve_site(defs: Seq<KeyModel>, s: SiteModel) -> Option<CallModel> {
    match (last_with_key(defs, s.caller), first_with_name(defs, s.callee_name)) {
        (Some(a), Some(b)) => Some(
            call_from(s, function_id(a), function_id(b)),
        ),
        _ => None,
    }
}

/// The call sites that resolve, in order.
pub open spec fn resolved(defs: Seq<KeyModel>, sites: Seq<SiteModel>) -> Seq<CallModel>
    decreases sites.len(),
{
    if sites.len() == 0 {
        seq![]
    } else {
        resolved(defs, sites.drop_last()) + match resolve_site(defs, sites.last()) {
            Some(c) => seq![c],
            None => seq![],
        }
    }
}

/// The sorted definitions of the parsed files.
pub open spec fn sorted_definitions(files: Seq<ParsedFile>) -> Seq<KeyModel> {
    sort_by(definitions_of(files), definition_le())
}

/// The functions of an analysis of the parsed files.
pub open spec fn analysis_functions(files: Seq<ParsedFile>) -> Seq<FunctionModel> {
    functions_of(sorted_definitions(files))
}

/// The calls of an analysis of the parsed files, sorted.
pub open spec fn analysis_calls(files: Seq<ParsedFile>) -> Seq<CallModel> {
    sort_by(resolved(sorted_definitions(files), sites_of(files)), call_le())
}

/// The views of function records.
pub open spec fn function_models(fs: Seq<Function>) -> Seq<FunctionModel> {
    fs.map_values(|f: Function| f@)
}

/// The views of call records.
pub open spec fn call_models(cs: Seq<Call>) -> Seq<CallModel> {
    cs.map_values(|c: Call| c@)
}

/// Resolving sites one list after another is resolving their concatenation.
pub proof fn lemma_resolved_append(defs: Seq<KeyModel>, a: Seq<SiteModel>, b: Seq<SiteModel>)
    ensures
        resolved(defs, a + b) == resolved(defs, a) + resolved(defs, b),
    decreases b.len(),
{
    if b.len() == 0 {
        assert(a + b =~= a);
        assert(resolved(defs, a) + resolved(defs, b) =~= resolved(defs, a));
    } else {
        lemma_resolved_append(defs, a, b.drop_last());
        assert((a + b).drop_last() =~= a + b.drop_last());
        assert((a + b).last() == b.last());
    }
}

/// The id text of the function at position `i`.
pub fn function_id_text(i: usize) -> (r: String)
    ensures
        r@ == function_id(i as int),
{
    let mut r = String::new();
    push_char(&mut r, 'f');
    let digits = decimal_text(i as u128);
    r.append(digits.as_str());
    r
}

fn same_key(a: &FunctionKey, b: &FunctionKey) -> (r: bool)
    ensures
        r == (a@ == b@),
{
    a.file == b.file && a.line == b.line && a.name == b.name
}

/// `definition_order` is antisymmetric, and zero on equal definitions.
proof fn lemma_definition_order_antisymmetric(a: KeyModel, b: KeyModel)
    ensures
        definition_order(a, a) == 0,
        definition_order(a, b) <= 0 && definition_order(b, a) <= 0 ==> a == b,
{
    lemma_text_order(a.file, b.file, b.file);
    lemma_text_order(a.name, b.name, b.name);
    lemma_text_order(a.file, a.file, a.file);
    lemma_text_order(a.name, a.name, a.name);
}

/// The last definition equal to `key` is at `i` where nothing after `i` is.
proof fn lemma_last_with_key_is(defs: Seq<KeyModel>, key: KeyModel, i: int)
    requires
        0 <= i < defs.len(),
        defs[i] == key,
        forall|j: int| i < j < defs.len() ==> defs[j] != key,
    ensures
        last_with_key(defs, key) == Some(i),
    decreases defs.len(),
{
    if i < defs.len() - 1 {
        assert(defs[defs.len() - 1] != key);
        let d = defs.drop_last();
        assert forall|j: int| i < j < d.len() implies d[j] != key by {
            assert(d[j] == defs[j]);
        }
        lemma_last_with_key_is(d, key, i);
    }
}

/// No definition is equal to `key`.
proof fn lemma_last_with_key_none(defs: Seq<KeyModel>, key: KeyModel)
    requires
        forall|j: int| 0 <= j < defs.len() ==> defs[j] != key,
    ensures
        last_with_key(defs, key) is None,
    decreases defs.len(),
{
    if defs.len() > 0 {
        assert(defs[defs.len() - 1] != key);
        let d = defs.drop_last();
        assert forall|j: int| 0 <= j < d.len() implies d[j] != key by {
            assert(d[j] == defs[j]);
        }
        lemma_last_with_key_none(d, key);
    }
}

/// The first definition named `name` is at `i` where nothing before `i` is.
proof fn lemma_first_with_name_is(defs: Seq<KeyModel>, name: Seq<char>, i: int)
    requires
        0 <= i < defs.len(),
        defs[i].name == name,
        forall|j: int| 0 <= j < i ==> defs[j].name != name,
    ensures
        first_with_name(defs, name) == Some(i),
    decreases defs.len(),
{
    if i > 0 {
        assert(defs[0].name != name);
        let d = defs.drop_first();
        assert forall|j: int| 0 <= j < i - 1 implies d[j].name != name by {
            assert(d[j] == defs[j + 1]);
        }
        lemma_first_with_name_is(d, name, i - 1);
    }
}

/// No definition is named `name`.
proof fn lemma_first_with_name_none(defs: Seq<KeyModel>, name: Seq<char>)
    requires
        forall|j: int| 0 <= j < defs.len() ==> defs[j].name != name,
    ensures
        first_with_name(defs, name) is None,
    decreases defs.len(),
{
    if defs.len() > 0 {
        assert(defs[0].name != name);
        let d = defs.drop_first();
        assert forall|j: int| 0 <= j < d.len() implies d[j].name != name by {
            assert(d[j] == defs[j + 1]);
        }
        lemma_first_with_name_none(d, name);
    }
}

/// The position of the last definition equal to `key`, by binary search in
/// definitions sorted by file, line and name.
fn last_with_key_sorted(defs: &Vec<FunctionKey>, key: &FunctionKey) -> (r: Option<usize>)
    requires
        sorted_by_le(key_models(defs@), definition_le()),
    ensures
        match r {
            Some(i) => last_with_key(key_models(defs@), key@) == Some(i as int),
            None => last_with_key(key_models(defs@), key@) is None,
        },
{
    let ghost m = key_models(defs@);
    proof {
        lemma_definition_le_total();
        lemma_definition_order_antisymmetric(key@, key@);
    }
    let mut lo: usize = 0;
    let mut hi: usize = defs.len();
    while lo < hi
        invariant
            m == key_models(defs@),
            sorted_by_le(m, definition_le()),
            is_total_preorder(definition_le()),
            lo <= hi <= defs@.len(),
            forall|q: int| 0 <= q < lo ==> definition_order(#[trigger] m[q], key@) <= 0,
            forall|q: int| hi <= q < m.len() ==> definition_order(#[trigger] m[q], key@) > 0,
        decreases hi - lo,
    {
        let mid = lo + (hi - lo) / 2;
        assert(m[mid as int] == defs@[mid as int]@);
        if defs[mid].ranks_no_later(key) {
            assert forall|q: int| 0 <= q < mid + 1 implies definition_order(#[trigger] m[q], key@) <= 0 by {
                if q < mid {
                    assert(definition_le()(m[q], m[mid as int]));
                    assert(definition_le()(m[mid as int], key@));
                }
            }
            lo = mid + 1;
        } else {
            assert forall|q: int| mid <= q < m.len() implies definition_order(#[trigger] m[q], key@) > 0 by {
                if q > mid {
                    assert(definition_le()(m[mid as int], m[q]));
                    if definition_order(m[q], key@) <= 0 {
                        assert(definition_le()(m[q], key@));
                    }
                }
            }
            hi = mid;
        }
    }
    if lo > 0 && same_key(&defs[lo - 1], key) {
        proof {
            assert(m[lo - 1] == defs@[lo - 1]@);
            assert forall|j: int| lo - 1 < j < m.len() implies m[j] != key@ by {}
            lemma_last_with_key_is(m, key@, lo - 1);
        }
        Some(lo - 1)
    } else {
        proof {
            assert forall|j: int| 0 <= j < m.len() implies m[j] != key@ by {
                if m[j] == key@ {
                    assert(j < lo);
                    assert(m[lo - 1] == defs@[lo - 1]@);
                    assert(definition_le()(m[j], m[lo - 1]));
                    lemma_definition_order_antisymmetric(m[lo - 1], key@);
                }
            }
            lemma_last_with_key_none(m, key@);
        }
        None
    }
}

/// A definition's name with its position among the definitions.
struct NameEntry {
    name: String,
    index: usize,
}

impl View for NameEntry {
    type V = (Seq<char>, int);

    closed spec fn view(&self) -> (Seq<char>, int) {
        (self.name@, self.index as int)
    }
}

/// The order of names with positions: by name, then by position.
spec fn name_entry_order(a: (Seq<char>, int), b: (Seq<char>, int)) -> int {
    if text_order(a.0, b.0) != 0 {
        text_order(a.0, b.0)
    } else {
        number_order(a.1, b.1)
    }
}

spec fn name_le() -> spec_fn((Seq<char>, int), (Seq<char>, int)) -> bool {
    |a: (Seq<char>, int), b: (Seq<char>, int)| name_entry_order(a, b) <= 0
}

/// Each definition's name with its position.
spec fn name_positions(defs: Seq<KeyModel>) -> Seq<(Seq<char>, int)> {
    Seq::new(defs.len(), |j: int| (defs[j].name, j))
}

impl Ranked for NameEntry {
    closed spec fn rank_le(self, other: NameEntry) -> bool {
        name_entry_order(self@, other@) <= 0
    }

    proof fn lemma_rank_total(a: NameEntry, b: NameEntry) {
        lemma_text_order(a.name@, b.name@, b.name@);
    }

    proof fn lemma_rank_transitive(a: NameEntry, b: NameEntry, c: NameEntry) {
        lemma_text_order(a.name@, b.name@, c.name@);
    }

    fn ranks_no_later(&self, other: &NameEntry) -> (r: bool) {
        let o = compare_text(self.name.as_str(), other.name.as_str());
        if o != 0 {
            return o < 0;
        }
        self.index <= other.index
    }
}

proof fn lemma_name_le_total()
    ensures
        is_total_preorder(name_le()),
{
    assert forall|a: (Seq<char>, int), b: (Seq<char>, int)| #[trigger] name_le()(a, b) || name_le()(b, a) by {
        lemma_text_order(a.0, b.0, b.0);
    }
    assert forall|a: (Seq<char>, int), b: (Seq<char>, int), c: (Seq<char>, int)|
        #[trigger] name_le()(a, b) && #[trigger] name_le()(b, c) implies name_le()(a, c) by {
        lemma_text_order(a.0, b.0, c.0);
    }
}

/// The names of the definitions with their positions, sorted by name and
/// then by position.
fn name_index(defs: &Vec<FunctionKey>) -> (r: Vec<NameEntry>)
    ensures
        r@.map_values(|e: NameEntry| e@) == sort_by(name_positions(key_models(defs@)), name_le()),
{
    let ghost pos = name_positions(key_models(defs@));
    let mut entries: Vec<NameEntry> = Vec::new();
    let mut i: usize = 0;
    assert(pos.take(0) =~= Seq::<(Seq<char>, int)>::empty());
    while i < defs.len()
        invariant
            pos == name_positions(key_models(defs@)),
            i <= defs@.len(),
            entries@.map_values(|e: NameEntry| e@) == pos.take(i as int),
        decreases defs.len() - i,
    {
        let ghost old_entries = entries@;
        let e = NameEntry { name: defs[i].name.clone(), index: i };
        assert(e@ == pos[i as int]);
        entries.push(e);
        proof {
            lemma_map_push(old_entries, e, |x: NameEntry| x@);
            assert(pos.take(i + 1) =~= pos.take(i as int).push(pos[i as int]));
        }
        i = i + 1;
    }
    assert(pos.take(i as int) =~= pos);
    let order = rank_order(&entries);
    proof {
        lemma_ranked_order_len(entries@, entries@.len());
        lemma_sorted_items_views(entries@, |e: NameEntry| e@, name_le());
    }
    let ghost all = sorted_items(entries@).map_values(|e: NameEntry| e@);
    let mut sorted: Vec<NameEntry> = Vec::new();
    let mut k: usize = 0;
    while k < order.len()
        invariant
            order@ == ranked_order(entries@, entries@.len()),
            order@.len() == entries@.len(),
            forall|j: int| 0 <= j < order@.len() ==> order@[j] < entries@.len(),
            all == sorted_items(entries@).map_values(|e: NameEntry| e@),
            k <= order@.len(),
            sorted@.map_values(|e: NameEntry| e@) == all.take(k as int),
        decreases order.len() - k,
    {
        let source = &entries[order[k]];
        let e = NameEntry { name: source.name.clone(), index: source.index };
        assert(all[k as int] == e@);
        let ghost old_sorted = sorted@;
        sorted.push(e);
        proof {
            lemma_map_push(old_sorted, e, |x: NameEntry| x@);
            assert(all.take(k + 1) =~= all.take(k as int).push(all[k as int]));
        }
        k = k + 1;
    }
    assert(all.take(k as int) =~= all);
    sorted
}

/// The position of the first definition named `name`, by binary search in
/// the name index of the definitions.
fn first_with_name_sorted(defs: &Vec<FunctionKey>, index: &Vec<NameEntry>, name: &String) -> (r: Option<usize>)
    requires
        index@.map_values(|e: NameEntry| e@) == sort_by(name_positions(key_models(defs@)), name_le()),
    ensures
        match r {
            Some(i) => first_with_name(key_models(defs@), name@) == Some(i as int),
            None => first_with_name(key_models(defs@), name@) is None,
        },
{
    let ghost m = key_models(defs@);
    let ghost pos = name_positions(m);
    let ghost idx = index@.map_values(|e: NameEntry| e@);
    proof {
        lemma_name_le_total();
        lemma_sort_by_sorted(pos, name_le());
        lemma_text_order(name@, name@, name@);
    }
    let mut lo: usize = 0;
    let mut hi: usize = index.len();
    while lo < hi
        invariant
            idx == index@.map_values(|e: NameEntry| e@),
            sorted_by_le(idx, name_le()),
            idx.len() == index@.len(),
            lo <= hi <= index@.len(),
            forall|q: int| 0 <= q < lo ==> text_order(#[trigger] idx[q].0, name@) < 0,
            forall|q: int| hi <= q < idx.len() ==> text_order(#[trigger] idx[q].0, name@) >= 0,
        decreases hi - lo,
    {
        let mid = lo + (hi - lo) / 2;
        assert(idx[mid as int] == index@[mid as int]@);
        if compare_text(index[mid].name.as_str(), name.as_str()) < 0 {
            assert forall|q: int| 0 <= q < mid + 1 implies text_order(#[trigger] idx[q].0, name@) < 0 by {
                if q < mid {
                    assert(name_le()(idx[q], idx[mid as int]));
                    lemma_text_order(idx[q].0, idx[mid as int].0, name@);
                }
            }
            lo = mid + 1;
        } else {
            assert forall|q: int| mid <= q < idx.len() implies text_order(#[trigger] idx[q].0, name@) >= 0 by {
                if q > mid {
                    assert(name_le()(idx[mid as int], idx[q]));
                    lemma_text_order(idx[mid as int].0, idx[q].0, name@);
                }
            }
            hi = mid;
        }
    }
    if lo < index.len() && index[lo].name == *name {
        let i = index[lo].index;
        proof {
            assert(idx[lo as int] == index@[lo as int]@);
            assert(idx.to_multiset().count(idx[lo as int]) > 0);
            assert(pos.contains(idx[lo as int]));
            let j = choose|j: int| 0 <= j < pos.len() && pos[j] == idx[lo as int];
            assert(j == i);
            assert forall|j2: int| 0 <= j2 < i implies m[j2].name != name@ by {
                if m[j2].name == name@ {
                    assert(pos[j2] == (name@, j2));
                    assert(pos.to_multiset().count(pos[j2]) > 0);
                    assert(idx.contains(pos[j2]));
                    let q = choose|q: int| 0 <= q < idx.len() && idx[q] == pos[j2];
                    assert(q != lo);
                    assert(q >= lo);
                    assert(name_le()(idx[lo as int], idx[q]));
                }
            }
            lemma_first_with_name_is(m, name@, i as int);
        }
        Some(i)
    } else {
        proof {
            assert forall|j: int| 0 <= j < m.len() implies m[j].name != name@ by {
                if m[j].name == name@ {
                    assert(pos[j] == (name@, j));
                    assert(pos.to_multiset().count(pos[j]) > 0);
                    assert(idx.contains(pos[j]));
                    let q = choose|q: int| 0 <= q < idx.len() && idx[q] == pos[j];
                    assert(q >= lo);
                    assert(idx[lo as int] == index@[lo as int]@);
                    assert(q != lo);
                    assert(name_le()(idx[lo as int], idx[q]));
                    lemma_text_order(idx[lo as int].0, name@, name@);
                }
            }
            lemma_first_with_name_none(m, name@);
        }
        None
    }
}

/// Resolves the call sites of the parsed files into the call graph: the
/// definitions, sorted by file, line and name, become functions `f0`, `f1`,
/// ...; each call site whose caller and callee are found becomes a call;
/// the calls are sorted by caller, callee, file and line.
pub fn resolve_calls(files: &Vec<ParsedFile>) -> (a: Analysis)
    ensures
        function_models(a.functions@) == analysis_functions(files@),
        call_models(a.calls@) == analysis_calls(files@),
{
    let mut keys: Vec<FunctionKey> = Vec::new();
    let mut f: usize = 0;
    assert(files@.take(0) =~= Seq::<ParsedFile>::empty());
    while f < files.len()
        invariant
            f <= files@.len(),
            key_models(keys@) == definitions_of(files@.take(f as int)),
        decreases files.len() - f,
    {
        let defs = &files[f].definitions;
        let mut d: usize = 0;
        let ghost before = key_models(keys@);
        assert(key_models(defs@).take(0) =~= Seq::<KeyModel>::empty());
        while d < defs.len()
            invariant
                d <= defs@.len(),
                key_models(keys@) == before + key_models(defs@).take(d as int),
            decreases defs.len() - d,
        {
            let ghost old_keys = keys@;
            let k = defs[d].duplicate();
            keys.push(k);
            proof {
                lemma_map_push(old_keys, k, |x: FunctionKey| x@);
                assert(key_models(defs@).take(d + 1) =~= key_models(defs@).take(d as int).push(defs@[d as int]@));
            }
            d = d + 1;
            assert(key_models(keys@) =~= before + key_models(defs@).take(d as int));
        }
        assert(files@.take(f + 1).drop_last() =~= files@.take(f as int));
        assert(key_models(defs@).take(d as int) =~= key_models(defs@));
        f = f + 1;
    }
    assert(files@.take(f as int) =~= files@);
    let order = rank_order(&keys);
    proof {
        lemma_ranked_order_len(keys@, keys@.len());
        lemma_sorted_items_views(keys@, |k: FunctionKey| k@, definition_le());
        assert(key_models(keys@) =~= keys@.map_values(|k: FunctionKey| k@));
    }
    let ghost defs = sorted_definitions(files@);
    let mut sorted: Vec<FunctionKey> = Vec::new();
    let mut functions: Vec<Function> = Vec::new();
    let mut i: usize = 0;
    while i < order.len()
        invariant
            order@ == ranked_order(keys@, keys@.len()),
            order@.len() == keys@.len(),
            forall|j: int| 0 <= j < order@.len() ==> order@[j] < keys@.len(),
            sorted_items(keys@).map_values(|k: FunctionKey| k@) == defs,
            i <= order@.len(),
            key_models(sorted@) == defs.take(i as int),
            function_models(functions@) == functions_of(defs).take(i as int),
        decreases order.len() - i,
    {
        let key = &keys[order[i]];
        assert(defs[i as int] == key@);
        let function = Function {
            id: function_id_text(i),
            name: key.name.clone(),
            file: key.file.clone(),
            line: key.line,
        };
        assert(function@ == functions_of(defs)[i as int]);
        let ghost old_functions = functions@;
        let ghost old_sorted = sorted@;
        functions.push(function);
        let copy = key.duplicate();
        sorted.push(copy);
        proof {
            lemma_map_push(old_functions, function, |x: Function| x@);
            lemma_map_push(old_sorted, copy, |x: FunctionKey| x@);
            assert(defs.take(i + 1) =~= defs.take(i as int).push(defs[i as int]));
            assert(functions_of(defs).take(i + 1) =~= functions_of(defs).take(i as int).push(functions_of(defs)[i as int]));
        }
        i = i + 1;
        assert(key_models(sorted@) =~= defs.take(i as int));
        assert(function_models(functions@) =~= functions_of(defs).take(i as int));
    }
    assert(key_models(sorted@) =~= defs);
    assert(function_models(functions@) =~= functions_of(defs));
    let names = name_index(&sorted);
    proof {
        lemma_definition_le_total();
        lemma_sort_by_sorted(definitions_of(files@), definition_le());
    }
    let mut calls: Vec<Call> = Vec::new();
    let mut f: usize = 0;
    assert(files@.take(0) =~= Seq::<ParsedFile>::empty());
    while f < files.len()
        invariant
            f <= files@.len(),
            key_models(sorted@) == defs,
            sorted_by_le(defs, definition_le()),
            names@.map_values(|e: NameEntry| e@) == sort_by(name_positions(defs), name_le()),
            function_models(functions@) == functions_of(defs),
            call_models(calls@) == resolved(defs, sites_of(files@.take(f as int))),
        decreases files.len() - f,
    {
        let sites = &files[f].call_sites;
        let mut s: usize = 0;
        let ghost before = call_models(calls@);
        assert(site_models(sites@).take(0) =~= Seq::<SiteModel>::empty());
        assert(before + resolved(defs, Seq::<SiteModel>::empty()) =~= before);
        while s < sites.len()
            invariant
                s <= sites@.len(),
                key_models(sorted@) == defs,
                sorted_by_le(defs, definition_le()),
                names@.map_values(|e: NameEntry| e@) == sort_by(name_positions(defs), name_le()),
                function_models(functions@) == functions_of(defs),
                call_models(calls@) == before + resolved(defs, site_models(sites@).take(s as int)),
            decreases sites.len() - s,
        {
            let site = &sites[s];
            let ghost prefix = site_models(sites@).take(s + 1);
            assert(prefix.drop_last() =~= site_models(sites@).take(s as int));
            assert(prefix.last() == site@);
            match (last_with_key_sorted(&sorted, &site.caller), first_with_name_sorted(&sorted, &names, &site.callee_name)) {
                (Some(a), Some(b)) => {
                    proof {
                        assert(a < defs.len()) by {
                            lemma_last_with_key_bound(defs, site.caller@);
                        }
                        assert(b < defs.len()) by {
                            lemma_first_with_name_bound(defs, site.callee_name@);
                        }
                        assert(functions@.len() == function_models(functions@).len());
                        assert(functions_of(defs).len() == defs.len());
                        assert(function_models(functions@)[a as int] == functions_of(defs)[a as int]);
                        assert(function_models(functions@)[b as int] == functions_of(defs)[b as int]);
                    }
                    let call = Call {
                        caller: functions[a].id.clone(),
                        callee: functions[b].id.clone(),
                        file: site.file.clone(),
                        line: site.line,
                        kind: site.kind,
                    };
                    let ghost old_calls = calls@;
                    calls.push(call);
                    proof {
                        lemma_map_push(old_calls, call, |x: Call| x@);
                    }
                },
                _ => {},
            }
            s = s + 1;
            assert(call_models(calls@) =~= before + resolved(defs, site_models(sites@).take(s as int)));
        }
        proof {
            assert(site_models(sites@).take(s as int) =~= site_models(sites@));
            assert(files@.take(f + 1).drop_last() =~= files@.take(f as int));
            lemma_resolved_append(defs, sites_of(files@.take(f as int)), site_models(sites@));
        }
        f = f + 1;
    }
    assert(files@.take(f as int) =~= files@);
    let corder = rank_order(&calls);
    proof {
        lemma_ranked_order_len(calls@, calls@.len());
        lemma_sorted_items_views(calls@, |c: Call| c@, call_le());
        assert(call_models(calls@) =~= calls@.map_values(|c: Call| c@));
    }
    let ghost all_calls = sorted_items(calls@).map_values(|c: Call| c@);
    let mut sorted_calls: Vec<Call> = Vec::new();
    let mut k: usize = 0;
    while k < corder.len()
        invariant
            corder@ == ranked_order(calls@, calls@.len()),
            corder@.len() == calls@.len(),
            forall|j: int| 0 <= j < corder@.len() ==> corder@[j] < calls@.len(),
            all_calls == sorted_items(calls@).map_values(|c: Call| c@),
            k <= corder@.len(),
            call_models(sorted_calls@) == all_calls.take(k as int),
        decreases corder.len() - k,
    {
        let call = calls[corder[k]].duplicate();
        assert(all_calls[k as int] == call@);
        let ghost old_sorted = sorted_calls@;
        sorted_calls.push(call);
        proof {
            lemma_map_push(old_sorted, call, |x: Call| x@);
            assert(all_calls.take(k + 1) =~= all_calls.take(k as int).push(all_calls[k as int]));
        }
        k = k + 1;
        assert(call_models(sorted_calls@) =~= all_calls.take(k as int));
    }
    assert(call_models(sorted_calls@) =~= all_calls);
    Analysis { functions, calls: sorted_calls }
}

/// Mapping a list with one more element appends its image.
pub proof fn lemma_map_push<A, B>(s: Seq<A>, x: A, f: spec_fn(A) -> B)
    ensures
        s.push(x).map_values(f) == s.map_values(f).push(f(x)),
{
    assert(s.push(x).map_values(f) =~= s.map_values(f).push(f(x)));
}

/// A found definition is one of the definitions.
pub proof fn lemma_last_with_key_bound(defs: Seq<KeyModel>, key: KeyModel)
    ensures
        last_with_key(defs, key) matches Some(i) ==> 0 <= i < defs.len() && defs[i] == key,
    decreases defs.len(),
{
    if defs.len() > 0 {
        lemma_last_with_key_bound(defs.drop_last(), key);
    }
}

/// A found definition is one of the definitions, with the name sought.
pub proof fn lemma_first_with_name_bound(defs: Seq<KeyModel>, name: Seq<char>)
    ensures
        first_with_name(defs, name) matches Some(i) ==> 0 <= i < defs.len() && defs[i].name == name,
        first_with_name(defs, name) matches Some(i) ==> forall|j: int| 0 <= j < i ==> #[trigger] defs[j].name != name,
    decreases defs.len(),
{
    if defs.len() > 0 {
        lemma_first_with_name_bound(defs.drop_first(), name);
        if let Some(i) = first_with_name(defs, name) {
            assert forall|j: int| 0 <= j < i implies #[trigger] defs[j].name != name by {
                if j > 0 {
                    assert(defs[j] == defs.drop_first()[j - 1]);
                }
            }
        }
    }
}

/// The call record that a call site becomes between two functions.
pub open spec fn call_from(site: SiteModel, caller: Seq<char>, callee: Seq<char>) -> CallModel {
    CallModel { caller, callee, file: site.file, line: site.line, kind: site.kind }
}

/// The definition that a function record stands for.
pub open spec fn key_of(f: FunctionModel) -> KeyModel {
    KeyModel { file: f.file, line: f.line, name: f.name }
}

/// Definitions are ordered by a total preorder.
pub proof fn lemma_definition_le_total()
    ensures
        is_total_preorder(definition_le()),
{
    assert forall|a: KeyModel, b: KeyModel| #[trigger] definition_le()(a, b) || definition_le()(b, a) by {
        lemma_text_order(a.file, b.file, b.file);
        lemma_text_order(a.name, b.name, b.name);
    }
    assert forall|a: KeyModel, b: KeyModel, c: KeyModel|
        #[trigger] definition_le()(a, b) && #[trigger] definition_le()(b, c) implies definition_le()(a, c) by {
        lemma_text_order(a.file, b.file, c.file);
        lemma_text_order(a.name, b.name, c.name);
    }
}

/// Calls are ordered by a total preorder.
pub proof fn lemma_call_le_total()
    ensures
        is_total_preorder(call_le()),
{
    assert forall|a: CallModel, b: CallModel| #[trigger] call_le()(a, b) || call_le()(b, a) by {
        lemma_text_order(a.caller, b.caller, b.caller);
        lemma_text_order(a.callee, b.callee, b.callee);
        lemma_text_order(a.file, b.file, b.file);
    }
    assert forall|a: CallModel, b: CallModel, c: CallModel|
        #[trigger] call_le()(a, b) && #[trigger] call_le()(b, c) implies call_le()(a, c) by {
        lemma_text_order(a.caller, b.caller, c.caller);
        lemma_text_order(a.callee, b.callee, c.callee);
        lemma_text_order(a.file, b.file, c.file);
    }
}

/// The functions of an analysis are exactly its definitions (as a
/// multiset), listed by file, then line, then name.
pub proof fn law_functions_are_sorted_definitions(files: Seq<ParsedFile>)
    ensures
        analysis_functions(files).map_values(|f: FunctionModel| key_of(f)).to_multiset()
            == definitions_of(files).to_multiset(),
        forall|i: int, j: int|
            0 <= i < j < analysis_functions(files).len() ==> definition_order(
                key_of(#[trigger] analysis_functions(files)[i]),
                key_of(#[trigger] analysis_functions(files)[j]),
            ) <= 0,
{
    lemma_definition_le_total();
    lemma_sort_by_sorted(definitions_of(files), definition_le());
    let defs = sorted_definitions(files);
    assert(analysis_functions(files).map_values(|f: FunctionModel| key_of(f)) =~= defs);
    assert forall|i: int, j: int|
        0 <= i < j < analysis_functions(files).len() implies definition_order(
            key_of(#[trigger] analysis_functions(files)[i]),
            key_of(#[trigger] analysis_functions(files)[j]),
        ) <= 0 by {
        assert(definition_le()(defs[i], defs[j]));
    }
}

/// Functions are numbered in order, `f0`, `f1`, ..., and no two share an id.
pub proof fn law_function_ids(files: Seq<ParsedFile>)
    ensures
        forall|i: int| 0 <= i < analysis_functions(files).len() ==> #[trigger] analysis_functions(files)[i].id == function_id(i),
        forall|i: int, j: int|
            0 <= i < j < analysis_functions(files).len() ==> #[trigger] analysis_functions(files)[i].id
                != #[trigger] analysis_functions(files)[j].id,
{
    assert forall|i: int, j: int|
        0 <= i < j < analysis_functions(files).len() implies #[trigger] analysis_functions(files)[i].id
            != #[trigger] analysis_functions(files)[j].id by {
        lemma_function_id_injective(i, j);
    }
}

/// Distinct positions have distinct ids.
pub proof fn lemma_function_id_injective(i: int, j: int)
    requires
        0 <= i,
        0 <= j,
    ensures
        function_id(i) == function_id(j) ==> i == j,
{
    if function_id(i) == function_id(j) {
        assert(function_id(i).drop_first() =~= decimal(i as nat));
        assert(function_id(j).drop_first() =~= decimal(j as nat));
        lemma_decimal_injective(i as nat, j as nat);
    }
}

/// Every resolved call comes from a call site, and names two of the
/// functions.
pub proof fn lemma_resolved_from_sites(defs: Seq<KeyModel>, sites: Seq<SiteModel>)
    ensures
        resolved(defs, sites).len() <= sites.len(),
        forall|k: int|
            0 <= k < resolved(defs, sites).len() ==> exists|s: int, a: int, b: int|
                0 <= s < sites.len() && 0 <= a < defs.len() && 0 <= b < defs.len() && #[trigger] resolved(defs, sites)[k]
                    == call_from(sites[s], function_id(a), function_id(b)),
    decreases sites.len(),
{
    if sites.len() > 0 {
        let d = sites.drop_last();
        lemma_resolved_from_sites(defs, d);
        let r = resolved(defs, d);
        let out = resolved(defs, sites);
        assert forall|k: int| 0 <= k < out.len() implies exists|s: int, a: int, b: int|
            0 <= s < sites.len() && 0 <= a < defs.len() && 0 <= b < defs.len() && #[trigger] out[k] == call_from(sites[s], function_id(a), function_id(b)) by {
            if k < r.len() {
                assert(out[k] == r[k]);
                let (s, a, b) = choose|s: int, a: int, b: int|
                    0 <= s < d.len() && 0 <= a < defs.len() && 0 <= b < defs.len() && #[trigger] r[k] == call_from(d[s], function_id(a), function_id(b));
                assert(sites[s] == d[s]);
            } else {
                let site = sites.last();
                lemma_last_with_key_bound(defs, site.caller);
                lemma_first_with_name_bound(defs, site.callee_name);
                let a = last_with_key(defs, site.caller)->0;
                let b = first_with_name(defs, site.callee_name)->0;
                assert(out[k] == call_from(sites[sites.len() - 1], function_id(a), function_id(b)));
            }
        }
    }
}

/// The calls of an analysis are sorted by caller, callee, file and line;
/// there are no more of them than call sites; each comes from a call site
/// (its file, line and kind) and runs between two functions of the
/// analysis.
pub proof fn law_calls_link_functions(files: Seq<ParsedFile>)
    ensures
        sorted_by_le(analysis_calls(files), call_le()),
        analysis_calls(files).len() <= sites_of(files).len(),
        forall|k: int|
            0 <= k < analysis_calls(files).len() ==> exists|s: int, a: int, b: int|
                0 <= s < sites_of(files).len() && 0 <= a < analysis_functions(files).len() && 0 <= b
                    < analysis_functions(files).len() && #[trigger] analysis_calls(files)[k] == call_from(sites_of(files)[s], analysis_functions(files)[a].id, analysis_functions(files)[b].id),
{
    lemma_call_le_total();
    let defs = sorted_definitions(files);
    let sites = sites_of(files);
    let unsorted = resolved(defs, sites);
    lemma_sort_by_sorted(unsorted, call_le());
    lemma_resolved_from_sites(defs, sites);
    lemma_definition_le_total();
    lemma_sort_by_sorted(definitions_of(files), definition_le());
    let calls = analysis_calls(files);
    assert forall|k: int| 0 <= k < calls.len() implies exists|s: int, a: int, b: int|
        0 <= s < sites.len() && 0 <= a < analysis_functions(files).len() && 0 <= b < analysis_functions(files).len()
            && #[trigger] calls[k] == call_from(sites[s], analysis_functions(files)[a].id, analysis_functions(files)[b].id) by {
        assert(calls.to_multiset().count(calls[k]) > 0);
        assert(unsorted.contains(calls[k]));
        let u = choose|u: int| 0 <= u < unsorted.len() && unsorted[u] == calls[k];
        let (s, a, b) = choose|s: int, a: int, b: int|
            0 <= s < sites.len() && 0 <= a < defs.len() && 0 <= b < defs.len() && #[trigger] unsorted[u] == call_from(sites[s], function_id(a), function_id(b));
        assert(analysis_functions(files)[a].id == function_id(a));
        assert(analysis_functions(files)[b].id == function_id(b));
    }
}

/// Call `c` is how `site` resolves against the sorted definitions: its
/// caller is definition `a`, the site's own function, and its callee is
/// definition `b`, the first with the called name.
pub open spec fn resolves_at(defs: Seq<KeyModel>, site: SiteModel, c: CallModel, a: int, b: int) -> bool {
    &&& 0 <= a < defs.len()
    &&& 0 <= b < defs.len()
    &&& defs[a] == site.caller
    &&& defs[b].name == site.callee_name
    &&& forall|i: int| 0 <= i < b ==> #[trigger] defs[i].name != site.callee_name
    &&& c == call_from(site, function_id(a), function_id(b))
}

/// Call `c` is how one of `sites` resolves against `defs`.
pub open spec fn resolved_from(defs: Seq<KeyModel>, sites: Seq<SiteModel>, c: CallModel) -> bool {
    exists|s: int, a: int, b: int| 0 <= s < sites.len() && #[trigger] resolves_at(defs, sites[s], c, a, b)
}

proof fn lemma_resolved_exact(defs: Seq<KeyModel>, sites: Seq<SiteModel>)
    ensures
        forall|k: int|
            0 <= k < resolved(defs, sites).len() ==> #[trigger] resolved_from(defs, sites, resolved(defs, sites)[k]),
    decreases sites.len(),
{
    if sites.len() > 0 {
        let d = sites.drop_last();
        lemma_resolved_exact(defs, d);
        let r = resolved(defs, d);
        let out = resolved(defs, sites);
        assert forall|k: int| 0 <= k < resolved(defs, sites).len() implies #[trigger] resolved_from(defs, sites, resolved(defs, sites)[k]) by {
            if k < r.len() {
                assert(out[k] == r[k]);
                assert(resolved_from(defs, d, r[k]));
                let (s, a, b) = choose|s: int, a: int, b: int| 0 <= s < d.len() && #[trigger] resolves_at(defs, d[s], r[k], a, b);
                assert(sites[s] == d[s]);
                assert(resolves_at(defs, sites[s], out[k], a, b));
            } else {
                let site = sites.last();
                lemma_last_with_key_bound(defs, site.caller);
                lemma_first_with_name_bound(defs, site.callee_name);
                let a = last_with_key(defs, site.caller)->0;
                let b = first_with_name(defs, site.callee_name)->0;
                assert(site == sites[sites.len() - 1]);
                assert(resolves_at(defs, sites[sites.len() - 1], out[k], a, b));
            }
        }
    } else {
        assert(resolved(defs, sites) =~= Seq::<CallModel>::empty());
    }
}

/// Each call of an analysis is how one of the call sites resolves: its
/// caller is the function of the site's own definition, its callee the
/// first function (in the analysis's order) with the called name.
pub proof fn law_call_resolution(files: Seq<ParsedFile>)
    ensures
        forall|k: int|
            0 <= k < analysis_calls(files).len() ==> #[trigger] resolved_from(
                sorted_definitions(files),
                sites_of(files),
                analysis_calls(files)[k],
            ),
{
    lemma_call_le_total();
    let defs = sorted_definitions(files);
    let sites = sites_of(files);
    let unsorted = resolved(defs, sites);
    lemma_sort_by_sorted(unsorted, call_le());
    lemma_resolved_exact(defs, sites);
    let calls = analysis_calls(files);
    assert forall|k: int| 0 <= k < calls.len() implies #[trigger] resolved_from(defs, sites, calls[k]) by {
        assert(calls.to_multiset().count(calls[k]) > 0);
        assert(unsorted.contains(calls[k]));
        let u = choose|u: int| 0 <= u < unsorted.len() && unsorted[u] == calls[k];
        assert(resolved_from(defs, sites, unsorted[u]));
        let (s, a, b) = choose|s: int, a: int, b: int| 0 <= s < sites.len() && #[trigger] resolves_at(defs, sites[s], unsorted[u], a, b);
        assert(resolves_at(defs, sites[s], calls[k], a, b));
    }
}

/// Function `j` is the first of the functions with its name.
pub open spec fn first_of_its_name(fs: Seq<FunctionModel>, j: int) -> bool {
    forall|i: int| 0 <= i < j ==> #[trigger] fs[i].name != fs[j].name
}

/// The callee of call `c` is a function that is the first with its name.
pub open spec fn callee_first(fs: Seq<FunctionModel>, c: CallModel) -> bool {
    exists|j: int| 0 <= j < fs.len() && #[trigger] fs[j].id == c.callee && first_of_its_name(fs, j)
}

/// A call's callee is the first function with its name: no function before
/// it in the analysis has the same name.
pub proof fn law_callee_is_first_of_name(files: Seq<ParsedFile>)
    ensures
        forall|k: int|
            0 <= k < analysis_calls(files).len() ==> #[trigger] callee_first(
                analysis_functions(files),
                analysis_calls(files)[k],
            ),
{
    law_call_resolution(files);
    let defs = sorted_definitions(files);
    let sites = sites_of(files);
    let fs = analysis_functions(files);
    let calls = analysis_calls(files);
    assert forall|k: int| 0 <= k < calls.len() implies #[trigger] callee_first(fs, calls[k]) by {
        assert(resolved_from(defs, sites, calls[k]));
        let (s, a, b) = choose|s: int, a: int, b: int| 0 <= s < sites.len() && #[trigger] resolves_at(defs, sites[s], calls[k], a, b);
        assert(fs[b].id == function_id(b));
        assert forall|i: int| 0 <= i < b implies #[trigger] fs[i].name != fs[b].name by {
            assert(defs[i].name != sites[s].callee_name);
        }
        assert(first_of_its_name(fs, b));
    }
}

/// A parsed file whose definitions and call sites all lie in `name`, on
/// lines from one on, and whose call sites each stand in a function of that
/// file starting on the call's line or before (as the symbol search leaves a
/// parser's tree).
pub open spec fn well_placed(p: ParsedFile, name: Seq<char>) -> bool {
    &&& forall|k: int|
        0 <= k < key_models(p.definitions@).len() ==> (#[trigger] key_models(p.definitions@)[k]).file == name
            && key_models(p.definitions@)[k].line >= 1
    &&& forall|k: int|
        0 <= k < site_models(p.call_sites@).len() ==> {
            let s = #[trigger] site_models(p.call_sites@)[k];
            &&& s.file == name
            &&& s.caller.file == name
            &&& s.caller.line <= s.line
        }
}

/// Definition `d` is one of a parsed file's.
pub open spec fn defined_in(files: Seq<ParsedFile>, d: KeyModel) -> bool {
    exists|f: int| 0 <= f < files.len() && #[trigger] key_models(files[f].definitions@).contains(d)
}

/// Call site `s` is one of a parsed file's.
pub open spec fn sited_in(files: Seq<ParsedFile>, s: SiteModel) -> bool {
    exists|f: int| 0 <= f < files.len() && #[trigger] site_models(files[f].call_sites@).contains(s)
}

proof fn lemma_definitions_from(files: Seq<ParsedFile>)
    ensures
        forall|x: int| 0 <= x < definitions_of(files).len() ==> #[trigger] defined_in(files, definitions_of(files)[x]),
        forall|x: int| 0 <= x < sites_of(files).len() ==> #[trigger] sited_in(files, sites_of(files)[x]),
    decreases files.len(),
{
    if files.len() > 0 {
        let d = files.drop_last();
        lemma_definitions_from(d);
        let last = (files.len() - 1) as int;
        assert(files[last] == files.last());
        assert forall|x: int| 0 <= x < definitions_of(files).len() implies #[trigger] defined_in(files, definitions_of(files)[x]) by {
            let pre = definitions_of(d);
            if x < pre.len() {
                assert(definitions_of(files)[x] == pre[x]);
                assert(defined_in(d, pre[x]));
                let f = choose|f: int| 0 <= f < d.len() && #[trigger] key_models(d[f].definitions@).contains(pre[x]);
                assert(files[f] == d[f]);
            } else {
                let ks = key_models(files.last().definitions@);
                assert(definitions_of(files)[x] == ks[x - pre.len()]);
                assert(key_models(files[last].definitions@).contains(definitions_of(files)[x]));
            }
        }
        assert forall|x: int| 0 <= x < sites_of(files).len() implies #[trigger] sited_in(files, sites_of(files)[x]) by {
            let pre = sites_of(d);
            if x < pre.len() {
                assert(sites_of(files)[x] == pre[x]);
                assert(sited_in(d, pre[x]));
                let f = choose|f: int| 0 <= f < d.len() && #[trigger] site_models(d[f].call_sites@).contains(pre[x]);
                assert(files[f] == d[f]);
            } else {
                let ss = site_models(files.last().call_sites@);
                assert(sites_of(files)[x] == ss[x - pre.len()]);
                assert(site_models(files[last].call_sites@).contains(sites_of(files)[x]));
            }
        }
    } else {
        assert(definitions_of(files) =~= Seq::<KeyModel>::empty());
        assert(sites_of(files) =~= Seq::<SiteModel>::empty());
    }
}

/// The caller of call `c` is a function of the call's file starting on the
/// call's line or before.
pub open spec fn caller_in_file(fs: Seq<FunctionModel>, c: CallModel) -> bool {
    exists|i: int| 0 <= i < fs.len() && #[trigger] fs[i].id == c.caller && fs[i].file == c.file && fs[i].line <= c.line
}

/// Where each parsed file is well placed in its own name, every function
/// and every call of the analysis lies in one of those names, every
/// function's line is from one on, and each call's caller is a function of
/// the call's own file starting on the call's line or before.
pub proof fn law_analysis_placed(files: Seq<ParsedFile>, names: Seq<Seq<char>>)
    requires
        names.len() == files.len(),
        forall|f: int| 0 <= f < files.len() ==> well_placed(#[trigger] files[f], names[f]),
    ensures
        forall|i: int|
            0 <= i < analysis_functions(files).len() ==> names.contains(#[trigger] analysis_functions(files)[i].file)
                && analysis_functions(files)[i].line >= 1,
        forall|k: int|
            0 <= k < analysis_calls(files).len() ==> names.contains(#[trigger] analysis_calls(files)[k].file),
        forall|k: int|
            0 <= k < analysis_calls(files).len() ==> #[trigger] caller_in_file(
                analysis_functions(files),
                analysis_calls(files)[k],
            ),
{
    let defs = sorted_definitions(files);
    let fs = analysis_functions(files);
    let calls = analysis_calls(files);
    let sites = sites_of(files);
    lemma_definitions_from(files);
    lemma_definition_le_total();
    lemma_sort_by_sorted(definitions_of(files), definition_le());
    assert forall|x: int| 0 <= x < defs.len() implies names.contains(#[trigger] defs[x].file) && defs[x].line >= 1 by {
        assert(defs.to_multiset().count(defs[x]) > 0);
        assert(definitions_of(files).contains(defs[x]));
        let y = choose|y: int| 0 <= y < definitions_of(files).len() && definitions_of(files)[y] == defs[x];
        assert(defined_in(files, definitions_of(files)[y]));
        let f = choose|f: int| 0 <= f < files.len() && #[trigger] key_models(files[f].definitions@).contains(definitions_of(files)[y]);
        let ks = key_models(files[f].definitions@);
        let z = choose|z: int| 0 <= z < ks.len() && ks[z] == defs[x];
        assert(well_placed(files[f], names[f]));
        assert(ks[z].file == names[f]);
        assert(names[f] == defs[x].file);
        assert(names.contains(defs[x].file));
    }
    assert forall|i: int| 0 <= i < fs.len() implies names.contains(#[trigger] fs[i].file) && fs[i].line >= 1 by {
        assert(fs[i].file == defs[i].file);
    }
    law_call_resolution(files);
    assert forall|k: int| 0 <= k < calls.len() implies names.contains(#[trigger] calls[k].file) && caller_in_file(fs, calls[k]) by {
        assert(resolved_from(defs, sites, calls[k]));
        let (s, a, b) = choose|s: int, a: int, b: int| 0 <= s < sites.len() && #[trigger] resolves_at(defs, sites[s], calls[k], a, b);
        assert(sited_in(files, sites_of(files)[s]));
        let f = choose|f: int| 0 <= f < files.len() && #[trigger] site_models(files[f].call_sites@).contains(sites[s]);
        let ss = site_models(files[f].call_sites@);
        let z = choose|z: int| 0 <= z < ss.len() && ss[z] == sites[s];
        assert(well_placed(files[f], names[f]));
        assert(ss[z].file == names[f]);
        assert(names[f] == calls[k].file);
        assert(names.contains(calls[k].file));
        assert(fs[a].id == function_id(a));
        assert(fs[a].file == defs[a].file);
        assert(fs[a].line == defs[a].line);
        assert(ss[z].caller.line <= ss[z].line);
        assert(fs[a].id == calls[k].caller && fs[a].file == calls[k].file && fs[a].line <= calls[k].line);
        assert(caller_in_file(fs, calls[k]));
    }
    assert forall|k: int| 0 <= k < calls.len() implies #[trigger] caller_in_file(fs, calls[k]) by {
        assert(names.contains(calls[k].file));
    }
}

/// An analysis of no parsed files, or of files with no definitions, has no
/// functions and no calls.
pub proof fn law_empty_analysis(files: Seq<ParsedFile>)
    ensures
        (forall|f: int| 0 <= f < files.len() ==> #[trigger] files[f].definitions@.len() == 0) ==> analysis_functions(
            files,
        ).len() == 0 && analysis_calls(files).len() == 0,
{
    if forall|f: int| 0 <= f < files.len() ==> #[trigger] files[f].definitions@.len() == 0 {
        lemma_definitions_from(files);
        lemma_definition_le_total();
        lemma_sort_by_sorted(definitions_of(files), definition_le());
        if definitions_of(files).len() > 0 {
            assert(defined_in(files, definitions_of(files)[0]));
            let f = choose|f: int| 0 <= f < files.len() && #[trigger] key_models(files[f].definitions@).contains(definitions_of(files)[0]);
            assert(files[f].definitions@.len() == 0);
        }
        law_call_resolution(files);
        if analysis_calls(files).len() > 0 {
            assert(resolved_from(sorted_definitions(files), sites_of(files), analysis_calls(files)[0]));
            let (s, a, b) = choose|s: int, a: int, b: int|
                0 <= s < sites_of(files).len() && #[trigger] resolves_at(sorted_definitions(files), sites_of(files)[s], analysis_calls(files)[0], a, b);
        }
    }
}

/// A file read by the symbol search from a tree whose nodes start on rows
/// in walk order (as a parser's do) is well placed in its own name.
pub proof fn law_parsed_file_placed(
    p: ParsedFile,
    t: SyntaxTree,
    src: Seq<u8>,
    language: Language,
    file: Seq<char>,
    include_tests: bool,
)
    requires
        rows_in_preorder(t),
        key_models(p.definitions@) == file_symbols(t, src, language, file, include_tests).0,
        site_models(p.call_sites@) == file_symbols(t, src, language, file, include_tests).1,
    ensures
        well_placed(p, file),
{
    law_file_symbols(t, src, language, file, include_tests);
    law_file_symbol_lines(t, src, language, file, include_tests);
    let ds = key_models(p.definitions@);
    let ss = site_models(p.call_sites@);
    assert forall|k: int| 0 <= k < ss.len() implies (#[trigger] ss[k]).caller.file == file by {
        assert(ds.contains(ss[k].caller));
        let m = choose|m: int| 0 <= m < ds.len() && ds[m] == ss[k].caller;
    }
}

/// Where every definition of `smaller` is a definition of `larger`, every
/// function of the analysis of `smaller` (its file, line and name) is a
/// function of the analysis of `larger`.
pub proof fn law_analysis_within(smaller: Seq<ParsedFile>, larger: Seq<ParsedFile>)
    requires
        forall|x: int| 0 <= x < definitions_of(smaller).len() ==> definitions_of(larger).contains(
            #[trigger] definitions_of(smaller)[x],
        ),
    ensures
        forall|i: int|
            0 <= i < analysis_functions(smaller).len() ==> analysis_functions(larger).map_values(
                |f: FunctionModel| key_of(f),
            ).contains(key_of(#[trigger] analysis_functions(smaller)[i])),
{
    lemma_definition_le_total();
    lemma_sort_by_sorted(definitions_of(smaller), definition_le());
    lemma_sort_by_sorted(definitions_of(larger), definition_le());
    let d1 = sorted_definitions(smaller);
    let d2 = sorted_definitions(larger);
    let f1 = analysis_functions(smaller);
    let f2 = analysis_functions(larger);
    assert(f2.map_values(|f: FunctionModel| key_of(f)) =~= d2);
    assert forall|i: int| 0 <= i < f1.len() implies f2.map_values(|f: FunctionModel| key_of(f)).contains(
        key_of(#[trigger] f1[i]),
    ) by {
        assert(key_of(f1[i]) == d1[i]);
        assert(d1.to_multiset().count(d1[i]) > 0);
        assert(definitions_of(smaller).contains(d1[i]));
        let x = choose|x: int| 0 <= x < definitions_of(smaller).len() && definitions_of(smaller)[x] == d1[i];
        assert(definitions_of(larger).contains(definitions_of(smaller)[x]));
        assert(definitions_of(larger).to_multiset().count(d1[i]) > 0);
        assert(d2.contains(d1[i]));
    }
}

/// Call site `s` can be resolved against `defs`: some definition is its
/// function and some definition has the name it calls.
pub open spec fn resolvable(defs: Seq<KeyModel>, s: SiteModel) -> bool {
    &&& exists|a: int| 0 <= a < defs.len() && #[trigger] defs[a] == s.caller
    &&& exists|b: int| 0 <= b < defs.len() && #[trigger] defs[b].name == s.callee_name
}

/// The number of call sites that can be resolved.
pub open spec fn resolvable_count(defs: Seq<KeyModel>, sites: Seq<SiteModel>) -> nat
    decreases sites.len(),
{
    if sites.len() == 0 {
        0
    } else {
        resolvable_count(defs, sites.drop_last()) + if resolvable(defs, sites.last()) {
            1nat
        } else {
            0nat
        }
    }
}

/// The call that site `s` becomes: from the last definition equal to its
/// function to the first definition with the name it calls, at the
/// site's file, line and kind.
pub open spec fn site_call(defs: Seq<KeyModel>, s: SiteModel, a: int, b: int) -> bool {
    &&& 0 <= a < defs.len()
    &&& defs[a] == s.caller
    &&& forall|j: int| a < j < defs.len() ==> #[trigger] defs[j] != s.caller
    &&& 0 <= b < defs.len()
    &&& defs[b].name == s.callee_name
    &&& forall|j: int| 0 <= j < b ==> #[trigger] defs[j].name != s.callee_name
}

proof fn lemma_last_with_key_exact(defs: Seq<KeyModel>, key: KeyModel)
    ensures
        last_with_key(defs, key) is None <==> forall|j: int| 0 <= j < defs.len() ==> #[trigger] defs[j] != key,
        last_with_key(defs, key) matches Some(a) ==> forall|j: int| a < j < defs.len() ==> #[trigger] defs[j] != key,
    decreases defs.len(),
{
    lemma_last_with_key_bound(defs, key);
    if defs.len() > 0 {
        let d = defs.drop_last();
        lemma_last_with_key_exact(d, key);
        let n = defs.len() - 1;
        assert(defs[n] == defs.last());
        if defs.last() == key {
            assert(defs[n] == key);
        } else {
            assert(last_with_key(defs, key) == last_with_key(d, key));
            if forall|j: int| 0 <= j < d.len() ==> #[trigger] d[j] != key {
                assert forall|j: int| 0 <= j < defs.len() implies #[trigger] defs[j] != key by {
                    if j < n {
                        assert(d[j] == defs[j]);
                    }
                }
            } else {
                let j = choose|j: int| 0 <= j < d.len() && d[j] == key;
                assert(defs[j] == d[j]);
            }
            if let Some(a) = last_with_key(d, key) {
                assert forall|j: int| a < j < defs.len() implies #[trigger] defs[j] != key by {
                    if j < n {
                        assert(d[j] == defs[j]);
                    }
                }
            }
        }
    }
}

proof fn lemma_first_with_name_exact(defs: Seq<KeyModel>, name: Seq<char>)
    ensures
        first_with_name(defs, name) is None <==> forall|j: int| 0 <= j < defs.len() ==> #[trigger] defs[j].name != name,
    decreases defs.len(),
{
    lemma_first_with_name_bound(defs, name);
    if defs.len() > 0 {
        let d = defs.drop_first();
        lemma_first_with_name_exact(d, name);
        if defs[0].name == name {
        } else {
            if forall|j: int| 0 <= j < d.len() ==> #[trigger] d[j].name != name {
                assert forall|j: int| 0 <= j < defs.len() implies #[trigger] defs[j].name != name by {
                    if j > 0 {
                        assert(d[j - 1] == defs[j]);
                    }
                }
            } else {
                let j = choose|j: int| 0 <= j < d.len() && d[j].name == name;
                assert(defs[j + 1] == d[j]);
            }
        }
    }
}

proof fn lemma_resolved_complete(defs: Seq<KeyModel>, sites: Seq<SiteModel>)
    ensures
        resolved(defs, sites).len() == resolvable_count(defs, sites),
        forall|x: int, a: int, b: int|
            0 <= x < sites.len() && resolvable(defs, sites[x]) && #[trigger] site_call(defs, sites[x], a, b)
                ==> resolved(defs, sites).contains(call_from(sites[x], function_id(a), function_id(b))),
    decreases sites.len(),
{
    if sites.len() > 0 {
        let d = sites.drop_last();
        let s = sites.last();
        lemma_resolved_complete(defs, d);
        lemma_last_with_key_exact(defs, s.caller);
        lemma_first_with_name_exact(defs, s.callee_name);
        lemma_last_with_key_bound(defs, s.caller);
        lemma_first_with_name_bound(defs, s.callee_name);
        let r = resolved(defs, d);
        let out = resolved(defs, sites);
        if resolvable(defs, s) {
            let a0 = choose|a: int| 0 <= a < defs.len() && #[trigger] defs[a] == s.caller;
            let b0 = choose|b: int| 0 <= b < defs.len() && #[trigger] defs[b].name == s.callee_name;
            assert(last_with_key(defs, s.caller) is Some);
            assert(first_with_name(defs, s.callee_name) is Some);
        } else {
            if last_with_key(defs, s.caller) is Some {
                let a = last_with_key(defs, s.caller)->0;
                if first_with_name(defs, s.callee_name) is Some {
                    let b = first_with_name(defs, s.callee_name)->0;
                    assert(defs[a] == s.caller);
                    assert(defs[b].name == s.callee_name);
                }
            }
        }
        assert forall|x: int, a: int, b: int|
            0 <= x < sites.len() && resolvable(defs, sites[x]) && #[trigger] site_call(defs, sites[x], a, b) implies out.contains(
            call_from(sites[x], function_id(a), function_id(b)),
        ) by {
            if x < d.len() {
                assert(sites[x] == d[x]);
                assert(site_call(defs, d[x], a, b));
                assert(r.contains(call_from(d[x], function_id(a), function_id(b))));
                let m = choose|m: int| 0 <= m < r.len() && r[m] == call_from(d[x], function_id(a), function_id(b));
                assert(out[m] == r[m]);
            } else {
                assert(sites[x] == s);
                let la = last_with_key(defs, s.caller)->0;
                let fb = first_with_name(defs, s.callee_name)->0;
                if la != a {
                    if la < a {
                        assert(defs[a] == s.caller);
                    } else {
                        assert(defs[la] == s.caller);
                    }
                }
                if fb != b {
                    if fb < b {
                        assert(defs[fb].name == s.callee_name);
                    } else {
                        assert(defs[b].name == s.callee_name);
                    }
                }
                assert(out[r.len() as int] == call_from(s, function_id(a), function_id(b)));
            }
        }
    }
}

/// Every call site whose function and whose called name are both among the
/// definitions becomes a call, whatever its kind: the analysis holds the
/// call from the site's function (the last definition equal to it) to the
/// first function with the called name, at the site's file, line and kind;
/// and there are exactly as many calls as such sites.
pub proof fn law_calls_complete(files: Seq<ParsedFile>)
    ensures
        analysis_calls(files).len() == resolvable_count(sorted_definitions(files), sites_of(files)),
        forall|x: int, a: int, b: int|
            0 <= x < sites_of(files).len() && resolvable(sorted_definitions(files), sites_of(files)[x])
                && #[trigger] site_call(sorted_definitions(files), sites_of(files)[x], a, b)
                ==> analysis_calls(files).contains(
                CallModel {
                    caller: function_id(a),
                    callee: function_id(b),
                    file: sites_of(files)[x].file,
                    line: sites_of(files)[x].line,
                    kind: sites_of(files)[x].kind,
                },
            ),
{
    broadcast use vstd::seq_lib::group_to_multiset_ensures;

    let defs = sorted_definitions(files);
    let sites = sites_of(files);
    let unsorted = resolved(defs, sites);
    lemma_call_le_total();
    lemma_sort_by_sorted(unsorted, call_le());
    lemma_resolved_complete(defs, sites);
    let calls = analysis_calls(files);
    assert forall|x: int, a: int, b: int|
        0 <= x < sites.len() && resolvable(defs, sites[x]) && #[trigger] site_call(defs, sites[x], a, b) implies calls.contains(
        CallModel {
            caller: function_id(a),
            callee: function_id(b),
            file: sites[x].file,
            line: sites[x].line,
            kind: sites[x].kind,
        },
    ) by {
        let c = call_from(sites[x], function_id(a), function_id(b));
        assert(unsorted.contains(c));
        assert(unsorted.to_multiset().count(c) > 0);
        assert(calls.to_multiset().count(c) > 0);
    }
}

} // verus!
