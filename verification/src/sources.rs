//! Which files of a directory walk an analysis reads, and how each is read
//! into definitions and call sites.

use vstd::prelude::*;

use crate::analysis_options::AnalysisOptions;
use crate::analyzer::lemma_map_push;
use crate::language::{language_of_extension, path_extension, Language};
use crate::order::{
    compare_text, is_total_preorder, lemma_ranked_order_len, lemma_sort_by_sorted,
    lemma_sorted_items_views, lemma_text_order, rank_order, ranked_order, sort_by, sorted_by_le,
    sorted_items, text_order, Ranked,
};
use crate::symbols::{collect_file_symbols, file_symbols, key_models, site_models, ParsedFile};
use crate::syntax::{ends_follow_depths, parse_outcome, parse_syntax, SyntaxError, SyntaxTree};
use crate::text::{chars_of, push_char};

verus! {

/// One entry of a directory walk.
#[derive(Debug, Clone, PartialEq, Eq)]
pub struct SourceEntry {
    /// The entry's path, as text.
    pub path: String,
    /// The path relative to the analysed root, with `/` separators; `None`
    /// where the path is not valid UTF-8.
    pub display_path: Option<String>,
    /// Whether the entry is a regular file.
    pub is_file: bool,
}

/// A source file chosen for analysis.
#[derive(Debug, Clone, PartialEq, Eq)]
pub struct SourceFile {
    /// The index of its entry in the walk.
    pub entry: usize,
    pub display_path: String,
    pub language: Language,
}

/// What a chosen source file says.
pub struct SourceModel {
    pub entry: int,
    pub display_path: Seq<char>,
    pub language: Language,
}

impl View for SourceFile {
    type V = SourceModel;

    open spec fn view(&self) -> SourceModel {
        SourceModel { entry: self.entry as int, display_path: self.display_path@, language: self.language }
    }
}

/// Why an analysis failed.
#[derive(Debug, Clone, PartialEq, Eq)]
pub enum AnalyzeError {
    /// The path of a source file of entry `entry` is not valid UTF-8.
    NonUtf8Path { entry: usize },
    /// The source file of entry `entry` could not be parsed.
    Syntax { entry: usize, language: Language, error: SyntaxError },
}

/// A path with every `\` turned into `/`.
pub open spec fn forward_slashes(s: Seq<char>) -> Seq<char> {
    Seq::new(s.len(), |i: int| if s[i] == '\\' { '/' } else { s[i] })
}

/// `c` is one of the `/`-separated components of `s`.
pub open spec fn has_component(s: Seq<char>, c: Seq<char>) -> bool {
    exists|i: int|
        0 <= i && i + c.len() <= s.len() && (i == 0 || s[i - 1] == '/') && (i + c.len() == s.len()
            || s[i + c.len()] == '/') && #[trigger] s.subrange(i, i + c.len()) == c
}

/// `s` ends with `suffix`.
pub open spec fn ends_with(s: Seq<char>, suffix: Seq<char>) -> bool {
    suffix.len() <= s.len() && s.subrange(s.len() - suffix.len(), s.len() as int) == suffix
}

/// The file is a test file: under a `tests` directory, or named like a
/// test of its language.
pub open spec fn is_test_path(path: Seq<char>, language: Language) -> bool {
    has_component(path, "tests"@) || match language {
        Language::Go => ends_with(path, "_test.go"@),
        Language::Rust => ends_with(path, "_test.rs"@) || ends_with(path, "_tests.rs"@) || ends_with(
            path,
            "/test.rs"@,
        ) || ends_with(path, "/tests.rs"@),
    }
}

/// The walk entry is passed over: tests are excluded and its path goes
/// through `.git`, `target` or `tests`.
pub open spec fn skips_entry(display_path: Option<Seq<char>>, include_tests: bool) -> bool {
    !include_tests && match display_path {
        Some(d) => has_component(d, ".git"@) || has_component(d, "target"@) || has_component(d, "tests"@),
        None => false,
    }
}

/// What becomes of walk entry `index`: chosen, passed over, or an error.
pub open spec fn entry_choice(
    e: SourceEntry,
    index: int,
    single: bool,
    requested: Option<Language>,
    include_tests: bool,
) -> Result<Option<SourceModel>, int> {
    let display = match e.display_path {
        Some(d) => Some(d@),
        None => None,
    };
    if !single && skips_entry(display, include_tests) {
        Ok(None)
    } else if !e.is_file {
        Ok(None)
    } else {
        match language_of_extension(path_extension(e.path@)) {
            None => Ok(None),
            Some(language) => if requested matches Some(r) && r != language {
                Ok(None)
            } else {
                match display {
                    None => Err(index),
                    Some(d) => if !include_tests && is_test_path(d, language) {
                        Ok(None)
                    } else {
                        Ok(Some(SourceModel { entry: index, display_path: d, language }))
                    },
                }
            },
        }
    }
}

/// The files chosen among the first `n` entries, in walk order, or the
/// first entry that fails.
pub open spec fn chosen_sources(
    entries: Seq<SourceEntry>,
    n: nat,
    single: bool,
    requested: Option<Language>,
    include_tests: bool,
) -> Result<Seq<SourceModel>, int>
    decreases n,
{
    if n == 0 {
        Ok(seq![])
    } else {
        match chosen_sources(entries, (n - 1) as nat, single, requested, include_tests) {
            Err(i) => Err(i),
            Ok(s) => match entry_choice(entries[n - 1], n - 1, single, requested, include_tests) {
                Err(i) => Err(i),
                Ok(Some(m)) => Ok(s.push(m)),
                Ok(None) => Ok(s),
            },
        }
    }
}

/// Source files sort by their display paths.
pub open spec fn display_le() -> spec_fn(SourceModel, SourceModel) -> bool {
    |a: SourceModel, b: SourceModel| text_order(a.display_path, b.display_path) <= 0
}

impl Ranked for SourceFile {
    open spec fn rank_le(self, other: SourceFile) -> bool {
        text_order(self.display_path@, other.display_path@) <= 0
    }

    proof fn lemma_rank_total(a: SourceFile, b: SourceFile) {
        lemma_text_order(a.display_path@, b.display_path@, b.display_path@);
    }

    proof fn lemma_rank_transitive(a: SourceFile, b: SourceFile, c: SourceFile) {
        lemma_text_order(a.display_path@, b.display_path@, c.display_path@);
    }

    fn ranks_no_later(&self, other: &SourceFile) -> (r: bool) {
        compare_text(self.display_path.as_str(), other.display_path.as_str()) <= 0
    }
}

/// The views of chosen source files.
pub open spec fn source_models(files: Seq<SourceFile>) -> Seq<SourceModel> {
    files.map_values(|f: SourceFile| f@)
}

/// A path with `/` separators.
pub fn forward_slashes_of(path: &str) -> (r: String)
    ensures
        r@ == forward_slashes(path@),
{
    let chars = chars_of(path);
    let mut out = String::new();
    let mut i: usize = 0;
    while i < chars.len()
        invariant
            chars@ == path@,
            i <= chars.len(),
            out@ == forward_slashes(chars@.subrange(0, i as int)),
        decreases chars.len() - i,
    {
        if chars[i] == '\\' {
            push_char(&mut out, '/');
        } else {
            push_char(&mut out, chars[i]);
        }
        i = i + 1;
        assert(out@ =~= forward_slashes(chars@.subrange(0, i as int)));
    }
    assert(chars@.subrange(0, i as int) =~= path@);
    out
}

fn range_matches(s: &Vec<char>, from: usize, pattern: &Vec<char>) -> (r: bool)
    requires
        from + pattern@.len() <= s@.len(),
    ensures
        r == (s@.subrange(from as int, from + pattern@.len()) == pattern@),
{
    let n = s.len();
    let mut i: usize = 0;
    while i < pattern.len()
        invariant
            n == s@.len(),
            from + pattern@.len() <= s@.len(),
            i <= pattern@.len(),
            forall|j: int| 0 <= j < i ==> s@[from + j] == pattern@[j],
        decreases pattern.len() - i,
    {
        if s[from + i] != pattern[i] {
            assert(s@.subrange(from as int, from + pattern@.len())[i as int] != pattern@[i as int]);
            return false;
        }
        i = i + 1;
    }
    assert(s@.subrange(from as int, from + pattern@.len()) =~= pattern@);
    true
}

/// Whether `c` is one of the `/`-separated components of `s`.
pub fn has_component_of(s: &Vec<char>, c: &str) -> (r: bool)
    ensures
        r == has_component(s@, c@),
{
    let pat = chars_of(c);
    let n = s.len();
    let p = pat.len();
    if p > n {
        return false;
    }
    let mut i: usize = 0;
    loop
        invariant
            n == s@.len(),
            p == pat@.len(),
            pat@ == c@,
            p <= n,
            i <= n - p,
            forall|j: int|
                0 <= j < i ==> !((j == 0 || s@[j - 1] == '/') && (j + p == n || s@[j + p] == '/')
                    && #[trigger] s@.subrange(j, j + p) == pat@),
        ensures
            forall|j: int|
                0 <= j <= n - p ==> !((j == 0 || s@[j - 1] == '/') && (j + p == n || s@[j + p] == '/')
                    && #[trigger] s@.subrange(j, j + p) == pat@),
        decreases n - p - i,
    {
        let starts = i == 0 || s[i - 1] == '/';
        let stops = i + p == n || s[i + p] == '/';
        if starts && stops && range_matches(s, i, &pat) {
            return true;
        }
        if i == n - p {
            break;
        }
        i = i + 1;
    }
    assert forall|j: int|
        0 <= j && j + c@.len() <= s@.len() && (j == 0 || s@[j - 1] == '/') && (j + c@.len() == s@.len()
            || s@[j + c@.len()] == '/') implies #[trigger] s@.subrange(j, j + c@.len()) != c@ by {
    }
    false
}

/// Whether `s` ends with `suffix`.
pub fn ends_with_of(s: &Vec<char>, suffix: &str) -> (r: bool)
    ensures
        r == ends_with(s@, suffix@),
{
    let pat = chars_of(suffix);
    if pat.len() > s.len() {
        return false;
    }
    range_matches(s, s.len() - pat.len(), &pat)
}

/// Whether a file is a test file of its language.
pub fn is_test_file(display_path: &str, language: Language) -> (r: bool)
    ensures
        r == is_test_path(display_path@, language),
{
    let chars = chars_of(display_path);
    if has_component_of(&chars, "tests") {
        return true;
    }
    match language {
        Language::Go => ends_with_of(&chars, "_test.go"),
        Language::Rust => ends_with_of(&chars, "_test.rs") || ends_with_of(&chars, "_tests.rs")
            || ends_with_of(&chars, "/test.rs") || ends_with_of(&chars, "/tests.rs"),
    }
}

/// Whether a walk entry is passed over.
pub fn should_skip_entry(display_path: &Option<String>, options: AnalysisOptions) -> (r: bool)
    ensures
        r == skips_entry(
            match display_path {
                Some(d) => Some(d@),
                None => None,
            },
            options.include_tests,
        ),
{
    if options.include_tests {
        return false;
    }
    match display_path {
        Some(d) => {
            let chars = chars_of(d.as_str());
            has_component_of(&chars, ".git") || has_component_of(&chars, "target") || has_component_of(
                &chars,
                "tests",
            )
        },
        None => false,
    }
}

/// Once an entry fails, the choice among more entries fails at it too.
pub proof fn lemma_chosen_error_persists(
    entries: Seq<SourceEntry>,
    m: nat,
    n: nat,
    single: bool,
    requested: Option<Language>,
    include_tests: bool,
)
    requires
        m <= n,
        chosen_sources(entries, m, single, requested, include_tests) is Err,
    ensures
        chosen_sources(entries, n, single, requested, include_tests) == chosen_sources(
            entries,
            m,
            single,
            requested,
            include_tests,
        ),
    decreases n - m,
{
    if m < n {
        lemma_chosen_error_persists(entries, m, (n - 1) as nat, single, requested, include_tests);
    }
}

impl SourceFile {
    /// A copy of the record.
    pub fn duplicate(&self) -> (r: SourceFile)
        ensures
            r@ == self@,
    {
        SourceFile { entry: self.entry, display_path: self.display_path.clone(), language: self.language }
    }
}

/// Chooses the source files among the entries of a walk (`single` where
/// the analysed input is one file): files whose extension names a
/// language, of the requested language if one is given, and, where tests
/// are excluded, neither under `.git`, `target` or `tests` nor named like
/// tests. They come sorted by display path; the first chosen-language file
/// whose path is not UTF-8 fails the choice.
pub fn select_sources(
    entries: &Vec<SourceEntry>,
    single: bool,
    requested: Option<Language>,
    options: AnalysisOptions,
) -> (r: Result<Vec<SourceFile>, AnalyzeError>)
    ensures
        match chosen_sources(entries@, entries@.len(), single, requested, options.include_tests) {
            Ok(s) => r matches Ok(files) && source_models(files@) == sort_by(s, display_le()),
            Err(i) => r == Err::<Vec<SourceFile>, AnalyzeError>(AnalyzeError::NonUtf8Path { entry: i as usize }),
        },
{
    let include_tests = options.include_tests;
    let mut files: Vec<SourceFile> = Vec::new();
    let mut i: usize = 0;
    assert(source_models(files@) =~= Seq::<SourceModel>::empty());
    while i < entries.len()
        invariant
            i <= entries@.len(),
            include_tests == options.include_tests,
            chosen_sources(entries@, i as nat, single, requested, include_tests) == Ok::<Seq<SourceModel>, int>(
                source_models(files@),
            ),
        decreases entries.len() - i,
    {
        let e = &entries[i];
        let ghost choice = entry_choice(entries@[i as int], i as int, single, requested, include_tests);
        let skip = (!single && should_skip_entry(&e.display_path, options)) || !e.is_file;
        if !skip {
            match Language::from_extension(e.path.as_str()) {
                None => {},
                Some(language) => {
                    let wanted = match requested {
                        Some(r) => r == language,
                        None => true,
                    };
                    if wanted {
                        match &e.display_path {
                            None => {
                                proof {
                                    lemma_chosen_error_persists(
                                        entries@,
                                        (i + 1) as nat,
                                        entries@.len(),
                                        single,
                                        requested,
                                        include_tests,
                                    );
                                }
                                return Err(AnalyzeError::NonUtf8Path { entry: i });
                            },
                            Some(d) => {
                                if include_tests || !is_test_file(d.as_str(), language) {
                                    let file = SourceFile { entry: i, display_path: d.clone(), language };
                                    let ghost old_files = files@;
                                    files.push(file);
                                    proof {
                                        lemma_map_push(old_files, file, |f: SourceFile| f@);
                                    }
                                }
                            },
                        }
                    }
                },
            }
        }
        i = i + 1;
    }
    let order = rank_order(&files);
    let count = files.len();
    proof {
        lemma_ranked_order_len(files@, files@.len());
        lemma_sorted_items_views(files@, |f: SourceFile| f@, display_le());
        assert(source_models(files@) =~= files@.map_values(|f: SourceFile| f@));
    }
    let ghost all = sorted_items(files@).map_values(|f: SourceFile| f@);
    let mut sorted: Vec<SourceFile> = Vec::new();
    let mut k: usize = 0;
    while k < order.len()
        invariant
            order@ == ranked_order(files@, files@.len()),
            order@.len() == files@.len(),
            forall|j: int| 0 <= j < order@.len() ==> order@[j] < files@.len(),
            all == sorted_items(files@).map_values(|f: SourceFile| f@),
            k <= order@.len(),
            source_models(sorted@) == all.take(k as int),
        decreases order.len() - k,
    {
        let file = files[order[k]].duplicate();
        assert(all[k as int] == file@);
        let ghost old_sorted = sorted@;
        sorted.push(file);
        proof {
            lemma_map_push(old_sorted, file, |f: SourceFile| f@);
            assert(all.take(k + 1) =~= all.take(k as int).push(all[k as int]));
        }
        k = k + 1;
    }
    assert(source_models(sorted@) =~= all);
    Ok(sorted)
}

/// Reads a source file's bytes into its definitions and call sites: the
/// parser's syntax tree of the bytes, searched as `file_symbols` says (which
/// reads the tree only through its nodes and their subtree ends, both fixed
/// by the parser's nodes). Fails, with the file's entry and language, where
/// the parse gives no usable tree.
pub fn parse_source_file(file: &SourceFile, source: &[u8], options: AnalysisOptions) -> (r: Result<
    ParsedFile,
    AnalyzeError,
>)
    ensures
        match parse_outcome(file.language, source@) {
            Ok(ns) => r matches Ok(p) && exists|t: SyntaxTree|
                #![trigger file_symbols(t, source@, file.language, file.display_path@, options.include_tests)]
                t.wf() && t.nodes@ == ns && ends_follow_depths(ns, t.ends@) && key_models(p.definitions@)
                    == file_symbols(
                    t,
                    source@,
                    file.language,
                    file.display_path@,
                    options.include_tests,
                ).0 && site_models(p.call_sites@) == file_symbols(
                    t,
                    source@,
                    file.language,
                    file.display_path@,
                    options.include_tests,
                ).1,
            Err(e) => r == Err::<ParsedFile, AnalyzeError>(
                AnalyzeError::Syntax { entry: file.entry, language: file.language, error: e },
            ),
        },
{
    match parse_syntax(file.language, source) {
        Err(error) => Err(AnalyzeError::Syntax { entry: file.entry, language: file.language, error }),
        Ok(tree) => {
            let parsed = collect_file_symbols(&tree, source, file.language, file.display_path.as_str(), options);
            Ok(parsed)
        },
    }
}

/// A chosen file stands for a file entry of the walk whose extension
/// names its language, of the requested language where one is requested,
/// and no test file where tests are excluded.
pub open spec fn fits_entry(
    entries: Seq<SourceEntry>,
    m: SourceModel,
    requested: Option<Language>,
    include_tests: bool,
) -> bool {
    &&& 0 <= m.entry < entries.len()
    &&& entries[m.entry].is_file
    &&& language_of_extension(path_extension(entries[m.entry].path@)) == Some(m.language)
    &&& entries[m.entry].display_path matches Some(d) && d@ == m.display_path
    &&& (requested matches Some(r) ==> r == m.language)
    &&& (!include_tests ==> !is_test_path(m.display_path, m.language))
}

/// Display paths are ordered by a total preorder.
pub proof fn lemma_display_le_total()
    ensures
        is_total_preorder(display_le()),
{
    assert forall|a: SourceModel, b: SourceModel| #[trigger] display_le()(a, b) || display_le()(b, a) by {
        lemma_text_order(a.display_path, b.display_path, b.display_path);
    }
    assert forall|a: SourceModel, b: SourceModel, c: SourceModel|
        #[trigger] display_le()(a, b) && #[trigger] display_le()(b, c) implies display_le()(a, c) by {
        lemma_text_order(a.display_path, b.display_path, c.display_path);
    }
}

proof fn lemma_chosen_fit(
    entries: Seq<SourceEntry>,
    n: nat,
    single: bool,
    requested: Option<Language>,
    include_tests: bool,
)
    requires
        n <= entries.len(),
    ensures
        chosen_sources(entries, n, single, requested, include_tests) matches Ok(s) ==> forall|k: int|
            0 <= k < s.len() ==> fits_entry(entries, #[trigger] s[k], requested, include_tests),
    decreases n,
{
    if n > 0 {
        lemma_chosen_fit(entries, (n - 1) as nat, single, requested, include_tests);
    }
}

/// The files an analysis reads come sorted by display path, are the chosen
/// entries (as a multiset), and each is a file entry of the walk in the
/// language its extension names, of the requested language where one is
/// requested, and no test file where tests are excluded.
pub proof fn law_chosen_sources(
    entries: Seq<SourceEntry>,
    single: bool,
    requested: Option<Language>,
    include_tests: bool,
)
    ensures
        chosen_sources(entries, entries.len(), single, requested, include_tests) matches Ok(s) ==> (
        sorted_by_le(sort_by(s, display_le()), display_le()) && sort_by(s, display_le()).to_multiset()
            == s.to_multiset() && forall|k: int|
            0 <= k < s.len() ==> fits_entry(entries, #[trigger] s[k], requested, include_tests)),
{
    lemma_chosen_fit(entries, entries.len(), single, requested, include_tests);
    if let Ok(s) = chosen_sources(entries, entries.len(), single, requested, include_tests) {
        lemma_display_le_total();
        lemma_sort_by_sorted(s, display_le());
    }
}

/// The rules of one walk entry. A file input (`single`) is chosen as a
/// walk entry whose path passes the directory rule is. Otherwise an entry is passed over when
/// tests are excluded and its path goes through `.git`, `target` or
/// `tests`. A directory, a file whose extension names no language, and a
/// file of another language than the requested one are passed over. A
/// file of a chosen language whose path is not UTF-8 fails the choice; a
/// test file is passed over when tests are excluded; any other file is
/// chosen, under its display path and language.
pub proof fn law_entry_choice(
    e: SourceEntry,
    index: int,
    single: bool,
    requested: Option<Language>,
    include_tests: bool,
)
    ensures
        !skips_entry(
            match e.display_path {
                Some(d) => Some(d@),
                None => None,
            },
            include_tests,
        ) ==> entry_choice(e, index, true, requested, include_tests) == entry_choice(
            e,
            index,
            false,
            requested,
            include_tests,
        ),
        !single && skips_entry(
            match e.display_path {
                Some(d) => Some(d@),
                None => None,
            },
            include_tests,
        ) ==> entry_choice(e, index, single, requested, include_tests) == Ok::<Option<SourceModel>, int>(None),
        !e.is_file ==> entry_choice(e, index, single, requested, include_tests) is Ok && entry_choice(
            e,
            index,
            single,
            requested,
            include_tests,
        )->Ok_0 is None,
        language_of_extension(path_extension(e.path@)) is None ==> entry_choice(
            e,
            index,
            single,
            requested,
            include_tests,
        ) == Ok::<Option<SourceModel>, int>(None),
        (requested matches Some(r) && language_of_extension(path_extension(e.path@)) != Some(r)) ==> entry_choice(
            e,
            index,
            single,
            requested,
            include_tests,
        ) == Ok::<Option<SourceModel>, int>(None),
        entry_choice(e, index, single, requested, include_tests) matches Err(i) ==> i == index && e.is_file
            && e.display_path is None && language_of_extension(path_extension(e.path@)) is Some,
        entry_choice(e, index, single, requested, include_tests) matches Ok(Some(m)) ==> (m.entry == index
            && e.display_path is Some && e.display_path->0@ == m.display_path && language_of_extension(
            path_extension(e.path@),
        ) == Some(m.language) && (!include_tests ==> !is_test_path(m.display_path, m.language))),
{
}

/// One more walk entry adds at most one source file: the choice among
/// `n + 1` entries is that among `n`, with or without the new entry's file,
/// unless one of them fails.
pub proof fn law_one_entry(
    entries: Seq<SourceEntry>,
    n: nat,
    single: bool,
    requested: Option<Language>,
    include_tests: bool,
)
    ensures
        chosen_sources(entries, n, single, requested, include_tests) matches Ok(s) ==> match chosen_sources(
            entries,
            n + 1,
            single,
            requested,
            include_tests,
        ) {
            Ok(s2) => s2 == s || (s2.len() == s.len() + 1 && s2.drop_last() == s),
            Err(i) => i == n,
        },
{
    if let Ok(s) = chosen_sources(entries, n, single, requested, include_tests) {
        if let Ok(Some(m)) = entry_choice(entries[n as int], n as int, single, requested, include_tests) {
            assert(s.push(m).drop_last() =~= s);
        }
    }
}

/// Leaving tests out only leaves files out: the choice without tests fails
/// exactly where the choice with tests fails, and otherwise every file it
/// chooses is chosen with tests.
pub proof fn law_chosen_without_tests(
    entries: Seq<SourceEntry>,
    n: nat,
    single: bool,
    requested: Option<Language>,
)
    requires
        n <= entries.len(),
    ensures
        chosen_sources(entries, n, single, requested, false) is Err <==> chosen_sources(
            entries,
            n,
            single,
            requested,
            true,
        ) is Err,
        chosen_sources(entries, n, single, requested, false) matches Err(i) ==> chosen_sources(
            entries,
            n,
            single,
            requested,
            true,
        ) == Err::<Seq<SourceModel>, int>(i),
        chosen_sources(entries, n, single, requested, false) matches Ok(s) ==> (chosen_sources(
            entries,
            n,
            single,
            requested,
            true,
        ) matches Ok(s2) && forall|k: int| 0 <= k < s.len() ==> s2.contains(#[trigger] s[k])),
    decreases n,
{
    if n > 0 {
        let m = (n - 1) as nat;
        law_chosen_without_tests(entries, m, single, requested);
        let e = entries[m as int];
        let c0 = entry_choice(e, m as int, single, requested, false);
        let c1 = entry_choice(e, m as int, single, requested, true);
        if let Ok(s) = chosen_sources(entries, m, single, requested, false) {
            let s2 = chosen_sources(entries, m, single, requested, true)->Ok_0;
            if let Ok(Some(x)) = c0 {
                assert(c1 == c0);
                assert forall|k: int| 0 <= k < s.push(x).len() implies s2.push(x).contains(#[trigger] s.push(x)[k]) by {
                    if k < s.len() {
                        assert(s2.contains(s[k]));
                        let q = choose|q: int| 0 <= q < s2.len() && s2[q] == s[k];
                        assert(s2.push(x)[q] == s2[q]);
                    } else {
                        assert(s2.push(x)[s2.len() as int] == x);
                    }
                }
            } else if let Ok(None) = c0 {
                if let Ok(Some(y)) = c1 {
                    assert forall|k: int| 0 <= k < s.len() implies s2.push(y).contains(#[trigger] s[k]) by {
                        assert(s2.contains(s[k]));
                        let q = choose|q: int| 0 <= q < s2.len() && s2[q] == s[k];
                        assert(s2.push(y)[q] == s2[q]);
                    }
                }
            }
        }
    }
}

/// `s` ends in `suffix`, written out.
pub open spec fn path_ends_in(s: Seq<char>, suffix: Seq<char>) -> bool {
    suffix.len() <= s.len() && forall|k: int| 0 <= k < suffix.len() ==> #[trigger] s[s.len() - suffix.len() + k] == suffix[k]
}

/// Which paths are test files: a path with a `tests` component in either
/// language; in Rust a path ending in `_test.rs`, `_tests.rs`, `/test.rs`
/// or `/tests.rs`; in Go a path ending in `_test.go`; and no other.
pub proof fn law_test_paths(p: Seq<char>)
    ensures
        has_component(p, "tests"@) ==> is_test_path(p, Language::Rust) && is_test_path(p, Language::Go),
        path_ends_in(p, "_test.rs"@) ==> is_test_path(p, Language::Rust),
        path_ends_in(p, "_tests.rs"@) ==> is_test_path(p, Language::Rust),
        path_ends_in(p, "/test.rs"@) ==> is_test_path(p, Language::Rust),
        path_ends_in(p, "/tests.rs"@) ==> is_test_path(p, Language::Rust),
        path_ends_in(p, "_test.go"@) ==> is_test_path(p, Language::Go),
        is_test_path(p, Language::Rust) ==> has_component(p, "tests"@) || path_ends_in(p, "_test.rs"@)
            || path_ends_in(p, "_tests.rs"@) || path_ends_in(p, "/test.rs"@) || path_ends_in(p, "/tests.rs"@),
        is_test_path(p, Language::Go) ==> has_component(p, "tests"@) || path_ends_in(p, "_test.go"@),
{
    assert forall|suffix: Seq<char>| #[trigger] path_ends_in(p, suffix) == ends_with(p, suffix) by {
        if suffix.len() <= p.len() {
            if path_ends_in(p, suffix) {
                let tail = p.subrange(p.len() - suffix.len(), p.len() as int);
                assert forall|k: int| 0 <= k < suffix.len() implies tail[k] == suffix[k] by {
                    assert(p[p.len() - suffix.len() + k] == suffix[k]);
                }
                assert(tail =~= suffix);
            }
            if ends_with(p, suffix) {
                assert forall|k: int| 0 <= k < suffix.len() implies #[trigger] p[p.len() - suffix.len() + k] == suffix[k] by {
                    assert(p.subrange(p.len() - suffix.len(), p.len() as int)[k] == suffix[k]);
                }
            }
        }
    }
    assert(path_ends_in(p, "_test.rs"@) == ends_with(p, "_test.rs"@));
    assert(path_ends_in(p, "_tests.rs"@) == ends_with(p, "_tests.rs"@));
    assert(path_ends_in(p, "/test.rs"@) == ends_with(p, "/test.rs"@));
    assert(path_ends_in(p, "/tests.rs"@) == ends_with(p, "/tests.rs"@));
    assert(path_ends_in(p, "_test.go"@) == ends_with(p, "_test.go"@));
}

} // verus!
