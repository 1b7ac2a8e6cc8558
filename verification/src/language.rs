//! Source languages and how they are recognised.

use vstd::prelude::*;

use crate::text::{chars_of, last_index_in, last_index_of, lemma_last_index_of_suffix};

verus! {

/// Source languages supported by the analyzer.
#[derive(Debug, Clone, Copy, PartialEq, Eq, Structural, PartialOrd, Ord, Hash)]
pub enum Language {
    Go,
    Rust,
}

/// The last component of a `/`-separated path that names something, skipping
/// empty components and `.`; `None` when there is none or when it is `..`.
pub open spec fn file_name(path: Seq<char>) -> Option<Seq<char>>
    decreases path.len(),
{
    let k = last_index_of(path, '/');
    let segment = path.subrange(k + 1, path.len() as int);
    if segment.len() > 0 && segment != seq!['.'] {
        if segment == seq!['.', '.'] {
            None
        } else {
            Some(segment)
        }
    } else if k < 0 || k >= path.len() {
        None
    } else {
        file_name(path.subrange(0, k))
    }
}

/// The extension of a file name: what follows its last `.`, provided that
/// something precedes that `.`.
pub open spec fn name_extension(name: Seq<char>) -> Option<Seq<char>> {
    let d = last_index_of(name, '.');
    if d <= 0 {
        None
    } else {
        Some(name.subrange(d + 1, name.len() as int))
    }
}

/// The extension of the file that a path names.
pub open spec fn path_extension(path: Seq<char>) -> Option<Seq<char>> {
    match file_name(path) {
        Some(name) => name_extension(name),
        None => None,
    }
}

/// The language whose extension `ext` is.
pub open spec fn language_of_extension(ext: Option<Seq<char>>) -> Option<Language> {
    match ext {
        Some(e) => if e == seq!['g', 'o'] {
            Some(Language::Go)
        } else if e == seq!['r', 's'] {
            Some(Language::Rust)
        } else {
            None
        },
        None => None,
    }
}

/// ASCII lower-casing of one character; other characters are unchanged.
pub open spec fn ascii_lower(c: char) -> char {
    if 'A' <= c && c <= 'Z' {
        ((c as u32) + 32) as char
    } else {
        c
    }
}

/// ASCII upper-casing of a character.
pub open spec fn ascii_upper(c: char) -> char {
    if 'a' <= c && c <= 'z' {
        ((c as u32) - 32) as char
    } else {
        c
    }
}

/// ASCII upper-casing of a string.
pub open spec fn ascii_uppercase(s: Seq<char>) -> Seq<char> {
    Seq::new(s.len(), |i: int| ascii_upper(s[i]))
}

/// ASCII lower-casing of a string.
pub open spec fn ascii_lowercase(s: Seq<char>) -> Seq<char> {
    Seq::new(s.len(), |i: int| ascii_lower(s[i]))
}

/// The language that a user-given name stands for, ignoring ASCII case.
pub open spec fn language_named(name: Seq<char>) -> Option<Language> {
    let lower = ascii_lowercase(name);
    if lower == seq!['g', 'o'] || lower == seq!['g', 'o', 'l', 'a', 'n', 'g'] {
        Some(Language::Go)
    } else if lower == seq!['r', 's'] || lower == seq!['r', 'u', 's', 't'] {
        Some(Language::Rust)
    } else {
        None
    }
}

fn equals_chars(s: &Vec<char>, from: usize, to: usize, expected: &str) -> (r: bool)
    requires
        from <= to <= s.len(),
    ensures
        r == (s@.subrange(from as int, to as int) == expected@),
{
    let e = chars_of(expected);
    if to - from != e.len() {
        return false;
    }
    let mut i: usize = 0;
    while i < e.len()
        invariant
            to - from == e.len(),
            from <= to <= s.len(),
            e@ == expected@,
            0 <= i <= e.len(),
            forall|j: int| 0 <= j < i ==> s@[from + j] == e@[j],
        decreases e.len() - i,
    {
        if s[from + i] != e[i] {
            assert(s@.subrange(from as int, to as int)[i as int] != expected@[i as int]);
            return false;
        }
        i = i + 1;
    }
    assert(s@.subrange(from as int, to as int) =~= expected@);
    true
}

/// Locates the file name of a path: the characters `from..to` of `chars`.
fn file_name_range(chars: &Vec<char>) -> (r: Option<(usize, usize)>)
    ensures
        match r {
            Some((from, to)) => from <= to <= chars.len() && file_name(chars@) == Some(
                chars@.subrange(from as int, to as int),
            ),
            None => file_name(chars@) is None,
        },
{
    let mut end = chars.len();
    assert(chars@.subrange(0, end as int) =~= chars@);
    loop
        invariant
            end <= chars.len(),
            file_name(chars@) == file_name(chars@.subrange(0, end as int)),
        decreases end,
    {
        let ghost prefix = chars@.subrange(0, end as int);
        proof {
            reveal_strlit(".");
            reveal_strlit("..");
            assert("."@ =~= seq!['.']);
            assert(".."@ =~= seq!['.', '.']);
        }
        let k = last_index_in(chars, end, '/');
        let start = match k {
            Some(i) => i + 1,
            None => 0,
        };
        assert(prefix.subrange(start as int, prefix.len() as int) =~= chars@.subrange(
            start as int,
            end as int,
        ));
        if start < end && !equals_chars(chars, start, end, ".") {
            let ghost k_spec = last_index_of(prefix, '/');
            assert(k_spec == start - 1);
            assert(prefix.subrange(k_spec + 1, prefix.len() as int) == chars@.subrange(start as int, end as int));
            if equals_chars(chars, start, end, "..") {
                assert(file_name(prefix) is None);
                return None;
            }
            assert(file_name(prefix) == Some(chars@.subrange(start as int, end as int)));
            return Some((start, end));
        }
        match k {
            Some(i) => {
                assert(prefix.subrange(0, i as int) =~= chars@.subrange(0, i as int));
                end = i;
            },
            None => {
                return None;
            },
        }
    }
}

/// The file extension of a language's sources.
pub open spec fn extension_of(language: Language) -> Seq<char> {
    match language {
        Language::Go => seq!['g', 'o'],
        Language::Rust => seq!['r', 's'],
    }
}

/// The name of a language as shown to users.
pub open spec fn name_of(language: Language) -> Seq<char> {
    match language {
        Language::Go => seq!['g', 'o'],
        Language::Rust => seq!['r', 'u', 's', 't'],
    }
}

/// Where `c` does not occur, its last index is -1.
pub proof fn lemma_last_index_absent(s: Seq<char>, c: char)
    requires
        !s.contains(c),
    ensures
        last_index_of(s, c) == -1,
    decreases s.len(),
{
    if s.len() > 0 {
        assert(s.last() == s[s.len() - 1]);
        assert(!s.drop_last().contains(c)) by {
            if s.drop_last().contains(c) {
                let k = choose|k: int| 0 <= k < s.drop_last().len() && s.drop_last()[k] == c;
                assert(s[k] == c);
            }
        }
        lemma_last_index_absent(s.drop_last(), c);
    }
}

/// The last `c` of `a + [c] + b`, where `b` holds no `c`, is the one
/// between them.
pub proof fn lemma_last_index_before(a: Seq<char>, c: char, b: Seq<char>)
    requires
        !b.contains(c),
    ensures
        last_index_of(a + seq![c] + b, c) == a.len(),
    decreases b.len(),
{
    if b.len() == 0 {
        assert(a + seq![c] + b =~= a.push(c));
        assert((a + seq![c] + b).last() == c);
    } else {
        assert((a + seq![c] + b).drop_last() =~= a + seq![c] + b.drop_last());
        assert((a + seq![c] + b).last() == b.last());
        assert(b.last() == b[b.len() - 1]);
        assert(!b.drop_last().contains(c)) by {
            if b.drop_last().contains(c) {
                let k = choose|k: int| 0 <= k < b.drop_last().len() && b.drop_last()[k] == c;
                assert(b[k] == c);
            }
        }
        lemma_last_index_before(a, c, b.drop_last());
    }
}

/// A file named by a non-empty stem and a language's extension is a file
/// of that language.
pub proof fn law_extension_names_language(language: Language, stem: Seq<char>)
    requires
        stem.len() > 0,
        !stem.contains('/'),
    ensures
        language_of_extension(path_extension(stem + seq!['.'] + extension_of(language))) == Some(
            language,
        ),
{
    let ext = extension_of(language);
    let path = stem + seq!['.'] + ext;
    assert(!ext.contains('/'));
    assert(!ext.contains('.'));
    assert(!path.contains('/')) by {
        if path.contains('/') {
            let k = choose|k: int| 0 <= k < path.len() && path[k] == '/';
            if k < stem.len() {
                assert(stem[k] == '/');
            } else if k > stem.len() {
                assert(ext[k - stem.len() - 1] == '/');
            }
        }
    }
    lemma_last_index_absent(path, '/');
    assert(path.subrange(0, path.len() as int) =~= path);
    assert(path.len() >= 3);
    assert(path != seq!['.'] && path != seq!['.', '.']) by {
        assert(seq!['.'].len() == 1);
        assert(seq!['.', '.'].len() == 2);
    }
    assert(file_name(path) == Some(path));
    lemma_last_index_before(stem, '.', ext);
    assert(path.subrange(stem.len() + 1 as int, path.len() as int) =~= ext);
}

/// A language is named by its name and by its extension, in any ASCII case:
/// lower-casing or upper-casing a name changes nothing.
pub proof fn law_language_names(language: Language, name: Seq<char>)
    ensures
        language_named(name_of(language)) == Some(language),
        language_named(extension_of(language)) == Some(language),
        language_named(ascii_lowercase(name)) == language_named(name),
        language_named(ascii_uppercase(name)) == language_named(name),
{
    assert(ascii_lowercase(ascii_uppercase(name)) =~= ascii_lowercase(name)) by {
        assert forall|i: int| 0 <= i < name.len() implies ascii_lower(ascii_upper(name[i])) == ascii_lower(name[i]) by {
            let c = name[i];
            if 'a' <= c && c <= 'z' {
                assert((((c as u32) - 32) as char) as u32 == (c as u32) - 32);
                assert(((((c as u32) - 32) as char) as u32 + 32) as char == c);
            }
        }
    }
    assert(ascii_lowercase(name_of(language)) =~= name_of(language));
    assert(ascii_lowercase(extension_of(language)) =~= extension_of(language));
    assert(ascii_lowercase(ascii_lowercase(name)) =~= ascii_lowercase(name));
}

impl Language {
    /// Detects the language of a file from the extension of its path.
    pub fn from_extension(path: &str) -> (r: Option<Language>)
        ensures
            r == language_of_extension(path_extension(path@)),
    {
        let chars = chars_of(path);
        let (start, end) = match file_name_range(&chars) {
            Some(range) => range,
            None => {
                return None;
            },
        };
        let ghost name = chars@.subrange(start as int, end as int);
        let ghost upto = chars@.subrange(0, end as int);
        assert(upto.subrange(start as int, upto.len() as int) =~= name);
        proof {
            lemma_last_index_of_suffix(upto, start as int, '.');
        }
        let ext_start = match last_index_in(&chars, end, '.') {
            Some(i) => {
                if i <= start {
                    return None;
                }
                i + 1
            },
            None => {
                return None;
            },
        };
        assert(name.subrange(ext_start - start, name.len() as int) =~= chars@.subrange(
            ext_start as int,
            end as int,
        ));
        proof {
            reveal_strlit("go");
            reveal_strlit("rs");
            assert("go"@ =~= seq!['g', 'o']);
            assert("rs"@ =~= seq!['r', 's']);
        }
        if equals_chars(&chars, ext_start, end, "go") {
            Some(Language::Go)
        } else if equals_chars(&chars, ext_start, end, "rs") {
            Some(Language::Rust)
        } else {
            None
        }
    }

    /// The file extension of the language's sources.
    pub fn extension(self) -> (s: &'static str)
        ensures
            s@ == extension_of(self),
    {
        proof {
            reveal_strlit("go");
            reveal_strlit("rs");
            assert("go"@ =~= seq!['g', 'o']);
            assert("rs"@ =~= seq!['r', 's']);
        }
        match self {
            Language::Go => "go",
            Language::Rust => "rs",
        }
    }

    /// The language's name as shown to users.
    pub fn as_str(self) -> (s: &'static str)
        ensures
            s@ == name_of(self),
    {
        proof {
            reveal_strlit("go");
            reveal_strlit("rust");
            assert("go"@ =~= seq!['g', 'o']);
            assert("rust"@ =~= seq!['r', 'u', 's', 't']);
        }
        match self {
            Language::Go => "go",
            Language::Rust => "rust",
        }
    }
}

fn lower_char(c: char) -> (r: char)
    ensures
        r == ascii_lower(c),
{
    if 'A' <= c && c <= 'Z' {
        (((c as u32) + 32) as u8) as char
    } else {
        c
    }
}

impl Language {
    /// The language that a user-given name stands for: `go` or `golang`, `rs`
    /// or `rust`, in any ASCII case.
    pub fn from_name(value: &str) -> (r: Option<Language>)
        ensures
            r == language_named(value@),
    {
        let chars = chars_of(value);
        let mut lower: Vec<char> = Vec::new();
        let mut i: usize = 0;
        while i < chars.len()
            invariant
                chars@ == value@,
                i <= chars.len(),
                lower@ == ascii_lowercase(chars@.subrange(0, i as int)),
            decreases chars.len() - i,
        {
            lower.push(lower_char(chars[i]));
            i = i + 1;
            assert(lower@ =~= ascii_lowercase(chars@.subrange(0, i as int)));
        }
        assert(chars@.subrange(0, i as int) =~= chars@);
        let n = lower.len();
        proof {
            reveal_strlit("go");
            reveal_strlit("golang");
            reveal_strlit("rs");
            reveal_strlit("rust");
            assert("go"@ =~= seq!['g', 'o']);
            assert("golang"@ =~= seq!['g', 'o', 'l', 'a', 'n', 'g']);
            assert("rs"@ =~= seq!['r', 's']);
            assert("rust"@ =~= seq!['r', 'u', 's', 't']);
            assert(lower@.subrange(0, n as int) =~= lower@);
        }
        if equals_chars(&lower, 0, n, "go") || equals_chars(&lower, 0, n, "golang") {
            Some(Language::Go)
        } else if equals_chars(&lower, 0, n, "rs") || equals_chars(&lower, 0, n, "rust") {
            Some(Language::Rust)
        } else {
            None
        }
    }
}

/// A language name that no supported language answers to.
#[derive(Debug, Clone, PartialEq, Eq)]
pub struct UnsupportedLanguage {
    pub name: String,
}

impl UnsupportedLanguage {
    /// The error's message: `unsupported language: ` and the name.
    pub fn message(&self) -> (r: String)
        ensures
            r@ == "unsupported language: "@ + self.name@,
    {
        let mut r = String::new();
        r.append("unsupported language: ");
        r.append(self.name.as_str());
        r
    }
}

impl std::str::FromStr for Language {
    type Err = UnsupportedLanguage;

    fn from_str(value: &str) -> (r: Result<Language, UnsupportedLanguage>)
        ensures
            match language_named(value@) {
                Some(language) => r == Ok::<Language, UnsupportedLanguage>(language),
                None => r matches Err(e) && e.name@ == value@,
            },
    {
        proof {
            broadcast use vstd::string::to_string_from_display_ensures_for_str;
        }
        match Language::from_name(value) {
            Some(language) => Ok(language),
            None => Err(UnsupportedLanguage { name: value.to_string() }),
        }
    }
}

/// The language choice offered on the command line: a language, or `Auto` to
/// infer each file's language from its extension.
#[derive(Debug, Clone, Copy, PartialEq, Eq, Structural)]
pub enum CliLanguage {
    Auto,
    Go,
    Rust,
}

impl CliLanguage {
    /// The language filter that the choice asks the analyzer for.
    pub fn into_analysis_language(self) -> (r: Option<Language>)
        ensures
            r == match self {
                CliLanguage::Auto => None,
                CliLanguage::Go => Some(Language::Go),
                CliLanguage::Rust => Some(Language::Rust),
            },
    {
        match self {
            CliLanguage::Auto => None,
            CliLanguage::Go => Some(Language::Go),
            CliLanguage::Rust => Some(Language::Rust),
        }
    }
}

} // verus!
