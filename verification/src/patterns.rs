//! The pattern registry: named, severity-tagged text matchers, and the
//! default sets that a scanner starts from.

use crate::severity::Severity;
use regex::Regex;
use vstd::prelude::*;

verus! {

/// `regex::Regex`, a compiled matcher. The proofs see nothing inside it.
#[verifier::external_type_specification]
#[verifier::external_body]
pub struct ExRegex(Regex);

/// The matcher that `regex::Regex::new` makes of a pattern source, or `None`
/// where it rejects the source.
pub uninterp spec fn compiled(source: Seq<char>) -> Option<Regex>;

/// The byte offset at which the leftmost match of a matcher in a text
/// starts, as `regex::Regex::find` reports it, or `None` where the text holds
/// no match.
pub uninterp spec fn match_start(re: Regex, haystack: Seq<char>) -> Option<usize>;

/// `regex::Regex::new`, with the error dropped: the matcher for the source,
/// which is a function of the source alone, named [`compiled`].
#[verifier::external_body]
fn compile(source: &str) -> (r: Option<Regex>)
    ensures
        r == compiled(source@),
{
    Regex::new(source).ok()
}

/// `regex::Regex::find`, reduced to `Match::start`: where the leftmost match
/// starts, which is a function of the matcher and the text, named
/// [`match_start`]. The offset lies within the text, whose length in bytes
/// never exceeds `isize::MAX`.
#[verifier::external_body]
fn find_start(re: &Regex, haystack: &str) -> (r: Option<usize>)
    ensures
        r == match_start(*re, haystack@),
        r matches Some(start) ==> start <= haystack.len() <= isize::MAX,
{
    re.find(haystack).map(|m| m.start())
}

/// `Clone` for `regex::Regex`: the copy is the same matcher.
pub assume_specification[ <Regex as Clone>::clone ](re: &Regex) -> (r: Regex)
    ensures
        r == *re,
;

/// A detector: a compiled, case-insensitive text matcher with a name and a
/// severity.
#[derive(Debug)]
pub struct Pattern {
    pub name: String,
    pub regex: Regex,
    pub severity: Severity,
}

/// Mathematical model of a [`Pattern`].
pub struct Detector {
    pub name: Seq<char>,
    pub regex: Regex,
    pub severity: Severity,
}

impl View for Pattern {
    type V = Detector;

    open spec fn view(&self) -> Detector {
        Detector { name: self.name@, regex: self.regex, severity: self.severity }
    }
}

impl DeepView for Pattern {
    type V = Detector;

    open spec fn deep_view(&self) -> Detector {
        self@
    }
}

impl Clone for Pattern {
    fn clone(&self) -> (r: Pattern)
        ensures
            r == *self,
    {
        Pattern { name: self.name.clone(), regex: self.regex.clone(), severity: self.severity }
    }
}

/// A registry extended by the detector of one table entry. An entry whose
/// source the matcher library rejects adds nothing.
pub open spec fn with_entry(
    registry: Seq<Detector>,
    name: Seq<char>,
    source: Seq<char>,
    severity: Severity,
) -> Seq<Detector> {
    match compiled(source) {
        Some(regex) => registry.push(Detector { name, regex, severity }),
        None => registry,
    }
}

/// The default registry, most specific markers first: `HACK`/`XXX`, `FIXME`,
/// `TODO`, the word `NOTE` followed, later in the line, by the word `fix`,
/// temporary code, mocks and stubs, and a word for temporary code followed,
/// later in the line, by the word `production`. Every source asks for
/// whole words, by a word boundary on each side of each word, and for no
/// regard to case.
pub open spec fn default_registry() -> Seq<Detector> {
    let r = Seq::<Detector>::empty();
    let r = with_entry(r, "HACK"@, "(?i)\\b(HACK|XXX)\\b"@, Severity::Critical);
    let r = with_entry(r, "FIXME"@, "(?i)\\bFIXME\\b"@, Severity::High);
    let r = with_entry(r, "TODO"@, "(?i)\\bTODO\\b"@, Severity::Medium);
    let r = with_entry(r, "NOTE_FIX"@, "(?i)\\bNOTE\\b.*\\bfix\\b"@, Severity::Medium);
    let r = with_entry(
        r,
        "TEMPORARY"@,
        "(?i)\\b(temporary|temp|placeholder)\\b"@,
        Severity::High,
    );
    let r = with_entry(r, "MOCK_STUB"@, "(?i)\\b(mock|stub)\\b"@, Severity::Low);
    let r = with_entry(
        r,
        "PRODUCTION_DEBT"@,
        "(?i)\\b(temporary|placeholder|mock)\\b.*\\bproduction\\b"@,
        Severity::Critical,
    );
    r
}

/// Whether no two detectors of a registry share a name.
pub open spec fn has_unique_names(registry: Seq<Detector>) -> bool {
    forall|i: int, j: int|
        0 <= i < j < registry.len() ==> (#[trigger] registry[i]).name != (
        #[trigger] registry[j]).name
}

/// The default registry holds at most seven detectors, each under a name of
/// its own.
pub proof fn lemma_default_names_unique()
    ensures
        has_unique_names(default_registry()),
        default_registry().len() <= 7,
{
    reveal_strlit("HACK");
    reveal_strlit("FIXME");
    reveal_strlit("TODO");
    reveal_strlit("NOTE_FIX");
    reveal_strlit("TEMPORARY");
    reveal_strlit("MOCK_STUB");
    reveal_strlit("PRODUCTION_DEBT");
    assert("HACK"@[0] == 'H' && "TODO"@[0] == 'T');
    assert("NOTE_FIX"@[0] == 'N' && "TEMPORARY"@[0] == 'T' && "MOCK_STUB"@[0] == 'M');
    let r0 = Seq::<Detector>::empty();
    let r1 = with_entry(r0, "HACK"@, "(?i)\\b(HACK|XXX)\\b"@, Severity::Critical);
    let r2 = with_entry(r1, "FIXME"@, "(?i)\\bFIXME\\b"@, Severity::High);
    let r3 = with_entry(r2, "TODO"@, "(?i)\\bTODO\\b"@, Severity::Medium);
    let r4 = with_entry(r3, "NOTE_FIX"@, "(?i)\\bNOTE\\b.*\\bfix\\b"@, Severity::Medium);
    let r5 = with_entry(
        r4,
        "TEMPORARY"@,
        "(?i)\\b(temporary|temp|placeholder)\\b"@,
        Severity::High,
    );
    let r6 = with_entry(r5, "MOCK_STUB"@, "(?i)\\b(mock|stub)\\b"@, Severity::Low);
    let r7 = with_entry(
        r6,
        "PRODUCTION_DEBT"@,
        "(?i)\\b(temporary|placeholder|mock)\\b.*\\bproduction\\b"@,
        Severity::Critical,
    );
    assert(has_unique_names(r1) && r1.len() <= 1 && forall|i: int|
        0 <= i < r1.len() ==> (#[trigger] r1[i]).name.len() == 4);
    assert(has_unique_names(r2) && r2.len() <= 2 && forall|i: int|
        0 <= i < r2.len() ==> 4 <= (#[trigger] r2[i]).name.len() <= 5);
    assert(has_unique_names(r3) && r3.len() <= 3 && forall|i: int|
        0 <= i < r3.len() ==> 4 <= (#[trigger] r3[i]).name.len() <= 5);
    assert(has_unique_names(r4) && r4.len() <= 4 && forall|i: int|
        0 <= i < r4.len() ==> 4 <= (#[trigger] r4[i]).name.len() <= 8);
    assert(has_unique_names(r5) && r5.len() <= 5 && forall|i: int|
        0 <= i < r5.len() ==> 4 <= (#[trigger] r5[i]).name.len() <= 9 && (r5[i].name.len() == 9
            ==> r5[i].name[0] == 'T'));
    assert(has_unique_names(r6) && r6.len() <= 6 && forall|i: int|
        0 <= i < r6.len() ==> 4 <= (#[trigger] r6[i]).name.len() <= 9);
    assert(has_unique_names(r7) && r7.len() <= 7);
    assert(r7 == default_registry());
}

/// File extensions that a scanner accepts by default.
pub open spec fn default_extension_list() -> Seq<Seq<char>> {
    seq![
        "rs"@,
        "py"@,
        "js"@,
        "ts"@,
        "jsx"@,
        "tsx"@,
        "go"@,
        "java"@,
        "c"@,
        "cpp"@,
        "cc"@,
        "cxx"@,
        "h"@,
        "hpp"@,
        "rb"@,
        "php"@,
        "cs"@,
        "swift"@,
        "kt"@,
        "scala"@,
        "clj"@,
        "ml"@,
        "hs"@,
        "elm"@,
        "dart"@,
        "lua"@,
        "pl"@,
        "r"@,
        "jl"@,
        "nim"@,
        "zig"@,
        "v"@,
        "cr"@,
    ]
}

/// Directory names that a scanner skips by default.
pub open spec fn default_ignore_list() -> Seq<Seq<char>> {
    seq![
        "node_modules"@,
        ".git"@,
        "target"@,
        "dist"@,
        "build"@,
        ".next"@,
        "vendor"@,
        "__pycache__"@,
        ".pytest_cache"@,
        "coverage"@,
        ".nyc_output"@,
        "bower_components"@,
    ]
}

/// Appends a copy of a text to a list of texts.
pub fn push_text(list: &mut Vec<String>, text: &str)
    ensures
        final(list).deep_view() == old(list).deep_view().push(text@),
{
    list.push(text.to_owned());
    assert(list.deep_view() =~= old(list).deep_view().push(text@));
}

impl Pattern {
    /// The detector made of a name, an already compiled matcher and a
    /// severity; `None` where there is no matcher.
    pub fn from_compiled(name: &str, regex: Option<Regex>, severity: Severity) -> (p: Option<
        Pattern,
    >)
        ensures
            match regex {
                Some(re) => p matches Some(q) && q@ == (Detector {
                    name: name@,
                    regex: re,
                    severity,
                }),
                None => p is None,
            },
    {
        match regex {
            Some(re) => Some(Pattern { name: name.to_owned(), regex: re, severity }),
            None => None,
        }
    }

    /// The detector for a pattern source; `None` where the matcher library
    /// rejects the source.
    pub fn new(name: &str, source: &str, severity: Severity) -> (p: Option<Pattern>)
        ensures
            match compiled(source@) {
                Some(re) => p matches Some(q) && q@ == (Detector {
                    name: name@,
                    regex: re,
                    severity,
                }),
                None => p is None,
            },
    {
        Pattern::from_compiled(name, compile(source), severity)
    }

    /// Where this detector's leftmost match in a line starts, as a byte
    /// offset; `None` where the line holds no match.
    pub fn find(&self, line: &str) -> (r: Option<usize>)
        ensures
            r == match_start(self.regex, line@),
            r matches Some(start) ==> start < usize::MAX,
    {
        find_start(&self.regex, line)
    }

    /// Adds the detector of one table entry to a registry.
    fn register(registry: &mut Vec<Pattern>, name: &str, source: &str, severity: Severity)
        ensures
            final(registry).deep_view() == with_entry(
                old(registry).deep_view(),
                name@,
                source@,
                severity,
            ),
    {
        match Pattern::new(name, source, severity) {
            Some(p) => {
                registry.push(p);
                assert(registry.deep_view() =~= old(registry).deep_view().push(p@));
            },
            None => {},
        }
    }

    /// The default detectors, in registry order.
    pub fn default_patterns() -> (patterns: Vec<Pattern>)
        ensures
            patterns.deep_view() == default_registry(),
    {
        let mut patterns: Vec<Pattern> = Vec::new();
        assert(patterns.deep_view() =~= Seq::<Detector>::empty());
        Pattern::register(&mut patterns, "HACK", "(?i)\\b(HACK|XXX)\\b", Severity::Critical);
        Pattern::register(&mut patterns, "FIXME", "(?i)\\bFIXME\\b", Severity::High);
        Pattern::register(&mut patterns, "TODO", "(?i)\\bTODO\\b", Severity::Medium);
        Pattern::register(
            &mut patterns,
            "NOTE_FIX",
            "(?i)\\bNOTE\\b.*\\bfix\\b",
            Severity::Medium,
        );
        Pattern::register(
            &mut patterns,
            "TEMPORARY",
            "(?i)\\b(temporary|temp|placeholder)\\b",
            Severity::High,
        );
        Pattern::register(&mut patterns, "MOCK_STUB", "(?i)\\b(mock|stub)\\b", Severity::Low);
        Pattern::register(
            &mut patterns,
            "PRODUCTION_DEBT",
            "(?i)\\b(temporary|placeholder|mock)\\b.*\\bproduction\\b",
            Severity::Critical,
        );
        patterns
    }

    /// The default file extensions.
    pub fn default_file_extensions() -> (extensions: Vec<String>)
        ensures
            extensions.deep_view() == default_extension_list(),
    {
        let mut v: Vec<String> = Vec::new();
        assert(v.deep_view() =~= Seq::<Seq<char>>::empty());
        push_text(&mut v, "rs");
        push_text(&mut v, "py");
        push_text(&mut v, "js");
        push_text(&mut v, "ts");
        push_text(&mut v, "jsx");
        push_text(&mut v, "tsx");
        push_text(&mut v, "go");
        push_text(&mut v, "java");
        push_text(&mut v, "c");
        push_text(&mut v, "cpp");
        push_text(&mut v, "cc");
        push_text(&mut v, "cxx");
        push_text(&mut v, "h");
        push_text(&mut v, "hpp");
        push_text(&mut v, "rb");
        push_text(&mut v, "php");
        push_text(&mut v, "cs");
        push_text(&mut v, "swift");
        push_text(&mut v, "kt");
        push_text(&mut v, "scala");
        push_text(&mut v, "clj");
        push_text(&mut v, "ml");
        push_text(&mut v, "hs");
        push_text(&mut v, "elm");
        push_text(&mut v, "dart");
        push_text(&mut v, "lua");
        push_text(&mut v, "pl");
        push_text(&mut v, "r");
        push_text(&mut v, "jl");
        push_text(&mut v, "nim");
        push_text(&mut v, "zig");
        push_text(&mut v, "v");
        push_text(&mut v, "cr");
        v
    }

    /// The default ignored directory names.
    pub fn default_ignore_dirs() -> (dirs: Vec<String>)
        ensures
            dirs.deep_view() == default_ignore_list(),
    {
        let mut v: Vec<String> = Vec::new();
        assert(v.deep_view() =~= Seq::<Seq<char>>::empty());
        push_text(&mut v, "node_modules");
        push_text(&mut v, ".git");
        push_text(&mut v, "target");
        push_text(&mut v, "dist");
        push_text(&mut v, "build");
        push_text(&mut v, ".next");
        push_text(&mut v, "vendor");
        push_text(&mut v, "__pycache__");
        push_text(&mut v, ".pytest_cache");
        push_text(&mut v, "coverage");
        push_text(&mut v, ".nyc_output");
        push_text(&mut v, "bower_components");
        v
    }
}

} // verus!
