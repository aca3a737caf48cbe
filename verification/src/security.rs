//! Security gate: best-effort static inspection of a candidate native
//! library before it is loaded.
//!
//! The runner gathers the raw observations — the file's size, the
//! printable strings found in the binary, the names of its dynamic
//! symbols — and this module makes every decision: which findings the
//! scan yields, and which of them are fatal. The scan is a deterrent,
//! not a security boundary.

use vstd::prelude::*;
use crate::errors::PluginError;
use crate::strutil::match_at;
use crate::strutil::starts_with;
use crate::strutil::starts_with_spec;
use crate::strutil::str_eq;
use crate::strutil::find_str;

verus! {

/// Whether the regular expression `pattern` matches anywhere in `text`.
/// The result is a function of the two arguments alone.
pub uninterp spec fn regex_match(pattern: Seq<char>, text: Seq<char>) -> bool;

/// Relies on regex::Regex::new and regex::Regex::is_match: whether the
/// pattern matches anywhere in the text. A pattern that does not
/// compile matches nothing.
#[verifier::external_body]
fn line_matches(pattern: &str, text: &str) -> (r: bool)
    ensures
        r == regex_match(pattern@, text@),
{
    match regex::Regex::new(pattern) {
        Ok(re) => re.is_match(text),
        Err(_) => false,
    }
}

/// `p` occurs somewhere in `s`.
pub open spec fn contains_spec(s: Seq<char>, p: Seq<char>) -> bool {
    exists|i: int| match_at(s, p, i)
}

/// Does `p` occur somewhere in `s`?
pub fn contains_str(s: &str, p: &str) -> (r: bool)
    ensures
        r == contains_spec(s@, p@),
{
    match find_str(s, p) {
        Some(i) => {
            assert(match_at(s@, p@, i as int));
            true
        },
        None => false,
    }
}

/// The one denylist pattern whose findings are fatal: a textual
/// unsafe-block marker in the binary.
pub fn unsafe_marker() -> (r: &'static str)
    ensures
        r@ == "unsafe\\s+\\{"@,
{
    "unsafe\\s+\\{"
}

/// Findings of this pattern reject the library outright.
pub open spec fn is_fatal_pattern(p: Seq<char>) -> bool {
    p == "unsafe\\s+\\{"@
}

/// One observation of the scan.
pub struct SecurityFinding {
    /// The denylist pattern that matched, or empty for an import
    /// finding.
    pub pattern: String,
    /// The matching line, or the suspicious symbol name.
    pub detail: String,
    /// Whether this finding rejects the library.
    pub fatal: bool,
}

/// A symbol name is suspicious when it does not carry any allowed
/// namespace and is not a private (underscore) symbol.
pub open spec fn import_suspicious(sym: Seq<char>, allowed: Seq<Seq<char>>) -> bool {
    !starts_with_spec(sym, "_"@) && !(exists|k: int|
        0 <= k < allowed.len() && contains_spec(sym, allowed[k]))
}

/// Some pattern matches some line and is fatal.
pub open spec fn has_fatal_match(patterns: Seq<Seq<char>>, lines: Seq<Seq<char>>) -> bool {
    exists|i: int, j: int|
        0 <= i < patterns.len() && 0 <= j < lines.len() && #[trigger] regex_match(
            patterns[i],
            lines[j],
        ) && is_fatal_pattern(patterns[i])
}

/// The views of a vector of strings.
pub open spec fn views_of(v: Seq<String>) -> Seq<Seq<char>> {
    Seq::new(v.len(), |i: int| v[i]@)
}

/// The finding records a (pattern, line) pair that really matches.
pub open spec fn finding_witnessed(
    f: SecurityFinding,
    patterns: Seq<Seq<char>>,
    lines: Seq<Seq<char>>,
) -> bool {
    exists|i: int, j: int|
        0 <= i < patterns.len() && 0 <= j < lines.len() && #[trigger] regex_match(
            patterns[i],
            lines[j],
        ) && f.pattern@ == patterns[i] && f.detail@ == lines[j]
}

/// Some finding records this (pattern, line) pair.
pub open spec fn match_reported(
    r: Seq<SecurityFinding>,
    pattern: Seq<char>,
    line: Seq<char>,
) -> bool {
    exists|f: int| 0 <= f < r.len() && (#[trigger] r[f]).pattern@ == pattern && r[f].detail@ == line
}

/// Some finding records this suspicious symbol.
pub open spec fn symbol_reported(r: Seq<SecurityFinding>, sym: Seq<char>) -> bool {
    exists|f: int| 0 <= f < r.len() && (#[trigger] r[f]).detail@ == sym
}

/// The finding records a symbol that really is suspicious.
pub open spec fn import_finding_witnessed(
    f: SecurityFinding,
    symbols: Seq<Seq<char>>,
    allowed: Seq<Seq<char>>,
) -> bool {
    exists|b: int|
        0 <= b < symbols.len() && import_suspicious(#[trigger] symbols[b], allowed) && f.detail@
            == symbols[b]
}

/// Best-effort validator for candidate plugin libraries.
pub struct PluginSecurityValidator {
    max_file_size: u64,
    allowed_imports: Vec<String>,
    patterns: Vec<String>,
    enabled: bool,
}

impl PluginSecurityValidator {
    /// The file-size ceiling.
    pub closed spec fn spec_max_file_size(&self) -> u64 {
        self.max_file_size
    }

    /// The allow-list of import namespaces.
    pub closed spec fn spec_allowed_imports(&self) -> Seq<Seq<char>> {
        views_of(self.allowed_imports@)
    }

    /// The denylist patterns.
    pub closed spec fn spec_patterns(&self) -> Seq<Seq<char>> {
        views_of(self.patterns@)
    }

    /// Whether validation runs at all.
    pub closed spec fn spec_enabled(&self) -> bool {
        self.enabled
    }

    /// The default denylist.
    pub open spec fn default_patterns() -> Seq<Seq<char>> {
        seq![
            "std::process::Command"@,
            "::Command::new"@,
            "std::fs::remove_"@,
            "\\.write_all\\("@,
            "TcpStream::connect"@,
            "reqwest::"@,
            "unsafe\\s+\\{"@,
            "eval\\("@,
            "sh -c"@,
            "bash -c"@,
            "std::env::var"@,
            "\\.wait\\(\\)"@,
        ]
    }

    /// The default allow-list.
    pub open spec fn default_allowed_imports() -> Seq<Seq<char>> {
        seq![
            "std"@,
            "shellbe_plugin_sdk"@,
            "serde"@,
            "serde_json"@,
            "async_trait"@,
            "chrono"@,
            "tokio"@,
            "clap"@,
            "tracing"@,
        ]
    }

    /// A validator with the default ceiling, allow-list and denylist.
    pub fn default() -> (r: Self)
        ensures
            r.spec_enabled(),
            r.spec_max_file_size() == 10485760u64,
            r.spec_allowed_imports() =~= Self::default_allowed_imports(),
            r.spec_patterns() =~= Self::default_patterns(),
    {
        let mut allowed_imports: Vec<String> = Vec::new();
        allowed_imports.push("std".to_owned());
        allowed_imports.push("shellbe_plugin_sdk".to_owned());
        allowed_imports.push("serde".to_owned());
        allowed_imports.push("serde_json".to_owned());
        allowed_imports.push("async_trait".to_owned());
        allowed_imports.push("chrono".to_owned());
        allowed_imports.push("tokio".to_owned());
        allowed_imports.push("clap".to_owned());
        allowed_imports.push("tracing".to_owned());
        let mut patterns: Vec<String> = Vec::new();
        patterns.push("std::process::Command".to_owned());
        patterns.push("::Command::new".to_owned());
        patterns.push("std::fs::remove_".to_owned());
        patterns.push("\\.write_all\\(".to_owned());
        patterns.push("TcpStream::connect".to_owned());
        patterns.push("reqwest::".to_owned());
        patterns.push("unsafe\\s+\\{".to_owned());
        patterns.push("eval\\(".to_owned());
        patterns.push("sh -c".to_owned());
        patterns.push("bash -c".to_owned());
        patterns.push("std::env::var".to_owned());
        patterns.push("\\.wait\\(\\)".to_owned());
        PluginSecurityValidator { max_file_size: 10485760, allowed_imports, patterns, enabled: true }
    }

    /// A validator with a custom ceiling and extra allowed imports on
    /// top of the defaults.
    pub fn new(max_file_size: u64, allowed_imports: Vec<String>, enabled: bool) -> (r: Self)
        ensures
            r.spec_enabled() == enabled,
            r.spec_max_file_size() == max_file_size,
            r.spec_patterns() =~= Self::default_patterns(),
            r.spec_allowed_imports() =~= Self::default_allowed_imports() + views_of(
                allowed_imports@,
            ),
    {
        let mut v = Self::default();
        v.max_file_size = max_file_size;
        v.enabled = enabled;
        let ghost base = views_of(v.allowed_imports@);
        let extra = allowed_imports;
        let mut i: usize = 0;
        while i < extra.len()
            invariant
                i <= extra@.len(),
                v.allowed_imports@.len() == base.len() + i,
                forall|c: int|
                    0 <= c < base.len() ==> views_of(v.allowed_imports@)[c] == base[c],
                forall|c: int|
                    0 <= c < i ==> views_of(v.allowed_imports@)[base.len() + c] == extra@[c]@,
                v.max_file_size == max_file_size,
                v.enabled == enabled,
                views_of(v.patterns@) =~= Self::default_patterns(),
            decreases extra@.len() - i,
        {
            v.allowed_imports.push(extra[i].clone());
            i += 1;
        }
        proof {
            assert(views_of(v.allowed_imports@) =~= base + views_of(extra@));
            assert(base =~= Self::default_allowed_imports());
        }
        v
    }

    /// Whether validation is enabled.
    pub fn is_enabled(&self) -> (r: bool)
        ensures
            r == self.spec_enabled(),
    {
        self.enabled
    }

    /// Switch validation on or off.
    pub fn set_enabled(&mut self, enabled: bool)
        ensures
            final (self).spec_enabled() == enabled,
            final (self).spec_max_file_size() == old(self).spec_max_file_size(),
            final (self).spec_allowed_imports() == old(self).spec_allowed_imports(),
            final (self).spec_patterns() == old(self).spec_patterns(),
    {
        self.enabled = enabled;
    }

    /// Allow one more import namespace.
    pub fn add_allowed_import(&mut self, import: &str)
        ensures
            final (self).spec_allowed_imports() =~= old(self).spec_allowed_imports().push(
                import@,
            ),
            final (self).spec_enabled() == old(self).spec_enabled(),
            final (self).spec_max_file_size() == old(self).spec_max_file_size(),
            final (self).spec_patterns() == old(self).spec_patterns(),
    {
        self.allowed_imports.push(import.to_owned());
    }

    /// Change the file-size ceiling.
    pub fn set_max_file_size(&mut self, max_size: u64)
        ensures
            final (self).spec_max_file_size() == max_size,
            final (self).spec_enabled() == old(self).spec_enabled(),
            final (self).spec_allowed_imports() == old(self).spec_allowed_imports(),
            final (self).spec_patterns() == old(self).spec_patterns(),
    {
        self.max_file_size = max_size;
    }

    /// Reject a library over the size ceiling.
    pub fn check_file_size(&self, file_size: u64) -> (r: Result<(), PluginError>)
        ensures
            r is Ok <==> file_size <= self.spec_max_file_size(),
            r is Err ==> r->Err_0 is SecurityViolation,
    {
        if file_size > self.max_file_size {
            Err(PluginError::SecurityViolation("Plugin library exceeds the size ceiling".to_owned()))
        } else {
            Ok(())
        }
    }

    /// Scan the binary's printable strings against the denylist. Every
    /// matching (pattern, line) pair yields a finding, and nothing
    /// else does; a finding is fatal exactly when its pattern is the
    /// unsafe-code marker.
    pub fn check_suspicious_patterns(&self, lines: &Vec<String>) -> (r: Vec<SecurityFinding>)
        ensures
            forall|f: int|
                0 <= f < r@.len() ==> finding_witnessed(
                    #[trigger] r@[f],
                    self.spec_patterns(),
                    views_of(lines@),
                ),
            forall|i: int, j: int|
                0 <= i < self.spec_patterns().len() && 0 <= j < lines@.len()
                    && #[trigger] regex_match(self.spec_patterns()[i], lines@[j]@)
                    ==> match_reported(r@, self.spec_patterns()[i], lines@[j]@),
            forall|f: int|
                0 <= f < r@.len() ==> (#[trigger] r@[f]).fatal == is_fatal_pattern(
                    r@[f].pattern@,
                ),
    {
        let mut out: Vec<SecurityFinding> = Vec::new();
        let mut i: usize = 0;
        while i < self.patterns.len()
            invariant
                i <= self.patterns@.len(),
                forall|f: int|
                    0 <= f < out@.len() ==> finding_witnessed(
                        #[trigger] out@[f],
                        self.spec_patterns(),
                        views_of(lines@),
                    ),
                forall|a: int, b: int|
                    0 <= a < i && 0 <= b < lines@.len() && #[trigger] regex_match(
                        self.spec_patterns()[a],
                        lines@[b]@,
                    ) ==> match_reported(out@, self.spec_patterns()[a], lines@[b]@),
                forall|f: int|
                    0 <= f < out@.len() ==> (#[trigger] out@[f]).fatal == is_fatal_pattern(
                        out@[f].pattern@,
                    ),
            decreases self.patterns@.len() - i,
        {
            let mut j: usize = 0;
            while j < lines.len()
                invariant
                    i < self.patterns@.len(),
                    j <= lines@.len(),
                    forall|f: int|
                        0 <= f < out@.len() ==> finding_witnessed(
                            #[trigger] out@[f],
                            self.spec_patterns(),
                            views_of(lines@),
                        ),
                    forall|a: int, b: int|
                        0 <= a < i && 0 <= b < lines@.len() && #[trigger] regex_match(
                            self.spec_patterns()[a],
                            lines@[b]@,
                        ) ==> match_reported(out@, self.spec_patterns()[a], lines@[b]@),
                    forall|b: int|
                        0 <= b < j && #[trigger] regex_match(
                            self.spec_patterns()[i as int],
                            lines@[b]@,
                        ) ==> match_reported(out@, self.spec_patterns()[i as int], lines@[b]@),
                    forall|f: int|
                        0 <= f < out@.len() ==> (#[trigger] out@[f]).fatal == is_fatal_pattern(
                            out@[f].pattern@,
                        ),
                decreases lines@.len() - j,
            {
                let ghost pre = out@;
                if line_matches(self.patterns[i].as_str(), lines[j].as_str()) {
                    let fatal = str_eq(self.patterns[i].as_str(), unsafe_marker());
                    let finding = SecurityFinding {
                        pattern: self.patterns[i].clone(),
                        detail: lines[j].clone(),
                        fatal,
                    };
                    out.push(finding);
                    proof {
                        assert(self.spec_patterns()[i as int] == self.patterns@[i as int]@);
                        assert(views_of(lines@)[j as int] == lines@[j as int]@);
                        assert(regex_match(
                            self.spec_patterns()[i as int],
                            views_of(lines@)[j as int],
                        ));
                        assert(out@[out@.len() - 1].pattern@ == self.spec_patterns()[i as int]);
                        assert(out@[out@.len() - 1].detail@ == views_of(lines@)[j as int]);
                        assert(finding_witnessed(
                            out@[out@.len() - 1],
                            self.spec_patterns(),
                            views_of(lines@),
                        ));
                        assert(forall|f: int|
                            0 <= f < pre.len() ==> out@[f] == pre[f]);
                        assert(forall|p: Seq<char>, l: Seq<char>|
                            match_reported(pre, p, l) ==> match_reported(out@, p, l));
                        assert(match_reported(
                            out@,
                            self.spec_patterns()[i as int],
                            lines@[j as int]@,
                        ));
                    }
                }
                j += 1;
            }
            i += 1;
        }
        out
    }

    /// Scan the binary's dynamic symbols against the allow-list. A
    /// symbol yields a (non-fatal) finding exactly when it is
    /// suspicious: no allowed namespace occurs in it and it is not a
    /// private underscore symbol.
    pub fn check_imports(&self, symbols: &Vec<String>) -> (r: Vec<SecurityFinding>)
        ensures
            forall|f: int|
                0 <= f < r@.len() ==> import_finding_witnessed(
                    #[trigger] r@[f],
                    views_of(symbols@),
                    self.spec_allowed_imports(),
                ),
            forall|b: int|
                0 <= b < symbols@.len() && import_suspicious(
                    #[trigger] symbols@[b]@,
                    self.spec_allowed_imports(),
                ) ==> symbol_reported(r@, symbols@[b]@),
            forall|f: int| 0 <= f < r@.len() ==> !(#[trigger] r@[f]).fatal,
    {
        let mut out: Vec<SecurityFinding> = Vec::new();
        let mut b: usize = 0;
        while b < symbols.len()
            invariant
                b <= symbols@.len(),
                forall|f: int|
                    0 <= f < out@.len() ==> import_finding_witnessed(
                        #[trigger] out@[f],
                        views_of(symbols@),
                        self.spec_allowed_imports(),
                    ),
                forall|c: int|
                    0 <= c < b && import_suspicious(
                        #[trigger] symbols@[c]@,
                        self.spec_allowed_imports(),
                    ) ==> symbol_reported(out@, symbols@[c]@),
                forall|f: int| 0 <= f < out@.len() ==> !(#[trigger] out@[f]).fatal,
            decreases symbols@.len() - b,
        {
            let sym = &symbols[b];
            let private = starts_with(sym.as_str(), "_");
            let mut allowed: bool = false;
            let mut k: usize = 0;
            while k < self.allowed_imports.len()
                invariant
                    k <= self.allowed_imports@.len(),
                    b < symbols@.len(),
                    sym == symbols[b as int],
                    allowed ==> exists|a: int|
                        0 <= a < self.spec_allowed_imports().len() && contains_spec(
                            sym@,
                            #[trigger] self.spec_allowed_imports()[a],
                        ),
                    !allowed ==> forall|a: int|
                        0 <= a < k ==> !contains_spec(
                            sym@,
                            #[trigger] self.spec_allowed_imports()[a],
                        ),
                decreases self.allowed_imports@.len() - k,
            {
                if contains_str(sym.as_str(), self.allowed_imports[k].as_str()) {
                    proof {
                        assert(self.spec_allowed_imports()[k as int]
                            == self.allowed_imports@[k as int]@);
                        assert(contains_spec(sym@, self.spec_allowed_imports()[k as int]));
                    }
                    allowed = true;
                }
                k += 1;
            }
            let ghost pre = out@;
            if !allowed && !private {
                assert(import_suspicious(sym@, self.spec_allowed_imports()));
                out.push(
                    SecurityFinding { pattern: String::new(), detail: sym.clone(), fatal: false },
                );
                proof {
                    assert(views_of(symbols@)[b as int] == symbols@[b as int]@);
                    assert(import_finding_witnessed(
                        out@[out@.len() - 1],
                        views_of(symbols@),
                        self.spec_allowed_imports(),
                    ));
                    assert(forall|f: int| 0 <= f < pre.len() ==> out@[f] == pre[f]);
                    assert(forall|s: Seq<char>|
                        symbol_reported(pre, s) ==> symbol_reported(out@, s));
                }
            } else {
                assert(!import_suspicious(sym@, self.spec_allowed_imports()));
            }
            b += 1;
        }
        out
    }

    /// Validate a candidate library from the runner's observations:
    /// the file's size, the printable strings of the binary, and its
    /// dynamic symbol names. With validation disabled everything
    /// passes and nothing is scanned. Otherwise the library is
    /// rejected exactly when it exceeds the size ceiling or when some
    /// fatal denylist pattern matches some line; everything else comes
    /// back as non-blocking findings.
    pub fn validate(&self, file_size: u64, string_lines: &Vec<String>, symbols: &Vec<String>)
        -> (r: Result<Vec<SecurityFinding>, PluginError>)
        ensures
            !self.spec_enabled() ==> r is Ok && r->Ok_0@.len() == 0,
            self.spec_enabled() ==> (r is Err <==> (file_size > self.spec_max_file_size()
                || has_fatal_match(self.spec_patterns(), views_of(string_lines@)))),
            r is Err ==> r->Err_0 is SecurityViolation,
            r is Ok ==> forall|f: int| 0 <= f < r->Ok_0@.len() ==> !(#[trigger] r->Ok_0@[f]).fatal,
            self.spec_enabled() && r is Ok ==> forall|i: int, j: int|
                0 <= i < self.spec_patterns().len() && 0 <= j < string_lines@.len()
                    && #[trigger] regex_match(self.spec_patterns()[i], string_lines@[j]@)
                    ==> match_reported(r->Ok_0@, self.spec_patterns()[i], string_lines@[j]@),
            self.spec_enabled() && r is Ok ==> forall|b: int|
                0 <= b < symbols@.len() && import_suspicious(
                    #[trigger] symbols@[b]@,
                    self.spec_allowed_imports(),
                ) ==> symbol_reported(r->Ok_0@, symbols@[b]@),
            self.spec_enabled() && r is Ok ==> forall|f: int|
                0 <= f < r->Ok_0@.len() ==> finding_witnessed(
                    #[trigger] r->Ok_0@[f],
                    self.spec_patterns(),
                    views_of(string_lines@),
                ) || import_finding_witnessed(
                    r->Ok_0@[f],
                    views_of(symbols@),
                    self.spec_allowed_imports(),
                ),
    {
        if !self.enabled {
            return Ok(Vec::new());
        }
        let sized = self.check_file_size(file_size);
        match sized {
            Err(e) => {
                return Err(e);
            },
            Ok(_) => (),
        }
        let pattern_findings = self.check_suspicious_patterns(string_lines);
        let import_findings = self.check_imports(symbols);
        let mut fatal_found: bool = false;
        let mut f: usize = 0;
        while f < pattern_findings.len()
            invariant
                f <= pattern_findings@.len(),
                fatal_found ==> exists|g: int|
                    0 <= g < pattern_findings@.len() && (#[trigger] pattern_findings@[g]).fatal,
                !fatal_found ==> forall|g: int|
                    0 <= g < f ==> !(#[trigger] pattern_findings@[g]).fatal,
            decreases pattern_findings@.len() - f,
        {
            if pattern_findings[f].fatal {
                fatal_found = true;
            }
            f += 1;
        }
        if fatal_found {
            proof {
                self.lemma_fatal_finding_means_fatal_match(pattern_findings@, string_lines@);
            }
            return Err(
                PluginError::SecurityViolation(
                    "Plugin contains potentially unsafe code".to_owned(),
                ),
            );
        }
        proof {
            self.lemma_no_fatal_finding_means_no_fatal_match(pattern_findings@, string_lines@);
        }
        let all = pattern_findings;
        let ghost base = all@;
        let mut all = all;
        let mut g: usize = 0;
        while g < import_findings.len()
            invariant
                g <= import_findings@.len(),
                all@.len() == base.len() + g,
                forall|h: int| 0 <= h < base.len() ==> all@[h] == base[h],
                forall|h: int| 0 <= h < g ==> all@[base.len() + h] == import_findings@[h],
                forall|h: int| 0 <= h < base.len() ==> !(#[trigger] base[h]).fatal,
                forall|h: int|
                    0 <= h < import_findings@.len() ==> !(#[trigger] import_findings@[h]).fatal,
            decreases import_findings@.len() - g,
        {
            all.push(
                SecurityFinding {
                    pattern: import_findings[g].pattern.clone(),
                    detail: import_findings[g].detail.clone(),
                    fatal: import_findings[g].fatal,
                },
            );
            proof {
                assert(all@[base.len() + g] == import_findings@[g as int]);
            }
            g += 1;
        }
        proof {
            assert forall|h: int| 0 <= h < all@.len() implies !(#[trigger] all@[h]).fatal by {
                if h < base.len() {
                    assert(all@[h] == base[h]);
                } else {
                    assert(all@[h] == import_findings@[h - base.len()]);
                }
            }
            assert forall|p: Seq<char>, l: Seq<char>|
                match_reported(base, p, l) implies match_reported(all@, p, l) by {
                let f = choose|f: int|
                    0 <= f < base.len() && (#[trigger] base[f]).pattern@ == p && base[f].detail@
                        == l;
                assert(all@[f] == base[f]);
            }
            assert forall|s: Seq<char>|
                symbol_reported(import_findings@, s) implies symbol_reported(all@, s) by {
                let f = choose|f: int|
                    0 <= f < import_findings@.len() && (#[trigger] import_findings@[f]).detail@
                        == s;
                assert(all@[base.len() + f] == import_findings@[f]);
            }
            assert forall|h: int|
                0 <= h < all@.len() implies finding_witnessed(
                #[trigger] all@[h],
                self.spec_patterns(),
                views_of(string_lines@),
            ) || import_finding_witnessed(
                all@[h],
                views_of(symbols@),
                self.spec_allowed_imports(),
            ) by {
                if h < base.len() {
                    assert(all@[h] == base[h]);
                } else {
                    assert(all@[h] == import_findings@[h - base.len()]);
                }
            }
            assert forall|b: int|
                0 <= b < symbols@.len() && import_suspicious(
                    #[trigger] symbols@[b]@,
                    self.spec_allowed_imports(),
                ) implies symbol_reported(all@, symbols@[b]@) by {
                assert(symbol_reported(import_findings@, symbols@[b]@));
            }
        }
        Ok(all)
    }

    /// A fatal finding of the pattern scan witnesses a fatal match.
    proof fn lemma_fatal_finding_means_fatal_match(
        &self,
        findings: Seq<SecurityFinding>,
        lines: Seq<String>,
    )
        requires
            exists|g: int| 0 <= g < findings.len() && (#[trigger] findings[g]).fatal,
            forall|f: int|
                0 <= f < findings.len() ==> finding_witnessed(
                    #[trigger] findings[f],
                    self.spec_patterns(),
                    views_of(lines),
                ),
            forall|f: int|
                0 <= f < findings.len() ==> (#[trigger] findings[f]).fatal == is_fatal_pattern(
                    findings[f].pattern@,
                ),
        ensures
            has_fatal_match(self.spec_patterns(), views_of(lines)),
    {
        let g = choose|g: int| 0 <= g < findings.len() && (#[trigger] findings[g]).fatal;
        assert(finding_witnessed(findings[g], self.spec_patterns(), views_of(lines)));
        let (i, j) = choose|i: int, j: int|
            0 <= i < self.spec_patterns().len() && 0 <= j < views_of(lines).len()
                && #[trigger] regex_match(self.spec_patterns()[i], views_of(lines)[j])
                && findings[g].pattern@ == self.spec_patterns()[i] && findings[g].detail@
                == views_of(lines)[j];
        assert(is_fatal_pattern(self.spec_patterns()[i]));
    }

    /// Without a fatal finding of the pattern scan there is no fatal
    /// match.
    proof fn lemma_no_fatal_finding_means_no_fatal_match(
        &self,
        findings: Seq<SecurityFinding>,
        lines: Seq<String>,
    )
        requires
            forall|g: int| 0 <= g < findings.len() ==> !(#[trigger] findings[g]).fatal,
            forall|i: int, j: int|
                0 <= i < self.spec_patterns().len() && 0 <= j < lines.len()
                    && #[trigger] regex_match(self.spec_patterns()[i], lines[j]@)
                    ==> match_reported(findings, self.spec_patterns()[i], lines[j]@),
            forall|f: int|
                0 <= f < findings.len() ==> (#[trigger] findings[f]).fatal == is_fatal_pattern(
                    findings[f].pattern@,
                ),
        ensures
            !has_fatal_match(self.spec_patterns(), views_of(lines)),
    {
        if has_fatal_match(self.spec_patterns(), views_of(lines)) {
            let (i, j) = choose|i: int, j: int|
                0 <= i < self.spec_patterns().len() && 0 <= j < views_of(lines).len()
                    && #[trigger] regex_match(self.spec_patterns()[i], views_of(lines)[j])
                    && is_fatal_pattern(self.spec_patterns()[i]);
            assert(views_of(lines)[j] == lines[j]@);
            assert(match_reported(findings, self.spec_patterns()[i], lines[j]@));
            let f = choose|f: int|
                0 <= f < findings.len() && (#[trigger] findings[f]).pattern@
                    == self.spec_patterns()[i] && findings[f].detail@ == lines[j]@;
            assert(findings[f].fatal);
        }
    }
}

} // verus!
