//! The data model: snapshots, their context, semantic units, intents and session metadata,
//! and the parser of the `--intent` argument.

use vstd::prelude::*;

use crate::text::{
    chars_of, concat, find_char, find_in, lemma_find_char, push_str, slice_chars, split_chars,
    split_on, to_lowercase, trim, trimmed, lowercase,
};

verus! {

// ─── Snapshot ────────────────────────────────────────────────

/// Core type: a recorded change snapshot.
#[derive(Debug, Clone)]
pub struct Snapshot {
    /// Content hash (SHA256 of canonical JSON)
    pub sid: String,
    /// Parent snapshot IDs (first is the base commit on main)
    pub parents: Vec<String>,
    /// Snapshot kind
    pub kind: SnapshotKind,
    /// Change context
    pub context: Context,
    /// Semantic units list
    pub semantic_units: Vec<SemanticUnit>,
    /// Author
    pub author: String,
    /// ISO 8601 timestamp
    pub timestamp: String,
}

/// Snapshot kind.
#[derive(Debug, Clone, Copy, PartialEq, Eq, Structural)]
pub enum SnapshotKind {
    Manual,
    AiSession,
    AutoSave,
}

// ─── Context ─────────────────────────────────────────────────

/// Change context: describes why a change was made.
#[derive(Debug, Clone)]
pub struct Context {
    /// The requirement that triggered this change
    pub prompt: String,
    /// Conversation summary (optional)
    pub conversation_summary: Option<String>,
    /// Turn index within the session
    pub turn_index: u32,
}

// ─── SemanticUnit ────────────────────────────────────────────

/// Semantic unit: smallest change unit grouped by intent.
#[derive(Debug, Clone)]
pub struct SemanticUnit {
    /// Intent kind
    pub intent: IntentKind,
    /// Scope, e.g. "user_module", "login_page"
    pub scope: String,
    /// One-line description
    pub description: String,
    /// Risk level
    pub risk: RiskLevel,
    /// Affected files
    pub affected_files: Vec<String>,
}

/// Intent kind.
#[derive(Debug, Clone, Copy, PartialEq, Eq, Structural)]
pub enum IntentKind {
    Refactor,
    Feature,
    Fix,
    Style,
    Docs,
    Dependency,
    Test,
    Chore,
}

/// The result of a parse, with the error message taken by its view.
pub open spec fn outcome<T>(r: Result<T, String>) -> Result<T, Seq<char>> {
    match r {
        Ok(t) => Ok(t),
        Err(e) => Err(e@),
    }
}

impl IntentKind {
    /// The lowercase word that names the kind.
    pub open spec fn word(self) -> Seq<char> {
        match self {
            IntentKind::Refactor => "refactor"@,
            IntentKind::Feature => "feature"@,
            IntentKind::Fix => "fix"@,
            IntentKind::Style => "style"@,
            IntentKind::Docs => "docs"@,
            IntentKind::Dependency => "dependency"@,
            IntentKind::Test => "test"@,
            IntentKind::Chore => "chore"@,
        }
    }

    /// The kind that a lowercase word names, if any.
    pub open spec fn named(w: Seq<char>) -> Option<IntentKind> {
        if w == "refactor"@ {
            Some(IntentKind::Refactor)
        } else if w == "feature"@ {
            Some(IntentKind::Feature)
        } else if w == "fix"@ {
            Some(IntentKind::Fix)
        } else if w == "style"@ {
            Some(IntentKind::Style)
        } else if w == "docs"@ {
            Some(IntentKind::Docs)
        } else if w == "dependency"@ {
            Some(IntentKind::Dependency)
        } else if w == "test"@ {
            Some(IntentKind::Test)
        } else if w == "chore"@ {
            Some(IntentKind::Chore)
        } else {
            None
        }
    }

    /// What parsing `s` as a kind gives: the kind whose word is the lowercase of `s`, else
    /// the message `unknown intent kind: <s>`.
    pub open spec fn parsed(s: Seq<char>) -> Result<IntentKind, Seq<char>> {
        match IntentKind::named(lowercase(s)) {
            Some(k) => Ok(k),
            None => Err("unknown intent kind: "@ + s),
        }
    }

    /// The kind's name, as it is displayed.
    pub fn to_string(&self) -> (s: String)
        ensures
            s@ == self.word(),
    {
        match self {
            IntentKind::Refactor => String::from_str("refactor"),
            IntentKind::Feature => String::from_str("feature"),
            IntentKind::Fix => String::from_str("fix"),
            IntentKind::Style => String::from_str("style"),
            IntentKind::Docs => String::from_str("docs"),
            IntentKind::Dependency => String::from_str("dependency"),
            IntentKind::Test => String::from_str("test"),
            IntentKind::Chore => String::from_str("chore"),
        }
    }

    /// Parses an intent kind, ignoring letter case.
    pub fn from_str(s: &str) -> (r: Result<IntentKind, String>)
        ensures
            outcome(r) == IntentKind::parsed(s@),
    {
        let l = to_lowercase(s);
        if l == String::from_str("refactor") {
            Ok(IntentKind::Refactor)
        } else if l == String::from_str("feature") {
            Ok(IntentKind::Feature)
        } else if l == String::from_str("fix") {
            Ok(IntentKind::Fix)
        } else if l == String::from_str("style") {
            Ok(IntentKind::Style)
        } else if l == String::from_str("docs") {
            Ok(IntentKind::Docs)
        } else if l == String::from_str("dependency") {
            Ok(IntentKind::Dependency)
        } else if l == String::from_str("test") {
            Ok(IntentKind::Test)
        } else if l == String::from_str("chore") {
            Ok(IntentKind::Chore)
        } else {
            Err(concat("unknown intent kind: ", s))
        }
    }
}

/// Risk level.
#[derive(Debug, Clone, Copy, PartialEq, Eq, Structural)]
pub enum RiskLevel {
    Low,
    Medium,
    High,
}

impl RiskLevel {
    /// The lowercase word that names the level.
    pub open spec fn word(self) -> Seq<char> {
        match self {
            RiskLevel::Low => "low"@,
            RiskLevel::Medium => "medium"@,
            RiskLevel::High => "high"@,
        }
    }

    /// The level that a lowercase word names, if any.
    pub open spec fn named(w: Seq<char>) -> Option<RiskLevel> {
        if w == "low"@ {
            Some(RiskLevel::Low)
        } else if w == "medium"@ {
            Some(RiskLevel::Medium)
        } else if w == "high"@ {
            Some(RiskLevel::High)
        } else {
            None
        }
    }

    /// What parsing `s` as a risk level gives.
    pub open spec fn parsed(s: Seq<char>) -> Result<RiskLevel, Seq<char>> {
        match RiskLevel::named(lowercase(s)) {
            Some(r) => Ok(r),
            None => Err("unknown risk level: "@ + s),
        }
    }

    /// The level's name, as it is displayed.
    pub fn to_string(&self) -> (s: String)
        ensures
            s@ == self.word(),
    {
        match self {
            RiskLevel::Low => String::from_str("low"),
            RiskLevel::Medium => String::from_str("medium"),
            RiskLevel::High => String::from_str("high"),
        }
    }

    /// Parses a risk level, ignoring letter case.
    pub fn from_str(s: &str) -> (r: Result<RiskLevel, String>)
        ensures
            outcome(r) == RiskLevel::parsed(s@),
    {
        let l = to_lowercase(s);
        if l == String::from_str("low") {
            Ok(RiskLevel::Low)
        } else if l == String::from_str("medium") {
            Ok(RiskLevel::Medium)
        } else if l == String::from_str("high") {
            Ok(RiskLevel::High)
        } else {
            Err(concat("unknown risk level: ", s))
        }
    }
}

// ─── Session metadata ────────────────────────────────────────

/// Session status.
#[derive(Debug, Clone, Copy, PartialEq, Eq, Structural)]
pub enum SessionStatus {
    Active,
    Merged,
    Abandoned,
}

impl SessionStatus {
    /// The lowercase word that names the status.
    pub open spec fn word(self) -> Seq<char> {
        match self {
            SessionStatus::Active => "active"@,
            SessionStatus::Merged => "merged"@,
            SessionStatus::Abandoned => "abandoned"@,
        }
    }

    /// The status's name, as it is displayed.
    pub fn to_string(&self) -> (s: String)
        ensures
            s@ == self.word(),
    {
        match self {
            SessionStatus::Active => String::from_str("active"),
            SessionStatus::Merged => String::from_str("merged"),
            SessionStatus::Abandoned => String::from_str("abandoned"),
        }
    }
}

/// Session metadata (.cx/sessions/<sid>/meta.json).
#[derive(Debug, Clone)]
pub struct SessionMeta {
    pub id: String,
    pub branch: String,
    pub prompt: String,
    pub conversation_summary: Option<String>,
    pub author: String,
    pub status: SessionStatus,
    pub created_at: String,
    pub base_branch: String,
    pub base_commit: String,
    /// Snapshot count (maintained by storage layer)
    pub snapshot_count: u32,
}

// ─── IntentSpec (parse --intent argument) ─────────────────────

/// Parsed intent specification.
#[derive(Debug, Clone)]
pub struct IntentSpec {
    pub kind: IntentKind,
    pub scope: String,
    pub risk: RiskLevel,
}

impl IntentSpec {
    /// The displayed form: `<kind> (scope: <scope>, risk: <risk>)`.
    pub open spec fn shown(self) -> Seq<char> {
        self.kind.word() + " (scope: "@ + self.scope@ + ", risk: "@ + self.risk.word() + ")"@
    }

    /// The intent as it is displayed.
    pub fn to_string(&self) -> (s: String)
        ensures
            s@ == self.shown(),
    {
        let mut s = self.kind.to_string();
        push_str(&mut s, " (scope: ");
        push_str(&mut s, self.scope.as_str());
        push_str(&mut s, ", risk: ");
        push_str(&mut s, self.risk.to_string().as_str());
        push_str(&mut s, ")");
        s
    }
}

/// What the parser has gathered so far: the kind (if seen), the scope, the risk.
pub type IntentAcc = (Option<IntentKind>, Seq<char>, RiskLevel);

/// One comma-separated part of an `--intent` value, applied to what was gathered.
/// Parts are trimmed; empty parts are skipped; `key=value` sets `scope` or `risk`
/// (any other key is an error); the first bare value is the kind, a second is an error.
pub open spec fn intent_step(acc: IntentAcc, raw: Seq<char>) -> Result<IntentAcc, Seq<char>> {
    let part = trimmed(raw);
    if part.len() == 0 {
        Ok(acc)
    } else {
        match find_char(part, '=') {
            Some(eq) => {
                let key = part.take(eq as int);
                let val = part.skip(eq as int + 1);
                if key == "scope"@ {
                    Ok((acc.0, val, acc.2))
                } else if key == "risk"@ {
                    match RiskLevel::parsed(val) {
                        Ok(r) => Ok((acc.0, acc.1, r)),
                        Err(e) => Err(e),
                    }
                } else {
                    Err("unknown intent key: "@ + key)
                }
            },
            None => {
                if acc.0 is None {
                    match IntentKind::parsed(part) {
                        Ok(k) => Ok((Some(k), acc.1, acc.2)),
                        Err(e) => Err(e),
                    }
                } else {
                    Err("unexpected bare value: "@ + part)
                }
            },
        }
    }
}

/// The parts applied in order; the first error stops.
pub open spec fn intent_fold(parts: Seq<Seq<char>>, acc: IntentAcc) -> Result<IntentAcc, Seq<char>>
    decreases parts.len(),
{
    if parts.len() == 0 {
        Ok(acc)
    } else {
        match intent_step(acc, parts[0]) {
            Ok(a) => intent_fold(parts.drop_first(), a),
            Err(e) => Err(e),
        }
    }
}

/// What `parse_intent_spec` gives for `s`: kind, scope and risk, or the error message.
/// The scope defaults to empty and the risk to low; a missing kind is an error.
pub open spec fn parsed_intent(s: Seq<char>) -> Result<(IntentKind, Seq<char>, RiskLevel), Seq<char>> {
    match intent_fold(split_on(s, ','), (None, Seq::<char>::empty(), RiskLevel::Low)) {
        Ok(acc) => match acc.0 {
            Some(k) => Ok((k, acc.1, acc.2)),
            None => Err("missing intent type (e.g. feature)"@),
        },
        Err(e) => Err(e),
    }
}

/// The view of a parse result.
pub open spec fn intent_outcome(r: Result<IntentSpec, String>) -> Result<(IntentKind, Seq<char>, RiskLevel), Seq<char>> {
    match r {
        Ok(spec) => Ok((spec.kind, spec.scope@, spec.risk)),
        Err(e) => Err(e@),
    }
}

proof fn lemma_fold_skip(parts: Seq<Seq<char>>, i: int, acc: IntentAcc)
    requires
        0 <= i < parts.len(),
    ensures
        intent_fold(parts.skip(i), acc) == match intent_step(acc, parts[i]) {
            Ok(a) => intent_fold(parts.skip(i + 1), a),
            Err(e) => Err(e),
        },
{
    assert(parts.skip(i).drop_first() =~= parts.skip(i + 1));
}

/// Parse the "--intent" argument value.
/// Format: type,scope=x[,risk=low]
/// First value without `=` is treated as the intent type.
pub fn parse_intent_spec(spec: &str) -> (r: Result<IntentSpec, String>)
    ensures
        intent_outcome(r) == parsed_intent(spec@),
{
    let parts = split_chars(spec, ',');
    let ghost ps = split_on(spec@, ',');
    let mut kind: Option<IntentKind> = None;
    let mut scope = String::new();
    let mut risk = RiskLevel::Low;
    let ghost init: IntentAcc = (None, Seq::<char>::empty(), RiskLevel::Low);
    assert(ps.skip(0) =~= ps);
    let mut i: usize = 0;
    while i < parts.len()
        invariant
            parts@.map_values(|p: String| p@) == ps,
            ps == split_on(spec@, ','),
            init == (None::<IntentKind>, Seq::<char>::empty(), RiskLevel::Low),
            i <= parts.len(),
            intent_fold(ps, init) == intent_fold(ps.skip(i as int), (kind, scope@, risk)),
        decreases parts.len() - i,
    {
        proof {
            lemma_fold_skip(ps, i as int, (kind, scope@, risk));
        }
        assert(parts@[i as int]@ == ps[i as int]);
        let part = trim(parts[i].as_str());
        let v = chars_of(part.as_str());
        if v.len() == 0 {
            i = i + 1;
            continue;
        }
        match find_in(&v, '=') {
            Some(eq) => {
                proof {
                    lemma_find_char(v@, '=');
                }
                let key = slice_chars(&v, 0, eq);
                let val = slice_chars(&v, eq + 1, v.len());
                proof {
                    assert(key@ =~= part@.take(eq as int));
                    assert(val@ =~= part@.skip(eq + 1));
                }
                if key == String::from_str("scope") {
                    scope = val;
                } else if key == String::from_str("risk") {
                    match RiskLevel::from_str(val.as_str()) {
                        Ok(r) => {
                            risk = r;
                        },
                        Err(e) => {
                            return Err(e);
                        },
                    }
                } else {
                    return Err(concat("unknown intent key: ", key.as_str()));
                }
            },
            None => {
                if kind.is_none() {
                    match IntentKind::from_str(part.as_str()) {
                        Ok(k) => {
                            kind = Some(k);
                        },
                        Err(e) => {
                            return Err(e);
                        },
                    }
                } else {
                    assert(intent_step((kind, scope@, risk), ps[i as int]) == Err::<IntentAcc, Seq<char>>(
                        "unexpected bare value: "@ + part@,
                    ));
                    return Err(concat("unexpected bare value: ", part.as_str()));
                }
            },
        }
        i = i + 1;
    }
    assert(ps.skip(parts.len() as int) =~= Seq::<Seq<char>>::empty());
    match kind {
        Some(k) => Ok(IntentSpec { kind: k, scope, risk }),
        None => Err(String::from_str("missing intent type (e.g. feature)")),
    }
}

} // verus!
