//! Snapshot creation and content hashing, session ids and session branch names.

use vstd::prelude::*;
use vstd::utf8::encode_utf8;

use sha2::{Digest, Sha256};

use crate::context::{Context, IntentKind, IntentSpec, RiskLevel, SemanticUnit, Snapshot, SnapshotKind};
use crate::text::{
    chars_of, decimal, has_prefix, decimal_string, is_alphanumeric, is_whitespace, is_ws, join, joined,
    push_str, string_of, take_chars, first_chars, to_lowercase, alphanumeric, lowercase,
    views_of,
};

verus! {

// ─── Hex encoding ────────────────────────────────────────────

/// The lowercase hexadecimal digit of `d`.
pub open spec fn hex_digit(d: nat) -> char {
    seq!['0', '1', '2', '3', '4', '5', '6', '7', '8', '9', 'a', 'b', 'c', 'd', 'e', 'f'][d as int]
}

/// Bytes written as two lowercase hex digits each, as `format!("{b:02x}")` writes them.
pub open spec fn hex(bytes: Seq<u8>) -> Seq<char>
    decreases bytes.len(),
{
    if bytes.len() == 0 {
        Seq::empty()
    } else {
        hex(bytes.drop_last()).push(hex_digit((bytes.last() / 16) as nat)).push(
            hex_digit((bytes.last() % 16) as nat),
        )
    }
}

fn hex_char(d: u8) -> (c: char)
    requires
        d < 16,
    ensures
        c == hex_digit(d as nat),
{
    if d < 10 {
        if d == 0 { '0' }
        else if d == 1 { '1' }
        else if d == 2 { '2' }
        else if d == 3 { '3' }
        else if d == 4 { '4' }
        else if d == 5 { '5' }
        else if d == 6 { '6' }
        else if d == 7 { '7' }
        else if d == 8 { '8' }
        else { '9' }
    } else {
        if d == 10 { 'a' }
        else if d == 11 { 'b' }
        else if d == 12 { 'c' }
        else if d == 13 { 'd' }
        else if d == 14 { 'e' }
        else { 'f' }
    }
}

/// The first `n` bytes of `bytes` in hex.
fn hex_prefix(bytes: &[u8], n: usize) -> (s: String)
    requires
        n <= bytes@.len(),
    ensures
        s@ == hex(bytes@.take(n as int)),
{
    let mut v: Vec<char> = Vec::new();
    let mut i: usize = 0;
    while i < n
        invariant
            i <= n <= bytes@.len(),
            v@ == hex(bytes@.take(i as int)),
        decreases n - i,
    {
        let b = bytes[i];
        proof {
            assert(bytes@.take(i + 1).drop_last() =~= bytes@.take(i as int));
        }
        v.push(hex_char(b / 16));
        v.push(hex_char(b % 16));
        i = i + 1;
    }
    string_of(&v)
}

/// Lowercase hex of all the bytes.
pub fn hex_encode(bytes: &[u8]) -> (s: String)
    ensures
        s@ == hex(bytes@),
{
    proof {
        assert(bytes@.take(bytes@.len() as int) =~= bytes@);
    }
    hex_prefix(bytes, bytes.len())
}

/// Lowercase hex of the first `n` bytes (of all of them, when there are fewer).
pub fn hex_encode_first_n(bytes: &[u8], n: usize) -> (s: String)
    ensures
        s@ == hex(bytes@.take(if n <= bytes@.len() { n as int } else { bytes@.len() as int })),
{
    if n <= bytes.len() {
        hex_prefix(bytes, n)
    } else {
        hex_prefix(bytes, bytes.len())
    }
}

// ─── Hashing ─────────────────────────────────────────────────

/// What SHA-256 gives for `data`.
pub uninterp spec fn sha256(data: Seq<u8>) -> Seq<u8>;

/// Calls `sha2::Sha256`: a fresh hasher fed `data`, finalized. The contract names the
/// digest `sha256(data)` and states that it is 32 bytes long.
#[verifier::external_body]
fn sha256_digest(data: &[u8]) -> (d: Vec<u8>)
    ensures
        d@ == sha256(data@),
        d@.len() == 32,
{
    let mut hasher = Sha256::new();
    hasher.update(data);
    hasher.finalize().to_vec()
}

/// The content hash of a text: SHA-256 of its UTF-8 bytes, in lowercase hex.
pub open spec fn content_hash(text: Seq<char>) -> Seq<char> {
    hex(sha256(encode_utf8(text)))
}

/// The session id for a prompt and base commit: `s_` and the first 8 hex digits of
/// SHA-256 over the prompt's bytes followed by the commit's bytes.
pub open spec fn session_id_of(prompt: Seq<char>, base_commit: Seq<char>) -> Seq<char> {
    "s_"@ + hex(sha256(encode_utf8(prompt) + encode_utf8(base_commit)).take(4))
}

/// Whether `c` is a lowercase hexadecimal digit.
pub open spec fn is_lower_hex(c: char) -> bool {
    ('0' <= c <= '9') || ('a' <= c <= 'f')
}

/// Hex text is two digits per byte, each a lowercase hex digit (so never `-`).
pub proof fn lemma_hex_shape(bytes: Seq<u8>)
    ensures
        hex(bytes).len() == 2 * bytes.len(),
        forall|i: int| 0 <= i < hex(bytes).len() ==> #[trigger] is_lower_hex(hex(bytes)[i]),
        forall|i: int| 0 <= i < hex(bytes).len() ==> #[trigger] hex(bytes)[i] != '-',
    decreases bytes.len(),
{
    if bytes.len() > 0 {
        lemma_hex_shape(bytes.drop_last());
        let b = bytes.last();
        lemma_hex_digit((b / 16) as nat);
        lemma_hex_digit((b % 16) as nat);
        let h = hex(bytes);
        let h0 = hex(bytes.drop_last());
        assert forall|i: int| 0 <= i < h.len() implies #[trigger] is_lower_hex(h[i]) by {
            if i < h0.len() {
                assert(h[i] == h0[i]);
            }
        }
    }
}

proof fn lemma_hex_digit(d: nat)
    requires
        d < 16,
    ensures
        is_lower_hex(hex_digit(d)),
{
    assert(is_lower_hex(
        seq!['0', '1', '2', '3', '4', '5', '6', '7', '8', '9', 'a', 'b', 'c', 'd', 'e', 'f'][d as int],
    ));
}

/// Generate a session ID.
/// Format: s_ + first 8 hex chars of SHA256(prompt + base_commit)
pub fn compute_session_id(prompt: &str, base_commit: &str) -> (id: String)
    ensures
        id@ == session_id_of(prompt@, base_commit@),
        id@.len() == 10,
        has_prefix(id@, "s_"@),
        forall|i: int| 0 <= i < id@.len() ==> #[trigger] id@[i] != '-',
{
    let mut data: Vec<u8> = Vec::new();
    data.extend_from_slice(prompt.as_bytes());
    data.extend_from_slice(base_commit.as_bytes());
    assert(data@ =~= encode_utf8(prompt@) + encode_utf8(base_commit@));
    let digest = sha256_digest(data.as_slice());
    let mut id = String::from_str("s_");
    let h = hex_encode_first_n(digest.as_slice(), 4);
    push_str(&mut id, h.as_str());
    proof {
        reveal_strlit("s_");
        lemma_hex_shape(digest@.take(4));
        assert(id@.take(2) =~= "s_"@);
        assert forall|i: int| 0 <= i < id@.len() implies #[trigger] id@[i] != '-' by {
            if i >= 2 {
                assert(id@[i] == h@[i - 2]);
            }
        }
    }
    id
}


// ─── Branch names ────────────────────────────────────────────

/// Whether a prompt character is kept in a branch slug: alphanumerics, `-`, `_`, space.
pub open spec fn slug_keeps(c: char) -> bool {
    alphanumeric(c) || c == '-' || c == '_' || c == ' '
}

/// The characters of `s` that a slug keeps, in order.
pub open spec fn slug_chars(s: Seq<char>) -> Seq<char>
    decreases s.len(),
{
    if s.len() == 0 {
        Seq::empty()
    } else if slug_keeps(s.last()) {
        slug_chars(s.drop_last()).push(s.last())
    } else {
        slug_chars(s.drop_last())
    }
}

/// `s` cut at every white-space character; `k` of them give `k + 1` pieces.
pub open spec fn split_ws(s: Seq<char>) -> Seq<Seq<char>>
    decreases s.len(),
{
    if s.len() == 0 {
        seq![Seq::<char>::empty()]
    } else {
        let r = split_ws(s.drop_last());
        if is_ws(s.last()) {
            r.push(Seq::<char>::empty())
        } else {
            r.update(r.len() - 1, r.last().push(s.last()))
        }
    }
}

/// The non-empty pieces, in order.
pub open spec fn nonempty(ws: Seq<Seq<char>>) -> Seq<Seq<char>>
    decreases ws.len(),
{
    if ws.len() == 0 {
        Seq::empty()
    } else if ws.last().len() > 0 {
        nonempty(ws.drop_last()).push(ws.last())
    } else {
        nonempty(ws.drop_last())
    }
}

/// The white-space separated words of `s`, as `split_whitespace` yields them.
pub open spec fn words_of(s: Seq<char>) -> Seq<Seq<char>> {
    nonempty(split_ws(s))
}

proof fn lemma_split_ws_len(s: Seq<char>)
    ensures
        split_ws(s).len() >= 1,
    decreases s.len(),
{
    if s.len() > 0 {
        lemma_split_ws_len(s.drop_last());
    }
}

/// The slug of a prompt: its kept characters, words joined by `-`, lowercased, and cut
/// to 30 characters.
pub open spec fn slug_of(prompt: Seq<char>) -> Seq<char> {
    first_chars(lowercase(joined(words_of(slug_chars(prompt)), "-"@)), 30)
}

/// The session branch: `cx/<sid>-<slug>`.
pub open spec fn branch_name_of(sid: Seq<char>, prompt: Seq<char>) -> Seq<char> {
    "cx/"@ + sid + "-"@ + slug_of(prompt)
}

/// The kept characters of a prompt.
fn keep_slug_chars(prompt: &str) -> (v: Vec<char>)
    ensures
        v@ == slug_chars(prompt@),
{
    let p = chars_of(prompt);
    let mut v: Vec<char> = Vec::new();
    let mut i: usize = 0;
    while i < p.len()
        invariant
            i <= p.len(),
            v@ == slug_chars(p@.take(i as int)),
        decreases p.len() - i,
    {
        let c = p[i];
        proof {
            assert(p@.take(i + 1).drop_last() =~= p@.take(i as int));
        }
        if is_alphanumeric(c) || c == '-' || c == '_' || c == ' ' {
            v.push(c);
        }
        i = i + 1;
    }
    assert(p@.take(p.len() as int) =~= p@);
    v
}

/// The white-space separated words of a character sequence.
fn split_words(s: &Vec<char>) -> (ws: Vec<String>)
    ensures
        views_of(ws@) == words_of(s@),
{
    let mut ws: Vec<String> = Vec::new();
    let mut cur: Vec<char> = Vec::new();
    let mut i: usize = 0;
    while i < s.len()
        invariant
            i <= s.len(),
            split_ws(s@.take(i as int)).len() >= 1,
            split_ws(s@.take(i as int)).last() == cur@,
            nonempty(split_ws(s@.take(i as int)).drop_last()) == views_of(ws@),
        decreases s.len() - i,
    {
        let c = s[i];
        let ghost sp = split_ws(s@.take(i as int));
        proof {
            assert(s@.take(i + 1).drop_last() =~= s@.take(i as int));
        }
        if is_whitespace(c) {
            let ghost sp2 = sp.push(Seq::<char>::empty());
            assert(sp2.drop_last() =~= sp);
            if cur.len() > 0 {
                let w = string_of(&cur);
                let ghost before = views_of(ws@);
                ws.push(w);
                assert(views_of(ws@) =~= before.push(cur@));
            }
            cur = Vec::new();
        } else {
            let ghost sp2 = sp.update(sp.len() - 1, sp.last().push(c));
            assert(sp2.drop_last() =~= sp.drop_last());
            cur.push(c);
        }
        i = i + 1;
    }
    assert(s@.take(s.len() as int) =~= s@);
    if cur.len() > 0 {
        let w = string_of(&cur);
        let ghost before = views_of(ws@);
        ws.push(w);
        assert(views_of(ws@) =~= before.push(cur@));
    }
    ws
}

/// Generate a branch name.
pub fn session_branch_name(sid: &str, prompt: &str) -> (b: String)
    ensures
        b@ == branch_name_of(sid@, prompt@),
{
    let kept = keep_slug_chars(prompt);
    let words = split_words(&kept);
    let dashed = join(&words, "-");
    let lower = to_lowercase(dashed.as_str());
    let slug = take_chars(lower.as_str(), 30);
    let mut b = String::from_str("cx/");
    push_str(&mut b, sid);
    push_str(&mut b, "-");
    push_str(&mut b, slug.as_str());
    b
}


// ─── Canonical JSON ──────────────────────────────────────────

/// How `serde_json` writes one character inside a JSON string: `"`, `\` and the
/// control characters below U+0020 are escaped (`\b \t \n \f \r`, else `\u00XX` in
/// lowercase hex); every other character is written as it is.
pub open spec fn json_escape(c: char) -> Seq<char> {
    let u = c as u32;
    if c == '"' {
        seq!['\\', '"']
    } else if c == '\\' {
        seq!['\\', '\\']
    } else if u == 0x08 {
        seq!['\\', 'b']
    } else if u == 0x09 {
        seq!['\\', 't']
    } else if u == 0x0a {
        seq!['\\', 'n']
    } else if u == 0x0c {
        seq!['\\', 'f']
    } else if u == 0x0d {
        seq!['\\', 'r']
    } else if u < 0x20 {
        seq!['\\', 'u', '0', '0', hex_digit((u / 16) as nat), hex_digit((u % 16) as nat)]
    } else {
        seq![c]
    }
}

/// The characters of `s`, each as `json_escape` writes it.
pub open spec fn json_escaped(s: Seq<char>) -> Seq<char>
    decreases s.len(),
{
    if s.len() == 0 {
        Seq::empty()
    } else {
        json_escaped(s.drop_last()) + json_escape(s.last())
    }
}

/// What `serde_json::to_string` writes for a string: the escaped characters in quotes.
pub open spec fn json_string(s: Seq<char>) -> Seq<char> {
    seq!['"'] + json_escaped(s) + seq!['"']
}

/// Calls `serde_json::to_string` on a string slice. The contract states what its source
/// writes for a `str` (`format_escaped_str` with the compact formatter): the string in
/// quotes, escaped as `json_escape` says. Writing a `str` into a `Vec` cannot fail (the
/// source has no error path for it), so the default of `unwrap_or_default` is never taken.
#[verifier::external_body]
fn json_quote(s: &str) -> (q: String)
    ensures
        q@ == json_string(s@),
{
    serde_json::to_string(s).unwrap_or_default()
}

/// A JSON array of strings, written compactly.
pub open spec fn json_list(items: Seq<Seq<char>>) -> Seq<char> {
    "["@ + joined(items.map_values(|x: Seq<char>| json_string(x)), ","@) + "]"@
}

/// An optional string in JSON: `null` or the string.
pub open spec fn json_option(o: Option<String>) -> Seq<char> {
    match o {
        Some(s) => json_string(s@),
        None => "null"@,
    }
}

/// A snapshot kind in JSON: its variant name as a string.
pub open spec fn kind_json(k: SnapshotKind) -> Seq<char> {
    match k {
        SnapshotKind::Manual => "\"Manual\""@,
        SnapshotKind::AiSession => "\"AiSession\""@,
        SnapshotKind::AutoSave => "\"AutoSave\""@,
    }
}

/// An intent kind in JSON: its variant name as a string.
pub open spec fn intent_json(k: IntentKind) -> Seq<char> {
    match k {
        IntentKind::Refactor => "\"Refactor\""@,
        IntentKind::Feature => "\"Feature\""@,
        IntentKind::Fix => "\"Fix\""@,
        IntentKind::Style => "\"Style\""@,
        IntentKind::Docs => "\"Docs\""@,
        IntentKind::Dependency => "\"Dependency\""@,
        IntentKind::Test => "\"Test\""@,
        IntentKind::Chore => "\"Chore\""@,
    }
}

/// A risk level in JSON: its variant name as a string.
pub open spec fn risk_json(r: RiskLevel) -> Seq<char> {
    match r {
        RiskLevel::Low => "\"Low\""@,
        RiskLevel::Medium => "\"Medium\""@,
        RiskLevel::High => "\"High\""@,
    }
}

/// A semantic unit in compact JSON, fields in declaration order.
pub open spec fn unit_json(u: SemanticUnit) -> Seq<char> {
    "{\"intent\":"@ + intent_json(u.intent) + ",\"scope\":"@ + json_string(u.scope@)
        + ",\"description\":"@ + json_string(u.description@) + ",\"risk\":"@ + risk_json(u.risk)
        + ",\"affected_files\":"@ + json_list(views_of(u.affected_files@)) + "}"@
}

/// A snapshot in compact JSON with `sid` in place of its own id, fields in declaration
/// order, as `serde_json::to_string` writes the derived serialization.
pub open spec fn snapshot_json_with(sid: Seq<char>, s: Snapshot) -> Seq<char> {
    "{\"sid\":"@ + json_string(sid) + ",\"parents\":"@ + json_list(views_of(s.parents@))
        + ",\"kind\":"@ + kind_json(s.kind) + ",\"context\":{\"prompt\":"@ + json_string(
        s.context.prompt@,
    ) + ",\"conversation_summary\":"@ + json_option(s.context.conversation_summary)
        + ",\"turn_index\":"@ + decimal(s.context.turn_index as nat) + "},\"semantic_units\":["@
        + joined(s.semantic_units@.map_values(|u: SemanticUnit| unit_json(u)), ","@)
        + "],\"author\":"@ + json_string(s.author@) + ",\"timestamp\":"@ + json_string(
        s.timestamp@,
    ) + "}"@
}

/// The canonical JSON of a snapshot.
pub open spec fn snapshot_json(s: Snapshot) -> Seq<char> {
    snapshot_json_with(s.sid@, s)
}

/// A JSON array of the strings.
fn json_list_string(items: &Vec<String>) -> (r: String)
    ensures
        r@ == json_list(views_of(items@)),
{
    let mut quoted: Vec<String> = Vec::new();
    let mut i: usize = 0;
    while i < items.len()
        invariant
            i <= items.len(),
            views_of(quoted@) == views_of(items@).take(i as int).map_values(
                |x: Seq<char>| json_string(x),
            ),
        decreases items.len() - i,
    {
        let q = json_quote(items[i].as_str());
        let ghost before = views_of(quoted@);
        quoted.push(q);
        assert(views_of(quoted@) =~= before.push(q@));
        assert(views_of(items@).take(i + 1).map_values(|x: Seq<char>| json_string(x))
            =~= views_of(items@).take(i as int).map_values(|x: Seq<char>| json_string(x)).push(
            json_string(items@[i as int]@),
        ));
        i = i + 1;
    }
    assert(views_of(items@).take(items.len() as int) =~= views_of(items@));
    let inner = join(&quoted, ",");
    let mut r = String::from_str("[");
    push_str(&mut r, inner.as_str());
    push_str(&mut r, "]");
    r
}

fn kind_json_string(k: SnapshotKind) -> (r: String)
    ensures
        r@ == kind_json(k),
{
    match k {
        SnapshotKind::Manual => String::from_str("\"Manual\""),
        SnapshotKind::AiSession => String::from_str("\"AiSession\""),
        SnapshotKind::AutoSave => String::from_str("\"AutoSave\""),
    }
}

fn intent_json_string(k: IntentKind) -> (r: String)
    ensures
        r@ == intent_json(k),
{
    match k {
        IntentKind::Refactor => String::from_str("\"Refactor\""),
        IntentKind::Feature => String::from_str("\"Feature\""),
        IntentKind::Fix => String::from_str("\"Fix\""),
        IntentKind::Style => String::from_str("\"Style\""),
        IntentKind::Docs => String::from_str("\"Docs\""),
        IntentKind::Dependency => String::from_str("\"Dependency\""),
        IntentKind::Test => String::from_str("\"Test\""),
        IntentKind::Chore => String::from_str("\"Chore\""),
    }
}

fn risk_json_string(r: RiskLevel) -> (s: String)
    ensures
        s@ == risk_json(r),
{
    match r {
        RiskLevel::Low => String::from_str("\"Low\""),
        RiskLevel::Medium => String::from_str("\"Medium\""),
        RiskLevel::High => String::from_str("\"High\""),
    }
}

/// The compact JSON of a semantic unit.
fn unit_json_string(u: &SemanticUnit) -> (r: String)
    ensures
        r@ == unit_json(*u),
{
    let mut r = String::from_str("{\"intent\":");
    push_str(&mut r, intent_json_string(u.intent).as_str());
    push_str(&mut r, ",\"scope\":");
    push_str(&mut r, json_quote(u.scope.as_str()).as_str());
    push_str(&mut r, ",\"description\":");
    push_str(&mut r, json_quote(u.description.as_str()).as_str());
    push_str(&mut r, ",\"risk\":");
    push_str(&mut r, risk_json_string(u.risk).as_str());
    push_str(&mut r, ",\"affected_files\":");
    push_str(&mut r, json_list_string(&u.affected_files).as_str());
    push_str(&mut r, "}");
    r
}

/// The compact JSON of a snapshot, with its own id.
pub fn canonical_json(s: &Snapshot) -> (r: String)
    ensures
        r@ == snapshot_json(*s),
{
    let mut units: Vec<String> = Vec::new();
    let mut i: usize = 0;
    while i < s.semantic_units.len()
        invariant
            i <= s.semantic_units.len(),
            views_of(units@) == s.semantic_units@.take(i as int).map_values(
                |u: SemanticUnit| unit_json(u),
            ),
        decreases s.semantic_units.len() - i,
    {
        let j = unit_json_string(&s.semantic_units[i]);
        let ghost before = views_of(units@);
        units.push(j);
        assert(views_of(units@) =~= before.push(j@));
        assert(s.semantic_units@.take(i + 1).map_values(|u: SemanticUnit| unit_json(u))
            =~= s.semantic_units@.take(i as int).map_values(|u: SemanticUnit| unit_json(u)).push(
            unit_json(s.semantic_units@[i as int]),
        ));
        i = i + 1;
    }
    assert(s.semantic_units@.take(s.semantic_units.len() as int) =~= s.semantic_units@);
    let mut r = String::from_str("{\"sid\":");
    push_str(&mut r, json_quote(s.sid.as_str()).as_str());
    push_str(&mut r, ",\"parents\":");
    push_str(&mut r, json_list_string(&s.parents).as_str());
    push_str(&mut r, ",\"kind\":");
    push_str(&mut r, kind_json_string(s.kind).as_str());
    push_str(&mut r, ",\"context\":{\"prompt\":");
    push_str(&mut r, json_quote(s.context.prompt.as_str()).as_str());
    push_str(&mut r, ",\"conversation_summary\":");
    match &s.context.conversation_summary {
        Some(c) => push_str(&mut r, json_quote(c.as_str()).as_str()),
        None => push_str(&mut r, "null"),
    }
    push_str(&mut r, ",\"turn_index\":");
    push_str(&mut r, decimal_string(s.context.turn_index as u64).as_str());
    push_str(&mut r, "},\"semantic_units\":[");
    push_str(&mut r, join(&units, ",").as_str());
    push_str(&mut r, "],\"author\":");
    push_str(&mut r, json_quote(s.author.as_str()).as_str());
    push_str(&mut r, ",\"timestamp\":");
    push_str(&mut r, json_quote(s.timestamp.as_str()).as_str());
    push_str(&mut r, "}");
    r
}

/// Compute snapshot content hash (SHA256 of canonical JSON).
pub fn compute_sid(snapshot: &Snapshot) -> (sid: String)
    ensures
        sid@ == content_hash(snapshot_json(*snapshot)),
        sid@.len() == 64,
        forall|i: int| 0 <= i < sid@.len() ==> #[trigger] is_lower_hex(sid@[i]),
{
    let canonical = canonical_json(snapshot);
    let digest = sha256_digest(canonical.as_str().as_bytes());
    proof {
        lemma_hex_shape(digest@);
    }
    hex_encode(digest.as_slice())
}

/// Create a new Snapshot; its id is the content hash of its canonical JSON taken with
/// an empty id.
pub fn create_snapshot(
    parents: Vec<String>,
    kind: SnapshotKind,
    prompt: String,
    turn_index: u32,
    semantic_units: Vec<SemanticUnit>,
    author: String,
    timestamp: String,
) -> (s: Snapshot)
    ensures
        s.parents == parents,
        s.kind == kind,
        s.context.prompt == prompt,
        s.context.conversation_summary is None,
        s.context.turn_index == turn_index,
        s.semantic_units == semantic_units,
        s.author == author,
        s.timestamp == timestamp,
        s.sid@ == content_hash(snapshot_json_with(Seq::empty(), s)),
        s.sid@.len() == 64,
        forall|i: int| 0 <= i < s.sid@.len() ==> #[trigger] is_lower_hex(s.sid@[i]),
{
    let context = Context { prompt, conversation_summary: None, turn_index };
    let mut snapshot = Snapshot {
        sid: String::new(),
        parents,
        kind,
        context,
        semantic_units,
        author,
        timestamp,
    };
    snapshot.sid = compute_sid(&snapshot);
    snapshot
}

/// Build a SemanticUnit from intent spec and file list.
pub fn build_semantic_unit(spec: &IntentSpec, description: String, affected_files: Vec<String>) -> (u: SemanticUnit)
    ensures
        u.intent == spec.kind,
        u.scope@ == spec.scope@,
        u.description == description,
        u.risk == spec.risk,
        u.affected_files == affected_files,
{
    SemanticUnit {
        intent: spec.kind,
        scope: spec.scope.clone(),
        description,
        risk: spec.risk,
        affected_files,
    }
}

} // verus!
