//! Properties that relate several functions of the library.

use vstd::prelude::*;
use vstd::set_lib::{lemma_int_range, lemma_subset_equality, set_int_range};
use vstd::utf8::encode_utf8;

use crate::context::{
    intent_fold, intent_step, parsed_intent, IntentAcc, IntentKind, RiskLevel, Snapshot,
};
use crate::git_api::session_id_in;
use crate::order::{
    is_stable_order, lemma_text_lt_irreflexive, lemma_text_lt_transitive, sorts_before, text_lt,
};
use crate::session::{
    created_times, entry_times, loaded_snapshots, log_entries_of, log_entry_of, turn_of,
};
use crate::context::{SemanticUnit, SessionMeta};
use crate::display::{file_line, status_text, unit_header, unit_lines, units_lines};
use crate::session::SessionStatusInfo;
use crate::text::views_of;
use crate::snapshot::{
    branch_name_of, content_hash, hex, intent_json, json_escape, json_escaped, json_string,
    lemma_hex_shape, risk_json, session_id_of, sha256, slug_keeps, snapshot_json,
    snapshot_json_with,
};
use crate::store::{json_stems, saved_count, snapshot_file};
use crate::text::{
    all_ascii, ascii_lower, decimal, find_char, has_prefix, has_suffix, is_digit, is_ws,
    lemma_decimal_digits, lemma_find_char, lemma_split_on_free, lemma_split_on_next, parsed_u32,
    split_on, trim_back, trim_front, trimmed, unsigned_digits,
};

verus! {

/// The branch that a session is started on names the session: reading the session id
/// back from `cx/<sid>-<slug>` gives `<sid>`, for any id that begins with `s_` and has no
/// `-` in it (as every id from `compute_session_id` does).
pub proof fn law_branch_names_its_session(sid: Seq<char>, prompt: Seq<char>)
    requires
        has_prefix(sid, "s_"@),
        forall|i: int| 0 <= i < sid.len() ==> #[trigger] sid[i] != '-',
    ensures
        session_id_in(branch_name_of(sid, prompt)) == Some(sid),
{
    reveal_strlit("cx/");
    reveal_strlit("HEAD");
    reveal_strlit("-");
    let b = branch_name_of(sid, prompt);
    assert(b[0] == 'c');
    assert(b != "HEAD"@);
    assert(b.take(3) =~= "cx/"@);
    let after = b.skip(3);
    assert(after[sid.len() as int] == '-');
    assert forall|k: int| 0 <= k < sid.len() implies after[k] != '-' by {
        assert(after[k] == sid[k]);
    }
    lemma_find_char(after, '-');
    match find_char(after, '-') {
        Some(i) => {
            assert(i == sid.len());
            assert(after.take(i as int) =~= sid);
        },
        None => {
            assert(false);
        },
    }
}


/// A lowercase ASCII word is its own lowercase.
proof fn lemma_lower_word(w: Seq<char>)
    requires
        forall|i: int| 0 <= i < w.len() ==> 'a' <= #[trigger] w[i] <= 'z',
    ensures
        all_ascii(w),
        ascii_lower(w) == w,
{
    assert(ascii_lower(w) =~= w);
}

/// The name that an intent kind is displayed by parses back to that kind.
pub proof fn law_kind_name_parses_back(k: IntentKind)
    ensures
        IntentKind::parsed(k.word()) == Ok::<IntentKind, Seq<char>>(k),
{
    reveal_strlit("refactor");
    reveal_strlit("feature");
    reveal_strlit("fix");
    reveal_strlit("style");
    reveal_strlit("docs");
    reveal_strlit("dependency");
    reveal_strlit("test");
    reveal_strlit("chore");
    lemma_lower_word(k.word());
    let w = k.word();
    assert(w.len() != "refactor"@.len() || w[0] != 'r' ==> w != "refactor"@);
    assert(w.len() != "feature"@.len() || w[0] != 'f' ==> w != "feature"@);
    assert(w.len() != "fix"@.len() || w[0] != 'f' ==> w != "fix"@);
    assert(w.len() != "style"@.len() || w[0] != 's' ==> w != "style"@);
    assert(w.len() != "docs"@.len() || w[0] != 'd' ==> w != "docs"@);
    assert(w.len() != "dependency"@.len() || w[0] != 'd' ==> w != "dependency"@);
    assert(w.len() != "test"@.len() || w[0] != 't' ==> w != "test"@);
}

/// The name that a risk level is displayed by parses back to that level.
pub proof fn law_risk_name_parses_back(r: RiskLevel)
    ensures
        RiskLevel::parsed(r.word()) == Ok::<RiskLevel, Seq<char>>(r),
{
    reveal_strlit("low");
    reveal_strlit("medium");
    reveal_strlit("high");
    lemma_lower_word(r.word());
}

/// The snapshot of turn `t` is saved as `<t>.json`; listing that file gives back the name
/// `<t>`, and that name stands for turn `t` again.
pub proof fn law_turn_file_read_back(t: u32)
    ensures
        json_stems(seq![decimal(t as nat) + ".json"@]) == seq![decimal(t as nat)],
        parsed_u32(decimal(t as nat)) == Some(t),
        turn_of(decimal(t as nat)) == t,
{
    reveal_strlit(".json");
    let d = decimal(t as nat);
    lemma_decimal_digits(t as nat);
    let name = d + ".json"@;
    assert(name.skip(name.len() - 5) =~= ".json"@);
    assert(has_suffix(name, ".json"@));
    assert(name.take(name.len() - 5) =~= d);
    assert(seq![name].drop_last() =~= Seq::<Seq<char>>::empty());
    assert(seq![name].last() == name);
    assert(json_stems(Seq::<Seq<char>>::empty()) == Seq::<Seq<char>>::empty());
    assert(Seq::<Seq<char>>::empty().push(d) =~= seq![d]);
    assert(is_digit(d[0]));
    assert(unsigned_digits(d) == d);
}


/// A stable sort by key loses and repeats nothing, and puts the keys in order: `order`
/// lists every index of `keys` exactly once, and the keys it lists never go down. This is
/// what the listings of snapshots, log entries and sessions rest on.
pub proof fn law_sorted_listing_keeps_every_item(keys: Seq<Seq<char>>, order: Seq<usize>)
    requires
        is_stable_order(keys, order),
    ensures
        order.no_duplicates(),
        forall|i: int| 0 <= i < keys.len() ==> #[trigger] order.contains(i as usize),
        forall|a: int, b: int|
            0 <= a < b < order.len() ==> !text_lt(
                keys[#[trigger] order[b] as int],
                keys[#[trigger] order[a] as int],
            ),
{
    let n = keys.len();
    assert forall|a: int, b: int| 0 <= a < b < order.len() implies #[trigger] order[a] != #[trigger] order[b] by {
        assert(sorts_before(keys, order[a] as int, order[b] as int));
        lemma_text_lt_irreflexive(keys[order[a] as int]);
    }
    assert(order.no_duplicates());
    let ints = order.map_values(|x: usize| x as int);
    assert forall|a: int, b: int| 0 <= a < ints.len() && 0 <= b < ints.len() && a != b implies #[trigger] ints[a] != #[trigger] ints[b] by {
        assert(order[a] != order[b]);
    }
    assert(ints.no_duplicates());
    ints.unique_seq_to_set();
    lemma_int_range(0, n as int);
    assert forall|x: int| #[trigger] ints.to_set().contains(x) implies set_int_range(0, n as int).contains(x) by {
        assert(ints.contains(x));
        let a = choose|a: int| 0 <= a < ints.len() && ints[a] == x;
        assert(order[a] < n);
    }
    assert(ints.to_set().subset_of(set_int_range(0, n as int)));
    lemma_subset_equality(ints.to_set(), set_int_range(0, n as int));
    assert forall|i: int| 0 <= i < n implies #[trigger] order.contains(i as usize) by {
        assert(set_int_range(0, n as int).contains(i));
        assert(ints.to_set().contains(i));
        assert(ints.contains(i));
        let a = choose|a: int| 0 <= a < ints.len() && ints[a] == i;
        assert(order[a] == i as usize);
    }
    assert forall|a: int, b: int| 0 <= a < b < order.len() implies !text_lt(
        keys[#[trigger] order[b] as int],
        keys[#[trigger] order[a] as int],
    ) by {
        let ka = keys[order[a] as int];
        let kb = keys[order[b] as int];
        assert(sorts_before(keys, order[a] as int, order[b] as int));
        lemma_text_lt_irreflexive(ka);
        if text_lt(ka, kb) && text_lt(kb, ka) {
            lemma_text_lt_transitive(ka, kb, ka);
        }
    }
}


/// A word of lowercase letters is its own trimmed form and holds no `=` or `,`.
proof fn lemma_plain_word(w: Seq<char>)
    requires
        w.len() > 0,
        forall|i: int| 0 <= i < w.len() ==> 'a' <= #[trigger] w[i] <= 'z',
    ensures
        trimmed(w) == w,
        find_char(w, '=') is None,
        forall|i: int| 0 <= i < w.len() ==> #[trigger] w[i] != ',',
{
    assert(!is_ws(w[0]));
    assert(trim_front(w) == w);
    assert(!is_ws(w.last()));
    assert(trim_back(w) == w);
    lemma_find_char(w, '=');
    if find_char(w, '=') is Some {
        let i = find_char(w, '=').unwrap();
        assert('a' <= w[i as int] <= 'z');
    }
}

/// A part `key=value`, whose key holds no `=` and starts with no white space and whose
/// value ends with none, is its own trimmed form, with its first `=` after the key.
proof fn lemma_key_part(key: Seq<char>, val: Seq<char>)
    requires
        key.len() > 0,
        !is_ws(key[0]),
        forall|i: int| 0 <= i < key.len() ==> #[trigger] key[i] != '=',
        val.len() == 0 || !is_ws(val.last()),
    ensures
        trimmed(key + "="@ + val) == key + "="@ + val,
        find_char(key + "="@ + val, '=') == Some(key.len()),
{
    reveal_strlit("=");
    let p = key + "="@ + val;
    assert(p[0] == key[0]);
    assert(trim_front(p) == p);
    if val.len() == 0 {
        assert(p.last() == '=');
    } else {
        assert(p.last() == val.last());
    }
    assert(trim_back(p) == p);
    lemma_find_char(p, '=');
    assert(p[key.len() as int] == '=');
    match find_char(p, '=') {
        Some(i) => {
            if i < key.len() {
                assert(p[i as int] == key[i as int]);
            }
        },
        None => {},
    }
}

/// An intent written in the documented form `<type>,scope=<scope>,risk=<risk>` parses back
/// to that type, scope and risk, for any scope without a comma and without white space at
/// its end (which the parser trims away).
pub proof fn law_intent_spec_round_trip(k: IntentKind, scope: Seq<char>, r: RiskLevel)
    requires
        forall|i: int| 0 <= i < scope.len() ==> #[trigger] scope[i] != ',',
        scope.len() == 0 || !is_ws(scope.last()),
    ensures
        parsed_intent(k.word() + ",scope="@ + scope + ",risk="@ + r.word()) == Ok::<
            (IntentKind, Seq<char>, RiskLevel),
            Seq<char>,
        >((k, scope, r)),
{
    reveal_strlit(",scope=");
    reveal_strlit(",risk=");
    reveal_strlit("scope");
    reveal_strlit("risk");
    reveal_strlit("=");
    reveal_strlit("refactor");
    reveal_strlit("feature");
    reveal_strlit("fix");
    reveal_strlit("style");
    reveal_strlit("docs");
    reveal_strlit("dependency");
    reveal_strlit("test");
    reveal_strlit("chore");
    reveal_strlit("low");
    reveal_strlit("medium");
    reveal_strlit("high");
    let w = k.word();
    let rw = r.word();
    let p2 = "scope"@ + "="@ + scope;
    let p3 = "risk"@ + "="@ + rw;
    lemma_plain_word(w);
    lemma_plain_word(rw);
    assert(forall|i: int| 0 <= i < p2.len() ==> #[trigger] p2[i] != ',') by {
        assert forall|i: int| 0 <= i < p2.len() implies #[trigger] p2[i] != ',' by {
            if i >= 6 {
                assert(p2[i] == scope[i - 6]);
            }
        }
    }
    assert(forall|i: int| 0 <= i < p3.len() ==> #[trigger] p3[i] != ',') by {
        assert forall|i: int| 0 <= i < p3.len() implies #[trigger] p3[i] != ',' by {
            if i >= 5 {
                assert(p3[i] == rw[i - 5]);
            }
        }
    }
    let text = k.word() + ",scope="@ + scope + ",risk="@ + r.word();
    assert(text =~= w + seq![','] + p2 + seq![','] + p3);
    lemma_split_on_free(w, ',');
    lemma_split_on_next(w, p2, ',');
    lemma_split_on_next(w + seq![','] + p2, p3, ',');
    let parts = split_on(text, ',');
    assert(parts =~= seq![w, p2, p3]);
    // the type
    law_kind_name_parses_back(k);
    let a0: IntentAcc = (None, Seq::<char>::empty(), RiskLevel::Low);
    let a1: IntentAcc = (Some(k), Seq::<char>::empty(), RiskLevel::Low);
    assert(intent_step(a0, w) == Ok::<IntentAcc, Seq<char>>(a1));
    assert(parts.drop_first() =~= seq![p2, p3]);
    // the scope
    lemma_key_part("scope"@, scope);
    let a2: IntentAcc = (Some(k), scope, RiskLevel::Low);
    assert(p2.take(5) =~= "scope"@);
    assert(p2.skip(6) =~= scope);
    assert(intent_step(a1, p2) == Ok::<IntentAcc, Seq<char>>(a2));
    assert(seq![p2, p3].drop_first() =~= seq![p3]);
    // the risk
    lemma_key_part("risk"@, rw);
    law_risk_name_parses_back(r);
    let a3: IntentAcc = (Some(k), scope, r);
    assert(p3.take(4) =~= "risk"@);
    assert(p3.skip(5) =~= rw);
    assert(p3.take(4) != "scope"@);
    assert(intent_step(a2, p3) == Ok::<IntentAcc, Seq<char>>(a3));
    assert(seq![p3].drop_first() =~= Seq::<Seq<char>>::empty());
    assert(intent_fold(Seq::<Seq<char>>::empty(), a3) == Ok::<IntentAcc, Seq<char>>(a3));
    assert(intent_fold(seq![p3], a2) == Ok::<IntentAcc, Seq<char>>(a3));
    assert(intent_fold(seq![p2, p3], a1) == Ok::<IntentAcc, Seq<char>>(a3));
    assert(intent_fold(parts, a0) == Ok::<IntentAcc, Seq<char>>(a3));
}

/// An intent that names only its type gets an empty scope and low risk.
pub proof fn law_intent_spec_defaults(k: IntentKind)
    ensures
        parsed_intent(k.word()) == Ok::<(IntentKind, Seq<char>, RiskLevel), Seq<char>>(
            (k, Seq::<char>::empty(), RiskLevel::Low),
        ),
{
    reveal_strlit("refactor");
    reveal_strlit("feature");
    reveal_strlit("fix");
    reveal_strlit("style");
    reveal_strlit("docs");
    reveal_strlit("dependency");
    reveal_strlit("test");
    reveal_strlit("chore");
    let w = k.word();
    lemma_plain_word(w);
    lemma_split_on_free(w, ',');
    law_kind_name_parses_back(k);
    let a0: IntentAcc = (None, Seq::<char>::empty(), RiskLevel::Low);
    let a1: IntentAcc = (Some(k), Seq::<char>::empty(), RiskLevel::Low);
    assert(intent_step(a0, w) == Ok::<IntentAcc, Seq<char>>(a1));
    assert(seq![w].drop_first() =~= Seq::<Seq<char>>::empty());
    assert(intent_fold(Seq::<Seq<char>>::empty(), a1) == Ok::<IntentAcc, Seq<char>>(a1));
    assert(intent_fold(seq![w], a0) == Ok::<IntentAcc, Seq<char>>(a1));
}


/// A snapshot's id can be checked again: a snapshot with its id as `create_snapshot` gives
/// it, taken with the id cleared, hashes back to that id by `compute_sid`'s rule.
pub proof fn law_snapshot_id_rechecks(s: Snapshot, cleared: Snapshot)
    requires
        s.sid@ == content_hash(snapshot_json_with(Seq::empty(), s)),
        cleared.sid@ == Seq::<char>::empty(),
        cleared.parents == s.parents,
        cleared.kind == s.kind,
        cleared.context == s.context,
        cleared.semantic_units == s.semantic_units,
        cleared.author == s.author,
        cleared.timestamp == s.timestamp,
    ensures
        content_hash(snapshot_json(cleared)) == s.sid@,
{
}


/// Every session's branch names it: the id read back from the branch that `cx start`
/// creates for a prompt and base commit is the session's id.
pub proof fn law_session_branch_names_its_session(prompt: Seq<char>, base_commit: Seq<char>)
    ensures
        session_id_in(branch_name_of(session_id_of(prompt, base_commit), prompt)) == Some(
            session_id_of(prompt, base_commit),
        ),
{
    reveal_strlit("s_");
    let h = sha256(encode_utf8(prompt) + encode_utf8(base_commit)).take(4);
    lemma_hex_shape(h);
    let sid = session_id_of(prompt, base_commit);
    assert(sid.take(2) =~= "s_"@);
    assert forall|i: int| 0 <= i < sid.len() implies #[trigger] sid[i] != '-' by {
        if i >= 2 {
            assert(sid[i] == hex(h)[i - 2]);
        }
    }
    law_branch_names_its_session(sid, prompt);
}


/// Parsing a kind ignores the letter case of ASCII text: any ASCII spelling whose
/// lowercase is a kind's name parses to that kind.
pub proof fn law_kind_parse_ignores_case(s: Seq<char>, k: IntentKind)
    requires
        all_ascii(s),
        ascii_lower(s) == k.word(),
    ensures
        IntentKind::parsed(s) == Ok::<IntentKind, Seq<char>>(k),
{
    law_kind_name_parses_back(k);
    lemma_lower_word_of(k);
}

/// Parsing a risk level ignores the letter case of ASCII text.
pub proof fn law_risk_parse_ignores_case(s: Seq<char>, r: RiskLevel)
    requires
        all_ascii(s),
        ascii_lower(s) == r.word(),
    ensures
        RiskLevel::parsed(s) == Ok::<RiskLevel, Seq<char>>(r),
{
    law_risk_name_parses_back(r);
    reveal_strlit("low");
    reveal_strlit("medium");
    reveal_strlit("high");
    lemma_lower_word(r.word());
}

/// The name of a kind is lowercase ASCII.
proof fn lemma_lower_word_of(k: IntentKind)
    ensures
        all_ascii(k.word()),
        ascii_lower(k.word()) == k.word(),
{
    reveal_strlit("refactor");
    reveal_strlit("feature");
    reveal_strlit("fix");
    reveal_strlit("style");
    reveal_strlit("docs");
    reveal_strlit("dependency");
    reveal_strlit("test");
    reveal_strlit("chore");
    lemma_lower_word(k.word());
}


/// The snapshot count of a fresh session after `k` applies, each saving the next turn.
pub open spec fn count_after(k: nat) -> u32
    decreases k,
{
    if k == 0 {
        0
    } else {
        saved_count(count_after((k - 1) as nat), k as u32)
    }
}

/// The entries of a snapshots directory are the files of the turns `1..=k`, each once:
/// the directory of a fresh session after `k` applies, in any order.
pub open spec fn holds_turns(entries: Seq<Seq<char>>, k: nat) -> bool {
    &&& entries.len() == k
    &&& forall|t: int| 1 <= t <= k ==> #[trigger] entries.contains(snapshot_file(t as nat))
    &&& forall|j: int|
        #![trigger entries[j]]
        0 <= j < k ==> exists|t: int| 1 <= t <= k && entries[j] == #[trigger] snapshot_file(t as nat)
}

/// The file of a turn ends in `.json`, and its stem is the turn's number.
proof fn lemma_file_stem(t: nat)
    ensures
        has_suffix(snapshot_file(t), ".json"@),
        snapshot_file(t).take(snapshot_file(t).len() - 5) == decimal(t),
{
    reveal_strlit(".json");
    let f = snapshot_file(t);
    assert(f.skip(f.len() - 5) =~= ".json"@);
    assert(f.take(f.len() - 5) =~= decimal(t));
}

/// Names that all end in `.json` have as stems the names without it, in order.
proof fn lemma_stems_of_json_names(names: Seq<Seq<char>>)
    requires
        forall|j: int| 0 <= j < names.len() ==> has_suffix(#[trigger] names[j], ".json"@),
    ensures
        json_stems(names) == names.map_values(|n: Seq<char>| n.take(n.len() - 5)),
    decreases names.len(),
{
    if names.len() > 0 {
        let init = names.drop_last();
        assert forall|j: int| 0 <= j < init.len() implies has_suffix(#[trigger] init[j], ".json"@) by {
            assert(init[j] == names[j]);
        }
        lemma_stems_of_json_names(init);
        assert(has_suffix(names[names.len() - 1], ".json"@));
        assert(names.map_values(|n: Seq<char>| n.take(n.len() - 5)) =~= init.map_values(
            |n: Seq<char>| n.take(n.len() - 5),
        ).push(names.last().take(names.last().len() - 5)));
    }
}

/// Applying `k` times to a fresh session numbers its snapshots 1, 2, ..., k. With the
/// directory holding the files of turns `1..=k`: the snapshot count is `k`; the listing
/// has `k` names, so the next apply takes turn `k + 1`; the names are `1`..`k`, and each
/// stands for its turn; the file of turn `k + 1` is not yet there, and once written the
/// directory holds the files of turns `1..=k + 1`, with the count raised as saving does.
pub proof fn law_applies_number_snapshots(k: nat, entries: Seq<Seq<char>>)
    requires
        k < u32::MAX,
        holds_turns(entries, k),
    ensures
        count_after(k) == k,
        json_stems(entries).len() == k,
        forall|t: int| 1 <= t <= k ==> #[trigger] json_stems(entries).contains(decimal(t as nat)),
        forall|j: int| 0 <= j < k ==> 1 <= #[trigger] turn_of(json_stems(entries)[j]) <= k,
        !entries.contains(snapshot_file((k + 1) as nat)),
        holds_turns(entries.push(snapshot_file((k + 1) as nat)), k + 1),
        count_after(k + 1) == k + 1,
{
    lemma_count_after(k);
    lemma_count_after(k + 1);
    assert forall|j: int| 0 <= j < entries.len() implies has_suffix(#[trigger] entries[j], ".json"@) by {
        let t = choose|t: int| 1 <= t <= k && entries[j] == #[trigger] snapshot_file(t as nat);
        lemma_file_stem(t as nat);
    }
    lemma_stems_of_json_names(entries);
    let stems = json_stems(entries);
    assert forall|j: int| 0 <= j < k implies 1 <= #[trigger] turn_of(stems[j]) <= k by {
        let t = choose|t: int| 1 <= t <= k && entries[j] == #[trigger] snapshot_file(t as nat);
        lemma_file_stem(t as nat);
        assert(stems[j] == decimal(t as nat));
        law_turn_file_read_back(t as u32);
    }
    assert forall|t: int| 1 <= t <= k implies #[trigger] stems.contains(decimal(t as nat)) by {
        assert(entries.contains(snapshot_file(t as nat)));
        let j = choose|j: int| 0 <= j < entries.len() && #[trigger] entries[j] == snapshot_file(t as nat);
        lemma_file_stem(t as nat);
        assert(stems[j] == decimal(t as nat));
    }
    let next = snapshot_file((k + 1) as nat);
    if entries.contains(next) {
        let j = choose|j: int| 0 <= j < entries.len() && #[trigger] entries[j] == next;
        let t = choose|t: int| 1 <= t <= k && entries[j] == #[trigger] snapshot_file(t as nat);
        lemma_file_stem(t as nat);
        lemma_file_stem((k + 1) as nat);
        law_turn_file_read_back(t as u32);
        law_turn_file_read_back((k + 1) as u32);
        assert(decimal(t as nat) == decimal((k + 1) as nat));
        assert(false);
    }
    let more = entries.push(next);
    assert forall|t: int| 1 <= t <= k + 1 implies #[trigger] more.contains(snapshot_file(t as nat)) by {
        if t <= k {
            assert(entries.contains(snapshot_file(t as nat)));
            let j = choose|j: int| 0 <= j < entries.len() && #[trigger] entries[j] == snapshot_file(t as nat);
            assert(more[j] == entries[j]);
        } else {
            assert(more[k as int] == next);
        }
    }
    assert forall|j: int| #![trigger more[j]] 0 <= j < k + 1 implies exists|t: int|
        1 <= t <= k + 1 && more[j] == #[trigger] snapshot_file(t as nat) by {
        if j < k {
            let t = choose|t: int| 1 <= t <= k && entries[j] == #[trigger] snapshot_file(t as nat);
            assert(more[j] == snapshot_file(t as nat));
        } else {
            assert(more[j] == snapshot_file((k + 1) as nat));
        }
    }
}

/// The count after `k` applies is `k`.
proof fn lemma_count_after(k: nat)
    requires
        k <= u32::MAX,
    ensures
        count_after(k) == k,
    decreases k,
{
    if k > 0 {
        lemma_count_after((k - 1) as nat);
    }
}


/// The upper case of an ASCII lowercase letter; every other character stays.
pub open spec fn ascii_upper_char(c: char) -> char {
    if 'a' <= c <= 'z' {
        ((c as u32) - 32) as char
    } else {
        c
    }
}

/// A word with its first character in upper case.
pub open spec fn capitalized(w: Seq<char>) -> Seq<char> {
    if w.len() == 0 {
        w
    } else {
        w.update(0, ascii_upper_char(w[0]))
    }
}

/// Letters are written into a JSON string as they are.
proof fn lemma_json_letters(w: Seq<char>)
    requires
        forall|i: int| 0 <= i < w.len() ==> ('a' <= #[trigger] w[i] <= 'z') || ('A' <= w[i] <= 'Z'),
    ensures
        json_string(w) == seq!['"'] + w + seq!['"'],
    decreases w.len(),
{
    lemma_json_letters_escaped(w);
}

proof fn lemma_json_letters_escaped(w: Seq<char>)
    requires
        forall|i: int| 0 <= i < w.len() ==> ('a' <= #[trigger] w[i] <= 'z') || ('A' <= w[i] <= 'Z'),
    ensures
        json_escaped(w) == w,
    decreases w.len(),
{
    if w.len() > 0 {
        let init = w.drop_last();
        assert forall|i: int| 0 <= i < init.len() implies ('a' <= #[trigger] init[i] <= 'z') || (
        'A' <= init[i] <= 'Z') by {
            assert(init[i] == w[i]);
        }
        lemma_json_letters_escaped(init);
        let c = w.last();
        assert(('a' <= c <= 'z') || ('A' <= c <= 'Z'));
        assert(json_escape(c) == seq![c]);
        assert(init + seq![c] =~= w);
    }
}

/// A risk level or an intent kind is written into a snapshot's canonical JSON as serde's
/// derived serialization writes a unit variant: its variant name as a JSON string. The
/// variant name is the displayed name with its first letter in upper case.
pub proof fn law_json_names_are_variant_names(r: RiskLevel, k: IntentKind)
    ensures
        risk_json(r) == json_string(capitalized(r.word())),
        intent_json(k) == json_string(capitalized(k.word())),
{
    reveal_strlit("low");
    reveal_strlit("medium");
    reveal_strlit("high");
    reveal_strlit("\"Low\"");
    reveal_strlit("\"Medium\"");
    reveal_strlit("\"High\"");
    reveal_strlit("refactor");
    reveal_strlit("feature");
    reveal_strlit("fix");
    reveal_strlit("style");
    reveal_strlit("docs");
    reveal_strlit("dependency");
    reveal_strlit("test");
    reveal_strlit("chore");
    reveal_strlit("\"Refactor\"");
    reveal_strlit("\"Feature\"");
    reveal_strlit("\"Fix\"");
    reveal_strlit("\"Style\"");
    reveal_strlit("\"Docs\"");
    reveal_strlit("\"Dependency\"");
    reveal_strlit("\"Test\"");
    reveal_strlit("\"Chore\"");
    let rw = capitalized(r.word());
    assert(('l' as u32) - 32 == 'L' as u32);
    assert(((('l' as u32) - 32) as char) == 'L');
    assert(((('m' as u32) - 32) as char) == 'M');
    assert(((('h' as u32) - 32) as char) == 'H');
    assert(((('r' as u32) - 32) as char) == 'R');
    assert(((('f' as u32) - 32) as char) == 'F');
    assert(((('s' as u32) - 32) as char) == 'S');
    assert(((('d' as u32) - 32) as char) == 'D');
    assert(((('t' as u32) - 32) as char) == 'T');
    assert(((('c' as u32) - 32) as char) == 'C');
    lemma_json_letters(rw);
    assert(risk_json(r) =~= seq!['"'] + rw + seq!['"']);
    let kw = capitalized(k.word());
    lemma_json_letters(kw);
    assert(intent_json(k) =~= seq!['"'] + kw + seq!['"']);
}


/// The log of a session lists its snapshots in time order: in any order that the log's
/// sort gives, the snapshots' own timestamps never go down.
pub proof fn law_log_is_in_time_order(
    loaded: Seq<Result<Snapshot, crate::store::StoreError>>,
    order: Seq<usize>,
)
    requires
        is_stable_order(entry_times(log_entries_of(loaded)), order),
    ensures
        forall|a: int, b: int|
            0 <= a < b < order.len() ==> !text_lt(
                loaded_snapshots(loaded)[#[trigger] order[b] as int].timestamp@,
                loaded_snapshots(loaded)[#[trigger] order[a] as int].timestamp@,
            ),
{
    let keys = entry_times(log_entries_of(loaded));
    let snaps = loaded_snapshots(loaded);
    law_sorted_listing_keeps_every_item(keys, order);
    assert forall|a: int, b: int| 0 <= a < b < order.len() implies !text_lt(
        snaps[#[trigger] order[b] as int].timestamp@,
        snaps[#[trigger] order[a] as int].timestamp@,
    ) by {
        assert(keys[order[a] as int] == log_entry_of(snaps[order[a] as int]).1);
        assert(keys[order[b] as int] == log_entry_of(snaps[order[b] as int]).1);
    }
}

/// `cx log` without an id lists the latest sessions first: in any order that its sort
/// gives, line `j` (session `order[n - 1 - j]`) was created no earlier than any later line.
pub proof fn law_sessions_listed_latest_first(metas: Seq<SessionMeta>, order: Seq<usize>)
    requires
        is_stable_order(created_times(metas), order),
    ensures
        forall|j: int, k: int|
            0 <= j < k < order.len() ==> !text_lt(
                metas[#[trigger] order[order.len() - 1 - j] as int].created_at@,
                metas[#[trigger] order[order.len() - 1 - k] as int].created_at@,
            ),
{
    let keys = created_times(metas);
    let n = order.len();
    law_sorted_listing_keeps_every_item(keys, order);
    assert forall|j: int, k: int| 0 <= j < k < n implies !text_lt(
        metas[#[trigger] order[n - 1 - j] as int].created_at@,
        metas[#[trigger] order[n - 1 - k] as int].created_at@,
    ) by {
        let a = n - 1 - k;
        let b = n - 1 - j;
        assert(0 <= a < b < n);
        assert(!text_lt(keys[order[b] as int], keys[order[a] as int]));
        assert(keys[order[a] as int] == metas[order[a] as int].created_at@);
        assert(keys[order[b] as int] == metas[order[b] as int].created_at@);
    }
}

/// A branch slug keeps exactly the ASCII letters, the digits, `-`, `_` and the space among
/// ASCII characters; every other ASCII character is dropped.
pub proof fn law_slug_keeps_letters_digits_and_separators(c: char)
    ensures
        (('0' <= c <= '9') || ('a' <= c <= 'z') || ('A' <= c <= 'Z') || c == '-' || c == '_'
            || c == ' ') ==> slug_keeps(c),
        (c as u32) < 128 && !(('0' <= c <= '9') || ('a' <= c <= 'z') || ('A' <= c <= 'Z') || c
            == '-' || c == '_' || c == ' ') ==> !slug_keeps(c),
{
}

/// The lines of a semantic unit: its header, then one line `    ─  <file>` for each of
/// its affected files, in order, and nothing else.
pub proof fn law_unit_lines_list_every_file(u: SemanticUnit)
    ensures
        unit_lines(u).len() == 1 + u.affected_files@.len(),
        unit_lines(u)[0] == unit_header(u),
        forall|j: int|
            0 <= j < u.affected_files@.len() ==> unit_lines(u)[1 + j] == "    ─  "@
                + #[trigger] u.affected_files@[j]@,
{
    let files = views_of(u.affected_files@);
    assert forall|j: int| 0 <= j < u.affected_files@.len() implies unit_lines(u)[1 + j]
        == "    ─  "@ + #[trigger] u.affected_files@[j]@ by {
        assert(files[j] == u.affected_files@[j]@);
        assert(unit_lines(u)[1 + j] == file_line(files[j]));
    }
}

/// Every line of every unit is among the lines of the units.
proof fn lemma_units_lines_has(us: Seq<SemanticUnit>, i: int, k: int)
    requires
        0 <= i < us.len(),
        0 <= k < unit_lines(us[i]).len(),
    ensures
        units_lines(us).contains(unit_lines(us[i])[k]),
    decreases us.len(),
{
    let init = us.drop_last();
    let pre = units_lines(init);
    if i == us.len() - 1 {
        assert(units_lines(us)[pre.len() + k] == unit_lines(us[i])[k]);
    } else {
        assert(init[i] == us[i]);
        lemma_units_lines_has(init, i, k);
        let p = choose|p: int| 0 <= p < pre.len() && pre[p] == unit_lines(us[i])[k];
        assert(units_lines(us)[p] == pre[p]);
    }
}

/// `cx status` shows every file of every semantic unit, each on a line `    ─  <file>`,
/// and the header of every unit.
pub proof fn law_status_lists_every_file(info: SessionStatusInfo, i: int, j: int)
    requires
        0 <= i < info.semantic_units@.len(),
        0 <= j < info.semantic_units@[i].affected_files@.len(),
    ensures
        status_text(info).contains("    ─  "@ + info.semantic_units@[i].affected_files@[j]@),
        status_text(info).contains(unit_header(info.semantic_units@[i])),
{
    let us = info.semantic_units@;
    law_unit_lines_list_every_file(us[i]);
    lemma_units_lines_has(us, i, 1 + j);
    lemma_units_lines_has(us, i, 0);
    let head = seq![
        "Session: "@ + info.id@,
        "Branch:  "@ + info.branch@,
        "Status:  "@ + info.status@ + " ("@ + decimal(info.snapshot_count as nat) + " snapshots)"@,
    ];
    let body = seq!["Changes by intent:"@] + units_lines(us);
    assert(status_text(info) == head + body);
    let f = "    ─  "@ + us[i].affected_files@[j]@;
    let p = choose|p: int| 0 <= p < units_lines(us).len() && units_lines(us)[p] == f;
    assert(status_text(info)[3 + 1 + p] == f);
    let h = unit_header(us[i]);
    let q = choose|q: int| 0 <= q < units_lines(us).len() && units_lines(us)[q] == h;
    assert(status_text(info)[3 + 1 + q] == h);
}

} // verus!
