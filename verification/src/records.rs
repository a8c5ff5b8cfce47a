//! Validation and maintenance of the persisted records: settings, presets
//! and chat history.

use vstd::prelude::*;
use crate::models::{HistoryEntry, Preset, Settings};
use crate::text::{chars_of, has_char, has_char_exec, is_whitespace, is_ws, owned, trim, trim_chars, trim_str};

verus! {

/// Largest accepted `max_tokens`.
pub const MAX_TOKENS_LIMIT: u32 = 32768;

/// Bit pattern of the largest accepted temperature, `2.0_f32`.
pub const MAX_TEMPERATURE_BITS: u32 = 0x4000_0000;

/// Bit pattern of `-0.0_f32`, which compares equal to `0.0`.
pub const NEGATIVE_ZERO_BITS: u32 = 0x8000_0000;

/// Whether the `f32` with bit pattern `bits` lies in `0.0..=2.0`.
///
/// Among IEEE 754 single-precision values, the non-negative ones (sign bit
/// clear) are ordered as their bit patterns, so those up to `2.0` are exactly
/// the patterns `0..=0x4000_0000`; NaNs lie above `0x7F80_0000`. The only
/// value with the sign bit set that is `>= 0.0` is `-0.0`.
pub open spec fn temperature_in_range(bits: u32) -> bool {
    bits <= MAX_TEMPERATURE_BITS || bits == NEGATIVE_ZERO_BITS
}

pub fn temperature_ok(bits: u32) -> (b: bool)
    ensures
        b == temperature_in_range(bits),
{
    bits <= MAX_TEMPERATURE_BITS || bits == NEGATIVE_ZERO_BITS
}

/// Characters that may not appear in a host name.
pub open spec fn host_char_forbidden(c: char) -> bool {
    is_ws(c) || c == ';' || c == '&' || c == '|'
}

pub open spec fn host_invalid(host: Seq<char>) -> bool {
    host.len() == 0 || exists|i: int| 0 <= i < host.len() && host_char_forbidden(host[i])
}

/// The first rule that `s` breaks, as the message reported for it.
pub open spec fn settings_error(s: Settings) -> Option<Seq<char>> {
    if host_invalid(s.host@) {
        Some("invalid host"@)
    } else if has_char(s.llama_server_path@, '\0') {
        Some("llama_server_path must not contain null bytes"@)
    } else if has_char(s.model_path@, '\0') {
        Some("model_path must not contain null bytes"@)
    } else if s.port == 0 {
        Some("port must be between 1 and 65535"@)
    } else if s.context_size < 256 {
        Some("context_size must be at least 256"@)
    } else if s.context_size > 131072 {
        Some("context_size must not exceed 131072"@)
    } else if s.threads == 0 {
        Some("threads must be at least 1"@)
    } else if s.max_tokens == 0 || s.max_tokens > MAX_TOKENS_LIMIT {
        Some("max_tokens must be in range 1..=32768"@)
    } else if !temperature_in_range(s.temperature_bits) {
        Some("temperature must be in range 0.0..=2"@)
    } else {
        None
    }
}

/// The context size is judged on its own range, `256..=131072`: moving it
/// anywhere inside that range never changes the verdict on the settings,
/// and a context size above 131072 (or below 256) is always refused.
pub proof fn law_context_size_range(s: Settings, c: u32)
    ensures
        256 <= s.context_size <= 131072 && 256 <= c <= 131072 ==> settings_error(Settings { context_size: c, ..s })
            == settings_error(s),
        s.context_size > 131072 || s.context_size < 256 ==> settings_error(s) is Some,
        settings_error(s) == Some("context_size must not exceed 131072"@) ==> s.context_size > 131072,
        settings_error(s) == Some("context_size must be at least 256"@) ==> s.context_size < 256,
{
    reveal_strlit("context_size must not exceed 131072");
    reveal_strlit("context_size must be at least 256");
    reveal_strlit("invalid host");
    reveal_strlit("llama_server_path must not contain null bytes");
    reveal_strlit("model_path must not contain null bytes");
    reveal_strlit("port must be between 1 and 65535");
    reveal_strlit("threads must be at least 1");
    reveal_strlit("max_tokens must be in range 1..=32768");
    reveal_strlit("temperature must be in range 0.0..=2");
    let too_large = "context_size must not exceed 131072"@;
    let too_small = "context_size must be at least 256"@;
    assert(too_large[0] == 'c' && too_large[18] == 'n');
    assert(too_small[0] == 'c' && too_small[18] == 'b');
    assert("invalid host"@[0] == 'i');
    assert("llama_server_path must not contain null bytes"@[0] == 'l');
    assert("model_path must not contain null bytes"@[0] == 'm');
    assert("port must be between 1 and 65535"@[0] == 'p');
    assert("threads must be at least 1"@[0] == 't');
    assert("max_tokens must be in range 1..=32768"@[0] == 'm');
    assert("temperature must be in range 0.0..=2"@[0] == 't');
}

fn host_is_invalid(host: &str) -> (b: bool)
    ensures
        b == host_invalid(host@),
{
    let v = chars_of(host);
    if v.len() == 0 {
        return true;
    }
    let mut i: usize = 0;
    while i < v.len()
        invariant
            v@ == host@,
            0 <= i <= v@.len(),
            forall|j: int| 0 <= j < i ==> !host_char_forbidden(#[trigger] v@[j]),
        decreases v@.len() - i,
    {
        let c = v[i];
        if is_whitespace(c) || c == ';' || c == '&' || c == '|' {
            return true;
        }
        i = i + 1;
    }
    false
}

fn has_nul(s: &str) -> (b: bool)
    ensures
        b == has_char(s@, '\0'),
{
    let v = chars_of(s);
    has_char_exec(v.as_slice(), '\0')
}

/// Checks settings before they are saved; the error names the first rule
/// broken.
pub fn validate_settings(settings: &Settings) -> (r: Result<(), String>)
    ensures
        match r {
            Ok(()) => settings_error(*settings) is None,
            Err(e) => settings_error(*settings) == Some(e@),
        },
{
    if host_is_invalid(settings.host.as_str()) {
        return Err(owned("invalid host"));
    }
    if has_nul(settings.llama_server_path.as_str()) {
        return Err(owned("llama_server_path must not contain null bytes"));
    }
    if has_nul(settings.model_path.as_str()) {
        return Err(owned("model_path must not contain null bytes"));
    }
    if settings.port == 0 {
        return Err(owned("port must be between 1 and 65535"));
    }
    if settings.context_size < 256 {
        return Err(owned("context_size must be at least 256"));
    }
    if settings.context_size > 131072 {
        return Err(owned("context_size must not exceed 131072"));
    }
    if settings.threads == 0 {
        return Err(owned("threads must be at least 1"));
    }
    if settings.max_tokens == 0 || settings.max_tokens > MAX_TOKENS_LIMIT {
        return Err(owned("max_tokens must be in range 1..=32768"));
    }
    if !temperature_ok(settings.temperature_bits) {
        return Err(owned("temperature must be in range 0.0..=2"));
    }
    Ok(())
}

/// The first rule that `p` breaks, as the message reported for it.
pub open spec fn preset_error(p: Preset) -> Option<Seq<char>> {
    if trim(p.id@).len() == 0 {
        Some("preset.id cannot be empty"@)
    } else if trim(p.name@).len() == 0 {
        Some("preset.name cannot be empty"@)
    } else if p.max_tokens == 0 || p.max_tokens > MAX_TOKENS_LIMIT {
        Some("preset.max_tokens must be in range 1..=32768"@)
    } else if !temperature_in_range(p.temperature_bits) {
        Some("preset.temperature must be in range 0.0..=2"@)
    } else {
        None
    }
}

fn is_blank(s: &str) -> (b: bool)
    ensures
        b == (trim(s@).len() == 0),
{
    let v = chars_of(s);
    let t = trim_chars(v.as_slice());
    t.len() == 0
}

/// Checks a preset before it is saved.
pub fn validate_preset(preset: &Preset) -> (r: Result<(), String>)
    ensures
        match r {
            Ok(()) => preset_error(*preset) is None,
            Err(e) => preset_error(*preset) == Some(e@),
        },
{
    if is_blank(preset.id.as_str()) {
        return Err(owned("preset.id cannot be empty"));
    }
    if is_blank(preset.name.as_str()) {
        return Err(owned("preset.name cannot be empty"));
    }
    if preset.max_tokens == 0 || preset.max_tokens > MAX_TOKENS_LIMIT {
        return Err(owned("preset.max_tokens must be in range 1..=32768"));
    }
    if !temperature_ok(preset.temperature_bits) {
        return Err(owned("preset.temperature must be in range 0.0..=2"));
    }
    Ok(())
}

/// The roles that a chat message may have.
pub open spec fn is_chat_role(r: Seq<char>) -> bool {
    r == "system"@ || r == "user"@ || r == "assistant"@
}

/// Whether `role`, trimmed, is one of the chat roles.
pub fn trimmed_role_is_valid(role: &str) -> (b: bool)
    ensures
        b == is_chat_role(trim(role@)),
{
    let t = trim_str(role);
    let system = owned("system");
    let user = owned("user");
    let assistant = owned("assistant");
    t == system || t == user || t == assistant
}

/// The first rule that a history entry breaks.
pub open spec fn history_entry_error(e: HistoryEntry) -> Option<Seq<char>> {
    if trim(e.id@).len() == 0 {
        Some("history.id cannot be empty"@)
    } else if trim(e.content@).len() == 0 {
        Some("history.content cannot be empty"@)
    } else if trim(e.timestamp@).len() == 0 {
        Some("history.timestamp cannot be empty"@)
    } else if !is_chat_role(trim(e.role@)) {
        Some("history.role must be one of: system, user, assistant"@)
    } else {
        None
    }
}

/// Checks a history entry before it is appended.
pub fn validate_history_entry(entry: &HistoryEntry) -> (r: Result<(), String>)
    ensures
        match r {
            Ok(()) => history_entry_error(*entry) is None,
            Err(e) => history_entry_error(*entry) == Some(e@),
        },
{
    if is_blank(entry.id.as_str()) {
        return Err(owned("history.id cannot be empty"));
    }
    if is_blank(entry.content.as_str()) {
        return Err(owned("history.content cannot be empty"));
    }
    if is_blank(entry.timestamp.as_str()) {
        return Err(owned("history.timestamp cannot be empty"));
    }
    if trimmed_role_is_valid(entry.role.as_str()) {
        Ok(())
    } else {
        Err(owned("history.role must be one of: system, user, assistant"))
    }
}

/// The id of a preset to delete, trimmed; blank ids are refused.
pub fn normalize_preset_id(preset_id: String) -> (r: Result<String, String>)
    ensures
        match r {
            Ok(id) => trim(preset_id@).len() > 0 && id@ == trim(preset_id@),
            Err(e) => trim(preset_id@).len() == 0 && e@ == "preset_id cannot be empty"@,
        },
{
    let id = trim_str(preset_id.as_str());
    if id.as_str().is_empty() {
        return Err(owned("preset_id cannot be empty"));
    }
    Ok(id)
}


/// Index of the first preset at or after `i` whose id is `id`, if any.
pub open spec fn preset_index_from(ps: Seq<Preset>, id: Seq<char>, i: int) -> Option<int>
    decreases ps.len() - i,
{
    if i < 0 || i >= ps.len() {
        None
    } else if ps[i].id@ == id {
        Some(i)
    } else {
        preset_index_from(ps, id, i + 1)
    }
}

/// Index of the first preset whose id is `id`, if any.
pub open spec fn preset_index(ps: Seq<Preset>, id: Seq<char>) -> Option<int> {
    preset_index_from(ps, id, 0)
}

proof fn lemma_preset_index_from(ps: Seq<Preset>, id: Seq<char>, i: int)
    requires
        0 <= i <= ps.len(),
    ensures
        match preset_index_from(ps, id, i) {
            Some(k) => i <= k < ps.len() && ps[k].id@ == id && forall|j: int|
                i <= j < k ==> ps[j].id@ != id,
            None => forall|j: int| i <= j < ps.len() ==> ps[j].id@ != id,
        },
    decreases ps.len() - i,
{
    if i < ps.len() && ps[i].id@ != id {
        lemma_preset_index_from(ps, id, i + 1);
    }
}

/// What `preset_index` means.
pub proof fn lemma_preset_index(ps: Seq<Preset>, id: Seq<char>)
    ensures
        match preset_index(ps, id) {
            Some(k) => 0 <= k < ps.len() && ps[k].id@ == id && forall|j: int|
                0 <= j < k ==> ps[j].id@ != id,
            None => forall|j: int| 0 <= j < ps.len() ==> ps[j].id@ != id,
        },
{
    lemma_preset_index_from(ps, id, 0);
}

/// The list after saving `p`: it replaces the first preset with the same id,
/// or is appended when there is none.
pub open spec fn upserted(ps: Seq<Preset>, p: Preset) -> Seq<Preset> {
    match preset_index(ps, p.id@) {
        Some(i) => ps.update(i, p),
        None => ps.push(p),
    }
}

fn find_preset(presets: &Vec<Preset>, id: &String) -> (r: Option<usize>)
    ensures
        match r {
            Some(i) => i < presets@.len() && preset_index(presets@, id@) == Some(i as int),
            None => preset_index(presets@, id@) is None,
        },
{
    proof {
        lemma_preset_index(presets@, id@);
    }
    let mut i: usize = 0;
    while i < presets.len()
        invariant
            0 <= i <= presets@.len(),
            forall|j: int| 0 <= j < i ==> presets@[j].id@ != id@,
            match preset_index(presets@, id@) {
                Some(k) => 0 <= k < presets@.len() && presets@[k].id@ == id@ && forall|j: int|
                    0 <= j < k ==> presets@[j].id@ != id@,
                None => forall|j: int| 0 <= j < presets@.len() ==> presets@[j].id@ != id@,
            },
        decreases presets@.len() - i,
    {
        if presets[i].id == *id {
            return Some(i);
        }
        i = i + 1;
    }
    None
}

/// Saves `preset` into the list of presets, replacing the one with the same
/// id or appending it.
pub fn upsert_preset(presets: Vec<Preset>, preset: Preset) -> (r: Vec<Preset>)
    ensures
        r@ == upserted(presets@, preset),
{
    let mut presets = presets;
    match find_preset(&presets, &preset.id) {
        Some(i) => {
            presets.set(i, preset);
        },
        None => {
            presets.push(preset);
        },
    }
    presets
}

/// The presets whose id is not `id`, in their order.
pub open spec fn without_id(ps: Seq<Preset>, id: Seq<char>) -> Seq<Preset> {
    ps.filter(id_differs(id))
}

/// The presets that a deletion of `id` keeps.
pub open spec fn id_differs(id: Seq<char>) -> spec_fn(Preset) -> bool {
    |p: Preset| p.id@ != id
}

/// Removes every preset whose id is `preset_id`.
pub fn remove_preset(presets: Vec<Preset>, preset_id: &str) -> (r: Vec<Preset>)
    ensures
        r@ == without_id(presets@, preset_id@),
{
    let ghost pred = id_differs(preset_id@);
    let ghost all = presets@;
    let target = owned(preset_id);
    let mut kept: Vec<Preset> = Vec::new();
    let total = presets.len();
    let mut rest = presets;
    proof {
        assert(all.take(0).filter(pred) =~= Seq::<Preset>::empty());
    }
    let mut n: usize = 0;
    while rest.len() > 0
        invariant
            target@ == preset_id@,
            n + rest@.len() == all.len(),
            all.len() == total,
            rest@ == all.skip(n as int),
            pred == id_differs(preset_id@),
            kept@ == all.take(n as int).filter(pred),
        decreases rest@.len(),
    {
        let p = rest.remove(0);
        proof {
            assert(all.skip(n as int).remove(0) =~= all.skip(n + 1));
            assert(p == all[n as int]);
            all.take(n as int).lemma_filter_push(p, pred);
            assert(all.take(n as int).push(p) =~= all.take(n + 1));
        }
        let keep = !(p.id == target);
        proof {
            assert(pred(p) == (p.id@ != preset_id@));
            assert(keep == (p.id@ != target@));
            assert(pred(p) == keep);
        }
        if keep {
            kept.push(p);
        }
        n = n + 1;
    }
    proof {
        assert(all.take(n as int) =~= all);
    }
    kept
}

/// Appends an entry at the end of the history.
pub fn append_history_entry(history: Vec<HistoryEntry>, entry: HistoryEntry) -> (r: Vec<HistoryEntry>)
    ensures
        r@ == history@.push(entry),
{
    let mut history = history;
    history.push(entry);
    history
}

/// Saving a preset makes it the one found under its id; the list keeps its
/// length or grows by one.
pub proof fn law_upsert_then_lookup(ps: Seq<Preset>, p: Preset)
    ensures
        preset_index(upserted(ps, p), p.id@) matches Some(i) && upserted(ps, p)[i] == p,
        upserted(ps, p).len() == ps.len() || upserted(ps, p).len() == ps.len() + 1,
{
    let r = upserted(ps, p);
    lemma_preset_index(ps, p.id@);
    lemma_preset_index(r, p.id@);
    match preset_index(ps, p.id@) {
        Some(i) => {
            assert(r[i].id@ == p.id@);
            match preset_index(r, p.id@) {
                Some(k) => {
                    if k < i {
                        assert(r[k] == ps[k]);
                    } else if k > i {
                        assert(r[i].id@ == p.id@);
                    }
                },
                None => {
                    assert(r[i].id@ == p.id@);
                },
            }
        },
        None => {
            let n = ps.len() as int;
            assert(r[n] == p);
            match preset_index(r, p.id@) {
                Some(k) => {
                    if k < n {
                        assert(r[k] == ps[k]);
                    }
                },
                None => {
                    assert(r[n].id@ == p.id@);
                },
            }
        },
    }
}

/// Saving the same preset twice leaves the list as saving it once does.
pub proof fn law_upsert_idempotent(ps: Seq<Preset>, p: Preset)
    ensures
        upserted(upserted(ps, p), p) == upserted(ps, p),
{
    law_upsert_then_lookup(ps, p);
    let r = upserted(ps, p);
    lemma_preset_index(r, p.id@);
    let i = preset_index(r, p.id@)->0;
    assert(r.update(i, p) =~= r);
}

/// Saving a preset leaves every preset with another id where it was.
pub proof fn law_upsert_keeps_others(ps: Seq<Preset>, p: Preset, j: int)
    requires
        0 <= j < ps.len(),
        ps[j].id@ != p.id@,
    ensures
        upserted(ps, p)[j] == ps[j],
{
    lemma_preset_index(ps, p.id@);
}

/// After deleting an id, no preset has it, and every other preset remains.
pub proof fn law_remove_preset(ps: Seq<Preset>, id: Seq<char>)
    ensures
        forall|j: int| 0 <= j < without_id(ps, id).len() ==> without_id(ps, id)[j].id@ != id,
        forall|q: Preset| ps.contains(q) && q.id@ != id ==> without_id(ps, id).contains(q),
        preset_index(without_id(ps, id), id) is None,
{
    let pred = id_differs(id);
    broadcast use vstd::seq_lib::group_filter_ensures;
    lemma_preset_index(without_id(ps, id), id);
    assert forall|q: Preset| ps.contains(q) && q.id@ != id implies without_id(ps, id).contains(q) by {
        ps.lemma_filter_contains_rev(pred, q);
    }
}

} // verus!
