use crate::model::{empty_identity, CursorDeviceInfo, DeviceIdentity};
use vstd::prelude::*;

verus! {

#[verifier::external_type_specification]
#[verifier::external_body]
pub struct ExValue(serde_json::Value);

/// A value of the configuration document: a JSON string, which the identity
/// fields are, or any other JSON value, carried through untouched.
pub enum FieldValue {
    Text(String),
    Other(serde_json::Value),
}

/// A field value with its text as a character sequence.
pub enum FieldView {
    Text(Seq<char>),
    Other(serde_json::Value),
}

impl View for FieldValue {
    type V = FieldView;

    open spec fn view(&self) -> FieldView {
        match self {
            FieldValue::Text(s) => FieldView::Text(s@),
            FieldValue::Other(v) => FieldView::Other(*v),
        }
    }
}

/// One top-level key of the configuration document with its value.
pub struct ConfigEntry {
    pub key: String,
    pub value: FieldValue,
}

/// A document as the sequence of its top-level entries.
pub type EntriesView = Seq<(Seq<char>, FieldView)>;

pub open spec fn entry_view(e: ConfigEntry) -> (Seq<char>, FieldView) {
    (e.key@, e.value@)
}

pub open spec fn entries_view(v: Seq<ConfigEntry>) -> EntriesView {
    v.map_values(|e: ConfigEntry| entry_view(e))
}

pub open spec fn mac_key() -> Seq<char> {
    "telemetry.macMachineId"@
}

pub open spec fn machine_key() -> Seq<char> {
    "telemetry.machineId"@
}

pub open spec fn sqm_key() -> Seq<char> {
    "telemetry.sqmId"@
}

pub open spec fn dev_key() -> Seq<char> {
    "telemetry.devDeviceId"@
}

pub open spec fn is_identity_key(k: Seq<char>) -> bool {
    k == mac_key() || k == machine_key() || k == sqm_key() || k == dev_key()
}

/// No two entries share a key.
pub open spec fn keys_distinct(e: EntriesView) -> bool {
    forall|i: int, j: int| 0 <= i < j < e.len() ==> e[i].0 != e[j].0
}

/// The text of the last entry with key `k` whose value is a JSON string, or
/// the empty sequence when there is none.
pub open spec fn text_for(e: EntriesView, k: Seq<char>) -> Seq<char>
    decreases e.len(),
{
    if e.len() == 0 {
        Seq::empty()
    } else {
        match e.last().1 {
            FieldView::Text(s) if e.last().0 == k => s,
            _ => text_for(e.drop_last(), k),
        }
    }
}

/// The identity record that a document holds.
pub open spec fn identity_of(e: EntriesView) -> DeviceIdentity {
    DeviceIdentity {
        mac_machine_id: text_for(e, mac_key()),
        machine_id: text_for(e, machine_key()),
        sqm_id: text_for(e, sqm_key()),
        dev_device_id: text_for(e, dev_key()),
    }
}

/// The entries of a document that are not identity fields, in order.
pub open spec fn unrelated_entries(e: EntriesView) -> EntriesView
    decreases e.len(),
{
    if e.len() == 0 {
        Seq::empty()
    } else if is_identity_key(e.last().0) {
        unrelated_entries(e.drop_last())
    } else {
        unrelated_entries(e.drop_last()).push(e.last())
    }
}

/// The four identity fields of `d` as document entries.
pub open spec fn identity_entries(d: DeviceIdentity) -> EntriesView {
    seq![
        (mac_key(), FieldView::Text(d.mac_machine_id)),
        (machine_key(), FieldView::Text(d.machine_id)),
        (sqm_key(), FieldView::Text(d.sqm_id)),
        (dev_key(), FieldView::Text(d.dev_device_id)),
    ]
}

/// A document with its identity fields set to `d` and every other entry kept.
pub open spec fn merged_entries(e: EntriesView, d: DeviceIdentity) -> EntriesView {
    unrelated_entries(e) + identity_entries(d)
}

/// The entries that serde_json reads from `text` as a JSON object, or `None`
/// where `text` is not one.
pub uninterp spec fn parsed_object(text: Seq<char>) -> Option<EntriesView>;

/// The pretty-printed JSON object that serde_json writes for the entries.
pub uninterp spec fn pretty_object(entries: EntriesView) -> Seq<char>;

/// Relies on serde_json::from_str into a serde_json::Map: it parses a JSON
/// object into a map, so keys come out distinct.
#[verifier::external_body]
fn parse_object(text: &str) -> (r: Option<Vec<ConfigEntry>>)
    ensures
        match r {
            Some(v) => parsed_object(text@) == Some(entries_view(v@)) && keys_distinct(
                entries_view(v@),
            ),
            None => parsed_object(text@) is None,
        },
{
    let map = serde_json::from_str::<serde_json::Map<String, serde_json::Value>>(text).ok()?;
    Some(
        map.into_iter().map(|(key, v)| ConfigEntry {
            key,
            value: match v {
                serde_json::Value::String(s) => FieldValue::Text(s),
                other => FieldValue::Other(other),
            },
        }).collect(),
    )
}

/// Relies on serde_json::to_string_pretty on a serde_json::Map built from the
/// entries. It does not fail there: the keys are strings, no `Value` fails to
/// serialize, and the output goes to memory.
#[verifier::external_body]
fn render_object(entries: Vec<ConfigEntry>) -> (r: String)
    ensures
        r@ == pretty_object(entries_view(entries@)),
{
    let map: serde_json::Map<String, serde_json::Value> = entries.into_iter().map(
        |e| match e.value {
            FieldValue::Text(s) => (e.key, serde_json::Value::String(s)),
            FieldValue::Other(v) => (e.key, v),
        },
    ).collect();
    serde_json::to_string_pretty(&map).expect("a map with string keys always serializes")
}

proof fn lemma_identity_keys_distinct()
    ensures
        mac_key() != machine_key(),
        mac_key() != sqm_key(),
        mac_key() != dev_key(),
        machine_key() != sqm_key(),
        machine_key() != dev_key(),
        sqm_key() != dev_key(),
{
    reveal_strlit("telemetry.macMachineId");
    reveal_strlit("telemetry.machineId");
    reveal_strlit("telemetry.sqmId");
    reveal_strlit("telemetry.devDeviceId");
    assert(mac_key().len() == 22);
    assert(machine_key().len() == 19);
    assert(sqm_key().len() == 15);
    assert(dev_key().len() == 21);
}

fn is_key(k: &String, name: &str) -> (r: bool)
    ensures
        r == (k@ == name@),
{
    let n = String::from_str(name);
    *k == n
}

/// The identity record that the entries hold: for each identity key, the
/// text of the last entry with that key whose value is a JSON string, and
/// the empty string where there is none.
pub fn device_info_from_entries(entries: &Vec<ConfigEntry>) -> (r: CursorDeviceInfo)
    ensures
        r@ == identity_of(entries_view(entries@)),
{
    let mut info = CursorDeviceInfo::empty();
    let mut i: usize = 0;
    while i < entries.len()
        invariant
            0 <= i <= entries.len(),
            info@ == identity_of(entries_view(entries@.subrange(0, i as int))),
        decreases entries.len() - i,
    {
        let ghost before = entries_view(entries@.subrange(0, i as int));
        let ghost after = entries_view(entries@.subrange(0, i + 1));
        proof {
            assert(after.drop_last() =~= before);
            assert(after.last() == entry_view(entries@[i as int]));
        }
        let e = &entries[i];
        match &e.value {
            FieldValue::Text(s) => {
                if is_key(&e.key, "telemetry.macMachineId") {
                    info.mac_machine_id = s.clone();
                } else if is_key(&e.key, "telemetry.machineId") {
                    info.machine_id = s.clone();
                } else if is_key(&e.key, "telemetry.sqmId") {
                    info.sqm_id = s.clone();
                } else if is_key(&e.key, "telemetry.devDeviceId") {
                    info.dev_device_id = s.clone();
                }
            },
            FieldValue::Other(_) => {},
        }
        proof {
            lemma_identity_keys_distinct();
            assert(info@ == identity_of(after));
        }
        i = i + 1;
    }
    assert(entries@.subrange(0, entries.len() as int) =~= entries@);
    info
}

/// Decodes the configuration document `contents`: the identity record it
/// holds, or the empty record where it is not a JSON object.
pub fn read_device_info(contents: &str) -> (r: CursorDeviceInfo)
    ensures
        r@ == match parsed_object(contents@) {
            Some(e) => identity_of(e),
            None => empty_identity(),
        },
{
    match parse_object(contents) {
        Some(entries) => device_info_from_entries(&entries),
        None => CursorDeviceInfo::empty(),
    }
}

fn is_identity_key_exec(k: &String) -> (r: bool)
    ensures
        r == is_identity_key(k@),
{
    is_key(k, "telemetry.macMachineId") || is_key(k, "telemetry.machineId") || is_key(
        k,
        "telemetry.sqmId",
    ) || is_key(k, "telemetry.devDeviceId")
}

fn text_entry(key: &str, text: String) -> (r: ConfigEntry)
    ensures
        entry_view(r) == (key@, FieldView::Text(text@)),
{
    ConfigEntry { key: String::from_str(key), value: FieldValue::Text(text) }
}

/// The document with its identity fields set to `info`: every other entry is
/// kept, in order, and the four identity entries follow them.
pub fn merge_identity(entries: Vec<ConfigEntry>, info: &CursorDeviceInfo) -> (r: Vec<ConfigEntry>)
    ensures
        entries_view(r@) == merged_entries(entries_view(entries@), info@),
{
    let ghost orig = entries_view(entries@);
    let mut rest = entries;
    let mut out: Vec<ConfigEntry> = Vec::new();
    let ghost n = rest@.len();
    while rest.len() > 0
        invariant
            orig.len() == n,
            rest@.len() <= n,
            entries_view(rest@) =~= orig.subrange(n - rest@.len(), n as int),
            entries_view(out@) == unrelated_entries(orig.subrange(0, n - rest@.len())),
        decreases rest@.len(),
    {
        let ghost k = n - rest@.len();
        let ghost old_rest = rest@;
        let e = rest.remove(0);
        proof {
            assert(entries_view(old_rest)[0] == entry_view(old_rest[0]));
            assert(entries_view(old_rest)[0] == orig[k]);
            assert(entry_view(e) == orig[k]);
            assert(rest@ =~= old_rest.subrange(1, old_rest.len() as int));
            assert(orig.subrange(0, k + 1).drop_last() =~= orig.subrange(0, k));
            assert forall|j: int| 0 <= j < rest@.len() implies entries_view(rest@)[j] == orig[k
                + 1 + j] by {
                assert(entries_view(old_rest)[j + 1] == entry_view(old_rest[j + 1]));
            }
            assert(entries_view(rest@) =~= orig.subrange(n - rest@.len(), n as int));
        }
        if !is_identity_key_exec(&e.key) {
            out.push(e);
            assert(entries_view(out@) =~= unrelated_entries(orig.subrange(0, k + 1)));
        }
    }
    assert(orig.subrange(0, n as int) =~= orig);
    let ghost kept = entries_view(out@);
    out.push(text_entry("telemetry.macMachineId", info.mac_machine_id.clone()));
    out.push(text_entry("telemetry.machineId", info.machine_id.clone()));
    out.push(text_entry("telemetry.sqmId", info.sqm_id.clone()));
    out.push(text_entry("telemetry.devDeviceId", info.dev_device_id.clone()));
    assert(entries_view(out@) =~= kept + identity_entries(info@));
    out
}

/// The document that a reset starts from: the entries of `existing` where it
/// is a JSON object, and no entry otherwise.
pub open spec fn base_entries(existing: Option<&str>) -> EntriesView {
    match existing {
        Some(t) => match parsed_object(t@) {
            Some(e) => e,
            None => Seq::empty(),
        },
        None => Seq::empty(),
    }
}

/// The text of the configuration document after a reset to `info`, given the
/// current text (`None` where it could not be read).
pub fn reset_document(existing: Option<&str>, info: &CursorDeviceInfo) -> (r: String)
    ensures
        r@ == pretty_object(merged_entries(base_entries(existing), info@)),
{
    let base = match existing {
        Some(t) => match parse_object(t) {
            Some(e) => e,
            None => Vec::new(),
        },
        None => Vec::new(),
    };
    assert(entries_view(base@) =~= base_entries(existing));
    let merged = merge_identity(base, info);
    render_object(merged)
}

proof fn lemma_unrelated_idempotent(e: EntriesView)
    ensures
        unrelated_entries(unrelated_entries(e)) == unrelated_entries(e),
    decreases e.len(),
{
    if e.len() > 0 {
        lemma_unrelated_idempotent(e.drop_last());
        let u = unrelated_entries(e.drop_last());
        if !is_identity_key(e.last().0) {
            assert(u.push(e.last()).drop_last() =~= u);
        }
    }
}

/// After a reset, reading the document gives back exactly the new identity.
pub proof fn law_reset_then_read(e: EntriesView, d: DeviceIdentity)
    ensures
        identity_of(merged_entries(e, d)) == d,
{
    lemma_identity_keys_distinct();
    let m = merged_entries(e, d);
    let u = unrelated_entries(e);
    assert(m.drop_last() =~= u + identity_entries(d).subrange(0, 3));
    assert(m.drop_last().drop_last() =~= u + identity_entries(d).subrange(0, 2));
    assert(m.drop_last().drop_last().drop_last() =~= u + identity_entries(d).subrange(0, 1));
    let m1 = m.drop_last();
    let m2 = m1.drop_last();
    let m3 = m2.drop_last();
    assert(text_for(m, dev_key()) == d.dev_device_id);
    assert(text_for(m, sqm_key()) == text_for(m1, sqm_key()));
    assert(text_for(m1, sqm_key()) == d.sqm_id);
    assert(text_for(m, machine_key()) == text_for(m1, machine_key()));
    assert(text_for(m1, machine_key()) == text_for(m2, machine_key()));
    assert(text_for(m2, machine_key()) == d.machine_id);
    assert(text_for(m, mac_key()) == text_for(m1, mac_key()));
    assert(text_for(m1, mac_key()) == text_for(m2, mac_key()));
    assert(text_for(m2, mac_key()) == text_for(m3, mac_key()));
    assert(text_for(m3, mac_key()) == d.mac_machine_id);
}

/// A reset keeps every entry that is not an identity field, unchanged and in
/// the same order.
pub proof fn law_reset_keeps_unrelated(e: EntriesView, d: DeviceIdentity)
    ensures
        unrelated_entries(merged_entries(e, d)) == unrelated_entries(e),
{
    lemma_identity_keys_distinct();
    let u = unrelated_entries(e);
    let m = merged_entries(e, d);
    let ids = identity_entries(d);
    assert(m.drop_last() =~= u + ids.subrange(0, 3));
    assert(m.drop_last().drop_last() =~= u + ids.subrange(0, 2));
    assert(m.drop_last().drop_last().drop_last() =~= u + ids.subrange(0, 1));
    assert(m.drop_last().drop_last().drop_last().drop_last() =~= u);
    assert(unrelated_entries(m) == unrelated_entries(m.drop_last()));
    assert(unrelated_entries(m.drop_last()) == unrelated_entries(m.drop_last().drop_last()));
    assert(unrelated_entries(m.drop_last().drop_last()) == unrelated_entries(
        m.drop_last().drop_last().drop_last(),
    ));
    assert(unrelated_entries(m.drop_last().drop_last().drop_last()) == unrelated_entries(u));
    lemma_unrelated_idempotent(e);
}

} // verus!
