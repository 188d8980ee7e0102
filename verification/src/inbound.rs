//! The messages that come from the wristband.
use crate::element;
use crate::json;
use crate::json::JsonView;
use crate::settings::SettingMap;
use crate::text;
use serde_json::Value;
use vstd::prelude::*;

verus! {

// ---------------------------------------------------------------- the envelope

/// The text inside an event of the host: its `payloadText`, else its `payload` as
/// text, else the event itself.
pub open spec fn payload_text(event: Seq<char>) -> Seq<char> {
    match json::json_parse(event) {
        Some(v) => match json::get_text(v, "payloadText"@) {
            Some(t) => t,
            None => match json::get(v, "payload"@) {
                Some(JsonView::Text(t)) => t,
                Some(x) => json::json_text(x),
                None => event,
            },
        },
        None => event,
    }
}

/// The text inside an event of the host.
pub fn extract_payload_text(event: &str) -> (r: String)
    ensures
        r@ == payload_text(event@),
{
    if let Some(v) = json::parse(event) {
        if let Some(t) = json::member_text(&v, "payloadText") {
            return t;
        }
        if let Some(x) = json::member(&v, "payload") {
            return match x.as_str() {
                Some(t) => t.to_owned(),
                None => json::value_text(x),
            };
        }
    }
    event.to_owned()
}

// ---------------------------------------------------------------- handshakes

/// The version in a handshake, written as a number or as text. A number outside
/// the 64-bit range counts as the bound that it passes.
pub open spec fn version_of(v: JsonView) -> Option<i64> {
    match json::get(v, "version"@) {
        Some(JsonView::Integer(n)) => if n > i64::MAX {
            Some(i64::MAX)
        } else if n < i64::MIN {
            Some(i64::MIN)
        } else {
            Some(n as i64)
        },
        Some(JsonView::Real { text, truncated }) => Some(truncated),
        Some(JsonView::Text(t)) => text::i64_value(text::trim(t)),
        _ => None,
    }
}

/// The version in a handshake.
pub fn extract_version(message: &Value) -> (r: Option<i64>)
    ensures
        r == version_of(json::json_view(*message)),
{
    let value = match json::member(message, "version") {
        Some(v) => v,
        None => {
            return None;
        },
    };
    if let Some(n) = value.as_i64() {
        return Some(n);
    }
    if let Some(n) = json::truncated(value) {
        return Some(n);
    }
    match value.as_str() {
        Some(t) => text::parse_i64(text::trimmed(t).as_str()),
        None => None,
    }
}

/// A member that counts, zero where there is none.
pub open spec fn count_of(v: JsonView, key: Seq<char>) -> usize {
    match json::get_unsigned(v, key) {
        Some(n) => n as usize,
        None => 0,
    }
}

fn member_count(v: &Value, key: &str) -> (r: usize)
    ensures
        r == count_of(json::json_view(*v), key@),
{
    match json::member_unsigned(v, key) {
        Some(n) => n as usize,
        None => 0,
    }
}

/// The count of a handshake.
pub fn handshake_count(message: &Value) -> (r: usize)
    ensures
        r == count_of(json::json_view(*message), "count"@),
{
    member_count(message, "count")
}

/// The tag of a message, empty where there is none.
pub open spec fn tag_of(v: JsonView) -> Seq<char> {
    match json::get_text(v, "tag"@) {
        Some(t) => t,
        None => Seq::empty(),
    }
}

/// The tag of a message.
pub fn message_tag(message: &Value) -> (r: String)
    ensures
        r@ == tag_of(json::json_view(*message)),
{
    match json::member_text(message, "tag") {
        Some(t) => t,
        None => String::new(),
    }
}

// ---------------------------------------------------------------- replies

/// What the wristband says.
pub enum Reply {
    /// The chapters of the present book that it has, and whether it has the cover.
    BookStatus { synced: Vec<usize>, has_cover: bool },
    StorageInfo { product: Option<String>, total: u64, avail: u64 },
    /// The settings with a value, and how many settings there were.
    SettingsData { values: SettingMap, count: usize },
    Success { message: Option<String> },
    Error { message: Option<String> },
    /// It waits for the chapter.
    Ready { start_from: usize },
    NextChunk,
    ChapterChunkComplete,
    ChapterSaved,
    CoverAcked,
    TransferFinished,
    Cancel,
    Other,
}

/// What the wristband says, as mathematics.
#[verifier::ext_equal]
pub enum ReplyView {
    BookStatus { synced: Seq<usize>, has_cover: bool },
    StorageInfo { product: Option<Seq<char>>, total: u64, avail: u64 },
    SettingsData { values: Map<Seq<char>, Seq<char>>, count: nat },
    Success { message: Option<Seq<char>> },
    Error { message: Option<Seq<char>> },
    Ready { start_from: usize },
    NextChunk,
    ChapterChunkComplete,
    ChapterSaved,
    CoverAcked,
    TransferFinished,
    Cancel,
    Other,
}

impl View for Reply {
    type V = ReplyView;

    open spec fn view(&self) -> ReplyView {
        match *self {
            Reply::BookStatus { synced, has_cover } => ReplyView::BookStatus {
                synced: synced@,
                has_cover,
            },
            Reply::StorageInfo { product, total, avail } => ReplyView::StorageInfo {
                product: element::maybe(product),
                total,
                avail,
            },
            Reply::SettingsData { values, count } => ReplyView::SettingsData {
                values: values@,
                count: count as nat,
            },
            Reply::Success { message } => ReplyView::Success { message: element::maybe(message) },
            Reply::Error { message } => ReplyView::Error { message: element::maybe(message) },
            Reply::Ready { start_from } => ReplyView::Ready { start_from },
            Reply::NextChunk => ReplyView::NextChunk,
            Reply::ChapterChunkComplete => ReplyView::ChapterChunkComplete,
            Reply::ChapterSaved => ReplyView::ChapterSaved,
            Reply::CoverAcked => ReplyView::CoverAcked,
            Reply::TransferFinished => ReplyView::TransferFinished,
            Reply::Cancel => ReplyView::Cancel,
            Reply::Other => ReplyView::Other,
        }
    }
}

impl Reply {
    pub open spec fn wf(&self) -> bool {
        *self matches Reply::SettingsData { values, count } ==> values.wf()
    }
}

/// The body of a message: its `data`, else the message itself.
pub open spec fn body_of(v: JsonView) -> JsonView {
    match json::get(v, "data"@) {
        Some(x) => x,
        None => v,
    }
}

/// The numbers among the items, in order.
pub open spec fn numbers(items: Seq<JsonView>) -> Seq<usize>
    decreases items.len(),
{
    if items.len() == 0 {
        Seq::empty()
    } else {
        let before = numbers(items.drop_last());
        match json::unsigned(items.last()) {
            Some(n) => before.push(n as usize),
            None => before,
        }
    }
}

/// The numbers of a member that is a list.
pub open spec fn number_list(v: JsonView, key: Seq<char>) -> Seq<usize> {
    match json::get(v, key) {
        Some(JsonView::Array(items)) => numbers(items),
        _ => Seq::empty(),
    }
}

/// A member that is a 64-bit number, zero where there is none.
pub open spec fn amount(v: JsonView, key: Seq<char>) -> u64 {
    match json::get_unsigned(v, key) {
        Some(n) => n,
        None => 0,
    }
}

/// The value of a setting as text: a text as it is, nothing for null, and the JSON
/// text of anything else.
pub open spec fn value_text(v: JsonView) -> Seq<char> {
    match v {
        JsonView::Text(t) => t,
        JsonView::Null => Seq::empty(),
        _ => json::json_text(v),
    }
}

/// The members with a text.
pub open spec fn setting_values(m: Map<Seq<char>, JsonView>) -> Map<Seq<char>, Seq<char>> {
    Map::new(
        |k: Seq<char>| m.contains_key(k) && value_text(m[k]).len() > 0,
        |k: Seq<char>| value_text(m[k]),
    )
}

/// The settings of a reply.
pub open spec fn settings_reply(v: JsonView) -> ReplyView {
    match json::get(v, "settings"@) {
        Some(JsonView::Object(m)) => ReplyView::SettingsData {
            values: setting_values(m),
            count: m.dom().len(),
        },
        _ => ReplyView::SettingsData { values: Map::empty(), count: 0 },
    }
}

/// What the body of a message says.
pub open spec fn reply_of(v: JsonView) -> ReplyView {
    let kind = match json::get_text(v, "type"@) {
        Some(t) => t,
        None => Seq::empty(),
    };
    if kind == "book_status"@ {
        ReplyView::BookStatus {
            synced: number_list(v, "syncedChapters"@),
            has_cover: json::get_bool(v, "hasCover"@) == Some(true),
        }
    } else if kind == "storage_info"@ {
        ReplyView::StorageInfo {
            product: json::get_text(v, "product"@),
            total: amount(v, "totalStorage"@),
            avail: if amount(v, "actualAvailable"@) > 0 {
                amount(v, "actualAvailable"@)
            } else {
                amount(v, "availableStorage"@)
            },
        }
    } else if kind == "settings_data"@ {
        settings_reply(v)
    } else if kind == "success"@ {
        ReplyView::Success { message: json::get_text(v, "message"@) }
    } else if kind == "error"@ {
        ReplyView::Error { message: json::get_text(v, "message"@) }
    } else if kind == "ready"@ {
        ReplyView::Ready { start_from: count_of(v, "count"@) }
    } else if kind == "next_chunk"@ {
        ReplyView::NextChunk
    } else if kind == "chapter_chunk_complete"@ {
        ReplyView::ChapterChunkComplete
    } else if kind == "chapter_saved"@ {
        ReplyView::ChapterSaved
    } else if kind == "cover_chunk_received"@ || kind == "cover_ready"@ {
        ReplyView::CoverAcked
    } else if kind == "transfer_finished"@ {
        ReplyView::TransferFinished
    } else if kind == "cancel"@ {
        ReplyView::Cancel
    } else {
        ReplyView::Other
    }
}

fn read_numbers(v: &Value, key: &str) -> (r: Vec<usize>)
    ensures
        r@ == number_list(json::json_view(*v), key@),
{
    let mut out: Vec<usize> = Vec::new();
    let list = match json::member(v, key) {
        Some(x) => x,
        None => {
            return out;
        },
    };
    let ghost view = json::json_view(*list);
    if let Some(items) = list.as_array() {
        let ghost all = view->Array_0;
        let mut i: usize = 0;
        assert(all.take(0) =~= Seq::empty());
        while i < items.len()
            invariant
                i <= items@.len(),
                items@.len() == all.len(),
                forall|j: int| 0 <= j < all.len() ==> json::json_view(#[trigger] items@[j]) == all[j],
                out@ == numbers(all.take(i as int)),
            decreases items@.len() - i,
        {
            assert(all.take(i + 1).drop_last() =~= all.take(i as int));
            if let Some(n) = items[i].as_u64() {
                out.push(n as usize);
            }
            i += 1;
        }
        assert(all.take(i as int) =~= all);
    }
    out
}

fn read_amount(v: &Value, key: &str) -> (r: u64)
    ensures
        r == amount(json::json_view(*v), key@),
{
    match json::member_unsigned(v, key) {
        Some(n) => n,
        None => 0,
    }
}

fn read_value(v: &Value) -> (r: String)
    ensures
        r@ == value_text(json::json_view(*v)),
{
    if let Some(t) = v.as_str() {
        return t.to_owned();
    }
    if v.is_null() {
        return String::new();
    }
    json::value_text(v)
}

/// The entry at `i` is for the key, and has a text.
spec fn entry_for(es: Seq<(String, &Value)>, k: Seq<char>, i: int) -> bool {
    0 <= i < es.len() && es[i].0@ == k && value_text(json::json_view(*es[i].1)).len() > 0
}

/// Entries with different keys that cover a map are as many as its keys.
proof fn lemma_entry_count(es: Seq<(String, &Value)>, m: Map<Seq<char>, JsonView>)
    requires
        forall|i: int| #![trigger es[i]] 0 <= i < es.len() ==> m.contains_key(es[i].0@),
        forall|i: int, j: int|
            0 <= i < j < es.len() ==> (#[trigger] es[i]).0@ != (#[trigger] es[j]).0@,
        forall|k: Seq<char>|
            m.contains_key(k) ==> exists|i: int| 0 <= i < es.len() && (#[trigger] es[i]).0@ == k,
    ensures
        es.len() == m.dom().len(),
{
    let keys = Seq::new(es.len(), |i: int| es[i].0@);
    assert(keys.no_duplicates()) by {
        assert forall|i: int, j: int| 0 <= i < keys.len() && 0 <= j < keys.len() && i != j implies
            keys[i] != keys[j] by {
            if i < j {
                assert(es[i].0@ != es[j].0@);
            } else {
                assert(es[j].0@ != es[i].0@);
            }
        }
    }
    keys.unique_seq_to_set();
    assert(keys.to_set() =~= m.dom()) by {
        assert forall|k: Seq<char>| keys.to_set().contains(k) <==> m.dom().contains(k) by {
            if keys.contains(k) {
                let i = choose|i: int| 0 <= i < keys.len() && keys[i] == k;
                assert(m.contains_key(es[i].0@));
            }
            if m.contains_key(k) {
                let i = choose|i: int| 0 <= i < es.len() && (#[trigger] es[i]).0@ == k;
                assert(keys[i] == k);
            }
        }
    }
}

fn read_settings(v: &Value) -> (r: Reply)
    ensures
        r.wf(),
        r@ == settings_reply(json::json_view(*v)),
{
    let mut values = SettingMap::new();
    let object = match json::member(v, "settings") {
        Some(x) => x,
        None => {
            return Reply::SettingsData { values, count: 0 };
        },
    };
    let es = match json::object_members(object) {
        Some(es) => es,
        None => {
            return Reply::SettingsData { values, count: 0 };
        },
    };
    let ghost m = json::json_view(*object)->Object_0;
    let mut i: usize = 0;
    while i < es.len()
        invariant
            i <= es@.len(),
            values.wf(),
            forall|j: int|
                #![trigger es@[j]]
                0 <= j < es@.len() ==> m.contains_key(es@[j].0@) && m[es@[j].0@]
                    == json::json_view(*es@[j].1),
            forall|j: int, k: int|
                0 <= j < k < es@.len() ==> (#[trigger] es@[j]).0@ != (#[trigger] es@[k]).0@,
            forall|k: Seq<char>| #[trigger]
                values@.contains_key(k) <==> exists|j: int| j < i && entry_for(es@, k, j),
            forall|k: Seq<char>| #[trigger] values@.contains_key(k) ==> values@[k] == value_text(m[k]),
        decreases es@.len() - i,
    {
        let value = read_value(es[i].1);
        let ghost before = values@;
        let ghost key = es@[i as int].0@;
        if !value.as_str().is_empty() {
            values.insert(es[i].0.as_str(), value.as_str());
            assert(entry_for(es@, key, i as int));
        }
        proof {
            assert forall|k: Seq<char>| #[trigger]
                values@.contains_key(k) <==> exists|j: int| j < i + 1 && entry_for(es@, k, j) by {
                if exists|j: int| j < i + 1 && entry_for(es@, k, j) {
                    let j = choose|j: int| j < i + 1 && entry_for(es@, k, j);
                    if j < i {
                        assert(before.contains_key(k));
                    }
                }
                if values@.contains_key(k) && k != key {
                    assert(before.contains_key(k));
                }
            }
        }
        i += 1;
    }
    proof {
        lemma_entry_count(es@, m);
        assert forall|k: Seq<char>|
            values@.contains_key(k) <==> setting_values(m).contains_key(k) by {
            if m.contains_key(k) && value_text(m[k]).len() > 0 {
                let j = choose|j: int| 0 <= j < es@.len() && (#[trigger] es@[j]).0@ == k;
                assert(entry_for(es@, k, j));
            }
        }
        assert(values@ =~= setting_values(m));
    }
    Reply::SettingsData { values, count: es.len() }
}

/// What the body of a message says.
pub fn read_reply(v: &Value) -> (r: Reply)
    ensures
        r.wf(),
        r@ == reply_of(json::json_view(*v)),
{
    let kind = match json::member_text(v, "type") {
        Some(t) => t,
        None => String::new(),
    };
    let kind = kind.as_str();
    if text::same_text(kind, "book_status") {
        let has_cover = match json::member_bool(v, "hasCover") {
            Some(b) => b,
            None => false,
        };
        Reply::BookStatus { synced: read_numbers(v, "syncedChapters"), has_cover }
    } else if text::same_text(kind, "storage_info") {
        let actual = read_amount(v, "actualAvailable");
        Reply::StorageInfo {
            product: json::member_text(v, "product"),
            total: read_amount(v, "totalStorage"),
            avail: if actual > 0 {
                actual
            } else {
                read_amount(v, "availableStorage")
            },
        }
    } else if text::same_text(kind, "settings_data") {
        read_settings(v)
    } else if text::same_text(kind, "success") {
        Reply::Success { message: json::member_text(v, "message") }
    } else if text::same_text(kind, "error") {
        Reply::Error { message: json::member_text(v, "message") }
    } else if text::same_text(kind, "ready") {
        Reply::Ready { start_from: member_count(v, "count") }
    } else if text::same_text(kind, "next_chunk") {
        Reply::NextChunk
    } else if text::same_text(kind, "chapter_chunk_complete") {
        Reply::ChapterChunkComplete
    } else if text::same_text(kind, "chapter_saved") {
        Reply::ChapterSaved
    } else if text::same_text(kind, "cover_chunk_received") || text::same_text(
        kind,
        "cover_ready",
    ) {
        Reply::CoverAcked
    } else if text::same_text(kind, "transfer_finished") {
        Reply::TransferFinished
    } else if text::same_text(kind, "cancel") {
        Reply::Cancel
    } else {
        Reply::Other
    }
}

/// What a message says.
pub fn read_message(message: &Value) -> (r: Reply)
    ensures
        r.wf(),
        r@ == reply_of(body_of(json::json_view(*message))),
{
    match json::member(message, "data") {
        Some(body) => read_reply(body),
        None => read_reply(message),
    }
}

} // verus!
