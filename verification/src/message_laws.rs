//! What holds of the messages, in both directions: which members they have, and what
//! each member says.
use crate::inbound;
use crate::inbound::ReplyView;
use crate::json;
use crate::json::JsonView;
use crate::protocol;
use crate::state::UiView;
use crate::text;
use vstd::prelude::*;

verus! {

// ---------------------------------------------------------------- what goes out

/// The member of the message with the name.
pub open spec fn says(m: protocol::Members, name: Seq<char>, v: JsonView) -> bool {
    m.contains_key(name) && m[name] == v
}

/// The message is for the book app, and names the action.
pub open spec fn for_app(m: protocol::Members, stat: Seq<char>) -> bool {
    says(m, "tag"@, JsonView::Text("file"@)) && says(m, "stat"@, JsonView::Text(stat))
}

/// The names of members differ from one another.
proof fn lemma_names()
    ensures
        "tag"@ != "stat"@,
        "tag"@ != "count"@,
        "tag"@ != "version"@,
        "count"@ != "version"@,
        "stat"@ != "count"@,
        "stat"@ != "data"@,
        "tag"@ != "data"@,
        "count"@ != "data"@,
        "tag"@ != "filename"@,
        "stat"@ != "filename"@,
        "tag"@ != "keys"@,
        "stat"@ != "keys"@,
        "tag"@ != "settings"@,
        "stat"@ != "settings"@,
        "tag"@ != "chunkIndex"@,
        "stat"@ != "chunkIndex"@,
        "tag"@ != "totalChunks"@,
        "stat"@ != "totalChunks"@,
        "chunkIndex"@ != "totalChunks"@,
        "chunkIndex"@ != "data"@,
        "totalChunks"@ != "data"@,
{
    reveal_strlit("tag");
    reveal_strlit("stat");
    reveal_strlit("count");
    reveal_strlit("version");
    reveal_strlit("data");
    reveal_strlit("filename");
    reveal_strlit("keys");
    reveal_strlit("settings");
    reveal_strlit("chunkIndex");
    reveal_strlit("totalChunks");
    assert("tag"@.len() == 3 && "stat"@.len() == 4 && "count"@.len() == 5 && "version"@.len() == 7);
    assert("data"@.len() == 4 && "data"@[0] == 'd' && "stat"@[0] == 's');
    assert("filename"@.len() == 8 && "keys"@.len() == 4 && "keys"@[0] == 'k');
    assert("settings"@.len() == 8 && "chunkIndex"@.len() == 10 && "totalChunks"@.len() == 11);
}

proof fn lemma_chunk_names()
    ensures
        "index"@ != "name"@,
        "index"@ != "wordCount"@,
        "index"@ != "content"@,
        "index"@ != "chunkNum"@,
        "index"@ != "totalChunks"@,
        "name"@ != "wordCount"@,
        "name"@ != "content"@,
        "name"@ != "chunkNum"@,
        "name"@ != "totalChunks"@,
        "wordCount"@ != "content"@,
        "wordCount"@ != "chunkNum"@,
        "wordCount"@ != "totalChunks"@,
        "content"@ != "chunkNum"@,
        "content"@ != "totalChunks"@,
        "chunkNum"@ != "totalChunks"@,
{
    reveal_strlit("index");
    reveal_strlit("name");
    reveal_strlit("wordCount");
    reveal_strlit("content");
    reveal_strlit("chunkNum");
    reveal_strlit("totalChunks");
    assert("index"@.len() == 5 && "name"@.len() == 4 && "wordCount"@.len() == 9 && "content"@.len()
        == 7 && "chunkNum"@.len() == 8 && "totalChunks"@.len() == 11);
}

proof fn lemma_start_names()
    ensures
        forall|i: int, j: int|
            0 <= i < j < start_names().len() ==> (#[trigger] start_names()[i]) != (
            #[trigger] start_names()[j]),
{
    reveal_strlit("tag");
    reveal_strlit("stat");
    reveal_strlit("filename");
    reveal_strlit("total");
    reveal_strlit("wordCount");
    reveal_strlit("startFrom");
    reveal_strlit("hasCover");
    reveal_strlit("author");
    reveal_strlit("summary");
    let names = start_names();
    let lens: Seq<nat> = seq![3, 4, 8, 5, 9, 9, 8, 6, 7];
    assert forall|k: int| 0 <= k < 9 implies (#[trigger] names[k]).len() == lens[k] by {
        if k < 5 {
        } else {
        }
    }
    assert(names[2][0] == 'f' && names[6][0] == 'h');
    assert(names[4][0] == 'w' && names[5][0] == 's');
    assert forall|i: int, j: int| 0 <= i < j < names.len() implies (#[trigger] names[i]) != (
    #[trigger] names[j]) by {
        if lens[i] == lens[j] {
            assert(i == 2 && j == 6 || i == 4 && j == 5);
        }
    }
}

/// The names of the members of the message that starts a transfer.
pub open spec fn start_names() -> Seq<Seq<char>> {
    seq![
        "tag"@,
        "stat"@,
        "filename"@,
        "total"@,
        "wordCount"@,
        "startFrom"@,
        "hasCover"@,
        "author"@,
        "summary"@,
    ]
}

/// The message that starts a transfer gives the title, the number of chapters and of
/// words, the chapter to begin with and whether a cover comes; the author and the
/// summary, word for word, exactly where they are not empty.
pub proof fn the_start_describes_the_book(
    filename: Seq<char>,
    total: nat,
    words: nat,
    start: nat,
    cover: bool,
    author: Seq<char>,
    summary: Seq<char>,
)
    ensures
        ({
            let m = protocol::start_transfer_members(
                filename,
                total,
                words,
                start,
                cover,
                Some(author),
                Some(summary),
            );
            &&& for_app(m, "startTransfer"@)
            &&& says(m, "filename"@, JsonView::Text(filename))
            &&& says(m, "total"@, JsonView::Integer(total as int))
            &&& says(m, "wordCount"@, JsonView::Integer(words as int))
            &&& says(m, "startFrom"@, JsonView::Integer(start as int))
            &&& says(m, "hasCover"@, JsonView::Bool(cover))
            &&& author.len() > 0 ==> says(m, "author"@, JsonView::Text(author))
            &&& author.len() == 0 ==> !m.contains_key("author"@)
            &&& summary.len() > 0 ==> says(m, "summary"@, JsonView::Text(summary))
            &&& summary.len() == 0 ==> !m.contains_key("summary"@)
            &&& forall|k: Seq<char>| #[trigger] m.contains_key(k) ==> start_names().contains(k)
        }),
{
    lemma_start_names();
    let names = start_names();
    assert(names[0] != names[1] && names[0] != names[2] && names[0] != names[3] && names[0]
        != names[4] && names[0] != names[5] && names[0] != names[6] && names[0] != names[7]
        && names[0] != names[8]);
    assert(names[1] != names[2] && names[1] != names[3] && names[1] != names[4] && names[1]
        != names[5] && names[1] != names[6] && names[1] != names[7] && names[1] != names[8]);
    assert(names[2] != names[3] && names[2] != names[4] && names[2] != names[5] && names[2]
        != names[6] && names[2] != names[7] && names[2] != names[8]);
    assert(names[3] != names[4] && names[3] != names[5] && names[3] != names[6] && names[3]
        != names[7] && names[3] != names[8]);
    assert(names[4] != names[5] && names[4] != names[6] && names[4] != names[7] && names[4]
        != names[8]);
    assert(names[5] != names[6] && names[5] != names[7] && names[5] != names[8]);
    assert(names[6] != names[7] && names[6] != names[8] && names[7] != names[8]);
}

/// A chunk of text comes with the number and the name of its chapter, the words of
/// the whole chapter, and its place among the chunks of the chapter.
pub proof fn a_chunk_says_where_it_belongs(
    index: nat,
    name: Seq<char>,
    words: nat,
    content: Seq<char>,
    number: nat,
    total: nat,
)
    ensures
        ({
            let data = protocol::chunk_data(index, name, words, content, number, total);
            let m = protocol::chunk_members(index, name, words, content, number, total);
            &&& says(data, "index"@, JsonView::Integer(index as int))
            &&& says(data, "name"@, JsonView::Text(name))
            &&& says(data, "wordCount"@, JsonView::Integer(words as int))
            &&& says(data, "content"@, JsonView::Text(content))
            &&& says(data, "chunkNum"@, JsonView::Integer(number as int))
            &&& says(data, "totalChunks"@, JsonView::Integer(total as int))
            &&& for_app(m, "d"@)
            &&& says(m, "count"@, JsonView::Integer(index as int))
            &&& says(m, "data"@, JsonView::Text(protocol::wire(data)))
        }),
{
    lemma_names();
    lemma_chunk_names();
}

/// A chunk of the cover comes with its place among the chunks of the cover.
pub proof fn a_cover_chunk_says_where_it_belongs(index: nat, total: nat, data: Seq<char>)
    ensures
        ({
            let m = protocol::cover_chunk_members(index, total, data);
            &&& for_app(m, "cover_chunk"@)
            &&& says(m, "chunkIndex"@, JsonView::Integer(index as int))
            &&& says(m, "totalChunks"@, JsonView::Integer(total as int))
            &&& says(m, "data"@, JsonView::Text(data))
        }),
{
    lemma_names();
}

/// The other messages of a transfer and the questions say what they are for.
pub proof fn messages_name_their_action(stat: Seq<char>, index: nat, book: Seq<char>)
    ensures
        for_app(protocol::action(stat), stat),
        for_app(protocol::chapter_complete_members(index), "chapter_complete"@),
        says(protocol::chapter_complete_members(index), "count"@, JsonView::Integer(index as int)),
        for_app(protocol::book_status_members(book), "get_book_status"@),
        says(protocol::book_status_members(book), "filename"@, JsonView::Text(book)),
{
    lemma_names();
}

/// A setting is written by an object whose one member is the key with its value.
pub proof fn a_written_setting_has_its_key(key: Seq<char>, value: Seq<char>)
    ensures
        ({
            let m = protocol::set_setting_members(key, value);
            &&& for_app(m, "set_settings"@)
            &&& m.contains_key("settings"@) && (m["settings"@] matches JsonView::Object(o) && says(
                o,
                key,
                JsonView::Text(value),
            ) && forall|k: Seq<char>| #[trigger] o.contains_key(k) ==> k == key)
        }),
{
    lemma_names();
}

/// The question for settings lists the keys, all of them and in order.
pub proof fn settings_are_asked_for_by_key(keys: Seq<Seq<char>>)
    ensures
        ({
            let m = protocol::get_settings_members(keys);
            &&& for_app(m, "get_settings"@)
            &&& m.contains_key("keys"@) && (m["keys"@] matches JsonView::Array(items) && items.len()
                == keys.len() && forall|i: int|
                0 <= i < keys.len() ==> #[trigger] items[i] == JsonView::Text(keys[i]))
        }),
{
    lemma_names();
}

/// A handshake declares the version 126510, or that of the wristband where it is
/// higher.
pub proof fn a_handshake_declares_a_version(count: nat, peer: Option<i64>)
    ensures
        ({
            let m = protocol::handshake_members(count, peer);
            &&& says(m, "tag"@, JsonView::Text("__hs__"@))
            &&& says(m, "count"@, JsonView::Integer(count as int))
            &&& m.contains_key("version"@) && (m["version"@] matches JsonView::Integer(v) && v
                >= 126510 && (peer matches Some(p) ==> v >= p) && (v == 126510 || (peer matches Some(
                p,
            ) && v == p)))
        }),
{
    lemma_names();
}

// ---------------------------------------------------------------- what comes in

/// The member of the value, where it is an object.
pub open spec fn has(v: JsonView, name: Seq<char>, x: JsonView) -> bool {
    v matches JsonView::Object(m) && m.contains_key(name) && m[name] == x
}

/// The value has no such member.
pub open spec fn lacks(v: JsonView, name: Seq<char>) -> bool {
    v matches JsonView::Object(m) ==> !m.contains_key(name)
}

/// The message says of itself what it is.
pub open spec fn kind_is(v: JsonView, kind: Seq<char>) -> bool {
    has(v, "type"@, JsonView::Text(kind))
}

/// The names of the answers.
pub open spec fn reply_names() -> Seq<Seq<char>> {
    seq![
        "book_status"@,
        "storage_info"@,
        "settings_data"@,
        "success"@,
        "error"@,
        "ready"@,
        "next_chunk"@,
        "chapter_chunk_complete"@,
        "chapter_saved"@,
        "cover_chunk_received"@,
        "cover_ready"@,
        "transfer_finished"@,
        "cancel"@,
    ]
}

proof fn lemma_reply_names()
    ensures
        forall|i: int, j: int|
            0 <= i < j < reply_names().len() ==> (#[trigger] reply_names()[i]) != (
            #[trigger] reply_names()[j]),
{
    reveal_strlit("book_status");
    reveal_strlit("storage_info");
    reveal_strlit("settings_data");
    reveal_strlit("success");
    reveal_strlit("error");
    reveal_strlit("ready");
    reveal_strlit("next_chunk");
    reveal_strlit("chapter_chunk_complete");
    reveal_strlit("chapter_saved");
    reveal_strlit("cover_chunk_received");
    reveal_strlit("cover_ready");
    reveal_strlit("transfer_finished");
    reveal_strlit("cancel");
    let names = reply_names();
    let lens: Seq<nat> = seq![11, 12, 13, 7, 5, 5, 10, 22, 13, 20, 11, 17, 6];
    assert forall|k: int| 0 <= k < 13 implies (#[trigger] names[k]).len() == lens[k] by {
        if k < 7 {
        } else {
        }
    }
    assert(names[0][0] == 'b' && names[10][0] == 'c');
    assert(names[2][0] == 's' && names[8][0] == 'c');
    assert(names[4][0] == 'e' && names[5][0] == 'r');
    assert forall|i: int, j: int| 0 <= i < j < names.len() implies (#[trigger] names[i]) != (
    #[trigger] names[j]) by {
        if lens[i] == lens[j] {
            assert(i == 0 && j == 10 || i == 2 && j == 8 || i == 4 && j == 5);
        }
    }
}

/// The answers of a transfer are told apart by what they call themselves.
pub proof fn answers_are_told_by_name(v: JsonView)
    ensures
        kind_is(v, "next_chunk"@) ==> inbound::reply_of(v) is NextChunk,
        kind_is(v, "chapter_chunk_complete"@) ==> inbound::reply_of(v) is ChapterChunkComplete,
        kind_is(v, "chapter_saved"@) ==> inbound::reply_of(v) is ChapterSaved,
        kind_is(v, "cover_chunk_received"@) ==> inbound::reply_of(v) is CoverAcked,
        kind_is(v, "cover_ready"@) ==> inbound::reply_of(v) is CoverAcked,
        kind_is(v, "transfer_finished"@) ==> inbound::reply_of(v) is TransferFinished,
        kind_is(v, "cancel"@) ==> inbound::reply_of(v) is Cancel,
        kind_is(v, "ready"@) ==> inbound::reply_of(v) is Ready,
        kind_is(v, "book_status"@) ==> inbound::reply_of(v) is BookStatus,
        kind_is(v, "storage_info"@) ==> inbound::reply_of(v) is StorageInfo,
        kind_is(v, "settings_data"@) ==> inbound::reply_of(v) is SettingsData,
        kind_is(v, "success"@) ==> inbound::reply_of(v) is Success,
        kind_is(v, "error"@) ==> inbound::reply_of(v) is Error,
        (forall|i: int| 0 <= i < reply_names().len() ==> !kind_is(v, #[trigger] reply_names()[i]))
            ==> inbound::reply_of(v) is Other,
{
    lemma_reply_names();
    let names = reply_names();
    if forall|i: int| 0 <= i < names.len() ==> !kind_is(v, #[trigger] names[i]) {
        assert(!kind_is(v, names[0]) && !kind_is(v, names[1]) && !kind_is(v, names[2]) && !kind_is(
            v,
            names[3],
        ) && !kind_is(v, names[4]) && !kind_is(v, names[5]) && !kind_is(v, names[6]) && !kind_is(
            v,
            names[7],
        ) && !kind_is(v, names[8]) && !kind_is(v, names[9]) && !kind_is(v, names[10]) && !kind_is(
            v,
            names[11],
        ) && !kind_is(v, names[12]));
        lemma_unnamed(v);
    } else {
        let i = choose|i: int| 0 <= i < names.len() && kind_is(v, #[trigger] names[i]);
        assert forall|j: int| 0 <= j < names.len() && j != i implies #[trigger] names[j] != names[i] by {
            if j < i {
                assert(names[j] != names[i]);
            } else {
                assert(names[i] != names[j]);
            }
        }
        assert(names[0] == "book_status"@ && names[1] == "storage_info"@ && names[2]
            == "settings_data"@ && names[3] == "success"@ && names[4] == "error"@ && names[5]
            == "ready"@ && names[6] == "next_chunk"@);
        assert(names[7] == "chapter_chunk_complete"@ && names[8] == "chapter_saved"@ && names[9]
            == "cover_chunk_received"@ && names[10] == "cover_ready"@ && names[11]
            == "transfer_finished"@ && names[12] == "cancel"@);
    }
}

/// No answer has an empty name.
proof fn lemma_unnamed(v: JsonView)
    requires
        forall|i: int| 0 <= i < reply_names().len() ==> !kind_is(v, #[trigger] reply_names()[i]),
    ensures
        inbound::reply_of(v) is Other,
{
    reveal_strlit("book_status");
    reveal_strlit("storage_info");
    reveal_strlit("settings_data");
    reveal_strlit("success");
    reveal_strlit("error");
    reveal_strlit("ready");
    reveal_strlit("next_chunk");
    reveal_strlit("chapter_chunk_complete");
    reveal_strlit("chapter_saved");
    reveal_strlit("cover_chunk_received");
    reveal_strlit("cover_ready");
    reveal_strlit("transfer_finished");
    reveal_strlit("cancel");
    let names = reply_names();
    let kind = match json::get_text(v, "type"@) {
        Some(t) => t,
        None => Seq::empty(),
    };
    assert forall|i: int| 0 <= i < names.len() implies kind != #[trigger] names[i] by {
        assert(!kind_is(v, names[i]));
        if i < 7 {
            assert(names[i].len() > 0);
        } else {
            assert(names[i].len() > 0);
        }
    }
    assert(kind != names[0] && kind != names[1] && kind != names[2] && kind != names[3] && kind
        != names[4] && kind != names[5] && kind != names[6]);
    assert(kind != names[7] && kind != names[8] && kind != names[9] && kind != names[10] && kind
        != names[11] && kind != names[12]);
}

/// What an answer tells is read from its members: the chapter that the wristband
/// waits for, the chapters and the cover that it has, its storage, and its message.
pub proof fn answers_are_read_by_member(
    v: JsonView,
    n: usize,
    t: Seq<char>,
    items: Seq<JsonView>,
    b: bool,
)
    ensures
        kind_is(v, "ready"@) && has(v, "count"@, JsonView::Integer(n as int)) ==> inbound::reply_of(
            v,
        ) == (ReplyView::Ready { start_from: n }),
        kind_is(v, "ready"@) && lacks(v, "count"@) ==> inbound::reply_of(v) == (ReplyView::Ready {
            start_from: 0,
        }),
        kind_is(v, "error"@) && has(v, "message"@, JsonView::Text(t)) ==> inbound::reply_of(v) == (
        ReplyView::Error { message: Some(t) }),
        kind_is(v, "error"@) && lacks(v, "message"@) ==> inbound::reply_of(v) == (ReplyView::Error {
            message: None,
        }),
        kind_is(v, "success"@) && has(v, "message"@, JsonView::Text(t)) ==> inbound::reply_of(v)
            == (ReplyView::Success { message: Some(t) }),
        kind_is(v, "book_status"@) && has(v, "syncedChapters"@, JsonView::Array(items)) && has(
            v,
            "hasCover"@,
            JsonView::Bool(b),
        ) ==> (inbound::reply_of(v) matches ReplyView::BookStatus { synced, has_cover } && has_cover
            == b && ((forall|i: int| 0 <= i < items.len() ==> whole(#[trigger] items[i])) ==> (
        synced.len() == items.len() && forall|i: int|
            0 <= i < items.len() ==> items[i] == JsonView::Integer(#[trigger] synced[i] as int)))),
        kind_is(v, "book_status"@) && lacks(v, "hasCover"@) ==> (inbound::reply_of(
            v,
        ) matches ReplyView::BookStatus { synced, has_cover } && !has_cover),
        kind_is(v, "storage_info"@) && has(v, "product"@, JsonView::Text(t)) ==> (inbound::reply_of(
            v,
        ) matches ReplyView::StorageInfo { product, total, avail } && product == Some(t)),
{
    answers_are_told_by_name(v);
    if has(v, "syncedChapters"@, JsonView::Array(items)) {
        lemma_numbers(items);
    }
}

/// A number that can count.
pub open spec fn whole(v: JsonView) -> bool {
    v matches JsonView::Integer(n) && 0 <= n <= u32::MAX
}

proof fn lemma_numbers(items: Seq<JsonView>)
    ensures
        (forall|i: int| 0 <= i < items.len() ==> whole(#[trigger] items[i])) ==> (inbound::numbers(
            items,
        ).len() == items.len() && forall|i: int|
            0 <= i < items.len() ==> items[i] == JsonView::Integer(
                #[trigger] inbound::numbers(items)[i] as int,
            )),
    decreases items.len(),
{
    if items.len() > 0 && (forall|i: int| 0 <= i < items.len() ==> whole(#[trigger] items[i])) {
        let before = items.drop_last();
        assert forall|i: int| 0 <= i < before.len() implies whole(#[trigger] before[i]) by {
            assert(before[i] == items[i]);
        }
        lemma_numbers(before);
        assert(whole(items[items.len() - 1]));
        let all = inbound::numbers(items);
        assert forall|i: int| 0 <= i < items.len() implies items[i] == JsonView::Integer(
            #[trigger] all[i] as int,
        ) by {
            if i < before.len() {
                assert(all[i] == inbound::numbers(before)[i]);
                assert(before[i] == items[i]);
            }
        }
    }
}

/// The storage of the wristband is what it says is really available, or where it does
/// not say so, what it says is available; and its total.
pub proof fn storage_is_read_by_member(v: JsonView, total: u64, really: u64, avail: u64)
    requires
        kind_is(v, "storage_info"@),
        has(v, "totalStorage"@, JsonView::Integer(total as int)),
        has(v, "availableStorage"@, JsonView::Integer(avail as int)),
    ensures
        has(v, "actualAvailable"@, JsonView::Integer(really as int)) && really > 0 ==> (
        inbound::reply_of(v) matches ReplyView::StorageInfo { product, total: t, avail: a } && t
            == total && a == really),
        lacks(v, "actualAvailable"@) ==> (inbound::reply_of(v) matches ReplyView::StorageInfo {
            product,
            total: t,
            avail: a,
        } && t == total && a == avail),
        has(v, "actualAvailable"@, JsonView::Integer(0)) ==> (inbound::reply_of(
            v,
        ) matches ReplyView::StorageInfo { product, total: t, avail: a } && t == total && a
            == avail),
{
    answers_are_told_by_name(v);
}

/// The settings that the wristband gives are the members of its list that have a
/// text: a text as it is, and any other value but null by its JSON text.
pub proof fn settings_are_read_by_key(
    v: JsonView,
    given: Map<Seq<char>, JsonView>,
    key: Seq<char>,
)
    requires
        kind_is(v, "settings_data"@),
        has(v, "settings"@, JsonView::Object(given)),
    ensures
        inbound::reply_of(v) matches ReplyView::SettingsData { values, count } && count
            == given.dom().len() && ((given.contains_key(key) ==> match given[key] {
            JsonView::Text(t) => if t.len() > 0 {
                values.contains_key(key) && values[key] == t
            } else {
                !values.contains_key(key)
            },
            JsonView::Null => !values.contains_key(key),
            x => json::json_text(x).len() > 0 ==> values.contains_key(key) && values[key]
                == json::json_text(x),
        }) && (!given.contains_key(key) ==> !values.contains_key(key))),
{
    answers_are_told_by_name(v);
}

/// A message is taken as what its tag says: a handshake by its count and version, and
/// one for the book app by its data, or by itself where it has none. Any message is a
/// sign of life.
pub proof fn messages_go_by_their_tag(
    s: UiView,
    v: JsonView,
    body: JsonView,
    tag: Seq<char>,
    n: usize,
    now: u64,
)
    requires
        has(v, "tag"@, JsonView::Text(tag)),
    ensures
        ({
            let alive = UiView { last_inbound_at: Some(now), ..s };
            &&& tag == "__hs__"@ && has(v, "count"@, JsonView::Integer(n as int)) ==> s.received(
                v,
                now,
            ) == alive.shaken(n, inbound::version_of(v), now)
            &&& tag == "file"@ && has(v, "data"@, body) ==> s.received(v, now) == alive.replied(
                inbound::reply_of(body),
                now,
            )
            &&& tag == "file"@ && lacks(v, "data"@) ==> s.received(v, now) == alive.replied(
                inbound::reply_of(v),
                now,
            )
            &&& tag != "__hs__"@ && tag != "file"@ ==> s.received(v, now) == alive
        }),
{
    reveal_strlit("__hs__");
    reveal_strlit("file");
    assert("__hs__"@.len() != "file"@.len());
}

/// A message without a tag is a sign of life, and nothing more; an event that is no JSON
/// is its own text.
pub proof fn messages_without_a_tag(s: UiView, v: JsonView, event: Seq<char>, now: u64)
    ensures
        lacks(v, "tag"@) ==> s.received(v, now) == (UiView { last_inbound_at: Some(now), ..s }),
        json::json_parse(event) is None ==> inbound::payload_text(event) == event,
{
    reveal_strlit("__hs__");
    reveal_strlit("file");
    assert("__hs__"@.len() == 6 && "file"@.len() == 4);
}

/// The version in a handshake is its number, or the number that its text writes.
pub proof fn a_version_is_a_number_or_its_text(v: JsonView, n: i64, t: Seq<char>)
    ensures
        has(v, "version"@, JsonView::Integer(n as int)) ==> inbound::version_of(v) == Some(n),
        has(v, "version"@, JsonView::Text(t)) && text::trim(t) == text::integer(n as int)
            ==> inbound::version_of(v) == Some(n),
        has(v, "version"@, JsonView::Text(t)) && text::i64_value(text::trim(t)) is None
            ==> inbound::version_of(v) is None,
        has(v, "version"@, JsonView::Real { text: t, truncated: n }) ==> inbound::version_of(v)
            == Some(n),
        has(v, "version"@, JsonView::Null) ==> inbound::version_of(v) is None,
        lacks(v, "version"@) ==> inbound::version_of(v) is None,
{
    text::integer_round_trips(n);
}

/// The text of an event is its `payloadText`, else its `payload`, written out where it
/// is no text, else the event itself.
pub proof fn the_text_inside_an_event(event: Seq<char>, v: JsonView, x: JsonView, t: Seq<char>)
    requires
        json::json_parse(event) == Some(v),
    ensures
        has(v, "payloadText"@, JsonView::Text(t)) ==> inbound::payload_text(event) == t,
        lacks(v, "payloadText"@) && has(v, "payload"@, JsonView::Text(t)) ==> inbound::payload_text(
            event,
        ) == t,
        lacks(v, "payloadText"@) && has(v, "payload"@, x) && !(x is Text) ==> inbound::payload_text(
            event,
        ) == json::json_text(x),
        lacks(v, "payloadText"@) && lacks(v, "payload"@) ==> inbound::payload_text(event) == event,
{
}

} // verus!
