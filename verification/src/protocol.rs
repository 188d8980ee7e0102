//! The messages that go to the wristband.
//!
//! A message is the text of a JSON object. Its `tag` names the module: `__hs__`
//! for the handshake, `file` for everything else; there `stat` names the action.
use crate::json;
use crate::json::JsonView;
use serde_json::Value;
use vstd::prelude::*;

pub use crate::base64::base64_encode;

verus! {

/// The package name of the receiving app.
pub const PACKAGE: &'static str = "com.bandbbs.ebook.plus";

/// The display name of the receiving app.
pub const APP_LABEL: &'static str = "弦电子书";

/// What the receiving app needs, in one line.
pub const APP_HINT: &'static str = "按章节传输，需 V26.5.1+";

/// The tag of handshake messages.
pub const TAG_HANDSHAKE: &'static str = "__hs__";

/// The tag of all other messages.
pub const TAG_FILE: &'static str = "file";

/// The lowest version that this side declares.
///
/// The receiver refuses a handshake whose version is below the one it asks for.
/// A version is written `1`, then the major version in two digits, the minor and
/// the patch version in one each, and `0`: V26.5.1 is 126510.
pub const SENDER_VERSION: i64 = 126_510;

/// The members of a message.
pub type Members = Map<Seq<char>, JsonView>;

/// The text of the object with the given members.
pub open spec fn wire(m: Members) -> Seq<char> {
    json::json_text(JsonView::Object(m))
}

/// The text is that of the object, and reads as that object.
pub open spec fn carries(s: Seq<char>, m: Members) -> bool {
    &&& s == wire(m)
    &&& json::json_parse(s) == Some(JsonView::Object(m))
}

/// The members are scalars, or flat lists and objects.
pub open spec fn sendable(m: Members) -> bool {
    json::plain(JsonView::Object(m))
}

/// An object without members can be sent.
broadcast proof fn lemma_sendable_empty()
    ensures
        #[trigger] sendable(json::no_members()),
{
}

/// A plain member can be added.
broadcast proof fn lemma_sendable_insert(m: Members, k: Seq<char>, v: JsonView)
    requires
        sendable(m),
        json::flat(v),
    ensures
        #[trigger] sendable(m.insert(k, v)),
{
    let after = m.insert(k, v);
    assert(JsonView::Object(m)->Object_0 == m);
    assert forall|key: Seq<char>| #[trigger] after.contains_key(key) implies json::flat(
        after[key],
    ) by {
        if key == k {
            assert(after[key] == v);
        } else {
            assert(m.contains_key(key));
            assert(after[key] == m[key]);
            assert(json::flat(m[key]));
        }
    }
}

broadcast group sendable_objects {
    lemma_sendable_empty,
    lemma_sendable_insert,
}

/// A message with no more than a tag and an action.
pub open spec fn action(stat: Seq<char>) -> Members {
    json::no_members().insert("tag"@, JsonView::Text(TAG_FILE@)).insert(
        "stat"@,
        JsonView::Text(stat),
    )
}

fn new_action(stat: &str) -> (m: serde_json::Map<String, Value>)
    ensures
        json::members(m) == action(stat@),
{
    let mut m = json::new_object();
    json::put(&mut m, "tag", json::text_value(TAG_FILE));
    json::put(&mut m, "stat", json::text_value(stat));
    m
}

fn message(m: serde_json::Map<String, Value>) -> (r: String)
    requires
        sendable(json::members(m)),
    ensures
        carries(r@, json::members(m)),
{
    json::value_text(&json::object_value(m))
}

// ---------------------------------------------------------------- handshake

/// The version that this side declares: its own, or the peer's where that is higher.
pub open spec fn declared_version(peer: Option<i64>) -> i64 {
    match peer {
        Some(v) => if v > SENDER_VERSION {
            v
        } else {
            SENDER_VERSION
        },
        None => SENDER_VERSION,
    }
}

/// The members of a handshake.
pub open spec fn handshake_members(count: nat, peer: Option<i64>) -> Members {
    json::no_members().insert("tag"@, JsonView::Text(TAG_HANDSHAKE@)).insert(
        "count"@,
        JsonView::Integer(count as int),
    ).insert("version"@, JsonView::Integer(declared_version(peer) as int))
}

/// A handshake. `peer_version` is the version that the wristband gave in its own
/// handshake: declaring at least as much is enough even where a later version of
/// the wristband app asks for more.
pub fn handshake(count: usize, peer_version: Option<i64>) -> (r: String)
    ensures
        carries(r@, handshake_members(count as nat, peer_version)),
{
    broadcast use sendable_objects;

    let version = match peer_version {
        Some(v) => if v > SENDER_VERSION {
            v
        } else {
            SENDER_VERSION
        },
        None => SENDER_VERSION,
    };
    let mut m = json::new_object();
    json::put(&mut m, "tag", json::text_value(TAG_HANDSHAKE));
    json::put(&mut m, "count", json::unsigned_value(count as u64));
    json::put(&mut m, "version", json::signed_value(version));
    message(m)
}

/// The declared version is never below this side's own, nor below the peer's.
pub proof fn declared_version_is_never_too_low(peer: Option<i64>)
    ensures
        declared_version(peer) >= SENDER_VERSION,
        peer matches Some(v) ==> declared_version(peer) >= v,
        declared_version(peer) == SENDER_VERSION || Some(declared_version(peer)) == peer,
{
}

// ---------------------------------------------------------------- transfer

/// An optional text that is there and not empty.
pub open spec fn given(s: Option<Seq<char>>) -> bool {
    s matches Some(t) && t.len() > 0
}

/// An optional string slice, as mathematics.
pub open spec fn maybe_str(s: Option<&str>) -> Option<Seq<char>> {
    match s {
        Some(t) => Some(t@),
        None => None,
    }
}

/// The members of the message that starts a transfer, without author and summary.
pub open spec fn start_members(
    filename: Seq<char>,
    total_chapters: nat,
    word_count: nat,
    start_from: nat,
    has_cover: bool,
) -> Members {
    action("startTransfer"@).insert("filename"@, JsonView::Text(filename)).insert(
        "total"@,
        JsonView::Integer(total_chapters as int),
    ).insert("wordCount"@, JsonView::Integer(word_count as int)).insert(
        "startFrom"@,
        JsonView::Integer(start_from as int),
    ).insert("hasCover"@, JsonView::Bool(has_cover))
}

/// `m`, with the text under `key` where there is one.
pub open spec fn with_text(m: Members, key: Seq<char>, s: Option<Seq<char>>) -> Members {
    if given(s) {
        m.insert(key, JsonView::Text(s->0))
    } else {
        m
    }
}

/// The members of the message that starts a transfer.
pub open spec fn start_transfer_members(
    filename: Seq<char>,
    total_chapters: nat,
    word_count: nat,
    start_from: nat,
    has_cover: bool,
    author: Option<Seq<char>>,
    summary: Option<Seq<char>>,
) -> Members {
    with_text(
        with_text(
            start_members(filename, total_chapters, word_count, start_from, has_cover),
            "author"@,
            author,
        ),
        "summary"@,
        summary,
    )
}

fn put_given(m: &mut serde_json::Map<String, Value>, key: &str, s: Option<&str>)
    ensures
        json::members(*final(m)) == with_text(json::members(*old(m)), key@, maybe_str(s)),
{
    if let Some(t) = s {
        if !t.is_empty() {
            json::put(m, key, json::text_value(t));
        }
    }
}

/// Starts a transfer.
///
/// `total_chapters` counts the chapters of the whole book, and `start_from` is the
/// position in the book of the first chapter that will be sent: both describe the
/// book, also where chapters are skipped. Author and summary are left out where
/// they are empty.
pub fn plus_start_transfer(
    filename: &str,
    total_chapters: usize,
    word_count: usize,
    start_from: usize,
    has_cover: bool,
    author: Option<&str>,
    summary: Option<&str>,
) -> (r: String)
    ensures
        carries(
            r@,
            start_transfer_members(
                filename@,
                total_chapters as nat,
                word_count as nat,
                start_from as nat,
                has_cover,
                maybe_str(author),
                maybe_str(summary),
            ),
        ),
{
    broadcast use sendable_objects;

    let mut m = new_action("startTransfer");
    json::put(&mut m, "filename", json::text_value(filename));
    json::put(&mut m, "total", json::unsigned_value(total_chapters as u64));
    json::put(&mut m, "wordCount", json::unsigned_value(word_count as u64));
    json::put(&mut m, "startFrom", json::unsigned_value(start_from as u64));
    json::put(&mut m, "hasCover", json::bool_value(has_cover));
    put_given(&mut m, "author", author);
    put_given(&mut m, "summary", summary);
    message(m)
}

/// The message that starts a transfer has an author, and a summary, exactly where
/// one was given.
pub proof fn start_transfer_omits_empty_texts(
    filename: Seq<char>,
    total_chapters: nat,
    word_count: nat,
    start_from: nat,
    has_cover: bool,
    author: Option<Seq<char>>,
    summary: Option<Seq<char>>,
)
    ensures
        ({
            let m = start_transfer_members(
                filename,
                total_chapters,
                word_count,
                start_from,
                has_cover,
                author,
                summary,
            );
            &&& m.contains_key("author"@) <==> given(author)
            &&& m.contains_key("summary"@) <==> given(summary)
            &&& m.contains_key("hasCover"@)
        }),
{
    reveal_strlit("tag");
    reveal_strlit("stat");
    reveal_strlit("filename");
    reveal_strlit("total");
    reveal_strlit("wordCount");
    reveal_strlit("startFrom");
    reveal_strlit("hasCover");
    reveal_strlit("author");
    reveal_strlit("summary");
    assert("author"@[0] == 'a');
    assert("summary"@[1] == 'u');
    assert("tag"@[0] == 't');
    assert("stat"@[0] == 's' && "stat"@[1] == 't');
    assert("filename"@[0] == 'f');
    assert("total"@[0] == 't');
    assert("wordCount"@[0] == 'w');
    assert("startFrom"@[0] == 's' && "startFrom"@[1] == 't');
    assert("hasCover"@[0] == 'h');
}

/// The members of the text inside a chunk message.
pub open spec fn chunk_data(
    chapter_index: nat,
    chapter_name: Seq<char>,
    word_count: nat,
    content: Seq<char>,
    chunk_num: nat,
    total_chunks: nat,
) -> Members {
    json::no_members().insert("index"@, JsonView::Integer(chapter_index as int)).insert(
        "name"@,
        JsonView::Text(chapter_name),
    ).insert("wordCount"@, JsonView::Integer(word_count as int)).insert(
        "content"@,
        JsonView::Text(content),
    ).insert("chunkNum"@, JsonView::Integer(chunk_num as int)).insert(
        "totalChunks"@,
        JsonView::Integer(total_chunks as int),
    )
}

/// The members of a chunk message: the chunk itself is JSON text in `data`.
pub open spec fn chunk_members(
    chapter_index: nat,
    chapter_name: Seq<char>,
    word_count: nat,
    content: Seq<char>,
    chunk_num: nat,
    total_chunks: nat,
) -> Members {
    action("d"@).insert("count"@, JsonView::Integer(chapter_index as int)).insert(
        "data"@,
        JsonView::Text(
            wire(
                chunk_data(
                    chapter_index,
                    chapter_name,
                    word_count,
                    content,
                    chunk_num,
                    total_chunks,
                ),
            ),
        ),
    )
}

/// One chunk of a chapter.
pub fn plus_chapter_chunk(
    chapter_index: usize,
    chapter_name: &str,
    word_count: usize,
    content: &str,
    chunk_num: usize,
    total_chunks: usize,
) -> (r: String)
    ensures
        carries(
            r@,
            chunk_members(
                chapter_index as nat,
                chapter_name@,
                word_count as nat,
                content@,
                chunk_num as nat,
                total_chunks as nat,
            ),
        ),
        ({
            let data = chunk_data(
                chapter_index as nat,
                chapter_name@,
                word_count as nat,
                content@,
                chunk_num as nat,
                total_chunks as nat,
            );
            json::json_parse(wire(data)) == Some(JsonView::Object(data))
        }),
{
    broadcast use sendable_objects;

    let mut data = json::new_object();
    json::put(&mut data, "index", json::unsigned_value(chapter_index as u64));
    json::put(&mut data, "name", json::text_value(chapter_name));
    json::put(&mut data, "wordCount", json::unsigned_value(word_count as u64));
    json::put(&mut data, "content", json::text_value(content));
    json::put(&mut data, "chunkNum", json::unsigned_value(chunk_num as u64));
    json::put(&mut data, "totalChunks", json::unsigned_value(total_chunks as u64));
    let data = message(data);
    let mut m = new_action("d");
    json::put(&mut m, "count", json::unsigned_value(chapter_index as u64));
    json::put(&mut m, "data", json::text_value(data.as_str()));
    message(m)
}

/// The members of the message after the last chunk of a chapter.
pub open spec fn chapter_complete_members(chapter_index: nat) -> Members {
    action("chapter_complete"@).insert("count"@, JsonView::Integer(chapter_index as int))
}

/// All chunks of a chapter were sent.
pub fn plus_chapter_complete(chapter_index: usize) -> (r: String)
    ensures
        carries(r@, chapter_complete_members(chapter_index as nat)),
{
    broadcast use sendable_objects;

    let mut m = new_action("chapter_complete");
    json::put(&mut m, "count", json::unsigned_value(chapter_index as u64));
    message(m)
}

/// The whole book was sent.
pub fn plus_transfer_complete() -> (r: String)
    ensures
        carries(r@, action("transfer_complete"@)),
{
    broadcast use sendable_objects;

    message(new_action("transfer_complete"))
}

// ---------------------------------------------------------------- queries and settings

/// The members of the question about a book.
pub open spec fn book_status_members(filename: Seq<char>) -> Members {
    action("get_book_status"@).insert("filename"@, JsonView::Text(filename))
}

/// Asks which chapters of a book the wristband has, and whether it has the cover.
pub fn plus_get_book_status(filename: &str) -> (r: String)
    ensures
        carries(r@, book_status_members(filename@)),
{
    broadcast use sendable_objects;

    let mut m = new_action("get_book_status");
    json::put(&mut m, "filename", json::text_value(filename));
    message(m)
}

/// Asks for the storage of the wristband.
pub fn plus_get_storage_info() -> (r: String)
    ensures
        carries(r@, action("get_storage_info"@)),
{
    broadcast use sendable_objects;

    message(new_action("get_storage_info"))
}

/// A list of texts as a JSON array.
pub open spec fn text_list(keys: Seq<Seq<char>>) -> JsonView {
    JsonView::Array(Seq::new(keys.len(), |i: int| JsonView::Text(keys[i])))
}

/// The texts of string slices.
pub open spec fn slices(keys: Seq<&str>) -> Seq<Seq<char>> {
    Seq::new(keys.len(), |i: int| keys[i]@)
}

/// The members of the question about settings.
pub open spec fn get_settings_members(keys: Seq<Seq<char>>) -> Members {
    action("get_settings"@).insert("keys"@, text_list(keys))
}

/// Asks for reading settings of the wristband.
pub fn plus_get_settings(keys: &[&str]) -> (r: String)
    ensures
        carries(r@, get_settings_members(slices(keys@))),
{
    broadcast use sendable_objects;

    let mut items: Vec<Value> = Vec::new();
    let mut i: usize = 0;
    while i < keys.len()
        invariant
            i <= keys@.len(),
            items@.len() == i,
            forall|j: int|
                0 <= j < i ==> json::json_view(#[trigger] items@[j]) == JsonView::Text(keys@[j]@),
        decreases keys@.len() - i,
    {
        items.push(json::text_value(keys[i]));
        i += 1;
    }
    let mut m = new_action("get_settings");
    let ghost list = JsonView::Array(Seq::new(items@.len(), |i: int| json::json_view(items@[i])));
    assert(list->Array_0 =~= text_list(slices(keys@))->Array_0);
    json::put(&mut m, "keys", json::array_value(items));
    assert(json::flat(list));
    message(m)
}

/// An object with one member, a text.
pub open spec fn one_text(key: Seq<char>, value: Seq<char>) -> JsonView {
    JsonView::Object(json::no_members().insert(key, JsonView::Text(value)))
}

/// The members of the message that writes a setting.
pub open spec fn set_setting_members(key: Seq<char>, value: Seq<char>) -> Members {
    action("set_settings"@).insert("settings"@, one_text(key, value))
}

/// Writes one reading setting of the wristband.
pub fn plus_set_setting(key: &str, value: &str) -> (r: String)
    ensures
        carries(r@, set_setting_members(key@, value@)),
{
    broadcast use sendable_objects;

    let mut settings = json::new_object();
    json::put(&mut settings, key, json::text_value(value));
    let mut m = new_action("set_settings");
    json::put(&mut m, "settings", json::object_value(settings));
    assert(json::flat(one_text(key@, value@)));
    message(m)
}

// ---------------------------------------------------------------- cover

/// The members of a cover chunk.
pub open spec fn cover_chunk_members(
    chunk_index: nat,
    total_chunks: nat,
    data: Seq<char>,
) -> Members {
    action("cover_chunk"@).insert("chunkIndex"@, JsonView::Integer(chunk_index as int)).insert(
        "totalChunks"@,
        JsonView::Integer(total_chunks as int),
    ).insert("data"@, JsonView::Text(data))
}

/// One chunk of the cover, as base64 text.
pub fn plus_cover_chunk(chunk_index: usize, total_chunks: usize, data: &str) -> (r: String)
    ensures
        carries(r@, cover_chunk_members(chunk_index as nat, total_chunks as nat, data@)),
{
    broadcast use sendable_objects;

    let mut m = new_action("cover_chunk");
    json::put(&mut m, "chunkIndex", json::unsigned_value(chunk_index as u64));
    json::put(&mut m, "totalChunks", json::unsigned_value(total_chunks as u64));
    json::put(&mut m, "data", json::text_value(data));
    message(m)
}

/// The whole cover was sent.
pub fn plus_cover_transfer_complete() -> (r: String)
    ensures
        carries(r@, action("cover_transfer_complete"@)),
{
    broadcast use sendable_objects;

    message(new_action("cover_transfer_complete"))
}

/// Calls the transfer off.
pub fn cancel() -> (r: String)
    ensures
        carries(r@, action("cancel"@)),
{
    broadcast use sendable_objects;

    message(new_action("cancel"))
}

} // verus!
