//! Clipboard content (text, images, files), its size and kind, and clipboard
//! items stamped with an identifier, a time and the device they came from.

use vstd::prelude::*;
use vstd::string::StrSliceExecFns;

use crate::device::{DeviceId, is_random_uuid, random_uuid};

verus! {

/// A point in time: seconds since the Unix epoch and the nanoseconds within
/// that second, as `chrono::DateTime<Utc>` holds it (a leap second has
/// `nanos >= 1_000_000_000`).
#[derive(Debug, Clone, Copy, PartialEq, Eq, Structural)]
pub struct Timestamp {
    pub secs: i64,
    pub nanos: u32,
}

/// `a` is strictly later than `b`, in the order of `chrono::DateTime`.
pub open spec fn is_later(a: Timestamp, b: Timestamp) -> bool {
    a.secs > b.secs || (a.secs == b.secs && a.nanos > b.nanos)
}

impl Timestamp {
    /// Whether this time is strictly later than `other`.
    pub fn is_after(&self, other: &Timestamp) -> (r: bool)
        ensures
            r == is_later(*self, *other),
    {
        self.secs > other.secs || (self.secs == other.secs && self.nanos > other.nanos)
    }
}

/// The number of nanoseconds since the Unix epoch of a time that is not a leap
/// second.
pub open spec fn nanos_since_epoch(t: Timestamp) -> int {
    t.secs * 1_000_000_000 + t.nanos
}

/// `is_later` is the chronological order: between times that are not leap
/// seconds, one is later than another exactly when more nanoseconds have passed
/// since the epoch; in any case, a time in an earlier second is never later, and
/// one in a later second always is.
pub proof fn lemma_is_later_chronological(a: Timestamp, b: Timestamp)
    ensures
        a.nanos < 1_000_000_000 && b.nanos < 1_000_000_000 ==> (is_later(a, b) <==> nanos_since_epoch(a) > nanos_since_epoch(b)),
        a.secs < b.secs ==> !is_later(a, b) && is_later(b, a),
        !is_later(a, a),
        a != b ==> (is_later(a, b) || is_later(b, a)),
        is_later(a, b) ==> !is_later(b, a),
{
    if a.nanos < 1_000_000_000 && b.nanos < 1_000_000_000 {
        if a.secs > b.secs {
            assert(nanos_since_epoch(a) > nanos_since_epoch(b)) by (nonlinear_arith)
                requires
                    a.secs > b.secs,
                    a.nanos < 1_000_000_000,
                    b.nanos < 1_000_000_000,
                    nanos_since_epoch(a) == a.secs * 1_000_000_000 + a.nanos,
                    nanos_since_epoch(b) == b.secs * 1_000_000_000 + b.nanos,
                    a.nanos >= 0,
                    b.nanos >= 0,
            ;
        } else if a.secs < b.secs {
            assert(nanos_since_epoch(a) < nanos_since_epoch(b)) by (nonlinear_arith)
                requires
                    a.secs < b.secs,
                    a.nanos < 1_000_000_000,
                    b.nanos < 1_000_000_000,
                    nanos_since_epoch(a) == a.secs * 1_000_000_000 + a.nanos,
                    nanos_since_epoch(b) == b.secs * 1_000_000_000 + b.nanos,
                    a.nanos >= 0,
                    b.nanos >= 0,
            ;
        }
    }
}

/// Being later is transitive.
pub proof fn lemma_is_later_transitive(a: Timestamp, b: Timestamp, c: Timestamp)
    requires
        is_later(a, b),
        is_later(b, c),
    ensures
        is_later(a, c),
{
}

/// Calls `chrono::Utc::now` and takes `timestamp` and `timestamp_subsec_nanos`.
/// The time is the machine's; claimed is only that the clock gives no leap
/// second, as the crate's source builds it from `SystemTime`. (It panics when the
/// clock is before 1970.)
#[verifier::external_body]
pub(crate) fn current_time() -> (t: Timestamp)
    ensures
        t.nanos < 1_000_000_000,
{
    let now = chrono::Utc::now();
    Timestamp { secs: now.timestamp(), nanos: now.timestamp_subsec_nanos() }
}

/// A file in a multi-file clipboard operation.
#[derive(Debug, Clone, PartialEq)]
pub struct FileEntry {
    pub name: String,
    pub data: Vec<u8>,
    pub mime: String,
}

/// The content that can be in a clipboard.
#[derive(Debug, Clone, PartialEq)]
pub enum ClipboardContent {
    /// Plain text content
    Text(String),
    /// Image data with MIME type (e.g., "image/png")
    Image { data: Vec<u8>, mime: String },
    /// A single file
    File { name: String, data: Vec<u8>, mime: String },
    /// Multiple files
    Files(Vec<FileEntry>),
}

/// The total number of bytes of the files' data.
pub open spec fn files_size(files: Seq<FileEntry>) -> nat
    decreases files.len(),
{
    if files.len() == 0 {
        0
    } else {
        files_size(files.drop_last()) + files.last().data@.len()
    }
}

/// The size of the content in bytes: the UTF-8 length of text, the length of
/// the data of an image or a file, the sum over several files.
pub open spec fn content_size(c: ClipboardContent) -> nat {
    match c {
        ClipboardContent::Text(s) => vstd::utf8::encode_utf8(s@).len(),
        ClipboardContent::Image { data, .. } => data@.len(),
        ClipboardContent::File { data, .. } => data@.len(),
        ClipboardContent::Files(files) => files_size(files@),
    }
}

/// The name of each kind of content.
pub open spec fn content_kind(c: ClipboardContent) -> Seq<char> {
    match c {
        ClipboardContent::Text(_) => "text"@,
        ClipboardContent::Image { .. } => "image"@,
        ClipboardContent::File { .. } => "file"@,
        ClipboardContent::Files(_) => "files"@,
    }
}

impl ClipboardContent {
    /// Returns the size of the content in bytes. For several files the sum must
    /// fit in a `usize` (summing panics otherwise).
    pub fn size(&self) -> (n: usize)
        requires
            content_size(*self) <= usize::MAX,
        ensures
            n == content_size(*self),
    {
        match self {
            ClipboardContent::Text(s) => s.as_str().len(),
            ClipboardContent::Image { data, .. } => data.len(),
            ClipboardContent::File { data, .. } => data.len(),
            ClipboardContent::Files(files) => {
                let mut total: usize = 0;
                let mut i: usize = 0;
                while i < files.len()
                    invariant
                        i <= files@.len(),
                        total == files_size(files@.take(i as int)),
                        files_size(files@) <= usize::MAX,
                    decreases files@.len() - i,
                {
                    proof {
                        assert(files@.take(i + 1).drop_last() == files@.take(i as int));
                        lemma_files_size_prefix(files@, i + 1);
                    }
                    total = total + files[i].data.len();
                    i = i + 1;
                }
                assert(files@.take(files@.len() as int) == files@);
                total
            },
        }
    }

    /// Returns the name of the kind of content.
    pub fn content_type(&self) -> (t: &'static str)
        ensures
            t@ == content_kind(*self),
    {
        match self {
            ClipboardContent::Text(_) => "text",
            ClipboardContent::Image { .. } => "image",
            ClipboardContent::File { .. } => "file",
            ClipboardContent::Files(_) => "files",
        }
    }
}

/// A prefix of the files holds no more bytes than all of them.
proof fn lemma_files_size_prefix(files: Seq<FileEntry>, k: int)
    requires
        0 <= k <= files.len(),
    ensures
        files_size(files.take(k)) <= files_size(files),
    decreases files.len() - k,
{
    if k < files.len() {
        lemma_files_size_prefix(files, k + 1);
        assert(files.take(k + 1).drop_last() == files.take(k));
    } else {
        assert(files.take(k) == files);
    }
}

/// The number of bytes UTF-8 takes for a character: one below U+0080, two
/// below U+0800, three below U+10000, four above.
pub open spec fn utf8_width(c: char) -> nat {
    if (c as u32) < 0x80 {
        1
    } else if (c as u32) < 0x800 {
        2
    } else if (c as u32) < 0x10000 {
        3
    } else {
        4
    }
}

/// The UTF-8 encoding of characters followed by others is the two encodings
/// one after the other.
proof fn lemma_encode_utf8_concat(a: Seq<char>, b: Seq<char>)
    ensures
        vstd::utf8::encode_utf8(a + b) == vstd::utf8::encode_utf8(a) + vstd::utf8::encode_utf8(b),
    decreases a.len(),
{
    if a.len() > 0 {
        lemma_encode_utf8_concat(a.drop_first(), b);
        assert((a + b).drop_first() == a.drop_first() + b);
        assert((a + b)[0] == a[0]);
    } else {
        assert(a + b == b);
    }
}

/// The size of text adds up: text followed by other text is as large as both
/// together.
pub proof fn lemma_text_size_additive(a: ClipboardContent, b: ClipboardContent, ab: ClipboardContent)
    requires
        a is Text,
        b is Text,
        ab is Text,
        ab->Text_0@ == a->Text_0@ + b->Text_0@,
    ensures
        content_size(ab) == content_size(a) + content_size(b),
{
    lemma_encode_utf8_concat(a->Text_0@, b->Text_0@);
}

/// Text of a single character is as large as that character's UTF-8 form: one
/// to four bytes, by its code point.
pub proof fn lemma_text_size_of_char(t: ClipboardContent, c: char)
    requires
        t is Text,
        t->Text_0@ == seq![c],
    ensures
        content_size(t) == utf8_width(c),
{
    let s = seq![c];
    assert(s.drop_first() =~= Seq::<char>::empty());
    assert(vstd::utf8::encode_utf8(s) == vstd::utf8::encode_scalar(c as u32) + vstd::utf8::encode_utf8(Seq::<char>::empty()));
    assert(vstd::utf8::encode_utf8(Seq::<char>::empty()) =~= Seq::<u8>::empty());
    vstd::utf8::char_is_scalar(c);
}

/// The files of `a` followed by those of `b` hold the bytes of both.
proof fn lemma_files_size_concat(a: Seq<FileEntry>, b: Seq<FileEntry>)
    ensures
        files_size(a + b) == files_size(a) + files_size(b),
    decreases b.len(),
{
    if b.len() == 0 {
        assert(a + b == a);
    } else {
        lemma_files_size_concat(a, b.drop_last());
        assert((a + b).drop_last() == a + b.drop_last());
        assert((a + b).last() == b.last());
    }
}

/// The size of several files adds up: the files of `a` followed by those of
/// `b` are as large as `a` and `b` together.
pub proof fn lemma_files_size_additive(a: ClipboardContent, b: ClipboardContent, ab: ClipboardContent)
    requires
        a is Files,
        b is Files,
        ab is Files,
        ab->Files_0@ == a->Files_0@ + b->Files_0@,
    ensures
        content_size(ab) == content_size(a) + content_size(b),
{
    lemma_files_size_concat(a->Files_0@, b->Files_0@);
}

/// No files hold no bytes, and a single file in a list is as large as that
/// file on its own.
pub proof fn lemma_files_size_base(none: ClipboardContent, one: ClipboardContent, f: FileEntry)
    requires
        none is Files && none->Files_0@.len() == 0,
        one is Files && one->Files_0@ == seq![f],
    ensures
        content_size(none) == 0,
        content_size(one) == content_size(ClipboardContent::File { name: f.name, data: f.data, mime: f.mime }),
{
    let fs = one->Files_0@;
    assert(fs.drop_last() =~= Seq::<FileEntry>::empty());
    assert(files_size(fs.drop_last()) == 0);
    assert(fs.last() == f);
    assert(files_size(fs) == f.data@.len());
}

/// A clipboard item: content with an identifier, a time and its source device.
#[derive(Debug, Clone)]
pub struct ClipboardItem {
    /// Unique identifier (a UUID's value)
    pub id: u128,
    /// The actual content
    pub content: ClipboardContent,
    /// When the content was copied
    pub timestamp: Timestamp,
    /// Which device this came from
    pub source_device: DeviceId,
}

impl ClipboardItem {
    /// Creates a clipboard item with a random ID, copied at `timestamp`.
    pub fn stamped(content: ClipboardContent, source_device: DeviceId, timestamp: Timestamp) -> (item: ClipboardItem)
        ensures
            item.content == content,
            item.source_device == source_device,
            item.timestamp == timestamp,
            is_random_uuid(item.id),
    {
        ClipboardItem { id: random_uuid(), content, timestamp, source_device }
    }

    /// Creates a new clipboard item with a random ID and the current time, as
    /// `stamped` does with the clock's reading.
    pub fn new(content: ClipboardContent, source_device: DeviceId) -> (item: ClipboardItem)
        ensures
            item.content == content,
            item.source_device == source_device,
            is_random_uuid(item.id),
            item.timestamp.nanos < 1_000_000_000,
    {
        ClipboardItem::stamped(content, source_device, current_time())
    }

    /// Creates a text clipboard item.
    pub fn text(text: &str, source_device: DeviceId) -> (item: ClipboardItem)
        ensures
            item.content matches ClipboardContent::Text(s) && s@ == text@,
            item.source_device == source_device,
            is_random_uuid(item.id),
            item.timestamp.nanos < 1_000_000_000,
    {
        ClipboardItem::new(ClipboardContent::Text(String::from_str(text)), source_device)
    }

    /// Creates an image clipboard item.
    pub fn image(data: Vec<u8>, mime: &str, source_device: DeviceId) -> (item: ClipboardItem)
        ensures
            item.content matches ClipboardContent::Image { data: d, mime: m } && d == data && m@
                == mime@,
            item.source_device == source_device,
            is_random_uuid(item.id),
            item.timestamp.nanos < 1_000_000_000,
    {
        ClipboardItem::new(
            ClipboardContent::Image { data, mime: String::from_str(mime) },
            source_device,
        )
    }
}

/// `s` cut to `max_len` characters, with `...` appended when it was longer.
pub open spec fn truncated(s: Seq<char>, max_len: nat) -> Seq<char> {
    if s.len() <= max_len {
        s
    } else {
        s.take(max_len as int) + "..."@
    }
}

/// What truncation gives: text of at most `max_len` characters comes back
/// unchanged; longer text becomes its first `max_len` characters followed by
/// `...`, so that its prefix is kept and nothing of the rest.
pub proof fn lemma_truncated_shape(s: Seq<char>, max_len: nat)
    ensures
        s.len() <= max_len ==> truncated(s, max_len) == s,
        s.len() > max_len ==> {
            let r = truncated(s, max_len);
            &&& r.len() == max_len + 3
            &&& r.take(max_len as int) == s.take(max_len as int)
            &&& r[max_len as int] == '.' && r[max_len as int + 1] == '.' && r[max_len as int + 2] == '.'
        },
        truncated(s, max_len).len() <= max_len + 3,
{
    reveal_strlit("...");
    if s.len() > max_len {
        let r = truncated(s, max_len);
        assert(r.take(max_len as int) =~= s.take(max_len as int));
    }
}

/// Truncates a string to a maximum number of characters, adding "..." if it
/// was longer. Characters are never split.
pub fn truncate(s: &str, max_len: usize) -> (r: String)
    ensures
        r@ == truncated(s@, max_len as nat),
{
    let n = s.unicode_len();
    if n <= max_len {
        String::from_str(s)
    } else {
        let head = s.substring_char(0, max_len);
        let mut r = String::from_str(head);
        r.append("...");
        r
    }
}

} // verus!
