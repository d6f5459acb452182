//! Turns the source material that comes with a request into typed content
//! records. Nothing here reads a file: sizes come from the text at hand.
use vstd::prelude::*;
use vstd::utf8::*;

verus! {

/// The kind of loader that a caller names for a piece of source material.
#[derive(Debug, Clone, Copy, PartialEq, Eq, Structural)]
pub enum LoaderTag {
    Txt,
    Markdown,
    Pdf,
    UnknownLoader,
}

/// The kind of content that a record holds.
#[derive(Debug, Clone, Copy, PartialEq, Eq, Structural)]
pub enum ContentType {
    Text,
    Markdown,
    Pdf,
    Unknown,
}

/// Source material as a caller hands it in.
#[derive(Debug)]
pub struct RagMetadata {
    pub id: String,
    pub name: String,
    pub source: String,
    pub loader: LoaderTag,
    pub data: String,
}

/// Source material, typed and sized.
#[derive(Debug)]
pub struct RagContentEntry {
    pub id: String,
    pub name: String,
    pub source: String,
    pub content_type: ContentType,
    pub size: u64,
    pub content: String,
    pub extra: Option<String>,
}

/// The number of bytes that a text takes in UTF-8.
pub open spec fn byte_len(text: Seq<char>) -> nat {
    encode_utf8(text).len()
}

/// The kind of content that a loader yields.
pub open spec fn content_type_of(tag: LoaderTag) -> ContentType {
    match tag {
        LoaderTag::Txt => ContentType::Text,
        LoaderTag::Markdown => ContentType::Markdown,
        LoaderTag::Pdf => ContentType::Pdf,
        LoaderTag::UnknownLoader => ContentType::Unknown,
    }
}

/// Text and Markdown are sized by their content; whatever needs extraction
/// first reports 0.
pub open spec fn size_of(tag: LoaderTag, data: Seq<char>) -> nat {
    match tag {
        LoaderTag::Txt => byte_len(data),
        LoaderTag::Markdown => byte_len(data),
        LoaderTag::Pdf => 0,
        LoaderTag::UnknownLoader => 0,
    }
}

/// What `entry` must be to be the record made from `meta`.
pub open spec fn normalizes_to(meta: RagMetadata, entry: RagContentEntry) -> bool {
    &&& entry.id == meta.id
    &&& entry.name == meta.name
    &&& entry.source == meta.source
    &&& entry.content == meta.data
    &&& entry.content_type == content_type_of(meta.loader)
    &&& entry.size as nat == size_of(meta.loader, meta.data@)
    &&& entry.extra is None
}

/// The size in bytes of a text.
pub fn text_size(data: &str) -> (n: u64)
    ensures
        n as nat == byte_len(data@),
{
    let bytes = data.as_bytes();
    let n: usize = bytes.len();
    n as u64
}

/// Makes the content record of one piece of source material.
pub fn normalize(meta: RagMetadata) -> (entry: RagContentEntry)
    ensures
        normalizes_to(meta, entry),
{
    let size: u64 = match meta.loader {
        LoaderTag::Txt => text_size(meta.data.as_str()),
        LoaderTag::Markdown => text_size(meta.data.as_str()),
        LoaderTag::Pdf => 0,
        LoaderTag::UnknownLoader => 0,
    };
    let content_type = match meta.loader {
        LoaderTag::Txt => ContentType::Text,
        LoaderTag::Markdown => ContentType::Markdown,
        LoaderTag::Pdf => ContentType::Pdf,
        LoaderTag::UnknownLoader => ContentType::Unknown,
    };
    RagContentEntry {
        id: meta.id,
        name: meta.name,
        source: meta.source,
        content_type,
        size,
        content: meta.data,
        extra: None,
    }
}

/// Makes the content records of a request, one for each piece and in the
/// order given.
pub fn normalize_all(metadata: Vec<RagMetadata>) -> (entries: Vec<RagContentEntry>)
    ensures
        entries.len() == metadata.len(),
        forall|i: int|
            0 <= i < metadata.len() ==> normalizes_to(metadata[i], #[trigger] entries[i]),
{
    let ghost given = metadata@;
    let mut rest = metadata;
    let mut reversed: Vec<RagContentEntry> = Vec::new();
    while rest.len() > 0
        invariant
            rest.len() + reversed.len() == given.len(),
            rest@ == given.take(rest.len() as int),
            forall|k: int|
                0 <= k < reversed.len() ==> normalizes_to(
                    given[given.len() - 1 - k],
                    #[trigger] reversed[k],
                ),
        decreases rest.len(),
    {
        let meta = rest.pop().unwrap();
        assert(meta == given[given.len() - 1 - reversed.len()]);
        let entry = normalize(meta);
        reversed.push(entry);
        assert(rest@ == given.take(rest.len() as int));
    }
    let mut entries: Vec<RagContentEntry> = Vec::new();
    while reversed.len() > 0
        invariant
            entries.len() + reversed.len() == given.len(),
            forall|k: int|
                0 <= k < reversed.len() ==> normalizes_to(
                    given[given.len() - 1 - k],
                    #[trigger] reversed[k],
                ),
            forall|i: int| 0 <= i < entries.len() ==> normalizes_to(given[i], #[trigger] entries[i]),
        decreases reversed.len(),
    {
        let entry = reversed.pop().unwrap();
        entries.push(entry);
    }
    entries
}

/// A text of ASCII characters alone takes one byte for each character.
pub proof fn lemma_ascii_size(tag: LoaderTag, data: Seq<char>)
    requires
        is_ascii_chars(data),
        tag == LoaderTag::Txt || tag == LoaderTag::Markdown,
    ensures
        size_of(tag, data) == data.len(),
{
    is_ascii_chars_encode_utf8(data);
}

/// Material that needs extraction reports size 0, whatever it holds.
pub proof fn lemma_deferred_size(tag: LoaderTag, data: Seq<char>)
    requires
        tag == LoaderTag::Pdf || tag == LoaderTag::UnknownLoader,
    ensures
        size_of(tag, data) == 0,
        content_type_of(tag) == ContentType::Pdf || content_type_of(tag) == ContentType::Unknown,
{
}

} // verus!
