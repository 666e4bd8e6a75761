//! Secrets that are resolved on demand and kept once resolved.

use crate::document::lemma_lookup_at;
use crate::document::lemma_lookup_none;
use crate::document::table_view;
use crate::document::Value;
use crate::document::ValueView;
use crate::error::outcome_view;
use crate::error::ConfigError;
use crate::error::ConfigErrorView;
use crate::error::Field;
use crate::outside::base64_decoded;
use crate::outside::bytes_content;
use crate::outside::decode_base64;
use bytes::Bytes;
use vstd::prelude::*;

verus! {

/// Secret bytes that a document gives inline, as base64, or as the path of a
/// file that holds them. Once resolved the bytes are kept in `cache`, and the
/// source is not consulted again.
#[derive(Clone, Debug)]
pub enum FileOrValue {
    File { file: String, cache: Option<Bytes> },
    Value { value: String, cache: Option<Bytes> },
}

/// The mathematical model of a [`FileOrValue`].
pub enum SecretView {
    File { file: Seq<char>, cache: Option<Seq<u8>> },
    Value { value: Seq<char>, cache: Option<Seq<u8>> },
}

/// The model of a cache slot.
pub open spec fn cache_view(cache: Option<Bytes>) -> Option<Seq<u8>> {
    match cache {
        Some(buffer) => Some(bytes_content(buffer)),
        None => None,
    }
}

/// The model of what came of reading a file: its content, or `None` where it
/// could not be read.
pub open spec fn content_view(content: Option<Vec<u8>>) -> Option<Seq<u8>> {
    match content {
        Some(data) => Some(data@),
        None => None,
    }
}

/// The model of the outcome of an operation that gives bytes.
pub open spec fn bytes_outcome(outcome: Result<Bytes, ConfigError>) -> Result<
    Seq<u8>,
    ConfigErrorView,
> {
    match outcome {
        Ok(buffer) => Ok(bytes_content(buffer)),
        Err(error) => Err(error@),
    }
}

impl View for FileOrValue {
    type V = SecretView;

    open spec fn view(&self) -> SecretView {
        match self {
            FileOrValue::File { file, cache } => SecretView::File {
                file: file@,
                cache: cache_view(*cache),
            },
            FileOrValue::Value { value, cache } => SecretView::Value {
                value: value@,
                cache: cache_view(*cache),
            },
        }
    }
}

impl SecretView {
    /// The same secret holding `cache`.
    pub open spec fn with_cache(self, cache: Option<Seq<u8>>) -> SecretView {
        match self {
            SecretView::File { file, .. } => SecretView::File { file, cache },
            SecretView::Value { value, .. } => SecretView::Value { value, cache },
        }
    }

    /// The path of the file that has to be read before the secret can be
    /// resolved: that of a file reference that was never resolved.
    pub open spec fn file_to_read(self) -> Option<Seq<char>> {
        match self {
            SecretView::File { file, cache: None } => Some(file),
            _ => None,
        }
    }

    /// The bytes of the secret. Kept bytes come first. Without them, an inline
    /// value is decoded, and a file reference gives `content`, which is what
    /// reading its file gave. `field` is where the secret stands in the
    /// document; a value that does not decode is reported at it.
    pub open spec fn resolve(self, content: Option<Seq<u8>>, field: Field) -> Result<
        Seq<u8>,
        ConfigErrorView,
    > {
        match self {
            SecretView::File { file, cache } => match cache {
                Some(kept) => Ok(kept),
                None => match content {
                    Some(data) => Ok(data),
                    None => Err(ConfigErrorView::Io(file)),
                },
            },
            SecretView::Value { value, cache } => match cache {
                Some(kept) => Ok(kept),
                None => match base64_decoded(value) {
                    Some(data) => Ok(data),
                    None => Err(ConfigErrorView::Decode(field)),
                },
            },
        }
    }

    /// The same secret as a document gives it, with no bytes kept.
    pub open spec fn fresh(self) -> SecretView {
        self.with_cache(None)
    }

    /// The secret that a node of a document describes: a file reference
    /// where the node has a text field `file`, else an inline value where it
    /// has a text field `value`. `field` is where the node stands.
    pub open spec fn from_document(doc: ValueView, field: Field) -> Result<
        SecretView,
        ConfigErrorView,
    > {
        match doc.field("file"@) {
            Some(ValueView::Text(file)) => Ok(SecretView::File { file, cache: None }),
            _ => match doc.field("value"@) {
                Some(ValueView::Text(value)) => Ok(SecretView::Value { value, cache: None }),
                _ => Err(ConfigErrorView::MalformedDocument(field)),
            },
        }
    }

    /// The node that describes the secret: a table with the one field `file`
    /// or `value`.
    pub open spec fn to_document(self) -> ValueView {
        match self {
            SecretView::File { file, .. } => ValueView::Table(
                seq![("file"@, ValueView::Text(file))],
            ),
            SecretView::Value { value, .. } => ValueView::Table(
                seq![("value"@, ValueView::Text(value))],
            ),
        }
    }

    /// Reading the node that describes a secret gives the secret back,
    /// without the bytes it kept.
    pub proof fn lemma_round_trip(self, field: Field)
        ensures
            SecretView::from_document(self.to_document(), field) == Ok::<
                SecretView,
                ConfigErrorView,
            >(self.fresh()),
    {
        reveal_strlit("file");
        reveal_strlit("value");
        assert("file"@.len() == 4 && "value"@.len() == 5);
        let entries = self.to_document()->Table_0;
        match self {
            SecretView::File { .. } => {
                lemma_lookup_at(entries, "file"@, 0);
            },
            SecretView::Value { .. } => {
                lemma_lookup_none(entries, "file"@);
                lemma_lookup_at(entries, "value"@, 0);
            },
        }
    }

    /// The secret after a resolution: it keeps the bytes it resolved to.
    pub open spec fn materialize(self, content: Option<Seq<u8>>, field: Field) -> Result<
        SecretView,
        ConfigErrorView,
    > {
        match self.resolve(content, field) {
            Ok(data) => Ok(self.with_cache(Some(data))),
            Err(error) => Err(error),
        }
    }
}

impl FileOrValue {
    /// A secret that is already resolved to `data`.
    pub fn with_value(data: Bytes) -> (secret: FileOrValue)
        ensures
            secret@ == (SecretView::File { file: "/tmp/mem"@, cache: Some(bytes_content(data)) }),
    {
        FileOrValue::File { file: String::from_str("/tmp/mem"), cache: Some(data) }
    }

    /// Reads a secret from the node of a document that stands at `field`.
    pub fn from_document(doc: &Value, field: Field) -> (secret: Result<FileOrValue, ConfigError>)
        ensures
            outcome_view(secret) == SecretView::from_document(doc@, field),
    {
        match doc.get("file") {
            Some(found) => match found.as_text() {
                Some(file) => {
                    return Ok(FileOrValue::File { file: file.clone(), cache: None });
                },
                None => {},
            },
            None => {},
        }
        match doc.get("value") {
            Some(found) => match found.as_text() {
                Some(value) => {
                    return Ok(FileOrValue::Value { value: value.clone(), cache: None });
                },
                None => {},
            },
            None => {},
        }
        Err(ConfigError::MalformedDocument(field))
    }

    /// Writes the secret as a node of a document. Kept bytes are not written.
    pub fn to_document(&self) -> (doc: Value)
        ensures
            doc@ == self@.to_document(),
    {
        let entries = match self {
            FileOrValue::File { file, cache: _ } => vec![
                Value::entry("file", Value::Text(file.clone())),
            ],
            FileOrValue::Value { value, cache: _ } => vec![
                Value::entry("value", Value::Text(value.clone())),
            ],
        };
        proof {
            assert(table_view(entries@) =~= self@.to_document()->Table_0);
        }
        Value::table(entries)
    }

    /// The path of the file that the caller has to read before it resolves
    /// this secret, if there is one.
    pub fn file_to_read(&self) -> (path: Option<&String>)
        ensures
            match path {
                Some(file) => self@.file_to_read() == Some(file@),
                None => self@.file_to_read() is None,
            },
    {
        match self {
            FileOrValue::File { file, cache: None } => Some(file),
            _ => None,
        }
    }

    /// What decoding the inline value at `field` came to, as the outcome of a
    /// resolution.
    pub fn decoded(outcome: Result<Vec<u8>, base64::DecodeError>, field: Field) -> (value: Result<
        Bytes,
        ConfigError,
    >)
        ensures
            match outcome {
                Ok(data) => bytes_outcome(value) == Ok::<Seq<u8>, ConfigErrorView>(data@),
                Err(_) => bytes_outcome(value) == Err::<Seq<u8>, ConfigErrorView>(
                    ConfigErrorView::Decode(field),
                ),
            },
    {
        match outcome {
            Ok(data) => Ok(Bytes::from(data)),
            Err(_) => Err(ConfigError::Decode(field)),
        }
    }

    /// What the secret resolves to, with nothing kept. A load resolves all its
    /// secrets by this first, and keeps their bytes once every one of them
    /// has resolved.
    pub(crate) fn resolved(&self, content: Option<Vec<u8>>, field: Field) -> (value: Result<
        Bytes,
        ConfigError,
    >)
        ensures
            bytes_outcome(value) == self@.resolve(content_view(content), field),
    {
        match self {
            FileOrValue::Value { value, cache } => match cache {
                Some(kept) => Ok(kept.clone()),
                None => Self::decoded(decode_base64(value.as_str()), field),
            },
            FileOrValue::File { file, cache } => match cache {
                Some(kept) => Ok(kept.clone()),
                None => match content {
                    Some(data) => Ok(Bytes::from(data)),
                    None => Err(ConfigError::Io(file.clone())),
                },
            },
        }
    }

    /// Resolves the secret to its bytes, and keeps them: the first resolution
    /// that succeeds is the only one that looks at the source. `content` is
    /// what reading the file named by [`FileOrValue::file_to_read`] gave,
    /// `None` where it could not be read; it is looked at only when that file
    /// is needed. `field` is where the secret stands in the document. On
    /// failure the secret stays as it was.
    pub fn get_value(&mut self, content: Option<Vec<u8>>, field: Field) -> (value: Result<
        Bytes,
        ConfigError,
    >)
        ensures
            bytes_outcome(value) == old(self)@.resolve(content_view(content), field),
            match old(self)@.resolve(content_view(content), field) {
                Ok(data) => final(self)@ == old(self)@.with_cache(Some(data)),
                Err(_) => final(self)@ == old(self)@,
            },
    {
        let data = match self.resolved(content, field) {
            Ok(data) => data,
            Err(error) => {
                return Err(error);
            },
        };
        self.keep(data.clone());
        Ok(data)
    }

    /// Keeps `data` as the bytes of the secret.
    pub fn keep(&mut self, data: Bytes)
        ensures
            final(self)@ == old(self)@.with_cache(Some(bytes_content(data))),
    {
        match self {
            FileOrValue::File { file: _, cache } => {
                *cache = Some(data);
            },
            FileOrValue::Value { value: _, cache } => {
                *cache = Some(data);
            },
        }
    }

    /// Resolves the secret now and keeps the bytes, so that later resolutions
    /// need no file. On failure the secret stays as it was.
    pub fn load(&mut self, content: Option<Vec<u8>>, field: Field) -> (outcome: Result<
        (),
        ConfigError,
    >)
        ensures
            match old(self)@.materialize(content_view(content), field) {
                Ok(warm) => outcome is Ok && final(self)@ == warm,
                Err(error) => outcome matches Err(e) && e@ == error && final(self)@ == old(self)@,
            },
    {
        match self.get_value(content, field) {
            Ok(_) => Ok(()),
            Err(error) => Err(error),
        }
    }
}

} // verus!
