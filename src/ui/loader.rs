//! Building a control tree from a declarative JSON document. The document
//! schema is not settled yet: every well-formed document is reported as
//! unsupported.
use crate::ui::ui_container::Container;
use vstd::prelude::*;
use vstd::string::StringExecFns;

verus! {

/// serde_json's parsed document, carried through without looking inside.
#[verifier::external_type_specification]
#[verifier::external_body]
pub struct ExJsonValue(serde_json::Value);

/// serde_json's parse error, carried through without looking inside.
#[verifier::external_type_specification]
#[verifier::external_body]
pub struct ExJsonError(serde_json::Error);

/// Whether `b` is one JSON document that serde_json accepts.
pub uninterp spec fn is_json(b: Seq<u8>) -> bool;

/// Relies on `serde_json::from_slice::<Value>`: it parses the bytes as one
/// JSON document, and whether it succeeds depends on the bytes alone.
#[verifier::external_body]
fn parse_json(data: &[u8]) -> (r: Result<serde_json::Value, serde_json::Error>)
    ensures
        r is Ok == is_json(data@),
{
    serde_json::from_slice(data)
}

/// Relies on the `Display` impl of `serde_json::Error` for its message.
#[verifier::external_body]
fn json_error_text(e: &serde_json::Error) -> String {
    e.to_string()
}

/// Why a tree could not be loaded.
pub enum EUILoaderError {
    /// The document could not be read.
    ReadJson(String),
    /// The document is not JSON.
    ParseJson(String),
    /// The document is JSON that describes no supported tree.
    Unknow,
}

/// The message of a parse failure: the parser's own text after a prefix.
pub open spec fn parse_message_prefix() -> Seq<char> {
    "serde-error: "@
}

/// Loads a control tree from the bytes of a document.
pub fn load_document(data: &[u8]) -> (r: Result<Container, EUILoaderError>)
    ensures
        is_json(data@) ==> r matches Err(EUILoaderError::Unknow),
        !is_json(data@) ==> (r matches Err(EUILoaderError::ParseJson(m)) && m@.len()
            >= parse_message_prefix().len() && m@.take(parse_message_prefix().len() as int)
            == parse_message_prefix()),
{
    match parse_json(data) {
        Ok(_v) => Err(EUILoaderError::Unknow),
        Err(e) => {
            let text = json_error_text(&e);
            let mut m = String::from_str("serde-error: ");
            proof {
                reveal_strlit("serde-error: ");
            }
            let ghost head = m@;
            m.append(text.as_str());
            assert(m@.take(head.len() as int) =~= head);
            Err(EUILoaderError::ParseJson(m))
        },
    }
}

} // verus!
