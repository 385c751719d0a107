//! The closed set of securable kinds and their wire names.
use crate::text::same_text;
use vstd::prelude::*;
use vstd::string::*;

verus! {

/// Kind of a named object under access control.
#[derive(Debug, Clone, Copy, PartialEq, Eq, Structural)]
pub enum SecurableType {
    Catalog,
    Schema,
    Table,
    StorageCredential,
    ExternalLocation,
    Function,
    Share,
    Provider,
    Recipient,
    Metastore,
    Volume,
    Connection,
}

/// The kind whose wire name is `text`, if there is one. Together with
/// [`SecurableType::wire_name`] this is the whole mapping, in one place.
pub open spec fn parse_wire(text: Seq<char>) -> Option<SecurableType> {
    if text == "catalog"@ {
        Some(SecurableType::Catalog)
    } else if text == "schema"@ {
        Some(SecurableType::Schema)
    } else if text == "table"@ {
        Some(SecurableType::Table)
    } else if text == "storage_credential"@ {
        Some(SecurableType::StorageCredential)
    } else if text == "external_location"@ {
        Some(SecurableType::ExternalLocation)
    } else if text == "function"@ {
        Some(SecurableType::Function)
    } else if text == "share"@ {
        Some(SecurableType::Share)
    } else if text == "provider"@ {
        Some(SecurableType::Provider)
    } else if text == "recipient"@ {
        Some(SecurableType::Recipient)
    } else if text == "metastore"@ {
        Some(SecurableType::Metastore)
    } else if text == "volume"@ {
        Some(SecurableType::Volume)
    } else if text == "connection"@ {
        Some(SecurableType::Connection)
    } else {
        None
    }
}

impl SecurableType {
    /// The lower-case name under which the authority knows this kind.
    pub open spec fn wire_name(self) -> Seq<char> {
        match self {
            SecurableType::Catalog => "catalog"@,
            SecurableType::Schema => "schema"@,
            SecurableType::Table => "table"@,
            SecurableType::StorageCredential => "storage_credential"@,
            SecurableType::ExternalLocation => "external_location"@,
            SecurableType::Function => "function"@,
            SecurableType::Share => "share"@,
            SecurableType::Provider => "provider"@,
            SecurableType::Recipient => "recipient"@,
            SecurableType::Metastore => "metastore"@,
            SecurableType::Volume => "volume"@,
            SecurableType::Connection => "connection"@,
        }
    }

    /// Reads a wire name. Any other text is refused.
    pub fn from_str(input: &str) -> (parsed: Result<SecurableType, ()>)
        ensures
            parsed == match parse_wire(input@) {
                Some(kind) => Ok::<SecurableType, ()>(kind),
                None => Err::<SecurableType, ()>(()),
            },
    {
        if same_text(input, "catalog") {
            Ok(SecurableType::Catalog)
        } else if same_text(input, "schema") {
            Ok(SecurableType::Schema)
        } else if same_text(input, "table") {
            Ok(SecurableType::Table)
        } else if same_text(input, "storage_credential") {
            Ok(SecurableType::StorageCredential)
        } else if same_text(input, "external_location") {
            Ok(SecurableType::ExternalLocation)
        } else if same_text(input, "function") {
            Ok(SecurableType::Function)
        } else if same_text(input, "share") {
            Ok(SecurableType::Share)
        } else if same_text(input, "provider") {
            Ok(SecurableType::Provider)
        } else if same_text(input, "recipient") {
            Ok(SecurableType::Recipient)
        } else if same_text(input, "metastore") {
            Ok(SecurableType::Metastore)
        } else if same_text(input, "volume") {
            Ok(SecurableType::Volume)
        } else if same_text(input, "connection") {
            Ok(SecurableType::Connection)
        } else {
            Err(())
        }
    }

    /// The wire name as an owned string.
    pub fn to_string(&self) -> (text: String)
        ensures
            text@ == self.wire_name(),
    {
        String::from_str(self.as_str())
    }

    /// The wire name as a static slice.
    pub fn as_str(&self) -> (text: &'static str)
        ensures
            text@ == self.wire_name(),
    {
        match self {
            SecurableType::Catalog => "catalog",
            SecurableType::Schema => "schema",
            SecurableType::Table => "table",
            SecurableType::StorageCredential => "storage_credential",
            SecurableType::ExternalLocation => "external_location",
            SecurableType::Function => "function",
            SecurableType::Share => "share",
            SecurableType::Provider => "provider",
            SecurableType::Recipient => "recipient",
            SecurableType::Metastore => "metastore",
            SecurableType::Volume => "volume",
            SecurableType::Connection => "connection",
        }
    }
}

/// The twelve wire names are pairwise different.
proof fn lemma_wire_names_differ()
    ensures
        forall|a: SecurableType, b: SecurableType| a != b ==> a.wire_name() != b.wire_name(),
{
    reveal_strlit("catalog");
    reveal_strlit("schema");
    reveal_strlit("table");
    reveal_strlit("storage_credential");
    reveal_strlit("external_location");
    reveal_strlit("function");
    reveal_strlit("share");
    reveal_strlit("provider");
    reveal_strlit("recipient");
    reveal_strlit("metastore");
    reveal_strlit("volume");
    reveal_strlit("connection");
    assert forall|a: SecurableType, b: SecurableType| a != b implies a.wire_name()
        != b.wire_name() by {
        if a.wire_name().len() == b.wire_name().len() {
            assert(a.wire_name()[0] != b.wire_name()[0]);
        }
    }
}

/// Writing a kind and reading it back gives the same kind.
pub proof fn lemma_wire_round_trip(kind: SecurableType)
    ensures
        parse_wire(kind.wire_name()) == Some(kind),
{
    lemma_wire_names_differ();
    let back = parse_wire(kind.wire_name());
    assert(back is Some);
    assert(back.unwrap().wire_name() == kind.wire_name());
}

/// A text is read as a kind only if it is that kind's wire name.
pub proof fn lemma_parse_wire_sound(text: Seq<char>)
    ensures
        parse_wire(text) matches Some(kind) ==> kind.wire_name() == text,
        parse_wire(text) is None ==> forall|kind: SecurableType| kind.wire_name() != text,
{
}

} // verus!
