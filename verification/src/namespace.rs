//! The channel that scopes the blobs of one store: a fixed-width identifier,
//! called a namespace by the ledger.

use vstd::prelude::*;
use vstd::slice::*;

verus! {

/// Width of a channel identifier in bytes.
pub const NAMESPACE_WIDTH: usize = 10;

/// `celestia_types::nmt::Namespace`, the ledger's own form of a channel
/// identifier. The store carries it through and never looks inside.
#[verifier::external_type_specification]
#[verifier::external_body]
pub struct ExNamespace(celestia_types::nmt::Namespace);

/// `celestia_types::Error`, the failure that building a namespace reports.
#[verifier::external_type_specification]
#[verifier::external_body]
pub struct ExNamespaceError(celestia_types::Error);

/// Whether the bytes from `from` up to `to` all equal `value`.
pub open spec fn all_equal(bytes: Seq<u8>, from: int, to: int, value: u8) -> bool {
    forall|i: int| from <= i < to ==> #[trigger] bytes[i] == value
}

/// The ids that the ledger's namespace type accepts under a version.
/// Version 0 takes a suffix of at most ten bytes, or a full id of 28 bytes
/// that begins with 18 zero bytes. Version 255 takes a full id of 28 bytes
/// that begins with 27 bytes `0xff`. No other version is supported.
pub open spec fn namespace_accepted(version: u8, id: Seq<u8>) -> bool {
    if version == 0 {
        id.len() <= 10 || (id.len() == 28 && all_equal(id, 0, 18, 0))
    } else if version == 255 {
        id.len() == 28 && all_equal(id, 0, 27, 0xff)
    } else {
        false
    }
}

/// The namespace that `celestia_types::nmt::Namespace::new` builds for a
/// version and an id that it accepts.
pub uninterp spec fn namespace_made(version: u8, id: Seq<u8>) -> celestia_types::nmt::Namespace;

/// `celestia_types::nmt::Namespace::new`: builds the namespace for a version
/// and an id. Claimed here: on which inputs it returns a namespace, as read
/// from the checks in `new`, `new_v0` and `new_v255`; and that the namespace
/// is a function of version and id alone, which the contract names. Nothing
/// is claimed of what the namespace holds.
pub assume_specification[ celestia_types::nmt::Namespace::new ](version: u8, id: &[u8]) -> (made:
    Result<celestia_types::nmt::Namespace, celestia_types::Error>)
    ensures
        made is Ok <==> namespace_accepted(version, id@),
        made matches Ok(namespace) ==> namespace == namespace_made(version, id@),
;

/// Renders a `celestia_types::Error` with its `to_string`. Nothing is claimed
/// of the text.
#[verifier::external_body]
pub(crate) fn namespace_error_text(error: &celestia_types::Error) -> (text: String) {
    error.to_string()
}

/// The identifier of fixed width for a name of any length: a shorter name is
/// padded with zero bytes in front, of a longer one the last `width` bytes
/// are kept.
pub open spec fn padded(name: Seq<u8>, width: nat) -> Seq<u8> {
    if name.len() > width {
        name.subrange(name.len() - width, name.len() as int)
    } else {
        Seq::new((width - name.len()) as nat, |i: int| 0u8) + name
    }
}

/// Fits a name into an identifier of `width` bytes: right-aligned behind zero
/// bytes where it is shorter, cut down to its last `width` bytes where it is
/// longer.
pub fn pad_namespace(name: &[u8], width: usize) -> (id: Vec<u8>)
    ensures
        id@ == padded(name@, width as nat),
        id@.len() == width,
{
    let mut id: Vec<u8> = Vec::new();
    let skip: usize = if name.len() > width {
        name.len() - width
    } else {
        0
    };
    let fill: usize = if name.len() > width {
        0
    } else {
        width - name.len()
    };
    let mut i: usize = 0;
    while i < fill
        invariant
            i <= fill,
            id@ == Seq::new(i as nat, |k: int| 0u8),
        decreases fill - i,
    {
        id.push(0u8);
        assert(id@ =~= Seq::new((i + 1) as nat, |k: int| 0u8));
        i += 1;
    }
    let mut j: usize = skip;
    while j < name.len()
        invariant
            skip <= j <= name.len(),
            id@ == Seq::new(fill as nat, |k: int| 0u8) + name@.subrange(skip as int, j as int),
        decreases name.len() - j,
    {
        id.push(name[j]);
        assert(id@ =~= Seq::new(fill as nat, |k: int| 0u8) + name@.subrange(
            skip as int,
            j as int + 1,
        ));
        j += 1;
    }
    assert(id@ =~= padded(name@, width as nat)) by {
        if name.len() <= width {
            assert(name@.subrange(0, name@.len() as int) =~= name@);
        }
    }
    id
}

} // verus!
