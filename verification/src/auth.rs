//! The authentication interceptor: every call carries a metadata map of header
//! names to values, and the `authorization` header must hold the expected
//! bearer token before any handler runs.

use vstd::prelude::*;

use crate::status::Status;

verus! {

/// One call-metadata header: a name and a value.
pub struct MetadataEntry {
    pub name: String,
    pub value: String,
}

/// The metadata of one call, read-only to the interceptor. Lookups take the
/// first entry with a matching name.
pub struct Metadata {
    pub entries: Vec<MetadataEntry>,
}

/// The value of the first entry named `name`, if any.
pub open spec fn spec_header(s: Seq<MetadataEntry>, name: Seq<char>) -> Option<Seq<char>>
    decreases s.len(),
{
    if s.len() == 0 {
        None
    } else if s.first().name@ == name {
        Some(s.first().value@)
    } else {
        spec_header(s.drop_first(), name)
    }
}

/// A call is authorized exactly when its `authorization` header holds the
/// literal bearer token.
pub open spec fn spec_authorized(s: Seq<MetadataEntry>) -> bool {
    spec_header(s, "authorization"@) == Some("Bearer 1234"@)
}

/// The interceptor itself: `Ok` exactly on authorized metadata, and every
/// rejection is `Unauthenticated`. Runs before dispatch, uniformly for
/// all four call patterns.
pub fn check_auth(metadata: &Metadata) -> (r: Result<(), Status>)
    ensures
        r is Ok <==> spec_authorized(metadata.entries@),
        r is Err ==> r == Err::<(), Status>(Status::Unauthenticated),
{
    let key: String = "authorization".to_owned();
    let token: String = "Bearer 1234".to_owned();
    let mut i: usize = 0;
    proof {
        assert(metadata.entries@.skip(0) =~= metadata.entries@);
    }
    while i < metadata.entries.len()
        invariant
            i <= metadata.entries@.len(),
            key@ == "authorization"@,
            token@ == "Bearer 1234"@,
            spec_header(metadata.entries@.skip(i as int), "authorization"@) == spec_header(
                metadata.entries@,
                "authorization"@,
            ),
        decreases metadata.entries@.len() - i,
    {
        let entry = &metadata.entries[i];
        proof {
            assert(metadata.entries@.skip(i as int).first() == metadata.entries@[i as int]);
        }
        if entry.name == key {
            if entry.value == token {
                return Ok(());
            } else {
                return Err(Status::Unauthenticated);
            }
        }
        proof {
            assert(metadata.entries@.skip(i as int).drop_first() =~= metadata.entries@.skip(
                i as int + 1,
            ));
        }
        i = i + 1;
    }
    proof {
        assert(metadata.entries@.skip(i as int) =~= Seq::<MetadataEntry>::empty());
    }
    Err(Status::Unauthenticated)
}

} // verus!
