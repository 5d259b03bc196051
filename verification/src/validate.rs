//! Integrity validation: dependent-entity creation is gated on the
//! existence of the declared parent, checked by counting parent rows
//! before any insert is attempted.

use vstd::prelude::*;

use crate::store::{room_with_id_exists, site_with_id_exists, EntityStore};
use crate::text::{dec_int, i64_to_dec_string};

verus! {

/// The kinds of parent entity whose existence gates a creation.
#[derive(Clone, Copy, Debug, PartialEq, Eq, Structural)]
pub enum ParentKind {
    Site,
    Room,
}

/// A referenced parent entity does not exist; raised before any write.
#[derive(Clone, Copy, Debug, PartialEq, Eq, Structural)]
pub struct IntegrityError {
    pub kind: ParentKind,
    pub id: i64,
}

/// The name under which a parent kind appears in messages.
pub open spec fn parent_kind_name(kind: ParentKind) -> Seq<char> {
    match kind {
        ParentKind::Site => "Site"@,
        ParentKind::Room => "Room"@,
    }
}

/// The text of an integrity failure: the parent kind and the identifier
/// that no row carries.
pub open spec fn integrity_message(kind: ParentKind, id: i64) -> Seq<char> {
    parent_kind_name(kind) + " with ID "@ + dec_int(id as int) + " does not exist"@
}

impl IntegrityError {
    /// The human-readable description of the failure, naming the missing
    /// parent.
    pub fn message(&self) -> (r: String)
        ensures
            r@ == integrity_message(self.kind, self.id),
    {
        let mut out = match self.kind {
            ParentKind::Site => String::from_str("Site"),
            ParentKind::Room => String::from_str("Room"),
        };
        out.append(" with ID ");
        let id_text = i64_to_dec_string(self.id);
        out.append(id_text.as_str());
        out.append(" does not exist");
        proof {
            assert(out@ =~= integrity_message(self.kind, self.id));
        }
        out
    }
}

/// Whether the store holds a parent row of the given kind under the given
/// identifier.
pub open spec fn parent_exists(store: EntityStore, kind: ParentKind, id: i64) -> bool {
    match kind {
        ParentKind::Site => site_with_id_exists(store.sites@, id),
        ParentKind::Room => room_with_id_exists(store.rooms@, id),
    }
}

/// Let a dependent creation proceed exactly when its declared parent
/// exists; otherwise describe the missing parent.
pub fn ensure_exists(store: &EntityStore, kind: ParentKind, id: i64) -> (r: Result<
    (),
    IntegrityError,
>)
    ensures
        r is Ok <==> parent_exists(*store, kind, id),
        r matches Err(e) ==> e.kind == kind && e.id == id,
{
    let count = match kind {
        ParentKind::Site => store.count_sites_with_id(id),
        ParentKind::Room => store.count_rooms_with_id(id),
    };
    if count == 0 {
        Err(IntegrityError { kind, id })
    } else {
        Ok(())
    }
}

} // verus!
